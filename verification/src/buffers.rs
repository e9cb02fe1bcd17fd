//! Short buffers held by the smallvec crate: keys of a chord in progress.

use crate::event::KeyEvent;
use crate::keybinds::Chord;
use smallvec::SmallVec;
use vstd::prelude::*;

verus! {

/// The chords of a binding typed so far.
#[verifier::external_body]
#[derive(Debug)]
pub struct ChordBuf {
    chords: SmallVec<[Chord; 4]>,
}

/// The chords in a buffer, in order.
pub uninterp spec fn chords_in(b: ChordBuf) -> Seq<Chord>;

impl View for ChordBuf {
    type V = Seq<Chord>;

    open spec fn view(&self) -> Seq<Chord> {
        chords_in(*self)
    }
}

impl ChordBuf {
    /// `smallvec::SmallVec::new`: an empty buffer.
    #[verifier::external_body]
    pub(crate) fn new() -> (r: ChordBuf)
        ensures
            chords_in(r) == Seq::<Chord>::empty(),
    {
        ChordBuf { chords: SmallVec::new() }
    }

    /// `smallvec::SmallVec::push`: puts one chord behind the others.
    #[verifier::external_body]
    pub(crate) fn push(&mut self, c: Chord)
        ensures
            chords_in(*final(self)) == chords_in(*old(self)).push(c),
    {
        self.chords.push(c);
    }

    /// `smallvec::SmallVec::clear`: takes every chord out.
    #[verifier::external_body]
    pub(crate) fn clear(&mut self)
        ensures
            chords_in(*final(self)) == Seq::<Chord>::empty(),
    {
        self.chords.clear();
    }

    /// `smallvec::SmallVec::as_slice`: the chords, in order.
    #[verifier::external_body]
    pub(crate) fn chords(&self) -> (r: &[Chord])
        ensures
            r@ == chords_in(*self),
    {
        self.chords.as_slice()
    }

    pub fn len(&self) -> (r: usize)
        ensures
            r == self@.len(),
    {
        self.chords().len()
    }

    pub fn is_empty(&self) -> (r: bool)
        ensures
            r == (self@.len() == 0),
    {
        self.chords().len() == 0
    }

    /// The chord at `i`, if there are so many.
    pub fn get(&self, i: usize) -> (r: Option<Chord>)
        ensures
            r == (if i < self@.len() {
                Some(self@[i as int])
            } else {
                None
            }),
    {
        let s = self.chords();
        if i < s.len() {
            Some(s[i])
        } else {
            None
        }
    }
}

/// The key events held back while a chord is in progress.
#[verifier::external_body]
#[derive(Debug)]
pub struct KeyBuf {
    keys: SmallVec<[KeyEvent; 4]>,
}

/// The key events in a buffer, in order.
pub uninterp spec fn keys_in(b: KeyBuf) -> Seq<KeyEvent>;

impl View for KeyBuf {
    type V = Seq<KeyEvent>;

    open spec fn view(&self) -> Seq<KeyEvent> {
        keys_in(*self)
    }
}

impl KeyBuf {
    /// `smallvec::SmallVec::new`: an empty buffer.
    #[verifier::external_body]
    pub(crate) fn new() -> (r: KeyBuf)
        ensures
            keys_in(r) == Seq::<KeyEvent>::empty(),
    {
        KeyBuf { keys: SmallVec::new() }
    }

    /// `smallvec::SmallVec::push`: puts one key event behind the others.
    #[verifier::external_body]
    pub(crate) fn push(&mut self, k: KeyEvent)
        ensures
            keys_in(*final(self)) == keys_in(*old(self)).push(k),
    {
        self.keys.push(k);
    }

    /// `smallvec::SmallVec::clear`: takes every key event out.
    #[verifier::external_body]
    pub(crate) fn clear(&mut self)
        ensures
            keys_in(*final(self)) == Seq::<KeyEvent>::empty(),
    {
        self.keys.clear();
    }

    /// `smallvec::SmallVec::as_slice`: the key events, in order.
    #[verifier::external_body]
    pub(crate) fn keys(&self) -> (r: &[KeyEvent])
        ensures
            r@ == keys_in(*self),
    {
        self.keys.as_slice()
    }
}

} // verus!
