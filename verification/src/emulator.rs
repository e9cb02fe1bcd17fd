//! The terminal emulator behind a session: what a session prints goes in, the
//! screen comes out.

use crate::cells::size_on;
use vstd::prelude::*;
use vt100::Screen;

verus! {

/// Lines that are kept once they have scrolled away.
pub const SCROLLBACK: usize = 10_000;

/// The fewest rows on which a line can wrap.
pub const MIN_ROWS: u16 = 2;

/// The fewest columns that hold the widest character.
pub const MIN_COLS: u16 = 3;

/// The most columns from which a tab stop can still be reached.
pub const MAX_COLS: u16 = 65_527;

/// The sizes at which a screen can take any output.
pub open spec fn roomy(rows: u16, cols: u16) -> bool {
    MIN_ROWS <= rows && MIN_COLS <= cols <= MAX_COLS
}

/// Whether a screen of that size can take any output.
pub fn is_roomy(rows: u16, cols: u16) -> (r: bool)
    ensures
        r == roomy(rows, cols),
{
    MIN_ROWS <= rows && MIN_COLS <= cols && cols <= MAX_COLS
}

/// A `vt100::Parser`: a screen, and the output of which only the start has come
/// so far. It is held in a field, since its type has a parameter that a trait of
/// its crate bounds.
#[verifier::external_body]
pub struct Emulator {
    parser: vt100::Parser,
}

/// An emulator that has seen nothing.
pub uninterp spec fn fresh(rows: u16, cols: u16, scrollback: usize) -> Emulator;

/// An emulator after it took bytes in.
pub uninterp spec fn advanced(e: Emulator, bytes: Seq<u8>) -> Emulator;

/// An emulator after its screen got another size.
pub uninterp spec fn resized(e: Emulator, rows: u16, cols: u16) -> Emulator;

/// An emulator after its view was moved so many lines back.
pub uninterp spec fn moved_back(e: Emulator, lines: usize) -> Emulator;

/// The screen of an emulator.
pub uninterp spec fn shown_by(e: Emulator) -> Screen;

/// How many lines the view of an emulator is back.
pub uninterp spec fn lines_back(e: Emulator) -> usize;

/// The rows and columns of an emulator's screen.
pub open spec fn dims(e: Emulator) -> (u16, u16) {
    size_on(shown_by(e))
}

/// How many lines an emulator keeps once they have scrolled away.
pub uninterp spec fn kept_lines(e: Emulator) -> usize;

/// Whether every character that takes two columns still has both of them, on the
/// main screen and on the alternate one.
pub uninterp spec fn whole(e: Emulator) -> bool;

/// Whether neither screen holds a character that takes more than one column, and
/// the start of none has come.
pub uninterp spec fn single_width(e: Emulator) -> bool;

/// Bytes that are ASCII.
pub open spec fn all_ascii(bytes: Seq<u8>) -> bool {
    forall|i: int| 0 <= i < bytes.len() ==> #[trigger] bytes[i] < 128
}

/// Whether a change of the width leaves every character both of its columns: no
/// column goes, or no character has two.
pub open spec fn cuts_none(e: Emulator, cols: u16) -> bool {
    dims(e).1 <= cols || single_width(e)
}

impl Emulator {
    /// `vt100::Parser::new`: a blank screen of that size, which will keep so many
    /// lines. Its arithmetic fails without a row.
    #[verifier::external_body]
    pub(crate) fn new(rows: u16, cols: u16, scrollback: usize) -> (r: Emulator)
        requires
            roomy(rows, cols),
        ensures
            r == fresh(rows, cols, scrollback),
            dims(r) == (rows, cols),
            kept_lines(r) == scrollback,
            lines_back(r) == 0,
            whole(r),
            single_width(r),
    {
        Emulator { parser: vt100::Parser::new(rows, cols, scrollback) }
    }

    /// `vt100::Parser::process` takes output in. The result is a function of what
    /// was there and of the bytes. No output changes the size of the screen or how
    /// many lines are kept, or takes one of its columns from a character; ASCII
    /// brings no wide characters. On a character that has lost a column, an erase
    /// or a write would reach past the end of its row.
    #[verifier::external_body]
    pub(crate) fn process(&mut self, bytes: &[u8])
        requires
            whole(*old(self)),
        ensures
            *final(self) == advanced(*old(self), bytes@),
            dims(*final(self)) == dims(*old(self)),
            kept_lines(*final(self)) == kept_lines(*old(self)),
            whole(*final(self)),
            single_width(*old(self)) && all_ascii(bytes@) ==> single_width(*final(self)),
    {
        self.parser.process(bytes);
    }

    /// `vt100::Parser::screen`: the screen as it is now.
    #[verifier::external_body]
    pub(crate) fn screen(&self) -> (r: &Screen)
        ensures
            *r == shown_by(*self),
    {
        self.parser.screen()
    }

    /// `vt100::Screen::set_size` gives the screen another size. Cells beyond the
    /// new edge go, so a wide character there may lose one of its columns; nothing
    /// is said of whether one did.
    #[verifier::external_body]
    pub(crate) fn set_size(&mut self, rows: u16, cols: u16)
        requires
            roomy(rows, cols),
        ensures
            *final(self) == resized(*old(self), rows, cols),
            dims(*final(self)) == (rows, cols),
            kept_lines(*final(self)) == kept_lines(*old(self)),
            lines_back(*final(self)) == lines_back(*old(self)),
            whole(*old(self)) && cuts_none(*old(self), cols) ==> whole(*final(self)),
            single_width(*old(self)) ==> single_width(*final(self)),
    {
        self.parser.screen_mut().set_size(rows, cols);
    }

    /// `vt100::Screen::scrollback`: how many lines the view is back, at most as
    /// many as are kept.
    #[verifier::external_body]
    pub(crate) fn scrollback(&self) -> (r: usize)
        ensures
            r == lines_back(*self),
            r <= kept_lines(*self),
    {
        self.parser.screen().scrollback()
    }

    /// `vt100::Screen::set_scrollback` moves the view so many lines back, as far
    /// as there are lines that scrolled away. Nothing else changes.
    #[verifier::external_body]
    pub(crate) fn set_scrollback(&mut self, lines: usize)
        ensures
            *final(self) == moved_back(*old(self), lines),
            lines_back(*final(self)) <= lines,
            dims(*final(self)) == dims(*old(self)),
            kept_lines(*final(self)) == kept_lines(*old(self)),
            whole(*final(self)) == whole(*old(self)),
            single_width(*final(self)) == single_width(*old(self)),
    {
        self.parser.screen_mut().set_scrollback(lines);
    }
}

/// An emulator, and what is known of the characters on its screens.
pub struct Terminal {
    pub emulator: Emulator,
    /// Nothing but ASCII has come so far.
    pub plain: bool,
    /// No character can have lost one of its columns.
    pub sure: bool,
}

/// A terminal after it took bytes in.
pub open spec fn taken_in(t: Terminal, bytes: Seq<u8>) -> Terminal {
    Terminal {
        emulator: advanced(t.emulator, bytes),
        plain: t.plain && all_ascii(bytes),
        sure: t.sure,
    }
}

/// A terminal of another size.
pub open spec fn reshaped(t: Terminal, rows: u16, cols: u16) -> Terminal {
    Terminal {
        emulator: resized(t.emulator, rows, cols),
        plain: t.plain,
        sure: t.sure && (dims(t.emulator).1 <= cols || t.plain),
    }
}

/// A terminal whose view was moved so many lines back.
pub open spec fn looked_back(t: Terminal, lines: usize) -> Terminal {
    Terminal { emulator: moved_back(t.emulator, lines), ..t }
}

fn is_ascii(bytes: &[u8]) -> (r: bool)
    ensures
        r == all_ascii(bytes@),
{
    let mut i: usize = 0;
    while i < bytes.len()
        invariant
            i <= bytes.len(),
            forall|j: int| 0 <= j < i ==> #[trigger] bytes@[j] < 128,
        decreases bytes.len() - i,
    {
        if bytes[i] >= 128 {
            return false;
        }
        i += 1;
    }
    true
}

impl Terminal {
    /// What is said to be known is so, and as many lines are kept as for every
    /// session.
    pub open spec fn wf(self) -> bool {
        &&& self.plain ==> single_width(self.emulator)
        &&& self.sure ==> whole(self.emulator)
        &&& kept_lines(self.emulator) == SCROLLBACK
    }

    /// A terminal that has seen nothing.
    pub fn new(rows: u16, cols: u16) -> (r: Terminal)
        requires
            roomy(rows, cols),
        ensures
            r.wf(),
            r == (Terminal {
                emulator: fresh(rows, cols, SCROLLBACK),
                plain: true,
                sure: true,
            }),
            dims(r.emulator) == (rows, cols),
    {
        Terminal { emulator: Emulator::new(rows, cols, SCROLLBACK), plain: true, sure: true }
    }

    /// Takes output in.
    pub fn take_in(&mut self, bytes: &[u8])
        requires
            old(self).wf(),
            whole(old(self).emulator),
        ensures
            final(self).wf(),
            *final(self) == taken_in(*old(self), bytes@),
            dims(final(self).emulator) == dims(old(self).emulator),
            whole(final(self).emulator),
    {
        self.emulator.process(bytes);
        self.plain = self.plain && is_ascii(bytes);
    }

    /// The screen as it is now.
    pub fn screen(&self) -> (r: &Screen)
        ensures
            *r == shown_by(self.emulator),
    {
        self.emulator.screen()
    }

    /// Gives the screen another size.
    pub fn resize(&mut self, rows: u16, cols: u16)
        requires
            old(self).wf(),
            roomy(rows, cols),
        ensures
            final(self).wf(),
            *final(self) == reshaped(*old(self), rows, cols),
            dims(final(self).emulator) == (rows, cols),
            whole(old(self).emulator) && cuts_none(old(self).emulator, cols) ==> whole(
                final(self).emulator,
            ),
    {
        let (_, was) = self.emulator.screen().size();
        self.emulator.set_size(rows, cols);
        self.sure = self.sure && (was <= cols || self.plain);
    }

    /// How many lines the view is back.
    pub fn scrollback(&self) -> (r: usize)
        requires
            self.wf(),
        ensures
            r == lines_back(self.emulator),
            r <= SCROLLBACK,
    {
        self.emulator.scrollback()
    }

    /// Moves the view so many lines back, as far as there are lines that scrolled
    /// away.
    pub fn look_back(&mut self, lines: usize)
        requires
            old(self).wf(),
        ensures
            final(self).wf(),
            *final(self) == looked_back(*old(self), lines),
            lines_back(final(self).emulator) <= lines,
            dims(final(self).emulator) == dims(old(self).emulator),
            whole(final(self).emulator) == whole(old(self).emulator),
    {
        self.emulator.set_scrollback(lines);
    }
}

} // verus!
