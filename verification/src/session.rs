//! Sessions, known to the library by their numbers.

use vstd::prelude::*;

verus! {

pub type SessionId = u64;

/// A set of sessions that remembers the order in which they came.
#[derive(Debug)]
pub struct SessionSet {
    ids: Vec<SessionId>,
}

impl View for SessionSet {
    type V = Seq<SessionId>;

    closed spec fn view(&self) -> Seq<SessionId> {
        self.ids@
    }
}

/// `s` without `id`.
pub open spec fn without(s: Seq<SessionId>, id: SessionId) -> Seq<SessionId>
    decreases s.len(),
{
    if s.len() == 0 {
        s
    } else if s.last() == id {
        without(s.drop_last(), id)
    } else {
        without(s.drop_last(), id).push(s.last())
    }
}

/// `s` with `id` behind it, unless it is there already.
pub open spec fn with(s: Seq<SessionId>, id: SessionId) -> Seq<SessionId> {
    if s.contains(id) {
        s
    } else {
        s.push(id)
    }
}

impl SessionSet {
    pub fn new() -> (r: SessionSet)
        ensures
            r@ == Seq::<SessionId>::empty(),
    {
        SessionSet { ids: Vec::new() }
    }

    /// The sessions of a list, in its order.
    pub(crate) fn of(ids: Vec<SessionId>) -> (r: SessionSet)
        ensures
            r@ == ids@,
    {
        SessionSet { ids }
    }

    /// The members, oldest first.
    pub fn ids(&self) -> (r: &Vec<SessionId>)
        ensures
            r@ == self@,
    {
        &self.ids
    }

    pub fn len(&self) -> (r: usize)
        ensures
            r == self@.len(),
    {
        self.ids.len()
    }

    pub fn is_empty(&self) -> (r: bool)
        ensures
            r == (self@.len() == 0),
    {
        self.ids.len() == 0
    }

    pub fn contains(&self, id: &SessionId) -> (r: bool)
        ensures
            r == self@.contains(*id),
    {
        let mut i: usize = 0;
        while i < self.ids.len()
            invariant
                i <= self.ids.len(),
                forall|j: int| 0 <= j < i ==> self.ids[j] != *id,
            decreases self.ids.len() - i,
        {
            if self.ids[i] == *id {
                return true;
            }
            i += 1;
        }
        false
    }

    /// Adds `id`.
    pub fn insert(&mut self, id: SessionId)
        ensures
            final(self)@ == with(old(self)@, id),
    {
        if !self.contains(&id) {
            self.ids.push(id);
        }
    }

    /// Takes `id` out.
    pub fn remove(&mut self, id: &SessionId)
        ensures
            final(self)@ == without(old(self)@, *id),
    {
        let mut kept: Vec<SessionId> = Vec::new();
        let mut i: usize = 0;
        let ghost all = self.ids@;
        while i < self.ids.len()
            invariant
                i <= self.ids.len(),
                all == self.ids@,
                kept@ == without(all.take(i as int), *id),
            decreases self.ids.len() - i,
        {
            assert(all.take(i + 1).drop_last() =~= all.take(i as int));
            if self.ids[i] != *id {
                kept.push(self.ids[i]);
            }
            i += 1;
        }
        assert(all.take(all.len() as int) =~= all);
        self.ids = kept;
    }

    /// Takes every member out.
    pub fn clear(&mut self)
        ensures
            final(self)@ == Seq::<SessionId>::empty(),
    {
        self.ids.clear();
    }
}

/// No session is in the set twice after one comes in, if none was before.
pub proof fn law_insert_keeps_members_distinct(s: Seq<SessionId>, id: SessionId)
    requires
        s.no_duplicates(),
    ensures
        with(s, id).no_duplicates(),
        with(s, id).contains(id),
{
    if !s.contains(id) {
        assert(s.push(id)[s.len() as int] == id);
    }
}

/// A session that was taken out is no longer a member, and every other one
/// still is.
pub proof fn law_remove_takes_out_one(s: Seq<SessionId>, id: SessionId)
    ensures
        !without(s, id).contains(id),
        forall|x: SessionId| x != id ==> (#[trigger] without(s, id).contains(x) <==> s.contains(x)),
        s.no_duplicates() ==> without(s, id).no_duplicates(),
    decreases s.len(),
{
    if s.len() > 0 {
        let front = s.drop_last();
        law_remove_takes_out_one(front, id);
        assert(s =~= front.push(s.last()));
        assert forall|x: SessionId| x != id implies (without(s, id).contains(x) <==> s.contains(
            x,
        )) by {
            if s.contains(x) {
                let j = choose|j: int| 0 <= j < s.len() && s[j] == x;
                if j == s.len() - 1 {
                    assert(without(s, id)[without(front, id).len() as int] == x);
                } else {
                    assert(front[j] == x);
                    assert(front.contains(x));
                    assert(without(front, id).contains(x) <==> front.contains(x));
                    let k = choose|k: int|
                        0 <= k < without(front, id).len() && without(front, id)[k] == x;
                    assert(without(s, id)[k] == x);
                }
            }
            if without(s, id).contains(x) && x != s.last() {
                let j = choose|j: int| 0 <= j < without(s, id).len() && without(s, id)[j] == x;
                assert(without(front, id)[j] == x);
                assert(without(front, id).contains(x));
                assert(front.contains(x));
                let k = choose|k: int| 0 <= k < front.len() && front[k] == x;
                assert(s[k] == x);
            }
        }
        if s.no_duplicates() {
            assert(front.no_duplicates());
            assert(!front.contains(s.last()));
            assert(s.last() != id ==> !without(front, id).contains(s.last()));
        }
    }
}

} // verus!
