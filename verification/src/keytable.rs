//! The user's `[keybinds]` table.

use crate::text;
use vstd::prelude::*;

verus! {

/// Action names with their bindings as the config writes them: sorted by name,
/// no name twice.
#[derive(Debug)]
pub struct KeybindTable {
    entries: Vec<(String, String)>,
}

/// The pairs of texts in a list of pairs of strings.
pub open spec fn pairs(v: Seq<(String, String)>) -> Seq<(Seq<char>, Seq<char>)> {
    Seq::new(v.len(), |i: int| (v[i].0@, v[i].1@))
}

/// Whether the names in `p` come in order, none of them twice.
pub open spec fn names_ascend(p: Seq<(Seq<char>, Seq<char>)>) -> bool {
    forall|i: int, j: int| 0 <= i < j < p.len() ==> text::before(#[trigger] p[i].0, #[trigger] p[j].0)
}

/// What `p` says of each name.
pub open spec fn as_map(p: Seq<(Seq<char>, Seq<char>)>) -> Map<Seq<char>, Seq<char>>
    decreases p.len(),
{
    if p.len() == 0 {
        Map::empty()
    } else {
        as_map(p.drop_last()).insert(p.last().0, p.last().1)
    }
}

impl KeybindTable {
    /// The entries as pairs of texts.
    pub closed spec fn pairs(self) -> Seq<(Seq<char>, Seq<char>)> {
        pairs(self.entries@)
    }

    /// Sorted by name, no name twice.
    #[verifier::type_invariant]
    spec fn sorted(self) -> bool {
        names_ascend(pairs(self.entries@))
    }

    /// The table as a map.
    pub open spec fn map(self) -> Map<Seq<char>, Seq<char>> {
        as_map(self.pairs())
    }

    pub fn new() -> (r: KeybindTable)
        ensures
            r.pairs() == Seq::<(Seq<char>, Seq<char>)>::empty(),
            r.map() == Map::<Seq<char>, Seq<char>>::empty(),
    {
        let entries: Vec<(String, String)> = Vec::new();
        assert(pairs(entries@) =~= Seq::empty());
        KeybindTable { entries }
    }

    /// A copy.
    pub fn copy(&self) -> (r: KeybindTable)
        ensures
            r.pairs() == self.pairs(),
    {
        proof {
            use_type_invariant(self);
        }
        let mut entries: Vec<(String, String)> = Vec::new();
        let mut i: usize = 0;
        while i < self.entries.len()
            invariant
                i <= self.entries.len(),
                entries@ =~= self.entries@.take(i as int),
            decreases self.entries.len() - i,
        {
            entries.push((self.entries[i].0.clone(), self.entries[i].1.clone()));
            i += 1;
        }
        assert(entries@ =~= self.entries@);
        KeybindTable { entries }
    }

    /// The entries, sorted by name.
    pub fn entries(&self) -> (r: &Vec<(String, String)>)
        ensures
            pairs(r@) == self.pairs(),
            names_ascend(self.pairs()),
    {
        proof {
            use_type_invariant(self);
        }
        &self.entries
    }

    pub fn len(&self) -> (r: usize)
        ensures
            r == self.pairs().len(),
    {
        self.entries.len()
    }

    /// The binding of `name`.
    pub fn get(&self, name: &str) -> (r: Option<String>)
        ensures
            text::opt_text(r) == (if self.map().contains_key(name@) {
                Some(self.map()[name@])
            } else {
                None
            }),
    {
        proof {
            use_type_invariant(self);
        }
        let ghost p = self.pairs();
        let mut i: usize = 0;
        while i < self.entries.len()
            invariant
                i <= self.entries.len(),
                p == self.pairs(),
                names_ascend(p),
                forall|j: int| 0 <= j < i ==> (#[trigger] p[j]).0 != name@,
            decreases self.entries.len() - i,
        {
            if text::same(self.entries[i].0.as_str(), name) {
                proof {
                    lemma_map_has(p, i as int);
                    assert(p[i as int].0 == name@);
                }
                return Some(self.entries[i].1.clone());
            }
            assert(p[i as int].0 != name@);
            i += 1;
        }
        proof {
            lemma_map_lacks(p, name@);
        }
        None
    }

    pub fn contains_key(&self, name: &str) -> (r: bool)
        ensures
            r == self.map().contains_key(name@),
    {
        self.get(name).is_some()
    }

    /// Gives `name` that binding, in place of the one it had.
    pub fn insert(&mut self, name: String, binding: String)
        ensures
            final(self).map() == old(self).map().insert(name@, binding@),
            names_ascend(final(self).pairs()),
    {
        proof {
            use_type_invariant(&*self);
        }
        let ghost p = self.pairs();
        let mut entries: Vec<(String, String)> = Vec::new();
        let mut i: usize = 0;
        while i < self.entries.len() && text::comes_before(
            self.entries[i].0.as_str(),
            name.as_str(),
        )
            invariant
                i <= self.entries.len(),
                p == self.pairs(),
                names_ascend(p),
                entries@ == self.entries@.take(i as int),
                forall|j: int| 0 <= j < i ==> text::before((#[trigger] p[j]).0, name@),
            decreases self.entries.len() - i,
        {
            assert(p[i as int].0 == self.entries[i as int].0@);
            entries.push((self.entries[i].0.clone(), self.entries[i].1.clone()));
            i += 1;
        }
        let ghost at = i as int;
        let mut rest: usize = i;
        if i < self.entries.len() && text::same(self.entries[i].0.as_str(), name.as_str()) {
            rest = i + 1;
        }
        let ghost skip = rest as int;
        let ghost added = (name@, binding@);
        entries.push((name, binding));
        assert(pairs(entries@) =~= p.take(at).push(added));
        while rest < self.entries.len()
            invariant
                skip <= rest <= self.entries.len(),
                p == self.pairs(),
                0 <= at <= skip <= p.len(),
                pairs(entries@) == p.take(at).push(added) + p.subrange(skip, rest as int),
            decreases self.entries.len() - rest,
        {
            let ghost before = entries@;
            entries.push((self.entries[rest].0.clone(), self.entries[rest].1.clone()));
            assert(pairs(entries@) =~= pairs(before).push(p[rest as int]));
            assert(p.take(at).push(added) + p.subrange(skip, rest + 1) =~= (p.take(at).push(added)
                + p.subrange(skip, rest as int)).push(p[rest as int]));
            rest += 1;
        }
        let ghost q = pairs(entries@);
        proof {
            assert(p.subrange(skip, p.len() as int) =~= p.skip(skip));
            assert(at < p.len() ==> p[at].0 == self.entries@[at].0@);
            lemma_insert_sorted(p, at, skip, added);
        }
        *self = KeybindTable { entries };
    }
}

pub proof fn lemma_map_has(p: Seq<(Seq<char>, Seq<char>)>, i: int)
    requires
        names_ascend(p),
        0 <= i < p.len(),
    ensures
        as_map(p).contains_key(p[i].0),
        as_map(p)[p[i].0] == p[i].1,
    decreases p.len(),
{
    let front = p.drop_last();
    if i < p.len() - 1 {
        assert forall|a: int, b: int| 0 <= a < b < front.len() implies text::before(
            #[trigger] front[a].0,
            #[trigger] front[b].0,
        ) by {
            assert(text::before(p[a].0, p[b].0));
        }
        lemma_map_has(front, i);
        assert(text::before(p[i].0, p[p.len() - 1].0));
        text::lemma_before_total(p[i].0, p[i].0);
    }
}

proof fn lemma_map_lacks(p: Seq<(Seq<char>, Seq<char>)>, name: Seq<char>)
    requires
        forall|i: int| 0 <= i < p.len() ==> (#[trigger] p[i]).0 != name,
    ensures
        !as_map(p).contains_key(name),
    decreases p.len(),
{
    if p.len() > 0 {
        assert forall|i: int| 0 <= i < p.drop_last().len() implies (#[trigger] p.drop_last()[i]).0
            != name by {
            assert(p.drop_last()[i] == p[i]);
        }
        lemma_map_lacks(p.drop_last(), name);
        assert(p[p.len() - 1].0 != name);
    }
}

/// What a sorted list says of a name.
proof fn lemma_map_says(p: Seq<(Seq<char>, Seq<char>)>, name: Seq<char>)
    requires
        names_ascend(p),
    ensures
        as_map(p).contains_key(name) <==> exists|i: int|
            0 <= i < p.len() && (#[trigger] p[i]).0 == name,
        forall|i: int|
            0 <= i < p.len() && (#[trigger] p[i]).0 == name ==> as_map(p)[name] == p[i].1,
{
    assert forall|i: int| 0 <= i < p.len() && (#[trigger] p[i]).0 == name implies as_map(
        p,
    ).contains_key(name) && as_map(p)[name] == p[i].1 by {
        lemma_map_has(p, i);
    }
    if forall|i: int| 0 <= i < p.len() ==> (#[trigger] p[i]).0 != name {
        lemma_map_lacks(p, name);
    }
}

proof fn lemma_insert_sorted(
    p: Seq<(Seq<char>, Seq<char>)>,
    at: int,
    skip: int,
    added: (Seq<char>, Seq<char>),
)
    requires
        names_ascend(p),
        0 <= at <= skip <= p.len(),
        skip <= at + 1,
        forall|j: int| 0 <= j < at ==> text::before((#[trigger] p[j]).0, added.0),
        at < p.len() ==> !text::before(p[at].0, added.0),
        skip == at + 1 ==> p[at].0 == added.0,
        skip == at && at < p.len() ==> p[at].0 != added.0,
    ensures
        names_ascend(p.take(at).push(added) + p.skip(skip)),
        as_map(p.take(at).push(added) + p.skip(skip)) == as_map(p).insert(added.0, added.1),
{
    let q = p.take(at).push(added) + p.skip(skip);
    assert forall|j: int| skip <= j < p.len() implies text::before(
        added.0,
        (#[trigger] p[j]).0,
    ) by {
        text::lemma_before_total(p[at].0, added.0);
        if j > at {
            assert(text::before(p[at].0, p[j].0));
            if p[at].0 != added.0 {
                text::lemma_before_transitive(added.0, p[at].0, p[j].0);
            }
        }
    }
    assert forall|i: int, j: int| 0 <= i < j < q.len() implies text::before(
        #[trigger] q[i].0,
        #[trigger] q[j].0,
    ) by {
        let pi = if i < at {
            i
        } else {
            i - at - 1 + skip
        };
        let pj = if j < at {
            j
        } else {
            j - at - 1 + skip
        };
        if i != at {
            assert(q[i] == p[pi]);
        }
        if j != at {
            assert(q[j] == p[pj]);
        }
        if i != at && j != at {
            assert(text::before(p[pi].0, p[pj].0));
        }
    }
    let want = as_map(p).insert(added.0, added.1);
    assert forall|name: Seq<char>| #[trigger]
        as_map(q).contains_key(name) == want.contains_key(name) by {
        lemma_insert_one_name(p, at, skip, added, name);
    }
    assert forall|name: Seq<char>| as_map(q).contains_key(name) implies #[trigger] as_map(q)[name]
        == want[name] by {
        lemma_insert_one_name(p, at, skip, added, name);
    }
    assert(as_map(q) =~= want);
}

proof fn lemma_insert_one_name(
    p: Seq<(Seq<char>, Seq<char>)>,
    at: int,
    skip: int,
    added: (Seq<char>, Seq<char>),
    name: Seq<char>,
)
    requires
        names_ascend(p),
        names_ascend(p.take(at).push(added) + p.skip(skip)),
        0 <= at <= skip <= p.len(),
        skip <= at + 1,
        skip == at + 1 ==> p[at].0 == added.0,
    ensures
        ({
            let m = as_map(p.take(at).push(added) + p.skip(skip));
            let want = as_map(p).insert(added.0, added.1);
            m.contains_key(name) == want.contains_key(name) && (m.contains_key(name) ==> m[name]
                == want[name])
        }),
{
    let q = p.take(at).push(added) + p.skip(skip);
    lemma_map_says(p, name);
    lemma_map_says(q, name);
    assert(q[at] == added);
    if name != added.0 {
        if exists|i: int| 0 <= i < p.len() && (#[trigger] p[i]).0 == name {
            let i = choose|i: int| 0 <= i < p.len() && (#[trigger] p[i]).0 == name;
            let k = if i < at {
                i
            } else {
                i - skip + at + 1
            };
            assert(q[k] == p[i]);
        }
        if exists|k: int| 0 <= k < q.len() && (#[trigger] q[k]).0 == name {
            let k = choose|k: int| 0 <= k < q.len() && (#[trigger] q[k]).0 == name;
            let i = if k < at {
                k
            } else {
                k - at - 1 + skip
            };
            assert(q[k] == p[i]);
        }
    }
}

} // verus!
