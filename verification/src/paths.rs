//! Unix paths held as text.

use crate::text;
use vstd::prelude::*;

verus! {

/// `name` taken from the directory `dir`: an absolute `name` stands alone, any
/// other goes behind `dir` and one `/`.
pub open spec fn joined(dir: Seq<char>, name: Seq<char>) -> Seq<char> {
    if name.len() > 0 && name[0] == '/' {
        name
    } else if dir.len() == 0 || dir.last() == '/' {
        dir + name
    } else {
        dir.push('/') + name
    }
}

/// `name` taken from the directory `dir`.
pub fn join(dir: &str, name: &str) -> (r: String)
    ensures
        r@ == joined(dir@, name@),
{
    let d = text::chars_of(dir);
    let n = text::chars_of(name);
    if n.len() > 0 && n[0] == '/' {
        return text::owned(name);
    }
    let mut out = text::owned(dir);
    if d.len() > 0 && d[d.len() - 1] != '/' {
        out.push('/');
    }
    out.push_str(name);
    out
}

/// Whether a piece between slashes names a step: not nothing, and not `.`
/// unless the path is relative and starts with it.
pub open spec fn is_step(piece: Seq<char>, first: bool) -> bool {
    piece.len() > 0 && (piece != seq!['.'] || first)
}

/// The first `n` pieces that are steps.
pub open spec fn steps(pieces: Seq<Seq<char>>, n: nat) -> Seq<Seq<char>>
    decreases n,
{
    if n == 0 {
        seq![]
    } else {
        let front = steps(pieces, (n - 1) as nat);
        if is_step(pieces[n - 1], n == 1) {
            front.push(pieces[n - 1])
        } else {
            front
        }
    }
}

/// A path taken apart: whether it starts at the root, and its steps.
pub open spec fn components(p: Seq<char>) -> (bool, Seq<Seq<char>>) {
    let pieces = text::split(p, '/');
    (p.len() > 0 && p[0] == '/', steps(pieces, pieces.len()))
}

/// Whether two paths lead the same way, step by step.
pub open spec fn same_way(a: Seq<char>, b: Seq<char>) -> bool {
    components(a) == components(b)
}

fn steps_of(p: &str) -> (r: Vec<String>)
    ensures
        text::texts(r@) == components(p@).1,
{
    let pieces = text::split_on(p, '/');
    let ghost all = text::texts(pieces@);
    let mut out: Vec<String> = Vec::new();
    let mut i: usize = 0;
    assert(text::texts(out@) =~= seq![]);
    while i < pieces.len()
        invariant
            i <= pieces.len(),
            all == text::texts(pieces@),
            text::texts(out@) == steps(all, i as nat),
        decreases pieces.len() - i,
    {
        let ghost before = out@;
        let dot = text::same(pieces[i].as_str(), ".");
        proof {
            reveal_strlit(".");
            assert("."@ =~= seq!['.']);
        }
        if pieces[i].as_str().is_empty() == false && (!dot || i == 0) {
            out.push(pieces[i].clone());
            assert(text::texts(out@) =~= text::texts(before).push(all[i as int]));
        }
        i += 1;
    }
    out
}

/// Whether `a` and `b` lead the same way, step by step.
pub fn same_path(a: &str, b: &str) -> (r: bool)
    ensures
        r == same_way(a@, b@),
{
    let x = text::chars_of(a);
    let y = text::chars_of(b);
    let rooted_a = x.len() > 0 && x[0] == '/';
    let rooted_b = y.len() > 0 && y[0] == '/';
    if rooted_a != rooted_b {
        return false;
    }
    let p = steps_of(a);
    let q = steps_of(b);
    let ghost s = components(a@).1;
    let ghost t = components(b@).1;
    if p.len() != q.len() {
        assert(s.len() != t.len());
        return false;
    }
    let mut i: usize = 0;
    while i < p.len()
        invariant
            i <= p.len() == q.len(),
            s == text::texts(p@),
            t == text::texts(q@),
            s == components(a@).1,
            t == components(b@).1,
            forall|j: int| 0 <= j < i ==> s[j] == t[j],
        decreases p.len() - i,
    {
        if !text::same(p[i].as_str(), q[i].as_str()) {
            assert(s[i as int] != t[i as int]);
            return false;
        }
        i += 1;
    }
    assert(s =~= t);
    true
}

/// The last step of a path, if it names something: not where the path ends in
/// `..`, is `.`, or has no step.
pub open spec fn last_name(p: Seq<char>) -> Option<Seq<char>> {
    let all = components(p).1;
    if all.len() == 0 || all.last() == ".."@ || all.last() == "."@ {
        None
    } else {
        Some(all.last())
    }
}

/// The last step of a path, if it names something.
pub fn file_name(p: &str) -> (r: Option<String>)
    ensures
        text::opt_text(r) == last_name(p@),
{
    let all = steps_of(p);
    let ghost s = components(p@).1;
    let n: usize = all.len();
    if n == 0 {
        return None;
    }
    let last = all[n - 1].as_str();
    assert(last@ == s.last());
    if text::same(last, "..") || text::same(last, ".") {
        None
    } else {
        Some(text::owned(last))
    }
}

/// The path that `std::path::Path::with_file_name` makes of a path and a name.
pub uninterp spec fn renamed(path: Seq<char>, name: Seq<char>) -> Seq<char>;

/// The path of the file `name` in the directory `dir`.
pub open spec fn file_in(dir: Seq<char>, name: Seq<char>) -> Seq<char> {
    dir.push('/') + name
}

/// Whether a directory is written without a slash or a lone `.` at its end.
pub open spec fn tidy_dir(dir: Seq<char>) -> bool {
    &&& dir.len() > 0 ==> dir.last() != '/'
    &&& dir.len() > 1 && dir.last() == '.' ==> dir[dir.len() - 2] != '/'
}

/// Whether a text can be the name of a file.
pub open spec fn is_file_name(name: Seq<char>) -> bool {
    name.len() > 0 && !name.contains('/') && name != seq!['.'] && name != seq!['.', '.']
}

/// `std::path::Path::with_file_name` on Unix: the path with its file name
/// replaced by `name`, a function of the two texts. Where the path is that of a
/// file in a tidily written directory, the result is the file of the new name in
/// that directory.
#[verifier::external_body]
pub(crate) fn with_file_name(path: &str, name: &str) -> (r: String)
    ensures
        r@ == renamed(path@, name@),
        is_file_name(name@) ==> forall|dir: Seq<char>, last: Seq<char>|
            path@ == #[trigger] file_in(dir, last) && tidy_dir(dir) && is_file_name(last) ==> r@
                == file_in(dir, name@),
{
    std::path::Path::new(path).with_file_name(name).to_string_lossy().into_owned()
}

/// A path leads where it leads.
pub proof fn law_same_way_is_an_equivalence(a: Seq<char>, b: Seq<char>, c: Seq<char>)
    ensures
        same_way(a, a),
        same_way(a, b) ==> same_way(b, a),
        same_way(a, b) && same_way(b, c) ==> same_way(a, c),
{
}

} // verus!
