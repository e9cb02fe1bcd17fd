//! Text as sequences of characters: trimming, splitting, joining, numbers.
//!
//! Strings are built and taken apart here character by character, so that the
//! rest of the library can speak of `Seq<char>` alone.

use vstd::prelude::*;

verus! {

/// `String::push`: puts one character behind the text.
pub assume_specification[ String::push ](s: &mut String, c: char)
    ensures
        final(s)@ == old(s)@.push(c),
;

/// `String::push_str`: puts the characters of `t` behind the text.
pub assume_specification[ String::push_str ](s: &mut String, t: &str)
    ensures
        final(s)@ == old(s)@ + t@,
;

/// `String::pop`: takes the last character off and hands it back; `None`, with
/// the text as it was, when there is none.
pub assume_specification[ String::pop ](s: &mut String) -> (r: Option<char>)
    ensures
        old(s)@.len() == 0 ==> r is None && final(s)@ == old(s)@,
        old(s)@.len() > 0 ==> r == Some(old(s)@.last()) && final(s)@ == old(s)@.drop_last(),
;

/// `String::clear`: leaves the empty text.
pub assume_specification[ String::clear ](s: &mut String)
    ensures
        final(s)@ == Seq::<char>::empty(),
;

// ---------------------------------------------------------------------------
// Options and lists of strings
// ---------------------------------------------------------------------------

/// The text in an optional string.
pub open spec fn opt_text(o: Option<String>) -> Option<Seq<char>> {
    match o {
        Some(s) => Some(s@),
        None => None,
    }
}

/// The texts in a list of strings.
pub open spec fn texts(v: Seq<String>) -> Seq<Seq<char>> {
    Seq::new(v.len(), |i: int| v[i]@)
}

/// A copy of an optional string.
pub fn clone_opt(o: &Option<String>) -> (r: Option<String>)
    ensures
        r == *o,
{
    match o {
        Some(s) => Some(s.clone()),
        None => None,
    }
}

/// Whether two texts are the same.
pub fn same(a: &str, b: &str) -> (r: bool)
    ensures
        r == (a@ == b@),
{
    a.to_owned() == b.to_owned()
}

/// A string that holds the text of `s`.
pub fn owned(s: &str) -> (r: String)
    ensures
        r@ == s@,
{
    s.to_owned()
}

/// The characters of `s`, in order.
pub fn chars_of(s: &str) -> (r: Vec<char>)
    ensures
        r@ == s@,
{
    let mut out: Vec<char> = Vec::new();
    for c in it: s.chars()
        invariant
            out@ == it.seq().take(it.index() as int),
            it.seq() == s@,
    {
        out.push(c);
    }
    out
}

/// The string made of the characters `v[from..to]`.
pub fn string_of(v: &Vec<char>, from: usize, to: usize) -> (r: String)
    requires
        from <= to <= v.len(),
    ensures
        r@ == v@.subrange(from as int, to as int),
{
    let mut out: String = String::new();
    let mut i: usize = from;
    while i < to
        invariant
            from <= i <= to <= v.len(),
            out@ == v@.subrange(from as int, i as int),
        decreases to - i,
    {
        out.push(v[i]);
        i += 1;
    }
    out
}

/// `a` followed by `b`.
pub fn concat2(a: &str, b: &str) -> (r: String)
    ensures
        r@ == a@ + b@,
{
    let mut s: String = a.to_owned();
    s.push_str(b);
    s
}

/// `a`, then `b`, then `c`.
pub fn concat3(a: &str, b: &str, c: &str) -> (r: String)
    ensures
        r@ == a@ + b@ + c@,
{
    let mut s: String = a.to_owned();
    s.push_str(b);
    s.push_str(c);
    s
}

// ---------------------------------------------------------------------------
// Kinds of characters
// ---------------------------------------------------------------------------

/// The characters with Unicode's `White_Space` property.
pub open spec fn is_white(c: char) -> bool {
    ||| 0x09 <= c as u32 <= 0x0d
    ||| c as u32 == 0x20
    ||| c as u32 == 0x85
    ||| c as u32 == 0xa0
    ||| c as u32 == 0x1680
    ||| 0x2000 <= c as u32 <= 0x200a
    ||| c as u32 == 0x2028
    ||| c as u32 == 0x2029
    ||| c as u32 == 0x202f
    ||| c as u32 == 0x205f
    ||| c as u32 == 0x3000
}

/// Whether `c` is white space.
pub fn white(c: char) -> (r: bool)
    ensures
        r == is_white(c),
{
    let n: u32 = c as u32;
    (0x09 <= n && n <= 0x0d) || n == 0x20 || n == 0x85 || n == 0xa0 || n == 0x1680 || (0x2000 <= n
        && n <= 0x200a) || n == 0x2028 || n == 0x2029 || n == 0x202f || n == 0x205f || n == 0x3000
}

/// The control characters: U+0000 to U+001F and U+007F to U+009F.
pub open spec fn is_control(c: char) -> bool {
    c as u32 <= 0x1f || 0x7f <= c as u32 <= 0x9f
}

/// Whether `c` is a control character.
pub fn control(c: char) -> (r: bool)
    ensures
        r == is_control(c),
{
    let n: u32 = c as u32;
    n <= 0x1f || (0x7f <= n && n <= 0x9f)
}

/// `c` with an ASCII capital made small.
pub open spec fn lower_char(c: char) -> char {
    if 'A' <= c && c <= 'Z' {
        (c as u8 + 32) as char
    } else {
        c
    }
}

/// `c` with an ASCII capital made small.
pub fn to_lower(c: char) -> (r: char)
    ensures
        r == lower_char(c),
{
    if 'A' <= c && c <= 'Z' {
        let n: u8 = c as u8 + 32;
        n as char
    } else {
        c
    }
}

/// `s` with every ASCII capital made small.
pub open spec fn lower_ascii(s: Seq<char>) -> Seq<char> {
    Seq::new(s.len(), |i: int| lower_char(s[i]))
}

/// `s` with every ASCII capital made small.
pub fn to_lower_ascii(s: &str) -> (r: String)
    ensures
        r@ == lower_ascii(s@),
{
    let v = chars_of(s);
    let mut out: String = String::new();
    let mut i: usize = 0;
    while i < v.len()
        invariant
            i <= v.len(),
            v@ == s@,
            out@ == lower_ascii(s@).take(i as int),
        decreases v.len() - i,
    {
        out.push(to_lower(v[i]));
        i += 1;
    }
    assert(lower_ascii(s@).take(v.len() as int) == lower_ascii(s@));
    out
}

/// Whether `a` and `b` differ at most in the case of ASCII letters.
pub fn same_ignore_case(a: &str, b: &str) -> (r: bool)
    ensures
        r == (lower_ascii(a@) == lower_ascii(b@)),
{
    to_lower_ascii(a) == to_lower_ascii(b)
}

/// Whether `s` starts with `p`.
pub open spec fn has_prefix(s: Seq<char>, p: Seq<char>) -> bool {
    p.len() <= s.len() && s.take(p.len() as int) == p
}

/// What stands behind the prefix `p` of `s`, if it has that prefix.
pub open spec fn behind(s: Seq<char>, p: Seq<char>) -> Option<Seq<char>> {
    if has_prefix(s, p) {
        Some(s.skip(p.len() as int))
    } else {
        None
    }
}

/// What stands behind the prefix `p` of `s`, if it has that prefix.
pub fn strip_prefix(s: &str, p: &str) -> (r: Option<String>)
    ensures
        opt_text(r) == behind(s@, p@),
{
    if !starts_with(s, p) {
        return None;
    }
    let v = chars_of(s);
    let n: usize = chars_of(p).len();
    let rest = string_of(&v, n, v.len());
    assert(rest@ =~= s@.skip(p@.len() as int));
    Some(rest)
}

/// Whether `s` starts with `p`.
pub fn starts_with(s: &str, p: &str) -> (r: bool)
    ensures
        r == has_prefix(s@, p@),
{
    let a = chars_of(s);
    let b = chars_of(p);
    if b.len() > a.len() {
        return false;
    }
    let mut i: usize = 0;
    while i < b.len()
        invariant
            i <= b.len() <= a.len(),
            a@ == s@,
            b@ == p@,
            forall|j: int| 0 <= j < i ==> a[j] == b[j],
        decreases b.len() - i,
    {
        if a[i] != b[i] {
            assert(s@.take(p@.len() as int)[i as int] != p@[i as int]);
            return false;
        }
        i += 1;
    }
    assert(s@.take(p@.len() as int) =~= p@);
    true
}

/// Whether some character of `s` is white space.
pub open spec fn has_white(s: Seq<char>) -> bool {
    exists|i: int| 0 <= i < s.len() && is_white(#[trigger] s[i])
}

/// Whether some character of `s` is white space.
pub fn contains_white(s: &str) -> (r: bool)
    ensures
        r == has_white(s@),
{
    let v = chars_of(s);
    let mut i: usize = 0;
    while i < v.len()
        invariant
            i <= v.len(),
            v@ == s@,
            forall|j: int| 0 <= j < i ==> !is_white(#[trigger] v[j]),
        decreases v.len() - i,
    {
        if white(v[i]) {
            assert(is_white(s@[i as int]));
            return true;
        }
        i += 1;
    }
    false
}

// ---------------------------------------------------------------------------
// Trimming
// ---------------------------------------------------------------------------

/// `s` without the white space in front.
pub open spec fn trim_start(s: Seq<char>) -> Seq<char>
    decreases s.len(),
{
    if s.len() > 0 && is_white(s[0]) {
        trim_start(s.skip(1))
    } else {
        s
    }
}

/// `s` without the white space at the end.
pub open spec fn trim_end(s: Seq<char>) -> Seq<char>
    decreases s.len(),
{
    if s.len() > 0 && is_white(s.last()) {
        trim_end(s.drop_last())
    } else {
        s
    }
}

/// `s` without the white space at both ends.
pub open spec fn trimmed(s: Seq<char>) -> Seq<char> {
    trim_end(trim_start(s))
}

/// `s` without the white space at both ends.
pub fn trim(s: &str) -> (r: String)
    ensures
        r@ == trimmed(s@),
{
    let v = chars_of(s);
    let mut a: usize = 0;
    assert(s@.skip(0) =~= s@);
    while a < v.len() && white(v[a])
        invariant
            a <= v.len(),
            v@ == s@,
            trim_start(s@) == trim_start(s@.skip(a as int)),
        decreases v.len() - a,
    {
        assert(s@.skip(a as int).skip(1) =~= s@.skip(a + 1));
        assert(s@.skip(a as int)[0] == v[a as int]);
        a += 1;
    }
    assert(trim_start(s@) == s@.skip(a as int));
    let mut b: usize = v.len();
    assert(s@.subrange(a as int, b as int) =~= s@.skip(a as int));
    while a < b && white(v[b - 1])
        invariant
            a <= b <= v.len(),
            v@ == s@,
            trimmed(s@) == trim_end(s@.subrange(a as int, b as int)),
        decreases b - a,
    {
        assert(s@.subrange(a as int, b as int).drop_last() =~= s@.subrange(a as int, b - 1));
        assert(s@.subrange(a as int, b as int).last() == v[b - 1]);
        b -= 1;
    }
    assert(a < b ==> s@.subrange(a as int, b as int).last() == v[b - 1]);
    string_of(&v, a, b)
}

/// `s` without the newlines at the end.
pub open spec fn strip_newlines(s: Seq<char>) -> Seq<char>
    decreases s.len(),
{
    if s.len() > 0 && s.last() == '\n' {
        strip_newlines(s.drop_last())
    } else {
        s
    }
}

/// `s` without the newlines at the end.
pub fn without_final_newlines(s: &str) -> (r: String)
    ensures
        r@ == strip_newlines(s@),
{
    let v = chars_of(s);
    let mut b: usize = v.len();
    assert(s@.take(b as int) =~= s@);
    while 0 < b && v[b - 1] == '\n'
        invariant
            b <= v.len(),
            v@ == s@,
            strip_newlines(s@) == strip_newlines(s@.take(b as int)),
        decreases b,
    {
        assert(s@.take(b as int).drop_last() =~= s@.take(b - 1));
        assert(s@.take(b as int).last() == v[b - 1]);
        b -= 1;
    }
    assert(0 < b ==> s@.take(b as int).last() == v[b - 1]);
    assert(s@.subrange(0, b as int) =~= s@.take(b as int));
    string_of(&v, 0, b)
}

// ---------------------------------------------------------------------------
// Splitting and joining
// ---------------------------------------------------------------------------

/// How many characters stand before the first white space.
pub open spec fn word_len(s: Seq<char>) -> nat
    decreases s.len(),
{
    if s.len() == 0 || is_white(s[0]) {
        0
    } else {
        1 + word_len(s.skip(1))
    }
}

proof fn lemma_word_len(s: Seq<char>, n: nat)
    requires
        n <= s.len(),
        forall|i: int| 0 <= i < n ==> !is_white(#[trigger] s[i]),
        n == s.len() || is_white(s[n as int]),
    ensures
        word_len(s) == n,
    decreases n,
{
    if n > 0 {
        assert forall|i: int| 0 <= i < n - 1 implies !is_white(#[trigger] s.skip(1)[i]) by {
            assert(s.skip(1)[i] == s[i + 1]);
        }
        lemma_word_len(s.skip(1), (n - 1) as nat);
    }
}

proof fn lemma_word_len_bound(s: Seq<char>)
    ensures
        word_len(s) <= s.len(),
        s.len() > 0 && !is_white(s[0]) ==> word_len(s) > 0,
    decreases s.len(),
{
    if s.len() > 0 {
        lemma_word_len_bound(s.skip(1));
    }
}

/// The stretches of `s` between white space, in order.
pub open spec fn words(s: Seq<char>) -> Seq<Seq<char>>
    decreases s.len(),
    via words_decreases
{
    if s.len() == 0 {
        seq![]
    } else if is_white(s[0]) {
        words(s.skip(1))
    } else {
        seq![s.take(word_len(s) as int)] + words(s.skip(word_len(s) as int))
    }
}

#[via_fn]
proof fn words_decreases(s: Seq<char>) {
    lemma_word_len_bound(s);
}

/// Words are not empty and hold no white space.
pub proof fn lemma_words(s: Seq<char>, k: int)
    requires
        0 <= k < words(s).len(),
    ensures
        words(s)[k].len() > 0,
        forall|i: int| 0 <= i < words(s)[k].len() ==> !is_white(#[trigger] words(s)[k][i]),
    decreases s.len(),
{
    if s.len() > 0 {
        lemma_word_len_bound(s);
        if is_white(s[0]) {
            lemma_words(s.skip(1), k);
        } else if k == 0 {
            lemma_word_chars(s);
            assert forall|i: int| 0 <= i < words(s)[0].len() implies !is_white(
                #[trigger] words(s)[0][i],
            ) by {
                assert(words(s)[0][i] == s[i]);
            }
        } else {
            lemma_words(s.skip(word_len(s) as int), k - 1);
            assert(words(s)[k] == words(s.skip(word_len(s) as int))[k - 1]);
        }
    }
}

proof fn lemma_word_chars(s: Seq<char>)
    ensures
        forall|i: int| 0 <= i < word_len(s) ==> !is_white(#[trigger] s[i]),
    decreases s.len(),
{
    if s.len() > 0 && !is_white(s[0]) {
        lemma_word_chars(s.skip(1));
        lemma_word_len_bound(s);
        assert forall|i: int| 0 <= i < word_len(s) implies !is_white(#[trigger] s[i]) by {
            if i > 0 {
                assert(s[i] == s.skip(1)[i - 1]);
            }
        }
    }
}

/// Two words with one space between them are the words of that text.
pub proof fn lemma_two_words(a: Seq<char>, b: Seq<char>)
    requires
        a.len() > 0,
        b.len() > 0,
        forall|i: int| 0 <= i < a.len() ==> !is_white(#[trigger] a[i]),
        forall|i: int| 0 <= i < b.len() ==> !is_white(#[trigger] b[i]),
    ensures
        words(a.push(' ') + b) == seq![a, b],
{
    let s = a.push(' ') + b;
    assert forall|i: int| 0 <= i < a.len() implies !is_white(#[trigger] s[i]) by {
        assert(s[i] == a[i]);
    }
    assert(s[a.len() as int] == ' ');
    assert(s[0] == a[0]);
    lemma_word_len(s, a.len());
    assert(s.take(a.len() as int) =~= a);
    let rest = s.skip(a.len() as int);
    assert(rest[0] == ' ');
    assert(rest.skip(1) =~= b);
    lemma_word_len(b, b.len());
    assert(b.take(b.len() as int) =~= b);
    assert(words(b.skip(b.len() as int)) == Seq::<Seq<char>>::empty());
    assert(words(b) =~= seq![b]);
    assert(words(rest) == words(b));
    assert(words(s) =~= seq![a, b]);
}

/// The stretches of `s` between white space, in order.
pub fn split_whitespace(s: &str) -> (r: Vec<String>)
    ensures
        texts(r@) == words(s@),
{
    let v = chars_of(s);
    let mut out: Vec<String> = Vec::new();
    let mut i: usize = 0;
    assert(s@.skip(0) =~= s@);
    assert(texts(out@) + words(s@) =~= words(s@));
    while i < v.len()
        invariant
            i <= v.len(),
            v@ == s@,
            texts(out@) + words(s@.skip(i as int)) == words(s@),
        decreases v.len() - i,
    {
        let ghost rest = s@.skip(i as int);
        assert(rest[0] == v[i as int]);
        if white(v[i]) {
            assert(rest.skip(1) =~= s@.skip(i + 1));
            i += 1;
        } else {
            let mut j: usize = i;
            while j < v.len() && !white(v[j])
                invariant
                    i <= j <= v.len(),
                    forall|k: int| i <= k < j ==> !is_white(#[trigger] v[k]),
                decreases v.len() - j,
            {
                j += 1;
            }
            proof {
                assert forall|k: int| 0 <= k < j - i implies !is_white(#[trigger] rest[k]) by {
                    assert(rest[k] == v[i + k]);
                }
                assert(j < v.len() ==> rest[j - i] == v[j as int]);
                lemma_word_len(rest, (j - i) as nat);
                assert(rest.take(j - i) =~= s@.subrange(i as int, j as int));
                assert(rest.skip(j - i) =~= s@.skip(j as int));
            }
            let w = string_of(&v, i, j);
            let ghost before = out@;
            out.push(w);
            proof {
                assert(texts(out@) =~= texts(before).push(rest.take(j - i)));
                assert(texts(out@) + words(s@.skip(j as int)) =~= texts(before) + words(rest));
            }
            i = j;
        }
    }
    assert(s@.skip(i as int).len() == 0);
    assert(texts(out@) + words(s@.skip(i as int)) =~= texts(out@));
    out
}

/// How many characters stand before the first `sep`; all of them when there is
/// none.
pub open spec fn find_char(s: Seq<char>, sep: char) -> nat
    decreases s.len(),
{
    if s.len() == 0 || s[0] == sep {
        0
    } else {
        1 + find_char(s.skip(1), sep)
    }
}

/// What `find_char` finds: no `sep` before it, and a `sep` at it unless it is
/// the end.
pub proof fn lemma_find_char(s: Seq<char>, sep: char)
    ensures
        find_char(s, sep) <= s.len(),
        forall|i: int| 0 <= i < find_char(s, sep) ==> s[i] != sep,
        find_char(s, sep) < s.len() ==> s[find_char(s, sep) as int] == sep,
    decreases s.len(),
{
    if s.len() > 0 && s[0] != sep {
        lemma_find_char(s.skip(1), sep);
        assert forall|i: int| 0 <= i < find_char(s, sep) implies s[i] != sep by {
            if i > 0 {
                assert(s[i] == s.skip(1)[i - 1]);
            }
        }
    }
}

/// The converse of `lemma_find_char`.
pub proof fn lemma_find_char_is(s: Seq<char>, sep: char, n: nat)
    requires
        n <= s.len(),
        forall|i: int| 0 <= i < n ==> s[i] != sep,
        n == s.len() || s[n as int] == sep,
    ensures
        find_char(s, sep) == n,
{
    lemma_find_char(s, sep);
}

/// Where the first `sep` at or behind `from` stands; the end when there is none.
pub fn position_from(v: &Vec<char>, from: usize, sep: char) -> (r: usize)
    requires
        from <= v.len(),
    ensures
        from <= r <= v.len(),
        r == from + find_char(v@.skip(from as int), sep),
{
    let mut j: usize = from;
    while j < v.len() && v[j] != sep
        invariant
            from <= j <= v.len(),
            forall|k: int| from <= k < j ==> v[k] != sep,
        decreases v.len() - j,
    {
        j += 1;
    }
    proof {
        let rest = v@.skip(from as int);
        assert forall|k: int| 0 <= k < j - from implies rest[k] != sep by {
            assert(rest[k] == v[from + k]);
        }
        assert(j < v.len() ==> rest[j - from] == v[j as int]);
        lemma_find_char_is(rest, sep, (j - from) as nat);
    }
    j
}

/// The pieces of `s` between the `sep`s: one more than there are `sep`s.
pub open spec fn split(s: Seq<char>, sep: char) -> Seq<Seq<char>>
    decreases s.len(),
{
    let n = find_char(s, sep);
    if n >= s.len() {
        seq![s]
    } else {
        seq![s.take(n as int)] + split(s.skip(n as int + 1), sep)
    }
}

/// No piece holds a `sep`.
pub proof fn lemma_split_pieces(s: Seq<char>, sep: char)
    ensures
        forall|i: int| 0 <= i < split(s, sep).len() ==> !(#[trigger] split(s, sep)[i]).contains(sep),
    decreases s.len(),
{
    let n = find_char(s, sep);
    lemma_find_char(s, sep);
    if n < s.len() {
        let rest = split(s.skip(n as int + 1), sep);
        lemma_split_pieces(s.skip(n as int + 1), sep);
        assert forall|i: int| 0 <= i < split(s, sep).len() implies !(#[trigger] split(
            s,
            sep,
        )[i]).contains(sep) by {
            if i > 0 {
                assert(split(s, sep)[i] == rest[i - 1]);
            }
        }
    }
}

/// The pieces of `s` between the `sep`s.
pub fn split_on(s: &str, sep: char) -> (r: Vec<String>)
    ensures
        texts(r@) == split(s@, sep),
        r.len() > 0,
{
    let v = chars_of(s);
    let mut out: Vec<String> = Vec::new();
    let mut i: usize = 0;
    assert(s@.skip(0) =~= s@);
    assert(texts(out@) + split(s@, sep) =~= split(s@, sep));
    loop
        invariant_except_break
            texts(out@) + split(s@.skip(i as int), sep) == split(s@, sep),
        invariant
            i <= v.len(),
            v@ == s@,
        ensures
            texts(out@) == split(s@, sep),
            out.len() > 0,
        decreases v.len() - i,
    {
        let j = position_from(&v, i, sep);
        let ghost rest = s@.skip(i as int);
        let ghost before = out@;
        proof {
            lemma_find_char(rest, sep);
            assert(rest.take(j - i) =~= s@.subrange(i as int, j as int));
        }
        let piece = string_of(&v, i, j);
        out.push(piece);
        assert(texts(out@) =~= texts(before).push(s@.subrange(i as int, j as int)));
        if j >= v.len() {
            proof {
                assert(rest.take(j - i) =~= rest);
                assert(texts(out@) =~= texts(before) + seq![rest]);
            }
            break;
        }
        proof {
            assert(rest.skip(j - i + 1) =~= s@.skip(j + 1));
            assert(texts(out@) + split(s@.skip(j + 1), sep) =~= texts(before) + split(rest, sep));
        }
        i = j + 1;
    }
    out
}

/// `parts` with `sep` between neighbours.
pub open spec fn join(parts: Seq<Seq<char>>, sep: Seq<char>) -> Seq<char>
    decreases parts.len(),
{
    if parts.len() == 0 {
        seq![]
    } else if parts.len() == 1 {
        parts[0]
    } else {
        join(parts.drop_last(), sep) + sep + parts.last()
    }
}

/// `parts` with `sep` between neighbours.
pub fn join_with(parts: &Vec<String>, sep: &str) -> (r: String)
    ensures
        r@ == join(texts(parts@), sep@),
{
    let mut out: String = String::new();
    let mut i: usize = 0;
    while i < parts.len()
        invariant
            i <= parts.len(),
            out@ == join(texts(parts@).take(i as int), sep@),
        decreases parts.len() - i,
    {
        let ghost all = texts(parts@);
        if i > 0 {
            out.push_str(sep);
        }
        out.push_str(parts[i].as_str());
        proof {
            assert(all.take(i + 1).drop_last() =~= all.take(i as int));
            assert(all.take(i + 1).last() == parts[i as int]@);
            if i == 0 {
                assert(out@ =~= parts[0]@);
            }
        }
        i += 1;
    }
    assert(texts(parts@).take(parts.len() as int) =~= texts(parts@));
    out
}

// ---------------------------------------------------------------------------
// Numbers
// ---------------------------------------------------------------------------

/// The digit `d`.
pub open spec fn digit(d: int) -> char {
    (48 + d) as char
}

/// `n` in decimal, without leading zeros.
pub open spec fn decimal(n: nat) -> Seq<char>
    decreases n,
{
    if n < 10 {
        seq![digit(n as int)]
    } else {
        decimal(n / 10).push(digit((n % 10) as int))
    }
}

/// `n` in decimal.
pub fn to_decimal(n: u64) -> (r: String)
    ensures
        r@ == decimal(n as nat),
{
    wide_to_decimal(n as u128)
}

/// `n` in decimal.
pub fn wide_to_decimal(n: u128) -> (r: String)
    ensures
        r@ == decimal(n as nat),
    decreases n,
{
    if n < 10 {
        let mut s: String = String::new();
        s.push((48u8 + n as u8) as char);
        s
    } else {
        let mut s: String = wide_to_decimal(n / 10);
        s.push((48u8 + (n % 10) as u8) as char);
        s
    }
}

/// Whether `c` is one of `0` to `9`.
pub open spec fn is_digit(c: char) -> bool {
    '0' <= c && c <= '9'
}

/// The number that a run of digits writes.
pub open spec fn digits_value(s: Seq<char>) -> nat
    decreases s.len(),
{
    if s.len() == 0 {
        0
    } else {
        digits_value(s.drop_last()) * 10 + (s.last() as nat - 48) as nat
    }
}

proof fn lemma_digits_value_grows(s: Seq<char>, k: int)
    requires
        0 <= k <= s.len(),
    ensures
        digits_value(s.take(k)) <= digits_value(s),
    decreases s.len() - k,
{
    if k < s.len() {
        lemma_digits_value_grows(s, k + 1);
        assert(s.take(k + 1).drop_last() =~= s.take(k));
    } else {
        assert(s.take(k) =~= s);
    }
}

/// `s` without one `+` in front.
pub open spec fn without_plus(s: Seq<char>) -> Seq<char> {
    if s.len() > 0 && s[0] == '+' {
        s.skip(1)
    } else {
        s
    }
}

/// Whether `s` is a run of one or more digits.
pub open spec fn all_digits(s: Seq<char>) -> bool {
    s.len() > 0 && (forall|i: int| 0 <= i < s.len() ==> is_digit(#[trigger] s[i]))
}

/// What `s` reads as an unsigned number of at most `max`: digits, with at most
/// one `+` in front of them, and at least one digit.
pub open spec fn parsed(s: Seq<char>, max: nat) -> Option<nat> {
    let digits = without_plus(s);
    if all_digits(digits) && digits_value(digits) <= max {
        Some(digits_value(digits))
    } else {
        None
    }
}

/// Reads `s` as an unsigned number of at most `max`.
pub fn parse_number(s: &str, max: u32) -> (r: Option<u32>)
    ensures
        r is Some <==> parsed(s@, max as nat) is Some,
        r is Some ==> r.unwrap() == parsed(s@, max as nat).unwrap(),
{
    let v = chars_of(s);
    let start: usize = if v.len() > 0 && v[0] == '+' {
        1
    } else {
        0
    };
    let ghost digits = without_plus(s@);
    assert(digits =~= s@.skip(start as int));
    if start == v.len() {
        return None;
    }
    let mut acc: u64 = 0;
    let mut i: usize = start;
    assert(digits.take(0) =~= seq![]);
    while i < v.len()
        invariant
            start <= i <= v.len(),
            v@ == s@,
            digits == s@.skip(start as int),
            digits == without_plus(s@),
            forall|k: int| 0 <= k < i - start ==> is_digit(#[trigger] digits[k]),
            acc == digits_value(digits.take(i - start)),
            acc <= max,
        decreases v.len() - i,
    {
        let c = v[i];
        assert(digits[i - start] == c);
        if c < '0' || '9' < c {
            assert(!all_digits(digits));
            return None;
        }
        acc = acc * 10 + (c as u32 - 48) as u64;
        assert(digits.take(i - start + 1).drop_last() =~= digits.take(i - start));
        if acc > max as u64 {
            proof {
                lemma_digits_value_grows(digits, i - start + 1);
            }
            return None;
        }
        i += 1;
    }
    assert(digits.take(i - start) =~= digits);
    Some(acc as u32)
}

/// The decimal form of a number is digits that read back as the number.
pub proof fn lemma_decimal_reads_back(n: nat)
    ensures
        all_digits(decimal(n)),
        digits_value(decimal(n)) == n,
    decreases n,
{
    let s = decimal(n);
    if n < 10 {
        assert(s.drop_last() =~= seq![]);
        assert(is_digit(digit(n as int)));
        assert(digits_value(s.drop_last()) == 0);
        assert(s.last() as nat == 48 + n);
    } else {
        lemma_decimal_reads_back(n / 10);
        assert(s.drop_last() =~= decimal(n / 10));
        assert(s.last() as nat == 48 + n % 10);
        assert(is_digit(digit((n % 10) as int)));
        assert forall|i: int| 0 <= i < s.len() implies is_digit(#[trigger] s[i]) by {
            if i < s.len() - 1 {
                assert(s[i] == decimal(n / 10)[i]);
            }
        }
    }
}

/// Writing a number and reading it back gives the number.
pub proof fn law_decimal_round_trips(n: nat, max: nat)
    requires
        n <= max,
    ensures
        parsed(decimal(n), max) == Some(n),
{
    lemma_decimal_reads_back(n);
    assert(is_digit(decimal(n)[0]));
    assert(decimal(n)[0] != '+');
}

// ---------------------------------------------------------------------------
// The order of texts
// ---------------------------------------------------------------------------

/// Whether `a` comes before `b`: at the first character in which they differ,
/// or because it ends first.
pub open spec fn before(a: Seq<char>, b: Seq<char>) -> bool
    decreases a.len(),
{
    if b.len() == 0 {
        false
    } else if a.len() == 0 {
        true
    } else if a[0] != b[0] {
        a[0] < b[0]
    } else {
        before(a.skip(1), b.skip(1))
    }
}

/// Of two texts, one comes before the other or they are the same; and none comes
/// before itself.
pub proof fn lemma_before_total(a: Seq<char>, b: Seq<char>)
    ensures
        before(a, b) || before(b, a) || a == b,
        !before(a, a),
        !(before(a, b) && before(b, a)),
    decreases a.len(),
{
    if a.len() > 0 {
        lemma_before_total(a.skip(1), a.skip(1));
    }
    if a.len() > 0 && b.len() > 0 {
        lemma_before_total(a.skip(1), b.skip(1));
        if a[0] == b[0] && a.skip(1) == b.skip(1) {
            assert(a =~= seq![a[0]] + a.skip(1));
            assert(b =~= seq![b[0]] + b.skip(1));
        }
    } else if a.len() == 0 && b.len() == 0 {
        assert(a =~= b);
    }
}

/// The order of texts is transitive.
pub proof fn lemma_before_transitive(a: Seq<char>, b: Seq<char>, c: Seq<char>)
    requires
        before(a, b),
        before(b, c),
    ensures
        before(a, c),
    decreases a.len(),
{
    if a.len() > 0 && a[0] == b[0] && b[0] == c[0] {
        lemma_before_transitive(a.skip(1), b.skip(1), c.skip(1));
    }
}

/// Whether `a` comes before `b`.
pub fn comes_before(a: &str, b: &str) -> (r: bool)
    ensures
        r == before(a@, b@),
{
    let x = chars_of(a);
    let y = chars_of(b);
    let mut i: usize = 0;
    assert(a@.skip(0) =~= a@ && b@.skip(0) =~= b@);
    loop
        invariant
            i <= x.len(),
            i <= y.len(),
            x@ == a@,
            y@ == b@,
            before(a@, b@) == before(a@.skip(i as int), b@.skip(i as int)),
        decreases x.len() - i,
    {
        let ghost p = a@.skip(i as int);
        let ghost q = b@.skip(i as int);
        if i == y.len() {
            return false;
        }
        if i == x.len() {
            return true;
        }
        assert(p[0] == x[i as int] && q[0] == y[i as int]);
        if x[i] != y[i] {
            return x[i] < y[i];
        }
        assert(p.skip(1) =~= a@.skip(i + 1) && q.skip(1) =~= b@.skip(i + 1));
        i += 1;
    }
}

// ---------------------------------------------------------------------------
// Lines
// ---------------------------------------------------------------------------

/// `s` without one carriage return at the end.
pub open spec fn without_cr(s: Seq<char>) -> Seq<char> {
    if s.len() > 0 && s.last() == '\r' {
        s.drop_last()
    } else {
        s
    }
}

/// The lines of `s`: what stands before each newline, without a carriage return
/// there, and what stands behind the last one if it is not empty.
pub open spec fn lines(s: Seq<char>) -> Seq<Seq<char>>
    decreases s.len(),
{
    let n = find_char(s, '\n');
    if s.len() == 0 {
        seq![]
    } else if n >= s.len() {
        seq![s]
    } else {
        seq![without_cr(s.take(n as int))] + lines(s.skip(n as int + 1))
    }
}

/// The lines of `s`.
pub fn lines_of(s: &str) -> (r: Vec<String>)
    ensures
        texts(r@) == lines(s@),
{
    let v = chars_of(s);
    let mut out: Vec<String> = Vec::new();
    let mut i: usize = 0;
    assert(s@.skip(0) =~= s@);
    assert(texts(out@) + lines(s@) =~= lines(s@));
    while i < v.len()
        invariant
            i <= v.len(),
            v@ == s@,
            texts(out@) + lines(s@.skip(i as int)) == lines(s@),
        decreases v.len() - i,
    {
        let j = position_from(&v, i, '\n');
        let ghost rest = s@.skip(i as int);
        let ghost before = out@;
        let ended = j < v.len();
        let end: usize = if ended && j > i && v[j - 1] == '\r' {
            j - 1
        } else {
            j
        };
        let line = string_of(&v, i, end);
        proof {
            lemma_find_char(rest, '\n');
            let piece = rest.take(j - i);
            assert(j > i ==> piece.last() == v[j - 1]);
            if ended {
                assert(line@ =~= without_cr(piece));
                assert(rest.skip(j - i + 1) =~= s@.skip(j + 1));
            } else {
                assert(line@ =~= rest);
            }
        }
        out.push(line);
        assert(texts(out@) =~= texts(before).push(line@));
        if ended {
            assert(texts(out@) + lines(s@.skip(j + 1)) =~= texts(before) + lines(rest));
            i = j + 1;
        } else {
            proof {
                assert(s@.skip(v.len() as int).len() == 0);
                assert(texts(out@) + lines(s@.skip(v.len() as int)) =~= texts(before) + lines(rest));
            }
            i = v.len();
        }
    }
    assert(s@.skip(i as int).len() == 0);
    assert(texts(out@) + lines(s@.skip(i as int)) =~= texts(out@));
    out
}

/// A text that is empty or ends in a newline, with one more line behind it, has
/// the lines of the text and then that line.
pub proof fn lemma_lines_append(s: Seq<char>, line: Seq<char>)
    requires
        s.len() == 0 || s.last() == '\n',
        line.len() > 0,
        forall|i: int| 0 <= i < line.len() ==> line[i] != '\n' && line[i] != '\r',
    ensures
        lines(s + line.push('\n')) == lines(s).push(line),
    decreases s.len(),
{
    let whole = s + line.push('\n');
    let n = find_char(s, '\n') as int;
    lemma_find_char(s, '\n');
    if s.len() == 0 {
        assert(whole =~= line.push('\n'));
        lemma_find_char_is(whole, '\n', line.len());
        assert(whole.take(line.len() as int) =~= line);
        assert(line.last() == line[line.len() - 1]);
        assert(lines(whole.skip(line.len() as int + 1)) == Seq::<Seq<char>>::empty());
        assert(lines(s) == Seq::<Seq<char>>::empty());
        assert(seq![line] + Seq::<Seq<char>>::empty() =~= Seq::<Seq<char>>::empty().push(line));
    } else {
        assert(n < s.len()) by {
            assert(s[s.len() - 1] == '\n');
        }
        assert forall|i: int| 0 <= i < n implies whole[i] != '\n' by {
            assert(whole[i] == s[i]);
        }
        assert(whole[n] == s[n]);
        lemma_find_char_is(whole, '\n', n as nat);
        assert(whole.take(n) =~= s.take(n));
        let rest = s.skip(n + 1);
        assert(whole.skip(n + 1) =~= rest + line.push('\n'));
        if rest.len() > 0 {
            assert(rest.last() == s.last());
        }
        lemma_lines_append(rest, line);
        assert(seq![without_cr(s.take(n))] + lines(rest).push(line) =~= (seq![
            without_cr(s.take(n)),
        ] + lines(rest)).push(line));
    }
}

// ---------------------------------------------------------------------------
// Searching
// ---------------------------------------------------------------------------

/// Whether `q` stands in `s` at `i`.
pub open spec fn stands_at(s: Seq<char>, q: Seq<char>, i: int) -> bool {
    0 <= i && i + q.len() <= s.len() && s.subrange(i, i + q.len() as int) == q
}

/// Whether `q` stands somewhere in `s`.
pub open spec fn has_sub(s: Seq<char>, q: Seq<char>) -> bool {
    exists|i: int| #[trigger] stands_at(s, q, i)
}

fn matches_at(s: &Vec<char>, q: &Vec<char>, at: usize) -> (r: bool)
    requires
        at + q.len() <= s.len(),
    ensures
        r == stands_at(s@, q@, at as int),
{
    let mut j: usize = 0;
    while j < q.len()
        invariant
            j <= q.len(),
            at + q.len() <= s.len(),
            forall|k: int| 0 <= k < j ==> s[at + k] == q[k],
        decreases q.len() - j,
    {
        if s[at + j] != q[j] {
            assert(s@.subrange(at as int, at + q.len())[j as int] != q[j as int]);
            return false;
        }
        j += 1;
    }
    assert(s@.subrange(at as int, at + q.len()) =~= q@);
    true
}

/// Whether `q` stands somewhere in `s`.
pub fn contains(s: &str, q: &str) -> (r: bool)
    ensures
        r == has_sub(s@, q@),
{
    let a = chars_of(s);
    let b = chars_of(q);
    if b.len() > a.len() {
        return false;
    }
    let last: usize = a.len() - b.len();
    let mut i: usize = 0;
    loop
        invariant
            i <= last,
            last + b.len() == a.len(),
            a@ == s@,
            b@ == q@,
            forall|k: int| 0 <= k < i ==> !stands_at(s@, q@, k),
        decreases last - i,
    {
        if matches_at(&a, &b, i) {
            assert(stands_at(s@, q@, i as int));
            return true;
        }
        if i == last {
            assert forall|k: int| !#[trigger] stands_at(s@, q@, k) by {}
            return false;
        }
        i += 1;
    }
}

/// Whether the characters of `needle` come in `hay` in that order.
pub open spec fn in_order(needle: Seq<char>, hay: Seq<char>) -> bool
    decreases hay.len(),
{
    if needle.len() == 0 {
        true
    } else if hay.len() == 0 {
        false
    } else if needle[0] == hay[0] {
        in_order(needle.skip(1), hay.skip(1))
    } else {
        in_order(needle, hay.skip(1))
    }
}

/// Whether the characters of `needle` come in `hay` in that order.
pub fn comes_in_order(needle: &str, hay: &str) -> (r: bool)
    ensures
        r == in_order(needle@, hay@),
{
    let n = chars_of(needle);
    let h = chars_of(hay);
    let mut i: usize = 0;
    let mut j: usize = 0;
    assert(needle@.skip(0) =~= needle@ && hay@.skip(0) =~= hay@);
    while i < n.len() && j < h.len()
        invariant
            i <= n.len(),
            j <= h.len(),
            n@ == needle@,
            h@ == hay@,
            in_order(needle@, hay@) == in_order(needle@.skip(i as int), hay@.skip(j as int)),
        decreases h.len() - j,
    {
        let ghost p = needle@.skip(i as int);
        let ghost q = hay@.skip(j as int);
        assert(p[0] == n[i as int] && q[0] == h[j as int]);
        assert(q.skip(1) =~= hay@.skip(j + 1));
        if n[i] == h[j] {
            assert(p.skip(1) =~= needle@.skip(i + 1));
            i += 1;
        }
        j += 1;
    }
    i == n.len()
}

} // verus!
