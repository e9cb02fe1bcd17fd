//! What is true of texts: trimming, words, pieces, lines, numbers and order.

use crate::text::{
    before, decimal, digits_value, find_char, has_sub, in_order, is_white, join, lines,
    lower_ascii, parsed, split, stands_at, strip_newlines, trim_end, trim_start, trimmed, words,
};
use vstd::prelude::*;

verus! {

proof fn lemma_trim_start(s: Seq<char>)
    ensures
        trim_start(s).len() <= s.len(),
        trim_start(s) == s.skip(s.len() - trim_start(s).len()),
        forall|i: int| 0 <= i < s.len() - trim_start(s).len() ==> is_white(#[trigger] s[i]),
        trim_start(s).len() > 0 ==> !is_white(trim_start(s)[0]),
    decreases s.len(),
{
    if s.len() > 0 && is_white(s[0]) {
        let rest = s.skip(1);
        lemma_trim_start(rest);
        let t = trim_start(rest);
        assert(rest.skip(rest.len() - t.len()) =~= s.skip(s.len() - t.len()));
        assert forall|i: int| 0 <= i < s.len() - t.len() implies is_white(#[trigger] s[i]) by {
            if i > 0 {
                assert(rest[i - 1] == s[i]);
            }
        }
    } else {
        assert(s.skip(0) =~= s);
    }
}

proof fn lemma_trim_end(s: Seq<char>)
    ensures
        trim_end(s).len() <= s.len(),
        trim_end(s) == s.take(trim_end(s).len() as int),
        forall|i: int| trim_end(s).len() <= i < s.len() ==> is_white(#[trigger] s[i]),
        trim_end(s).len() > 0 ==> !is_white(trim_end(s).last()),
    decreases s.len(),
{
    if s.len() > 0 && is_white(s.last()) {
        let front = s.drop_last();
        lemma_trim_end(front);
        let t = trim_end(front);
        assert(front.take(t.len() as int) =~= s.take(t.len() as int));
        assert forall|i: int| t.len() <= i < s.len() implies is_white(#[trigger] s[i]) by {
            if i < front.len() {
                assert(front[i] == s[i]);
            }
        }
    } else {
        assert(s.take(s.len() as int) =~= s);
    }
}

/// Whether `t` is what is left of `s` between `from` and `to`, with white space
/// alone before and behind it.
pub open spec fn is_core(s: Seq<char>, t: Seq<char>, from: int) -> bool {
    &&& 0 <= from && from + t.len() <= s.len()
    &&& t == s.subrange(from, from + t.len() as int)
    &&& forall|i: int| 0 <= i < from ==> is_white(#[trigger] s[i])
    &&& forall|i: int| from + t.len() <= i < s.len() ==> is_white(#[trigger] s[i])
}

/// Trimming takes white space away from both ends, and nothing else: what is left
/// neither starts nor ends with any.
pub proof fn law_trimming_takes_white_space_from_the_ends(s: Seq<char>)
    ensures
        exists|from: int| #[trigger] is_core(s, trimmed(s), from),
        trimmed(s).len() > 0 ==> !is_white(trimmed(s)[0]) && !is_white(trimmed(s).last()),
{
    lemma_trim_start(s);
    let a = trim_start(s);
    lemma_trim_end(a);
    let t = trimmed(s);
    let from = s.len() - a.len();
    assert(t =~= s.subrange(from, from + t.len() as int));
    assert forall|i: int| from + t.len() <= i < s.len() implies is_white(#[trigger] s[i]) by {
        assert(a[i - from] == s[i]);
    }
    assert(is_core(s, t, from));
    if t.len() > 0 {
        assert(t[0] == a[0]);
    }
}

/// A text that neither starts nor ends with white space is trimmed already.
pub proof fn law_trimmed_texts_stay(s: Seq<char>)
    requires
        s.len() > 0 ==> !is_white(s[0]) && !is_white(s.last()),
    ensures
        trimmed(s) == s,
{
}

/// Space, tab, newline and carriage return are white; letters, digits and
/// punctuation are not.
pub proof fn law_white_space_is_what_shows_nothing(c: char)
    ensures
        c == ' ' || c == '\t' || c == '\n' || c == '\r' ==> is_white(c),
        '!' <= c && c <= '~' ==> !is_white(c),
{
}

/// Only the newlines at the end go.
pub proof fn law_only_final_newlines_go(s: Seq<char>)
    ensures
        ({
            let t = strip_newlines(s);
            &&& t.len() <= s.len() && t == s.take(t.len() as int)
            &&& t.len() > 0 ==> t.last() != '\n'
            &&& forall|i: int| t.len() <= i < s.len() ==> #[trigger] s[i] == '\n'
        }),
    decreases s.len(),
{
    if s.len() > 0 && s.last() == '\n' {
        let front = s.drop_last();
        law_only_final_newlines_go(front);
        let t = strip_newlines(front);
        assert(front.take(t.len() as int) =~= s.take(t.len() as int));
        assert forall|i: int| t.len() <= i < s.len() implies #[trigger] s[i] == '\n' by {
            if i < front.len() {
                assert(front[i] == s[i]);
            }
        }
    } else {
        assert(s.take(s.len() as int) =~= s);
    }
}

/// Words hold no white space and are not empty.
pub proof fn law_words_hold_no_white_space(s: Seq<char>, k: int)
    requires
        0 <= k < words(s).len(),
    ensures
        words(s)[k].len() > 0,
        forall|i: int| 0 <= i < words(s)[k].len() ==> !is_white(#[trigger] words(s)[k][i]),
{
    crate::text::lemma_words(s, k);
}

/// A word, white space, and more: the word comes first among the words, and the rest
/// of them are those of the rest.
pub proof fn law_the_first_word_comes_first(word: Seq<char>, gap: char, rest: Seq<char>)
    requires
        word.len() > 0,
        forall|i: int| 0 <= i < word.len() ==> !is_white(#[trigger] word[i]),
        is_white(gap),
    ensures
        words(word) == seq![word],
        words(word + seq![gap] + rest) == seq![word] + words(rest),
        words(seq![gap] + rest) == words(rest),
        words(seq![]).len() == 0,
{
    reveal_with_fuel(words, 3);
    let s = word + seq![gap] + rest;
    assert(!is_white(word[0]));
    assert(s[0] == word[0]);
    assert(s[word.len() as int] == gap);
    assert forall|i: int| 0 <= i < word.len() implies !is_white(#[trigger] s[i]) by {
        assert(s[i] == word[i]);
    }
    lemma_run(word, 0);
    lemma_run_then(s, word.len());
    assert(s.take(word.len() as int) =~= word);
    assert(s.skip(word.len() as int) =~= seq![gap] + rest);
    assert((seq![gap] + rest).skip(1) =~= rest);
    assert(word.take(word.len() as int) =~= word);
    assert(word.skip(word.len() as int) =~= seq![]);
    assert(seq![word] + Seq::<Seq<char>>::empty() =~= seq![word]);
}

proof fn lemma_run(word: Seq<char>, n: nat)
    requires
        forall|i: int| 0 <= i < word.len() ==> !is_white(#[trigger] word[i]),
    ensures
        crate::text::word_len(word) == word.len(),
    decreases word.len(),
{
    if word.len() > 0 {
        assert(!is_white(word[0]));
        assert forall|i: int| 0 <= i < word.skip(1).len() implies !is_white(
            #[trigger] word.skip(1)[i],
        ) by {
            assert(!is_white(word[i + 1]));
        }
        lemma_run(word.skip(1), n);
    }
}

proof fn lemma_run_then(s: Seq<char>, n: nat)
    requires
        n < s.len(),
        forall|i: int| 0 <= i < n ==> !is_white(#[trigger] s[i]),
        is_white(s[n as int]),
    ensures
        crate::text::word_len(s) == n,
    decreases n,
{
    if n > 0 {
        assert(!is_white(s[0]));
        let rest = s.skip(1);
        assert forall|i: int| 0 <= i < n - 1 implies !is_white(#[trigger] rest[i]) by {
            assert(!is_white(s[i + 1]));
        }
        assert(rest[n - 1] == s[n as int]);
        lemma_run_then(rest, (n - 1) as nat);
    }
}

/// The pieces of a text hold no separator, and put together with it they are the
/// text again.
pub proof fn law_pieces_make_the_text_again(s: Seq<char>, sep: char)
    ensures
        split(s, sep).len() > 0,
        join(split(s, sep), seq![sep]) == s,
        forall|k: int, i: int|
            0 <= k < split(s, sep).len() && 0 <= i < split(s, sep)[k].len() ==> (#[trigger] split(
                s,
                sep,
            )[k][i]) != sep,
    decreases s.len(),
{
    crate::text::lemma_find_char(s, sep);
    let n = find_char(s, sep);
    if n < s.len() {
        let rest = s.skip(n as int + 1);
        law_pieces_make_the_text_again(rest, sep);
        let head = s.take(n as int);
        let tail = split(rest, sep);
        let all = split(s, sep);
        assert(all == seq![head] + tail);
        lemma_join_head(head, tail, seq![sep]);
        assert(head + seq![sep] + rest =~= s);
        assert forall|k: int, i: int| 0 <= k < all.len() && 0 <= i < all[k].len() implies (
        #[trigger] all[k][i]) != sep by {
            if k > 0 {
                assert(all[k] == tail[k - 1]);
                assert(tail[k - 1][i] != sep);
            } else {
                assert(all[0][i] == s[i]);
            }
        }
    } else {
        assert forall|k: int, i: int|
            0 <= k < split(s, sep).len() && 0 <= i < split(s, sep)[k].len() implies (
        #[trigger] split(s, sep)[k][i]) != sep by {
            assert(split(s, sep)[0] == s);
        }
    }
}

proof fn lemma_join_head(head: Seq<char>, tail: Seq<Seq<char>>, sep: Seq<char>)
    requires
        tail.len() > 0,
    ensures
        join(seq![head] + tail, sep) == head + sep + join(tail, sep),
    decreases tail.len(),
{
    reveal_with_fuel(join, 3);
    let all = seq![head] + tail;
    if tail.len() == 1 {
        assert(all.drop_last() =~= seq![head]);
        assert(all.last() == tail[0]);
    } else {
        assert(all.drop_last() =~= seq![head] + tail.drop_last());
        assert(all.last() == tail.last());
        lemma_join_head(head, tail.drop_last(), sep);
        assert(head + sep + join(tail.drop_last(), sep) + sep + tail.last() =~= head + sep + (join(
            tail.drop_last(),
            sep,
        ) + sep + tail.last()));
    }
}

/// A line and a newline, and more: the line comes first among the lines, without a
/// carriage return at its end, and the rest of them are those of the rest.
pub proof fn law_lines_end_at_newlines(line: Seq<char>, rest: Seq<char>)
    requires
        forall|i: int| 0 <= i < line.len() ==> #[trigger] line[i] != '\n',
    ensures
        line.len() == 0 || line.last() != '\r' ==> lines(line + seq!['\n'] + rest) == seq![line]
            + lines(rest),
        lines(line + seq!['\r', '\n'] + rest) == seq![line] + lines(rest),
        line.len() > 0 ==> lines(line) == seq![line],
        lines(seq![]).len() == 0,
{
    let a = line + seq!['\n'] + rest;
    crate::text::lemma_find_char_is(a, '\n', line.len());
    assert(a.take(line.len() as int) =~= line);
    assert(a.skip(line.len() as int + 1) =~= rest);
    let b = line + seq!['\r', '\n'] + rest;
    assert forall|i: int| 0 <= i < line.len() + 1 implies #[trigger] b[i] != '\n' by {
        if i < line.len() {
            assert(b[i] == line[i]);
        }
    }
    crate::text::lemma_find_char_is(b, '\n', line.len() + 1);
    assert(b.take(line.len() as int + 1) =~= line.push('\r'));
    assert(line.push('\r').drop_last() =~= line);
    assert(b.skip(line.len() as int + 2) =~= rest);
    if line.len() > 0 {
        crate::text::lemma_find_char_is(line, '\n', line.len());
    }
}

/// Making capitals small changes A to Z alone, each into its small letter.
pub proof fn law_capitals_become_small(s: Seq<char>, i: int)
    requires
        0 <= i < s.len(),
    ensures
        lower_ascii(s).len() == s.len(),
        'A' <= s[i] && s[i] <= 'Z' ==> lower_ascii(s)[i] as int == s[i] as int + 32,
        !('A' <= s[i] && s[i] <= 'Z') ==> lower_ascii(s)[i] == s[i],
{
}

/// A number is read from its digits, each worth ten times the one behind it; a text
/// that holds anything else is no number.
pub proof fn law_numbers_are_read_from_digits(s: Seq<char>, d: int, c: char, max: nat)
    requires
        0 <= d <= 9,
    ensures
        digits_value(s.push((48 + d) as char)) == 10 * digits_value(s) + d,
        digits_value(seq![]) == 0,
        s.contains(c) && c != '+' && !('0' <= c && c <= '9') ==> parsed(s, max) is None,
        parsed(seq![], max) is None,
        parsed(s, max) matches Some(n) ==> n <= max,
{
    assert(s.push((48 + d) as char).drop_last() =~= s);
    if s.contains(c) && c != '+' && !('0' <= c && c <= '9') {
        let i = choose|i: int| 0 <= i < s.len() && s[i] == c;
        let t = crate::text::without_plus(s);
        if s[0] == '+' {
            assert(t[i - 1] == c);
        } else {
            assert(t[i] == c);
        }
    }
}

/// A number is written by its digits, the last of them what is left by ten.
pub proof fn law_numbers_are_written_in_digits(n: nat)
    ensures
        n < 10 ==> decimal(n) == seq![(48 + n) as char],
        n >= 10 ==> decimal(n) == decimal(n / 10).push((48 + n % 10) as char),
{
}

/// Texts are ordered by the first character in which they differ, and a text comes
/// before what it is the start of.
pub proof fn law_texts_are_ordered_by_their_first_difference(
    head: Seq<char>,
    a: char,
    b: char,
    x: Seq<char>,
    y: Seq<char>,
)
    ensures
        a < b ==> before(head + seq![a] + x, head + seq![b] + y) && !before(
            head + seq![b] + y,
            head + seq![a] + x,
        ),
        before(head, head + seq![a] + x),
        !before(head, head),
    decreases head.len(),
{
    if head.len() == 0 {
        assert((head + seq![a] + x)[0] == a);
        assert((head + seq![b] + y)[0] == b);
    } else {
        let rest = head.skip(1);
        law_texts_are_ordered_by_their_first_difference(rest, a, b, x, y);
        assert((head + seq![a] + x).skip(1) =~= rest + seq![a] + x);
        assert((head + seq![b] + y).skip(1) =~= rest + seq![b] + y);
    }
}

/// A text holds what stands between its start and its end, and its own characters in
/// order.
pub proof fn law_texts_hold_what_stands_in_them(a: Seq<char>, q: Seq<char>, b: Seq<char>, c: char)
    ensures
        has_sub(a + q + b, q),
        in_order(q, a + q + b),
        !q.contains(c) ==> !has_sub(q, seq![c]) && !in_order(seq![c], q),
{
    let s = a + q + b;
    assert(s.subrange(a.len() as int, a.len() + q.len() as int) =~= q);
    assert(stands_at(s, q, a.len() as int));
    lemma_in_order(a, q, b);
    if !q.contains(c) {
        lemma_not_in_order(c, q);
        if has_sub(q, seq![c]) {
            let i = choose|i: int| #[trigger] stands_at(q, seq![c], i);
            assert(q.subrange(i, i + 1)[0] == c);
            assert(q[i] == c);
        }
    }
}

proof fn lemma_in_order(a: Seq<char>, q: Seq<char>, b: Seq<char>)
    ensures
        in_order(q, a + q + b),
    decreases a.len() + q.len(), 0nat,
{
    let s = a + q + b;
    if q.len() > 0 {
        if a.len() == 0 {
            assert(s[0] == q[0]);
            assert(s.skip(1) =~= a + q.skip(1) + b);
            lemma_in_order(a, q.skip(1), b);
        } else {
            assert(s.skip(1) =~= a.skip(1) + q + b);
            if q[0] == s[0] {
                lemma_in_order_drop(q, s.skip(1), a.skip(1), b);
            } else {
                lemma_in_order(a.skip(1), q, b);
            }
        }
    }
}

/// What comes in order still does without its first character.
proof fn lemma_in_order_drop(q: Seq<char>, hay: Seq<char>, a: Seq<char>, b: Seq<char>)
    requires
        q.len() > 0,
        hay == a + q + b,
    ensures
        in_order(q.skip(1), hay),
    decreases a.len() + q.len(), 1nat,
{
    assert(hay =~= (a + q.take(1)) + q.skip(1) + b);
    lemma_in_order(a + q.take(1), q.skip(1), b);
}

proof fn lemma_not_in_order(c: char, q: Seq<char>)
    requires
        !q.contains(c),
    ensures
        !in_order(seq![c], q),
    decreases q.len(),
{
    if q.len() > 0 {
        assert(q[0] != c);
        assert forall|i: int| 0 <= i < q.skip(1).len() implies q.skip(1)[i] != c by {
            assert(q[i + 1] != c);
        }
        lemma_not_in_order(c, q.skip(1));
    }
}

} // verus!
