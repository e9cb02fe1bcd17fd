//! What keys mean: bindings, chords, and the palette.

use crate::app::{AppModel, CommandModel, PaletteModel};
use crate::event::{no_mods, KeyCode, KeyEvent, KeyModifiers};
use crate::keybinds::{
    canonical_of, char_chord, default_normal, default_terminal, first_exact, goes_on,
    meaning_in, reserved, under, BindableAction, Chord, Meaning, Table,
};
use crate::keys::{dispatched, normal_key, palette_key, terminal_key};
use crate::palette::{matching, of_rank, rank_of, PaletteEntryModel};
use crate::text;
use vstd::prelude::*;

verus! {

// ---------------------------------------------------------------------------
// Chords
// ---------------------------------------------------------------------------

proof fn lemma_exact(t: Table, keys: Seq<Chord>, i: int)
    ensures
        (0 <= i < t.len() && t[i].0 == keys && forall|j: int|
            0 <= j < i ==> (#[trigger] t[j]).0 != keys) ==> first_exact(t, keys) == Some(t[i].1),
        (forall|j: int| 0 <= j < t.len() ==> (#[trigger] t[j]).0 != keys) ==> first_exact(t, keys)
            is None,
    decreases t.len(),
{
    if t.len() > 0 && t[0].0 != keys {
        let rest = t.skip(1);
        lemma_exact(rest, keys, i - 1);
        if 0 <= i < t.len() && t[i].0 == keys && forall|j: int|
            0 <= j < i ==> (#[trigger] t[j]).0 != keys {
            assert(rest[i - 1] == t[i]);
            assert forall|j: int| 0 <= j < i - 1 implies (#[trigger] rest[j]).0 != keys by {
                assert(rest[j] == t[j + 1]);
            }
        }
        if forall|j: int| 0 <= j < t.len() ==> (#[trigger] t[j]).0 != keys {
            assert forall|j: int| 0 <= j < rest.len() implies (#[trigger] rest[j]).0 != keys by {
                assert(rest[j] == t[j + 1]);
            }
        }
    }
}

/// Keys mean the action of the first binding that is exactly those keys; else they
/// are the start of a chord if some binding goes on from them; else they mean
/// nothing.
pub proof fn law_keys_mean_their_first_binding(t: Table, keys: Seq<Chord>, i: int)
    requires
        keys.len() > 0,
    ensures
        (0 <= i < t.len() && t[i].0 == keys && forall|j: int|
            0 <= j < i ==> (#[trigger] t[j]).0 != keys) ==> meaning_in(t, keys) == Meaning::Exact(
            t[i].1,
        ),
        (forall|j: int| 0 <= j < t.len() ==> (#[trigger] t[j]).0 != keys) ==> (meaning_in(t, keys)
            == Meaning::Prefix <==> exists|k: int|
            0 <= k < t.len() && (#[trigger] t[k]).0.len() > keys.len() && t[k].0.take(
                keys.len() as int,
            ) == keys),
        (forall|j: int| 0 <= j < t.len() ==> (#[trigger] t[j]).0 != keys) && (forall|k: int|
            0 <= k < t.len() ==> !((#[trigger] t[k]).0.len() > keys.len() && t[k].0.take(
                keys.len() as int,
            ) == keys)) ==> meaning_in(t, keys) == Meaning::Nothing,
{
    lemma_exact(t, keys, i);
    if goes_on(t, keys) {
        let k = choose|k: int|
            0 <= k < t.len() && (#[trigger] t[k]).0.len() > keys.len()
                && crate::keybinds::begins(t[k].0, keys);
        assert(t[k].0.take(keys.len() as int) == keys);
    }
    if exists|k: int|
        0 <= k < t.len() && (#[trigger] t[k]).0.len() > keys.len() && t[k].0.take(
            keys.len() as int,
        ) == keys {
        let k = choose|k: int|
            0 <= k < t.len() && (#[trigger] t[k]).0.len() > keys.len() && t[k].0.take(
                keys.len() as int,
            ) == keys;
        assert(crate::keybinds::begins(t[k].0, keys));
    }
}

/// In Normal mode a chord that is complete runs its action and is forgotten; one that
/// may go on is held back; one that leads nowhere is dropped, and nothing happens. Esc
/// drops the chord.
pub proof fn law_chords_run_wait_or_drop(m: AppModel, k: KeyEvent)
    ensures
        ({
            let keys = m.pending_chord.push(canonical_of(k.modifiers, k.code));
            let idle = AppModel { pending_chord: Seq::<Chord>::empty(), ..m };
            let none = Seq::<CommandModel>::empty();
            if k.code == KeyCode::Esc {
                normal_key(m, k) == (idle, none)
            } else {
                match meaning_in(m.keys_normal, keys) {
                    Meaning::Exact(a) => normal_key(m, k) == dispatched(idle, a),
                    Meaning::Prefix => normal_key(m, k) == (
                        AppModel { pending_chord: keys, ..m },
                        none,
                    ),
                    Meaning::Nothing => normal_key(m, k) == (idle, none),
                }
            }
        }),
{
}

/// In Terminal mode a chord that is complete runs its action and none of its keys
/// reaches the session; one that may go on is held back with its keys.
pub proof fn law_terminal_chords_are_kept_from_the_session(m: AppModel, k: KeyEvent)
    requires
        !(k.modifiers.control && (k.code == KeyCode::Char('\\') || k.code == KeyCode::Char('4'))),
    ensures
        ({
            let keys = m.pending_chord.push(canonical_of(k.modifiers, k.code));
            let idle = AppModel {
                pending_chord: Seq::<Chord>::empty(),
                pending_terminal_keys: Seq::<KeyEvent>::empty(),
                ..m
            };
            &&& meaning_in(m.keys_terminal, keys) matches Meaning::Exact(a) ==> terminal_key(m, k)
                == dispatched(idle, a)
            &&& meaning_in(m.keys_terminal, keys) is Prefix ==> terminal_key(m, k) == (
                AppModel {
                    pending_chord: keys,
                    pending_terminal_keys: m.pending_terminal_keys.push(k),
                    ..m
                },
                Seq::<CommandModel>::empty(),
            )
        }),
{
}

/// A key without modifiers, or with Shift where it makes the capital, is its own
/// chord; Control goes with the small letter.
pub proof fn law_keys_are_compared_by_what_they_type(c: char, m: KeyModifiers)
    ensures
        !m.control && !m.alt && !m.shift ==> canonical_of(m, KeyCode::Char(c)) == char_chord(c),
        'A' <= c && c <= 'Z' && !m.control && !m.alt ==> canonical_of(m, KeyCode::Char(c))
            == char_chord(c),
        'a' <= c && c <= 'z' && m.control && !m.alt ==> canonical_of(m, KeyCode::Char(c)) == (Chord {
            mods: KeyModifiers { control: true, ..no_mods() },
            code: KeyCode::Char(c),
        }),
{
}

// ---------------------------------------------------------------------------
// Defaults
// ---------------------------------------------------------------------------

/// Whether the keys mean the action where nothing was bound anew.
pub open spec fn by_default(keys: Seq<Chord>, a: BindableAction) -> bool {
    meaning_in(default_normal(), keys) == Meaning::Exact(a)
}

/// A key with nothing held.
pub open spec fn alone(code: KeyCode) -> Chord {
    Chord { mods: no_mods(), code }
}

/// A letter with Control held.
pub open spec fn with_control(c: char) -> Chord {
    Chord { mods: KeyModifiers { control: true, ..no_mods() }, code: KeyCode::Char(c) }
}

proof fn lemma_default(i: int)
    requires
        0 <= i < default_normal().len(),
        forall|j: int| 0 <= j < i ==> (#[trigger] default_normal()[j]).0 != default_normal()[i].0,
    ensures
        by_default(default_normal()[i].0, default_normal()[i].1) || default_normal()[i].0.len()
            == 0,
{
    lemma_exact(default_normal(), default_normal()[i].0, i);
}

/// What single keys mean in Normal mode unless they are bound anew: h, j, k and l and
/// the arrows move, Enter activates, o and x open and close a tab, i and the colon
/// change the mode, O and L open a popup, and Ctrl-P the palette.
#[verifier::spinoff_prover]
#[verifier::rlimit(60)]
pub proof fn law_default_keys()
    ensures
        by_default(seq![char_chord('h')], BindableAction::FocusSidebar),
        by_default(seq![char_chord('l')], BindableAction::FocusTerminal),
        by_default(seq![char_chord('j')], BindableAction::SidebarDown),
        by_default(seq![char_chord('k')], BindableAction::SidebarUp),
        by_default(seq![alone(KeyCode::Left)], BindableAction::FocusSidebar),
        by_default(seq![alone(KeyCode::Right)], BindableAction::FocusTerminal),
        by_default(seq![alone(KeyCode::Down)], BindableAction::SidebarDown),
        by_default(seq![alone(KeyCode::Up)], BindableAction::SidebarUp),
        by_default(seq![alone(KeyCode::Enter)], BindableAction::ActivateSelection),
        by_default(seq![char_chord('o')], BindableAction::OpenTab),
        by_default(seq![char_chord('x')], BindableAction::CloseTab),
        by_default(seq![char_chord('i')], BindableAction::EnterTerminalMode),
        by_default(seq![char_chord(':')], BindableAction::EnterCommandMode),
        by_default(seq![char_chord('O')], BindableAction::OpenProjectPopup),
        by_default(seq![char_chord('L')], BindableAction::LaunchPicker),
        by_default(seq![with_control('p')], BindableAction::CommandPalette),
{
    let t = default_normal();
    assert(t[0].0[0].code == KeyCode::Char('h'));
    assert forall|i: int, j: int|
        #![trigger t[i], t[j]]
        0 <= j < i < t.len() && t[i].0.len() == 1 && t[j].0.len() == 1 implies t[j].0[0]
        != t[i].0[0] by {}
    assert forall|i: int| 0 <= i < t.len() && (#[trigger] t[i]).0.len() == 1 implies by_default(
        t[i].0,
        t[i].1,
    ) by {
        assert forall|j: int| 0 <= j < i implies (#[trigger] t[j]).0 != t[i].0 by {}
        lemma_default(i);
    }
    assert(by_default(t[0].0, t[0].1));
    assert(by_default(t[1].0, t[1].1));
    assert(by_default(t[2].0, t[2].1));
    assert(by_default(t[3].0, t[3].1));
    assert(by_default(t[4].0, t[4].1));
    assert(by_default(t[5].0, t[5].1));
    assert(by_default(t[6].0, t[6].1));
    assert(by_default(t[7].0, t[7].1));
    assert(by_default(t[8].0, t[8].1));
    assert(by_default(t[22].0, t[22].1));
    assert(by_default(t[23].0, t[23].1));
    assert(by_default(t[24].0, t[24].1));
    assert(by_default(t[25].0, t[25].1));
    assert(by_default(t[26].0, t[26].1));
    assert(by_default(t[27].0, t[27].1));
    assert(by_default(t[28].0, t[28].1));
}

/// What chords mean in Normal mode unless they are bound anew: `g` with `t` and `T`
/// the tabs, Ctrl-W with `>`, `<` and `=` the sidebar's width, and the space bar with
/// a letter what the leader menu lists.
#[verifier::spinoff_prover]
#[verifier::rlimit(60)]
pub proof fn law_default_chords()
    ensures
        by_default(seq![char_chord('g'), char_chord('t')], BindableAction::NextTab),
        by_default(seq![char_chord('g'), char_chord('T')], BindableAction::PrevTab),
        by_default(seq![with_control('w'), char_chord('>')], BindableAction::SidebarGrow),
        by_default(seq![with_control('w'), char_chord('<')], BindableAction::SidebarShrink),
        by_default(seq![with_control('w'), char_chord('=')], BindableAction::SidebarReset),
        by_default(seq![char_chord(' '), char_chord('o')], BindableAction::OpenProjectPopup),
        by_default(seq![char_chord(' '), char_chord('w')], BindableAction::NewWorktree),
        by_default(seq![char_chord(' '), char_chord('W')], BindableAction::RemoveWorktree),
        by_default(seq![char_chord(' '), char_chord('e')], BindableAction::EditProject),
        by_default(seq![char_chord(' '), char_chord('l')], BindableAction::LaunchPicker),
        by_default(seq![char_chord(' '), char_chord('u')], BindableAction::UsagePopup),
        by_default(seq![char_chord(' '), char_chord('?')], BindableAction::HelpPopup),
        by_default(seq![char_chord(' '), char_chord('q')], BindableAction::Quit),
        meaning_in(default_terminal(), seq![with_control('\\'), with_control('n')])
            == Meaning::Exact(BindableAction::LeaveTerminal),
{
    let t = default_normal();
    assert forall|i: int| 0 <= i < t.len() && (#[trigger] t[i]).0.len() == 2 implies by_default(
        t[i].0,
        t[i].1,
    ) by {
        assert forall|j: int| 0 <= j < i implies (#[trigger] t[j]).0 != t[i].0 by {
            if t[j].0.len() == 2 {
                assert(t[j].0[0] != t[i].0[0] || t[j].0[1] != t[i].0[1]);
            }
        }
        lemma_default(i);
    }
    assert(by_default(t[9].0, t[9].1));
    assert(by_default(t[10].0, t[10].1));
    assert(by_default(t[11].0, t[11].1));
    assert(by_default(t[12].0, t[12].1));
    assert(by_default(t[13].0, t[13].1));
    assert(by_default(t[14].0, t[14].1));
    assert(by_default(t[15].0, t[15].1));
    assert(by_default(t[16].0, t[16].1));
    assert(by_default(t[17].0, t[17].1));
    assert(by_default(t[18].0, t[18].1));
    assert(by_default(t[19].0, t[19].1));
    assert(by_default(t[20].0, t[20].1));
    assert(by_default(t[21].0, t[21].1));
    let leave = default_terminal();
    assert(leave[0].0 =~= seq![with_control('\\'), with_control('n')]);
    lemma_exact(leave, leave[0].0, 0);
}

/// Esc alone, Ctrl-Q, and all that starts with Ctrl-\ but the way out of Terminal mode
/// cannot be given to an action.
pub proof fn law_some_keys_cannot_be_bound(b: Seq<Chord>, a: BindableAction)
    ensures
        reserved(seq![alone(KeyCode::Esc)], a),
        reserved(seq![with_control('q')], a),
        b.len() > 0 && b[0] == with_control('\\') && !(a is LeaveTerminal) ==> reserved(b, a),
        !reserved(seq![with_control('\\'), with_control('n')], BindableAction::LeaveTerminal),
        b.len() > 1 && b[0] != with_control('\\') ==> !reserved(b, a),
{
    assert(seq![with_control('\\'), with_control('n')] =~= crate::keybinds::leave_keys());
    let keys = crate::keybinds::leave_keys();
    assert(keys.len() == 2);
}

/// The hints behind a key are exactly the bindings that start with it, in order.
pub proof fn law_hints_are_what_starts_with_the_key(t: Table, head: Chord)
    ensures
        forall|k: int|
            0 <= k < under(t, head).len() ==> t.contains(#[trigger] under(t, head)[k]) && under(
                t,
                head,
            )[k].0[0] == head && under(t, head)[k].0.len() > 0,
        forall|i: int|
            0 <= i < t.len() && (#[trigger] t[i]).0.len() > 0 && t[i].0[0] == head ==> under(
                t,
                head,
            ).contains(t[i]),
    decreases t.len(),
{
    if t.len() > 0 {
        let rest = t.drop_last();
        law_hints_are_what_starts_with_the_key(rest, head);
        let front = under(rest, head);
        let all = under(t, head);
        assert forall|k: int| 0 <= k < all.len() implies t.contains(#[trigger] all[k])
            && all[k].0[0] == head && all[k].0.len() > 0 by {
            if k < front.len() {
                assert(all[k] == front[k]);
                assert(rest.contains(front[k]));
                let i = choose|i: int| 0 <= i < rest.len() && rest[i] == front[k];
                assert(t[i] == front[k]);
            } else {
                assert(t[t.len() - 1] == all[k]);
            }
        }
        assert forall|i: int|
            0 <= i < t.len() && (#[trigger] t[i]).0.len() > 0 && t[i].0[0]
                == head implies all.contains(t[i]) by {
            if i < rest.len() {
                assert(rest[i] == t[i]);
                assert(front.contains(t[i]));
                let k = choose|k: int| 0 <= k < front.len() && front[k] == t[i];
                assert(all[k] == t[i]);
            } else {
                assert(all[front.len() as int] == t[i]);
            }
        }
    }
}

// ---------------------------------------------------------------------------
// The palette
// ---------------------------------------------------------------------------

/// A name that starts with the query ranks before one that holds it, that before one
/// that holds its letters in order, and a name before a description; an entry that
/// matches in none of these ways does not match.
pub proof fn law_better_matches_rank_first(name: Seq<char>, description: Seq<char>, q: Seq<char>)
    ensures
        ({
            let n = text::lower_ascii(name);
            let d = text::lower_ascii(description);
            let r = rank_of(name, description, q);
            let starts = q.len() <= n.len() && n.take(q.len() as int) == q;
            &&& starts <==> r == Some(0int)
            &&& r == Some(1int) <==> !starts && text::has_sub(n, q)
            &&& r == Some(2int) <==> !starts && !text::has_sub(n, q) && text::in_order(q, n)
            &&& r == Some(3int) <==> !starts && !text::has_sub(n, q) && !text::in_order(q, n)
                && text::has_sub(d, q)
            &&& r is None <==> !starts && !text::has_sub(n, q) && !text::in_order(q, n)
                && !text::has_sub(d, q) && !text::in_order(q, d)
        }),
{
}

/// A blank query lists everything in order; any other lists exactly what matches, a
/// better match before a worse one, and what matches equally well in order.
pub proof fn law_the_palette_lists_best_matches_first(
    entries: Seq<PaletteEntryModel>,
    query: Seq<char>,
    i: int,
    j: int,
)
    requires
        0 <= i < j < matching(entries, query).len(),
        entries.len() <= usize::MAX,
    ensures
        ({
            let q = text::lower_ascii(text::trimmed(query));
            let all = matching(entries, query);
            let a = entries[all[i] as int];
            let b = entries[all[j] as int];
            if q.len() == 0 {
                all[i] == i && all[j] == j
            } else {
                &&& rank_of(a.name, a.description, q) matches Some(x) && (
                rank_of(b.name, b.description, q) matches Some(y) && (x < y || x == y && all[i]
                    < all[j]))
            }
        }),
{
    let q = text::lower_ascii(text::trimmed(query));
    if q.len() > 0 {
        lemma_by_rank(entries, q, 5, i, j);
    }
}

proof fn lemma_of_rank(
    entries: Seq<PaletteEntryModel>,
    q: Seq<char>,
    rank: int,
    n: nat,
)
    requires
        n <= entries.len() <= usize::MAX,
    ensures
        forall|k: int|
            0 <= k < of_rank(entries, q, rank, n).len() ==> (#[trigger] of_rank(
                entries,
                q,
                rank,
                n,
            )[k]) < n && rank_of(
                entries[of_rank(entries, q, rank, n)[k] as int].name,
                entries[of_rank(entries, q, rank, n)[k] as int].description,
                q,
            ) == Some(rank),
        forall|a: int, b: int|
            0 <= a < b < of_rank(entries, q, rank, n).len() ==> (#[trigger] of_rank(
                entries,
                q,
                rank,
                n,
            )[a]) < (#[trigger] of_rank(entries, q, rank, n)[b]),
    decreases n,
{
    if n > 0 {
        lemma_of_rank(entries, q, rank, (n - 1) as nat);
        let front = of_rank(entries, q, rank, (n - 1) as nat);
        let all = of_rank(entries, q, rank, n);
        assert forall|k: int| 0 <= k < all.len() implies (#[trigger] all[k]) < n && rank_of(
            entries[all[k] as int].name,
            entries[all[k] as int].description,
            q,
        ) == Some(rank) by {
            if k < front.len() {
                assert(all[k] == front[k]);
            }
        }
        assert forall|a: int, b: int| 0 <= a < b < all.len() implies (#[trigger] all[a]) < (
        #[trigger] all[b]) by {
            assert(all[a] == front[a]);
            if b < front.len() {
                assert(all[b] == front[b]);
            }
        }
    }
}

proof fn lemma_by_rank(
    entries: Seq<PaletteEntryModel>,
    q: Seq<char>,
    upto: nat,
    i: int,
    j: int,
)
    requires
        0 <= i < j < crate::palette::by_rank(entries, q, upto).len(),
        entries.len() <= usize::MAX,
    ensures
        ({
            let all = crate::palette::by_rank(entries, q, upto);
            let a = entries[all[i] as int];
            let b = entries[all[j] as int];
            &&& rank_of(a.name, a.description, q) matches Some(x) && (rank_of(
                b.name,
                b.description,
                q,
            ) matches Some(y) && (x < y || x == y && all[i] < all[j]))
        }),
    decreases upto,
{
    if upto > 0 {
        let front = crate::palette::by_rank(entries, q, (upto - 1) as nat);
        let last = of_rank(entries, q, upto - 1, entries.len());
        let all = crate::palette::by_rank(entries, q, upto);
        lemma_of_rank(entries, q, upto - 1, entries.len());
        if j < front.len() {
            lemma_by_rank(entries, q, (upto - 1) as nat, i, j);
            assert(all[i] == front[i] && all[j] == front[j]);
        } else {
            assert(all[j] == last[j - front.len()]);
            if i < front.len() {
                lemma_front_rank(entries, q, (upto - 1) as nat, i);
                assert(all[i] == front[i]);
            } else {
                assert(all[i] == last[i - front.len()]);
            }
        }
    }
}

proof fn lemma_front_rank(entries: Seq<PaletteEntryModel>, q: Seq<char>, upto: nat, i: int)
    requires
        0 <= i < crate::palette::by_rank(entries, q, upto).len(),
        entries.len() <= usize::MAX,
    ensures
        ({
            let all = crate::palette::by_rank(entries, q, upto);
            let a = entries[all[i] as int];
            rank_of(a.name, a.description, q) matches Some(x) && x < upto
        }),
    decreases upto,
{
    if upto > 0 {
        let front = crate::palette::by_rank(entries, q, (upto - 1) as nat);
        let last = of_rank(entries, q, upto - 1, entries.len());
        let all = crate::palette::by_rank(entries, q, upto);
        lemma_of_rank(entries, q, upto - 1, entries.len());
        if i < front.len() {
            lemma_front_rank(entries, q, (upto - 1) as nat, i);
            assert(all[i] == front[i]);
        } else {
            assert(all[i] == last[i - front.len()]);
        }
    }
}

/// In the palette typing goes to the end of the query and highlights the best match;
/// Backspace takes the last character out; down and up move by one row; Esc closes
/// it; and Enter runs the highlighted entry and closes it.
pub proof fn law_palette_keys(m: AppModel, k: KeyEvent, c: char)
    requires
        m.palette_popup matches Some(p) && p.filtered.len() <= u16::MAX,
    ensures
        ({
            let p = m.palette_popup->Some_0;
            let closed = AppModel { palette_popup: None, ..m };
            let (after, cmds) = palette_key(m, k);
            &&& k.code == KeyCode::Esc ==> after == closed && cmds.len() == 0
            &&& k.code == KeyCode::Char(c) && k.modifiers == no_mods() ==> cmds.len() == 0 && (
            after.palette_popup matches Some(now) && now.query == p.query.push(c) && now.cursor
                == 0 && now.entries == p.entries && now.filtered == matching(
                p.entries,
                p.query.push(c),
            ))
            &&& k.code == KeyCode::Backspace && p.query.len() > 0 ==> cmds.len() == 0 && (
            after.palette_popup matches Some(now) && now.query == p.query.take(
                p.query.len() - 1,
            ) && now.filtered == matching(p.entries, p.query.take(p.query.len() - 1)))
            &&& k.code == KeyCode::Down ==> cmds.len() == 0 && (after.palette_popup matches Some(
                now,
            ) && now == (PaletteModel { cursor: now.cursor, ..p }) && (p.cursor + 1
                < p.filtered.len() ==> now.cursor == p.cursor + 1))
            &&& k.code == KeyCode::Up ==> cmds.len() == 0 && (after.palette_popup matches Some(now)
                && now == (PaletteModel { cursor: now.cursor, ..p }) && (p.cursor > 0
                ==> now.cursor == p.cursor - 1))
            &&& k.code == KeyCode::Enter && p.cursor < p.filtered.len() && p.filtered[p.cursor as int]
                < p.entries.len() ==> (after, cmds) == crate::keys::entry_run(
                closed,
                p.entries[p.filtered[p.cursor as int] as int].run,
            )
            &&& k.code == KeyCode::Enter && p.cursor >= p.filtered.len() ==> after == closed
                && cmds.len() == 0
        }),
{
    let p = m.palette_popup->Some_0;
    if p.query.len() > 0 {
        assert(p.query.drop_last() =~= p.query.take(p.query.len() - 1));
    }
}

} // verus!
