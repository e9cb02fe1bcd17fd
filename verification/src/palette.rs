//! Command palette: one searchable registry unifying the ex-command table and
//! the Normal-mode keybind actions. The palette is a pure *name layer* — what an
//! entry does is done by the action or the command it names.

use crate::cmdtable::CmdSpec;
use crate::keybinds::{shown_binding, BindableAction, KeyMap, Scope, Table};
use crate::text;
use vstd::prelude::*;

verus! {

/// What pressing Enter on an entry does.
#[derive(Copy, Clone, Debug)]
pub enum PaletteExec {
    /// Fire a keybind action.
    Action(BindableAction),
    /// Run an ex command's no-arg form.
    Command(&'static str),
    /// Close the palette and pre-fill the `:` line with `"<name> "` — for
    /// commands that require arguments (`:set key=value`).
    Prefill(&'static str),
}

/// What an entry does, in the abstract.
pub enum ExecModel {
    Action(BindableAction),
    Command(Seq<char>),
    Prefill(Seq<char>),
}

#[derive(Debug)]
pub struct PaletteEntry {
    /// Canonical display/search name (command name or action snake_case name).
    pub name: &'static str,
    pub description: &'static str,
    /// Formatted keybind hint (`KeyMap::binding_for`), when the entry has one.
    pub keybind: Option<String>,
    pub run: PaletteExec,
}

/// An entry in the abstract.
pub struct PaletteEntryModel {
    pub name: Seq<char>,
    pub description: Seq<char>,
    pub keybind: Option<Seq<char>>,
    pub run: ExecModel,
}

impl View for PaletteExec {
    type V = ExecModel;

    open spec fn view(&self) -> ExecModel {
        match *self {
            PaletteExec::Action(a) => ExecModel::Action(a),
            PaletteExec::Command(n) => ExecModel::Command(n@),
            PaletteExec::Prefill(n) => ExecModel::Prefill(n@),
        }
    }
}

impl View for PaletteEntry {
    type V = PaletteEntryModel;

    open spec fn view(&self) -> PaletteEntryModel {
        PaletteEntryModel {
            name: self.name@,
            description: self.description@,
            keybind: text::opt_text(self.keybind),
            run: self.run@,
        }
    }
}

/// The entries in a list.
pub open spec fn entry_models(v: Seq<PaletteEntry>) -> Seq<PaletteEntryModel> {
    Seq::new(v.len(), |i: int| v[i]@)
}

/// `BindableAction`s that are 1:1 with an ex command. The palette shows one
/// entry for the pair: the command's canonical name + description, the
/// action's keybind, executed via the action (same code path either way).
pub const PAIRS: [(BindableAction, CmdSpec); 10] = [
    (BindableAction::OpenTab, CmdSpec::TabNew),
    (BindableAction::CloseTab, CmdSpec::TabClose),
    (BindableAction::OpenProjectPopup, CmdSpec::Open),
    (BindableAction::NewWorktree, CmdSpec::Worktree),
    (BindableAction::RemoveWorktree, CmdSpec::WorktreeRemove),
    (BindableAction::EditProject, CmdSpec::Edit),
    (BindableAction::LaunchPicker, CmdSpec::Launch),
    (BindableAction::UsagePopup, CmdSpec::Usage),
    (BindableAction::HelpPopup, CmdSpec::Help),
    (BindableAction::Quit, CmdSpec::Quit),
];

/// Ex commands with no keybind action. All work in their no-arg form.
pub const COMMAND_ONLY: [CmdSpec; 8] = [
    CmdSpec::Import,
    CmdSpec::RestartSupervisor,
    CmdSpec::Reconnect,
    CmdSpec::Update,
    CmdSpec::GhEnable,
    CmdSpec::GhDisable,
    CmdSpec::GhRefresh,
    CmdSpec::LogPath,
];

/// Keybind actions with no ex-command twin. `LeaveTerminal` is excluded
/// (Terminal scope — meaningless from the palette, which opens in Normal),
/// as is `CommandPalette` itself.
pub const ACTION_ONLY: [BindableAction; 12] = [
    BindableAction::FocusSidebar,
    BindableAction::FocusTerminal,
    BindableAction::SidebarUp,
    BindableAction::SidebarDown,
    BindableAction::ActivateSelection,
    BindableAction::EnterTerminalMode,
    BindableAction::EnterCommandMode,
    BindableAction::NextTab,
    BindableAction::PrevTab,
    BindableAction::SidebarGrow,
    BindableAction::SidebarShrink,
    BindableAction::SidebarReset,
];

/// The entry of a command that an action does too.
pub open spec fn pair_entry(t: Table, pair: (BindableAction, CmdSpec)) -> PaletteEntryModel {
    PaletteEntryModel {
        name: pair.1.name_text(),
        description: pair.1.description_text(),
        keybind: shown_binding(t, pair.0),
        run: ExecModel::Action(pair.0),
    }
}

/// The entry of a command that no action does.
pub open spec fn command_entry(c: CmdSpec) -> PaletteEntryModel {
    PaletteEntryModel {
        name: c.name_text(),
        description: c.description_text(),
        keybind: None,
        run: ExecModel::Command(c.name_text()),
    }
}

/// The entry of the command that needs arguments.
pub open spec fn set_entry() -> PaletteEntryModel {
    PaletteEntryModel {
        name: CmdSpec::SetOption.name_text(),
        description: CmdSpec::SetOption.description_text(),
        keybind: None,
        run: ExecModel::Prefill(CmdSpec::SetOption.name_text()),
    }
}

/// The entry of an action that no command does.
pub open spec fn action_entry(t: Table, a: BindableAction) -> PaletteEntryModel {
    PaletteEntryModel {
        name: a.text(),
        description: a.meaning(),
        keybind: shown_binding(t, a),
        run: ExecModel::Action(a),
    }
}

/// Every entry, in registry order, with the keys of the Normal-mode table `t`.
pub open spec fn palette_entries(t: Table) -> Seq<PaletteEntryModel> {
    Seq::new(10, |i: int| pair_entry(t, PAIRS[i])) + Seq::new(
        8,
        |i: int| command_entry(COMMAND_ONLY[i]),
    ) + seq![set_entry()] + Seq::new(12, |i: int| action_entry(t, ACTION_ONLY[i]))
}

/// Build the full entry list in registry order: deduped pairs, command-only,
/// args-required, action-only. Keybind hints come from the live keymap so
/// user overlays show up.
pub fn build_entries(keymap: &KeyMap) -> (r: Vec<PaletteEntry>)
    ensures
        entry_models(r@) == palette_entries(keymap.table(Scope::Normal)),
        r@.len() == 31,
{
    let ghost t = keymap.table(Scope::Normal);
    let mut out: Vec<PaletteEntry> = Vec::new();
    let mut i: usize = 0;
    let ghost a = Seq::new(10, |i: int| pair_entry(t, PAIRS[i]));
    while i < PAIRS.len()
        invariant
            i <= PAIRS.len(),
            t == keymap.table(Scope::Normal),
            a == Seq::new(10, |i: int| pair_entry(t, PAIRS[i])),
            entry_models(out@) =~= a.take(i as int),
        decreases PAIRS.len() - i,
    {
        let (action, cmd) = PAIRS[i];
        let ghost before = out@;
        assert(action.home() == Scope::Normal);
        out.push(
            PaletteEntry {
                name: cmd.name(),
                description: cmd.description(),
                keybind: keymap.binding_for(action),
                run: PaletteExec::Action(action),
            },
        );
        assert(entry_models(out@) =~= entry_models(before).push(a[i as int]));
        assert(a.take(i + 1) =~= a.take(i as int).push(a[i as int]));
        i += 1;
    }
    let mut j: usize = 0;
    let ghost b = Seq::new(8, |i: int| command_entry(COMMAND_ONLY[i]));
    while j < COMMAND_ONLY.len()
        invariant
            j <= COMMAND_ONLY.len(),
            a.len() == 10,
            b == Seq::new(8, |i: int| command_entry(COMMAND_ONLY[i])),
            entry_models(out@) =~= a + b.take(j as int),
        decreases COMMAND_ONLY.len() - j,
    {
        let cmd = COMMAND_ONLY[j];
        let ghost before = out@;
        out.push(
            PaletteEntry {
                name: cmd.name(),
                description: cmd.description(),
                keybind: None,
                run: PaletteExec::Command(cmd.name()),
            },
        );
        assert(entry_models(out@) =~= entry_models(before).push(b[j as int]));
        assert(a + b.take(j + 1) =~= (a + b.take(j as int)).push(b[j as int]));
        j += 1;
    }
    let ghost before = out@;
    out.push(
        PaletteEntry {
            name: CmdSpec::SetOption.name(),
            description: CmdSpec::SetOption.description(),
            keybind: None,
            run: PaletteExec::Prefill(CmdSpec::SetOption.name()),
        },
    );
    let ghost c = a + b + seq![set_entry()];
    assert(entry_models(out@) =~= entry_models(before).push(set_entry()));
    assert(entry_models(out@) =~= c);
    let mut k: usize = 0;
    let ghost d = Seq::new(12, |i: int| action_entry(t, ACTION_ONLY[i]));
    while k < ACTION_ONLY.len()
        invariant
            k <= ACTION_ONLY.len(),
            c.len() == 19,
            t == keymap.table(Scope::Normal),
            d == Seq::new(12, |i: int| action_entry(t, ACTION_ONLY[i])),
            entry_models(out@) =~= c + d.take(k as int),
        decreases ACTION_ONLY.len() - k,
    {
        let action = ACTION_ONLY[k];
        let ghost before = out@;
        assert(action.home() == Scope::Normal);
        out.push(
            PaletteEntry {
                name: action.name(),
                description: action.description(),
                keybind: keymap.binding_for(action),
                run: PaletteExec::Action(action),
            },
        );
        assert(entry_models(out@) =~= entry_models(before).push(d[k as int]));
        assert(c + d.take(k + 1) =~= (c + d.take(k as int)).push(d[k as int]));
        k += 1;
    }
    assert(entry_models(out@) =~= palette_entries(t));
    out
}

/// How well an entry matches a small-letter query: the lower the better, none
/// for no match at all.
pub open spec fn rank_of(name: Seq<char>, description: Seq<char>, q: Seq<char>) -> Option<int> {
    let n = text::lower_ascii(name);
    let d = text::lower_ascii(description);
    if text::has_prefix(n, q) {
        Some(0)
    } else if text::has_sub(n, q) {
        Some(1)
    } else if text::in_order(q, n) {
        Some(2)
    } else if text::has_sub(d, q) {
        Some(3)
    } else if text::in_order(q, d) {
        Some(4)
    } else {
        None
    }
}

fn rank(e: &PaletteEntry, q: &str) -> (r: Option<u8>)
    ensures
        match (r, rank_of(e.name@, e.description@, q@)) {
            (Some(a), Some(b)) => a == b,
            (None, None) => true,
            _ => false,
        },
        r matches Some(a) ==> a <= 4,
{
    let name = text::to_lower_ascii(e.name);
    let desc = text::to_lower_ascii(e.description);
    if text::starts_with(name.as_str(), q) {
        Some(0)
    } else if text::contains(name.as_str(), q) {
        Some(1)
    } else if is_subsequence(q, name.as_str()) {
        Some(2)
    } else if text::contains(desc.as_str(), q) {
        Some(3)
    } else if is_subsequence(q, desc.as_str()) {
        Some(4)
    } else {
        None
    }
}

/// The indices among the first `n` entries that have that rank, in order.
pub open spec fn of_rank(entries: Seq<PaletteEntryModel>, q: Seq<char>, rank: int, n: nat) -> Seq<
    usize,
>
    decreases n,
{
    if n == 0 {
        seq![]
    } else {
        let front = of_rank(entries, q, rank, (n - 1) as nat);
        let e = entries[n - 1];
        if rank_of(e.name, e.description, q) == Some(rank) {
            front.push((n - 1) as usize)
        } else {
            front
        }
    }
}

/// The indices of the entries of ranks below `upto`, better ranks first.
pub open spec fn by_rank(entries: Seq<PaletteEntryModel>, q: Seq<char>, upto: nat) -> Seq<usize>
    decreases upto,
{
    if upto == 0 {
        seq![]
    } else {
        by_rank(entries, q, (upto - 1) as nat) + of_rank(entries, q, upto - 1, entries.len())
    }
}

/// The indices of the entries that match, best first: all of them, in order, for
/// a query without a word in it.
pub open spec fn matching(entries: Seq<PaletteEntryModel>, query: Seq<char>) -> Seq<usize> {
    let q = text::lower_ascii(text::trimmed(query));
    if q.len() == 0 {
        Seq::new(entries.len(), |i: int| i as usize)
    } else {
        by_rank(entries, q, 5)
    }
}

/// Case-insensitive ranked filter over name + description. Returns indices
/// into `entries`, best first. Rank: name-prefix > name-substring >
/// name-subsequence > description-substring > description-subsequence;
/// registry order within a rank. Empty/whitespace query returns everything.
pub fn filter(entries: &Vec<PaletteEntry>, query: &str) -> (r: Vec<usize>)
    ensures
        r@ == matching(entry_models(entries@), query@),
{
    let q = text::to_lower_ascii(text::trim(query).as_str());
    let ghost all = entry_models(entries@);
    let mut out: Vec<usize> = Vec::new();
    if q.as_str().is_empty() {
        let mut i: usize = 0;
        while i < entries.len()
            invariant
                i <= entries.len(),
                out@ =~= Seq::new(i as nat, |k: int| k as usize),
            decreases entries.len() - i,
        {
            out.push(i);
            i += 1;
        }
        assert(out@ =~= Seq::new(all.len(), |i: int| i as usize));
        return out;
    }
    let mut level: u8 = 0;
    while level < 5
        invariant
            level <= 5,
            all == entry_models(entries@),
            out@ == by_rank(all, q@, level as nat),
        decreases 5 - level,
    {
        let ghost before = out@;
        let mut i: usize = 0;
        assert(out@ =~= before + of_rank(all, q@, level as int, 0));
        while i < entries.len()
            invariant
                i <= entries.len(),
                all == entry_models(entries@),
                out@ == before + of_rank(all, q@, level as int, i as nat),
            decreases entries.len() - i,
        {
            let ghost had = out@;
            assert(all[i as int] == entries[i as int]@);
            let found = rank(&entries[i], q.as_str());
            if let Some(n) = found {
                if n == level {
                    out.push(i);
                }
            }
            assert(out@ =~= before + of_rank(all, q@, level as int, (i + 1) as nat));
            i += 1;
        }
        level += 1;
    }
    out
}

/// True when every char of `needle` appears in `haystack` in order.
pub fn is_subsequence(needle: &str, haystack: &str) -> (r: bool)
    ensures
        r == text::in_order(needle@, haystack@),
{
    text::comes_in_order(needle, haystack)
}

proof fn lemma_of_rank(entries: Seq<PaletteEntryModel>, q: Seq<char>, rank: int, n: nat, i: usize)
    requires
        n <= entries.len(),
        entries.len() <= usize::MAX,
    ensures
        of_rank(entries, q, rank, n).contains(i) <==> i < n && rank_of(
            entries[i as int].name,
            entries[i as int].description,
            q,
        ) == Some(rank),
    decreases n,
{
    if n > 0 {
        lemma_of_rank(entries, q, rank, (n - 1) as nat, i);
        let front = of_rank(entries, q, rank, (n - 1) as nat);
        let now = of_rank(entries, q, rank, n);
        if front.contains(i) {
            let k = choose|k: int| 0 <= k < front.len() && front[k] == i;
            assert(now[k] == i);
        }
        if now.contains(i) {
            let k = choose|k: int| 0 <= k < now.len() && now[k] == i;
            if k < front.len() {
                assert(front[k] == i);
            }
        }
        if now.len() > front.len() {
            assert(now[front.len() as int] == (n - 1) as usize);
        }
    }
}

/// An entry is listed for a query if and only if it matches it.
pub proof fn law_filter_lists_what_matches(
    entries: Seq<PaletteEntryModel>,
    query: Seq<char>,
    i: usize,
)
    requires
        entries.len() <= usize::MAX,
        i < entries.len(),
        text::trimmed(query).len() > 0,
    ensures
        matching(entries, query).contains(i) <==> rank_of(
            entries[i as int].name,
            entries[i as int].description,
            text::lower_ascii(text::trimmed(query)),
        ) is Some,
{
    let q = text::lower_ascii(text::trimmed(query));
    reveal_with_fuel(by_rank, 6);
    let e = entries[i as int];
    let n = entries.len();
    let r0 = of_rank(entries, q, 0, n);
    let r1 = of_rank(entries, q, 1, n);
    let r2 = of_rank(entries, q, 2, n);
    let r3 = of_rank(entries, q, 3, n);
    let r4 = of_rank(entries, q, 4, n);
    lemma_of_rank(entries, q, 0, n, i);
    lemma_of_rank(entries, q, 1, n, i);
    lemma_of_rank(entries, q, 2, n, i);
    lemma_of_rank(entries, q, 3, n, i);
    lemma_of_rank(entries, q, 4, n, i);
    let all = matching(entries, query);
    assert(all =~= r0 + r1 + r2 + r3 + r4);
    broadcast use vstd::seq_lib::group_seq_properties;

}

} // verus!
