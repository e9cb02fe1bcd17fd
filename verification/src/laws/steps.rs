//! How what happens reaches the part of the state that it is about, and how the
//! program starts and saves.

use crate::app::{
    config_of, Action, AppModel, CommandModel, DirectoryModel, ProjectModel, SupervisorId,
};
use crate::commands::{client_log, expanded_path};
use crate::config::{config_dir, usable_slugs, valid_slug, GlobalConfig, ProjectConfig};
use crate::editbox::BoxModel;
use crate::event::{KeyCode, KeyEvent, MouseEvent};
use crate::input::{encoding_of, fed, sequence_done, KbdEncoding, TrackerModel};
use crate::ipc::{length_bytes, length_in, socket_path};
use crate::layout::TermSize;
use crate::paths;
use crate::reducer::step;
use crate::runtime::started;
use crate::theme::palette;
use vstd::prelude::*;

verus! {

// ---------------------------------------------------------------------------
// Steps
// ---------------------------------------------------------------------------

/// Whether no popup gets the keys.
pub open spec fn no_popup(m: AppModel) -> bool {
    &&& m.usage_popup is None
    &&& m.edit_popup is None
    &&& m.open_project_popup is None
    &&& m.launch_popup is None
    &&& m.palette_popup is None
    &&& !m.help_open
    &&& m.popup is None
    &&& m.pending_confirm is None
}

/// Without a popup a key goes to the mode: to bindings in Normal mode, to the session
/// in Terminal mode, to the line in Command mode.
pub proof fn law_keys_go_to_the_mode(m: AppModel, k: KeyEvent, typed: BoxModel)
    requires
        no_popup(m),
    ensures
        m.mode is Normal ==> step(m, Action::Key(k), typed) == crate::keys::normal_key(m, k),
        m.mode is Terminal ==> step(m, Action::Key(k), typed) == crate::keys::terminal_key(m, k),
        m.mode is Command ==> step(m, Action::Key(k), typed) == crate::cmdline::command_key(m, k),
{
}

/// An open popup gets the keys, whatever the mode: the first of usage, editor, open
/// project, launcher, palette, help and input that is open. A question is answered
/// in Normal mode.
pub proof fn law_open_popups_get_the_keys(m: AppModel, k: KeyEvent, typed: BoxModel)
    ensures
        ({
            let r = step(m, Action::Key(k), typed);
            let a = m.usage_popup is None;
            let b = a && m.edit_popup is None;
            let c = b && m.open_project_popup is None;
            let d = c && m.launch_popup is None;
            let e = d && m.palette_popup is None;
            &&& m.usage_popup is Some ==> r == crate::usage::usage_key(m, k)
            &&& a && m.edit_popup is Some ==> r == crate::popups::edit_key(m, k, typed)
            &&& b && m.open_project_popup is Some ==> r == crate::popups::open_key(m, k, typed)
            &&& c && m.launch_popup is Some ==> r == crate::popups::launch_key(m, k)
            &&& d && m.palette_popup is Some ==> r == crate::keys::palette_key(m, k)
            &&& e && m.help_open && k.code != KeyCode::Char(':') && k.code != KeyCode::Char('i')
                ==> r.1.len() == 0 && r.0.projects == m.projects && r.0.mode == m.mode
            &&& e && !m.help_open && m.popup is Some ==> r == crate::popups::input_key(m, k)
            &&& e && !m.help_open && m.popup is None && m.pending_confirm is Some && m.mode
                is Normal ==> r == crate::popups::confirm_key(m, k)
        }),
{
}

/// What happened is acted on: sessions come and go, the terminal is resized, work
/// that failed is reported and no longer waited for, and quitting ends the program.
pub proof fn law_what_happened_is_acted_on(
    m: AppModel,
    typed: BoxModel,
    id: u64,
    dest: (usize, usize),
    size: TermSize,
    e: MouseEvent,
    s: String,
    sup: SupervisorId,
)
    ensures
        step(m, Action::SessionSpawned { session: id, dest }, typed)
            == crate::lifecycle::session_spawned(m, id, dest),
        step(m, Action::SessionExited(id), typed) == (
            crate::lifecycle::session_ended(m, id),
            Seq::<CommandModel>::empty(),
        ),
        step(m, Action::Resize(size), typed) == crate::lifecycle::resized(m, size),
        step(m, Action::Mouse(e), typed) == crate::mouse::mouse_step(m, e),
        step(m, Action::Paste(s), typed) == crate::reducer::pasted(m, s@),
        step(m, Action::SupervisorLost(sup, s), typed) == (
            crate::lifecycle::supervisor_lost(m, sup, s@),
            Seq::<CommandModel>::empty(),
        ),
        step(m, Action::OperationFailed(s), typed) == (
            AppModel { pending_op: None, command_status: Some(s@), ..m },
            Seq::<CommandModel>::empty(),
        ),
        !step(m, Action::Quit, typed).0.running,
        step(m, Action::Quit, typed).0.sessions == m.sessions,
        step(m, Action::PeriodicUpdateCheck, typed) == crate::reducer::update_due(m),
        step(m, Action::PeriodicPrCheck, typed) == (
            m,
            crate::reducer::pr_fetches(m, m.projects.len()),
        ),
{
}

/// What was found out about worktrees reaches the project it is about.
pub proof fn law_answers_reach_their_project(
    m: AppModel,
    typed: BoxModel,
    p: usize,
    w: usize,
    wt: crate::app::Worktree,
    list: Vec<crate::app::Worktree>,
    statuses: Vec<(usize, Option<crate::app::PrStatus>)>,
)
    ensures
        step(m, Action::WorktreeAdded { project_idx: p, worktree: wt }, typed)
            == crate::lifecycle::worktree_added(m, p, wt@),
        step(m, Action::WorktreeRemoved { project_idx: p, worktree_idx: w }, typed)
            == crate::lifecycle::worktree_removed(m, p, w),
        step(m, Action::WorktreesImported { project_idx: p, entries: list }, typed)
            == crate::lifecycle::worktrees_imported(m, p, list@),
        step(m, Action::PrStatusesFetched { project_idx: p, statuses }, typed) == (
            crate::reducer::prs_fetched(m, p, statuses@),
            Seq::<CommandModel>::empty(),
        ),
{
}

// ---------------------------------------------------------------------------
// Starting and saving
// ---------------------------------------------------------------------------

/// The program starts with what the configs say: width, theme and launchers, and the
/// projects in order, each with its name, path, script, launchers and worktrees, on
/// the supervisor that it names; the cursor is on the first project.
pub proof fn law_it_starts_with_what_the_configs_say(
    size: TermSize,
    dir: Seq<char>,
    log: Seq<char>,
    gh: bool,
    global: GlobalConfig,
    cfgs: Seq<ProjectConfig>,
    d: DirectoryModel,
    i: int,
    j: int,
)
    ensures
        ({
            let m = started(size, dir, log, gh, global, cfgs, d);
            &&& m.running && m.sessions.len() == 0 && m.active_worktree is None
            &&& m.term_size == size && m.gh_available == gh && m.config_dir == dir
            &&& m.sidebar_width == global.sidebar_width
            &&& m.theme == palette(global.theme)
            &&& m.projects.len() == cfgs.len()
            &&& m.sidebar_selection == (if cfgs.len() > 0 {
                Some((0usize, None::<usize>))
            } else {
                None
            })
            &&& m.global_launchers.len() == global.launchers@.len()
            &&& 0 <= i < global.launchers@.len() ==> m.global_launchers[i].name
                == global.launchers@[i].name@ && m.global_launchers[i].command
                == global.launchers@[i].command@
            &&& 0 <= i < cfgs.len() ==> {
                let p = m.projects[i];
                let c = cfgs[i];
                &&& p.slug == c.slug@ && p.name == c.name@ && p.repo_path == c.path@
                &&& p.setup_script == crate::text::opt_text(c.setup_script)
                &&& p.expanded == c.expanded && p.github_enabled == c.github_enabled
                &&& p.gh_poll_interval_secs == c.gh_poll_interval_secs
                &&& p.supervisor == d.resolved(crate::text::opt_text(c.supervisor))
                &&& p.worktrees.len() == c.worktrees@.len()
                &&& 0 <= j < c.worktrees@.len() ==> p.worktrees[j].name == c.worktrees@[j].name@
                    && p.worktrees[j].path == c.worktrees@[j].path@ && p.worktrees[j].branch
                    == crate::text::opt_text(c.worktrees@[j].branch)
                    && p.worktrees[j].sessions.len() == 0
            }
        }),
{
}

/// What is saved of a project is all that it starts with again.
pub proof fn law_projects_are_saved_as_they_are(p: ProjectModel, name: Option<Seq<char>>, j: int)
    ensures
        ({
            let c = config_of(p, name);
            &&& c.slug == p.slug && c.name == p.name && c.path == p.repo_path
            &&& c.supervisor == name && c.setup_script == p.setup_script
            &&& c.expanded == p.expanded && c.launchers == p.launchers
            &&& c.github_enabled == p.github_enabled && c.gh_poll_interval_secs
                == p.gh_poll_interval_secs
            &&& c.worktrees.len() == p.worktrees.len()
            &&& 0 <= j < p.worktrees.len() ==> c.worktrees[j] == (
                p.worktrees[j].name,
                p.worktrees[j].path,
                p.worktrees[j].branch,
            )
        }),
{
}

/// A supervisor is shown under the name of its entry, and the name that a config gives
/// it is that name, but none for the local one.
pub proof fn law_supervisors_go_by_their_entry(d: DirectoryModel, i: int)
    requires
        0 <= i < d.entries.len(),
        forall|j: int| 0 <= j < i ==> (#[trigger] d.entries[j]).0 != d.entries[i].0,
    ensures
        d.name_of(d.entries[i].0) == d.entries[i].1,
        d.entries[i].0 != crate::app::local_id() ==> d.config_name(d.entries[i].0) == Some(
            d.entries[i].1,
        ),
        d.config_name(crate::app::local_id()) is None,
        d.resolved(None) == crate::app::local_id(),
{
    lemma_place(d, i, 0);
}

proof fn lemma_place(d: DirectoryModel, i: int, from: int)
    requires
        0 <= from <= i < d.entries.len(),
        forall|j: int| 0 <= j < i ==> (#[trigger] d.entries[j]).0 != d.entries[i].0,
    ensures
        d.place(d.entries[i].0, from) == Some(i),
    decreases i - from,
{
    if from < i {
        lemma_place(d, i, from + 1);
    }
}

/// The config lies under the directory that is named for configs, else in the home
/// directory's own; the socket under the one for sockets, else for caches, else in the
/// home directory's own; and the log beside the socket's cache.
pub proof fn law_files_lie_where_they_are_looked_for(
    a: Seq<char>,
    b: Option<Seq<char>>,
    home: Seq<char>,
)
    ensures
        config_dir(Some(a), b) == paths::joined(a, "imbuia"@),
        config_dir(None, Some(home)) == paths::joined(
            paths::joined(home, ".config"@),
            "imbuia"@,
        ),
        socket_path(Some(a), b, b) == paths::joined(paths::joined(a, "imbuia"@), "sock"@),
        socket_path(None, Some(a), b) == paths::joined(paths::joined(a, "imbuia"@), "sock"@),
        socket_path(None, None, Some(home)) == paths::joined(
            paths::joined(paths::joined(home, ".cache"@), "imbuia"@),
            "sock"@,
        ),
        client_log(Some(a), b) == paths::joined(paths::joined(a, "imbuia"@), "imbuia.log"@),
        client_log(None, Some(home)) == paths::joined(
            paths::joined(paths::joined(home, ".cache"@), "imbuia"@),
            "imbuia.log"@,
        ),
{
}

/// A tilde stands for the home directory, alone or before a slash; any other path
/// stays as it is.
pub proof fn law_a_tilde_stands_for_home(path: Seq<char>, home: Seq<char>)
    ensures
        expanded_path(seq!['~'], Some(home)) == home,
        expanded_path(seq!['~', '/'] + path, Some(home)) == paths::joined(home, path),
        path.len() > 0 && path[0] != '~' ==> expanded_path(path, Some(home)) == path,
        expanded_path(path, None) == path,
{
    let p = seq!['~', '/'] + path;
    assert(p.skip(2) =~= path);
    assert(p.len() >= 2);
    assert(p != seq!['~']) by {
        assert(p.len() != seq!['~'].len());
    }
    assert(path.len() > 0 && path[0] != '~' ==> path != seq!['~']);
}

/// Exactly the slugs of one to 64 letters, digits, dashes and underscores are used, in
/// order.
pub proof fn law_usable_slugs_may_name_a_file(all: Seq<Seq<char>>, slug: Seq<char>)
    ensures
        usable_slugs(all).contains(slug) <==> all.contains(slug) && valid_slug(slug),
        valid_slug(slug) ==> 1 <= slug.len() <= 64 && forall|i: int|
            0 <= i < slug.len() ==> is_slug_char(#[trigger] slug[i]),
        1 <= slug.len() <= 64 && (forall|i: int|
            0 <= i < slug.len() ==> is_slug_char(#[trigger] slug[i])) ==> valid_slug(slug),
    decreases all.len(),
{
    if all.len() > 0 {
        let front = all.drop_last();
        law_usable_slugs_may_name_a_file(front, slug);
        let before = usable_slugs(front);
        let now = usable_slugs(all);
        assert(all[all.len() - 1] == all.last());
        if all.contains(slug) {
            let i = choose|i: int| 0 <= i < all.len() && all[i] == slug;
            if i < front.len() {
                assert(front[i] == slug);
            }
        }
        if front.contains(slug) {
            let i = choose|i: int| 0 <= i < front.len() && front[i] == slug;
            assert(all[i] == slug);
        }
        if before.contains(slug) {
            let i = choose|i: int| 0 <= i < before.len() && before[i] == slug;
            assert(now[i] == slug);
        }
        if valid_slug(all.last()) {
            assert(now[before.len() as int] == all.last());
        }
        if now.contains(slug) {
            let i = choose|i: int| 0 <= i < now.len() && now[i] == slug;
            if i < before.len() {
                assert(before[i] == slug);
            }
        }
    }
}

/// Whether a character may stand in a slug.
pub open spec fn is_slug_char(c: char) -> bool {
    'a' <= c && c <= 'z' || 'A' <= c && c <= 'Z' || '0' <= c && c <= '9' || c == '-' || c == '_'
}

/// The length before a frame is written with its highest byte first, and read so.
pub proof fn law_lengths_are_written_highest_byte_first(n: u32, a: u8, b: u8, c: u8, d: u8)
    ensures
        length_bytes(n).len() == 4,
        length_bytes(n)[0] * 16777216 + length_bytes(n)[1] * 65536 + length_bytes(n)[2] * 256
            + length_bytes(n)[3] == n,
        length_in(seq![a, b, c, d]) == ((a * 256 + b) * 256 + c) * 256 + d,
{
    assert(n / 16777216 < 256);
    assert(n as int == (n / 16777216) * 16777216 + (n / 65536 % 256) * 65536 + (n / 256 % 256)
        * 256 + n % 256) by (nonlinear_arith);
}

// ---------------------------------------------------------------------------
// The keyboard protocol
// ---------------------------------------------------------------------------

/// An app that pushes flags is then written to in kitty's protocol with those flags,
/// until it pops them; then what was in force before is again.
pub proof fn law_pushed_flags_are_in_force_until_popped(m: TrackerModel, flags: u8)
    requires
        flags != 0,
    ensures
        ({
            let pushed = sequence_done(m, 62, seq![flags as u32], 117);
            let popped = sequence_done(pushed, 60, seq![], 117);
            &&& encoding_of(pushed) == KbdEncoding::Kitty(flags)
            &&& popped.stack == m.stack && popped.level == m.level
            &&& encoding_of(popped) == encoding_of(m)
            &&& pushed.place is Ground
        }),
{
    let pushed = sequence_done(m, 62, seq![flags as u32], 117);
    assert(pushed.stack == m.stack.push(flags));
    let popped = sequence_done(pushed, 60, seq![], 117);
    assert(pushed.stack.take(pushed.stack.len() - 1) =~= m.stack);
}

/// Popping takes as many as were asked for, at least one, and all there are where
/// there are fewer.
pub proof fn law_popping_takes_as_many_as_asked(m: TrackerModel, n: u32)
    ensures
        ({
            let popped = sequence_done(m, 60, seq![n], 117);
            let gone = if n == 0 {
                1
            } else {
                n as int
            };
            popped.stack.len() == (if m.stack.len() >= gone {
                m.stack.len() - gone
            } else {
                0
            })
        }),
{
}

/// An app that asks for modifyOtherKeys is written to so while no kitty flags are in
/// force; level 0 takes it back.
pub proof fn law_other_keys_are_modified_while_asked_for(m: TrackerModel, level: u8)
    requires
        m.stack.len() == 0,
    ensures
        ({
            let set = sequence_done(m, 62, seq![4u32, level as u32], 109);
            encoding_of(set) == (if level >= 1 {
                KbdEncoding::ModifyOtherKeys
            } else {
                KbdEncoding::Legacy
            })
        }),
        encoding_of(sequence_done(m, 62, seq![4u32], 109)) is Legacy,
{
}

/// Setting flags replaces those in force, adds to them, or takes them away, by its
/// mode.
pub proof fn law_flags_are_set_by_their_mode(m: TrackerModel, was: u8, flags: u8)
    requires
        m.stack.len() > 0,
        m.stack.last() == was,
    ensures
        sequence_done(m, 61, seq![flags as u32], 117).stack == m.stack.drop_last().push(flags),
        sequence_done(m, 61, seq![flags as u32, 1u32], 117).stack == m.stack.drop_last().push(
            flags,
        ),
        sequence_done(m, 61, seq![flags as u32, 2u32], 117).stack == m.stack.drop_last().push(
            was | flags,
        ),
        sequence_done(m, 61, seq![flags as u32, 3u32], 117).stack == m.stack.drop_last().push(
            was & !flags,
        ),
{
}

/// Text that is no escape sequence changes nothing of the protocol.
pub proof fn law_plain_output_changes_no_protocol(m: TrackerModel, bytes: Seq<u8>)
    requires
        m.place is Ground,
        forall|i: int| 0 <= i < bytes.len() ==> #[trigger] bytes[i] != 27,
    ensures
        fed(m, bytes) == m,
    decreases bytes.len(),
{
    if bytes.len() > 0 {
        assert(bytes[bytes.len() - 1] != 27);
        assert forall|i: int| 0 <= i < bytes.drop_last().len() implies #[trigger] bytes.drop_last()[i]
            != 27 by {
            assert(bytes[i] != 27);
        }
        law_plain_output_changes_no_protocol(m, bytes.drop_last());
    }
}

} // verus!
