//! What is kept on disk: the global config, one config per project, and the
//! trust files of the remote transport.

use crate::keybinds;
use crate::keytable::KeybindTable;
use crate::layout::DEFAULT_SIDEBAR_WIDTH;
use crate::paths;
use crate::text;
use crate::theme::ThemeKind;
use vstd::prelude::*;

verus! {

#[derive(Debug)]
pub struct GlobalConfig {
    pub sidebar_width: u16,
    pub theme: ThemeKind,
    pub projects: Vec<String>,
    /// Launchers available across every project. Merged with the per-project
    /// [`ProjectConfig::launchers`] at runtime; a project-level entry with
    /// the same name overrides the global one.
    pub launchers: Vec<LauncherConfig>,
    /// Default cadence (seconds) for the GitHub PR-status background poll.
    /// `None` means the runtime falls back to its built-in default (120s).
    pub gh_poll_interval_secs: Option<u64>,
    /// User keybinding overrides (action name → vim-style binding string).
    /// Populated with every default on first launch; thereafter the user
    /// owns the table.
    pub keybinds: KeybindTable,
    /// Remote supervisors by name, sorted by name.
    pub remotes: Vec<(String, RemoteConfig)>,
    /// A single remote as older configs have it: a remote named `remote`.
    pub remote: Option<RemoteConfig>,
}

/// Address of a remote supervisor. `url` is a plain `host:port` (no scheme).
#[derive(Debug, Clone, PartialEq, Eq)]
pub struct RemoteConfig {
    pub url: String,
}

#[derive(Debug)]
pub struct ProjectConfig {
    /// Filename stem under `projects/` — also used as the in-memory identifier.
    pub slug: String,
    pub name: String,
    pub path: String,
    /// The supervisor the project lives on, by name; absent for the local one.
    pub supervisor: Option<String>,
    pub expanded: bool,
    /// Multi-line bash script run inside each new worktree on creation.
    /// `None` means "no setup step".
    pub setup_script: Option<String>,
    pub worktrees: Vec<WorktreeConfig>,
    /// Named launchers: a label + a command line that's piped to the PTY as
    /// the first input.
    pub launchers: Vec<LauncherConfig>,
    /// GitHub PR-status integration. **Enabled by default**; disable with
    /// `:gh-disable`.
    pub github_enabled: bool,
    /// Per-project poll cadence override (seconds).
    pub gh_poll_interval_secs: Option<u64>,
}

#[derive(Debug, Clone)]
pub struct LauncherConfig {
    pub name: String,
    pub command: String,
}

#[derive(Debug, Clone)]
pub struct WorktreeConfig {
    pub name: String,
    pub path: String,
    pub branch: Option<String>,
}

impl Default for GlobalConfig {
    fn default() -> (r: GlobalConfig)
        ensures
            r.sidebar_width == DEFAULT_SIDEBAR_WIDTH,
            r.theme == ThemeKind::Dark,
            r.projects@.len() == 0,
            r.launchers@.len() == 0,
            r.gh_poll_interval_secs is None,
            r.keybinds.pairs().len() == 0,
            r.remotes@.len() == 0,
            r.remote is None,
    {
        GlobalConfig {
            sidebar_width: default_sidebar_width(),
            theme: ThemeKind::default(),
            projects: Vec::new(),
            launchers: Vec::new(),
            gh_poll_interval_secs: None,
            keybinds: KeybindTable::new(),
            remotes: Vec::new(),
            remote: None,
        }
    }
}

/// The width a config that names none has.
pub fn default_sidebar_width() -> (r: u16)
    ensures
        r == DEFAULT_SIDEBAR_WIDTH,
{
    DEFAULT_SIDEBAR_WIDTH
}

/// What a flag that is on unless switched off has by default.
pub fn default_true() -> (r: bool)
    ensures
        r,
{
    true
}

/// Whether a flag that is on by default need not be written.
pub fn is_true(b: &bool) -> (r: bool)
    ensures
        r == *b,
{
    *b
}

/// A project is shown with its worktrees unless it was folded.
pub fn default_expanded() -> (r: bool)
    ensures
        r,
{
    true
}

/// A list of remotes as names and addresses.
pub open spec fn remote_pairs(v: Seq<(String, RemoteConfig)>) -> Seq<(Seq<char>, Seq<char>)> {
    Seq::new(v.len(), |i: int| (v[i].0@, v[i].1.url@))
}

/// Whether some remote in `p` has that name.
pub open spec fn names_remote(p: Seq<(Seq<char>, Seq<char>)>, name: Seq<char>) -> bool {
    exists|i: int| 0 <= i < p.len() && (#[trigger] p[i]).0 == name
}

/// Every remote to connect to: the named ones, and behind them the single one of
/// an older config under the name `remote`, unless that name is taken.
pub open spec fn remotes_in_effect(
    named: Seq<(Seq<char>, Seq<char>)>,
    single: Option<RemoteConfig>,
) -> Seq<(Seq<char>, Seq<char>)> {
    match single {
        Some(r) => if names_remote(named, "remote"@) {
            named
        } else {
            named.push(("remote"@, r.url@))
        },
        None => named,
    }
}

impl GlobalConfig {
    /// Every remote to connect to, with its name.
    pub fn effective_remotes(&self) -> (r: Vec<(String, RemoteConfig)>)
        ensures
            remote_pairs(r@) == remotes_in_effect(remote_pairs(self.remotes@), self.remote),
    {
        let mut out: Vec<(String, RemoteConfig)> = Vec::new();
        let mut taken = false;
        let ghost all = remote_pairs(self.remotes@);
        let mut i: usize = 0;
        assert(remote_pairs(out@) =~= all.take(0));
        while i < self.remotes.len()
            invariant
                i <= self.remotes.len(),
                all == remote_pairs(self.remotes@),
                remote_pairs(out@) == all.take(i as int),
                taken == names_remote(all.take(i as int), "remote"@),
            decreases self.remotes.len() - i,
        {
            let ghost before = out@;
            let name = &self.remotes[i].0;
            let hit = text::same(name.as_str(), "remote");
            out.push((name.clone(), RemoteConfig { url: self.remotes[i].1.url.clone() }));
            proof {
                let next = all.take(i + 1);
                assert(remote_pairs(out@) =~= remote_pairs(before).push(all[i as int]));
                assert(next =~= all.take(i as int).push(all[i as int]));
                if hit {
                    assert(next[i as int].0 == "remote"@);
                }
                if taken {
                    let k = choose|k: int|
                        0 <= k < i && (#[trigger] all.take(i as int)[k]).0 == "remote"@;
                    assert(next[k].0 == "remote"@);
                }
                if names_remote(next, "remote"@) && !hit {
                    let k = choose|k: int| 0 <= k < i + 1 && (#[trigger] next[k]).0 == "remote"@;
                    assert(all.take(i as int)[k].0 == "remote"@);
                }
            }
            taken = taken || hit;
            i += 1;
        }
        assert(all.take(all.len() as int) =~= all);
        if let Some(r) = &self.remote {
            if !taken {
                let ghost before = out@;
                out.push((text::owned("remote"), RemoteConfig { url: r.url.clone() }));
                assert(remote_pairs(out@) =~= remote_pairs(before).push(("remote"@, r.url@)));
            }
        }
        out
    }
}

// ---------------------------------------------------------------------------
// Where things lie
// ---------------------------------------------------------------------------

/// The config directory: `imbuia` under `$XDG_CONFIG_HOME`, else under
/// `.config` in the home directory, else under the current one.
pub open spec fn config_dir(xdg: Option<Seq<char>>, home: Option<Seq<char>>) -> Seq<char> {
    let base = match xdg {
        Some(x) => x,
        None => match home {
            Some(h) => paths::joined(h, ".config"@),
            None => "."@,
        },
    };
    paths::joined(base, "imbuia"@)
}

/// Resolve `$XDG_CONFIG_HOME/imbuia` (or `~/.config/imbuia`), from the values of
/// the two variables; falls back to `.` if neither is set.
pub fn resolve_config_dir(xdg: Option<String>, home: Option<String>) -> (r: String)
    ensures
        r@ == config_dir(text::opt_text(xdg), text::opt_text(home)),
{
    let base = match xdg {
        Some(x) => x,
        None => match home {
            Some(h) => paths::join(h.as_str(), ".config"),
            None => text::owned("."),
        },
    };
    paths::join(base.as_str(), "imbuia")
}

/// The file of a project's config.
pub fn project_path(dir: &str, slug: &str) -> (r: String)
    ensures
        r@ == paths::joined(paths::joined(dir@, "projects"@), slug@ + ".toml"@),
{
    let sub = paths::join(dir, "projects");
    paths::join(sub.as_str(), text::concat2(slug, ".toml").as_str())
}

/// The file of the global config.
pub fn global_path(dir: &str) -> (r: String)
    ensures
        r@ == paths::joined(dir@, "config.toml"@),
{
    paths::join(dir, "config.toml")
}

/// PKCS#8 private key for this host's long-lived TLS identity (mode 0600).
/// The same file is used whether the process acts as a client or supervisor.
pub fn identity_path(dir: &str) -> (r: String)
    ensures
        r@ == paths::joined(dir@, "identity.key"@),
{
    paths::join(dir, "identity.key")
}

/// Client-side TOFU store: `host:port <sha256-fingerprint>` per line.
pub fn known_hosts_path(dir: &str) -> (r: String)
    ensures
        r@ == paths::joined(dir@, "known_hosts"@),
{
    paths::join(dir, "known_hosts")
}

/// Supervisor-side allow-list: `<sha256-fingerprint>  # optional comment`.
pub fn authorized_keys_path(dir: &str) -> (r: String)
    ensures
        r@ == paths::joined(dir@, "authorized_keys"@),
{
    paths::join(dir, "authorized_keys")
}

// ---------------------------------------------------------------------------
// Slugs
// ---------------------------------------------------------------------------

/// Whether `c` is an ASCII letter or digit.
pub open spec fn is_alnum(c: char) -> bool {
    keybinds::is_letter(c) || text::is_digit(c)
}

fn alnum(c: char) -> (r: bool)
    ensures
        r == is_alnum(c),
{
    ('a' <= c && c <= 'z') || ('A' <= c && c <= 'Z') || ('0' <= c && c <= '9')
}

/// The slugs that may name a file: one to 64 ASCII letters, digits, `-` and `_`.
pub open spec fn valid_slug(s: Seq<char>) -> bool {
    &&& 0 < s.len() <= 64
    &&& forall|i: int|
        0 <= i < s.len() ==> is_alnum(#[trigger] s[i]) || s[i] == '-' || s[i] == '_'
}

/// Slugs are used as filenames; reject anything that could traverse or that
/// would break the `projects/<slug>.toml` convention. Conservative on purpose.
pub fn is_valid_slug(s: &str) -> (r: bool)
    ensures
        r == valid_slug(s@),
{
    let v = text::chars_of(s);
    if v.len() == 0 || v.len() > 64 {
        return false;
    }
    let mut i: usize = 0;
    while i < v.len()
        invariant
            i <= v.len(),
            v@ == s@,
            forall|j: int| 0 <= j < i ==> is_alnum(#[trigger] v[j]) || v[j] == '-' || v[j] == '_',
        decreases v.len() - i,
    {
        if !(alnum(v[i]) || v[i] == '-' || v[i] == '_') {
            assert(!(is_alnum(s@[i as int]) || s@[i as int] == '-' || s@[i as int] == '_'));
            return false;
        }
        i += 1;
    }
    true
}

/// A valid slug stays in its directory: its file's path is the directory's path
/// with one more step.
pub proof fn law_valid_slugs_stay_in_the_directory(dir: Seq<char>, slug: Seq<char>)
    requires
        valid_slug(slug),
    ensures
        forall|i: int| 0 <= i < slug.len() ==> slug[i] != '/' && slug[i] != '.',
        ({
            let sub = paths::joined(dir, "projects"@);
            paths::joined(sub, slug + ".toml"@) == sub.push('/') + (slug + ".toml"@)
        }),
{
    reveal_strlit("projects");
    reveal_strlit(".toml");
    assert forall|i: int| 0 <= i < slug.len() implies slug[i] != '/' && slug[i] != '.' by {
        assert(is_alnum(slug[i]) || slug[i] == '-' || slug[i] == '_');
    }
    let sub = paths::joined(dir, "projects"@);
    assert(sub.last() == 's');
    assert((slug + ".toml"@)[0] == slug[0]);
}

/// How many letters and digits `s` starts with.
pub open spec fn run_len(s: Seq<char>) -> nat
    decreases s.len(),
{
    if s.len() == 0 || !is_alnum(s[0]) {
        0
    } else {
        1 + run_len(s.skip(1))
    }
}

proof fn lemma_run_len_bound(s: Seq<char>)
    ensures
        run_len(s) <= s.len(),
        s.len() > 0 && is_alnum(s[0]) ==> run_len(s) > 0,
        forall|i: int| 0 <= i < run_len(s) ==> is_alnum(#[trigger] s[i]),
    decreases s.len(),
{
    if s.len() > 0 {
        lemma_run_len_bound(s.skip(1));
        assert forall|i: int| 0 <= i < run_len(s) implies is_alnum(#[trigger] s[i]) by {
            if i > 0 {
                assert(s[i] == s.skip(1)[i - 1]);
            }
        }
    }
}

proof fn lemma_run_len(s: Seq<char>, n: nat)
    requires
        n <= s.len(),
        forall|i: int| 0 <= i < n ==> is_alnum(#[trigger] s[i]),
        n == s.len() || !is_alnum(s[n as int]),
    ensures
        run_len(s) == n,
    decreases n,
{
    if n > 0 {
        assert forall|i: int| 0 <= i < n - 1 implies is_alnum(#[trigger] s.skip(1)[i]) by {
            assert(s.skip(1)[i] == s[i + 1]);
        }
        lemma_run_len(s.skip(1), (n - 1) as nat);
    }
}

/// The runs of letters and digits in `s`, in small letters.
pub open spec fn slug_parts(s: Seq<char>) -> Seq<Seq<char>>
    decreases s.len(),
    via slug_parts_decreases
{
    if s.len() == 0 {
        seq![]
    } else if !is_alnum(s[0]) {
        slug_parts(s.skip(1))
    } else {
        seq![text::lower_ascii(s.take(run_len(s) as int))] + slug_parts(s.skip(run_len(s) as int))
    }
}

#[via_fn]
proof fn slug_parts_decreases(s: Seq<char>) {
    lemma_run_len_bound(s);
}

/// The slug of a name: its runs of letters and digits in small letters with one
/// `-` between them, or `project` where there is no such run.
pub open spec fn slug_of(s: Seq<char>) -> Seq<char> {
    if slug_parts(s).len() == 0 {
        "project"@
    } else {
        text::join(slug_parts(s), "-"@)
    }
}

/// Lowercase + replace non-alphanumeric runs with `-`. Trim leading/trailing `-`.
pub fn slugify(input: &str) -> (r: String)
    ensures
        r@ == slug_of(input@),
{
    let v = text::chars_of(input);
    let mut parts: Vec<String> = Vec::new();
    let mut i: usize = 0;
    assert(input@.skip(0) =~= input@);
    assert(text::texts(parts@) + slug_parts(input@) =~= slug_parts(input@));
    while i < v.len()
        invariant
            i <= v.len(),
            v@ == input@,
            text::texts(parts@) + slug_parts(input@.skip(i as int)) == slug_parts(input@),
        decreases v.len() - i,
    {
        let ghost rest = input@.skip(i as int);
        assert(rest[0] == v[i as int]);
        if !alnum(v[i]) {
            assert(rest.skip(1) =~= input@.skip(i + 1));
            i += 1;
        } else {
            let mut j: usize = i;
            while j < v.len() && alnum(v[j])
                invariant
                    i <= j <= v.len(),
                    forall|k: int| i <= k < j ==> is_alnum(#[trigger] v[k]),
                decreases v.len() - j,
            {
                j += 1;
            }
            proof {
                assert forall|k: int| 0 <= k < j - i implies is_alnum(#[trigger] rest[k]) by {
                    assert(rest[k] == v[i + k]);
                }
                assert(j < v.len() ==> rest[j - i] == v[j as int]);
                lemma_run_len(rest, (j - i) as nat);
                assert(rest.take(j - i) =~= input@.subrange(i as int, j as int));
                assert(rest.skip(j - i) =~= input@.skip(j as int));
            }
            let run = text::string_of(&v, i, j);
            let ghost before = parts@;
            parts.push(text::to_lower_ascii(run.as_str()));
            proof {
                let low = text::lower_ascii(rest.take(j - i));
                assert(text::texts(parts@) =~= text::texts(before).push(low));
                assert(text::texts(parts@) + slug_parts(input@.skip(j as int))
                    =~= text::texts(before) + slug_parts(rest));
            }
            i = j;
        }
    }
    assert(input@.skip(i as int).len() == 0);
    assert(text::texts(parts@) + slug_parts(input@.skip(i as int)) =~= text::texts(parts@));
    if parts.len() == 0 {
        text::owned("project")
    } else {
        text::join_with(&parts, "-")
    }
}

/// Whether every character of `s` is a letter, a digit or `-`.
pub open spec fn slug_chars(s: Seq<char>) -> bool {
    forall|i: int| 0 <= i < s.len() ==> is_alnum(#[trigger] s[i]) || s[i] == '-'
}

proof fn lemma_slug_parts_chars(s: Seq<char>, k: int)
    requires
        0 <= k < slug_parts(s).len(),
    ensures
        slug_chars(slug_parts(s)[k]),
        slug_parts(s)[k].len() > 0,
    decreases s.len(),
{
    if s.len() > 0 {
        if !is_alnum(s[0]) {
            lemma_slug_parts_chars(s.skip(1), k);
        } else {
            lemma_run_len_bound(s);
            let n = run_len(s) as int;
            if k == 0 {
                let run = s.take(n);
                let low = text::lower_ascii(run);
                assert forall|i: int| 0 <= i < low.len() implies is_alnum(#[trigger] low[i]) by {
                    assert(is_alnum(s[i]));
                    assert(low[i] == text::lower_char(s[i]));
                }
            } else {
                lemma_slug_parts_chars(s.skip(n), k - 1);
                assert(slug_parts(s)[k] == slug_parts(s.skip(n))[k - 1]);
            }
        }
    }
}

proof fn lemma_join_chars(parts: Seq<Seq<char>>, sep: Seq<char>)
    requires
        forall|k: int| 0 <= k < parts.len() ==> slug_chars(#[trigger] parts[k]),
        slug_chars(sep),
    ensures
        slug_chars(text::join(parts, sep)),
    decreases parts.len(),
{
    if parts.len() > 1 {
        let front = parts.drop_last();
        assert forall|k: int| 0 <= k < front.len() implies slug_chars(#[trigger] front[k]) by {
            assert(front[k] == parts[k]);
        }
        lemma_join_chars(front, sep);
        let a = text::join(front, sep);
        let whole = text::join(parts, sep);
        assert(slug_chars(parts[parts.len() - 1]));
        assert forall|i: int| 0 <= i < whole.len() implies is_alnum(#[trigger] whole[i])
            || whole[i] == '-' by {
            if i < a.len() {
                assert(whole[i] == a[i]);
            } else if i < a.len() + sep.len() {
                assert(whole[i] == sep[i - a.len()]);
            } else {
                assert(whole[i] == parts.last()[i - a.len() - sep.len()]);
            }
        }
    } else if parts.len() == 1 {
        assert(slug_chars(parts[0]));
    }
}

proof fn lemma_join_not_empty(parts: Seq<Seq<char>>, sep: Seq<char>)
    requires
        parts.len() > 0,
        parts.last().len() > 0,
    ensures
        text::join(parts, sep).len() > 0,
{
}

/// The slug of a name is made of letters, digits and `-`, and is not empty; so
/// one of at most 64 characters may name a file.
pub proof fn law_slugs_are_valid(name: Seq<char>)
    ensures
        slug_chars(slug_of(name)),
        slug_of(name).len() > 0,
        slug_of(name).len() <= 64 ==> valid_slug(slug_of(name)),
{
    let parts = slug_parts(name);
    let s = slug_of(name);
    if parts.len() == 0 {
        reveal_strlit("project");
        assert forall|i: int| 0 <= i < s.len() implies is_alnum(#[trigger] s[i]) by {}
    } else {
        reveal_strlit("-");
        assert forall|k: int| 0 <= k < parts.len() implies slug_chars(#[trigger] parts[k]) by {
            lemma_slug_parts_chars(name, k);
        }
        lemma_slug_parts_chars(name, parts.len() - 1);
        lemma_join_chars(parts, "-"@);
        lemma_join_not_empty(parts, "-"@);
    }
}

/// Whether `c` is a small letter or a digit.
pub open spec fn is_small(c: char) -> bool {
    is_alnum(c) && text::lower_char(c) == c
}

/// Whether a slug has only small letters, digits, and single dashes between them.
pub open spec fn tidy_slug(s: Seq<char>) -> bool {
    &&& s.len() > 0
    &&& forall|i: int| 0 <= i < s.len() ==> is_small(#[trigger] s[i]) || s[i] == '-'
    &&& forall|i: int|
        0 <= i < s.len() && #[trigger] s[i] == '-' ==> 0 < i < s.len() - 1 && s[i - 1] != '-'
            && s[i + 1] != '-'
}

/// The letters and digits in `s`, in small letters.
pub open spec fn small_alnums(s: Seq<char>) -> Seq<char>
    decreases s.len(),
{
    if s.len() == 0 {
        s
    } else if is_alnum(s[0]) {
        seq![text::lower_char(s[0])] + small_alnums(s.skip(1))
    } else {
        small_alnums(s.skip(1))
    }
}

/// Whether `s` is a run of small letters and digits.
spec fn small_run(s: Seq<char>) -> bool {
    s.len() > 0 && forall|i: int| 0 <= i < s.len() ==> is_small(#[trigger] s[i])
}

spec fn small_runs(parts: Seq<Seq<char>>) -> bool {
    forall|k: int| 0 <= k < parts.len() ==> small_run(#[trigger] parts[k])
}

proof fn lemma_parts_are_small(s: Seq<char>)
    ensures
        small_runs(slug_parts(s)),
    decreases s.len(),
{
    if s.len() > 0 {
        if !is_alnum(s[0]) {
            lemma_parts_are_small(s.skip(1));
        } else {
            lemma_run_len_bound(s);
            let n = run_len(s) as int;
            lemma_parts_are_small(s.skip(n));
            let low = text::lower_ascii(s.take(n));
            assert forall|i: int| 0 <= i < low.len() implies is_small(#[trigger] low[i]) by {
                assert(is_alnum(s[i]));
                assert(low[i] == text::lower_char(s[i]));
            }
            let parts = slug_parts(s);
            assert forall|k: int| 0 <= k < parts.len() implies small_run(#[trigger] parts[k]) by {
                if k > 0 {
                    assert(parts[k] == slug_parts(s.skip(n))[k - 1]);
                }
            }
        }
    }
}

proof fn lemma_join_is_tidy(parts: Seq<Seq<char>>)
    requires
        parts.len() > 0,
        small_runs(parts),
    ensures
        tidy_slug(text::join(parts, "-"@)),
    decreases parts.len(),
{
    reveal_strlit("-");
    let whole = text::join(parts, "-"@);
    let last = parts.last();
    assert(small_run(parts[parts.len() - 1]));
    if parts.len() > 1 {
        let front = parts.drop_last();
        assert forall|k: int| 0 <= k < front.len() implies small_run(#[trigger] front[k]) by {
            assert(front[k] == parts[k]);
        }
        lemma_join_is_tidy(front);
        let a = text::join(front, "-"@);
        assert forall|i: int| 0 <= i < whole.len() implies is_small(#[trigger] whole[i]) || whole[i]
            == '-' by {
            if i < a.len() {
                assert(whole[i] == a[i]);
            } else if i > a.len() {
                assert(whole[i] == last[i - a.len() - 1]);
            }
        }
        assert forall|i: int| 0 <= i < whole.len() && #[trigger] whole[i] == '-' implies 0 < i
            < whole.len() - 1 && whole[i - 1] != '-' && whole[i + 1] != '-' by {
            assert(a[a.len() - 1] != '-');
            assert(is_small(last[0]));
            if i < a.len() {
                assert(a[i] == '-');
                assert(whole[i - 1] == a[i - 1] && whole[i + 1] == a[i + 1]);
            } else if i == a.len() {
                assert(whole[i - 1] == a[i - 1]);
                assert(whole[i + 1] == last[0]);
            } else {
                assert(whole[i] == last[i - a.len() - 1]);
            }
        }
    } else {
        assert(whole =~= parts[0]);
    }
}

proof fn lemma_join_front(parts: Seq<Seq<char>>, sep: Seq<char>)
    requires
        parts.len() > 1,
    ensures
        text::join(parts, sep) == parts[0] + sep + text::join(parts.skip(1), sep),
    decreases parts.len(),
{
    let front = parts.drop_last();
    let rest = parts.skip(1);
    if parts.len() == 2 {
        assert(text::join(front, sep) =~= parts[0]);
        assert(text::join(rest, sep) =~= parts[1]);
        assert(text::join(parts, sep) =~= parts[0] + sep + text::join(rest, sep));
    } else {
        lemma_join_front(front, sep);
        assert(front.skip(1) =~= rest.drop_last());
        assert(rest.last() == parts.last());
        assert(text::join(parts, sep) =~= parts[0] + sep + text::join(rest, sep));
    }
}

/// The parts of a slug are what it was made of.
proof fn lemma_parts_of_join(parts: Seq<Seq<char>>)
    requires
        parts.len() > 0,
        small_runs(parts),
    ensures
        slug_parts(text::join(parts, "-"@)) == parts,
    decreases parts.len(),
{
    reveal_strlit("-");
    let whole = text::join(parts, "-"@);
    let first = parts[0];
    let n = first.len();
    assert(small_run(first));
    assert(text::lower_ascii(first) =~= first);
    let rest = parts.skip(1);
    if parts.len() == 1 {
        assert(whole =~= first);
    } else {
        lemma_join_front(parts, "-"@);
        assert(whole[n as int] == '-');
        assert forall|k: int| 0 <= k < rest.len() implies small_run(#[trigger] rest[k]) by {
            assert(rest[k] == parts[k + 1]);
        }
        lemma_parts_of_join(rest);
    }
    assert forall|i: int| 0 <= i < n implies is_alnum(#[trigger] whole[i]) by {
        assert(is_small(first[i]));
        assert(whole[i] == first[i]);
    }
    lemma_run_len(whole, n);
    assert(whole.take(n as int) =~= first);
    assert(is_alnum(whole[0]));
    let tail = whole.skip(n as int);
    if parts.len() == 1 {
        assert(tail.len() == 0);
        assert(slug_parts(tail) =~= seq![]);
        assert(slug_parts(whole) =~= parts);
    } else {
        assert(tail[0] == '-');
        assert(tail.skip(1) =~= text::join(rest, "-"@));
        assert(slug_parts(tail) == slug_parts(tail.skip(1)));
        assert(slug_parts(whole) =~= parts);
    }
}

proof fn lemma_small_alnums_add(a: Seq<char>, b: Seq<char>)
    ensures
        small_alnums(a + b) == small_alnums(a) + small_alnums(b),
    decreases a.len(),
{
    if a.len() == 0 {
        assert(a + b =~= b);
        assert(small_alnums(a) + small_alnums(b) =~= small_alnums(b));
    } else {
        assert((a + b).skip(1) =~= a.skip(1) + b);
        assert((a + b)[0] == a[0]);
        lemma_small_alnums_add(a.skip(1), b);
        assert(small_alnums(a + b) =~= small_alnums(a) + small_alnums(b));
    }
}

proof fn lemma_small_alnums_run(s: Seq<char>)
    requires
        forall|i: int| 0 <= i < s.len() ==> is_alnum(#[trigger] s[i]),
    ensures
        small_alnums(s) == text::lower_ascii(s),
    decreases s.len(),
{
    if s.len() > 0 {
        let rest = s.skip(1);
        assert forall|i: int| 0 <= i < rest.len() implies is_alnum(#[trigger] rest[i]) by {
            assert(rest[i] == s[i + 1]);
        }
        lemma_small_alnums_run(rest);
    }
    assert(small_alnums(s) =~= text::lower_ascii(s));
}

/// A text and its slug have the same letters and digits.
proof fn lemma_small_alnums_of_parts(s: Seq<char>)
    ensures
        slug_parts(s).len() == 0 ==> small_alnums(s).len() == 0,
        slug_parts(s).len() > 0 ==> small_alnums(text::join(slug_parts(s), "-"@)) == small_alnums(
            s,
        ),
    decreases s.len(),
{
    reveal_strlit("-");
    if s.len() > 0 {
        if !is_alnum(s[0]) {
            lemma_small_alnums_of_parts(s.skip(1));
        } else {
            lemma_run_len_bound(s);
            let n = run_len(s) as int;
            let run = s.take(n);
            let rest = s.skip(n);
            let parts = slug_parts(s);
            lemma_small_alnums_of_parts(rest);
            assert(s =~= run + rest);
            lemma_small_alnums_add(run, rest);
            lemma_small_alnums_run(run);
            lemma_parts_are_small(s);
            assert(small_run(parts[0]));
            assert forall|i: int| 0 <= i < parts[0].len() implies is_alnum(
                #[trigger] parts[0][i],
            ) by {
                assert(is_small(parts[0][i]));
            }
            lemma_small_alnums_run(parts[0]);
            assert(text::lower_ascii(parts[0]) =~= parts[0]) by {
                assert forall|i: int| 0 <= i < parts[0].len() implies text::lower_ascii(
                    parts[0],
                )[i] == parts[0][i] by {
                    assert(is_small(parts[0][i]));
                }
            }
            if parts.len() == 1 {
                assert(slug_parts(rest).len() == 0);
                assert(text::join(parts, "-"@) =~= parts[0]);
                assert(small_alnums(s) =~= small_alnums(run));
            } else {
                assert(parts.skip(1) =~= slug_parts(rest));
                lemma_join_front(parts, "-"@);
                let tail = text::join(parts.skip(1), "-"@);
                let dash = "-"@;
                assert(dash.skip(1) =~= seq![]);
                assert(small_alnums(dash) =~= seq![]) by {
                    reveal_with_fuel(small_alnums, 2);
                }
                lemma_small_alnums_add(parts[0] + dash, tail);
                lemma_small_alnums_add(parts[0], dash);
                assert(small_alnums(text::join(parts, "-"@)) =~= small_alnums(s));
            }
        }
    }
}

proof fn lemma_project_is_a_part()
    ensures
        small_run("project"@),
{
    reveal_strlit("project");
}

/// A slug has only small letters, digits and single dashes between them; without
/// the dashes it is the letters and digits of the name, if there are any; and it
/// is its own slug.
pub proof fn law_slugs_are_tidy(name: Seq<char>)
    ensures
        tidy_slug(slug_of(name)),
        small_alnums(name).len() > 0 ==> small_alnums(slug_of(name)) == small_alnums(name),
        small_alnums(name).len() == 0 ==> slug_of(name) == "project"@,
        slug_of(slug_of(name)) == slug_of(name),
{
    let parts = slug_parts(name);
    lemma_small_alnums_of_parts(name);
    if parts.len() > 0 {
        lemma_parts_are_small(name);
        lemma_join_is_tidy(parts);
        lemma_parts_of_join(parts);
        assert(small_alnums(name).len() > 0) by {
            lemma_some_alnums(name);
        }
    } else {
        let one = seq!["project"@];
        lemma_project_is_a_part();
        assert(text::join(one, "-"@) =~= "project"@);
        lemma_join_is_tidy(one);
        lemma_parts_of_join(one);
    }
}

proof fn lemma_some_alnums(s: Seq<char>)
    requires
        slug_parts(s).len() > 0,
    ensures
        small_alnums(s).len() > 0,
    decreases s.len(),
{
    if !is_alnum(s[0]) {
        lemma_some_alnums(s.skip(1));
    }
}

/// The `n`th slug to try for a base that is taken.
pub open spec fn numbered(base: Seq<char>, n: nat) -> Seq<char> {
    base + "-"@ + text::decimal(n)
}

/// Whether `slug` is the first that is free: the base, else the base with the
/// least number from 2 on.
pub open spec fn first_free(base: Seq<char>, taken: Seq<Seq<char>>, slug: Seq<char>) -> bool {
    if !taken.contains(base) {
        slug == base
    } else {
        exists|n: nat|
            2 <= n && slug == #[trigger] numbered(base, n) && !taken.contains(numbered(base, n))
                && forall|m: nat| 2 <= m < n ==> taken.contains(#[trigger] numbered(base, m))
    }
}

fn has_text(list: &Vec<String>, s: &str) -> (r: bool)
    ensures
        r == text::texts(list@).contains(s@),
{
    let ghost all = text::texts(list@);
    let mut i: usize = 0;
    while i < list.len()
        invariant
            i <= list.len(),
            all == text::texts(list@),
            forall|j: int| 0 <= j < i ==> #[trigger] all[j] != s@,
        decreases list.len() - i,
    {
        if text::same(list[i].as_str(), s) {
            assert(all[i as int] == s@);
            return true;
        }
        i += 1;
    }
    false
}

proof fn lemma_numbered_differ(base: Seq<char>, m: nat, n: nat)
    requires
        m != n,
    ensures
        numbered(base, m) != numbered(base, n),
{
    text::lemma_decimal_reads_back(m);
    text::lemma_decimal_reads_back(n);
    let head = base + "-"@;
    if numbered(base, m) == numbered(base, n) {
        assert(numbered(base, m).skip(head.len() as int) =~= text::decimal(m));
        assert(numbered(base, n).skip(head.len() as int) =~= text::decimal(n));
    }
}

/// Where in `taken` the slug numbered `m` stands.
spec fn place(base: Seq<char>, taken: Seq<Seq<char>>, m: nat) -> int {
    choose|i: int| 0 <= i < taken.len() && taken[i] == numbered(base, m)
}

/// As many numbers as there are slugs cannot all be taken and one more besides.
proof fn lemma_few_are_taken(base: Seq<char>, taken: Seq<Seq<char>>, n: nat)
    requires
        n >= 2,
        forall|m: nat| 2 <= m < n ==> taken.contains(#[trigger] numbered(base, m)),
    ensures
        n - 2 <= taken.len(),
{
    let places = Seq::new((n - 2) as nat, |k: int| place(base, taken, (k + 2) as nat));
    assert forall|k: int| 0 <= k < places.len() implies 0 <= #[trigger] places[k] < taken.len()
        && taken[places[k]] == numbered(base, (k + 2) as nat) by {
        assert(taken.contains(numbered(base, (k + 2) as nat)));
    }
    assert forall|a: int, b: int| 0 <= a < b < places.len() implies places[a] != places[b] by {
        lemma_numbered_differ(base, (a + 2) as nat, (b + 2) as nat);
        assert(taken[places[a]] == numbered(base, (a + 2) as nat));
        assert(taken[places[b]] == numbered(base, (b + 2) as nat));
    }
    assert(places.no_duplicates());
    places.unique_seq_to_set();
    vstd::set_lib::lemma_int_range(0, taken.len() as int);
    assert(places.to_set().subset_of(vstd::set_lib::set_int_range(0, taken.len() as int)));
    vstd::set_lib::lemma_len_subset(
        places.to_set(),
        vstd::set_lib::set_int_range(0, taken.len() as int),
    );
}

/// The slug for a name where `taken` are taken: the first that is free.
pub open spec fn fresh_slug(name: Seq<char>, taken: Seq<Seq<char>>) -> Seq<char> {
    choose|s: Seq<char>| first_free(slug_of(name), taken, s)
}

proof fn lemma_first_free_is_one(base: Seq<char>, taken: Seq<Seq<char>>, a: Seq<char>, b: Seq<char>)
    requires
        first_free(base, taken, a),
        first_free(base, taken, b),
    ensures
        a == b,
{
    if taken.contains(base) {
        let i = choose|n: nat|
            2 <= n && a == #[trigger] numbered(base, n) && !taken.contains(numbered(base, n))
                && forall|m: nat| 2 <= m < n ==> taken.contains(#[trigger] numbered(base, m));
        let j = choose|n: nat|
            2 <= n && b == #[trigger] numbered(base, n) && !taken.contains(numbered(base, n))
                && forall|m: nat| 2 <= m < n ==> taken.contains(#[trigger] numbered(base, m));
        assert(taken.contains(numbered(base, i)) == false);
        assert(taken.contains(numbered(base, j)) == false);
    }
}

/// Pick a fresh slug for `name`, avoiding collisions in `existing`.
pub fn compute_slug(name: &str, existing: &Vec<String>) -> (r: String)
    ensures
        first_free(slug_of(name@), text::texts(existing@), r@),
        !text::texts(existing@).contains(r@),
        r@ == fresh_slug(name@, text::texts(existing@)),
{
    let r = find_slug(name, existing);
    proof {
        lemma_first_free_is_one(
            slug_of(name@),
            text::texts(existing@),
            r@,
            fresh_slug(name@, text::texts(existing@)),
        );
    }
    r
}

fn find_slug(name: &str, existing: &Vec<String>) -> (r: String)
    ensures
        first_free(slug_of(name@), text::texts(existing@), r@),
        !text::texts(existing@).contains(r@),
{
    let base = slugify(name);
    let ghost taken = text::texts(existing@);
    if !has_text(existing, base.as_str()) {
        return base;
    }
    let mut n: u128 = 2;
    loop
        invariant
            2 <= n,
            base@ == slug_of(name@),
            taken == text::texts(existing@),
            taken.contains(base@),
            forall|m: nat| 2 <= m < n ==> taken.contains(#[trigger] numbered(base@, m)),
        decreases existing.len() + 3 - n,
    {
        let candidate = text::concat3(base.as_str(), "-", text::wide_to_decimal(n).as_str());
        assert(candidate@ == numbered(base@, n as nat));
        if !has_text(existing, candidate.as_str()) {
            return candidate;
        }
        proof {
            lemma_few_are_taken(base@, taken, n as nat + 1);
        }
        n += 1;
    }
}

// ---------------------------------------------------------------------------
// Starting up
// ---------------------------------------------------------------------------

/// The slugs in `all` that may name a file, in order.
pub open spec fn usable_slugs(all: Seq<Seq<char>>) -> Seq<Seq<char>>
    decreases all.len(),
{
    if all.len() == 0 {
        seq![]
    } else if valid_slug(all.last()) {
        usable_slugs(all.drop_last()).push(all.last())
    } else {
        usable_slugs(all.drop_last())
    }
}

/// The slugs in `all` that may name a file, in order; the others are skipped.
pub fn project_slugs(all: &Vec<String>) -> (r: Vec<String>)
    ensures
        text::texts(r@) == usable_slugs(text::texts(all@)),
{
    let ghost t = text::texts(all@);
    let mut out: Vec<String> = Vec::new();
    let mut i: usize = 0;
    assert(text::texts(out@) =~= seq![]);
    while i < all.len()
        invariant
            i <= all.len(),
            t == text::texts(all@),
            text::texts(out@) == usable_slugs(t.take(i as int)),
        decreases all.len() - i,
    {
        let ghost before = out@;
        assert(t.take(i + 1).drop_last() =~= t.take(i as int));
        assert(t.take(i + 1).last() == t[i as int]);
        if is_valid_slug(all[i].as_str()) {
            out.push(all[i].clone());
            assert(text::texts(out@) =~= text::texts(before).push(t[i as int]));
        }
        i += 1;
    }
    assert(t.take(t.len() as int) =~= t);
    out
}

/// What a start makes of the config file.
#[derive(Debug)]
pub struct Loaded {
    pub global: GlobalConfig,
    /// The default keybindings were put in: the file is to be written.
    pub seeded: bool,
    /// The projects to load.
    pub slugs: Vec<String>,
}

/// Takes the config as it was read, or the default one where there was none to
/// read. A config without keybindings gets every default, so that the user can
/// discover and customise them. Slugs that may not name a file are skipped.
pub fn load_or_default(read: Option<GlobalConfig>) -> (r: Loaded)
    ensures
        text::texts(r.slugs@) == usable_slugs(text::texts(r.global.projects@)),
        match read {
            Some(g) => {
                &&& r.seeded == (g.keybinds.pairs().len() == 0)
                &&& !r.seeded ==> r.global == g
                &&& r.seeded ==> r.global == (GlobalConfig { keybinds: r.global.keybinds, ..g })
            },
            None => {
                &&& r.seeded
                &&& r.global.sidebar_width == DEFAULT_SIDEBAR_WIDTH
                &&& r.global.theme == ThemeKind::Dark
                &&& r.global.projects@.len() == 0
                &&& r.global.launchers@.len() == 0
                &&& r.global.gh_poll_interval_secs is None
                &&& r.global.remotes@.len() == 0
                &&& r.global.remote is None
            },
        },
        r.seeded ==> r.global.keybinds.map() == keybinds::default_config(
            keybinds::default_normal() + keybinds::default_terminal(),
        ),
{
    let mut global = match read {
        Some(g) => g,
        None => GlobalConfig::default(),
    };
    let seeded = global.keybinds.len() == 0;
    if seeded {
        global.keybinds = keybinds::defaults_as_config();
    }
    let slugs = project_slugs(&global.projects);
    Loaded { global, seeded, slugs }
}

// ---------------------------------------------------------------------------
// Remote-transport trust files (live alongside config.toml in the config dir).
// ---------------------------------------------------------------------------

/// An entry of a trust file: its first word, and its second if it has one.
pub type TrustEntry = (Seq<char>, Option<Seq<char>>);

/// The entry on a line: its first two words; none on an empty line or a comment.
pub open spec fn trust_entry(line: Seq<char>) -> Option<TrustEntry> {
    let w = text::words(line);
    if w.len() == 0 || w[0][0] == '#' {
        None
    } else {
        Some((w[0], if w.len() > 1 { Some(w[1]) } else { None }))
    }
}

/// The entries on the given lines, in order.
pub open spec fn trust_entries(lines: Seq<Seq<char>>) -> Seq<TrustEntry>
    decreases lines.len(),
{
    if lines.len() == 0 {
        seq![]
    } else {
        let front = trust_entries(lines.drop_last());
        match trust_entry(lines.last()) {
            Some(e) => front.push(e),
            None => front,
        }
    }
}

/// The entries in a list.
pub open spec fn entries_of(v: Seq<(String, Option<String>)>) -> Seq<TrustEntry> {
    Seq::new(v.len(), |i: int| (v[i].0@, text::opt_text(v[i].1)))
}

/// Parse a trust file, yielding the first two whitespace tokens of each
/// non-empty, non-`#` line. Used for both known_hosts (host, fp) and
/// authorized_keys (fp, comment).
pub fn read_trust_lines(file: &str) -> (r: Vec<(String, Option<String>)>)
    ensures
        entries_of(r@) == trust_entries(text::lines(file@)),
{
    let lines = text::lines_of(file);
    let ghost all = text::texts(lines@);
    let mut out: Vec<(String, Option<String>)> = Vec::new();
    let mut i: usize = 0;
    assert(entries_of(out@) =~= seq![]);
    while i < lines.len()
        invariant
            i <= lines.len(),
            all == text::texts(lines@),
            entries_of(out@) == trust_entries(all.take(i as int)),
        decreases lines.len() - i,
    {
        let ghost before = out@;
        assert(all.take(i + 1).drop_last() =~= all.take(i as int));
        assert(all.take(i + 1).last() == all[i as int]);
        let words = text::split_whitespace(lines[i].as_str());
        let ghost w = text::words(all[i as int]);
        assert(w == text::texts(words@));
        if words.len() > 0 {
            proof {
                text::lemma_words(all[i as int], 0);
            }
            let first = text::chars_of(words[0].as_str());
            assert(first@ == w[0]);
            if first[0] != '#' {
                let second = if words.len() > 1 {
                    Some(words[1].clone())
                } else {
                    None
                };
                out.push((words[0].clone(), second));
                assert(entries_of(out@) =~= entries_of(before).push(
                    trust_entry(all[i as int])->Some_0,
                ));
            }
        }
        i += 1;
    }
    assert(all.take(all.len() as int) =~= all);
    out
}

/// The fingerprint in the first entry for `host`.
pub open spec fn pinned(entries: Seq<TrustEntry>, host: Seq<char>) -> Option<Seq<char>>
    decreases entries.len(),
{
    if entries.len() == 0 {
        None
    } else if entries[0].0 == host {
        entries[0].1
    } else {
        pinned(entries.skip(1), host)
    }
}

/// The fingerprint that a known_hosts file has for `host`.
pub open spec fn known_fingerprint(file: Seq<char>, host: Seq<char>) -> Option<Seq<char>> {
    pinned(trust_entries(text::lines(file)), host)
}

/// Look up the pinned fingerprint for `host` in the client's known_hosts.
pub fn known_host_fingerprint(file: &str, host: &str) -> (r: Option<String>)
    ensures
        text::opt_text(r) == known_fingerprint(file@, host@),
{
    let entries = read_trust_lines(file);
    let ghost all = entries_of(entries@);
    let mut i: usize = 0;
    assert(all.skip(0) =~= all);
    while i < entries.len()
        invariant
            i <= entries.len(),
            all == entries_of(entries@),
            known_fingerprint(file@, host@) == pinned(all.skip(i as int), host@),
        decreases entries.len() - i,
    {
        assert(all.skip(i as int)[0] == all[i as int]);
        if text::same(entries[i].0.as_str(), host) {
            return text::clone_opt(&entries[i].1);
        }
        assert(all.skip(i as int).skip(1) =~= all.skip(i + 1));
        i += 1;
    }
    None
}

/// The line that pins a host: the host, a space, the fingerprint.
pub open spec fn pin_line(host: Seq<char>, fingerprint: Seq<char>) -> Seq<char> {
    host.push(' ') + fingerprint
}

/// What a freshly-trusted `host -> fingerprint` appends to known_hosts (TOFU).
pub fn known_host_line(host: &str, fingerprint: &str) -> (r: String)
    ensures
        r@ == pin_line(host@, fingerprint@).push('\n'),
{
    let mut s = text::owned(host);
    s.push(' ');
    s.push_str(fingerprint);
    s.push('\n');
    s
}

/// Whether `s` is one word.
pub open spec fn one_word(s: Seq<char>) -> bool {
    s.len() > 0 && forall|i: int| 0 <= i < s.len() ==> !text::is_white(#[trigger] s[i])
}

proof fn lemma_pinned_append(entries: Seq<TrustEntry>, host: Seq<char>, e: TrustEntry)
    requires
        forall|i: int| 0 <= i < entries.len() ==> (#[trigger] entries[i]).0 != e.0,
    ensures
        host == e.0 ==> pinned(entries.push(e), host) == e.1,
    decreases entries.len(),
{
    let longer = entries.push(e);
    if entries.len() > 0 {
        assert(entries[0].0 != e.0);
        assert(longer[0] == entries[0]);
        assert(longer.skip(1) =~= entries.skip(1).push(e));
        assert forall|i: int| 0 <= i < entries.skip(1).len() implies (
        #[trigger] entries.skip(1)[i]).0 != e.0 by {
            assert(entries.skip(1)[i] == entries[i + 1]);
        }
        lemma_pinned_append(entries.skip(1), host, e);
    }
}

proof fn lemma_pinned_append_other(entries: Seq<TrustEntry>, host: Seq<char>, e: TrustEntry)
    requires
        host != e.0,
    ensures
        pinned(entries.push(e), host) == pinned(entries, host),
    decreases entries.len(),
{
    let longer = entries.push(e);
    if entries.len() > 0 {
        assert(longer[0] == entries[0]);
        assert(longer.skip(1) =~= entries.skip(1).push(e));
        lemma_pinned_append_other(entries.skip(1), host, e);
    } else {
        assert(pinned(longer.skip(1), host) is None);
        assert(longer[0] == e);
    }
}

/// A host that no entry names is known by the fingerprint it was pinned with
/// from then on, and what the file says of other hosts does not change.
pub proof fn law_pinning_a_host_is_remembered(
    file: Seq<char>,
    host: Seq<char>,
    fingerprint: Seq<char>,
    other: Seq<char>,
)
    requires
        file.len() == 0 || file.last() == '\n',
        one_word(host),
        host[0] != '#',
        one_word(fingerprint),
        forall|i: int|
            0 <= i < trust_entries(text::lines(file)).len() ==> (
            #[trigger] trust_entries(text::lines(file))[i]).0 != host,
        other != host,
    ensures
        ({
            let grown = file + pin_line(host, fingerprint).push('\n');
            known_fingerprint(grown, host) == Some(fingerprint) && known_fingerprint(grown, other)
                == known_fingerprint(file, other)
        }),
{
    let line = pin_line(host, fingerprint);
    assert forall|i: int| 0 <= i < line.len() implies line[i] != '\n' && line[i] != '\r' by {
        if i < host.len() {
            assert(line[i] == host[i]);
            assert(!text::is_white(host[i]));
        } else if i > host.len() {
            assert(line[i] == fingerprint[i - host.len() - 1]);
            assert(!text::is_white(fingerprint[i - host.len() - 1]));
        }
    }
    text::lemma_lines_append(file, line);
    text::lemma_two_words(host, fingerprint);
    let old_lines = text::lines(file);
    let new_lines = old_lines.push(line);
    assert(new_lines.drop_last() =~= old_lines);
    let e = (host, Some(fingerprint));
    assert(trust_entry(line) == Some(e));
    assert(trust_entries(new_lines) == trust_entries(old_lines).push(e));
    lemma_pinned_append(trust_entries(old_lines), host, e);
    lemma_pinned_append_other(trust_entries(old_lines), other, e);
}

/// The first words of the entries, each once, in the order they first come.
pub open spec fn fingerprints(entries: Seq<TrustEntry>) -> Seq<Seq<char>>
    decreases entries.len(),
{
    if entries.len() == 0 {
        seq![]
    } else {
        let front = fingerprints(entries.drop_last());
        if front.contains(entries.last().0) {
            front
        } else {
            front.push(entries.last().0)
        }
    }
}

/// The set of client fingerprints the supervisor will admit: no fingerprint
/// twice.
pub fn load_authorized_fingerprints(file: &str) -> (r: Vec<String>)
    ensures
        text::texts(r@) == fingerprints(trust_entries(text::lines(file@))),
{
    let entries = read_trust_lines(file);
    let ghost all = entries_of(entries@);
    let mut out: Vec<String> = Vec::new();
    let mut i: usize = 0;
    assert(text::texts(out@) =~= seq![]);
    while i < entries.len()
        invariant
            i <= entries.len(),
            all == entries_of(entries@),
            text::texts(out@) == fingerprints(all.take(i as int)),
        decreases entries.len() - i,
    {
        let ghost before = out@;
        assert(all.take(i + 1).drop_last() =~= all.take(i as int));
        assert(all.take(i + 1).last() == all[i as int]);
        if !has_text(&out, entries[i].0.as_str()) {
            out.push(entries[i].0.clone());
            assert(text::texts(out@) =~= text::texts(before).push(all[i as int].0));
        }
        i += 1;
    }
    assert(all.take(all.len() as int) =~= all);
    out
}

/// A fingerprint is admitted if and only if some entry starts with it, and none
/// is listed twice.
pub proof fn law_authorized_are_the_first_words(entries: Seq<TrustEntry>, fp: Seq<char>)
    ensures
        fingerprints(entries).contains(fp) <==> exists|i: int|
            0 <= i < entries.len() && (#[trigger] entries[i]).0 == fp,
        fingerprints(entries).no_duplicates(),
    decreases entries.len(),
{
    if entries.len() > 0 {
        let front = entries.drop_last();
        let last = entries.last().0;
        law_authorized_are_the_first_words(front, fp);
        law_authorized_are_the_first_words(front, last);
        let before = fingerprints(front);
        let now = fingerprints(entries);
        assert(entries[entries.len() - 1].0 == last);
        if exists|i: int| 0 <= i < front.len() && (#[trigger] front[i]).0 == fp {
            let i = choose|i: int| 0 <= i < front.len() && (#[trigger] front[i]).0 == fp;
            assert(entries[i].0 == fp);
        }
        if exists|i: int| 0 <= i < entries.len() && (#[trigger] entries[i]).0 == fp {
            let i = choose|i: int| 0 <= i < entries.len() && (#[trigger] entries[i]).0 == fp;
            if i < front.len() {
                assert(front[i].0 == fp);
            }
        }
        if !before.contains(last) {
            assert(now[before.len() as int] == last);
            if before.contains(fp) {
                let k = choose|k: int| 0 <= k < before.len() && before[k] == fp;
                assert(now[k] == fp);
            }
            if now.contains(fp) && fp != last {
                let k = choose|k: int| 0 <= k < now.len() && now[k] == fp;
                assert(before[k] == fp);
            }
        }
    }
}

} // verus!
