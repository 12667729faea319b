//! Cross-turn application state: backend selection, session identifiers,
//! working-directory override, the recent-directories list, and the two
//! startup mode flags. Session file paths are computed here; writing the
//! files is I/O and stays outside the library.

use vstd::prelude::*;

verus! {

use vstd::string::StringExecFns;
use crate::text::contains_sub;

broadcast use vstd::string::group_string_axioms;
use crate::text::str_contains;
use crate::text::str_eq;

/// Which assistant backend serves the next turn.
#[derive(Debug, Clone, Copy, PartialEq, Eq, Structural, Default)]
pub enum BackendMode {
    #[default]
    Claude,
    Codex,
}

/// Maximum number of recent working directories that are remembered.
pub const MAX_RECENT_CWDS: usize = 5;

/// The predicate that keeps every entry other than `p`.
pub open spec fn keep_other(p: Seq<char>) -> spec_fn(Seq<char>) -> bool {
    |x: Seq<char>| x != p
}

/// The recent-directories list after inserting `p`: any prior occurrence of
/// `p` is removed, `p` is put at the front, and the list is cut to
/// `MAX_RECENT_CWDS` entries.
pub open spec fn spec_recent_insert(l: Seq<Seq<char>>, p: Seq<char>) -> Seq<Seq<char>> {
    let combined = seq![p] + l.filter(keep_other(p));
    if combined.len() > MAX_RECENT_CWDS as int {
        combined.take(MAX_RECENT_CWDS as int)
    } else {
        combined
    }
}

/// Mutable cross-turn state, owned by the caller and handed by reference to
/// whatever needs it; there are no ambient globals in the library.
pub struct AppState {
    /// Active backend for subsequent turns.
    pub backend_mode: BackendMode,
    /// Resumable session identifier of the first backend.
    pub session_id: Option<String>,
    /// Resumable thread identifier of the second backend.
    pub codex_session_id: Option<String>,
    /// Diagnostic developer mode, fixed at startup.
    pub dev_mode: bool,
    /// Alternate persona mode, fixed at startup.
    pub supiki_mode: bool,
    /// Working-directory override for spawned processes.
    pub sidecar_cwd: Option<String>,
    /// Most-recent-first, deduplicated, bounded list of chosen directories.
    pub recent_cwds: Vec<String>,
}

/// The state with the first backend's session identifier cleared.
pub open spec fn spec_clear_session(s: AppState) -> AppState {
    AppState { session_id: None, ..s }
}

/// The state with the second backend's thread identifier cleared.
pub open spec fn spec_clear_codex_session(s: AppState) -> AppState {
    AppState { codex_session_id: None, ..s }
}

/// The state with the first backend's session identifier set.
pub open spec fn spec_set_session(s: AppState, sid: String) -> AppState {
    AppState { session_id: Some(sid), ..s }
}

/// The state with the second backend's thread identifier set.
pub open spec fn spec_set_codex_session(s: AppState, sid: String) -> AppState {
    AppState { codex_session_id: Some(sid), ..s }
}

impl AppState {
    /// Fresh state: default backend, no sessions, no directory override,
    /// empty recent list, and the two startup flags as given. Session
    /// identifiers are deliberately not restored from disk at startup:
    /// every launch begins a new conversation, and the session files serve
    /// history only.
    pub fn new(dev_mode: bool, supiki_mode: bool) -> (r: Self)
        ensures
            r.backend_mode == BackendMode::Claude,
            r.session_id is None,
            r.codex_session_id is None,
            r.dev_mode == dev_mode,
            r.supiki_mode == supiki_mode,
            r.sidecar_cwd is None,
            r.recent_cwds.deep_view() == Seq::<Seq<char>>::empty(),
    {
        let r = AppState {
            backend_mode: BackendMode::Claude,
            session_id: None,
            codex_session_id: None,
            dev_mode,
            supiki_mode,
            sidecar_cwd: None,
            recent_cwds: Vec::new(),
        };
        proof {
            assert(r.recent_cwds.deep_view() =~= Seq::<Seq<char>>::empty());
        }
        r
    }

    /// Clear the first backend's session; the on-disk file is left alone.
    pub fn clear_session(&mut self)
        ensures
            *final(self) == spec_clear_session(*old(self)),
    {
        self.session_id = None;
    }

    /// Clear the second backend's thread; the on-disk file is left alone.
    pub fn clear_codex_session(&mut self)
        ensures
            *final(self) == spec_clear_codex_session(*old(self)),
    {
        self.codex_session_id = None;
    }

    /// Remember the first backend's session identifier.
    pub fn set_session_id(&mut self, sid: String)
        ensures
            *final(self) == spec_set_session(*old(self), sid),
    {
        self.session_id = Some(sid);
    }

    /// Remember the second backend's thread identifier.
    pub fn set_codex_session_id(&mut self, sid: String)
        ensures
            *final(self) == spec_set_codex_session(*old(self), sid),
    {
        self.codex_session_id = Some(sid);
    }

    /// Read the first backend's session identifier.
    pub fn get_session_id(&self) -> (r: Option<String>)
        ensures
            r == self.session_id,
    {
        match &self.session_id {
            Some(s) => Some(s.clone()),
            None => None,
        }
    }

    /// Read the second backend's thread identifier.
    pub fn get_codex_session_id(&self) -> (r: Option<String>)
        ensures
            r == self.codex_session_id,
    {
        match &self.codex_session_id {
            Some(s) => Some(s.clone()),
            None => None,
        }
    }

    /// Whether developer mode was chosen at startup.
    pub fn is_dev_mode(&self) -> (r: bool)
        ensures
            r == self.dev_mode,
    {
        self.dev_mode
    }

    /// Whether the alternate persona was chosen at startup.
    pub fn is_supiki_mode(&self) -> (r: bool)
        ensures
            r == self.supiki_mode,
    {
        self.supiki_mode
    }

    /// The active backend's name.
    pub fn get_backend_mode(&self) -> (r: String)
        ensures
            self.backend_mode == BackendMode::Claude ==> r@ == "primary"@,
            self.backend_mode == BackendMode::Codex ==> r@ == "codex"@,
    {
        match self.backend_mode {
            BackendMode::Claude => String::from_str("primary"),
            BackendMode::Codex => String::from_str("codex"),
        }
    }

    /// Select the active backend by name; any name but the two known ones is
    /// rejected and leaves the state unchanged.
    pub fn set_backend_mode(&mut self, mode: &str) -> (r: Result<(), String>)
        ensures
            mode@ == "primary"@ ==> r is Ok && *final(self) == (AppState {
                backend_mode: BackendMode::Claude,
                ..*old(self)
            }),
            mode@ == "codex"@ ==> r is Ok && *final(self) == (AppState {
                backend_mode: BackendMode::Codex,
                ..*old(self)
            }),
            mode@ != "primary"@ && mode@ != "codex"@ ==> (r matches Err(e) && *final(self)
                == *old(self) && e@ == "Invalid backend mode: "@ + mode@
                + ". Use 'primary' or 'codex'."@),
    {
        proof {
            reveal_strlit("primary");
            reveal_strlit("codex");
            assert("primary"@.len() == 7);
            assert("codex"@.len() == 5);
            assert("primary"@ != "codex"@);
        }
        if str_eq(mode, "primary") {
            self.backend_mode = BackendMode::Claude;
            Ok(())
        } else if str_eq(mode, "codex") {
            self.backend_mode = BackendMode::Codex;
            Ok(())
        } else {
            Err(
                String::from_str("Invalid backend mode: ").concat(mode).concat(
                    ". Use 'primary' or 'codex'.",
                ),
            )
        }
    }

    /// Read the working-directory override.
    pub fn get_sidecar_cwd(&self) -> (r: Option<String>)
        ensures
            r == self.sidecar_cwd,
    {
        match &self.sidecar_cwd {
            Some(s) => Some(s.clone()),
            None => None,
        }
    }

    /// The directory turns actually run in: the override when set, otherwise
    /// the process working directory the caller hands in.
    pub fn get_actual_cwd(&self, process_cwd: String) -> (r: String)
        ensures
            match self.sidecar_cwd {
                Some(c) => r == c,
                None => r == process_cwd,
            },
    {
        match &self.sidecar_cwd {
            Some(c) => c.clone(),
            None => process_cwd,
        }
    }

    /// Read the recent-directories list, most recent first.
    pub fn get_recent_cwds(&self) -> (r: Vec<String>)
        ensures
            r.deep_view() == self.recent_cwds.deep_view(),
    {
        let r = self.recent_cwds.clone();
        proof {
            assert(forall|i: int|
                0 <= i < self.recent_cwds@.len() ==> r@[i] == self.recent_cwds@[i]);
            assert(r.deep_view() =~= self.recent_cwds.deep_view());
        }
        r
    }

    /// Set the working-directory override. The caller reports whether the
    /// path names an existing directory; a path that does not is rejected
    /// with a descriptive error and the state is untouched. On success the
    /// recent list is updated and both backends' sessions are cleared: a
    /// directory change always starts a fresh conversation.
    pub fn set_sidecar_cwd(&mut self, path: String, path_is_dir: bool) -> (r: Result<(), String>)
        ensures
            !path_is_dir ==> (r matches Err(e) && *final(self) == *old(self) && e@
                == "Directory does not exist: "@ + path@),
            path_is_dir ==> r is Ok
                && final(self).sidecar_cwd == Some(path)
                && final(self).session_id is None
                && final(self).codex_session_id is None
                && final(self).recent_cwds.deep_view() == spec_recent_insert(
                    old(self).recent_cwds.deep_view(),
                    path@,
                )
                && final(self).backend_mode == old(self).backend_mode
                && final(self).dev_mode == old(self).dev_mode
                && final(self).supiki_mode == old(self).supiki_mode,
    {
        if !path_is_dir {
            return Err(String::from_str("Directory does not exist: ").concat(path.as_str()));
        }
        let ghost l = self.recent_cwds.deep_view();
        let ghost p = path@;
        let mut updated: Vec<String> = Vec::new();
        updated.push(path.clone());
        proof {
            reveal(Seq::filter);
            assert(updated.deep_view() =~= seq![p] + l.take(0).filter(keep_other(p)));
        }
        let n: usize = self.recent_cwds.len();
        let mut i: usize = 0;
        while i < n
            invariant
                n == self.recent_cwds@.len(),
                l == self.recent_cwds.deep_view(),
                p == path@,
                i <= n,
                updated@.len() <= i + 1,
                updated.deep_view() == {
                    let combined = seq![p] + l.take(i as int).filter(keep_other(p));
                    if combined.len() > MAX_RECENT_CWDS as int {
                        combined.take(MAX_RECENT_CWDS as int)
                    } else {
                        combined
                    }
                },
            decreases n - i,
        {
            let ghost combined_pre = seq![p] + l.take(i as int).filter(keep_other(p));
            let entry: &String = &self.recent_cwds[i];
            let keep = !str_eq(entry.as_str(), path.as_str());
            proof {
                reveal(Seq::filter);
                assert(l.take(i + 1).drop_last() =~= l.take(i as int));
                assert(l.take(i + 1).last() == l[i as int]);
                assert(l[i as int] == entry@);
            }
            if keep && updated.len() < MAX_RECENT_CWDS {
                proof {
                    assert(updated.deep_view().len() == updated@.len());
                    assert(updated.deep_view() == combined_pre);
                }
                let ghost pre_deep = updated.deep_view();
                updated.push(entry.clone());
                proof {
                    assert(updated.deep_view() =~= pre_deep.push(entry@));
                    assert(seq![p] + l.take(i + 1).filter(keep_other(p))
                        =~= combined_pre.push(entry@));
                }
            } else {
                proof {
                    let combined_post = seq![p] + l.take(i + 1).filter(keep_other(p));
                    if keep {
                        assert(combined_post =~= combined_pre.push(entry@));
                        assert(combined_pre.len() >= MAX_RECENT_CWDS as int);
                        assert(combined_post.take(MAX_RECENT_CWDS as int) =~= combined_pre.take(
                            MAX_RECENT_CWDS as int,
                        ));
                    } else {
                        assert(combined_post =~= combined_pre);
                    }
                }
            }
            i = i + 1;
        }
        proof {
            assert(l.take(n as int) == l);
        }
        self.recent_cwds = updated;
        self.sidecar_cwd = Some(path);
        self.session_id = None;
        self.codex_session_id = None;
        Ok(())
    }
}

/// Law: right after an insert, the inserted path stands at the front and
/// nowhere else, and the list never exceeds its bound.
pub proof fn lemma_recent_insert_dedup(l: Seq<Seq<char>>, p: Seq<char>)
    ensures
        spec_recent_insert(l, p).len() >= 1,
        spec_recent_insert(l, p)[0] == p,
        forall|i: int| 1 <= i < spec_recent_insert(l, p).len() ==> spec_recent_insert(l, p)[i] != p,
        spec_recent_insert(l, p).len() <= MAX_RECENT_CWDS as int,
{
    let filtered = l.filter(keep_other(p));
    let combined = seq![p] + filtered;
    assert forall|i: int| 1 <= i < spec_recent_insert(l, p).len() implies spec_recent_insert(
        l,
        p,
    )[i] != p by {
        assert(spec_recent_insert(l, p)[i] == filtered[i - 1]);
        l.lemma_filter_pred(keep_other(p), i - 1);
    }
}

/// Law: inserting a new distinct path into a full list keeps the newest
/// five entries; the oldest one drops off the end.
pub proof fn lemma_recent_insert_drops_oldest(l: Seq<Seq<char>>, p: Seq<char>)
    requires
        l.len() == MAX_RECENT_CWDS as int,
        forall|i: int| 0 <= i < l.len() ==> l[i] != p,
    ensures
        spec_recent_insert(l, p) == seq![p] + l.take(MAX_RECENT_CWDS as int - 1),
{
    lemma_filter_all_kept(l, p);
    let combined = seq![p] + l;
    assert(combined.len() == MAX_RECENT_CWDS as int + 1);
    assert(spec_recent_insert(l, p) =~= seq![p] + l.take(MAX_RECENT_CWDS as int - 1));
}

/// A filter that keeps every element returns the sequence unchanged.
proof fn lemma_filter_all_kept(l: Seq<Seq<char>>, p: Seq<char>)
    requires
        forall|i: int| 0 <= i < l.len() ==> l[i] != p,
    ensures
        l.filter(keep_other(p)) == l,
    decreases l.len(),
{
    reveal(Seq::filter);
    if l.len() == 0 {
        assert(l.filter(keep_other(p)) =~= l);
    } else {
        lemma_filter_all_kept(l.drop_last(), p);
        assert(l.filter(keep_other(p)) =~= l);
    }
}

/// Law: a session identifier set and then cleared reads back as absent.
pub proof fn lemma_clear_after_set(s: AppState, sid: String)
    ensures
        spec_clear_session(spec_set_session(s, sid)).session_id is None,
        spec_clear_codex_session(spec_set_codex_session(s, sid)).codex_session_id is None,
{
}

/// Whether any argument token equals `t`.
pub open spec fn has_arg(args: Seq<Seq<char>>, t: Seq<char>) -> bool {
    exists|i: int| 0 <= i < args.len() && args[i] == t
}

/// Decide developer mode from the executable name, the argument list and an
/// environment value, in that order; any match turns it on.
pub fn dev_mode_from(exe_stem: &str, args: &Vec<String>, env_val: Option<&String>) -> (r: bool)
    ensures
        r == (contains_sub(exe_stem@, "_dev"@) || contains_sub(exe_stem@, "-dev"@) || has_arg(
            args.deep_view(),
            "--dev"@,
        ) || (match env_val {
            Some(v) => v@ == "1"@,
            None => false,
        })),
{
    if str_contains(exe_stem, "_dev") || str_contains(exe_stem, "-dev") {
        return true;
    }
    let n: usize = args.len();
    let mut i: usize = 0;
    while i < n
        invariant
            n == args@.len(),
            i <= n,
            forall|j: int| 0 <= j < i ==> args.deep_view()[j] != "--dev"@,
        decreases n - i,
    {
        if str_eq(args[i].as_str(), "--dev") {
            proof {
                assert(args.deep_view()[i as int] == "--dev"@);
            }
            return true;
        }
        i = i + 1;
    }
    match env_val {
        Some(v) => str_eq(v.as_str(), "1"),
        None => false,
    }
}

/// Decide the alternate persona mode from the executable name.
pub fn supiki_mode_from(exe_stem: &str) -> (r: bool)
    ensures
        r == contains_sub(exe_stem@, "supiki"@),
{
    str_contains(exe_stem, "supiki")
}

/// Relies on `dirs::data_local_dir`: the per-user local data directory, if
/// the platform defines one; the result depends on the environment.
#[verifier::external_body]
fn data_local_dir_string() -> (r: Option<String>)
{
    dirs::data_local_dir().map(|p| p.to_string_lossy().to_string())
}

/// The first backend's session file inside a given data directory.
pub fn session_path_of(dir: &str) -> (r: String)
    ensures
        r@ == dir@ + "/supiki/session.txt"@,
{
    dir.to_owned().concat("/supiki/session.txt")
}

/// The second backend's thread file inside a given data directory.
pub fn codex_session_path_of(dir: &str) -> (r: String)
    ensures
        r@ == dir@ + "/supiki/codex-session.txt"@,
{
    dir.to_owned().concat("/supiki/codex-session.txt")
}

/// Where the first backend's session identifier is persisted: a single-line
/// file under the per-application local data directory. The directory comes
/// from the environment, so nothing exact can be said of it; everything
/// after it is `session_path_of`, which is.
pub fn get_session_file_path() -> (r: Option<String>)
    ensures
        match r {
            Some(p) => exists|dir: Seq<char>| p@ == dir + "/supiki/session.txt"@,
            None => true,
        },
{
    match data_local_dir_string() {
        Some(d) => {
            let p = session_path_of(d.as_str());
            proof {
                assert(p@ == d@ + "/supiki/session.txt"@);
            }
            Some(p)
        },
        None => None,
    }
}

/// Where the second backend's thread identifier is persisted; as
/// `get_session_file_path`, over `codex_session_path_of`.
pub fn get_codex_session_file_path() -> (r: Option<String>)
    ensures
        match r {
            Some(p) => exists|dir: Seq<char>| p@ == dir + "/supiki/codex-session.txt"@,
            None => true,
        },
{
    match data_local_dir_string() {
        Some(d) => {
            let p = codex_session_path_of(d.as_str());
            proof {
                assert(p@ == d@ + "/supiki/codex-session.txt"@);
            }
            Some(p)
        },
        None => None,
    }
}

} // verus!
