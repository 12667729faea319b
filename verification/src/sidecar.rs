//! Sidecar-process support: where the helper script or executable may live,
//! and the dispatch of the sidecar's line-delimited JSON messages to
//! frontend notifications. Spawning the sidecar and reading its streams is
//! I/O and stays outside the library.

use vstd::prelude::*;

verus! {

use vstd::string::StringExecFns;
use crate::json::Json;
use crate::json::JsonModel;
use crate::json::jmodel;
use crate::json::json_of;
use crate::json::model_get;
use crate::json::obj_get;
use crate::json::as_str;
use crate::json::parse_json;
use crate::claude::runner::opt_view;
use crate::claude::runner::opt_str;
use crate::text::push_arg;
use crate::text::push_arg_string;
use crate::text::str_eq;

/// One outward effect of a sidecar message.
pub enum SidecarNotification {
    /// The sidecar announced readiness; nothing reaches the frontend.
    Ready,
    /// Streaming text, verbatim.
    Stream { text: String },
    /// Emotion change, carrying the whole message.
    Emotion { payload: Json },
    /// Walk-to-window command, carrying the whole message.
    WalkToWindow { payload: Json },
    /// Movement command, carrying the whole message.
    MascotMove { payload: Json },
    /// Write the identifier to the session file; not user-facing.
    PersistSession { session_id: String },
    /// Final turn result, carrying the whole message.
    TurnResult { payload: Json },
    /// Turn-level error, carrying the whole message.
    TurnError { payload: Json },
    /// A multiple-choice answer is awaited, carrying the whole message.
    AskQuestion { payload: Json },
    /// A message outside the known vocabulary, forwarded raw.
    Raw { line: String },
}

/// Ghost model of a sidecar notification.
pub enum SidecarNoteModel {
    Ready,
    Stream { text: Seq<char> },
    Emotion { payload: JsonModel },
    WalkToWindow { payload: JsonModel },
    MascotMove { payload: JsonModel },
    PersistSession { session_id: Seq<char> },
    TurnResult { payload: JsonModel },
    TurnError { payload: JsonModel },
    AskQuestion { payload: JsonModel },
    Raw { line: Seq<char> },
}

/// The ghost model of a sidecar notification.
pub open spec fn snote_model(n: SidecarNotification) -> SidecarNoteModel {
    match n {
        SidecarNotification::Ready => SidecarNoteModel::Ready,
        SidecarNotification::Stream { text } => SidecarNoteModel::Stream { text: text@ },
        SidecarNotification::Emotion { payload } => SidecarNoteModel::Emotion {
            payload: jmodel(payload),
        },
        SidecarNotification::WalkToWindow { payload } => SidecarNoteModel::WalkToWindow {
            payload: jmodel(payload),
        },
        SidecarNotification::MascotMove { payload } => SidecarNoteModel::MascotMove {
            payload: jmodel(payload),
        },
        SidecarNotification::PersistSession { session_id } => SidecarNoteModel::PersistSession {
            session_id: session_id@,
        },
        SidecarNotification::TurnResult { payload } => SidecarNoteModel::TurnResult {
            payload: jmodel(payload),
        },
        SidecarNotification::TurnError { payload } => SidecarNoteModel::TurnError {
            payload: jmodel(payload),
        },
        SidecarNotification::AskQuestion { payload } => SidecarNoteModel::AskQuestion {
            payload: jmodel(payload),
        },
        SidecarNotification::Raw { line } => SidecarNoteModel::Raw { line: line@ },
    }
}

/// The ghost models of a sidecar notification list, in order.
pub open spec fn snote_models(s: Seq<SidecarNotification>) -> Seq<SidecarNoteModel>
    decreases s,
{
    if s.len() == 0 {
        Seq::empty()
    } else {
        snote_models(s.drop_last()).push(snote_model(s.last()))
    }
}

/// The message tag of a parsed sidecar line, empty when absent.
pub open spec fn spec_msg_type(m: JsonModel) -> Seq<char> {
    match opt_str(model_get(m, "type"@)) {
        Some(t) => t,
        None => Seq::empty(),
    }
}

/// The notifications one sidecar line produces: a known tag routes its
/// message, an unknown one is forwarded raw, and a line that is not one
/// JSON document is dropped without aborting the read loop.
pub open spec fn spec_sidecar_notes(line: Seq<char>) -> Seq<SidecarNoteModel> {
    match json_of(line) {
        None => Seq::empty(),
        Some(m) => {
            let t = spec_msg_type(m);
            if t == "ready"@ {
                seq![SidecarNoteModel::Ready]
            } else if t == "stream"@ {
                match opt_str(model_get(m, "text"@)) {
                    Some(s) => seq![SidecarNoteModel::Stream { text: s }],
                    None => Seq::empty(),
                }
            } else if t == "emotion"@ {
                seq![SidecarNoteModel::Emotion { payload: m }]
            } else if t == "walk_to_window"@ {
                seq![SidecarNoteModel::WalkToWindow { payload: m }]
            } else if t == "move"@ {
                seq![SidecarNoteModel::MascotMove { payload: m }]
            } else if t == "result"@ {
                (match opt_str(model_get(m, "sessionId"@)) {
                    Some(sid) => seq![SidecarNoteModel::PersistSession { session_id: sid }],
                    None => Seq::<SidecarNoteModel>::empty(),
                }) + seq![SidecarNoteModel::TurnResult { payload: m }]
            } else if t == "error"@ {
                seq![SidecarNoteModel::TurnError { payload: m }]
            } else if t == "ask-question"@ {
                seq![SidecarNoteModel::AskQuestion { payload: m }]
            } else {
                seq![SidecarNoteModel::Raw { line }]
            }
        },
    }
}

/// The session identifier after one sidecar line: a result carrying one
/// replaces it; everything else keeps it.
pub open spec fn spec_sidecar_session_after(
    line: Seq<char>,
    old_sid: Option<Seq<char>>,
) -> Option<Seq<char>> {
    match json_of(line) {
        Some(m) => if spec_msg_type(m) == "result"@ {
            match opt_str(model_get(m, "sessionId"@)) {
                Some(sid) => Some(sid),
                None => old_sid,
            }
        } else {
            old_sid
        },
        None => old_sid,
    }
}

/// Whether the retained query input handle stays open after one sidecar
/// line: a terminal result or error closes the query.
pub open spec fn spec_sidecar_stdin_after(line: Seq<char>, old_open: bool) -> bool {
    match json_of(line) {
        Some(m) => if spec_msg_type(m) == "result"@ || spec_msg_type(m) == "error"@ {
            false
        } else {
            old_open
        },
        None => old_open,
    }
}

/// Dispatch one line of the sidecar's output: update the session store and
/// the retained-input flag, and return the notifications to emit, in order.
pub fn handle_sidecar_line(
    state: &mut crate::state::AppState,
    stdin_open: &mut bool,
    line: &str,
) -> (r: Vec<SidecarNotification>)
    ensures
        snote_models(r@) == spec_sidecar_notes(line@),
        opt_view(final(state).session_id) == spec_sidecar_session_after(
            line@,
            opt_view(old(state).session_id),
        ),
        *final(stdin_open) == spec_sidecar_stdin_after(line@, *old(stdin_open)),
        final(state).backend_mode == old(state).backend_mode,
        final(state).codex_session_id == old(state).codex_session_id,
        final(state).dev_mode == old(state).dev_mode,
        final(state).supiki_mode == old(state).supiki_mode,
        final(state).sidecar_cwd == old(state).sidecar_cwd,
        final(state).recent_cwds == old(state).recent_cwds,
{
    let mut out: Vec<SidecarNotification> = Vec::new();
    proof {
        assert(snote_models(out@) =~= Seq::<SidecarNoteModel>::empty());
    }
    let j = match parse_json(line) {
        Some(j) => j,
        None => {
            return out;
        },
    };
    let t: String = match obj_get(&j, "type") {
        Some(tv) => match as_str(tv) {
            Some(s) => s.clone(),
            None => String::new(),
        },
        None => String::new(),
    };
    proof {
        assert(t@ == spec_msg_type(jmodel(j)));
        reveal_strlit("ready");
        reveal_strlit("stream");
        reveal_strlit("emotion");
        reveal_strlit("walk_to_window");
        reveal_strlit("move");
        reveal_strlit("result");
        reveal_strlit("error");
        reveal_strlit("ask-question");
        assert("ready"@.len() == 5);
        assert("stream"@.len() == 6);
        assert("emotion"@.len() == 7);
        assert("walk_to_window"@.len() == 14);
        assert("move"@.len() == 4);
        assert("result"@.len() == 6);
        assert("error"@.len() == 5);
        assert("ask-question"@.len() == 12);
        assert("ready"@[0] == 'r' && "result"@[0] == 'r' && "error"@[0] == 'e');
        assert("ready"@[1] == 'e' && "result"@[1] == 'e');
        assert("ready"@[2] == 'a' && "result"@[2] == 's');
        assert("ready"@ != "error"@ && "ready"@ != "result"@);
        assert("stream"@ != "result"@);
        assert("emotion"@ != "ask-question"@);
        assert("move"@ != "ready"@);
        assert("result"@ != "error"@);
    }
    if str_eq(t.as_str(), "ready") {
        out.push(SidecarNotification::Ready);
        proof {
            assert(out@.drop_last() =~= Seq::<SidecarNotification>::empty());
            assert(snote_models(out@) =~= spec_sidecar_notes(line@));
        }
        out
    } else if str_eq(t.as_str(), "stream") {
        match obj_get(&j, "text") {
            Some(tv) => match as_str(tv) {
                Some(s) => {
                    out.push(SidecarNotification::Stream { text: s.clone() });
                    proof {
                        assert(out@.drop_last() =~= Seq::<SidecarNotification>::empty());
                        assert(snote_models(out@) =~= spec_sidecar_notes(line@));
                    }
                },
                None => {},
            },
            None => {},
        }
        out
    } else if str_eq(t.as_str(), "emotion") {
        out.push(SidecarNotification::Emotion { payload: j });
        proof {
            assert(out@.drop_last() =~= Seq::<SidecarNotification>::empty());
            assert(snote_models(out@) =~= spec_sidecar_notes(line@));
        }
        out
    } else if str_eq(t.as_str(), "walk_to_window") {
        out.push(SidecarNotification::WalkToWindow { payload: j });
        proof {
            assert(out@.drop_last() =~= Seq::<SidecarNotification>::empty());
            assert(snote_models(out@) =~= spec_sidecar_notes(line@));
        }
        out
    } else if str_eq(t.as_str(), "move") {
        out.push(SidecarNotification::MascotMove { payload: j });
        proof {
            assert(out@.drop_last() =~= Seq::<SidecarNotification>::empty());
            assert(snote_models(out@) =~= spec_sidecar_notes(line@));
        }
        out
    } else if str_eq(t.as_str(), "result") {
        match obj_get(&j, "sessionId") {
            Some(sv) => match as_str(sv) {
                Some(sid) => {
                    state.set_session_id(sid.clone());
                    out.push(SidecarNotification::PersistSession { session_id: sid.clone() });
                    proof {
                        assert(out@.drop_last() =~= Seq::<SidecarNotification>::empty());
                        assert(snote_models(out@) =~= seq![
                            SidecarNoteModel::PersistSession { session_id: sid@ },
                        ]);
                    }
                },
                None => {},
            },
            None => {},
        }
        let ghost pre = out@;
        out.push(SidecarNotification::TurnResult { payload: j });
        *stdin_open = false;
        proof {
            assert(out@.drop_last() =~= pre);
            assert(snote_models(out@) =~= spec_sidecar_notes(line@));
        }
        out
    } else if str_eq(t.as_str(), "error") {
        out.push(SidecarNotification::TurnError { payload: j });
        *stdin_open = false;
        proof {
            assert(out@.drop_last() =~= Seq::<SidecarNotification>::empty());
            assert(snote_models(out@) =~= spec_sidecar_notes(line@));
        }
        out
    } else if str_eq(t.as_str(), "ask-question") {
        out.push(SidecarNotification::AskQuestion { payload: j });
        proof {
            assert(out@.drop_last() =~= Seq::<SidecarNotification>::empty());
            assert(snote_models(out@) =~= spec_sidecar_notes(line@));
        }
        out
    } else {
        out.push(SidecarNotification::Raw { line: line.to_owned() });
        proof {
            assert(out@.drop_last() =~= Seq::<SidecarNotification>::empty());
            assert(snote_models(out@) =~= spec_sidecar_notes(line@));
        }
        out
    }
}

/// Build the line that carries a command to the running query's standard
/// input. With no query open it fails, and nothing is written: the caller
/// only writes the line this hands back.
pub fn send_to_current_query(stdin_open: bool, cmd_json: &str) -> (r: Result<String, String>)
    ensures
        stdin_open ==> (r matches Ok(m) && m@ == cmd_json@ + "\n"@),
        !stdin_open ==> (r matches Err(e) && e@ == "No active query to send command to"@),
{
    if !stdin_open {
        return Err(String::from_str("No active query to send command to"));
    }
    let m = cmd_json.to_owned().concat("\n");
    Ok(m)
}

/// The candidate locations of the bundled sidecar script, checked first.
pub fn sidecar_bundled_candidates(exe_dir: &str) -> (r: Vec<String>)
    ensures
        r.deep_view() == seq![
            exe_dir@ + "/resources/agent-sidecar.cjs"@,
            exe_dir@ + "/agent-sidecar.cjs"@,
        ],
{
    let mut out: Vec<String> = Vec::new();
    push_arg_string(&mut out, exe_dir.to_owned().concat("/resources/agent-sidecar.cjs"));
    push_arg_string(&mut out, exe_dir.to_owned().concat("/agent-sidecar.cjs"));
    proof {
        assert(out.deep_view() =~= seq![
            exe_dir@ + "/resources/agent-sidecar.cjs"@,
            exe_dir@ + "/agent-sidecar.cjs"@,
        ]);
    }
    out
}

/// The candidate locations of the development sidecar script, checked
/// after the bundled ones, in order.
pub fn sidecar_dev_candidates(exe_dir: &str) -> (r: Vec<String>)
    ensures
        r.deep_view() == seq![
            exe_dir@ + "/sidecar/agent-sidecar.mjs"@,
            exe_dir@ + "/../../../sidecar/agent-sidecar.mjs"@,
            exe_dir@ + "/../../../../sidecar/agent-sidecar.mjs"@,
            "sidecar/agent-sidecar.mjs"@,
        ],
{
    let mut out: Vec<String> = Vec::new();
    push_arg_string(&mut out, exe_dir.to_owned().concat("/sidecar/agent-sidecar.mjs"));
    push_arg_string(&mut out, exe_dir.to_owned().concat("/../../../sidecar/agent-sidecar.mjs"));
    push_arg_string(
        &mut out,
        exe_dir.to_owned().concat("/../../../../sidecar/agent-sidecar.mjs"),
    );
    push_arg(&mut out, "sidecar/agent-sidecar.mjs");
    proof {
        assert(out.deep_view() =~= seq![
            exe_dir@ + "/sidecar/agent-sidecar.mjs"@,
            exe_dir@ + "/../../../sidecar/agent-sidecar.mjs"@,
            exe_dir@ + "/../../../../sidecar/agent-sidecar.mjs"@,
            "sidecar/agent-sidecar.mjs"@,
        ]);
    }
    out
}

/// The candidate locations of the bundled sidecar executable, checked
/// before any script.
pub fn sidecar_exe_candidates(exe_dir: &str) -> (r: Vec<String>)
    ensures
        r.deep_view() == seq![
            exe_dir@ + "/agent-sidecar.exe"@,
            exe_dir@ + "/sidecar/agent-sidecar.exe"@,
        ],
{
    let mut out: Vec<String> = Vec::new();
    push_arg_string(&mut out, exe_dir.to_owned().concat("/agent-sidecar.exe"));
    push_arg_string(&mut out, exe_dir.to_owned().concat("/sidecar/agent-sidecar.exe"));
    proof {
        assert(out.deep_view() =~= seq![
            exe_dir@ + "/agent-sidecar.exe"@,
            exe_dir@ + "/sidecar/agent-sidecar.exe"@,
        ]);
    }
    out
}

} // verus!
