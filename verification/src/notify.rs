//! The outward notification vocabulary: everything the event router hands to
//! the frontend layer, plus the persistence action for session identifiers.
//! The caller performs the actual emission and disk write.

use vstd::prelude::*;

verus! {

use crate::json::Json;
use crate::json::JsonModel;
use crate::json::jmodel;
use crate::claude::runner::QuestionData;
use crate::claude::runner::QuestionModel;
use crate::claude::runner::q_models;

/// Payload of the generic tool-used notification.
pub struct ToolUseEvent {
    pub tool: String,
    pub input: Json,
}

/// Payload of the plan-exit-request notification; the identifier correlates
/// the eventual reply.
pub struct ExitPlanModeEvent {
    pub tool_use_id: String,
}

/// Payload of the ask-question notification; the identifier correlates the
/// eventual reply.
pub struct AskUserQuestionEvent {
    pub question_id: String,
    pub questions: Vec<QuestionData>,
}

/// Payload of the subagent-start notification.
pub struct SubagentStartEvent {
    pub task_id: String,
    pub description: String,
}

/// Payload of the subagent-end notification.
pub struct SubagentEndEvent {
    pub task_id: String,
}

/// One outward effect of handling a stream event, in emission order.
pub enum Notification {
    /// Write the identifier to the first backend's session file; not user-facing.
    PersistSession { session_id: String },
    /// Write the identifier to the second backend's session file; not user-facing.
    PersistCodexSession { session_id: String },
    /// Session-info notification for the frontend.
    SessionInfo { session_id: String },
    /// Streaming text, verbatim.
    AgentStream { text: String },
    /// Emotion change, carrying the raw tool arguments unchanged.
    AgentEmotion { input: Json },
    /// Movement command, carrying the raw tool arguments unchanged.
    MascotMove { input: Json },
    /// Generic tool-used notification, emitted for every tool invocation.
    AgentToolUse(ToolUseEvent),
    /// A plan-exit confirmation is awaited; the turn stays open.
    AgentExitPlanMode(ExitPlanModeEvent),
    /// A multiple-choice answer is awaited; the turn stays open.
    AgentAskQuestion(AskUserQuestionEvent),
    /// A nested subagent started.
    SubagentStart(SubagentStartEvent),
    /// A nested subagent was closed out at turn boundary.
    SubagentEnd(SubagentEndEvent),
    /// Final turn result with success flag and accumulated text.
    AgentResult { success: bool, text: String },
    /// Turn-level error with the backend-supplied or generated reason.
    AgentError { error: String },
}

/// Ghost model of a notification, over sequences.
pub enum NotificationModel {
    PersistSession { session_id: Seq<char> },
    PersistCodexSession { session_id: Seq<char> },
    SessionInfo { session_id: Seq<char> },
    AgentStream { text: Seq<char> },
    AgentEmotion { input: JsonModel },
    MascotMove { input: JsonModel },
    AgentToolUse { tool: Seq<char>, input: JsonModel },
    AgentExitPlanMode { tool_use_id: Seq<char> },
    AgentAskQuestion { question_id: Seq<char>, questions: Seq<QuestionModel> },
    SubagentStart { task_id: Seq<char>, description: Seq<char> },
    SubagentEnd { task_id: Seq<char> },
    AgentResult { success: bool, text: Seq<char> },
    AgentError { error: Seq<char> },
}

/// The ghost model of a notification.
pub open spec fn note_model(n: Notification) -> NotificationModel {
    match n {
        Notification::PersistSession { session_id } => NotificationModel::PersistSession {
            session_id: session_id@,
        },
        Notification::PersistCodexSession { session_id } => NotificationModel::PersistCodexSession {
            session_id: session_id@,
        },
        Notification::SessionInfo { session_id } => NotificationModel::SessionInfo {
            session_id: session_id@,
        },
        Notification::AgentStream { text } => NotificationModel::AgentStream { text: text@ },
        Notification::AgentEmotion { input } => NotificationModel::AgentEmotion {
            input: jmodel(input),
        },
        Notification::MascotMove { input } => NotificationModel::MascotMove {
            input: jmodel(input),
        },
        Notification::AgentToolUse(e) => NotificationModel::AgentToolUse {
            tool: e.tool@,
            input: jmodel(e.input),
        },
        Notification::AgentExitPlanMode(e) => NotificationModel::AgentExitPlanMode {
            tool_use_id: e.tool_use_id@,
        },
        Notification::AgentAskQuestion(e) => NotificationModel::AgentAskQuestion {
            question_id: e.question_id@,
            questions: q_models(e.questions@),
        },
        Notification::SubagentStart(e) => NotificationModel::SubagentStart {
            task_id: e.task_id@,
            description: e.description@,
        },
        Notification::SubagentEnd(e) => NotificationModel::SubagentEnd { task_id: e.task_id@ },
        Notification::AgentResult { success, text } => NotificationModel::AgentResult {
            success,
            text: text@,
        },
        Notification::AgentError { error } => NotificationModel::AgentError { error: error@ },
    }
}

/// The ghost models of a notification list, in order.
pub open spec fn note_models(s: Seq<Notification>) -> Seq<NotificationModel>
    decreases s,
{
    if s.len() == 0 {
        Seq::empty()
    } else {
        note_models(s.drop_last()).push(note_model(s.last()))
    }
}

/// `note_models` of one more notification appends that notification's model.
pub proof fn lemma_note_models_push(s: Seq<Notification>, n: Notification)
    ensures
        note_models(s.push(n)) == note_models(s).push(note_model(n)),
{
    assert(s.push(n).drop_last() =~= s);
    assert(s.push(n).last() == n);
}

/// `note_models` distributes over concatenation.
pub proof fn lemma_note_models_concat(a: Seq<Notification>, b: Seq<Notification>)
    ensures
        note_models(a + b) == note_models(a) + note_models(b),
    decreases b,
{
    if b.len() == 0 {
        assert(a + b =~= a);
        assert(note_models(a) + note_models(b) =~= note_models(a));
    } else {
        assert((a + b).drop_last() =~= a + b.drop_last());
        assert((a + b).last() == b.last());
        lemma_note_models_concat(a, b.drop_last());
        assert(note_models(a + b) =~= note_models(a) + note_models(b));
    }
}

} // verus!
