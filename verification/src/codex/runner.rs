//! Stream-event handling for the second assistant CLI: its JSONL event
//! vocabulary, the classifier from parsed JSON lines to events, and the
//! router that turns events into frontend notifications while accumulating
//! the turn's text.

use vstd::prelude::*;

verus! {

use vstd::string::StringExecFns;
use crate::json::Json;
use crate::json::JsonModel;
use crate::json::jmodel;
use crate::json::jmodel_seq;
use crate::json::lemma_jmodel_seq;
use crate::json::model_get;
use crate::json::obj_get;
use crate::json::as_str;
use crate::json::as_arr;
use crate::claude::runner::opt_view;
use crate::claude::runner::opt_str_field;
use crate::claude::runner::get_opt_str_field;
use crate::notify::Notification;
use crate::notify::NotificationModel;
use crate::notify::ToolUseEvent;
use crate::notify::note_models;
use crate::notify::lemma_note_models_push;
use crate::text::str_eq;
use crate::text::str_contains;
use crate::text::contains_sub;

/// One event of the CLI's JSONL output.
pub enum CodexStreamEvent {
    /// A thread started; may announce the resumable thread identifier.
    ThreadStarted { thread_id: Option<String> },
    /// A turn started.
    TurnStarted { turn_id: Option<String> },
    /// A turn completed successfully.
    TurnCompleted { turn_id: Option<String> },
    /// A turn failed with a backend-supplied reason.
    TurnFailed { error: Option<String> },
    /// An item began streaming.
    ItemStarted { item: Option<CodexItem> },
    /// An item finished streaming.
    ItemCompleted { item: Option<CodexItem> },
    /// A backend error outside any turn.
    Error { message: Option<String> },
}

/// One item of a turn.
pub enum CodexItem {
    Message { content: Vec<CodexContent> },
    ToolCall { name: Option<String>, arguments: Option<Json> },
    ToolResult { content: Option<String> },
    Reasoning { content: Option<String> },
    McpToolCall {
        server: Option<String>,
        tool: Option<String>,
        arguments: Option<Json>,
        result: Option<Json>,
        error: Option<String>,
        status: Option<String>,
    },
    AgentMessage { text: Option<String> },
}

/// One content block of a message item.
pub enum CodexContent {
    Text { text: Option<String> },
    InputText { text: Option<String> },
    OutputText { text: Option<String> },
}

/// Ghost model of a content block.
pub enum CodexContentModel {
    Text { text: Option<Seq<char>> },
    InputText { text: Option<Seq<char>> },
    OutputText { text: Option<Seq<char>> },
}

/// Ghost model of an item.
pub enum CodexItemModel {
    Message { content: Seq<CodexContentModel> },
    ToolCall { name: Option<Seq<char>>, arguments: Option<JsonModel> },
    ToolResult { content: Option<Seq<char>> },
    Reasoning { content: Option<Seq<char>> },
    McpToolCall {
        server: Option<Seq<char>>,
        tool: Option<Seq<char>>,
        arguments: Option<JsonModel>,
        result: Option<JsonModel>,
        error: Option<Seq<char>>,
        status: Option<Seq<char>>,
    },
    AgentMessage { text: Option<Seq<char>> },
}

/// Ghost model of a stream event.
pub enum CodexEventModel {
    ThreadStarted { thread_id: Option<Seq<char>> },
    TurnStarted { turn_id: Option<Seq<char>> },
    TurnCompleted { turn_id: Option<Seq<char>> },
    TurnFailed { error: Option<Seq<char>> },
    ItemStarted { item: Option<CodexItemModel> },
    ItemCompleted { item: Option<CodexItemModel> },
    Error { message: Option<Seq<char>> },
}

/// The ghost model of an optional JSON argument value.
pub open spec fn opt_jmodel(o: Option<Json>) -> Option<JsonModel> {
    match o {
        Some(j) => Some(jmodel(j)),
        None => None,
    }
}

/// The ghost model of a content block.
pub open spec fn content_model(c: CodexContent) -> CodexContentModel {
    match c {
        CodexContent::Text { text } => CodexContentModel::Text { text: opt_view(text) },
        CodexContent::InputText { text } => CodexContentModel::InputText { text: opt_view(text) },
        CodexContent::OutputText { text } => CodexContentModel::OutputText {
            text: opt_view(text),
        },
    }
}

/// The ghost models of a content list, in order.
pub open spec fn contents_model(s: Seq<CodexContent>) -> Seq<CodexContentModel>
    decreases s,
{
    if s.len() == 0 {
        Seq::empty()
    } else {
        contents_model(s.drop_last()).push(content_model(s.last()))
    }
}

/// `contents_model` maps the list pointwise.
pub proof fn lemma_contents_model(s: Seq<CodexContent>)
    ensures
        contents_model(s).len() == s.len(),
        forall|i: int| 0 <= i < s.len() ==> contents_model(s)[i] == content_model(s[i]),
    decreases s,
{
    if s.len() > 0 {
        lemma_contents_model(s.drop_last());
    }
}

/// The ghost model of an item.
pub open spec fn item_model(it: CodexItem) -> CodexItemModel {
    match it {
        CodexItem::Message { content } => CodexItemModel::Message {
            content: contents_model(content@),
        },
        CodexItem::ToolCall { name, arguments } => CodexItemModel::ToolCall {
            name: opt_view(name),
            arguments: opt_jmodel(arguments),
        },
        CodexItem::ToolResult { content } => CodexItemModel::ToolResult {
            content: opt_view(content),
        },
        CodexItem::Reasoning { content } => CodexItemModel::Reasoning {
            content: opt_view(content),
        },
        CodexItem::McpToolCall { server, tool, arguments, result, error, status } => {
            CodexItemModel::McpToolCall {
                server: opt_view(server),
                tool: opt_view(tool),
                arguments: opt_jmodel(arguments),
                result: opt_jmodel(result),
                error: opt_view(error),
                status: opt_view(status),
            }
        },
        CodexItem::AgentMessage { text } => CodexItemModel::AgentMessage { text: opt_view(text) },
    }
}

/// The ghost model of a stream event.
pub open spec fn codex_event_model(e: CodexStreamEvent) -> CodexEventModel {
    match e {
        CodexStreamEvent::ThreadStarted { thread_id } => CodexEventModel::ThreadStarted {
            thread_id: opt_view(thread_id),
        },
        CodexStreamEvent::TurnStarted { turn_id } => CodexEventModel::TurnStarted {
            turn_id: opt_view(turn_id),
        },
        CodexStreamEvent::TurnCompleted { turn_id } => CodexEventModel::TurnCompleted {
            turn_id: opt_view(turn_id),
        },
        CodexStreamEvent::TurnFailed { error } => CodexEventModel::TurnFailed {
            error: opt_view(error),
        },
        CodexStreamEvent::ItemStarted { item } => CodexEventModel::ItemStarted {
            item: match item {
                Some(it) => Some(item_model(it)),
                None => None,
            },
        },
        CodexStreamEvent::ItemCompleted { item } => CodexEventModel::ItemCompleted {
            item: match item {
                Some(it) => Some(item_model(it)),
                None => None,
            },
        },
        CodexStreamEvent::Error { message } => CodexEventModel::Error {
            message: opt_view(message),
        },
    }
}

/// An optional JSON-valued field of a document model; an explicit null
/// counts as absent.
pub open spec fn opt_val(m: Option<JsonModel>) -> Option<JsonModel> {
    match m {
        Some(JsonModel::Null) => None,
        Some(v) => Some(v),
        None => None,
    }
}

/// What one element of a message content array means, or nothing for a
/// malformed element.
pub open spec fn spec_classify_content(m: JsonModel) -> Option<CodexContentModel> {
    match (model_get(m, "type"@), opt_str_field(model_get(m, "text"@))) {
        (Some(JsonModel::Str(t)), Some(text)) => if t == "text"@ {
            Some(CodexContentModel::Text { text })
        } else if t == "input_text"@ {
            Some(CodexContentModel::InputText { text })
        } else if t == "output_text"@ {
            Some(CodexContentModel::OutputText { text })
        } else {
            None
        },
        _ => None,
    }
}

/// The meanings of all elements of a content array; one malformed element
/// rejects the whole array.
pub open spec fn spec_classify_contents(items: Seq<JsonModel>) -> Option<Seq<CodexContentModel>>
    decreases items.len(),
{
    if items.len() == 0 {
        Some(Seq::empty())
    } else {
        match (spec_classify_content(items[0]), spec_classify_contents(items.drop_first())) {
            (Some(c), Some(rest)) => Some(seq![c] + rest),
            _ => None,
        }
    }
}

/// What an item document means, or nothing for a malformed item.
pub open spec fn spec_classify_item(m: JsonModel) -> Option<CodexItemModel> {
    match model_get(m, "type"@) {
        Some(JsonModel::Str(t)) => if t == "message"@ {
            match model_get(m, "content"@) {
                Some(JsonModel::Arr(items)) => match spec_classify_contents(items) {
                    Some(cs) => Some(CodexItemModel::Message { content: cs }),
                    None => None,
                },
                Some(_) => None,
                None => Some(CodexItemModel::Message { content: Seq::empty() }),
            }
        } else if t == "tool_call"@ {
            match opt_str_field(model_get(m, "name"@)) {
                Some(name) => Some(
                    CodexItemModel::ToolCall {
                        name,
                        arguments: opt_val(model_get(m, "arguments"@)),
                    },
                ),
                None => None,
            }
        } else if t == "tool_result"@ {
            match opt_str_field(model_get(m, "content"@)) {
                Some(content) => Some(CodexItemModel::ToolResult { content }),
                None => None,
            }
        } else if t == "reasoning"@ {
            match opt_str_field(model_get(m, "content"@)) {
                Some(content) => Some(CodexItemModel::Reasoning { content }),
                None => None,
            }
        } else if t == "mcp_tool_call"@ {
            match (
                opt_str_field(model_get(m, "server"@)),
                opt_str_field(model_get(m, "tool"@)),
                opt_str_field(model_get(m, "error"@)),
                opt_str_field(model_get(m, "status"@)),
            ) {
                (Some(server), Some(tool), Some(error), Some(status)) => Some(
                    CodexItemModel::McpToolCall {
                        server,
                        tool,
                        arguments: opt_val(model_get(m, "arguments"@)),
                        result: opt_val(model_get(m, "result"@)),
                        error,
                        status,
                    },
                ),
                _ => None,
            }
        } else if t == "agent_message"@ {
            match opt_str_field(model_get(m, "text"@)) {
                Some(text) => Some(CodexItemModel::AgentMessage { text }),
                None => None,
            }
        } else {
            None
        },
        _ => None,
    }
}

/// An optional item field of an event document: absent or null is no item;
/// a malformed present item rejects the whole line.
pub open spec fn spec_opt_item(m: Option<JsonModel>) -> Option<Option<CodexItemModel>> {
    match opt_val(m) {
        Some(v) => match spec_classify_item(v) {
            Some(it) => Some(Some(it)),
            None => None,
        },
        None => Some(None),
    }
}

/// What one parsed line of the CLI's output means, or nothing for a line
/// outside the schema. A malformed line never aborts the read loop; it is
/// discarded by the caller.
pub open spec fn spec_classify_codex(m: JsonModel) -> Option<CodexEventModel> {
    match model_get(m, "type"@) {
        Some(JsonModel::Str(t)) => if t == "thread.started"@ {
            match opt_str_field(model_get(m, "thread_id"@)) {
                Some(tid) => Some(CodexEventModel::ThreadStarted { thread_id: tid }),
                None => None,
            }
        } else if t == "turn.started"@ {
            match opt_str_field(model_get(m, "turn_id"@)) {
                Some(tid) => Some(CodexEventModel::TurnStarted { turn_id: tid }),
                None => None,
            }
        } else if t == "turn.completed"@ {
            match opt_str_field(model_get(m, "turn_id"@)) {
                Some(tid) => Some(CodexEventModel::TurnCompleted { turn_id: tid }),
                None => None,
            }
        } else if t == "turn.failed"@ {
            match opt_str_field(model_get(m, "error"@)) {
                Some(e) => Some(CodexEventModel::TurnFailed { error: e }),
                None => None,
            }
        } else if t == "item.started"@ {
            match spec_opt_item(model_get(m, "item"@)) {
                Some(it) => Some(CodexEventModel::ItemStarted { item: it }),
                None => None,
            }
        } else if t == "item.completed"@ {
            match spec_opt_item(model_get(m, "item"@)) {
                Some(it) => Some(CodexEventModel::ItemCompleted { item: it }),
                None => None,
            }
        } else if t == "error"@ {
            match opt_str_field(model_get(m, "message"@)) {
                Some(msg) => Some(CodexEventModel::Error { message: msg }),
                None => None,
            }
        } else {
            None
        },
        _ => None,
    }
}

/// Read an optional JSON-valued field of an object document; an explicit
/// null counts as absent.
fn get_opt_val(j: &Json, key: &str) -> (r: Option<Json>)
    ensures
        opt_jmodel(r) == opt_val(model_get(jmodel(*j), key@)),
{
    match obj_get(j, key) {
        Some(v) => match v {
            Json::Null => None,
            _ => Some(v.clone_json()),
        },
        None => None,
    }
}

/// Classify one element of a message content array.
fn classify_content(j: &Json) -> (r: Option<CodexContent>)
    ensures
        match r {
            Some(c) => spec_classify_content(jmodel(*j)) == Some(content_model(c)),
            None => spec_classify_content(jmodel(*j)) is None,
        },
{
    let t = match obj_get(j, "type") {
        Some(tv) => match as_str(tv) {
            Some(s) => s,
            None => {
                return None;
            },
        },
        None => {
            return None;
        },
    };
    proof {
        reveal_strlit("text");
        reveal_strlit("input_text");
        reveal_strlit("output_text");
        assert("text"@.len() == 4);
        assert("input_text"@.len() == 10);
        assert("output_text"@.len() == 11);
        assert("text"@ != "input_text"@ && "text"@ != "output_text"@ && "input_text"@
            != "output_text"@);
    }
    let text = match get_opt_str_field(j, "text") {
        Some(v) => v,
        None => {
            return None;
        },
    };
    if str_eq(t.as_str(), "text") {
        Some(CodexContent::Text { text })
    } else if str_eq(t.as_str(), "input_text") {
        Some(CodexContent::InputText { text })
    } else if str_eq(t.as_str(), "output_text") {
        Some(CodexContent::OutputText { text })
    } else {
        None
    }
}

/// Classify every element of a content array; one malformed element rejects
/// the whole array.
fn classify_contents(items: &Vec<Json>) -> (r: Option<Vec<CodexContent>>)
    ensures
        match r {
            Some(cs) => spec_classify_contents(jmodel_seq(items@)) == Some(contents_model(cs@)),
            None => spec_classify_contents(jmodel_seq(items@)) is None,
        },
{
    let ghost mitems = jmodel_seq(items@);
    proof {
        lemma_jmodel_seq(items@);
        assert(mitems.skip(0) =~= mitems);
    }
    let n: usize = items.len();
    let mut out: Vec<CodexContent> = Vec::new();
    let mut i: usize = 0;
    while i < n
        invariant
            n == items@.len(),
            i <= n,
            mitems == jmodel_seq(items@),
            mitems.len() == n,
            forall|t: int| 0 <= t < n ==> mitems[t] == jmodel(items@[t]),
            match spec_classify_contents(mitems.skip(i as int)) {
                Some(rest) => spec_classify_contents(mitems) == Some(contents_model(out@) + rest),
                None => spec_classify_contents(mitems) is None,
            },
        decreases n - i,
    {
        proof {
            assert(mitems.skip(i as int)[0] == mitems[i as int]);
            assert(mitems.skip(i as int).drop_first() =~= mitems.skip(i + 1));
        }
        match classify_content(&items[i]) {
            Some(c) => {
                let ghost pre = out@;
                out.push(c);
                proof {
                    assert(out@.drop_last() =~= pre);
                    assert(contents_model(out@) =~= contents_model(pre).push(content_model(c)));
                    if spec_classify_contents(mitems.skip(i + 1)) is Some {
                        let rest = spec_classify_contents(mitems.skip(i + 1))->Some_0;
                        assert(contents_model(pre) + (seq![content_model(c)] + rest)
                            =~= contents_model(out@) + rest);
                    }
                }
            },
            None => {
                return None;
            },
        }
        i = i + 1;
    }
    proof {
        assert(mitems.skip(n as int) =~= Seq::<JsonModel>::empty());
        assert(contents_model(out@) + Seq::<CodexContentModel>::empty() =~= contents_model(out@));
    }
    Some(out)
}

/// Classify an item document.
fn classify_item(j: &Json) -> (r: Option<CodexItem>)
    ensures
        match r {
            Some(it) => spec_classify_item(jmodel(*j)) == Some(item_model(it)),
            None => spec_classify_item(jmodel(*j)) is None,
        },
{
    let t = match obj_get(j, "type") {
        Some(tv) => match as_str(tv) {
            Some(s) => s,
            None => {
                return None;
            },
        },
        None => {
            return None;
        },
    };
    proof {
        reveal_strlit("message");
        reveal_strlit("tool_call");
        reveal_strlit("tool_result");
        reveal_strlit("reasoning");
        reveal_strlit("mcp_tool_call");
        reveal_strlit("agent_message");
        assert("message"@.len() == 7);
        assert("tool_call"@.len() == 9);
        assert("tool_result"@.len() == 11);
        assert("reasoning"@.len() == 9);
        assert("mcp_tool_call"@.len() == 13);
        assert("agent_message"@.len() == 13);
        assert("tool_call"@[0] == 't' && "reasoning"@[0] == 'r');
        assert("mcp_tool_call"@[0] == 'm' && "agent_message"@[0] == 'a');
        assert("message"@ != "tool_call"@ && "message"@ != "tool_result"@ && "message"@
            != "reasoning"@ && "message"@ != "mcp_tool_call"@ && "message"@ != "agent_message"@);
        assert("tool_call"@ != "tool_result"@ && "tool_call"@ != "reasoning"@ && "tool_call"@
            != "mcp_tool_call"@ && "tool_call"@ != "agent_message"@);
        assert("tool_result"@ != "reasoning"@ && "tool_result"@ != "mcp_tool_call"@
            && "tool_result"@ != "agent_message"@);
        assert("reasoning"@ != "mcp_tool_call"@ && "reasoning"@ != "agent_message"@);
        assert("mcp_tool_call"@ != "agent_message"@);
    }
    if str_eq(t.as_str(), "message") {
        match obj_get(j, "content") {
            Some(cv) => match as_arr(cv) {
                Some(items) => match classify_contents(items) {
                    Some(content) => Some(CodexItem::Message { content }),
                    None => None,
                },
                None => None,
            },
            None => Some(CodexItem::Message { content: Vec::new() }),
        }
    } else if str_eq(t.as_str(), "tool_call") {
        let name = match get_opt_str_field(j, "name") {
            Some(v) => v,
            None => {
                return None;
            },
        };
        Some(CodexItem::ToolCall { name, arguments: get_opt_val(j, "arguments") })
    } else if str_eq(t.as_str(), "tool_result") {
        match get_opt_str_field(j, "content") {
            Some(content) => Some(CodexItem::ToolResult { content }),
            None => None,
        }
    } else if str_eq(t.as_str(), "reasoning") {
        match get_opt_str_field(j, "content") {
            Some(content) => Some(CodexItem::Reasoning { content }),
            None => None,
        }
    } else if str_eq(t.as_str(), "mcp_tool_call") {
        let server = match get_opt_str_field(j, "server") {
            Some(v) => v,
            None => {
                return None;
            },
        };
        let tool = match get_opt_str_field(j, "tool") {
            Some(v) => v,
            None => {
                return None;
            },
        };
        let error = match get_opt_str_field(j, "error") {
            Some(v) => v,
            None => {
                return None;
            },
        };
        let status = match get_opt_str_field(j, "status") {
            Some(v) => v,
            None => {
                return None;
            },
        };
        Some(
            CodexItem::McpToolCall {
                server,
                tool,
                arguments: get_opt_val(j, "arguments"),
                result: get_opt_val(j, "result"),
                error,
                status,
            },
        )
    } else if str_eq(t.as_str(), "agent_message") {
        match get_opt_str_field(j, "text") {
            Some(text) => Some(CodexItem::AgentMessage { text }),
            None => None,
        }
    } else {
        None
    }
}

/// Read the optional item of an event document; a malformed present item
/// rejects the whole line.
fn get_opt_item(j: &Json) -> (r: Option<Option<CodexItem>>)
    ensures
        match r {
            Some(Some(it)) => spec_opt_item(model_get(jmodel(*j), "item"@)) == Some(
                Some(item_model(it)),
            ),
            Some(None) => spec_opt_item(model_get(jmodel(*j), "item"@)) == Some(
                None::<CodexItemModel>,
            ),
            None => spec_opt_item(model_get(jmodel(*j), "item"@)) is None,
        },
{
    match obj_get(j, "item") {
        Some(v) => match v {
            Json::Null => Some(None),
            _ => match classify_item(v) {
                Some(it) => Some(Some(it)),
                None => None,
            },
        },
        None => Some(None),
    }
}

/// Classify one parsed line of the CLI's JSONL output.
pub fn classify_codex_event(j: &Json) -> (r: Option<CodexStreamEvent>)
    ensures
        match r {
            Some(e) => spec_classify_codex(jmodel(*j)) == Some(codex_event_model(e)),
            None => spec_classify_codex(jmodel(*j)) is None,
        },
{
    let t = match obj_get(j, "type") {
        Some(tv) => match as_str(tv) {
            Some(s) => s,
            None => {
                return None;
            },
        },
        None => {
            return None;
        },
    };
    proof {
        reveal_strlit("thread.started");
        reveal_strlit("turn.started");
        reveal_strlit("turn.completed");
        reveal_strlit("turn.failed");
        reveal_strlit("item.started");
        reveal_strlit("item.completed");
        reveal_strlit("error");
        assert("thread.started"@.len() == 14);
        assert("turn.started"@.len() == 12);
        assert("turn.completed"@.len() == 14);
        assert("turn.failed"@.len() == 11);
        assert("item.started"@.len() == 12);
        assert("item.completed"@.len() == 14);
        assert("error"@.len() == 5);
        assert("thread.started"@[0] == 't' && "item.started"@[0] == 'i');
        assert("turn.started"@[1] == 'u' && "item.started"@[1] == 't');
        assert("thread.started"@[1] == 'h');
        assert("turn.completed"@[1] == 'u' && "item.completed"@[1] == 't');
        assert("thread.started"@ != "turn.completed"@ && "thread.started"@ != "item.started"@
            && "thread.started"@ != "item.completed"@);
        assert("turn.started"@ != "turn.failed"@ && "turn.started"@ != "item.started"@);
        assert("turn.completed"@ != "item.completed"@);
        assert("turn.failed"@ != "item.started"@);
        assert("item.started"@ != "item.completed"@);
    }
    if str_eq(t.as_str(), "thread.started") {
        match get_opt_str_field(j, "thread_id") {
            Some(thread_id) => Some(CodexStreamEvent::ThreadStarted { thread_id }),
            None => None,
        }
    } else if str_eq(t.as_str(), "turn.started") {
        match get_opt_str_field(j, "turn_id") {
            Some(turn_id) => Some(CodexStreamEvent::TurnStarted { turn_id }),
            None => None,
        }
    } else if str_eq(t.as_str(), "turn.completed") {
        match get_opt_str_field(j, "turn_id") {
            Some(turn_id) => Some(CodexStreamEvent::TurnCompleted { turn_id }),
            None => None,
        }
    } else if str_eq(t.as_str(), "turn.failed") {
        match get_opt_str_field(j, "error") {
            Some(error) => Some(CodexStreamEvent::TurnFailed { error }),
            None => None,
        }
    } else if str_eq(t.as_str(), "item.started") {
        match get_opt_item(j) {
            Some(item) => Some(CodexStreamEvent::ItemStarted { item }),
            None => None,
        }
    } else if str_eq(t.as_str(), "item.completed") {
        match get_opt_item(j) {
            Some(item) => Some(CodexStreamEvent::ItemCompleted { item }),
            None => None,
        }
    } else if str_eq(t.as_str(), "error") {
        match get_opt_str_field(j, "message") {
            Some(message) => Some(CodexStreamEvent::Error { message }),
            None => None,
        }
    } else {
        None
    }
}

/// The text a content block carries, whichever of the three text forms it is.
pub open spec fn spec_content_text(c: CodexContentModel) -> Option<Seq<char>> {
    match c {
        CodexContentModel::Text { text } => text,
        CodexContentModel::InputText { text } => text,
        CodexContentModel::OutputText { text } => text,
    }
}

/// Extract the text from a content block.
pub fn extract_text_from_content(content: &CodexContent) -> (r: Option<String>)
    ensures
        opt_view(r) == spec_content_text(content_model(*content)),
{
    match content {
        CodexContent::Text { text } => match text {
            Some(t) => Some(t.clone()),
            None => None,
        },
        CodexContent::InputText { text } => match text {
            Some(t) => Some(t.clone()),
            None => None,
        },
        CodexContent::OutputText { text } => match text {
            Some(t) => Some(t.clone()),
            None => None,
        },
    }
}

/// The notifications one tool call fans out to: an emotion or movement
/// notification where the name matches (a screenshot is served through the
/// separate tool-server channel and emits nothing), then always the generic
/// tool-used notification; a call without a name emits nothing. Absent
/// arguments count as an empty object.
pub open spec fn spec_tool_call_notes(
    name: Option<Seq<char>>,
    arguments: Option<JsonModel>,
) -> Seq<NotificationModel> {
    match name {
        None => Seq::empty(),
        Some(n) => {
            let input = match arguments {
                Some(a) => a,
                None => JsonModel::Obj(Seq::empty()),
            };
            (if contains_sub(n, "set_emotion"@) {
                seq![NotificationModel::AgentEmotion { input }]
            } else if contains_sub(n, "move_to"@) {
                seq![NotificationModel::MascotMove { input }]
            } else {
                Seq::<NotificationModel>::empty()
            }) + seq![NotificationModel::AgentToolUse { tool: n, input }]
        },
    }
}

/// Route one tool call to its notifications.
pub fn handle_tool_call(name: Option<&String>, arguments: Option<&Json>) -> (r: Vec<Notification>)
    ensures
        note_models(r@) == spec_tool_call_notes(
            match name {
                Some(n) => Some(n@),
                None => None,
            },
            match arguments {
                Some(a) => Some(jmodel(*a)),
                None => None,
            },
        ),
{
    let mut out: Vec<Notification> = Vec::new();
    proof {
        assert(note_models(out@) =~= Seq::<NotificationModel>::empty());
    }
    let n = match name {
        Some(n) => n,
        None => {
            return out;
        },
    };
    let input: Json = match arguments {
        Some(a) => a.clone_json(),
        None => Json::Obj(Vec::new()),
    };
    proof {
        if arguments is None {
            assert(crate::json::jmodel_fields(Seq::<(String, Json)>::empty())
                =~= Seq::<(Seq<char>, JsonModel)>::empty());
            assert(jmodel(input) == JsonModel::Obj(Seq::empty()));
        }
    }
    if str_contains(n.as_str(), "set_emotion") {
        let ghost p = out@;
        out.push(Notification::AgentEmotion { input: input.clone_json() });
        proof {
            lemma_note_models_push(p, out@.last());
        }
    } else if str_contains(n.as_str(), "move_to") {
        let ghost p = out@;
        out.push(Notification::MascotMove { input: input.clone_json() });
        proof {
            lemma_note_models_push(p, out@.last());
        }
    }
    let ghost p = out@;
    out.push(Notification::AgentToolUse(ToolUseEvent { tool: n.clone(), input }));
    proof {
        lemma_note_models_push(p, out@.last());
        assert(note_models(out@) =~= spec_tool_call_notes(
            match name {
                Some(nn) => Some(nn@),
                None => None,
            },
            match arguments {
                Some(a) => Some(jmodel(*a)),
                None => None,
            },
        ));
    }
    out
}

/// One step of the text accumulation: non-empty text is appended to the
/// accumulated turn text and streamed; when deduplication is on, text the
/// accumulation already contains is skipped.
pub open spec fn spec_text_step(text: Option<Seq<char>>, acc: Seq<char>, dedup: bool) -> (Seq<
    NotificationModel,
>, Seq<char>) {
    match text {
        Some(t) => if t.len() > 0 && (!dedup || !contains_sub(acc, t)) {
            (seq![NotificationModel::AgentStream { text: t }], acc + t)
        } else {
            (Seq::empty(), acc)
        },
        None => (Seq::empty(), acc),
    }
}

/// The accumulation fold over a message's content blocks, in order.
pub open spec fn spec_msg_fold(blocks: Seq<CodexContentModel>, acc: Seq<char>, dedup: bool) -> (
    Seq<NotificationModel>,
    Seq<char>,
)
    decreases blocks.len(),
{
    if blocks.len() == 0 {
        (Seq::empty(), acc)
    } else {
        let step = spec_text_step(spec_content_text(blocks[0]), acc, dedup);
        let rest = spec_msg_fold(blocks.drop_first(), step.1, dedup);
        (step.0 + rest.0, rest.1)
    }
}

/// The notifications and new accumulation an optional item produces:
/// message and agent-message items stream and accumulate text, tool calls
/// fan out their notifications, everything else is silent.
pub open spec fn spec_item_step(
    item: Option<CodexItemModel>,
    acc: Seq<char>,
    dedup: bool,
) -> (Seq<NotificationModel>, Seq<char>) {
    match item {
        None => (Seq::empty(), acc),
        Some(CodexItemModel::Message { content }) => spec_msg_fold(content, acc, dedup),
        Some(CodexItemModel::ToolCall { name, arguments }) => (
            spec_tool_call_notes(name, arguments),
            acc,
        ),
        Some(
            CodexItemModel::McpToolCall { server, tool, arguments, result, error, status },
        ) => (spec_tool_call_notes(tool, arguments), acc),
        Some(CodexItemModel::AgentMessage { text }) => spec_text_step(text, acc, dedup),
        Some(CodexItemModel::ToolResult { content }) => (Seq::empty(), acc),
        Some(CodexItemModel::Reasoning { content }) => (Seq::empty(), acc),
    }
}

/// Everything one stream event makes the router emit, in order, given the
/// text accumulated when it arrives.
pub open spec fn spec_codex_notes(e: CodexEventModel, acc: Seq<char>) -> Seq<NotificationModel> {
    match e {
        CodexEventModel::ThreadStarted { thread_id } => match thread_id {
            Some(tid) => seq![
                NotificationModel::PersistCodexSession { session_id: tid },
                NotificationModel::SessionInfo { session_id: tid },
            ],
            None => Seq::empty(),
        },
        CodexEventModel::TurnStarted { turn_id } => Seq::empty(),
        CodexEventModel::ItemStarted { item } => spec_item_step(item, acc, false).0,
        CodexEventModel::ItemCompleted { item } => spec_item_step(item, acc, true).0,
        CodexEventModel::TurnCompleted { turn_id } => seq![
            NotificationModel::AgentResult { success: true, text: acc },
        ],
        CodexEventModel::TurnFailed { error } => seq![
            NotificationModel::AgentError {
                error: match error {
                    Some(e) => e,
                    None => "Turn failed"@,
                },
            },
        ],
        CodexEventModel::Error { message } => seq![
            NotificationModel::AgentError {
                error: match message {
                    Some(m) => m,
                    None => "Unknown error"@,
                },
            },
        ],
    }
}

/// The accumulated turn text after one stream event: items extend it, a
/// completed turn resets it, everything else keeps it.
pub open spec fn spec_codex_acc_after(e: CodexEventModel, acc: Seq<char>) -> Seq<char> {
    match e {
        CodexEventModel::ItemStarted { item } => spec_item_step(item, acc, false).1,
        CodexEventModel::ItemCompleted { item } => spec_item_step(item, acc, true).1,
        CodexEventModel::TurnCompleted { turn_id } => Seq::empty(),
        _ => acc,
    }
}

/// The thread identifier after one stream event: a thread start replaces
/// it; everything else keeps it.
pub open spec fn spec_codex_session_after(
    e: CodexEventModel,
    old_sid: Option<Seq<char>>,
) -> Option<Seq<char>> {
    match e {
        CodexEventModel::ThreadStarted { thread_id } => match thread_id {
            Some(tid) => Some(tid),
            None => old_sid,
        },
        _ => old_sid,
    }
}

/// Stream and accumulate the text of one block, with optional deduplication.
fn handle_text(out: &mut Vec<Notification>, acc: &mut String, text: Option<String>, dedup: bool)
    ensures
        note_models(final(out)@) == note_models(old(out)@) + spec_text_step(
            opt_view(text),
            old(acc)@,
            dedup,
        ).0,
        final(acc)@ == spec_text_step(opt_view(text), old(acc)@, dedup).1,
{
    match text {
        Some(t) => {
            let skip_for_dedup = dedup && str_contains(acc.as_str(), t.as_str());
            if !t.as_str().is_empty() && !skip_for_dedup {
                acc.append(t.as_str());
                let ghost p = out@;
                out.push(Notification::AgentStream { text: t });
                proof {
                    lemma_note_models_push(p, out@.last());
                    assert(note_models(out@) =~= note_models(p) + spec_text_step(
                        opt_view(Some(t)),
                        old(acc)@,
                        dedup,
                    ).0);
                }
            } else {
                proof {
                    assert(note_models(out@) + Seq::<NotificationModel>::empty() =~= note_models(
                        out@,
                    ));
                }
            }
        },
        None => {
            proof {
                assert(note_models(out@) + Seq::<NotificationModel>::empty() =~= note_models(
                    out@,
                ));
            }
        },
    }
}

/// Stream and accumulate the text of a message's blocks, in order.
fn handle_message_blocks(
    out: &mut Vec<Notification>,
    acc: &mut String,
    content: &Vec<CodexContent>,
    dedup: bool,
)
    ensures
        note_models(final(out)@) == note_models(old(out)@) + spec_msg_fold(
            contents_model(content@),
            old(acc)@,
            dedup,
        ).0,
        final(acc)@ == spec_msg_fold(contents_model(content@), old(acc)@, dedup).1,
{
    let ghost cm = contents_model(content@);
    let ghost acc0 = acc@;
    let ghost base = note_models(out@);
    proof {
        lemma_contents_model(content@);
        assert(cm.skip(0) =~= cm);
    }
    let ghost mut emitted: Seq<NotificationModel> = Seq::empty();
    proof {
        assert(note_models(out@) =~= base + emitted);
    }
    let n: usize = content.len();
    let mut i: usize = 0;
    while i < n
        invariant
            n == content@.len(),
            i <= n,
            cm == contents_model(content@),
            cm.len() == n,
            forall|t: int| 0 <= t < n ==> cm[t] == content_model(content@[t]),
            note_models(out@) == base + emitted,
            spec_msg_fold(cm, acc0, dedup) == {
                let rest = spec_msg_fold(cm.skip(i as int), acc@, dedup);
                (emitted + rest.0, rest.1)
            },
        decreases n - i,
    {
        proof {
            assert(cm.skip(i as int)[0] == cm[i as int]);
            assert(cm.skip(i as int).drop_first() =~= cm.skip(i + 1));
        }
        let block: &CodexContent = &content[i];
        let text = extract_text_from_content(block);
        let ghost acc_pre = acc@;
        let ghost emitted_pre = emitted;
        let ghost tstep = spec_text_step(opt_view(text), acc@, dedup);
        handle_text(out, acc, text, dedup);
        proof {
            emitted = emitted + tstep.0;
            assert(note_models(out@) =~= base + emitted);
            let rest2 = spec_msg_fold(cm.skip(i + 1), acc@, dedup);
            assert(spec_content_text(cm[i as int]) == opt_view(text));
            assert(spec_msg_fold(cm.skip(i as int), acc_pre, dedup) == (
                tstep.0 + rest2.0,
                rest2.1,
            ));
            assert(emitted_pre + (tstep.0 + rest2.0) =~= emitted + rest2.0);
        }
        i = i + 1;
    }
    proof {
        assert(cm.skip(n as int) =~= Seq::<CodexContentModel>::empty());
        assert(emitted + Seq::<NotificationModel>::empty() =~= emitted);
    }
}

/// Route one optional item, with deduplication for completed items.
fn handle_item(out: &mut Vec<Notification>, acc: &mut String, item: Option<CodexItem>, dedup: bool)
    ensures
        note_models(final(out)@) == note_models(old(out)@) + spec_item_step(
            match item {
                Some(it) => Some(item_model(it)),
                None => None,
            },
            old(acc)@,
            dedup,
        ).0,
        final(acc)@ == spec_item_step(
            match item {
                Some(it) => Some(item_model(it)),
                None => None,
            },
            old(acc)@,
            dedup,
        ).1,
{
    match item {
        None => {
            proof {
                assert(note_models(out@) + Seq::<NotificationModel>::empty() =~= note_models(
                    out@,
                ));
            }
        },
        Some(CodexItem::Message { content }) => {
            handle_message_blocks(out, acc, &content, dedup);
        },
        Some(CodexItem::ToolCall { name, arguments }) => {
            let mut notes = handle_tool_call(name.as_ref(), arguments.as_ref());
            let ghost nm = notes@;
            let ghost p = out@;
            out.append(&mut notes);
            proof {
                crate::notify::lemma_note_models_concat(p, nm);
            }
        },
        Some(CodexItem::McpToolCall { server, tool, arguments, result, error, status }) => {
            let mut notes = handle_tool_call(tool.as_ref(), arguments.as_ref());
            let ghost nm = notes@;
            let ghost p = out@;
            out.append(&mut notes);
            proof {
                crate::notify::lemma_note_models_concat(p, nm);
            }
        },
        Some(CodexItem::AgentMessage { text }) => {
            handle_text(out, acc, text, dedup);
        },
        Some(CodexItem::ToolResult { content }) => {
            proof {
                assert(note_models(out@) + Seq::<NotificationModel>::empty() =~= note_models(
                    out@,
                ));
            }
        },
        Some(CodexItem::Reasoning { content }) => {
            proof {
                assert(note_models(out@) + Seq::<NotificationModel>::empty() =~= note_models(
                    out@,
                ));
            }
        },
    }
}

/// The system prompt for a turn of this backend: the persona text in
/// persona mode, else a developer-oriented or a plain mascot prompt.
pub fn get_system_prompt(supiki_mode: bool, dev_mode: bool, persona_prompt: &str) -> (r: String)
    ensures
        supiki_mode ==> r@ == persona_prompt@,
        !supiki_mode && dev_mode ==> r@
            == "You are Clawd, a helpful AI assistant mascot on the user's desktop. You have access to coding capabilities and can help with coding tasks. Use mcp__mascot__set_emotion to express yourself and mcp__mascot__move_to to navigate the screen. Be professional but friendly!"@,
        !supiki_mode && !dev_mode ==> r@
            == "You are Clawd, a friendly mascot that lives on the user's desktop. You can express emotions using mcp__mascot__set_emotion and walk around using mcp__mascot__move_to. Be cheerful and helpful! Keep responses concise."@,
{
    if supiki_mode {
        persona_prompt.to_owned()
    } else if dev_mode {
        String::from_str(
            "You are Clawd, a helpful AI assistant mascot on the user's desktop. You have access to coding capabilities and can help with coding tasks. Use mcp__mascot__set_emotion to express yourself and mcp__mascot__move_to to navigate the screen. Be professional but friendly!",
        )
    } else {
        String::from_str(
            "You are Clawd, a friendly mascot that lives on the user's desktop. You can express emotions using mcp__mascot__set_emotion and walk around using mcp__mascot__move_to. Be cheerful and helpful! Keep responses concise.",
        )
    }
}

/// The argument vector for one turn of this backend: the exec subcommand,
/// a resume pair when a thread is open, JSON output, full-auto mode, the
/// repository check skipped, the default model configuration, the system
/// prompt only on a thread's first turn, the working-directory override,
/// the image paths, and the prompt as the trailing argument.
pub open spec fn spec_codex_query_args(
    session: Option<Seq<char>>,
    cwd: Option<Seq<char>>,
    system_prompt: Seq<char>,
    images: Seq<Seq<char>>,
    prompt: Seq<char>,
) -> Seq<Seq<char>> {
    seq!["exec"@] + (match session {
        Some(sid) => seq!["resume"@, sid],
        None => Seq::<Seq<char>>::empty(),
    }) + seq![
        "--json"@,
        "--full-auto"@,
        "--skip-git-repo-check"@,
        "--config"@,
        "model=\"gpt-5.2\""@,
        "--config"@,
        "model_reasoning_effort=\"high\""@,
    ] + (if session is None {
        seq![
            "--config"@,
            "developer_instructions=\""@ + crate::codex::command::spec_escape(system_prompt)
                + "\""@,
        ]
    } else {
        Seq::<Seq<char>>::empty()
    }) + (match cwd {
        Some(dir) => seq!["--cd"@, dir],
        None => Seq::<Seq<char>>::empty(),
    }) + crate::claude_command::image_args(images) + seq![prompt]
}

/// Build the argument vector for one turn from the application state, the
/// saved image paths and the prompt; the persona text stands in for the
/// system prompt in persona mode.
pub fn build_codex_query_args(
    state: &crate::state::AppState,
    image_paths: &Vec<String>,
    prompt: String,
    persona_prompt: &str,
) -> (r: Vec<String>)
    ensures
        r.deep_view() == spec_codex_query_args(
            opt_view(state.codex_session_id),
            opt_view(state.sidecar_cwd),
            if state.supiki_mode {
                persona_prompt@
            } else if state.dev_mode {
                "You are Clawd, a helpful AI assistant mascot on the user's desktop. You have access to coding capabilities and can help with coding tasks. Use mcp__mascot__set_emotion to express yourself and mcp__mascot__move_to to navigate the screen. Be professional but friendly!"@
            } else {
                "You are Clawd, a friendly mascot that lives on the user's desktop. You can express emotions using mcp__mascot__set_emotion and walk around using mcp__mascot__move_to. Be cheerful and helpful! Keep responses concise."@
            },
            image_paths.deep_view(),
            prompt@,
        ),
{
    let ghost pv = prompt@;
    let session = state.get_codex_session_id();
    let mut builder = crate::codex::command::CodexCommandBuilder::new().with_session_resume(
        session.as_ref(),
    ).with_json_output().with_full_auto().with_skip_git_repo_check().with_default_model_config();
    if session.is_none() {
        let sys = get_system_prompt(state.is_supiki_mode(), state.is_dev_mode(), persona_prompt);
        builder = builder.with_system_prompt(sys.as_str());
    }
    let cwd = state.get_sidecar_cwd();
    let r = builder.with_working_directory(cwd.as_ref()).with_images(image_paths).with_prompt(
        prompt,
    ).build();
    proof {
        assert(r.deep_view() =~= spec_codex_query_args(
            opt_view(state.codex_session_id),
            opt_view(state.sidecar_cwd),
            if state.supiki_mode {
                persona_prompt@
            } else if state.dev_mode {
                "You are Clawd, a helpful AI assistant mascot on the user's desktop. You have access to coding capabilities and can help with coding tasks. Use mcp__mascot__set_emotion to express yourself and mcp__mascot__move_to to navigate the screen. Be professional but friendly!"@
            } else {
                "You are Clawd, a friendly mascot that lives on the user's desktop. You can express emotions using mcp__mascot__set_emotion and walk around using mcp__mascot__move_to. Be cheerful and helpful! Keep responses concise."@
            },
            image_paths.deep_view(),
            pv,
        ));
    }
    r
}

/// The candidate locations of this backend's bundled executable, checked
/// in order: the application resource directory first, then the
/// development locations.
pub fn codex_exe_candidates(resource_dir: Option<&String>) -> (r: Vec<String>)
    ensures
        r.deep_view() == (match resource_dir {
            Some(d) => seq![d@ + "/codex-x86_64-pc-windows-msvc.exe"@],
            None => Seq::<Seq<char>>::empty(),
        }) + seq![
            "../codex-x86_64-pc-windows-msvc.exe"@,
            "codex-x86_64-pc-windows-msvc.exe"@,
        ],
{
    let mut out: Vec<String> = Vec::new();
    match resource_dir {
        Some(d) => {
            crate::text::push_arg_string(
                &mut out,
                d.clone().concat("/codex-x86_64-pc-windows-msvc.exe"),
            );
        },
        None => {},
    }
    crate::text::push_arg(&mut out, "../codex-x86_64-pc-windows-msvc.exe");
    crate::text::push_arg(&mut out, "codex-x86_64-pc-windows-msvc.exe");
    proof {
        assert(out.deep_view() =~= (match resource_dir {
            Some(d) => seq![d@ + "/codex-x86_64-pc-windows-msvc.exe"@],
            None => Seq::<Seq<char>>::empty(),
        }) + seq![
            "../codex-x86_64-pc-windows-msvc.exe"@,
            "codex-x86_64-pc-windows-msvc.exe"@,
        ]);
    }
    out
}

/// Route one stream event: update the thread identifier and the turn's
/// accumulated text, and return the notifications to emit, in order.
pub fn handle_codex_event(
    state: &mut crate::state::AppState,
    accumulated_text: &mut String,
    event: CodexStreamEvent,
) -> (r: Vec<Notification>)
    ensures
        note_models(r@) == spec_codex_notes(codex_event_model(event), old(accumulated_text)@),
        final(accumulated_text)@ == spec_codex_acc_after(
            codex_event_model(event),
            old(accumulated_text)@,
        ),
        opt_view(final(state).codex_session_id) == spec_codex_session_after(
            codex_event_model(event),
            opt_view(old(state).codex_session_id),
        ),
        final(state).backend_mode == old(state).backend_mode,
        final(state).session_id == old(state).session_id,
        final(state).dev_mode == old(state).dev_mode,
        final(state).supiki_mode == old(state).supiki_mode,
        final(state).sidecar_cwd == old(state).sidecar_cwd,
        final(state).recent_cwds == old(state).recent_cwds,
{
    let ghost em = codex_event_model(event);
    let mut out: Vec<Notification> = Vec::new();
    proof {
        assert(note_models(out@) =~= Seq::<NotificationModel>::empty());
    }
    match event {
        CodexStreamEvent::ThreadStarted { thread_id } => {
            match thread_id {
                Some(tid) => {
                    state.set_codex_session_id(tid.clone());
                    let ghost p0 = out@;
                    out.push(Notification::PersistCodexSession { session_id: tid.clone() });
                    proof {
                        lemma_note_models_push(
                            p0,
                            Notification::PersistCodexSession { session_id: tid },
                        );
                    }
                    let ghost p1 = out@;
                    out.push(Notification::SessionInfo { session_id: tid });
                    proof {
                        lemma_note_models_push(
                            p1,
                            Notification::SessionInfo { session_id: tid },
                        );
                        assert(note_models(out@) =~= spec_codex_notes(
                            em,
                            old(accumulated_text)@,
                        ));
                    }
                },
                None => {},
            }
            out
        },
        CodexStreamEvent::TurnStarted { turn_id } => out,
        CodexStreamEvent::ItemStarted { item } => {
            handle_item(&mut out, accumulated_text, item, false);
            proof {
                assert(note_models(out@) =~= spec_codex_notes(em, old(accumulated_text)@));
            }
            out
        },
        CodexStreamEvent::ItemCompleted { item } => {
            handle_item(&mut out, accumulated_text, item, true);
            proof {
                assert(note_models(out@) =~= spec_codex_notes(em, old(accumulated_text)@));
            }
            out
        },
        CodexStreamEvent::TurnCompleted { turn_id } => {
            let text = accumulated_text.clone();
            let ghost p = out@;
            out.push(Notification::AgentResult { success: true, text });
            proof {
                lemma_note_models_push(p, out@.last());
            }
            *accumulated_text = String::new();
            proof {
                assert(note_models(out@) =~= spec_codex_notes(em, old(accumulated_text)@));
            }
            out
        },
        CodexStreamEvent::TurnFailed { error } => {
            let msg = match error {
                Some(e) => e,
                None => String::from_str("Turn failed"),
            };
            let ghost p = out@;
            out.push(Notification::AgentError { error: msg });
            proof {
                lemma_note_models_push(p, out@.last());
                assert(note_models(out@) =~= spec_codex_notes(em, old(accumulated_text)@));
            }
            out
        },
        CodexStreamEvent::Error { message } => {
            let msg = match message {
                Some(m) => m,
                None => String::from_str("Unknown error"),
            };
            let ghost p = out@;
            out.push(Notification::AgentError { error: msg });
            proof {
                lemma_note_models_push(p, out@.last());
                assert(note_models(out@) =~= spec_codex_notes(em, old(accumulated_text)@));
            }
            out
        },
    }
}

} // verus!
