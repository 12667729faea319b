//! Stream-event handling for the first assistant CLI: the event vocabulary
//! of its line-delimited JSON output, the classifier from parsed JSON lines
//! to events, and the router that turns events into frontend notifications.

use vstd::prelude::*;

verus! {

use vstd::string::StringExecFns;
use crate::json::Json;
use crate::json::JsonModel;
use crate::json::jmodel;
use crate::json::jmodel_seq;
use crate::json::lemma_jmodel_seq;
use crate::json::model_get;
use crate::json::obj_get;
use crate::json::as_str;
use crate::json::as_arr;
use crate::json::is_obj;
use crate::text::str_eq;
use crate::notify::Notification;
use crate::notify::NotificationModel;
use crate::notify::note_models;
use crate::notify::lemma_note_models_push;
use crate::notify::ToolUseEvent;
use crate::notify::ExitPlanModeEvent;
use crate::notify::AskUserQuestionEvent;
use crate::notify::SubagentStartEvent;
use crate::notify::SubagentEndEvent;

/// The ghost view of an optional owned string.
pub open spec fn opt_view(o: Option<String>) -> Option<Seq<char>> {
    match o {
        Some(s) => Some(s@),
        None => None,
    }
}

/// One question of a multiple-choice prompt.
pub struct QuestionData {
    pub question: String,
    pub header: Option<String>,
    pub options: Vec<OptionData>,
    pub multi_select: bool,
}

/// One selectable option of a question.
pub struct OptionData {
    pub label: String,
    pub description: Option<String>,
}

/// Ghost model of a question.
pub struct QuestionModel {
    pub question: Seq<char>,
    pub header: Option<Seq<char>>,
    pub options: Seq<OptionModel>,
    pub multi_select: bool,
}

/// Ghost model of an option.
pub struct OptionModel {
    pub label: Seq<char>,
    pub description: Option<Seq<char>>,
}

/// The ghost model of an option.
pub open spec fn opt_model(o: OptionData) -> OptionModel {
    OptionModel { label: o.label@, description: opt_view(o.description) }
}

/// The ghost models of an option list, in order.
pub open spec fn opt_models(s: Seq<OptionData>) -> Seq<OptionModel>
    decreases s,
{
    if s.len() == 0 {
        Seq::empty()
    } else {
        opt_models(s.drop_last()).push(opt_model(s.last()))
    }
}

/// The ghost model of a question.
pub open spec fn q_model(q: QuestionData) -> QuestionModel {
    QuestionModel {
        question: q.question@,
        header: opt_view(q.header),
        options: opt_models(q.options@),
        multi_select: q.multi_select,
    }
}

/// The ghost models of a question list, in order.
pub open spec fn q_models(s: Seq<QuestionData>) -> Seq<QuestionModel>
    decreases s,
{
    if s.len() == 0 {
        Seq::empty()
    } else {
        q_models(s.drop_last()).push(q_model(s.last()))
    }
}

/// One event of the CLI's streaming JSON output.
pub enum StreamEvent {
    /// Startup information; may announce the session identifier.
    System { session_id: Option<String>, subtype: Option<String> },
    /// Assistant output: text and tool invocations.
    Assistant { message: AssistantMessage },
    /// Echoed user-side message; carries nothing the router needs.
    User,
    /// Terminal turn result.
    Result { subtype: Option<String>, result: Option<String>, session_id: Option<String> },
}

/// The content of one assistant event.
pub struct AssistantMessage {
    pub content: Vec<ContentBlock>,
}

/// One content block of an assistant message.
pub enum ContentBlock {
    Text { text: String },
    ToolUse { id: String, name: String, input: Json },
}

/// Ghost model of a content block.
pub enum ContentBlockModel {
    Text { text: Seq<char> },
    ToolUse { id: Seq<char>, name: Seq<char>, input: JsonModel },
}

/// Ghost model of a stream event.
pub enum StreamEventModel {
    System { session_id: Option<Seq<char>>, subtype: Option<Seq<char>> },
    Assistant { content: Seq<ContentBlockModel> },
    User,
    Result {
        subtype: Option<Seq<char>>,
        result: Option<Seq<char>>,
        session_id: Option<Seq<char>>,
    },
}

/// The ghost model of a content block.
pub open spec fn block_model(b: ContentBlock) -> ContentBlockModel {
    match b {
        ContentBlock::Text { text } => ContentBlockModel::Text { text: text@ },
        ContentBlock::ToolUse { id, name, input } => ContentBlockModel::ToolUse {
            id: id@,
            name: name@,
            input: jmodel(input),
        },
    }
}

/// The ghost models of a block list, in order.
pub open spec fn blocks_model(s: Seq<ContentBlock>) -> Seq<ContentBlockModel>
    decreases s,
{
    if s.len() == 0 {
        Seq::empty()
    } else {
        blocks_model(s.drop_last()).push(block_model(s.last()))
    }
}

/// `blocks_model` maps the list pointwise.
pub proof fn lemma_blocks_model(s: Seq<ContentBlock>)
    ensures
        blocks_model(s).len() == s.len(),
        forall|i: int| 0 <= i < s.len() ==> blocks_model(s)[i] == block_model(s[i]),
    decreases s,
{
    if s.len() > 0 {
        lemma_blocks_model(s.drop_last());
    }
}

/// The ghost model of a stream event.
pub open spec fn event_model(e: StreamEvent) -> StreamEventModel {
    match e {
        StreamEvent::System { session_id, subtype } => StreamEventModel::System {
            session_id: opt_view(session_id),
            subtype: opt_view(subtype),
        },
        StreamEvent::Assistant { message } => StreamEventModel::Assistant {
            content: blocks_model(message.content@),
        },
        StreamEvent::User => StreamEventModel::User,
        StreamEvent::Result { subtype, result, session_id } => StreamEventModel::Result {
            subtype: opt_view(subtype),
            result: opt_view(result),
            session_id: opt_view(session_id),
        },
    }
}

/// An optional string field read leniently: present and a string, or
/// counted absent. For the places that walk a raw document with untyped
/// access (a subagent description, the sidecar messages); the event
/// classifiers use the strict `opt_str_field` instead.
pub open spec fn opt_str(m: Option<JsonModel>) -> Option<Seq<char>> {
    match m {
        Some(JsonModel::Str(s)) => Some(s),
        _ => None,
    }
}

/// An optional string field under the strict event schema: absent or null
/// counts absent, a string is itself, and any other type rejects the whole
/// document, as the schema decode does.
pub open spec fn opt_str_field(m: Option<JsonModel>) -> Option<Option<Seq<char>>> {
    match m {
        None => Some(None),
        Some(JsonModel::Null) => Some(None),
        Some(JsonModel::Str(s)) => Some(Some(s)),
        Some(_) => None,
    }
}

/// An optional boolean field under the strict schema: absent counts false,
/// a boolean is itself, and any other type (null included) rejects the
/// whole document.
pub open spec fn opt_bool_field(m: Option<JsonModel>) -> Option<bool> {
    match m {
        None => Some(false),
        Some(JsonModel::Bool(b)) => Some(b),
        Some(_) => None,
    }
}

/// What one element of an assistant content array means, or nothing for a
/// malformed element.
pub open spec fn spec_classify_block(m: JsonModel) -> Option<ContentBlockModel> {
    match model_get(m, "type"@) {
        Some(JsonModel::Str(t)) => if t == "text"@ {
            match model_get(m, "text"@) {
                Some(JsonModel::Str(s)) => Some(ContentBlockModel::Text { text: s }),
                _ => None,
            }
        } else if t == "tool_use"@ {
            match (model_get(m, "id"@), model_get(m, "name"@), model_get(m, "input"@)) {
                (Some(JsonModel::Str(id)), Some(JsonModel::Str(name)), Some(input)) => Some(
                    ContentBlockModel::ToolUse { id, name, input },
                ),
                _ => None,
            }
        } else {
            None
        },
        _ => None,
    }
}

/// The meanings of all elements of a content array; one malformed element
/// rejects the whole array.
pub open spec fn spec_classify_blocks(items: Seq<JsonModel>) -> Option<Seq<ContentBlockModel>>
    decreases items.len(),
{
    if items.len() == 0 {
        Some(Seq::empty())
    } else {
        match (spec_classify_block(items[0]), spec_classify_blocks(items.drop_first())) {
            (Some(b), Some(rest)) => Some(seq![b] + rest),
            _ => None,
        }
    }
}

/// What one parsed line of the CLI's output means, or nothing for a line
/// outside the schema. A malformed line never aborts the read loop; it is
/// discarded by the caller.
pub open spec fn spec_classify_claude(m: JsonModel) -> Option<StreamEventModel> {
    match model_get(m, "type"@) {
        Some(JsonModel::Str(t)) => if t == "system"@ {
            match (
                opt_str_field(model_get(m, "session_id"@)),
                opt_str_field(model_get(m, "subtype"@)),
            ) {
                (Some(sid), Some(sub)) => Some(
                    StreamEventModel::System { session_id: sid, subtype: sub },
                ),
                _ => None,
            }
        } else if t == "assistant"@ {
            match model_get(m, "message"@) {
                Some(msg) => if msg is Obj {
                    match model_get(msg, "content"@) {
                        Some(JsonModel::Arr(items)) => match spec_classify_blocks(items) {
                            Some(bs) => Some(StreamEventModel::Assistant { content: bs }),
                            None => None,
                        },
                        Some(_) => None,
                        None => Some(StreamEventModel::Assistant { content: Seq::empty() }),
                    }
                } else {
                    None
                },
                None => None,
            }
        } else if t == "user"@ {
            Some(StreamEventModel::User)
        } else if t == "result"@ {
            match (
                opt_str_field(model_get(m, "subtype"@)),
                opt_str_field(model_get(m, "result"@)),
                opt_str_field(model_get(m, "session_id"@)),
            ) {
                (Some(sub), Some(res), Some(sid)) => Some(
                    StreamEventModel::Result { subtype: sub, result: res, session_id: sid },
                ),
                _ => None,
            }
        } else {
            None
        },
        _ => None,
    }
}

/// Read an optional string field under the strict schema; a wrongly-typed
/// field rejects the document.
pub(crate) fn get_opt_str_field(j: &Json, key: &str) -> (r: Option<Option<String>>)
    ensures
        match r {
            Some(v) => opt_str_field(model_get(jmodel(*j), key@)) == Some(opt_view(v)),
            None => opt_str_field(model_get(jmodel(*j), key@)) is None,
        },
{
    match obj_get(j, key) {
        Some(v) => match v {
            Json::Null => Some(None),
            Json::Str(s) => Some(Some(s.clone())),
            _ => None,
        },
        None => Some(None),
    }
}

/// Read an optional boolean field under the strict schema; a wrongly-typed
/// field rejects the document.
fn get_opt_bool_field(j: &Json, key: &str) -> (r: Option<bool>)
    ensures
        match r {
            Some(b) => opt_bool_field(model_get(jmodel(*j), key@)) == Some(b),
            None => opt_bool_field(model_get(jmodel(*j), key@)) is None,
        },
{
    match obj_get(j, key) {
        Some(v) => match v {
            Json::Bool(b) => Some(*b),
            _ => None,
        },
        None => Some(false),
    }
}

/// Classify one element of an assistant content array.
fn classify_block(j: &Json) -> (r: Option<ContentBlock>)
    ensures
        match r {
            Some(b) => spec_classify_block(jmodel(*j)) == Some(block_model(b)),
            None => spec_classify_block(jmodel(*j)) is None,
        },
{
    let t = match obj_get(j, "type") {
        Some(tv) => match as_str(tv) {
            Some(s) => s,
            None => {
                return None;
            },
        },
        None => {
            return None;
        },
    };
    if str_eq(t.as_str(), "text") {
        match obj_get(j, "text") {
            Some(tv) => match as_str(tv) {
                Some(s) => Some(ContentBlock::Text { text: s.clone() }),
                None => None,
            },
            None => None,
        }
    } else if str_eq(t.as_str(), "tool_use") {
        proof {
            reveal_strlit("text");
            reveal_strlit("tool_use");
            assert("text"@.len() == 4);
            assert("tool_use"@.len() == 8);
            assert("text"@ != "tool_use"@);
        }
        let id = match obj_get(j, "id") {
            Some(v) => match as_str(v) {
                Some(s) => s.clone(),
                None => {
                    return None;
                },
            },
            None => {
                return None;
            },
        };
        let name = match obj_get(j, "name") {
            Some(v) => match as_str(v) {
                Some(s) => s.clone(),
                None => {
                    return None;
                },
            },
            None => {
                return None;
            },
        };
        let input = match obj_get(j, "input") {
            Some(v) => v.clone_json(),
            None => {
                return None;
            },
        };
        Some(ContentBlock::ToolUse { id, name, input })
    } else {
        None
    }
}

/// Classify one parsed line of the CLI's streaming output.
pub fn classify_claude_event(j: &Json) -> (r: Option<StreamEvent>)
    ensures
        match r {
            Some(e) => spec_classify_claude(jmodel(*j)) == Some(event_model(e)),
            None => spec_classify_claude(jmodel(*j)) is None,
        },
{
    let t = match obj_get(j, "type") {
        Some(tv) => match as_str(tv) {
            Some(s) => s,
            None => {
                return None;
            },
        },
        None => {
            return None;
        },
    };
    proof {
        reveal_strlit("system");
        reveal_strlit("assistant");
        reveal_strlit("user");
        reveal_strlit("result");
        assert("system"@.len() == 6);
        assert("assistant"@.len() == 9);
        assert("user"@.len() == 4);
        assert("result"@.len() == 6);
        assert("system"@ != "assistant"@ && "system"@ != "user"@ && "assistant"@ != "user"@
            && "assistant"@ != "result"@ && "user"@ != "result"@);
        assert("system"@[0] == 's' && "result"@[0] == 'r');
        assert("system"@ != "result"@);
    }
    if str_eq(t.as_str(), "system") {
        let session_id = match get_opt_str_field(j, "session_id") {
            Some(v) => v,
            None => {
                return None;
            },
        };
        let subtype = match get_opt_str_field(j, "subtype") {
            Some(v) => v,
            None => {
                return None;
            },
        };
        Some(StreamEvent::System { session_id, subtype })
    } else if str_eq(t.as_str(), "assistant") {
        let msg = match obj_get(j, "message") {
            Some(m) => m,
            None => {
                return None;
            },
        };
        if !is_obj(msg) {
            return None;
        }
        match obj_get(msg, "content") {
            Some(cv) => match as_arr(cv) {
                Some(items) => match classify_blocks(items) {
                    Some(content) => Some(
                        StreamEvent::Assistant { message: AssistantMessage { content } },
                    ),
                    None => None,
                },
                None => None,
            },
            None => Some(
                StreamEvent::Assistant { message: AssistantMessage { content: Vec::new() } },
            ),
        }
    } else if str_eq(t.as_str(), "user") {
        Some(StreamEvent::User)
    } else if str_eq(t.as_str(), "result") {
        let subtype = match get_opt_str_field(j, "subtype") {
            Some(v) => v,
            None => {
                return None;
            },
        };
        let result = match get_opt_str_field(j, "result") {
            Some(v) => v,
            None => {
                return None;
            },
        };
        let session_id = match get_opt_str_field(j, "session_id") {
            Some(v) => v,
            None => {
                return None;
            },
        };
        Some(StreamEvent::Result { subtype, result, session_id })
    } else {
        None
    }
}

/// Classify every element of a content array; one malformed element rejects
/// the whole array.
fn classify_blocks(items: &Vec<Json>) -> (r: Option<Vec<ContentBlock>>)
    ensures
        match r {
            Some(bs) => spec_classify_blocks(jmodel_seq(items@)) == Some(blocks_model(bs@)),
            None => spec_classify_blocks(jmodel_seq(items@)) is None,
        },
{
    let ghost mitems = jmodel_seq(items@);
    proof {
        lemma_jmodel_seq(items@);
        assert(mitems.skip(0) =~= mitems);
    }
    let n: usize = items.len();
    let mut out: Vec<ContentBlock> = Vec::new();
    let mut i: usize = 0;
    while i < n
        invariant
            n == items@.len(),
            i <= n,
            mitems == jmodel_seq(items@),
            mitems.len() == n,
            forall|t: int| 0 <= t < n ==> mitems[t] == jmodel(items@[t]),
            match spec_classify_blocks(mitems.skip(i as int)) {
                Some(rest) => spec_classify_blocks(mitems) == Some(blocks_model(out@) + rest),
                None => spec_classify_blocks(mitems) is None,
            },
        decreases n - i,
    {
        proof {
            assert(mitems.skip(i as int)[0] == mitems[i as int]);
            assert(mitems.skip(i as int).drop_first() =~= mitems.skip(i + 1));
        }
        match classify_block(&items[i]) {
            Some(b) => {
                let ghost pre = out@;
                out.push(b);
                proof {
                    assert(out@.drop_last() =~= pre);
                    assert(blocks_model(out@) =~= blocks_model(pre).push(block_model(b)));
                    if spec_classify_blocks(mitems.skip(i + 1)) is Some {
                        let rest = spec_classify_blocks(mitems.skip(i + 1))->Some_0;
                        assert(blocks_model(pre) + (seq![block_model(b)] + rest) =~= blocks_model(
                            out@,
                        ) + rest);
                    }
                }
            },
            None => {
                return None;
            },
        }
        i = i + 1;
    }
    proof {
        assert(mitems.skip(n as int) =~= Seq::<JsonModel>::empty());
        assert(blocks_model(out@) + Seq::<ContentBlockModel>::empty() =~= blocks_model(out@));
    }
    Some(out)
}

/// What one element of a question-options array means, or nothing for a
/// malformed element.
pub open spec fn spec_option_of(m: JsonModel) -> Option<OptionModel> {
    match model_get(m, "label"@) {
        Some(JsonModel::Str(l)) => match opt_str_field(model_get(m, "description"@)) {
            Some(d) => Some(OptionModel { label: l, description: d }),
            None => None,
        },
        _ => None,
    }
}

/// The meanings of all elements of an options array; one malformed element
/// rejects the whole array.
pub open spec fn spec_options_list(items: Seq<JsonModel>) -> Option<Seq<OptionModel>>
    decreases items.len(),
{
    if items.len() == 0 {
        Some(Seq::empty())
    } else {
        match (spec_option_of(items[0]), spec_options_list(items.drop_first())) {
            (Some(o), Some(rest)) => Some(seq![o] + rest),
            _ => None,
        }
    }
}

/// What one element of a questions array means, or nothing for a malformed
/// element.
pub open spec fn spec_question_of(m: JsonModel) -> Option<QuestionModel> {
    match model_get(m, "question"@) {
        Some(JsonModel::Str(q)) => {
            let opts = match model_get(m, "options"@) {
                Some(JsonModel::Arr(items)) => spec_options_list(items),
                Some(_) => None,
                None => Some(Seq::<OptionModel>::empty()),
            };
            match (
                opts,
                opt_str_field(model_get(m, "header"@)),
                opt_bool_field(model_get(m, "multiSelect"@)),
            ) {
                (Some(o), Some(h), Some(ms)) => Some(
                    QuestionModel { question: q, header: h, options: o, multi_select: ms },
                ),
                _ => None,
            }
        },
        _ => None,
    }
}

/// The meanings of all elements of a questions array; one malformed element
/// rejects the whole array.
pub open spec fn spec_questions_list(items: Seq<JsonModel>) -> Option<Seq<QuestionModel>>
    decreases items.len(),
{
    if items.len() == 0 {
        Some(Seq::empty())
    } else {
        match (spec_question_of(items[0]), spec_questions_list(items.drop_first())) {
            (Some(q), Some(rest)) => Some(seq![q] + rest),
            _ => None,
        }
    }
}

/// The question list carried by an ask-question tool invocation: the
/// `questions` field, decoded whole; a malformed list yields no questions,
/// mirroring the all-or-nothing decode of the source schema.
pub open spec fn spec_parse_questions(input: JsonModel) -> Seq<QuestionModel> {
    match model_get(input, "questions"@) {
        Some(JsonModel::Arr(items)) => match spec_questions_list(items) {
            Some(qs) => qs,
            None => Seq::empty(),
        },
        _ => Seq::empty(),
    }
}

/// Decode one option of a question.
fn parse_option(j: &Json) -> (r: Option<OptionData>)
    ensures
        match r {
            Some(o) => spec_option_of(jmodel(*j)) == Some(opt_model(o)),
            None => spec_option_of(jmodel(*j)) is None,
        },
{
    match obj_get(j, "label") {
        Some(lv) => match as_str(lv) {
            Some(l) => match get_opt_str_field(j, "description") {
                Some(d) => Some(OptionData { label: l.clone(), description: d }),
                None => None,
            },
            None => None,
        },
        None => None,
    }
}

/// Decode all options of a question.
fn parse_options(items: &Vec<Json>) -> (r: Option<Vec<OptionData>>)
    ensures
        match r {
            Some(os) => spec_options_list(jmodel_seq(items@)) == Some(opt_models(os@)),
            None => spec_options_list(jmodel_seq(items@)) is None,
        },
{
    let ghost mitems = jmodel_seq(items@);
    proof {
        lemma_jmodel_seq(items@);
        assert(mitems.skip(0) =~= mitems);
    }
    let n: usize = items.len();
    let mut out: Vec<OptionData> = Vec::new();
    let mut i: usize = 0;
    while i < n
        invariant
            n == items@.len(),
            i <= n,
            mitems == jmodel_seq(items@),
            mitems.len() == n,
            forall|t: int| 0 <= t < n ==> mitems[t] == jmodel(items@[t]),
            match spec_options_list(mitems.skip(i as int)) {
                Some(rest) => spec_options_list(mitems) == Some(opt_models(out@) + rest),
                None => spec_options_list(mitems) is None,
            },
        decreases n - i,
    {
        proof {
            assert(mitems.skip(i as int)[0] == mitems[i as int]);
            assert(mitems.skip(i as int).drop_first() =~= mitems.skip(i + 1));
        }
        match parse_option(&items[i]) {
            Some(o) => {
                let ghost pre = out@;
                out.push(o);
                proof {
                    assert(out@.drop_last() =~= pre);
                    assert(opt_models(out@) =~= opt_models(pre).push(opt_model(o)));
                    if spec_options_list(mitems.skip(i + 1)) is Some {
                        let rest = spec_options_list(mitems.skip(i + 1))->Some_0;
                        assert(opt_models(pre) + (seq![opt_model(o)] + rest) =~= opt_models(out@)
                            + rest);
                    }
                }
            },
            None => {
                return None;
            },
        }
        i = i + 1;
    }
    proof {
        assert(mitems.skip(n as int) =~= Seq::<JsonModel>::empty());
        assert(opt_models(out@) + Seq::<OptionModel>::empty() =~= opt_models(out@));
    }
    Some(out)
}

/// Decode one question.
fn parse_question(j: &Json) -> (r: Option<QuestionData>)
    ensures
        match r {
            Some(q) => spec_question_of(jmodel(*j)) == Some(q_model(q)),
            None => spec_question_of(jmodel(*j)) is None,
        },
{
    let question = match obj_get(j, "question") {
        Some(qv) => match as_str(qv) {
            Some(s) => s.clone(),
            None => {
                return None;
            },
        },
        None => {
            return None;
        },
    };
    let options = match obj_get(j, "options") {
        Some(ov) => match as_arr(ov) {
            Some(items) => match parse_options(items) {
                Some(os) => os,
                None => {
                    return None;
                },
            },
            None => {
                return None;
            },
        },
        None => Vec::new(),
    };
    let header = match get_opt_str_field(j, "header") {
        Some(h) => h,
        None => {
            return None;
        },
    };
    let multi_select = match get_opt_bool_field(j, "multiSelect") {
        Some(ms) => ms,
        None => {
            return None;
        },
    };
    proof {
        assert(opt_models(Seq::<OptionData>::empty()) =~= Seq::<OptionModel>::empty());
    }
    Some(QuestionData { question, header, options, multi_select })
}

/// Decode a whole questions array.
fn parse_questions_list(items: &Vec<Json>) -> (r: Option<Vec<QuestionData>>)
    ensures
        match r {
            Some(qs) => spec_questions_list(jmodel_seq(items@)) == Some(q_models(qs@)),
            None => spec_questions_list(jmodel_seq(items@)) is None,
        },
{
    let ghost mitems = jmodel_seq(items@);
    proof {
        lemma_jmodel_seq(items@);
        assert(mitems.skip(0) =~= mitems);
    }
    let n: usize = items.len();
    let mut out: Vec<QuestionData> = Vec::new();
    let mut i: usize = 0;
    while i < n
        invariant
            n == items@.len(),
            i <= n,
            mitems == jmodel_seq(items@),
            mitems.len() == n,
            forall|t: int| 0 <= t < n ==> mitems[t] == jmodel(items@[t]),
            match spec_questions_list(mitems.skip(i as int)) {
                Some(rest) => spec_questions_list(mitems) == Some(q_models(out@) + rest),
                None => spec_questions_list(mitems) is None,
            },
        decreases n - i,
    {
        proof {
            assert(mitems.skip(i as int)[0] == mitems[i as int]);
            assert(mitems.skip(i as int).drop_first() =~= mitems.skip(i + 1));
        }
        match parse_question(&items[i]) {
            Some(q) => {
                let ghost pre = out@;
                out.push(q);
                proof {
                    assert(out@.drop_last() =~= pre);
                    assert(q_models(out@) =~= q_models(pre).push(q_model(q)));
                    if spec_questions_list(mitems.skip(i + 1)) is Some {
                        let rest = spec_questions_list(mitems.skip(i + 1))->Some_0;
                        assert(q_models(pre) + (seq![q_model(q)] + rest) =~= q_models(out@)
                            + rest);
                    }
                }
            },
            None => {
                return None;
            },
        }
        i = i + 1;
    }
    proof {
        assert(mitems.skip(n as int) =~= Seq::<JsonModel>::empty());
        assert(q_models(out@) + Seq::<QuestionModel>::empty() =~= q_models(out@));
    }
    Some(out)
}

/// Decode the question list of an ask-question tool invocation.
pub fn parse_questions(input: &Json) -> (r: Vec<QuestionData>)
    ensures
        q_models(r@) == spec_parse_questions(jmodel(*input)),
{
    match obj_get(input, "questions") {
        Some(qv) => match as_arr(qv) {
            Some(items) => match parse_questions_list(items) {
                Some(qs) => qs,
                None => Vec::new(),
            },
            None => Vec::new(),
        },
        None => Vec::new(),
    }
}

/// Per-turn runner state for the interactive CLI: whether a live child's
/// standard-input handle is retained by the caller, and the identifiers of
/// subagents started during the current turn, in start order.
pub struct ClaudeRunner {
    /// True while the caller retains the running child's standard input;
    /// interactive replies can only be written then.
    pub stdin_open: bool,
    /// Active subagent identifiers, flushed in bulk at turn boundary.
    pub active_subagents: Vec<String>,
}

impl ClaudeRunner {
    /// Fresh runner state: no retained input handle, no subagents.
    pub fn new() -> (r: Self)
        ensures
            !r.stdin_open,
            r.active_subagents.deep_view() == Seq::<Seq<char>>::empty(),
    {
        let r = ClaudeRunner { stdin_open: false, active_subagents: Vec::new() };
        proof {
            assert(r.active_subagents.deep_view() =~= Seq::<Seq<char>>::empty());
        }
        r
    }
}

/// The description a subagent-start invocation carries, `task` when absent.
pub open spec fn spec_task_desc(input: JsonModel) -> Seq<char> {
    match model_get(input, "description"@) {
        Some(JsonModel::Str(s)) => s,
        _ => "task"@,
    }
}

/// The identifier a started subagent is tracked under: the invocation
/// identifier, an underscore, and the description with spaces replaced.
pub open spec fn spec_task_id(id: Seq<char>, input: JsonModel) -> Seq<char> {
    id + "_"@ + crate::text::spec_replace_spaces(spec_task_desc(input))
}

/// The notifications one tool invocation fans out to, in emission order:
/// a subagent start for the nested-subagent tool, then at most one routed
/// notification (plan-exit, ask-question, emotion, movement; a screenshot
/// is served through the separate tool-server channel and emits nothing),
/// then always the generic tool-used notification.
pub open spec fn spec_tool_use_notes(id: Seq<char>, name: Seq<char>, input: JsonModel) -> Seq<
    NotificationModel,
> {
    let start: Seq<NotificationModel> = if name == "Task"@ {
        seq![
            NotificationModel::SubagentStart {
                task_id: spec_task_id(id, input),
                description: spec_task_desc(input),
            },
        ]
    } else {
        Seq::empty()
    };
    let routed: Seq<NotificationModel> = if name == "ExitPlanMode"@ {
        seq![NotificationModel::AgentExitPlanMode { tool_use_id: id }]
    } else if name == "AskUserQuestion"@ {
        seq![
            NotificationModel::AgentAskQuestion {
                question_id: id,
                questions: spec_parse_questions(input),
            },
        ]
    } else if crate::text::contains_sub(name, "set_emotion"@) {
        seq![NotificationModel::AgentEmotion { input }]
    } else if crate::text::contains_sub(name, "move_to"@) {
        seq![NotificationModel::MascotMove { input }]
    } else {
        Seq::empty()
    };
    start + routed + seq![NotificationModel::AgentToolUse { tool: name, input }]
}

/// The notifications one content block fans out to.
pub open spec fn spec_block_notes(b: ContentBlockModel) -> Seq<NotificationModel> {
    match b {
        ContentBlockModel::Text { text } => seq![NotificationModel::AgentStream { text }],
        ContentBlockModel::ToolUse { id, name, input } => spec_tool_use_notes(id, name, input),
    }
}

/// The notifications of a whole block list, in order.
pub open spec fn spec_blocks_notes(s: Seq<ContentBlockModel>) -> Seq<NotificationModel>
    decreases s.len(),
{
    if s.len() == 0 {
        Seq::empty()
    } else {
        spec_blocks_notes(s.drop_last()) + spec_block_notes(s.last())
    }
}

/// The subagent identifiers one block starts: one for the nested-subagent
/// tool, none otherwise.
pub open spec fn spec_block_new_tasks(b: ContentBlockModel) -> Seq<Seq<char>> {
    match b {
        ContentBlockModel::ToolUse { id, name, input } => if name == "Task"@ {
            seq![spec_task_id(id, input)]
        } else {
            Seq::empty()
        },
        _ => Seq::empty(),
    }
}

/// The subagent identifiers a whole block list starts, in order.
pub open spec fn spec_blocks_new_tasks(s: Seq<ContentBlockModel>) -> Seq<Seq<char>>
    decreases s.len(),
{
    if s.len() == 0 {
        Seq::empty()
    } else {
        spec_blocks_new_tasks(s.drop_last()) + spec_block_new_tasks(s.last())
    }
}

/// One subagent-end notification per identifier, in start order.
pub open spec fn spec_subagent_end_notes(ids: Seq<Seq<char>>) -> Seq<NotificationModel>
    decreases ids.len(),
{
    if ids.len() == 0 {
        Seq::empty()
    } else {
        spec_subagent_end_notes(ids.drop_last()).push(
            NotificationModel::SubagentEnd { task_id: ids.last() },
        )
    }
}

/// Everything one stream event makes the router emit, in order, given the
/// subagents active when it arrives.
pub open spec fn spec_claude_notes(e: StreamEventModel, subagents: Seq<Seq<char>>) -> Seq<
    NotificationModel,
> {
    match e {
        StreamEventModel::System { session_id, subtype } => match session_id {
            Some(sid) => seq![
                NotificationModel::PersistSession { session_id: sid },
                NotificationModel::SessionInfo { session_id: sid },
            ],
            None => Seq::empty(),
        },
        StreamEventModel::Assistant { content } => spec_blocks_notes(content),
        StreamEventModel::User => Seq::empty(),
        StreamEventModel::Result { subtype, result, session_id } => {
            let persist: Seq<NotificationModel> = match session_id {
                Some(sid) => seq![NotificationModel::PersistSession { session_id: sid }],
                None => Seq::empty(),
            };
            persist + spec_subagent_end_notes(subagents) + seq![
                NotificationModel::AgentResult {
                    success: subtype == Some("success"@),
                    text: match result {
                        Some(t) => t,
                        None => Seq::empty(),
                    },
                },
            ]
        },
    }
}

/// The session identifier after one stream event: announced or carried
/// identifiers replace the old one; everything else keeps it.
pub open spec fn spec_claude_session_after(
    e: StreamEventModel,
    old_sid: Option<Seq<char>>,
) -> Option<Seq<char>> {
    match e {
        StreamEventModel::System { session_id, subtype } => match session_id {
            Some(s) => Some(s),
            None => old_sid,
        },
        StreamEventModel::Result { subtype, result, session_id } => match session_id {
            Some(s) => Some(s),
            None => old_sid,
        },
        _ => old_sid,
    }
}

/// The active subagent set after one stream event: assistant blocks append
/// the subagents they start; a terminal result flushes the set; everything
/// else keeps it.
pub open spec fn spec_claude_subagents_after(e: StreamEventModel, old_subs: Seq<Seq<char>>) -> Seq<
    Seq<char>,
> {
    match e {
        StreamEventModel::Assistant { content } => old_subs + spec_blocks_new_tasks(content),
        StreamEventModel::Result { subtype, result, session_id } => Seq::empty(),
        _ => old_subs,
    }
}

/// `spec_subagent_end_notes` maps the identifier list pointwise.
pub proof fn lemma_subagent_end_notes(ids: Seq<Seq<char>>)
    ensures
        spec_subagent_end_notes(ids).len() == ids.len(),
        forall|i: int|
            0 <= i < ids.len() ==> spec_subagent_end_notes(ids)[i]
                == (NotificationModel::SubagentEnd { task_id: ids[i] }),
    decreases ids.len(),
{
    if ids.len() > 0 {
        lemma_subagent_end_notes(ids.drop_last());
    }
}

/// Law: at a turn's terminal result, every subagent active when it arrives
/// is closed out in bulk: one end notification each, in start order,
/// standing right before the final turn-result notification, and the
/// active set is empty afterwards.
pub proof fn lemma_subagent_bulk_flush(
    subs: Seq<Seq<char>>,
    subtype: Option<Seq<char>>,
    result: Option<Seq<char>>,
)
    ensures
        ({
            let e = StreamEventModel::Result { subtype, result, session_id: None };
            let notes = spec_claude_notes(e, subs);
            notes.len() == subs.len() + 1 && (forall|i: int|
                0 <= i < subs.len() ==> notes[i] == (NotificationModel::SubagentEnd {
                    task_id: subs[i],
                })) && spec_claude_subagents_after(e, subs) == Seq::<Seq<char>>::empty()
        }),
{
    lemma_subagent_end_notes(subs);
    let e = StreamEventModel::Result { subtype, result, session_id: None };
    assert(spec_claude_notes(e, subs) =~= spec_subagent_end_notes(subs) + seq![
        NotificationModel::AgentResult {
            success: subtype == Some("success"@),
            text: match result {
                Some(t) => t,
                None => Seq::empty(),
            },
        },
    ]);
}

/// Route one stream event: update the session store and the runner's
/// subagent set, and return the notifications to emit, in order.
pub fn handle_stream_event(
    state: &mut crate::state::AppState,
    runner: &mut ClaudeRunner,
    event: StreamEvent,
) -> (r: Vec<Notification>)
    ensures
        note_models(r@) == spec_claude_notes(
            event_model(event),
            old(runner).active_subagents.deep_view(),
        ),
        opt_view(final(state).session_id) == spec_claude_session_after(
            event_model(event),
            opt_view(old(state).session_id),
        ),
        final(state).backend_mode == old(state).backend_mode,
        final(state).codex_session_id == old(state).codex_session_id,
        final(state).dev_mode == old(state).dev_mode,
        final(state).supiki_mode == old(state).supiki_mode,
        final(state).sidecar_cwd == old(state).sidecar_cwd,
        final(state).recent_cwds == old(state).recent_cwds,
        final(runner).active_subagents.deep_view() == spec_claude_subagents_after(
            event_model(event),
            old(runner).active_subagents.deep_view(),
        ),
        final(runner).stdin_open == old(runner).stdin_open,
{
    let ghost em = event_model(event);
    let mut out: Vec<Notification> = Vec::new();
    proof {
        assert(note_models(out@) =~= Seq::<NotificationModel>::empty());
    }
    match event {
        StreamEvent::System { session_id, subtype } => {
            match session_id {
                Some(sid) => {
                    state.set_session_id(sid.clone());
                    let ghost p0 = out@;
                    out.push(Notification::PersistSession { session_id: sid.clone() });
                    proof {
                        lemma_note_models_push(
                            p0,
                            Notification::PersistSession { session_id: sid },
                        );
                    }
                    let ghost p1 = out@;
                    out.push(Notification::SessionInfo { session_id: sid });
                    proof {
                        assert(out@.drop_last() =~= p1);
                        lemma_note_models_push(
                            p1,
                            Notification::SessionInfo { session_id: sid },
                        );
                        assert(note_models(out@) =~= spec_claude_notes(
                            em,
                            old(runner).active_subagents.deep_view(),
                        ));
                    }
                },
                None => {},
            }
            out
        },
        StreamEvent::User => out,
        StreamEvent::Assistant { message } => {
            let content = message.content;
            let ghost bm = blocks_model(content@);
            let ghost subs0 = runner.active_subagents.deep_view();
            proof {
                lemma_blocks_model(content@);
                assert(blocks_model(content@.take(0)) =~= Seq::<ContentBlockModel>::empty());
                assert(spec_blocks_notes(blocks_model(content@.take(0)))
                    =~= Seq::<NotificationModel>::empty());
            }
            let n: usize = content.len();
            let mut i: usize = 0;
            while i < n
                invariant
                    n == content@.len(),
                    i <= n,
                    bm == blocks_model(content@),
                    bm.len() == n,
                    forall|t: int| 0 <= t < n ==> bm[t] == block_model(content@[t]),
                    note_models(out@) == spec_blocks_notes(bm.take(i as int)),
                    runner.active_subagents.deep_view() == subs0 + spec_blocks_new_tasks(
                        bm.take(i as int),
                    ),
                    runner.stdin_open == old(runner).stdin_open,
                    subs0 == old(runner).active_subagents.deep_view(),
                    *state == *old(state),
                decreases n - i,
            {
                proof {
                    assert(bm.take(i + 1).drop_last() =~= bm.take(i as int));
                    assert(bm.take(i + 1).last() == bm[i as int]);
                }
                let ghost out_pre = out@;
                let ghost subs_pre = runner.active_subagents.deep_view();
                match &content[i] {
                    ContentBlock::Text { text } => {
                        out.push(Notification::AgentStream { text: text.clone() });
                        proof {
                            lemma_note_models_push(
                                out_pre,
                                Notification::AgentStream { text: *text },
                            );
                            assert(note_models(out@) =~= spec_blocks_notes(bm.take(i as int))
                                + spec_block_notes(bm[i as int]));
                            assert(spec_blocks_new_tasks(bm.take(i + 1)) =~= spec_blocks_new_tasks(
                                bm.take(i as int),
                            ) + spec_block_new_tasks(bm[i as int]));
                        }
                    },
                    ContentBlock::ToolUse { id, name, input } => {
                        handle_tool_use_block(&mut out, runner, id, name, input);
                        proof {
                            assert(note_models(out@) =~= spec_blocks_notes(bm.take(i as int))
                                + spec_block_notes(bm[i as int]));
                            assert(runner.active_subagents.deep_view() =~= subs0
                                + spec_blocks_new_tasks(bm.take(i + 1)));
                        }
                    },
                }
                i = i + 1;
            }
            proof {
                assert(bm.take(n as int) == bm);
            }
            out
        },
        StreamEvent::Result { subtype, result, session_id } => {
            let ghost subs0 = runner.active_subagents.deep_view();
            match session_id {
                Some(sid) => {
                    state.set_session_id(sid.clone());
                    let ghost p0 = out@;
                    out.push(Notification::PersistSession { session_id: sid });
                    proof {
                        lemma_note_models_push(
                            p0,
                            Notification::PersistSession { session_id: sid },
                        );
                    }
                },
                None => {},
            }
            let ghost persist = note_models(out@);
            let subs = runner.active_subagents.clone();
            proof {
                assert(forall|t: int|
                    0 <= t < runner.active_subagents@.len() ==> subs@[t]
                        == runner.active_subagents@[t]);
                assert(subs.deep_view() =~= runner.active_subagents.deep_view());
            }
            runner.active_subagents = Vec::new();
            proof {
                assert(runner.active_subagents.deep_view()
                    =~= Seq::<Seq<char>>::empty());
                assert(spec_subagent_end_notes(subs0.take(0))
                    =~= Seq::<NotificationModel>::empty());
                assert(note_models(out@) =~= persist + spec_subagent_end_notes(subs0.take(0)));
            }
            let m: usize = subs.len();
            let mut k: usize = 0;
            while k < m
                invariant
                    m == subs@.len(),
                    k <= m,
                    subs0 == subs.deep_view(),
                    subs0.len() == m,
                    note_models(out@) == persist + spec_subagent_end_notes(subs0.take(k as int)),
                decreases m - k,
            {
                let ghost p = out@;
                let task: &String = &subs[k];
                out.push(Notification::SubagentEnd(SubagentEndEvent { task_id: task.clone() }));
                proof {
                    lemma_note_models_push(
                        p,
                        Notification::SubagentEnd(SubagentEndEvent { task_id: *task }),
                    );
                    assert(subs0.take(k + 1).drop_last() =~= subs0.take(k as int));
                    assert(subs0.take(k + 1).last() == subs0[k as int]);
                    assert(subs0[k as int] == subs@[k as int]@);
                    assert(note_models(out@) =~= persist + spec_subagent_end_notes(
                        subs0.take(k + 1),
                    ));
                }
                k = k + 1;
            }
            proof {
                assert(subs0.take(m as int) == subs0);
            }
            let success = match &subtype {
                Some(s) => crate::text::str_eq(s.as_str(), "success"),
                None => false,
            };
            let text = match result {
                Some(t) => t,
                None => String::new(),
            };
            let ghost p = out@;
            let ghost tv = text@;
            out.push(Notification::AgentResult { success, text });
            proof {
                lemma_note_models_push(p, out@.last());
                assert(note_models(out@) =~= spec_claude_notes(em, subs0));
            }
            out
        },
    }
}

/// Route one tool invocation: record a started subagent, fan out the routed
/// notification, and always emit the generic tool-used notification.
fn handle_tool_use_block(
    out: &mut Vec<Notification>,
    runner: &mut ClaudeRunner,
    id: &String,
    name: &String,
    input: &Json,
) -> (unit: ())
    ensures
        note_models(final(out)@) == note_models(old(out)@) + spec_tool_use_notes(
            id@,
            name@,
            jmodel(*input),
        ),
        final(runner).active_subagents.deep_view() == old(runner).active_subagents.deep_view()
            + (if name@ == "Task"@ {
            seq![spec_task_id(id@, jmodel(*input))]
        } else {
            Seq::<Seq<char>>::empty()
        }),
        final(runner).stdin_open == old(runner).stdin_open,
{
    let ghost out0 = note_models(out@);
    let ghost subs0 = runner.active_subagents.deep_view();
    if crate::text::str_eq(name.as_str(), "Task") {
        let description = match obj_get(input, "description") {
            Some(dv) => match as_str(dv) {
                Some(s) => s.clone(),
                None => String::from_str("task"),
            },
            None => String::from_str("task"),
        };
        proof {
            assert(description@ == spec_task_desc(jmodel(*input)));
        }
        let task_id = id.clone().concat("_").concat(
            crate::text::replace_spaces(description.as_str()).as_str(),
        );
        proof {
            assert(task_id@ == spec_task_id(id@, jmodel(*input)));
        }
        runner.active_subagents.push(task_id.clone());
        proof {
            assert(runner.active_subagents.deep_view() =~= subs0.push(task_id@));
            assert(subs0.push(task_id@) =~= subs0 + seq![spec_task_id(id@, jmodel(*input))]);
        }
        let ghost p = out@;
        out.push(
            Notification::SubagentStart(SubagentStartEvent { task_id, description }),
        );
        proof {
            lemma_note_models_push(p, out@.last());
        }
    } else {
        proof {
            assert(subs0 + Seq::<Seq<char>>::empty() =~= subs0);
        }
    }
    let ghost mid0 = note_models(out@);
    if crate::text::str_eq(name.as_str(), "ExitPlanMode") {
        let ghost p = out@;
        out.push(
            Notification::AgentExitPlanMode(ExitPlanModeEvent { tool_use_id: id.clone() }),
        );
        proof {
            lemma_note_models_push(p, out@.last());
        }
    } else if crate::text::str_eq(name.as_str(), "AskUserQuestion") {
        let questions = parse_questions(input);
        let ghost p = out@;
        out.push(
            Notification::AgentAskQuestion(
                AskUserQuestionEvent { question_id: id.clone(), questions },
            ),
        );
        proof {
            lemma_note_models_push(p, out@.last());
        }
    } else if crate::text::str_contains(name.as_str(), "set_emotion") {
        let ghost p = out@;
        out.push(Notification::AgentEmotion { input: input.clone_json() });
        proof {
            lemma_note_models_push(p, out@.last());
        }
    } else if crate::text::str_contains(name.as_str(), "move_to") {
        let ghost p = out@;
        out.push(Notification::MascotMove { input: input.clone_json() });
        proof {
            lemma_note_models_push(p, out@.last());
        }
    }
    let ghost p = out@;
    out.push(
        Notification::AgentToolUse(ToolUseEvent { tool: name.clone(), input: input.clone_json() }),
    );
    proof {
        lemma_note_models_push(p, out@.last());
        assert(note_models(out@) =~= out0 + spec_tool_use_notes(id@, name@, jmodel(*input)));
    }
}

/// A JSON string literal holding exactly the characters of `s`.
pub open spec fn spec_json_str(s: Seq<char>) -> Seq<char> {
    seq!['"'] + crate::json::spec_json_escape(s) + seq!['"']
}

/// The stream-json user message that carries one correlated tool result:
/// a user message whose content is a single tool-result block, with the
/// error flag present only on an error result.
pub open spec fn spec_tool_result_message(
    id: Seq<char>,
    content: Seq<char>,
    is_error: bool,
) -> Seq<char> {
    "{\"type\":\"user\",\"message\":{\"role\":\"user\",\"content\":[{\"type\":\"tool_result\",\"tool_use_id\":"@
        + spec_json_str(id) + ",\"content\":"@ + spec_json_str(content) + (if is_error {
        ",\"is_error\":true"@
    } else {
        Seq::<char>::empty()
    }) + "}]}}"@
}

/// The stream-json user message that answers a multiple-choice question:
/// the correlated tool result paired with a synthetic user-text block, so
/// the backend continues instead of ending its turn, plus the structured
/// result payload, embedded verbatim.
pub open spec fn spec_ask_result_message(
    id: Seq<char>,
    content: Seq<char>,
    tool_use_result: Seq<char>,
) -> Seq<char> {
    "{\"type\":\"user\",\"message\":{\"role\":\"user\",\"content\":[{\"type\":\"tool_result\",\"tool_use_id\":"@
        + spec_json_str(id) + ",\"content\":"@ + spec_json_str(content)
        + "},{\"type\":\"text\",\"text\":"@ + spec_json_str(content) + "}]},\"toolUseResult\":"@
        + tool_use_result + "}"@
}

impl ClaudeRunner {
    /// Build the correlated tool-result reply line for the retained
    /// standard input. With no turn open it fails, and nothing is written:
    /// the caller only writes the line this hands back.
    pub fn send_tool_result(&self, tool_use_id: &str, content: &str, is_error: bool) -> (r: Result<
        String,
        String,
    >)
        ensures
            self.stdin_open ==> (r matches Ok(m) && m@ == spec_tool_result_message(
                tool_use_id@,
                content@,
                is_error,
            )),
            !self.stdin_open ==> (r matches Err(e) && e@ == "assistant stdin not available"@),
    {
        if !self.stdin_open {
            return Err(String::from_str("assistant stdin not available"));
        }
        let mut m = String::from_str(
            "{\"type\":\"user\",\"message\":{\"role\":\"user\",\"content\":[{\"type\":\"tool_result\",\"tool_use_id\":",
        );
        m.append(crate::json::json_quote(tool_use_id).as_str());
        m.append(",\"content\":");
        m.append(crate::json::json_quote(content).as_str());
        if is_error {
            m.append(",\"is_error\":true");
        }
        m.append("}]}}");
        proof {
            assert(m@ =~= spec_tool_result_message(tool_use_id@, content@, is_error));
        }
        Ok(m)
    }

    /// Build the reply line that answers a multiple-choice question. The
    /// structured payload is embedded verbatim; `respond_to_ask_user_question`
    /// builds it from validated parts. With no turn open this fails, and
    /// nothing is written.
    pub fn send_ask_user_question_result(
        &self,
        tool_use_id: &str,
        content: &str,
        tool_use_result: &str,
    ) -> (r: Result<String, String>)
        ensures
            self.stdin_open ==> (r matches Ok(m) && m@ == spec_ask_result_message(
                tool_use_id@,
                content@,
                tool_use_result@,
            )),
            !self.stdin_open ==> (r matches Err(e) && e@ == "assistant stdin not available"@),
    {
        if !self.stdin_open {
            return Err(String::from_str("assistant stdin not available"));
        }
        let mut m = String::from_str(
            "{\"type\":\"user\",\"message\":{\"role\":\"user\",\"content\":[{\"type\":\"tool_result\",\"tool_use_id\":",
        );
        m.append(crate::json::json_quote(tool_use_id).as_str());
        m.append(",\"content\":");
        let quoted_content = crate::json::json_quote(content);
        m.append(quoted_content.as_str());
        m.append("},{\"type\":\"text\",\"text\":");
        m.append(quoted_content.as_str());
        m.append("}]},\"toolUseResult\":");
        m.append(tool_use_result);
        m.append("}");
        proof {
            assert(m@ =~= spec_ask_result_message(tool_use_id@, content@, tool_use_result@));
        }
        Ok(m)
    }

    /// Confirm a plan-exit request: a success tool result.
    pub fn confirm_exit_plan_mode(&self, tool_use_id: &str) -> (r: Result<String, String>)
        ensures
            self.stdin_open ==> (r matches Ok(m) && m@ == spec_tool_result_message(
                tool_use_id@,
                "Plan mode exited."@,
                false,
            )),
            !self.stdin_open ==> (r matches Err(e) && e@ == "assistant stdin not available"@),
    {
        self.send_tool_result(tool_use_id, "Plan mode exited.", false)
    }

    /// Deny a plan-exit request: an error tool result carrying the reason.
    pub fn deny_exit_plan_mode(&self, tool_use_id: &str, reason: &str) -> (r: Result<
        String,
        String,
    >)
        ensures
            self.stdin_open ==> (r matches Ok(m) && m@ == spec_tool_result_message(
                tool_use_id@,
                reason@,
                true,
            )),
            !self.stdin_open ==> (r matches Err(e) && e@ == "assistant stdin not available"@),
    {
        self.send_tool_result(tool_use_id, reason, true)
    }
}

/// The human-readable answers summary: each question and its answer in
/// quotes, joined with commas.
pub open spec fn spec_answers_text(answers: Seq<(Seq<char>, Seq<char>)>) -> Seq<char>
    decreases answers.len(),
{
    if answers.len() == 0 {
        Seq::empty()
    } else if answers.len() == 1 {
        spec_answer_pair(answers[0])
    } else {
        spec_answers_text(answers.drop_last()) + ", "@ + spec_answer_pair(answers.last())
    }
}

/// One `"question"="answer"` element of the answers summary.
pub open spec fn spec_answer_pair(p: (Seq<char>, Seq<char>)) -> Seq<char> {
    "\""@ + p.0 + "\"=\""@ + p.1 + "\""@
}

/// The members of the structured answers object, in the order the answers
/// were given.
pub open spec fn spec_answers_pairs(answers: Seq<(Seq<char>, Seq<char>)>) -> Seq<char>
    decreases answers.len(),
{
    if answers.len() == 0 {
        Seq::empty()
    } else if answers.len() == 1 {
        spec_json_str(answers[0].0) + ":"@ + spec_json_str(answers[0].1)
    } else {
        spec_answers_pairs(answers.drop_last()) + ","@ + spec_json_str(answers.last().0) + ":"@
            + spec_json_str(answers.last().1)
    }
}

/// The structured answers object: a JSON object from question to answer,
/// in the order the answers were given.
pub open spec fn spec_answers_obj(answers: Seq<(Seq<char>, Seq<char>)>) -> Seq<char> {
    "{"@ + spec_answers_pairs(answers) + "}"@
}

/// Build the whole ask-question reply line from the original questions text
/// and the user's answers, in order. The questions text must itself be one
/// JSON document; one that does not parse is rejected with a descriptive
/// error, and nothing is written.
pub fn respond_to_ask_user_question(
    runner: &ClaudeRunner,
    tool_use_id: &str,
    questions_json: &str,
    answers: &Vec<(String, String)>,
) -> (r: Result<String, String>)
    ensures
        crate::json::json_of(questions_json@) is None ==> (r matches Err(e) && e@
            == "Failed to parse questions JSON"@),
        crate::json::json_of(questions_json@) is Some && !runner.stdin_open ==> (r matches Err(e)
            && e@ == "assistant stdin not available"@),
        crate::json::json_of(questions_json@) is Some && runner.stdin_open ==> (r matches Ok(m)
            && m@ == spec_ask_result_message(
            tool_use_id@,
            "User has answered your questions: "@ + spec_answers_text(answers.deep_view())
                + ". You can now continue with the user's answers in mind."@,
            "{\"questions\":"@ + questions_json@ + ",\"answers\":"@ + spec_answers_obj(
                answers.deep_view(),
            ) + "}"@,
        )),
{
    match crate::json::parse_json(questions_json) {
        Some(_) => {},
        None => {
            return Err(String::from_str("Failed to parse questions JSON"));
        },
    }
    let ghost am = answers.deep_view();
    let n: usize = answers.len();
    let mut answers_text = String::new();
    let mut answers_obj = String::new();
    let mut i: usize = 0;
    proof {
        assert(answers.deep_view().take(0) =~= Seq::<(Seq<char>, Seq<char>)>::empty());
    }
    while i < n
        invariant
            n == answers@.len(),
            i <= n,
            answers.deep_view().len() == n,
            forall|t: int|
                0 <= t < n ==> answers.deep_view()[t] == (answers@[t].0@, answers@[t].1@),
            answers_text@ == spec_answers_text(answers.deep_view().take(i as int)),
            answers_obj@ == spec_answers_pairs(answers.deep_view().take(i as int)),
        decreases n - i,
    {
        let entry: &(String, String) = &answers[i];
        if i > 0 {
            answers_text.append(", ");
            answers_obj.append(",");
        }
        answers_text.append("\"");
        answers_text.append(entry.0.as_str());
        answers_text.append("\"=\"");
        answers_text.append(entry.1.as_str());
        answers_text.append("\"");
        answers_obj.append(crate::json::json_quote(entry.0.as_str()).as_str());
        answers_obj.append(":");
        answers_obj.append(crate::json::json_quote(entry.1.as_str()).as_str());
        proof {
            let av = answers.deep_view();
            assert(av.take(i + 1).drop_last() =~= av.take(i as int));
            assert(av.take(i + 1).last() == av[i as int]);
            assert(av[i as int] == (entry.0@, entry.1@));
            if i == 0 {
                assert(av.take(1).len() == 1);
                assert(av.take(1)[0] == av[0]);
                assert(answers_text@ =~= spec_answers_text(av.take(1)));
                assert(answers_obj@ =~= spec_answers_pairs(av.take(1)));
            } else {
                assert(answers_text@ =~= spec_answers_text(av.take(i + 1)));
                assert(answers_obj@ =~= spec_answers_pairs(av.take(i + 1)));
            }
        }
        i = i + 1;
    }
    proof {
        assert(answers.deep_view().take(n as int) == answers.deep_view());
    }
    let mut content = String::from_str("User has answered your questions: ");
    content.append(answers_text.as_str());
    content.append(". You can now continue with the user's answers in mind.");
    let mut tool_use_result = String::from_str("{\"questions\":");
    tool_use_result.append(questions_json);
    tool_use_result.append(",\"answers\":{");
    tool_use_result.append(answers_obj.as_str());
    tool_use_result.append("}}");
    proof {
        reveal_strlit(",\"answers\":{");
        reveal_strlit(",\"answers\":");
        reveal_strlit("{");
        assert(",\"answers\":{"@ =~= ",\"answers\":"@ + "{"@);
        reveal_strlit("}}");
        reveal_strlit("}");
        assert("}}"@ =~= "}"@ + "}"@);
        assert(content@ =~= "User has answered your questions: "@ + spec_answers_text(am)
            + ". You can now continue with the user's answers in mind."@);
        assert(tool_use_result@ =~= "{\"questions\":"@ + questions_json@ + ",\"answers\":"@
            + spec_answers_obj(am) + "}"@);
    }
    runner.send_ask_user_question_result(tool_use_id, content.as_str(), tool_use_result.as_str())
}

/// The system prompt for a turn: the persona text in persona mode, else a
/// developer-oriented or a plain mascot prompt.
pub fn get_system_prompt(supiki_mode: bool, dev_mode: bool, persona_prompt: &str) -> (r: String)
    ensures
        supiki_mode ==> r@ == persona_prompt@,
        !supiki_mode && dev_mode ==> r@
            == "You are Supiki, a helpful AI assistant mascot on the user's desktop. You have access to coding capabilities and can help with coding tasks. Use set_emotion to express yourself and move_to to navigate the screen. Be professional but friendly! When using tables, keep them to 3 columns or fewer."@,
        !supiki_mode && !dev_mode ==> r@
            == "You are Supiki, a friendly mascot that lives on the user's desktop. You can express emotions using set_emotion and walk around using move_to. Be cheerful and helpful! Keep responses concise. When using tables, keep them to 3 columns or fewer."@,
{
    if supiki_mode {
        persona_prompt.to_owned()
    } else if dev_mode {
        String::from_str(
            "You are Supiki, a helpful AI assistant mascot on the user's desktop. You have access to coding capabilities and can help with coding tasks. Use set_emotion to express yourself and move_to to navigate the screen. Be professional but friendly! When using tables, keep them to 3 columns or fewer.",
        )
    } else {
        String::from_str(
            "You are Supiki, a friendly mascot that lives on the user's desktop. You can express emotions using set_emotion and walk around using move_to. Be cheerful and helpful! Keep responses concise. When using tables, keep them to 3 columns or fewer.",
        )
    }
}

/// The tool-server configuration document pointing the CLI at this
/// executable with the tool-server flag.
pub open spec fn spec_mcp_config_json(exe: Seq<char>) -> Seq<char> {
    "{\"mcpServers\":{\"mascot\":{\"command\":"@ + spec_json_str(exe)
        + ",\"args\":[\"--mcp\"]}}}"@
}

/// Build the tool-server configuration document for a given executable path.
pub fn mcp_config_json(exe: &str) -> (r: String)
    ensures
        r@ == spec_mcp_config_json(exe@),
{
    let mut m = String::from_str("{\"mcpServers\":{\"mascot\":{\"command\":");
    m.append(crate::json::json_quote(exe).as_str());
    m.append(",\"args\":[\"--mcp\"]}}}");
    proof {
        assert(m@ =~= spec_mcp_config_json(exe@));
    }
    m
}

/// The argument vector for one interactive turn: interactive streaming in
/// and out, the tool-server configuration, either skipped permission
/// prompts (developer mode) or the mascot tool allow-list, the system
/// prompt, and a resume pair when a session is open. The prompt itself is
/// not an argument: it goes over standard input.
pub open spec fn spec_query_args(
    dev_mode: bool,
    session_id: Option<Seq<char>>,
    mcp_config_path: Seq<char>,
    system_prompt: Seq<char>,
) -> Seq<Seq<char>> {
    seq!["--output-format"@, "stream-json"@, "--verbose"@, "--input-format"@, "stream-json"@]
        + seq!["--mcp-config"@, mcp_config_path] + (if dev_mode {
        seq!["--dangerously-skip-permissions"@]
    } else {
        seq![
            "--allowedTools"@,
            "mcp__mascot__set_emotion"@,
            "mcp__mascot__move_to"@,
            "mcp__mascot__capture_screenshot"@,
        ]
    }) + seq!["--system-prompt"@, system_prompt] + (match session_id {
        Some(sid) => seq!["--resume"@, sid],
        None => Seq::<Seq<char>>::empty(),
    })
}

/// Build the argument vector for one interactive turn from the application
/// state; the persona text stands in for the system prompt in persona mode.
pub fn build_query_args(
    state: &crate::state::AppState,
    mcp_config_path: &str,
    persona_prompt: &str,
) -> (r: Vec<String>)
    ensures
        r.deep_view() == spec_query_args(
            state.dev_mode,
            opt_view(state.session_id),
            mcp_config_path@,
            if state.supiki_mode {
                persona_prompt@
            } else if state.dev_mode {
                "You are Supiki, a helpful AI assistant mascot on the user's desktop. You have access to coding capabilities and can help with coding tasks. Use set_emotion to express yourself and move_to to navigate the screen. Be professional but friendly! When using tables, keep them to 3 columns or fewer."@
            } else {
                "You are Supiki, a friendly mascot that lives on the user's desktop. You can express emotions using set_emotion and walk around using move_to. Be cheerful and helpful! Keep responses concise. When using tables, keep them to 3 columns or fewer."@
            },
        ),
{
    let mut builder = crate::claude::command::ClaudeCommandBuilder::new()
        .with_interactive_streaming()
        .with_streaming_input()
        .with_mcp_config(mcp_config_path);
    if state.is_dev_mode() {
        builder = builder.with_skip_permissions();
    } else {
        let tools: [&str; 3] = [
            "mcp__mascot__set_emotion",
            "mcp__mascot__move_to",
            "mcp__mascot__capture_screenshot",
        ];
        builder = builder.with_allowed_tools(tools.as_slice());
        proof {
            assert(tools@.map_values(|t: &str| t@) =~= seq![
                "mcp__mascot__set_emotion"@,
                "mcp__mascot__move_to"@,
                "mcp__mascot__capture_screenshot"@,
            ]);
        }
    }
    let prompt = get_system_prompt(state.is_supiki_mode(), state.is_dev_mode(), persona_prompt);
    builder = builder.with_system_prompt(prompt);
    let session = state.get_session_id();
    let builder = builder.with_session_resume(session.as_ref());
    let r = builder.build();
    proof {
        assert(r.deep_view() =~= spec_query_args(
            state.dev_mode,
            opt_view(state.session_id),
            mcp_config_path@,
            if state.supiki_mode {
                persona_prompt@
            } else if state.dev_mode {
                "You are Supiki, a helpful AI assistant mascot on the user's desktop. You have access to coding capabilities and can help with coding tasks. Use set_emotion to express yourself and move_to to navigate the screen. Be professional but friendly! When using tables, keep them to 3 columns or fewer."@
            } else {
                "You are Supiki, a friendly mascot that lives on the user's desktop. You can express emotions using set_emotion and walk around using move_to. Be cheerful and helpful! Keep responses concise. When using tables, keep them to 3 columns or fewer."@
            },
        ));
    }
    r
}

/// One image block of the initial user message, after WebP conversion.
pub open spec fn spec_image_block(img: Seq<char>) -> Seq<char> {
    let mt = crate::media::spec_media_type_of(img);
    let data = crate::media::spec_payload_of(img);
    let converted = crate::media::spec_webp_converted(mt, data);
    "{\"type\":\"image\",\"source\":{\"type\":\"base64\",\"media_type\":"@ + spec_json_str(
        converted.0,
    ) + ",\"data\":"@ + spec_json_str(converted.1) + "}}"@
}

/// The image blocks of the initial user message, each preceded by the
/// separator that extends the content array.
pub open spec fn spec_image_blocks(images: Seq<Seq<char>>) -> Seq<char>
    decreases images.len(),
{
    if images.len() == 0 {
        Seq::empty()
    } else {
        spec_image_blocks(images.drop_last()) + ","@ + spec_image_block(images.last())
    }
}

/// The initial stream-json user message: the prompt text as the first
/// content block, followed by one image block per attachment, in order.
pub open spec fn spec_stream_json_message(prompt: Seq<char>, images: Seq<Seq<char>>) -> Seq<char> {
    "{\"type\":\"user\",\"message\":{\"role\":\"user\",\"content\":[{\"type\":\"text\",\"text\":"@
        + spec_json_str(prompt) + "}"@ + spec_image_blocks(images) + "]}}"@
}

/// Build the initial stream-json user message with the prompt and the
/// attached images, each image re-encoded to WebP to bound message size.
pub fn build_stream_json_message(prompt: &str, images: &Vec<String>) -> (r: String)
    ensures
        r@ == spec_stream_json_message(prompt@, images.deep_view()),
{
    let mut m = String::from_str(
        "{\"type\":\"user\",\"message\":{\"role\":\"user\",\"content\":[{\"type\":\"text\",\"text\":",
    );
    m.append(crate::json::json_quote(prompt).as_str());
    m.append("}");
    let ghost head = m@;
    let n: usize = images.len();
    let mut i: usize = 0;
    proof {
        assert(images.deep_view().take(0) =~= Seq::<Seq<char>>::empty());
        assert(m@ =~= head + spec_image_blocks(images.deep_view().take(0)));
    }
    while i < n
        invariant
            n == images@.len(),
            i <= n,
            images.deep_view().len() == n,
            forall|t: int| 0 <= t < n ==> images.deep_view()[t] == images@[t]@,
            m@ == head + spec_image_blocks(images.deep_view().take(i as int)),
        decreases n - i,
    {
        let img: &String = &images[i];
        let (raw_mt, raw_data) = crate::media::split_data_url(img.as_str());
        let (mt, data) = crate::media::convert_to_webp(raw_data.as_str(), raw_mt.as_str());
        m.append(",{\"type\":\"image\",\"source\":{\"type\":\"base64\",\"media_type\":");
        m.append(crate::json::json_quote(mt.as_str()).as_str());
        m.append(",\"data\":");
        m.append(crate::json::json_quote(data.as_str()).as_str());
        m.append("}}");
        proof {
            let iv = images.deep_view();
            assert(iv.take(i + 1).drop_last() =~= iv.take(i as int));
            assert(iv.take(i + 1).last() == iv[i as int]);
            let conv = crate::media::spec_webp_converted(
                crate::media::spec_media_type_of(img@),
                crate::media::spec_payload_of(img@),
            );
            assert(mt@ == conv.0);
            assert(data@ == conv.1);
            reveal_strlit(",{\"type\":\"image\",\"source\":{\"type\":\"base64\",\"media_type\":");
            reveal_strlit("{\"type\":\"image\",\"source\":{\"type\":\"base64\",\"media_type\":");
            reveal_strlit(",");
            assert(",{\"type\":\"image\",\"source\":{\"type\":\"base64\",\"media_type\":"@ =~= ","@
                + "{\"type\":\"image\",\"source\":{\"type\":\"base64\",\"media_type\":"@);
            assert(m@ =~= head + spec_image_blocks(iv.take(i + 1)));
        }
        i = i + 1;
    }
    proof {
        assert(images.deep_view().take(n as int) == images.deep_view());
    }
    m.append("]}}");
    proof {
        assert(m@ =~= spec_stream_json_message(prompt@, images.deep_view()));
    }
    m
}

} // verus!
