//! Questions the agent asks the user: validation of the tool's arguments.
use vstd::prelude::*;
use crate::text::{decimal, join, join_strings, push_decimal, push_str, string_of, views};
use crate::json::{json_compact, json_compact_text, json_members, json_object_members, json_string_value, json_text_value};
use crate::types::message::opt_view;
pub use crate::types::value::Json;
use crate::tools::schema::{
    array_field, field, is_array_field, is_field, is_object_schema, items_of, members, object_schema, properties_of,
    typed, ToolDefinition,
};

verus! {

/// The first member named `key` among `entries`.
pub open spec fn find_member(entries: Seq<(String, Json)>, key: Seq<char>) -> Option<Json>
    decreases entries.len(),
{
    if entries.len() == 0 {
        None
    } else if entries[0].0@ == key {
        Some(entries[0].1)
    } else {
        find_member(entries.drop_first(), key)
    }
}

/// Member `key` of an object (`Value::get`); `None` for other values.
pub open spec fn member(j: Json, key: Seq<char>) -> Option<Json> {
    match j {
        Json::Object(entries) => find_member(entries@, key),
        _ => None,
    }
}

pub open spec fn str_of(j: Option<Json>) -> Option<Seq<char>> {
    match j {
        Some(Json::Str(s)) => Some(s@),
        _ => None,
    }
}

pub open spec fn bool_of(j: Option<Json>) -> Option<bool> {
    match j {
        Some(Json::Bool(b)) => Some(b),
        _ => None,
    }
}

pub open spec fn array_of(j: Option<Json>) -> Option<Seq<Json>> {
    match j {
        Some(Json::Array(items)) => Some(items@),
        _ => None,
    }
}

fn get_member<'a>(j: &'a Json, key: &str) -> (r: Option<&'a Json>)
    ensures
        match r {
            Some(v) => member(*j, key@) == Some(*v),
            None => member(*j, key@) is None,
        },
{
    match j {
        Json::Object(entries) => {
            let mut i: usize = 0;
            assert(entries@.subrange(0, entries@.len() as int) =~= entries@);
            while i < entries.len()
                invariant
                    i <= entries.len(),
                    member(*j, key@) == find_member(entries@, key@),
                    find_member(entries@, key@) == find_member(entries@.subrange(i as int, entries@.len() as int), key@),
                decreases entries.len() - i,
            {
                proof {
                    let rest = entries@.subrange(i as int, entries@.len() as int);
                    assert(rest[0] == entries@[i as int]);
                    assert(rest.drop_first() =~= entries@.subrange(i + 1, entries@.len() as int));
                }
                if crate::text::str_eq(entries[i].0.as_str(), key) {
                    proof {
                        let rest = entries@.subrange(i as int, entries@.len() as int);
                        assert(rest[0] == entries@[i as int]);
                        assert(entries@[i as int].0@ == key@);
                        assert(find_member(rest, key@) == Some(rest[0].1));
                    }
                    return Some(&entries[i].1);
                }
                i += 1;
            }
            None
        },
        _ => None,
    }
}

fn get_str(j: Option<&Json>) -> (r: Option<String>)
    ensures
        opt_view(r) == str_of(match j {
            Some(v) => Some(*v),
            None => None,
        }),
{
    match j {
        Some(Json::Str(s)) => Some(s.clone()),
        _ => None,
    }
}

/// One answer offered for a question.
#[derive(Debug)]
pub struct QuestionOption {
    pub label: String,
    pub description: Option<String>,
}

/// One question put to the user.
#[derive(Debug)]
pub struct QuestionItem {
    pub question: String,
    pub header: Option<String>,
    pub multi_select: bool,
    pub options: Vec<QuestionOption>,
}

pub type OptionView = (Seq<char>, Option<Seq<char>>);

pub struct QuestionView {
    pub question: Seq<char>,
    pub header: Option<Seq<char>>,
    pub multi_select: bool,
    pub options: Seq<OptionView>,
}

impl View for QuestionItem {
    type V = QuestionView;

    open spec fn view(&self) -> QuestionView {
        QuestionView {
            question: self.question@,
            header: opt_view(self.header),
            multi_select: self.multi_select,
            options: self.options@.map_values(|o: QuestionOption| (o.label@, opt_view(o.description))),
        }
    }
}

/// The offered answers of a question: every entry with a string `label`, in
/// order, with its `description` when that is a string.
pub open spec fn options_of(entries: Seq<Json>) -> Seq<OptionView>
    decreases entries.len(),
{
    if entries.len() == 0 {
        Seq::empty()
    } else {
        let rest = options_of(entries.drop_last());
        let o = entries.last();
        match str_of(member(o, "label"@)) {
            Some(l) => rest.push((l, str_of(member(o, "description"@)))),
            None => rest,
        }
    }
}

/// The question an item describes, when it has a string `question`:
/// `multiSelect` (else `multi_select`) must be `true` to allow several
/// answers.
pub open spec fn question_of(item: Json) -> Option<QuestionView> {
    match str_of(member(item, "question"@)) {
        Some(q) => Some(
            QuestionView {
                question: q,
                header: str_of(member(item, "header"@)),
                multi_select: match bool_of(
                    match member(item, "multiSelect"@) {
                        Some(v) => Some(v),
                        None => member(item, "multi_select"@),
                    },
                ) {
                    Some(b) => b,
                    None => false,
                },
                options: match array_of(member(item, "options"@)) {
                    Some(es) => options_of(es),
                    None => Seq::empty(),
                },
            },
        ),
        None => None,
    }
}

/// Index of the first item without a question text, if any.
pub open spec fn first_unasked(items: Seq<Json>, from: int) -> Option<int>
    decreases items.len() - from,
{
    if from < 0 || from >= items.len() {
        None
    } else if question_of(items[from]) is None {
        Some(from)
    } else {
        first_unasked(items, from + 1)
    }
}

pub open spec fn missing_question_message(idx: int) -> Seq<char> {
    "questions["@ + crate::text::decimal(idx as nat) + "] is missing 'question'"@
}

fn options_from(entries: &Vec<Json>) -> (r: Vec<QuestionOption>)
    ensures
        r@.map_values(|o: QuestionOption| (o.label@, opt_view(o.description))) == options_of(entries@),
{
    let mut out: Vec<QuestionOption> = Vec::new();
    let mut i: usize = 0;
    while i < entries.len()
        invariant
            i <= entries.len(),
            out@.map_values(|o: QuestionOption| (o.label@, opt_view(o.description))) == options_of(
                entries@.subrange(0, i as int),
            ),
        decreases entries.len() - i,
    {
        let o = &entries[i];
        proof {
            let pre = entries@.subrange(0, i + 1);
            assert(pre.drop_last() =~= entries@.subrange(0, i as int));
            assert(pre.last() == *o);
        }
        let label = get_str(get_member(o, "label"));
        match label {
            Some(l) => {
                let description = get_str(get_member(o, "description"));
                let ghost before = out@.map_values(|x: QuestionOption| (x.label@, opt_view(x.description)));
                let item = QuestionOption { label: l, description };
                let ghost v = (item.label@, opt_view(item.description));
                out.push(item);
                assert(out@.map_values(|x: QuestionOption| (x.label@, opt_view(x.description))) =~= before.push(v));
            },
            None => {},
        }
        i += 1;
    }
    assert(entries@.subrange(0, entries.len() as int) =~= entries@);
    out
}

fn question_from(item: &Json) -> (r: Option<QuestionItem>)
    ensures
        match r {
            Some(q) => question_of(*item) == Some(q@),
            None => question_of(*item) is None,
        },
{
    let question = match get_str(get_member(item, "question")) {
        Some(q) => q,
        None => return None,
    };
    let header = get_str(get_member(item, "header"));
    let flag = match get_member(item, "multiSelect") {
        Some(v) => Some(v),
        None => get_member(item, "multi_select"),
    };
    let multi_select = match flag {
        Some(Json::Bool(b)) => *b,
        _ => false,
    };
    let options = match get_member(item, "options") {
        Some(Json::Array(es)) => options_from(es),
        _ => Vec::new(),
    };
    let q = QuestionItem { question, header, multi_select, options };
    proof {
        let expected = question_of(*item)->0;
        assert(q@.options =~= expected.options);
    }
    Some(q)
}

/// Validates the tool's arguments: `questions` must be a non-empty array
/// whose every item has a string `question`.
pub fn parse_questions(args: &Json) -> (r: Result<Vec<QuestionItem>, String>)
    ensures
        match array_of(member(*args, "questions"@)) {
            None => r matches Err(m) && m@ == "Missing required field 'questions' (array)"@,
            Some(items) => if items.len() == 0 {
                r matches Err(m) && m@ == "'questions' must not be empty"@
            } else {
                match first_unasked(items, 0) {
                    Some(idx) => r matches Err(m) && m@ == missing_question_message(idx),
                    None => r matches Ok(qs) && qs@.len() == items.len() && forall|i: int|
                        0 <= i < items.len() ==> question_of(#[trigger] items[i]) == Some(qs@[i]@),
                }
            },
        },
{
    let raw = match get_member(args, "questions") {
        Some(Json::Array(items)) => items,
        _ => return Err(string_of("Missing required field 'questions' (array)")),
    };
    if raw.len() == 0 {
        return Err(string_of("'questions' must not be empty"));
    }
    let mut out: Vec<QuestionItem> = Vec::new();
    let mut i: usize = 0;
    while i < raw.len()
        invariant
            i <= raw.len(),
            array_of(member(*args, "questions"@)) == Some(raw@),
            raw@.len() > 0,
            out@.len() == i,
            first_unasked(raw@, 0) == first_unasked(raw@, i as int),
            forall|k: int| 0 <= k < i ==> question_of(#[trigger] raw@[k]) == Some(out@[k]@),
        decreases raw.len() - i,
    {
        match question_from(&raw[i]) {
            Some(q) => {
                out.push(q);
            },
            None => {
                assert(first_unasked(raw@, i as int) == Some(i as int));
                let mut m = string_of("questions[");
                push_decimal(&mut m, i as u64);
                push_str(&mut m, "] is missing 'question'");
                return Err(m);
            },
        }
        i += 1;
    }
    Ok(out)
}

/// How long the tool waits for an answer by default (30 minutes).
pub const DEFAULT_TIMEOUT_SECS: u64 = 1800;

/// A question's id: `<task>:q<n>`, scoped to the task and numbered in order.
pub fn question_id(task_id: &str, seq: u64) -> (r: String)
    ensures
        r@ == task_id@ + ":q"@ + decimal(seq as nat),
{
    let mut r = string_of(task_id);
    push_str(&mut r, ":q");
    push_decimal(&mut r, seq);
    r
}

/// The tool's error when no answer came within `secs` seconds.
pub fn no_answer_message(secs: u64) -> (r: String)
    ensures
        r@ == "No answer received within "@ + decimal(secs as nat)
            + "s. Proceed with clearly-stated assumptions, or ask again if the decision is blocking."@,
{
    let mut r = string_of("No answer received within ");
    push_decimal(&mut r, secs);
    push_str(&mut r, "s. Proceed with clearly-stated assumptions, or ask again if the decision is blocking.");
    r
}

pub open spec fn dismissed_text() -> Seq<char> {
    "User dismissed the question without answering."@
}

/// One answered question: `Q: <question>\nA: <answer>`, the answer as
/// plain text when it is a JSON string, else as written JSON.
pub open spec fn answered_pair(m: (Seq<char>, Seq<char>)) -> Seq<char> {
    "Q: "@ + m.0 + "\nA: "@ + match json_text_value(m.1) {
        Some(t) => t,
        None => m.1,
    }
}

/// What the tool returns for the panel's answer (given as JSON text): a
/// plain string as is; for a question-to-answer object, each pair rendered
/// (or the dismissal note when it is empty); anything else written back as
/// JSON. `None` for a dismissal.
pub open spec fn answer_reply(answers: Option<Seq<char>>) -> Seq<char> {
    match answers {
        None => dismissed_text(),
        Some(a) => match json_text_value(a) {
            Some(t) => t,
            None => match json_members(a) {
                Some(ms) => if ms.len() == 0 {
                    dismissed_text()
                } else {
                    "User answered:\n\n"@ + join(ms.map_values(|m: (Seq<char>, Seq<char>)| answered_pair(m)), "\n\n"@)
                },
                None => match json_compact(a) {
                    Some(t) => t,
                    None => a,
                },
            },
        },
    }
}

pub fn answer_text(answers: Option<&str>) -> (r: String)
    ensures
        r@ == answer_reply(match answers {
            Some(a) => Some(a@),
            None => None,
        }),
{
    let a = match answers {
        None => return string_of("User dismissed the question without answering."),
        Some(a) => a,
    };
    if let Some(t) = json_string_value(a) {
        return t;
    }
    match json_object_members(a) {
        Some(ms) => {
            if ms.len() == 0 {
                return string_of("User dismissed the question without answering.");
            }
            let ghost mv = ms@.map_values(|m: (String, String)| (m.0@, m.1@));
            let mut parts: Vec<String> = Vec::new();
            let mut i: usize = 0;
            while i < ms.len()
                invariant
                    i <= ms.len(),
                    mv == ms@.map_values(|m: (String, String)| (m.0@, m.1@)),
                    views(parts@) == mv.take(i as int).map_values(|m: (Seq<char>, Seq<char>)| answered_pair(m)),
                decreases ms.len() - i,
            {
                let mut p = string_of("Q: ");
                push_str(&mut p, ms[i].0.as_str());
                push_str(&mut p, "\nA: ");
                match json_string_value(ms[i].1.as_str()) {
                    Some(t) => push_str(&mut p, t.as_str()),
                    None => push_str(&mut p, ms[i].1.as_str()),
                }
                let ghost before = views(parts@);
                parts.push(p);
                proof {
                    assert(mv[i as int] == (ms@[i as int].0@, ms@[i as int].1@));
                    assert(views(parts@) =~= before.push(answered_pair(mv[i as int])));
                    assert(mv.take(i + 1) =~= mv.take(i as int).push(mv[i as int]));
                    assert(mv.take(i + 1).map_values(|m: (Seq<char>, Seq<char>)| answered_pair(m)) =~= mv.take(
                        i as int,
                    ).map_values(|m: (Seq<char>, Seq<char>)| answered_pair(m)).push(answered_pair(mv[i as int])));
                }
                i += 1;
            }
            assert(mv.take(ms.len() as int) =~= mv);
            let body = join_strings(&parts, "\n\n");
            let mut r = string_of("User answered:\n\n");
            push_str(&mut r, body.as_str());
            r
        },
        None => match json_compact_text(a) {
            Some(t) => t,
            None => string_of(a),
        },
    }
}

/// The schema of one option of a question: a required `label` and an
/// optional `description`, both strings.
pub open spec fn is_option_schema(j: Json) -> bool {
    &&& is_object_schema(j, seq!["label"@])
    &&& properties_of(j) matches Json::Object(ps)
    &&& ps@.len() == 2
    &&& ps@[0].0@ == "label"@
    &&& is_field(ps@[0].1, "string"@, None)
    &&& ps@[1].0@ == "description"@
    &&& is_field(ps@[1].1, "string"@, None)
}

/// The schema of one question: its text (required), a short label, whether
/// several options may be chosen, and its options.
pub open spec fn is_question_schema(j: Json) -> bool {
    &&& is_object_schema(j, seq!["question"@])
    &&& properties_of(j) matches Json::Object(ps)
    &&& ps@.len() == 4
    &&& ps@[0].0@ == "question"@
    &&& is_field(ps@[0].1, "string"@, Some("The question text."@))
    &&& ps@[1].0@ == "header"@
    &&& is_field(ps@[1].1, "string"@, Some("Short label."@))
    &&& ps@[2].0@ == "multiSelect"@
    &&& is_field(ps@[2].1, "boolean"@, Some("Allow multiple selections."@))
    &&& ps@[3].0@ == "options"@
    &&& is_array_field(ps@[3].1, "Selectable options. Omit for free-form answers."@)
    &&& is_option_schema(items_of(ps@[3].1))
}

/// The ask-user tool as the model sees it.
pub fn ask_user_definition() -> (d: ToolDefinition)
    ensures
        d.tool_type@ == "function"@,
        d.function.strict is None,
        d.function.name@ == "ask_user_question"@,
        d.function.description@ == "Ask the user one or more clarifying questions and wait for their answer. Use this instead of guessing when a decision materially changes the outcome."@,
        is_object_schema(d.function.parameters, seq!["questions"@]),
        properties_of(d.function.parameters) matches Json::Object(ps) && ps@.len() == 1 && ps@[0].0@
            == "questions"@ && is_array_field(ps@[0].1, "Questions to present to the user."@)
            && is_question_schema(items_of(ps@[0].1)),
{
    let option = object_schema(
        members(vec![("label", typed("string")), ("description", typed("string"))]),
        vec!["label"],
    );
    let question = object_schema(
        members(
            vec![
                ("question", field("string", "The question text.")),
                ("header", field("string", "Short label.")),
                ("multiSelect", field("boolean", "Allow multiple selections.")),
                ("options", array_field("Selectable options. Omit for free-form answers.", option)),
            ],
        ),
        vec!["question"],
    );
    let params = object_schema(
        members(vec![("questions", array_field("Questions to present to the user.", question))]),
        vec!["questions"],
    );
    ToolDefinition::new_function(
        "ask_user_question",
        "Ask the user one or more clarifying questions and wait for their answer. Use this instead of guessing when a decision materially changes the outcome.",
        params,
    )
}

} // verus!
