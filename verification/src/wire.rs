//! The two wire formats and what one logical line of each yields.

use crate::json::{
    find_member, lemma_view_unfolds, parse_json, parsed_json, view_of, Json, JsonValue,
};
use crate::text::{
    chars_of, has_prefix, same_text, text_of, trim, trim_end, trimmed, trimmed_end,
};
use vstd::prelude::*;
use vstd::slice::slice_subrange;

verus! {

/// The wire format of a response body.
#[derive(Clone, Copy, Debug, PartialEq, Eq, Structural)]
pub enum WireFormat {
    /// One JSON object per line, `{"response": .., "done": ..}`.
    LineJson,
    /// Server-sent events: lines `data: <json>`, ended by `data: [DONE]`.
    EventStream,
}

/// What one logical line yields, as a mathematical value.
pub struct Outcome {
    /// The text that the line adds to the response, if it carries any.
    pub fragment: Option<Seq<char>>,
    /// Whether the line signals that the response is complete.
    pub done: bool,
}

/// What one logical line yields.
#[derive(Debug)]
pub struct LineOutcome {
    /// The text that the line adds to the response, if it carries any.
    pub fragment: Option<String>,
    /// Whether the line signals that the response is complete.
    pub done: bool,
}

impl View for LineOutcome {
    type V = Outcome;

    open spec fn view(&self) -> Outcome {
        Outcome {
            fragment: match self.fragment {
                Some(text) => Some(text@),
                None => None,
            },
            done: self.done,
        }
    }
}

impl Outcome {
    /// The outcome of a line that is dropped: no text, no completion.
    pub open spec fn skipped() -> Outcome {
        Outcome { fragment: None, done: false }
    }

    /// The text that the line adds: its fragment, or nothing.
    pub open spec fn text(self) -> Seq<char> {
        match self.fragment {
            Some(text) => text,
            None => Seq::empty(),
        }
    }
}

/// The token that every payload line of an event stream begins with.
pub open spec fn marker() -> Seq<char> {
    "data: "@
}

/// The payload that ends an event stream.
pub open spec fn sentinel() -> Seq<char> {
    "[DONE]"@
}

/// A member that holds text or may be left out: `Some(None)` where it is
/// missing or null, `Some(Some(text))` where it is a string, `None` where it
/// is anything else.
pub open spec fn optional_text(member: Option<Json>) -> Option<Option<Seq<char>>> {
    match member {
        None => Some(None),
        Some(Json::Null) => Some(None),
        Some(Json::Text(text)) => Some(Some(text)),
        Some(_) => None,
    }
}

/// A member that must hold text.
pub open spec fn required_text(member: Option<Json>) -> Option<Seq<char>> {
    match member {
        Some(Json::Text(text)) => Some(text),
        _ => None,
    }
}

/// A completion flag: `false` where the member is missing, its value where
/// it is a boolean, `None` where it is anything else.
pub open spec fn optional_flag(member: Option<Json>) -> Option<bool> {
    match member {
        None => Some(false),
        Some(Json::Bool(flag)) => Some(flag),
        Some(_) => None,
    }
}

/// What a parsed line of the line-delimited format yields. The line counts
/// only where it is an object whose `response`, if present, is text or null
/// and whose `done`, if present, is a boolean; any other line is skipped.
pub open spec fn generate_outcome(parsed: Option<Json>) -> Outcome {
    match parsed {
        Some(Json::Object(members)) => match (
            optional_text(find_member(members, "response"@)),
            optional_flag(find_member(members, "done"@)),
        ) {
            (Some(fragment), Some(done)) => Outcome { fragment, done },
            _ => Outcome::skipped(),
        },
        _ => Outcome::skipped(),
    }
}

/// The `content` of a `delta` member: `None` where the member is ill-shaped,
/// else the text it carries, if any.
pub open spec fn delta_content(delta: Option<Json>) -> Option<Option<Seq<char>>> {
    match delta {
        None => Some(None),
        Some(Json::Null) => Some(None),
        Some(Json::Object(members)) => optional_text(find_member(members, "content"@)),
        Some(_) => None,
    }
}

/// Whether a `message` member is well-shaped: missing, null, or an object
/// with a textual `role` and a textual `content`.
pub open spec fn message_shaped(message: Option<Json>) -> bool {
    match message {
        None => true,
        Some(Json::Null) => true,
        Some(Json::Object(members)) => required_text(find_member(members, "role"@)) is Some
            && required_text(find_member(members, "content"@)) is Some,
        Some(_) => false,
    }
}

/// The text that one choice carries in its `delta`: `None` where the choice
/// is ill-shaped.
pub open spec fn choice_content(choice: Json) -> Option<Option<Seq<char>>> {
    match choice {
        Json::Object(members) => if message_shaped(find_member(members, "message"@)) {
            delta_content(find_member(members, "delta"@))
        } else {
            None
        },
        _ => None,
    }
}

/// What a parsed payload of the event-stream format yields. The payload
/// counts only where it is an object whose `choices` is an array of
/// well-shaped choices; it then yields the text of the first choice's
/// `delta`, if there is a first choice and it carries text.
pub open spec fn completion_outcome(parsed: Option<Json>) -> Outcome {
    match parsed {
        Some(Json::Object(members)) => match find_member(members, "choices"@) {
            Some(Json::Array(choices)) => if forall|i: int|
                0 <= i < choices.len() ==> (#[trigger] choice_content(choices[i])) is Some {
                Outcome {
                    fragment: if choices.len() > 0 {
                        choice_content(choices[0])->0
                    } else {
                        None
                    },
                    done: false,
                }
            } else {
                Outcome::skipped()
            },
            _ => Outcome::skipped(),
        },
        _ => Outcome::skipped(),
    }
}

/// What a payload of the event-stream format yields: the sentinel completes
/// the stream, anything else is parsed.
pub open spec fn payload_outcome(payload: Seq<char>) -> Outcome {
    if payload == sentinel() {
        Outcome { fragment: None, done: true }
    } else {
        completion_outcome(parsed_json(payload))
    }
}

/// The payload of a line that begins with the marker: what follows the
/// marker, trimmed. The marker is removed once; a second marker is part of
/// the payload.
pub open spec fn payload_of(line: Seq<char>) -> Seq<char> {
    trim(line.skip(marker().len() as int))
}

/// What one logical line of the event-stream format yields. A line that,
/// with its trailing whitespace removed, does not begin with the marker is
/// skipped. Any other line yields what its payload yields.
pub open spec fn event_outcome(line: Seq<char>) -> Outcome {
    let trimmed = trim_end(line);
    if marker().is_prefix_of(trimmed) {
        payload_outcome(payload_of(trimmed))
    } else {
        Outcome::skipped()
    }
}

/// What one logical line yields in the given format.
pub open spec fn line_outcome(format: WireFormat, line: Seq<char>) -> Outcome {
    match format {
        WireFormat::LineJson => generate_outcome(parsed_json(line)),
        WireFormat::EventStream => event_outcome(line),
    }
}

/// The outcome of a line that is dropped.
pub fn skipped() -> (outcome: LineOutcome)
    ensures
        outcome@ == Outcome::skipped(),
{
    LineOutcome { fragment: None, done: false }
}

/// Reads a member as [`optional_text`] does.
fn read_optional_text(member: Option<&JsonValue>) -> (read: Option<Option<String>>)
    ensures
        match read {
            Some(Some(text)) => optional_text(view_of_ref(member)) == Some(Some(text@)),
            Some(None) => optional_text(view_of_ref(member)) == Some(None::<Seq<char>>),
            None => optional_text(view_of_ref(member)) is None,
        },
{
    match member {
        None => Some(None),
        Some(JsonValue::Null) => Some(None),
        Some(JsonValue::Text(text)) => Some(Some(text.clone())),
        Some(_) => None,
    }
}

/// The model of a borrowed document that may be missing.
pub open spec fn view_of_ref(parsed: Option<&JsonValue>) -> Option<Json> {
    match parsed {
        Some(value) => Some(value@),
        None => None,
    }
}

/// Applies [`generate_outcome`] to a parsed line.
pub fn interpret_generate(parsed: &Option<JsonValue>) -> (outcome: LineOutcome)
    ensures
        outcome@ == generate_outcome(view_of(*parsed)),
{
    match parsed {
        Some(document) => {
            if let JsonValue::Object(_) = document {
                let fragment = read_optional_text(document.member("response"));
                let done = match document.member("done") {
                    None => Some(false),
                    Some(JsonValue::Bool(flag)) => Some(*flag),
                    Some(_) => None,
                };
                match (fragment, done) {
                    (Some(fragment), Some(done)) => LineOutcome { fragment, done },
                    _ => skipped(),
                }
            } else {
                skipped()
            }
        },
        None => skipped(),
    }
}

/// Whether a member holds text.
fn holds_text(member: Option<&JsonValue>) -> (held: bool)
    ensures
        held == (required_text(view_of_ref(member)) is Some),
{
    match member {
        Some(JsonValue::Text(_)) => true,
        _ => false,
    }
}

/// Reads one choice as [`choice_content`] does.
fn read_choice(choice: &JsonValue) -> (read: Option<Option<String>>)
    ensures
        match read {
            Some(Some(text)) => choice_content(choice@) == Some(Some(text@)),
            Some(None) => choice_content(choice@) == Some(None::<Seq<char>>),
            None => choice_content(choice@) is None,
        },
{
    if let JsonValue::Object(_) = choice {
        let message_ok = match choice.member("message") {
            None => true,
            Some(JsonValue::Null) => true,
            Some(message) => {
                if let JsonValue::Object(_) = message {
                    holds_text(message.member("role")) && holds_text(message.member("content"))
                } else {
                    false
                }
            },
        };
        if !message_ok {
            return None;
        }
        match choice.member("delta") {
            None => Some(None),
            Some(JsonValue::Null) => Some(None),
            Some(delta) => {
                if let JsonValue::Object(_) = delta {
                    read_optional_text(delta.member("content"))
                } else {
                    None
                }
            },
        }
    } else {
        None
    }
}

/// Applies [`completion_outcome`] to a parsed payload.
pub fn interpret_completion(parsed: &Option<JsonValue>) -> (outcome: LineOutcome)
    ensures
        outcome@ == completion_outcome(view_of(*parsed)),
{
    let document = match parsed {
        Some(document) => document,
        None => {
            return skipped();
        },
    };
    let listed = match document.member("choices") {
        Some(listed) => listed,
        None => {
            return skipped();
        },
    };
    let choices = match listed {
        JsonValue::Array(choices) => choices,
        _ => {
            return skipped();
        },
    };
    let ghost models = listed@->Array_0;
    proof {
        lemma_view_unfolds(*listed);
    }
    let mut fragment: Option<String> = None;
    let mut i: usize = 0;
    while i < choices.len()
        invariant
            i <= choices.len(),
            view_of(*parsed) == Some(document@),
            document@.member("choices"@) == Some(Json::Array(models)),
            models.len() == choices.len(),
            forall|k: int| 0 <= k < models.len() ==> (#[trigger] models[k]) == choices@[k]@,
            forall|k: int| 0 <= k < i ==> (#[trigger] choice_content(models[k])) is Some,
            i == 0 ==> fragment is None,
            i > 0 ==> choice_content(models[0])->0 == match fragment {
                Some(text) => Some(text@),
                None => None,
            },
        decreases choices.len() - i,
    {
        assert(models[i as int] == choices@[i as int]@);
        match read_choice(&choices[i]) {
            None => {
                return skipped();
            },
            Some(content) => {
                if i == 0 {
                    fragment = content;
                }
            },
        }
        i += 1;
    }
    LineOutcome { fragment, done: false }
}

/// Applies [`payload_outcome`] to a trimmed payload.
pub fn interpret_payload(payload: &[char]) -> (outcome: LineOutcome)
    ensures
        outcome@ == payload_outcome(payload@),
{
    let sentinel = chars_of("[DONE]");
    if same_text(payload, sentinel.as_slice()) {
        LineOutcome { fragment: None, done: true }
    } else {
        let text = text_of(payload);
        let parsed = parse_json(text.as_str());
        interpret_completion(&parsed)
    }
}

/// Decodes one logical line, given as characters.
pub fn decode_chars(format: WireFormat, line: &[char]) -> (outcome: LineOutcome)
    ensures
        outcome@ == line_outcome(format, line@),
{
    match format {
        WireFormat::LineJson => {
            let text = text_of(line);
            let parsed = parse_json(text.as_str());
            interpret_generate(&parsed)
        },
        WireFormat::EventStream => {
            let marker = chars_of("data: ");
            let kept = trimmed_end(line);
            if has_prefix(kept, marker.as_slice()) {
                let payload = slice_subrange(kept, marker.len(), kept.len());
                interpret_payload(trimmed(payload))
            } else {
                skipped()
            }
        },
    }
}

/// Decodes one logical line: the text between two newlines of a response
/// body, without the newline.
pub fn decode_line(format: WireFormat, line: &str) -> (outcome: LineOutcome)
    ensures
        outcome@ == line_outcome(format, line@),
{
    let chars = chars_of(line);
    decode_chars(format, chars.as_slice())
}

} // verus!
