//! Reading a chat-completions response. The JSON is decoded by the
//! caller into [`CompletionBody`]; what counts as the answer, and when a
//! response is unusable, is decided here.

use vstd::prelude::*;
use crate::doctor::error::DoctorError;
use crate::text::{push_str, string_from_chars};

verus! {

/// The first choice's `message`, each field as read from the JSON.
#[derive(Debug, Clone)]
pub struct CompletionMessage {
    /// `content`, when it is a string.
    pub content: Option<String>,
    /// `reasoning_details`, when it is an array: for each element, its
    /// `text` when that is a string.
    pub reasoning_details: Option<Vec<Option<String>>>,
    /// `reasoning_content`, when it is a string.
    pub reasoning_content: Option<String>,
}

/// What the response holds at `choices[0]`.
#[derive(Debug, Clone)]
pub enum CompletionChoice {
    /// There is no first choice.
    Missing,
    /// The first choice has no `message`.
    NoMessage,
    /// The first choice's message.
    Message(CompletionMessage),
}

/// A decoded chat-completions response, as far as it is read.
#[derive(Debug, Clone)]
pub struct CompletionBody {
    /// The first choice.
    pub choice: CompletionChoice,
    /// `model`, when it is a string.
    pub model: Option<String>,
    /// `usage.prompt_tokens`, when it is an unsigned integer.
    pub prompt_tokens: Option<u64>,
    /// `usage.completion_tokens`, when it is an unsigned integer.
    pub completion_tokens: Option<u64>,
}

/// The answer read from a response.
#[derive(Debug, Clone)]
pub struct ParsedCompletion {
    /// The text of the answer.
    pub content: String,
    /// The model that answered, if reported.
    pub model: Option<String>,
    /// Prompt tokens, saturated to `u32`.
    pub prompt_tokens: Option<u32>,
    /// Completion tokens, saturated to `u32`.
    pub completion_tokens: Option<u32>,
}

/// The first text among reasoning details.
pub open spec fn first_text(ts: Seq<Option<String>>) -> Option<Seq<char>>
    decreases ts.len(),
{
    if ts.len() == 0 {
        None
    } else {
        match ts[0] {
            Some(t) => Some(t@),
            None => first_text(ts.drop_first()),
        }
    }
}

/// The answer a message carries: its `content` when that is a
/// non-empty string; else the first reasoning detail's text; else its
/// `reasoning_content`; else none.
pub open spec fn usable_content(m: CompletionMessage) -> Option<Seq<char>> {
    let direct = match m.content {
        Some(s) => if s@.len() > 0 { Some(s@) } else { None },
        None => None,
    };
    let detail = match m.reasoning_details {
        Some(ts) => first_text(ts@),
        None => None,
    };
    if direct is Some {
        direct
    } else if detail is Some {
        detail
    } else {
        match m.reasoning_content {
            Some(rc) => Some(rc@),
            None => None,
        }
    }
}

/// A token count saturated to `u32`.
pub open spec fn saturated(n: Option<u64>) -> Option<u32> {
    match n {
        Some(x) => Some(if x <= u32::MAX { x as u32 } else { u32::MAX }),
        None => None,
    }
}

fn saturate(n: Option<u64>) -> (r: Option<u32>)
    ensures
        r == saturated(n),
{
    match n {
        Some(x) => Some(if x <= 4294967295u64 { x as u32 } else { 4294967295u32 }),
        None => None,
    }
}

fn first_detail_text(ts: &Vec<Option<String>>) -> (r: Option<String>)
    ensures
        match first_text(ts@) {
            Some(t) => r matches Some(s) && s@ == t,
            None => r is None,
        },
{
    let mut i: usize = 0;
    proof {
        assert(ts@.skip(0) =~= ts@);
    }
    while i < ts.len()
        invariant
            i <= ts@.len(),
            first_text(ts@) == first_text(ts@.skip(i as int)),
        decreases ts@.len() - i,
    {
        proof {
            assert(ts@.skip(i as int).drop_first() =~= ts@.skip(i + 1));
        }
        match &ts[i] {
            Some(t) => {
                return Some(t.clone());
            },
            None => {},
        }
        i = i + 1;
    }
    None
}

/// The answer of a message, as [`usable_content`] says.
fn answer_of(m: CompletionMessage) -> (r: Option<String>)
    ensures
        match usable_content(m) {
            Some(t) => r matches Some(s) && s@ == t,
            None => r is None,
        },
{
    match m.content {
        Some(s) => {
            if !s.as_str().is_empty() {
                return Some(s);
            }
        },
        None => {},
    }
    let detail = match &m.reasoning_details {
        Some(ts) => first_detail_text(ts),
        None => None,
    };
    match detail {
        Some(t) => Some(t),
        None => m.reasoning_content,
    }
}

/// Read the answer out of a decoded response.
///
/// Fails with a bad-response error when there is no first choice
/// (quoting the raw `body`), when that choice has no message, and when
/// the message carries no usable text.
pub fn parse_completion(body: &str, doc: CompletionBody) -> (r: Result<ParsedCompletion, DoctorError>)
    ensures
        match doc.choice {
            CompletionChoice::Missing => r matches Err(DoctorError::BadResponse(m))
                && m@ == "no choices in response: "@ + body@,
            CompletionChoice::NoMessage => r matches Err(DoctorError::BadResponse(m))
                && m@ == "no message in choice"@,
            CompletionChoice::Message(msg) => match usable_content(msg) {
                Some(c) => r matches Ok(p) && p.content@ == c && p.model == doc.model
                    && p.prompt_tokens == saturated(doc.prompt_tokens)
                    && p.completion_tokens == saturated(doc.completion_tokens),
                None => r matches Err(DoctorError::BadResponse(m))
                    && m@ == "response had no usable content field"@,
            },
        },
{
    match doc.choice {
        CompletionChoice::Missing => {
            let mut out: Vec<char> = Vec::new();
            push_str(&mut out, "no choices in response: ");
            push_str(&mut out, body);
            Err(DoctorError::BadResponse(string_from_chars(&out)))
        },
        CompletionChoice::NoMessage => Err(DoctorError::BadResponse("no message in choice".to_owned())),
        CompletionChoice::Message(msg) => match answer_of(msg) {
            Some(content) => Ok(ParsedCompletion {
                content,
                model: doc.model,
                prompt_tokens: saturate(doc.prompt_tokens),
                completion_tokens: saturate(doc.completion_tokens),
            }),
            None => Err(DoctorError::BadResponse("response had no usable content field".to_owned())),
        },
    }
}

} // verus!
