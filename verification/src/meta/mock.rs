//! A deterministic LLM client for tests: it always gives its scripted
//! reply.

use vstd::prelude::*;
use crate::doctor::client::{LlmClient, LlmResponse, SoapPrompt};
use crate::doctor::error::DoctorError;

verus! {

/// The default mock reply, in Jack's voice.
pub const JACK_MOCK_REPLY: &'static str = "Mock Jack here. I can't actually call the model, but I can confirm your wiring works: the Nurse composed a SOAP bundle and round-tripped to a client. Ensure Okapi is running (port 11435) and try again for the real thing.";

/// A client that always replies with the same text.
#[derive(Debug, Clone)]
pub struct MockClient {
    reply: String,
}

impl MockClient {
    /// The scripted reply.
    pub closed spec fn reply_text(&self) -> Seq<char> {
        self.reply@
    }

    /// A mock that always replies with `reply`.
    pub fn new(reply: String) -> (r: Self)
        ensures
            r.reply_text() == reply@,
    {
        MockClient { reply }
    }

    /// The default Jack-voiced mock.
    pub fn jack_default() -> (r: Self)
        ensures
            r.reply_text() == JACK_MOCK_REPLY@,
    {
        MockClient { reply: JACK_MOCK_REPLY.to_owned() }
    }

    /// The response to any prompt: the scripted reply, model `mock`, no
    /// token counts, no latency.
    pub fn respond(&self) -> (r: LlmResponse)
        ensures
            r.content@ == self.reply_text(),
            r.model matches Some(m) && m@ == "mock"@,
            r.prompt_tokens is None,
            r.completion_tokens is None,
            r.latency_ms == 0,
    {
        LlmResponse {
            content: self.reply.clone(),
            model: Some("mock".to_owned()),
            prompt_tokens: None,
            completion_tokens: None,
            latency_ms: 0,
        }
    }
}

impl LlmClient for MockClient {
    /// The scripted reply, whatever the prompt.
    fn chat(&self, prompt: &SoapPrompt) -> (r: Result<LlmResponse, DoctorError>)
        ensures
            r matches Ok(resp) && resp.content@ == self.reply_text() && (resp.model matches Some(m) && m@ == "mock"@)
                && resp.prompt_tokens is None && resp.completion_tokens is None && resp.latency_ms == 0,
    {
        Ok(self.respond())
    }
}

} // verus!
