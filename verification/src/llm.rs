//! Plain data for one chat-completion round trip: the messages sent, the
//! sampling options, and the errors a provider call can end in. The HTTP
//! call itself lives outside the library.

use vstd::prelude::*;

verus! {

/// One chat message sent to the completion endpoint.
#[derive(Debug, Clone)]
pub struct Message {
    pub role: String,
    pub content: String,
}

/// The mathematical value of a `Message`.
#[verifier::ext_equal]
pub struct LlmMsgModel {
    pub role: Seq<char>,
    pub content: Seq<char>,
}

impl View for Message {
    type V = LlmMsgModel;

    open spec fn view(&self) -> LlmMsgModel {
        LlmMsgModel { role: self.role@, content: self.content@ }
    }
}

impl Message {
    /// A system message.
    pub fn system(content: &str) -> (r: Self)
        ensures
            r@ == (LlmMsgModel { role: "system"@, content: content@ }),
    {
        let r = Message { role: String::from_str("system"), content: content.to_owned() };
        proof {
            assert(r@ =~= (LlmMsgModel { role: "system"@, content: content@ }));
        }
        r
    }

    /// A user message.
    pub fn user(content: &str) -> (r: Self)
        ensures
            r@ == (LlmMsgModel { role: "user"@, content: content@ }),
    {
        let r = Message { role: String::from_str("user"), content: content.to_owned() };
        proof {
            assert(r@ =~= (LlmMsgModel { role: "user"@, content: content@ }));
        }
        r
    }
}

/// Sampling options for one completion call. The temperature is carried in
/// hundredths, so the library holds no floating point; the caller divides
/// by one hundred at the provider boundary.
#[derive(Debug, Clone, Copy, PartialEq, Eq, Structural)]
pub struct CompletionOptions {
    pub temperature_hundredths: u32,
    pub max_tokens: u32,
}

impl Default for CompletionOptions {
    /// A low temperature favoring determinism, and a bounded output
    /// budget.
    fn default() -> (r: Self)
        ensures
            r == (CompletionOptions { temperature_hundredths: 20, max_tokens: 1000 }),
    {
        CompletionOptions { temperature_hundredths: 20, max_tokens: 1000 }
    }
}

/// Why a provider call failed.
#[derive(Debug, Clone)]
pub enum LlmError {
    /// The transport layer failed; the message is the underlying error.
    Http(String),
    /// The remote service answered with an error payload, passed through.
    Api(String),
    /// Credentials are missing.
    NotConfigured(String),
    /// The model's output could not be turned into parameters.
    Parse(String),
}

/// The mathematical value of an `LlmError`.
#[verifier::ext_equal]
pub enum LlmErrorModel {
    Http(Seq<char>),
    Api(Seq<char>),
    NotConfigured(Seq<char>),
    Parse(Seq<char>),
}

impl View for LlmError {
    type V = LlmErrorModel;

    open spec fn view(&self) -> LlmErrorModel {
        match self {
            LlmError::Http(m) => LlmErrorModel::Http(m@),
            LlmError::Api(m) => LlmErrorModel::Api(m@),
            LlmError::NotConfigured(m) => LlmErrorModel::NotConfigured(m@),
            LlmError::Parse(m) => LlmErrorModel::Parse(m@),
        }
    }
}

/// The rendered form of an error.
pub open spec fn spec_describe(e: LlmErrorModel) -> Seq<char> {
    match e {
        LlmErrorModel::Http(m) => "HTTP error: "@ + m,
        LlmErrorModel::Api(m) => "API error: "@ + m,
        LlmErrorModel::NotConfigured(m) => "Not configured: "@ + m,
        LlmErrorModel::Parse(m) => "Parse error: "@ + m,
    }
}

impl LlmError {
    /// Renders the error as one line, naming its kind.
    pub fn describe(&self) -> (r: String)
        ensures
            r@ == spec_describe(self@),
    {
        match self {
            LlmError::Http(m) => String::from_str("HTTP error: ").concat(m.as_str()),
            LlmError::Api(m) => String::from_str("API error: ").concat(m.as_str()),
            LlmError::NotConfigured(m) => String::from_str("Not configured: ").concat(m.as_str()),
            LlmError::Parse(m) => String::from_str("Parse error: ").concat(m.as_str()),
        }
    }
}

} // verus!
