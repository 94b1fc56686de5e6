use vstd::prelude::*;
use vstd::string::StringExecFns;

verus! {

/// One turn of a conversation as the completion backend sees it.
#[derive(Debug, Clone)]
pub struct ChatMessage {
    pub role: String,
    pub content: String,
}

impl View for ChatMessage {
    type V = (Seq<char>, Seq<char>);

    open spec fn view(&self) -> (Seq<char>, Seq<char>) {
        (self.role@, self.content@)
    }
}

pub open spec fn turns_view(v: Seq<ChatMessage>) -> Seq<(Seq<char>, Seq<char>)> {
    v.map_values(|m: ChatMessage| m@)
}

/// The two-turn conversation of a templated request.
pub open spec fn system_and_user(system: Seq<char>, user: Seq<char>) -> Seq<(Seq<char>, Seq<char>)> {
    seq![("system"@, system), ("user"@, user)]
}

/// Failures of a completion backend.
#[derive(Debug, Clone, PartialEq, Eq)]
pub enum BackendError {
    /// The request could not be sent or its reply not received.
    Transport(String),
    /// The backend answered with a non-success status and this body.
    Status { code: u16, body: String },
    /// The reply could not be understood.
    Malformed(String),
    /// The reply held no choice.
    EmptyResponse,
    /// There was no turn to answer.
    EmptyInput,
}

/// Whether `pat` occurs in `s` as a contiguous run.
pub open spec fn occurs_in(pat: Seq<char>, s: Seq<char>) -> bool {
    exists|i: int| 0 <= i && i + pat.len() <= s.len() && #[trigger] s.subrange(i, i + pat.len()) == pat
}

/// Relies on str::contains with a `&str` pattern: whether `pat` occurs in `s`.
#[verifier::external_body]
fn text_contains(s: &str, pat: &str) -> (r: bool)
    ensures
        r == occurs_in(pat@, s@),
{
    s.contains(pat)
}

fn text(s: &str) -> (r: String)
    ensures
        r@ == s@,
{
    String::from_str(s)
}

fn two_turns(system: String, user: String) -> (r: Vec<ChatMessage>)
    ensures
        turns_view(r@) == system_and_user(system@, user@),
        r@.len() == 2,
        r@[1].content@ == user@,
{
    let r = vec![
        ChatMessage { role: text("system"), content: system },
        ChatMessage { role: text("user"), content: user },
    ];
    assert(turns_view(r@) =~= system_and_user(r@[0].content@, r@[1].content@)) by {
        reveal_strlit("system");
        reveal_strlit("user");
    }
    r
}

// ------------------------------------------------------------ local backend

pub const MOCK_TRANSLATION: &'static str = "This is a mock translation. In a real implementation, this would be generated by the local DeepSeek model.";

pub const MOCK_CONTEXT: &'static str = "This is a mock cultural context explanation. The local DeepSeek model would provide detailed cultural and linguistic insights here.";

pub const MOCK_IMPROVEMENT: &'static str = "This is a mock improvement suggestion. The local DeepSeek model would analyze the translation and provide specific recommendations.";

pub const MOCK_GENERIC: &'static str = "This is a mock response from the local DeepSeek model. In a real implementation, this would be a contextual and helpful response based on your translation project.";

/// The canned reply of the local backend to a last turn with this content.
pub open spec fn mock_reply(last: Seq<char>) -> Seq<char> {
    if occurs_in("translate"@, last) {
        MOCK_TRANSLATION@
    } else if occurs_in("context"@, last) {
        MOCK_CONTEXT@
    } else if occurs_in("improve"@, last) {
        MOCK_IMPROVEMENT@
    } else {
        MOCK_GENERIC@
    }
}

pub open spec fn local_translate_prompt(source_text: Seq<char>, source_lang: Seq<char>, target_lang: Seq<char>) -> Seq<char> {
    "translate"@ + " this text from "@ + source_lang + " to "@ + target_lang + ": "@ + source_text
}

pub open spec fn local_explain_prompt(text: Seq<char>, language: Seq<char>) -> Seq<char> {
    "Explain the cultural context of this "@ + language + " text: "@ + text
}

pub open spec fn local_review_prompt(source_text: Seq<char>, translation: Seq<char>) -> Seq<char> {
    "Review this translation and say how to improve it. Source: "@ + source_text + " Translation: "@ + translation
}

/// A deterministic stand-in backend that picks a canned reply by keyword.
pub struct LocalLLMBridge {}

impl LocalLLMBridge {
    pub fn new() -> (r: Self) {
        LocalLLMBridge {}
    }

    /// Answers the last turn: `EmptyInput` when there is none, else the
    /// canned reply chosen by the keywords in its content.
    pub fn chat_completion(&self, messages: Vec<ChatMessage>) -> (r: Result<String, BackendError>)
        ensures
            messages@.len() == 0 ==> r == Err::<String, BackendError>(BackendError::EmptyInput),
            messages@.len() > 0 ==> r is Ok && r->Ok_0@ == mock_reply(messages@.last().content@),
    {
        if messages.len() == 0 {
            return Err(BackendError::EmptyInput);
        }
        let last = &messages[messages.len() - 1];
        let c = last.content.as_str();
        if text_contains(c, "translate") {
            Ok(text(MOCK_TRANSLATION))
        } else if text_contains(c, "context") {
            Ok(text(MOCK_CONTEXT))
        } else if text_contains(c, "improve") {
            Ok(text(MOCK_IMPROVEMENT))
        } else {
            Ok(text(MOCK_GENERIC))
        }
    }

    /// Asks for a translation of `source_text`.
    pub fn translate_text(&self, source_text: &str, source_lang: &str, target_lang: &str) -> (r: Result<String, BackendError>)
        ensures
            r is Ok,
            r->Ok_0@ == mock_reply(local_translate_prompt(source_text@, source_lang@, target_lang@)),
            r->Ok_0@ == MOCK_TRANSLATION@,
    {
        let mut user = text("translate");
        user.append(" this text from ");
        user.append(source_lang);
        user.append(" to ");
        user.append(target_lang);
        user.append(": ");
        user.append(source_text);
        let system = text("You are a professional translator. Provide accurate, natural translations.");
        let ghost u = user@;
        proof {
            reveal_strlit("translate");
            assert(u.len() >= 9);
            assert(u.subrange(0, 9) =~= "translate"@);
            assert(u.subrange(0int, 0int + "translate"@.len()) == "translate"@);
            assert(occurs_in("translate"@, u));
        }
        let messages = two_turns(system, user);
        assert(messages@.last().content@ == u);
        self.chat_completion(messages)
    }

    /// Asks for the cultural context of `text`.
    pub fn explain_context(&self, source: &str, language: &str) -> (r: Result<String, BackendError>)
        ensures
            r is Ok,
            r->Ok_0@ == mock_reply(local_explain_prompt(source@, language@)),
    {
        let mut user = text("Explain the cultural context of this ");
        user.append(language);
        user.append(" text: ");
        user.append(source);
        let system = text("You are a cultural and linguistic expert.");
        let ghost u = user@;
        let messages = two_turns(system, user);
        assert(messages@.last().content@ == u);
        self.chat_completion(messages)
    }

    /// Asks for a review of `translation` against `source_text`.
    pub fn suggest_improvements(&self, source_text: &str, translation: &str) -> (r: Result<String, BackendError>)
        ensures
            r is Ok,
            r->Ok_0@ == mock_reply(local_review_prompt(source_text@, translation@)),
    {
        let mut user = text("Review this translation and say how to improve it. Source: ");
        user.append(source_text);
        user.append(" Translation: ");
        user.append(translation);
        let system = text("You are a translation quality expert.");
        let ghost u = user@;
        let messages = two_turns(system, user);
        assert(messages@.last().content@ == u);
        self.chat_completion(messages)
    }
}

// ----------------------------------------------------------- remote backend

pub const MODEL_NAME: &'static str = "deepseek-chat";

/// Sampling temperature in hundredths.
pub const TEMPERATURE_PERCENT: u32 = 70;

pub const MAX_TOKENS: u32 = 2000;

/// What is sent to a remote chat-completion endpoint.
pub struct ChatRequest {
    pub model: String,
    pub messages: Vec<ChatMessage>,
    /// Sampling temperature in hundredths (70 stands for 0.7).
    pub temperature_percent: Option<u32>,
    pub max_tokens: Option<u32>,
}

/// One alternative reply of a remote backend.
pub struct ChatChoice {
    pub message: ChatMessage,
}

/// What a remote chat-completion endpoint answers.
pub struct ChatResponse {
    pub choices: Vec<ChatChoice>,
}

/// Whether an HTTP status code means success (the 2xx class). A reply with
/// any other status is reported as `BackendError::Status`.
pub fn is_success_status(code: u16) -> (r: bool)
    ensures
        r == (200 <= code && code < 300),
{
    200 <= code && code < 300
}

impl ChatResponse {
    /// The content of the first choice; `EmptyResponse` when there is none.
    pub fn first_reply(&self) -> (r: Result<String, BackendError>)
        ensures
            self.choices@.len() == 0 ==> r == Err::<String, BackendError>(BackendError::EmptyResponse),
            self.choices@.len() > 0 ==> r is Ok && r->Ok_0@ == self.choices@[0].message.content@,
    {
        if self.choices.len() == 0 {
            Err(BackendError::EmptyResponse)
        } else {
            Ok(self.choices[0].message.content.clone())
        }
    }
}

pub open spec fn remote_translate_prompt(source_text: Seq<char>, source_lang: Seq<char>, target_lang: Seq<char>) -> Seq<char> {
    "Translate the following text from "@ + source_lang + " to "@ + target_lang + ":\n\n"@ + source_text
        + "\n\nTranslation:"@
}

pub open spec fn remote_explain_prompt(text: Seq<char>, language: Seq<char>) -> Seq<char> {
    "Explain the cultural and linguistic context of this "@ + language + " text:\n\n"@ + text + "\n\nContext:"@
}

pub open spec fn remote_review_prompt(source_text: Seq<char>, translation: Seq<char>) -> Seq<char> {
    "Review this translation and suggest improvements:\n\nSource: "@ + source_text + "\nTranslation: "@
        + translation + "\n\nSuggestions:"@
}

pub const TRANSLATOR_PERSONA: &'static str = "You are a professional translator. Provide accurate, natural translations that preserve the original meaning and tone.";

pub const CONTEXT_PERSONA: &'static str = "You are a cultural and linguistic expert. Explain the context, nuances, and cultural implications of texts.";

pub const REVIEW_PERSONA: &'static str = "You are a translation quality expert. Review translations and provide constructive suggestions for improvement.";

/// Settings of a remote chat-completion endpoint. The transport itself is
/// driven by the caller: this type says what to send and where.
pub struct LLMBridge {
    pub base_url: String,
    pub api_key: Option<String>,
}

impl LLMBridge {
    pub fn new(base_url: String, api_key: Option<String>) -> (r: Self)
        ensures
            r.base_url@ == base_url@,
            r.api_key == api_key,
    {
        LLMBridge { base_url, api_key }
    }

    /// The endpoint that requests are posted to.
    pub fn completions_url(&self) -> (r: String)
        ensures
            r@ == self.base_url@ + "/v1/chat/completions"@,
    {
        let mut r = self.base_url.clone();
        r.append("/v1/chat/completions");
        r
    }

    /// The `Authorization` header value, present when a key is configured.
    pub fn authorization(&self) -> (r: Option<String>)
        ensures
            self.api_key is None ==> r is None,
            self.api_key is Some ==> r is Some && r->Some_0@ == "Bearer "@ + self.api_key->Some_0@,
    {
        match &self.api_key {
            Some(k) => {
                let mut v = text("Bearer ");
                v.append(k.as_str());
                Some(v)
            },
            None => None,
        }
    }

    /// The request for a completion of `messages`, with the fixed model and
    /// generation settings.
    pub fn chat_request(&self, messages: Vec<ChatMessage>) -> (r: ChatRequest)
        ensures
            r.model@ == MODEL_NAME@,
            turns_view(r.messages@) == turns_view(messages@),
            r.temperature_percent == Some(TEMPERATURE_PERCENT),
            r.max_tokens == Some(MAX_TOKENS),
    {
        ChatRequest {
            model: text(MODEL_NAME),
            messages,
            temperature_percent: Some(TEMPERATURE_PERCENT),
            max_tokens: Some(MAX_TOKENS),
        }
    }

    /// The request that asks for a translation of `source_text`.
    pub fn translate_request(&self, source_text: &str, source_lang: &str, target_lang: &str) -> (r: ChatRequest)
        ensures
            r.model@ == MODEL_NAME@,
            turns_view(r.messages@) == system_and_user(
                TRANSLATOR_PERSONA@,
                remote_translate_prompt(source_text@, source_lang@, target_lang@),
            ),
            r.temperature_percent == Some(TEMPERATURE_PERCENT),
            r.max_tokens == Some(MAX_TOKENS),
    {
        let mut user = text("Translate the following text from ");
        user.append(source_lang);
        user.append(" to ");
        user.append(target_lang);
        user.append(":\n\n");
        user.append(source_text);
        user.append("\n\nTranslation:");
        self.chat_request(two_turns(text(TRANSLATOR_PERSONA), user))
    }

    /// The request that asks for the cultural and linguistic context of `source`.
    pub fn explain_context_request(&self, source: &str, language: &str) -> (r: ChatRequest)
        ensures
            r.model@ == MODEL_NAME@,
            turns_view(r.messages@) == system_and_user(CONTEXT_PERSONA@, remote_explain_prompt(source@, language@)),
            r.temperature_percent == Some(TEMPERATURE_PERCENT),
            r.max_tokens == Some(MAX_TOKENS),
    {
        let mut user = text("Explain the cultural and linguistic context of this ");
        user.append(language);
        user.append(" text:\n\n");
        user.append(source);
        user.append("\n\nContext:");
        self.chat_request(two_turns(text(CONTEXT_PERSONA), user))
    }

    /// The request that asks for a review of `translation` against `source_text`.
    pub fn suggest_improvements_request(&self, source_text: &str, translation: &str) -> (r: ChatRequest)
        ensures
            r.model@ == MODEL_NAME@,
            turns_view(r.messages@) == system_and_user(
                REVIEW_PERSONA@,
                remote_review_prompt(source_text@, translation@),
            ),
            r.temperature_percent == Some(TEMPERATURE_PERCENT),
            r.max_tokens == Some(MAX_TOKENS),
    {
        let mut user = text("Review this translation and suggest improvements:\n\nSource: ");
        user.append(source_text);
        user.append("\nTranslation: ");
        user.append(translation);
        user.append("\n\nSuggestions:");
        self.chat_request(two_turns(text(REVIEW_PERSONA), user))
    }
}

} // verus!
