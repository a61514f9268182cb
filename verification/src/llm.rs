//! What a commit request is made of and what its answer becomes: the
//! vendor, the endpoint, the streamed answer and the vendors' error replies.
//! The network calls themselves are made by the program.
use crate::config::{default_base_url, default_base_url_of, GlobalConfig};
use crate::prompt::{build_user_prompt, user_prompt_text};
use crate::text::{
    decimal, drop_back, ends_with, is_whitespace, signed_decimal, signed_decimal_string,
    opt_string_view, str_ends_with, trim, CharClass,
};
use vstd::prelude::*;
use vstd::string::StringExecFns;

verus! {

broadcast use vstd::string::group_string_axioms;

/// A model vendor.
#[derive(Debug, Clone, Copy, PartialEq, Eq, Structural)]
pub enum PromptModel {
    OpenAI,
    DeepSeek,
    Ollama,
    MiniMax,
}

/// The model a vendor is configured with when no model is given.
pub open spec fn default_model_name(v: PromptModel) -> Seq<char> {
    match v {
        PromptModel::OpenAI => "gpt-3.5-turbo"@,
        PromptModel::DeepSeek => "deepseek v4 flash"@,
        PromptModel::Ollama => "ollama"@,
        PromptModel::MiniMax => "MiniMax-M2.7"@,
    }
}

impl PromptModel {
    /// The model the vendor is configured with when no model is given.
    pub fn default_model(&self) -> (r: String)
        ensures
            r@ == default_model_name(*self),
    {
        match self {
            PromptModel::OpenAI => "gpt-3.5-turbo".to_string(),
            PromptModel::DeepSeek => "deepseek v4 flash".to_string(),
            PromptModel::Ollama => "ollama".to_string(),
            PromptModel::MiniMax => "MiniMax-M2.7".to_string(),
        }
    }
}

/// The name of a vendor on the command line and in the configuration file.
pub open spec fn config_name_of(v: PromptModel) -> Seq<char> {
    match v {
        PromptModel::OpenAI => "openai"@,
        PromptModel::DeepSeek => "deepseek"@,
        PromptModel::Ollama => "ollama"@,
        PromptModel::MiniMax => "minimax"@,
    }
}

impl PromptModel {
    /// The vendor's name on the command line and in the configuration file.
    pub fn config_name(&self) -> (r: &'static str)
        ensures
            r@ == config_name_of(*self),
    {
        match self {
            PromptModel::OpenAI => "openai",
            PromptModel::DeepSeek => "deepseek",
            PromptModel::Ollama => "ollama",
            PromptModel::MiniMax => "minimax",
        }
    }

    /// The vendor of a name on the command line or in the configuration
    /// file; `None` for a name of no vendor.
    pub fn from_config_name(name: &str) -> (r: Option<PromptModel>)
        ensures
            match r {
                Some(v) => config_name_of(v) == name@,
                None => forall|v: PromptModel| config_name_of(v) != name@,
            },
    {
        proof {
            reveal_strlit("openai");
            reveal_strlit("deepseek");
            reveal_strlit("ollama");
            reveal_strlit("minimax");
        }
        if str_eq(name, "openai") {
            Some(PromptModel::OpenAI)
        } else if str_eq(name, "deepseek") {
            Some(PromptModel::DeepSeek)
        } else if str_eq(name, "ollama") {
            Some(PromptModel::Ollama)
        } else if str_eq(name, "minimax") {
            Some(PromptModel::MiniMax)
        } else {
            None
        }
    }
}

/// The answer of a commit request.
#[derive(Debug)]
pub struct LLMResult {
    pub commit_message: String,
    pub completion_tokens: i64,
    pub prompt_tokens: i64,
    pub total_tokens: i64,
    pub prompt_cache_hit_tokens: Option<i64>,
    pub reasoning_content: Option<String>,
}

/// Errors in preparing a request.
#[derive(Debug, Clone, Copy, PartialEq, Eq, Structural)]
pub enum LlmError {
    /// The vendor asked for (or the default one) is not configured.
    NoModelSelected,
}

impl LlmError {
    /// The message shown for this error.
    pub fn to_string(&self) -> (s: String)
        ensures
            s@ == "No model selected. Run `gitbuddy config` first."@,
    {
        "No model selected. Run `gitbuddy config` first.".to_string()
    }
}

/// The wire protocol a vendor speaks.
#[derive(Debug, Clone, Copy, PartialEq, Eq, Structural)]
pub enum Protocol {
    /// The Anthropic messages API.
    Anthropic,
    /// The OpenAI chat completions API.
    OpenAICompletions,
}

/// Everything a streaming commit request is sent with.
#[derive(Debug)]
pub struct RequestSettings {
    pub vendor: PromptModel,
    pub protocol: Protocol,
    pub model_name: String,
    pub api_key: String,
    /// `None` leaves the endpoint to the client library's default.
    pub base_url: Option<String>,
}

pub open spec fn protocol_of(v: PromptModel) -> Protocol {
    match v {
        PromptModel::MiniMax => Protocol::Anthropic,
        _ => Protocol::OpenAICompletions,
    }
}

/// The endpoint a request is sent to: the one configured, else the
/// vendor's default; OpenAI has no default of its own here.
pub open spec fn request_base_url(v: PromptModel, configured: Seq<char>) -> Option<Seq<char>> {
    if configured.len() > 0 {
        Some(configured)
    } else {
        match v {
            PromptModel::OpenAI => None,
            _ => Some(default_base_url_of(v)),
        }
    }
}

/// Settles vendor, model, key and endpoint of a request from the
/// configuration, the vendor asked for and the model asked for.
pub fn resolve_request(config: &GlobalConfig, vendor: Option<PromptModel>, model: Option<String>) -> (r:
    Result<RequestSettings, LlmError>)
    ensures
        match config.selected(vendor) {
            None => r == Err::<RequestSettings, LlmError>(LlmError::NoModelSelected),
            Some((c, v)) => r matches Ok(s) && {
                &&& s.vendor == v
                &&& s.protocol == protocol_of(v)
                &&& s.model_name@ == (match model {
                    Some(m) => m@,
                    None => c.model@,
                })
                &&& s.api_key@ == (match c.api_key {
                    Some(k) => k@,
                    None => Seq::empty(),
                })
                &&& opt_string_view(s.base_url) == request_base_url(v, c.base_url@)
            },
        },
{
    let (c, v) = match config.model(vendor) {
        Some(found) => found,
        None => {
            return Err(LlmError::NoModelSelected);
        },
    };
    let model_name = match model {
        Some(m) => m,
        None => c.model.clone(),
    };
    let api_key = match &c.api_key {
        Some(k) => k.clone(),
        None => String::new(),
    };
    let base_url = if !c.base_url.as_str().is_empty() {
        Some(c.base_url.clone())
    } else {
        match v {
            PromptModel::OpenAI => None,
            _ => Some(default_base_url(v).to_string()),
        }
    };
    let protocol = match v {
        PromptModel::MiniMax => Protocol::Anthropic,
        _ => Protocol::OpenAICompletions,
    };
    Ok(RequestSettings { vendor: v, protocol, model_name, api_key, base_url })
}

/// The token counts reported at the end of a stream.
#[derive(Debug, Clone, Copy)]
pub struct TokenUsage {
    pub input_tokens: u64,
    pub output_tokens: u64,
    pub total_tokens: u64,
    pub cached_input_tokens: u64,
}

/// What a streamed answer has delivered so far.
#[derive(Debug)]
pub struct StreamCollector {
    pub text: String,
    pub reasoning: String,
    pub usage: Option<TokenUsage>,
    /// Set once the stream failed; nothing is taken in after that.
    pub error: Option<String>,
}

/// A piece of a streamed answer, as the client library delivers it.
#[derive(Debug)]
pub enum StreamChunk {
    /// A piece of the answer text.
    Text(String),
    /// A piece of the model's reasoning.
    Reasoning(String),
    /// The end of the answer, with the token usage when reported.
    Final(Option<TokenUsage>),
    /// The stream failed, with the error's message.
    Error(String),
    /// Anything else (tool calls and the like): ignored.
    Other,
}

/// What to do on a piece of a streamed answer.
#[derive(Debug)]
pub enum StreamStep {
    /// Show this text to the user now.
    Show(String),
    /// Nothing to show; wait for the next piece.
    Continue,
    /// The stream failed with this message: stop reading it.
    Stop(String),
}

/// The message of a stream that failed with error message `e`.
pub open spec fn streaming_error_text(e: Seq<char>) -> Seq<char> {
    "Streaming error: "@ + e
}

/// The answer that a finished stream makes: the reasoning stands in for a
/// blank text, and the cache count is kept only when positive.
pub open spec fn stream_result_is(c: StreamCollector, r: LLMResult) -> bool {
    &&& r.commit_message@ == (if trim(c.text@).len() == 0 && c.reasoning@.len() > 0 {
        c.reasoning@
    } else {
        c.text@
    })
    &&& match c.usage {
        Some(u) => {
            &&& r.prompt_tokens == u.input_tokens as i64
            &&& r.completion_tokens == u.output_tokens as i64
            &&& r.total_tokens == u.total_tokens as i64
            &&& r.prompt_cache_hit_tokens == (if u.cached_input_tokens > 0 {
                Some(u.cached_input_tokens as i64)
            } else {
                None
            })
        },
        None => {
            &&& r.prompt_tokens == 0
            &&& r.completion_tokens == 0
            &&& r.total_tokens == 0
            &&& r.prompt_cache_hit_tokens is None
        },
    }
    &&& opt_string_view(r.reasoning_content) == (if c.reasoning@.len() == 0 {
        None
    } else {
        Some(c.reasoning@)
    })
}

fn is_blank(s: &str) -> (r: bool)
    ensures
        r == (trim(s@).len() == 0),
{
    let v = crate::text::chars_of(s);
    let t = crate::text::trim_vec(&v);
    t.len() == 0
}

impl StreamCollector {
    pub fn new() -> (r: Self)
        ensures
            r.text@ == Seq::<char>::empty(),
            r.reasoning@ == Seq::<char>::empty(),
            r.usage is None,
            r.error is None,
    {
        StreamCollector { text: String::new(), reasoning: String::new(), usage: None, error: None }
    }

    /// Takes in a piece of the stream and says what to do with it: answer
    /// text is added and shown as it comes, reasoning is added, the final
    /// piece brings the token usage, an error stops the stream for good.
    pub fn accept(&mut self, chunk: StreamChunk) -> (r: StreamStep)
        ensures
            old(self).error matches Some(m) ==> {
                &&& *final(self) == *old(self)
                &&& r matches StreamStep::Stop(x) && x@ == m@
            },
            old(self).error is None ==> match chunk {
                StreamChunk::Text(t) => {
                    &&& final(self).text@ == old(self).text@ + t@
                    &&& final(self).reasoning == old(self).reasoning
                    &&& final(self).usage == old(self).usage
                    &&& final(self).error is None
                    &&& r matches StreamStep::Show(x) && x@ == t@
                },
                StreamChunk::Reasoning(t) => {
                    &&& final(self).reasoning@ == old(self).reasoning@ + t@
                    &&& final(self).text == old(self).text
                    &&& final(self).usage == old(self).usage
                    &&& final(self).error is None
                    &&& r is Continue
                },
                StreamChunk::Final(u) => {
                    &&& final(self).usage == u
                    &&& final(self).text == old(self).text
                    &&& final(self).reasoning == old(self).reasoning
                    &&& final(self).error is None
                    &&& r is Continue
                },
                StreamChunk::Error(e) => {
                    &&& final(self).text == old(self).text
                    &&& final(self).reasoning == old(self).reasoning
                    &&& final(self).usage == old(self).usage
                    &&& final(self).error matches Some(m) && m@ == streaming_error_text(e@)
                    &&& r matches StreamStep::Stop(x) && x@ == streaming_error_text(e@)
                },
                StreamChunk::Other => {
                    &&& *final(self) == *old(self)
                    &&& r is Continue
                },
            },
    {
        match &self.error {
            Some(m) => {
                return StreamStep::Stop(m.clone());
            },
            None => {},
        }
        match chunk {
            StreamChunk::Text(t) => {
                self.text.append(t.as_str());
                StreamStep::Show(t)
            },
            StreamChunk::Reasoning(t) => {
                self.reasoning.append(t.as_str());
                StreamStep::Continue
            },
            StreamChunk::Final(u) => {
                self.usage = u;
                StreamStep::Continue
            },
            StreamChunk::Error(e) => {
                let mut m = String::from_str("Streaming error: ");
                m.append(e.as_str());
                let shown = m.clone();
                self.error = Some(m);
                StreamStep::Stop(shown)
            },
            StreamChunk::Other => StreamStep::Continue,
        }
    }

    /// The answer of the finished stream, or the error that ended it.
    pub fn finish(self) -> (r: Result<LLMResult, String>)
        ensures
            match self.error {
                Some(m) => r matches Err(x) && x@ == m@,
                None => r matches Ok(a) && stream_result_is(self, a),
            },
    {
        let ghost before = self;
        match self.error {
            Some(m) => {
                return Err(m);
            },
            None => {},
        }
        let blank = is_blank(self.text.as_str());
        let reasoning_empty = self.reasoning.as_str().is_empty();
        let (prompt_tokens, completion_tokens, total_tokens, prompt_cache_hit_tokens) =
            match self.usage {
            Some(u) => (
                u.input_tokens as i64,
                u.output_tokens as i64,
                u.total_tokens as i64,
                if u.cached_input_tokens > 0 {
                    Some(u.cached_input_tokens as i64)
                } else {
                    None
                },
            ),
            None => (0i64, 0i64, 0i64, None),
        };
        let (commit_message, reasoning_content) = if reasoning_empty {
            (self.text, None)
        } else if blank {
            (self.reasoning.clone(), Some(self.reasoning))
        } else {
            (self.text, Some(self.reasoning))
        };
        Ok(
            LLMResult {
                commit_message,
                completion_tokens,
                prompt_tokens,
                total_tokens,
                prompt_cache_hit_tokens,
                reasoning_content,
            },
        )
    }
}

/// Builds requests to an OpenAI-compatible endpoint.
#[derive(Debug)]
pub struct OpenAICompatibleBuilder {
    pub url: String,
    pub model: String,
    pub api_key: String,
}

/// A request to an OpenAI-compatible endpoint.
#[derive(Debug)]
pub struct OpenAICompatible {
    pub url: String,
    pub model: String,
    pub prompt: String,
    pub api_key: String,
}

/// A request to an Anthropic-compatible endpoint.
#[derive(Debug)]
pub struct AnthropicCompatible {
    pub url: String,
    pub model: String,
    pub prompt: String,
    pub api_key: String,
}

/// The endpoint a direct HTTP request goes to when none is configured:
/// the vendor's default, and the public OpenAI API for OpenAI.
pub open spec fn builder_default_url_of(v: PromptModel) -> Seq<char> {
    match v {
        PromptModel::OpenAI => "https://api.openai.com"@,
        _ => default_base_url_of(v),
    }
}

fn builder_default_url(v: PromptModel) -> (r: &'static str)
    ensures
        r@ == builder_default_url_of(v),
{
    match v {
        PromptModel::OpenAI => "https://api.openai.com",
        _ => default_base_url(v),
    }
}

/// The endpoint a builder starts from: the vendor's default when none is
/// given, else the one given without trailing slashes.
pub open spec fn builder_url(vendor: PromptModel, base_url: Seq<char>) -> Seq<char> {
    if base_url.len() == 0 {
        builder_default_url_of(vendor)
    } else {
        drop_back(base_url, CharClass::Exactly('/'))
    }
}

impl OpenAICompatibleBuilder {
    pub fn new(vendor: PromptModel, model: &str, api_key: &str, base_url: &str) -> (r: Self)
        ensures
            r.url@ == builder_url(vendor, base_url@),
            r.model@ == model@,
            r.api_key@ == api_key@,
    {
        let url = if base_url.is_empty() {
            builder_default_url(vendor).to_string()
        } else {
            let v = crate::text::chars_of(base_url);
            let t = crate::text::drop_back_vec(&v, CharClass::Exactly('/'));
            crate::text::string_of(&t)
        };
        OpenAICompatibleBuilder { url, model: model.to_string(), api_key: api_key.to_string() }
    }

    pub fn build(self, prompt: String) -> (r: OpenAICompatible)
        ensures
            r.url == self.url,
            r.model == self.model,
            r.api_key == self.api_key,
            r.prompt == prompt,
    {
        OpenAICompatible { url: self.url, model: self.model, prompt, api_key: self.api_key }
    }
}

/// The chat completions endpoint under `url`.
pub open spec fn chat_completions_url(url: Seq<char>) -> Seq<char> {
    if ends_with(url, "/chat/completions"@) {
        url
    } else if ends_with(url, "/v1"@) {
        url + "/chat/completions"@
    } else {
        url + "/v1/chat/completions"@
    }
}

/// The messages endpoint under `url`.
pub open spec fn messages_url(url: Seq<char>) -> Seq<char> {
    if ends_with(url, "/messages"@) {
        url
    } else if ends_with(url, "/v1"@) {
        url + "/messages"@
    } else {
        url + "/v1/messages"@
    }
}

impl OpenAICompatible {
    /// The URL the request is posted to.
    pub fn endpoint(&self) -> (r: String)
        ensures
            r@ == chat_completions_url(self.url@),
    {
        let mut u = self.url.clone();
        if str_ends_with(self.url.as_str(), "/chat/completions") {
        } else if str_ends_with(self.url.as_str(), "/v1") {
            u.append("/chat/completions");
        } else {
            u.append("/v1/chat/completions");
        }
        u
    }
}

impl AnthropicCompatible {
    /// The URL the request is posted to.
    pub fn endpoint(&self) -> (r: String)
        ensures
            r@ == messages_url(self.url@),
    {
        let mut u = self.url.clone();
        if str_ends_with(self.url.as_str(), "/messages") {
        } else if str_ends_with(self.url.as_str(), "/v1") {
            u.append("/messages");
        } else {
            u.append("/v1/messages");
        }
        u
    }
}

/// The integer sampling limits of a streaming request: each is sent only
/// when positive.
#[derive(Debug, Clone, Copy, PartialEq, Eq, Structural)]
pub struct IntegerLimits {
    pub max_tokens: Option<u64>,
    pub top_k: Option<u32>,
}

/// Which integer sampling limits a streaming request is sent with.
pub fn integer_limits(max_tokens: u32, top_k: u32) -> (r: IntegerLimits)
    ensures
        r.max_tokens == (if max_tokens > 0 {
            Some(max_tokens as u64)
        } else {
            None
        }),
        r.top_k == (if top_k > 0 {
            Some(top_k)
        } else {
            None
        }),
{
    IntegerLimits {
        max_tokens: if max_tokens > 0 {
            Some(max_tokens as u64)
        } else {
            None
        },
        top_k: if top_k > 0 {
            Some(top_k)
        } else {
            None
        },
    }
}

/// A message of a chat request.
#[derive(Debug)]
pub struct ChatMessage {
    pub role: String,
    pub content: String,
}

/// How long a direct HTTP request may take, in seconds.
pub const REQUEST_TIMEOUT_SECS: u64 = 120;

/// What an OpenAI-compatible request is sent with, apart from the sampling
/// parameters (floating-point numbers, added by the program).
#[derive(Debug)]
pub struct OpenAIRequest {
    pub url: String,
    /// The value of the `Authorization` header.
    pub authorization: String,
    pub model: String,
    pub messages: Vec<ChatMessage>,
    /// How long the server keeps the model loaded (`keep_alive`).
    pub keep_alive: String,
    pub max_tokens: u32,
    pub timeout_secs: u64,
}

/// What an Anthropic-compatible request is sent with, apart from the
/// sampling parameters (floating-point numbers, added by the program).
#[derive(Debug)]
pub struct AnthropicRequest {
    pub url: String,
    /// The value of the `X-Api-Key` header.
    pub api_key: String,
    pub model: String,
    /// The system prompt.
    pub system: String,
    pub messages: Vec<ChatMessage>,
    pub max_tokens: u32,
    pub timeout_secs: u64,
}

/// Whether `m` is a message of role `role` with content `content`.
pub open spec fn message_is(m: ChatMessage, role: Seq<char>, content: Seq<char>) -> bool {
    m.role@ == role && m.content@ == content
}

fn message(role: &str, content: String) -> (r: ChatMessage)
    ensures
        r.role@ == role@,
        r.content == content,
{
    ChatMessage { role: role.to_string(), content }
}

impl OpenAICompatible {
    /// The request for `diff_content`: posted to the chat completions
    /// endpoint with the key as bearer token, the system prompt and then
    /// the diff as user message.
    pub fn prepare(&self, diff_content: &str, max_tokens: u32) -> (r: OpenAIRequest)
        ensures
            r.url@ == chat_completions_url(self.url@),
            r.authorization@ == "Bearer "@ + self.api_key@,
            r.model == self.model,
            r.messages.len() == 2,
            message_is(r.messages[0], "system"@, self.prompt@),
            message_is(r.messages[1], "user"@, user_prompt_text(diff_content@)),
            r.keep_alive@ == "30m"@,
            r.max_tokens == max_tokens,
            r.timeout_secs == REQUEST_TIMEOUT_SECS,
    {
        let mut authorization = String::from_str("Bearer ");
        authorization.append(self.api_key.as_str());
        let mut messages: Vec<ChatMessage> = Vec::new();
        messages.push(message("system", self.prompt.clone()));
        messages.push(message("user", build_user_prompt(diff_content)));
        OpenAIRequest {
            url: self.endpoint(),
            authorization,
            model: self.model.clone(),
            messages,
            keep_alive: "30m".to_string(),
            max_tokens,
            timeout_secs: REQUEST_TIMEOUT_SECS,
        }
    }
}

impl AnthropicCompatible {
    /// The request for `diff_content`: posted to the messages endpoint
    /// with the key in `X-Api-Key`, the system prompt on its own and the
    /// diff as the one user message.
    pub fn prepare(&self, diff_content: &str, max_tokens: u32) -> (r: AnthropicRequest)
        ensures
            r.url@ == messages_url(self.url@),
            r.api_key == self.api_key,
            r.model == self.model,
            r.system == self.prompt,
            r.messages.len() == 1,
            message_is(r.messages[0], "user"@, user_prompt_text(diff_content@)),
            r.max_tokens == max_tokens,
            r.timeout_secs == REQUEST_TIMEOUT_SECS,
    {
        let mut messages: Vec<ChatMessage> = Vec::new();
        messages.push(message("user", build_user_prompt(diff_content)));
        AnthropicRequest {
            url: self.endpoint(),
            api_key: self.api_key.clone(),
            model: self.model.clone(),
            system: self.prompt.clone(),
            messages,
            max_tokens,
            timeout_secs: REQUEST_TIMEOUT_SECS,
        }
    }
}

/// The `error` object of an OpenAI-compatible error reply.
#[derive(Debug)]
pub struct ApiErrorDetail {
    pub message: String,
    pub code: Option<String>,
}

/// The message for a failed OpenAI-compatible request, given the status
/// line, the reply body and the error object the body held, if any.
pub open spec fn openai_error_text(status: Seq<char>, body: Seq<char>, parsed: Option<ApiErrorDetail>) -> Seq<char> {
    match parsed {
        Some(e) => if e.code matches Some(c) && c@ == "context_length_exceeded"@ {
            "The staged changes are too large for the model's context window. Try committing fewer files at once with `git add <specific-files>`."@
        } else {
            "API error ("@ + status + "): "@ + e.message@
        },
        None => "API error ("@ + status + "): "@ + body,
    }
}

fn str_eq(a: &str, b: &str) -> (r: bool)
    ensures
        r == (a@ == b@),
{
    let x = crate::text::chars_of(a);
    let y = crate::text::chars_of(b);
    if x.len() != y.len() {
        return false;
    }
    let mut i: usize = 0;
    while i < x.len()
        invariant
            x@ == a@,
            y@ == b@,
            x.len() == y.len(),
            i <= x.len(),
            forall|k: int| 0 <= k < i ==> x@[k] == y@[k],
        decreases x.len() - i,
    {
        if x[i] != y[i] {
            assert(x@[i as int] != y@[i as int]);
            return false;
        }
        i = i + 1;
    }
    assert(x@ =~= y@);
    true
}

/// The message for a failed OpenAI-compatible request.
pub fn openai_error_message(status: &str, body: &str, parsed: Option<ApiErrorDetail>) -> (r: String)
    ensures
        r@ == openai_error_text(status@, body@, parsed),
{
    match parsed {
        Some(e) => {
            let too_long = match &e.code {
                Some(c) => str_eq(c.as_str(), "context_length_exceeded"),
                None => false,
            };
            if too_long {
                "The staged changes are too large for the model's context window. Try committing fewer files at once with `git add <specific-files>`.".to_string()
            } else {
                let mut s = String::from_str("API error (");
                s.append(status);
                s.append("): ");
                s.append(e.message.as_str());
                s
            }
        },
        None => {
            let mut s = String::from_str("API error (");
            s.append(status);
            s.append("): ");
            s.append(body);
            s
        },
    }
}

/// The `base_resp` object of an Anthropic-compatible error reply.
#[derive(Debug)]
pub struct AnthropicBaseResp {
    pub status_code: i64,
    pub status_msg: String,
}

/// The message for a failed Anthropic-compatible request.
pub open spec fn anthropic_error_text(status: Seq<char>, body: Seq<char>, base_resp: Option<AnthropicBaseResp>) -> Seq<char> {
    match base_resp {
        Some(b) => "API error ("@ + status + "): "@ + b.status_msg@ + " (code: "@ + signed_decimal(
            b.status_code as int,
        ) + ")"@,
        None => "API error ("@ + status + "): "@ + body,
    }
}

/// The message for a failed Anthropic-compatible request, given the status
/// line, the reply body and the `base_resp` object the body held, if any.
pub fn anthropic_error_message(status: &str, body: &str, base_resp: Option<AnthropicBaseResp>) -> (r:
    String)
    ensures
        r@ == anthropic_error_text(status@, body@, base_resp),
{
    let mut s = String::from_str("API error (");
    s.append(status);
    s.append("): ");
    match base_resp {
        Some(b) => {
            s.append(b.status_msg.as_str());
            s.append(" (code: ");
            let code = signed_decimal_string(b.status_code);
            s.append(code.as_str());
            s.append(")");
        },
        None => {
            s.append(body);
        },
    }
    s
}

/// A content block of an Anthropic-compatible reply.
#[derive(Debug)]
pub struct ContentBlock {
    pub block_type: String,
    pub text: Option<String>,
    pub thinking: Option<String>,
}

/// The trimmed texts of the `text` blocks from `k` on, joined.
pub open spec fn text_blocks_from(blocks: Seq<ContentBlock>, k: int) -> Seq<char>
    decreases blocks.len() - k,
{
    if k < 0 || k >= blocks.len() {
        Seq::empty()
    } else {
        let b = blocks[k];
        let here = if b.block_type@ == "text"@ && b.text is Some {
            trim(b.text->0@)
        } else {
            Seq::empty()
        };
        here + text_blocks_from(blocks, k + 1)
    }
}

/// The trimmed thinking of the last `thinking` block before index `n`.
pub open spec fn last_thinking(blocks: Seq<ContentBlock>, n: int) -> Option<Seq<char>>
    decreases n,
{
    if n <= 0 || n > blocks.len() {
        None
    } else {
        let b = blocks[n - 1];
        if b.block_type@ == "thinking"@ && b.thinking is Some {
            Some(trim(b.thinking->0@))
        } else {
            last_thinking(blocks, n - 1)
        }
    }
}

/// The answer that an Anthropic-compatible reply makes: its text blocks,
/// or its last thinking block when they hold nothing.
pub open spec fn anthropic_result_is(
    blocks: Seq<ContentBlock>,
    input_tokens: i64,
    output_tokens: i64,
    r: LLMResult,
) -> bool {
    let msg = text_blocks_from(blocks, 0);
    let reasoning = last_thinking(blocks, blocks.len() as int);
    &&& r.commit_message@ == (if msg.len() == 0 && reasoning is Some {
        reasoning->0
    } else {
        msg
    })
    &&& opt_string_view(r.reasoning_content) == reasoning
    &&& r.prompt_tokens == input_tokens
    &&& r.completion_tokens == output_tokens
    &&& r.total_tokens == input_tokens + output_tokens
    &&& r.prompt_cache_hit_tokens is None
}

fn trimmed_string(s: &str) -> (r: String)
    ensures
        r@ == trim(s@),
{
    let v = crate::text::chars_of(s);
    let t = crate::text::trim_vec(&v);
    crate::text::string_of(&t)
}

/// Builds the answer of an Anthropic-compatible reply from its content
/// blocks and token counts.
pub fn anthropic_result(blocks: &Vec<ContentBlock>, input_tokens: i64, output_tokens: i64) -> (r:
    LLMResult)
    requires
        i64::MIN <= input_tokens + output_tokens <= i64::MAX,
    ensures
        anthropic_result_is(blocks@, input_tokens, output_tokens, r),
{
    let mut msg = String::new();
    let mut reasoning: Option<String> = None;
    let mut k: usize = 0;
    while k < blocks.len()
        invariant
            k <= blocks.len(),
            msg@ + text_blocks_from(blocks@, k as int) == text_blocks_from(blocks@, 0),
            opt_string_view(reasoning) == last_thinking(blocks@, k as int),
        decreases blocks.len() - k,
    {
        let b = &blocks[k];
        proof {
            reveal_strlit("text");
            reveal_strlit("thinking");
            assert("text"@ != "thinking"@) by {
                assert("text"@.len() != "thinking"@.len());
            }
            assert(last_thinking(blocks@, k + 1) == (if b.block_type@ == "thinking"@
                && b.thinking is Some {
                Some(trim(b.thinking->0@))
            } else {
                last_thinking(blocks@, k as int)
            }));
        }
        if str_eq(b.block_type.as_str(), "text") {
            match &b.text {
                Some(t) => {
                    let tt = trimmed_string(t.as_str());
                    msg.append(tt.as_str());
                    assert(msg@ + text_blocks_from(blocks@, k + 1) =~= text_blocks_from(
                        blocks@,
                        0,
                    ));
                },
                None => {
                    assert(text_blocks_from(blocks@, k as int) =~= text_blocks_from(
                        blocks@,
                        k + 1,
                    ));
                },
            }
        } else {
            assert(text_blocks_from(blocks@, k as int) =~= text_blocks_from(blocks@, k + 1));
            if str_eq(b.block_type.as_str(), "thinking") {
                match &b.thinking {
                    Some(t) => {
                        reasoning = Some(trimmed_string(t.as_str()));
                    },
                    None => {},
                }
            }
        }
        k = k + 1;
    }
    assert(text_blocks_from(blocks@, k as int) == Seq::<char>::empty());
    assert(msg@ + Seq::<char>::empty() =~= msg@);
    let commit_message = if msg.as_str().is_empty() {
        match &reasoning {
            Some(r) => r.clone(),
            None => msg,
        }
    } else {
        msg
    };
    LLMResult {
        commit_message,
        completion_tokens: output_tokens,
        prompt_tokens: input_tokens,
        total_tokens: input_tokens + output_tokens,
        prompt_cache_hit_tokens: None,
        reasoning_content: reasoning,
    }
}

/// The error of a successful OpenAI-compatible reply with no choice.
pub open spec fn no_choices_text() -> Seq<char> {
    "No choices returned from API"@
}

/// Builds the answer of an OpenAI-compatible reply from the contents of
/// its choices and its token counts: the first choice, trimmed; an error
/// when there is none.
pub fn openai_result(
    choices: &Vec<String>,
    completion_tokens: i64,
    prompt_tokens: i64,
    total_tokens: i64,
    prompt_cache_hit_tokens: Option<i64>,
) -> (r: Result<LLMResult, String>)
    ensures
        choices.len() == 0 ==> (r matches Err(e) && e@ == no_choices_text()),
        choices.len() > 0 ==> (r matches Ok(a) && {
            &&& a.commit_message@ == trim(choices[0]@)
            &&& a.completion_tokens == completion_tokens
            &&& a.prompt_tokens == prompt_tokens
            &&& a.total_tokens == total_tokens
            &&& a.prompt_cache_hit_tokens == prompt_cache_hit_tokens
            &&& a.reasoning_content is None
        }),
{
    if choices.len() == 0 {
        return Err("No choices returned from API".to_string());
    }
    Ok(
        LLMResult {
            commit_message: trimmed_string(choices[0].as_str()),
            completion_tokens,
            prompt_tokens,
            total_tokens,
            prompt_cache_hit_tokens,
            reasoning_content: None,
        },
    )
}

/// A configured endpoint is what a request is sent to, for every vendor;
/// without one, DeepSeek, Ollama and MiniMax use their default endpoint
/// and OpenAI the client library's own default.
pub proof fn law_configured_endpoint_is_used(v: PromptModel, configured: Seq<char>)
    ensures
        configured.len() > 0 ==> request_base_url(v, configured) == Some(configured),
        configured.len() == 0 ==> request_base_url(v, configured) == match v {
            PromptModel::OpenAI => None,
            PromptModel::DeepSeek => Some("https://api.deepseek.com"@),
            PromptModel::Ollama => Some("http://localhost:11434"@),
            PromptModel::MiniMax => Some("https://api.minimaxi.com/anthropic"@),
        },
{
}

/// The answer of a stream is the text the model streamed; only when that
/// text is blank does the reasoning stand in for it. The reasoning is
/// kept beside the answer whenever there is any.
pub proof fn law_stream_answer_is_text_unless_blank(c: StreamCollector, r: LLMResult)
    requires
        stream_result_is(c, r),
    ensures
        trim(c.text@).len() > 0 ==> r.commit_message@ == c.text@,
        c.reasoning@.len() == 0 ==> r.commit_message@ == c.text@,
        trim(c.text@).len() == 0 && c.reasoning@.len() > 0 ==> r.commit_message@ == c.reasoning@,
        c.reasoning@.len() > 0 ==> (r.reasoning_content matches Some(x) && x@ == c.reasoning@),
        c.reasoning@.len() == 0 ==> r.reasoning_content is None,
{
}

} // verus!
