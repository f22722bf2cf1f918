//! The vocabulary shared with the model backend: turns, their segments, the
//! request that asks for the next turn and the response that carries it.

use crate::error::{AgentError, AgentErrorView};
use crate::json::clone_value;
use vstd::prelude::*;
use vstd::string::StringExecFns;

verus! {

/// Who speaks in a turn.
#[derive(Debug, Clone, Copy, PartialEq, Eq, Structural)]
pub enum Role {
    User,
    Assistant,
}

/// One piece of a turn's content.
#[derive(Debug, PartialEq, Eq)]
pub enum ContentBlock {
    /// Narrative text.
    Text { text: String },
    /// The model asks for a tool to be run.
    ToolUse { id: String, name: String, input: serde_json::Value },
    /// What running a tool gave, keyed by the id of the request.
    ToolResult { tool_use_id: String, content: String, is_error: Option<bool> },
}

/// The mathematical content of a [`ContentBlock`].
pub enum Segment {
    Text { text: Seq<char> },
    ToolUse { id: Seq<char>, name: Seq<char>, input: serde_json::Value },
    ToolResult { tool_use_id: Seq<char>, content: Seq<char>, is_error: Option<bool> },
}

impl View for ContentBlock {
    type V = Segment;

    open spec fn view(&self) -> Segment {
        match self {
            ContentBlock::Text { text } => Segment::Text { text: text@ },
            ContentBlock::ToolUse { id, name, input } => Segment::ToolUse {
                id: id@,
                name: name@,
                input: *input,
            },
            ContentBlock::ToolResult { tool_use_id, content, is_error } => Segment::ToolResult {
                tool_use_id: tool_use_id@,
                content: content@,
                is_error: *is_error,
            },
        }
    }
}

impl Clone for ContentBlock {
    fn clone(&self) -> (copy: ContentBlock)
        ensures
            copy@ == self@,
    {
        match self {
            ContentBlock::Text { text } => ContentBlock::Text { text: text.clone() },
            ContentBlock::ToolUse { id, name, input } => ContentBlock::ToolUse {
                id: id.clone(),
                name: name.clone(),
                input: clone_value(input),
            },
            ContentBlock::ToolResult { tool_use_id, content, is_error } => {
                ContentBlock::ToolResult {
                    tool_use_id: tool_use_id.clone(),
                    content: content.clone(),
                    is_error: *is_error,
                }
            },
        }
    }
}

/// The segments that a list of blocks stands for.
pub open spec fn segments(blocks: Seq<ContentBlock>) -> Seq<Segment> {
    blocks.map_values(|block: ContentBlock| block@)
}

/// A copy of a list of blocks.
pub fn clone_blocks(blocks: &Vec<ContentBlock>) -> (copy: Vec<ContentBlock>)
    ensures
        segments(copy@) == segments(blocks@),
{
    let mut copy: Vec<ContentBlock> = Vec::new();
    let mut i: usize = 0;
    while i < blocks.len()
        invariant
            i <= blocks.len(),
            copy@.len() == i,
            forall|j: int| 0 <= j < i ==> copy@[j]@ == blocks@[j]@,
        decreases blocks.len() - i,
    {
        copy.push(blocks[i].clone());
        i += 1;
    }
    assert(segments(copy@) =~= segments(blocks@));
    copy
}

/// One entry of the conversation.
#[derive(Debug, PartialEq, Eq)]
pub struct Message {
    pub role: Role,
    pub content: Vec<ContentBlock>,
}

/// The mathematical content of a [`Message`].
pub struct Turn {
    pub role: Role,
    pub segments: Seq<Segment>,
}

impl View for Message {
    type V = Turn;

    open spec fn view(&self) -> Turn {
        Turn { role: self.role, segments: segments(self.content@) }
    }
}

impl Clone for Message {
    fn clone(&self) -> (copy: Message)
        ensures
            copy@ == self@,
    {
        Message { role: self.role, content: clone_blocks(&self.content) }
    }
}

/// The turns that a list of messages stands for.
pub open spec fn turns(messages: Seq<Message>) -> Seq<Turn> {
    messages.map_values(|message: Message| message@)
}

/// A copy of a conversation.
pub fn clone_messages(messages: &Vec<Message>) -> (copy: Vec<Message>)
    ensures
        turns(copy@) == turns(messages@),
{
    let mut copy: Vec<Message> = Vec::new();
    let mut i: usize = 0;
    while i < messages.len()
        invariant
            i <= messages.len(),
            copy@.len() == i,
            forall|j: int| 0 <= j < i ==> copy@[j]@ == messages@[j]@,
        decreases messages.len() - i,
    {
        copy.push(messages[i].clone());
        i += 1;
    }
    assert(turns(copy@) =~= turns(messages@));
    copy
}

/// The text of an optional string.
pub open spec fn text_of(text: Option<String>) -> Option<Seq<char>> {
    match text {
        Some(text) => Some(text@),
        None => None,
    }
}

/// A tool as it is advertised to the model.
#[derive(Debug, PartialEq, Eq)]
pub struct Tool {
    pub name: String,
    pub description: Option<String>,
    pub input_schema: serde_json::Value,
}

/// The mathematical content of a [`Tool`].
pub struct ToolView {
    pub name: Seq<char>,
    pub description: Option<Seq<char>>,
    pub input_schema: serde_json::Value,
}

impl View for Tool {
    type V = ToolView;

    open spec fn view(&self) -> ToolView {
        ToolView {
            name: self.name@,
            description: text_of(self.description),
            input_schema: self.input_schema,
        }
    }
}

/// The catalog that a list of advertised tools stands for.
pub open spec fn catalog(tools: Seq<Tool>) -> Seq<ToolView> {
    tools.map_values(|tool: Tool| tool@)
}

/// How the model may choose among the advertised tools.
#[derive(Debug, PartialEq, Eq)]
pub enum ToolChoice {
    Auto,
    Any,
    Tool { name: String },
}

/// The mathematical content of a [`ToolChoice`].
pub enum ToolChoiceView {
    Auto,
    Any,
    Tool { name: Seq<char> },
}

impl View for ToolChoice {
    type V = ToolChoiceView;

    open spec fn view(&self) -> ToolChoiceView {
        match self {
            ToolChoice::Auto => ToolChoiceView::Auto,
            ToolChoice::Any => ToolChoiceView::Any,
            ToolChoice::Tool { name } => ToolChoiceView::Tool { name: name@ },
        }
    }
}

/// What is sent to the model to ask for the next assistant turn.
#[derive(Debug, PartialEq, Eq)]
pub struct MessagesRequest {
    pub model: String,
    pub max_tokens: u32,
    pub messages: Vec<Message>,
    pub system: Option<String>,
    pub tools: Option<Vec<Tool>>,
    pub tool_choice: Option<ToolChoice>,
}

/// The mathematical content of a [`MessagesRequest`].
pub struct MessagesRequestView {
    pub model: Seq<char>,
    pub max_tokens: u32,
    pub messages: Seq<Turn>,
    pub system: Option<Seq<char>>,
    pub tools: Option<Seq<ToolView>>,
    pub tool_choice: Option<ToolChoiceView>,
}

impl View for MessagesRequest {
    type V = MessagesRequestView;

    open spec fn view(&self) -> MessagesRequestView {
        MessagesRequestView {
            model: self.model@,
            max_tokens: self.max_tokens,
            messages: turns(self.messages@),
            system: text_of(self.system),
            tools: match self.tools {
                Some(tools) => Some(catalog(tools@)),
                None => None,
            },
            tool_choice: match self.tool_choice {
                Some(choice) => Some(choice@),
                None => None,
            },
        }
    }
}

impl Default for MessagesRequest {
    /// The empty request: no model, no budget, no turns, nothing optional.
    fn default() -> (request: MessagesRequest)
        ensures
            request@ == (MessagesRequestView {
                model: Seq::empty(),
                max_tokens: 0,
                messages: Seq::empty(),
                system: None,
                tools: None,
                tool_choice: None,
            }),
    {
        let request = MessagesRequest {
            model: String::new(),
            max_tokens: 0,
            messages: Vec::new(),
            system: None,
            tools: None,
            tool_choice: None,
        };
        assert(turns(request.messages@) =~= Seq::empty());
        request
    }
}

/// Token accounting reported by the backend.
#[derive(Debug, Clone, Copy, PartialEq, Eq, Structural)]
pub struct Usage {
    pub input_tokens: u32,
    pub output_tokens: u32,
}

/// One assistant turn as the backend returns it.
#[derive(Debug, PartialEq, Eq)]
pub struct MessagesResponse {
    pub id: String,
    pub content: Vec<ContentBlock>,
    pub model: String,
    pub role: Role,
    pub usage: Usage,
}

/// The mathematical content of a [`MessagesResponse`].
pub struct MessagesResponseView {
    pub id: Seq<char>,
    pub content: Seq<Segment>,
    pub model: Seq<char>,
    pub role: Role,
    pub usage: Usage,
}

impl View for MessagesResponse {
    type V = MessagesResponseView;

    open spec fn view(&self) -> MessagesResponseView {
        MessagesResponseView {
            id: self.id@,
            content: segments(self.content@),
            model: self.model@,
            role: self.role,
            usage: self.usage,
        }
    }
}

/// What one exchange with the backend came to, before it is judged.
#[derive(Debug, PartialEq, Eq)]
pub enum Reply {
    /// The request never got through; the detail is the transport's message.
    Unsent(String),
    /// The backend answered with a status other than success; the body is
    /// there if it could be read.
    Refused(Option<String>),
    /// The backend reported success, but its body could not be decoded; the
    /// detail is the decoder's message.
    Unreadable(String),
    /// The backend reported success and its body was decoded.
    Answer(MessagesResponse),
}

/// The mathematical content of a [`Reply`].
pub enum ReplyView {
    Unsent(Seq<char>),
    Refused(Option<Seq<char>>),
    Unreadable(Seq<char>),
    Answer(MessagesResponseView),
}

impl View for Reply {
    type V = ReplyView;

    open spec fn view(&self) -> ReplyView {
        match self {
            Reply::Unsent(detail) => ReplyView::Unsent(detail@),
            Reply::Refused(body) => ReplyView::Refused(text_of(*body)),
            Reply::Unreadable(detail) => ReplyView::Unreadable(detail@),
            Reply::Answer(response) => ReplyView::Answer(response@),
        }
    }
}

/// The failure that a reply amounts to, if it amounts to one.
pub open spec fn failure_of(reply: ReplyView) -> Option<AgentErrorView> {
    match reply {
        ReplyView::Unsent(detail) => Some(AgentErrorView::ApiError(detail)),
        ReplyView::Refused(Some(body)) => Some(
            AgentErrorView::ApiError("API request failed: "@ + body),
        ),
        ReplyView::Refused(None) => Some(
            AgentErrorView::ApiError("API request failed: "@ + "Failed to get error details"@),
        ),
        ReplyView::Unreadable(detail) => Some(AgentErrorView::ApiError(detail)),
        ReplyView::Answer(_) => None,
    }
}

/// One header of a request: its name and its value.
pub struct Header {
    pub name: String,
    pub value: String,
}

/// The backend's side of the conversation, as far as it can be decided
/// without touching the network: where requests go, what accompanies them
/// and what a reply amounts to.
pub struct AnthropicClient {
    api_key: String,
}

impl AnthropicClient {
    /// The key that authenticates this client.
    pub closed spec fn key(&self) -> Seq<char> {
        self.api_key@
    }

    /// A client that authenticates with `api_key`.
    pub fn new(api_key: String) -> (client: AnthropicClient)
        ensures
            client.key() == api_key@,
    {
        AnthropicClient { api_key }
    }

    /// The key that authenticates this client.
    pub fn api_key(&self) -> (key: &str)
        ensures
            key@ == self.key(),
    {
        self.api_key.as_str()
    }

    /// Where requests are posted.
    pub fn endpoint(&self) -> (url: &'static str)
        ensures
            url@ == "https://api.anthropic.com/v1/messages"@,
    {
        "https://api.anthropic.com/v1/messages"
    }

    /// The headers that accompany every request, in the order they are set:
    /// the key, the protocol version and the content type.
    pub fn headers(&self) -> (headers: Vec<Header>)
        ensures
            headers@.len() == 3,
            headers@[0].name@ == "x-api-key"@,
            headers@[0].value@ == self.key(),
            headers@[1].name@ == "anthropic-version"@,
            headers@[1].value@ == "2023-06-01"@,
            headers@[2].name@ == "content-type"@,
            headers@[2].value@ == "application/json"@,
    {
        let mut headers: Vec<Header> = Vec::new();
        headers.push(Header { name: String::from_str("x-api-key"), value: self.api_key.clone() });
        headers.push(
            Header {
                name: String::from_str("anthropic-version"),
                value: String::from_str("2023-06-01"),
            },
        );
        headers.push(
            Header {
                name: String::from_str("content-type"),
                value: String::from_str("application/json"),
            },
        );
        headers
    }

    /// Judges a reply: a decoded answer is handed on, everything else is an
    /// `ApiError` that says what happened.
    pub fn judge(&self, reply: Reply) -> (outcome: Result<MessagesResponse, AgentError>)
        ensures
            (match outcome {
                Ok(response) => reply@ == ReplyView::Answer(response@),
                Err(failure) => failure_of(reply@) == Some(failure@),
            }),
    {
        match reply {
            Reply::Unsent(detail) => Err(AgentError::ApiError(detail)),
            Reply::Refused(body) => {
                let text = match body {
                    Some(body) => body,
                    None => String::from_str("Failed to get error details"),
                };
                Err(
                    AgentError::ApiError(
                        String::from_str("API request failed: ").concat(text.as_str()),
                    ),
                )
            },
            Reply::Unreadable(detail) => Err(AgentError::ApiError(detail)),
            Reply::Answer(response) => Ok(response),
        }
    }
}

} // verus!
