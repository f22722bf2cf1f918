//! The reasoning loop, one decision at a time.
//!
//! The agent owns the conversation. [`Agent::process_message`] takes the
//! operator's input and says what to ask the model; [`Agent::reasoning_step`]
//! takes what came back, runs the tools that the model asked for, and says
//! whether to ask again or what the final answer is. Whoever drives the agent
//! carries each request to the backend and each reply back.

use crate::anthropic::{
    catalog, clone_messages, segments, turns, AnthropicClient, ContentBlock, Message,
    MessagesRequest, MessagesRequestView, MessagesResponse, MessagesResponseView, Role, Segment,
    Tool, ToolChoice, ToolChoiceView, ToolView, Turn,
};
use crate::error::AgentError;
use crate::json::clone_value;
use crate::text::{trim, trimmed};
use crate::tools::{
    answers, definition_views, definitions_of, Registrations, ToolDefinition, ToolDefinitionView,
    ToolRegistry, ToolResultView, ToolUse, ToolUseView,
};
use vstd::prelude::*;
use vstd::string::StringExecFns;

verus! {

/// The instructions that accompany every request.
pub const SYSTEM_PROMPT: &'static str =
    "You are an expert coding assistant with deep knowledge across multiple programming languages and frameworks. Your primary goal is to help users with coding tasks effectively and accurately.

Key capabilities:
- Read, analyze, and understand code in any programming language
- Write, edit, and refactor code following best practices and conventions
- Debug issues and suggest optimizations
- Explain complex concepts clearly and provide examples
- Use available file system tools to read/edit files directly

Guidelines:
1. Always strive for code quality: write clean, maintainable, and well-documented code
2. Consider edge cases and potential errors in your solutions
3. Follow language-specific conventions and idioms
4. When editing files, preserve existing code style and formatting
5. Provide clear explanations for your changes and recommendations
6. Ask clarifying questions when requirements are ambiguous
7. Be explicit about assumptions you're making
8. Test your understanding by reading files before making changes

When working with files:
- Always read the current content before editing to understand context
- Make targeted, precise edits rather than rewriting entire files
- Preserve important comments and documentation
- Be careful with indentation and formatting to match the existing style

Remember: You have access to file reading and editing tools. Use them to provide direct, practical assistance rather than just theoretical advice.";

/// The most output that a request allows the model.
pub const MAX_TOKENS: u32 = 4096;

/// The narrative of a turn: the text of its text segments, in order, run
/// together.
pub open spec fn narrative(segments: Seq<Segment>) -> Seq<char>
    decreases segments.len(),
{
    if segments.len() == 0 {
        Seq::empty()
    } else {
        let before = narrative(segments.drop_last());
        match segments.last() {
            Segment::Text { text } => before + text,
            _ => before,
        }
    }
}

/// The tool calls of a turn, in order.
pub open spec fn tool_calls(segments: Seq<Segment>) -> Seq<ToolUseView>
    decreases segments.len(),
{
    if segments.len() == 0 {
        Seq::empty()
    } else {
        let before = tool_calls(segments.drop_last());
        match segments.last() {
            Segment::ToolUse { id, name, input } => before.push(ToolUseView { id, name, input }),
            _ => before,
        }
    }
}

/// The tool calls that a list of requests stands for.
pub open spec fn tool_use_views(tool_uses: Seq<ToolUse>) -> Seq<ToolUseView> {
    tool_uses.map_values(|tool_use: ToolUse| tool_use@)
}

/// The result that a segment carries, where it carries one.
pub open spec fn carried(segment: Segment) -> Option<ToolResultView> {
    match segment {
        Segment::ToolResult { tool_use_id, content, is_error: Some(is_error) } => Some(
            ToolResultView { tool_use_id, content, is_error },
        ),
        _ => None,
    }
}

/// `segment` carries a result that answers `call`.
pub open spec fn reports(
    registry: Registrations,
    call: ToolUseView,
    segment: Segment,
) -> bool {
    &&& carried(segment) is Some
    &&& carried(segment)->0.tool_use_id == call.id
    &&& answers(registry, call, carried(segment)->0)
}

/// The segments answer the calls one for one, in the same order.
pub open spec fn answered(
    registry: Registrations,
    calls: Seq<ToolUseView>,
    segments: Seq<Segment>,
) -> bool {
    &&& segments.len() == calls.len()
    &&& forall|i: int| 0 <= i < calls.len() ==> reports(registry, calls[i], #[trigger] segments[i])
}

/// A catalog entry as it is advertised to the model.
pub open spec fn advertised(definition: ToolDefinitionView) -> ToolView {
    ToolView {
        name: definition.name,
        description: Some(definition.description),
        input_schema: definition.input_schema,
    }
}

/// What the agent does next.
#[derive(Debug, PartialEq, Eq)]
pub enum Step {
    /// Send this request to the model and come back with its reply.
    Ask(MessagesRequest),
    /// The model is done; this is the final answer. It is empty where
    /// the model never said anything.
    Done(String),
}

/// The mathematical content of a [`Step`].
pub enum StepView {
    Ask(MessagesRequestView),
    Done(Seq<char>),
}

impl View for Step {
    type V = StepView;

    open spec fn view(&self) -> StepView {
        match self {
            Step::Ask(request) => StepView::Ask(request@),
            Step::Done(answer) => StepView::Done(answer@),
        }
    }
}

/// What a line typed by the operator asks for.
#[derive(Debug, PartialEq, Eq)]
pub enum Command {
    /// Leave the session.
    Quit,
    /// Nothing was typed.
    Skip,
    /// Hand this text to the agent.
    Ask(String),
}

/// The mathematical content of a [`Command`].
pub enum CommandView {
    Quit,
    Skip,
    Ask(Seq<char>),
}

impl View for Command {
    type V = CommandView;

    open spec fn view(&self) -> CommandView {
        match self {
            Command::Quit => CommandView::Quit,
            Command::Skip => CommandView::Skip,
            Command::Ask(text) => CommandView::Ask(text@),
        }
    }
}

/// What `text` asks for: `exit` and `quit` leave, nothing is skipped,
/// anything else goes to the agent.
pub open spec fn command_for(text: Seq<char>) -> CommandView {
    if text == "exit"@ || text == "quit"@ {
        CommandView::Quit
    } else if text.len() == 0 {
        CommandView::Skip
    } else {
        CommandView::Ask(text)
    }
}

/// What a line asks for, going by what is left of it after trimming.
pub open spec fn command_of(line: Seq<char>) -> CommandView {
    command_for(trimmed(line))
}

impl Command {
    /// What `text` asks for.
    pub fn for_text(text: &str) -> (command: Command)
        ensures
            command@ == command_for(text@),
    {
        let typed = String::from_str(text);
        if typed == String::from_str("exit") || typed == String::from_str("quit") {
            Command::Quit
        } else if text.is_empty() {
            Command::Skip
        } else {
            Command::Ask(typed)
        }
    }
}

/// The state of a session.
pub struct Agent {
    client: AnthropicClient,
    registry: ToolRegistry,
    conversation: Vec<Message>,
    system_prompt: String,
    model: String,
    final_response: String,
}

/// The mathematical content of an [`Agent`].
pub struct AgentView {
    /// The key that authenticates the session with the backend.
    pub key: Seq<char>,
    /// The registered tools.
    pub registry: Registrations,
    /// Every turn so far, oldest first.
    pub conversation: Seq<Turn>,
    /// The instructions that accompany every request.
    pub system_prompt: Seq<char>,
    /// The model that is asked.
    pub model: Seq<char>,
    /// The last narrative that the model gave since the operator last spoke.
    pub answer: Seq<char>,
}

impl View for Agent {
    type V = AgentView;

    closed spec fn view(&self) -> AgentView {
        AgentView {
            key: self.client.key(),
            registry: self.registry@,
            conversation: turns(self.conversation@),
            system_prompt: self.system_prompt@,
            model: self.model@,
            answer: self.final_response@,
        }
    }
}

/// The request that an agent in this state sends: everything said so far,
/// the whole catalog, the system prompt, and the choice of tools left to the
/// model.
pub open spec fn request_of(agent: AgentView) -> MessagesRequestView {
    MessagesRequestView {
        model: agent.model,
        max_tokens: MAX_TOKENS,
        messages: agent.conversation,
        system: Some(agent.system_prompt),
        tools: Some(
            definitions_of(agent.registry).map_values(
                |definition: ToolDefinitionView| advertised(definition),
            ),
        ),
        tool_choice: Some(ToolChoiceView::Auto),
    }
}

/// The turn in which the operator says `text`.
pub open spec fn spoken(text: Seq<char>) -> Turn {
    Turn { role: Role::User, segments: seq![Segment::Text { text }] }
}

/// The state after the operator said `input`.
pub open spec fn heard(before: AgentView, input: Seq<char>) -> AgentView {
    AgentView {
        conversation: before.conversation.push(spoken(input)),
        answer: Seq::empty(),
        ..before
    }
}

/// The answer that stands once `response` is in: its narrative, or the
/// earlier answer where it has none.
pub open spec fn answer_after(before: AgentView, response: MessagesResponseView) -> Seq<char> {
    if narrative(response.content).len() > 0 {
        narrative(response.content)
    } else {
        before.answer
    }
}

/// `after` is a state that taking in `response` can lead to from `before`.
///
/// The response's segments are appended as one assistant turn, untouched. If
/// they hold no tool call, nothing else is appended. Otherwise exactly one
/// user turn follows, whose segments answer the calls one for one and in
/// order. The registry and the settings stay as they were.
pub open spec fn advanced(
    before: AgentView,
    response: MessagesResponseView,
    after: AgentView,
) -> bool {
    let said = Turn { role: Role::Assistant, segments: response.content };
    let calls = tool_calls(response.content);
    &&& after.key == before.key
    &&& after.registry == before.registry
    &&& after.system_prompt == before.system_prompt
    &&& after.model == before.model
    &&& after.answer == answer_after(before, response)
    &&& if calls.len() == 0 {
        after.conversation == before.conversation.push(said)
    } else {
        &&& after.conversation == before.conversation.push(said).push(after.conversation.last())
        &&& after.conversation.last().role == Role::User
        &&& answered(before.registry, calls, after.conversation.last().segments)
    }
}

/// What the agent does once `response` is in and its state is `after`: it
/// is done where the response holds no tool call, and asks again otherwise.
pub open spec fn next_step(response: MessagesResponseView, after: AgentView) -> StepView {
    if tool_calls(response.content).len() == 0 {
        StepView::Done(after.answer)
    } else {
        StepView::Ask(request_of(after))
    }
}

/// The ids of the calls, in order.
pub open spec fn call_ids(calls: Seq<ToolUseView>) -> Seq<Seq<char>> {
    calls.map_values(|call: ToolUseView| call.id)
}

/// The ids that the results in these segments answer to, in order; a
/// segment that carries no result counts with an empty id.
pub open spec fn result_ids(segments: Seq<Segment>) -> Seq<Seq<char>> {
    segments.map_values(
        |segment: Segment|
            match carried(segment) {
                Some(result) => result.tool_use_id,
                None => Seq::empty(),
            },
    )
}

/// Every tool call is answered exactly once, by the turn that follows it.
///
/// After a response with tool calls is taken in, the last two turns are the
/// assistant's, with the response's segments, and the user's, which holds one
/// result for each call and nothing else. The ids of the results are the ids
/// of the calls in the same order, so they are a permutation of them; and
/// where the calls all have different ids, each id is answered by exactly
/// one result.
pub proof fn lemma_results_pair_with_calls(
    before: AgentView,
    response: MessagesResponseView,
    after: AgentView,
)
    requires
        advanced(before, response, after),
        tool_calls(response.content).len() > 0,
    ensures
        ({
            let n = after.conversation.len() as int;
            let calls = tool_calls(response.content);
            let results = after.conversation[n - 1].segments;
            &&& n == before.conversation.len() + 2
            &&& after.conversation[n - 2] == (Turn {
                role: Role::Assistant,
                segments: response.content,
            })
            &&& after.conversation[n - 1].role == Role::User
            &&& results.len() == calls.len()
            &&& forall|i: int| 0 <= i < results.len() ==> carried(#[trigger] results[i]) is Some
            &&& result_ids(results) == call_ids(calls)
            &&& result_ids(results).to_multiset() == call_ids(calls).to_multiset()
            &&& call_ids(calls).no_duplicates() ==> forall|i: int, j: int|
                0 <= i < calls.len() && 0 <= j < results.len() && result_ids(results)[j]
                    == call_ids(calls)[i] ==> i == j
        }),
{
    let n = after.conversation.len() as int;
    let calls = tool_calls(response.content);
    let results = after.conversation[n - 1].segments;
    let said = Turn { role: Role::Assistant, segments: response.content };
    let grown = before.conversation.push(said).push(after.conversation.last());
    assert(after.conversation == grown);
    assert(grown[n - 2] == said);
    assert forall|i: int| 0 <= i < results.len() implies carried(#[trigger] results[i]) is Some
        && result_ids(results)[i] == call_ids(calls)[i] by {
        assert(reports(before.registry, calls[i], results[i]));
    }
    assert(result_ids(results) =~= call_ids(calls));
}

/// A response without tool calls ends the loop at once: after the operator's
/// input and such a response the conversation is two turns longer, the
/// operator's and the assistant's, and the agent is done with the
/// response's narrative as the answer.
pub proof fn lemma_plain_response_ends_the_loop(
    before: AgentView,
    input: Seq<char>,
    response: MessagesResponseView,
    after: AgentView,
)
    requires
        advanced(heard(before, input), response, after),
        tool_calls(response.content).len() == 0,
    ensures
        after.conversation == before.conversation.push(spoken(input)).push(
            Turn { role: Role::Assistant, segments: response.content },
        ),
        after.conversation.len() == before.conversation.len() + 2,
        next_step(response, after) == StepView::Done(narrative(response.content)),
{
    if narrative(response.content).len() == 0 {
        assert(narrative(response.content) =~= Seq::<char>::empty());
    }
}

/// The conversation only grows: the operator's input leaves every earlier
/// turn where it was and adds one.
pub proof fn lemma_input_extends_conversation(before: AgentView, input: Seq<char>)
    ensures
        before.conversation.is_prefix_of(heard(before, input).conversation),
        heard(before, input).conversation.len() == before.conversation.len() + 1,
        heard(before, input).registry == before.registry,
{
}

/// The conversation only grows: taking in a response leaves every earlier
/// turn where it was and adds one or two.
pub proof fn lemma_conversation_grows(
    before: AgentView,
    response: MessagesResponseView,
    after: AgentView,
)
    requires
        advanced(before, response, after),
    ensures
        before.conversation.is_prefix_of(after.conversation),
        after.conversation.len() > before.conversation.len(),
        after.registry == before.registry,
{
    let said = Turn { role: Role::Assistant, segments: response.content };
    if tool_calls(response.content).len() > 0 {
        let grown = before.conversation.push(said).push(after.conversation.last());
        assert(after.conversation == grown);
    }
}

impl Agent {
    /// An agent for `model`, with no turns yet.
    pub fn with_model(api_key: String, model: String, registry: ToolRegistry) -> (made: Result<
        Agent,
        AgentError,
    >)
        ensures
            made is Ok,
            made->Ok_0@ == (AgentView {
                key: api_key@,
                registry: registry@,
                conversation: Seq::empty(),
                system_prompt: SYSTEM_PROMPT@,
                model: model@,
                answer: Seq::empty(),
            }),
    {
        let agent = Agent {
            client: AnthropicClient::new(api_key),
            registry,
            conversation: Vec::new(),
            system_prompt: String::from_str(SYSTEM_PROMPT),
            model,
            final_response: String::new(),
        };
        assert(turns(agent.conversation@) =~= Seq::empty());
        Ok(agent)
    }

    /// What a line typed by the operator asks for.
    pub fn command(line: &str) -> (command: Command)
        ensures
            command@ == command_of(line@),
    {
        Command::for_text(trim(line))
    }

    /// The catalog entry as it is advertised to the model.
    pub fn to_tool(&self, def: ToolDefinition) -> (tool: Tool)
        ensures
            tool@ == advertised(def@),
    {
        Tool { name: def.name, description: Some(def.description), input_schema: def.input_schema }
    }

    /// The request that asks the model for the next turn.
    pub fn request(&self) -> (request: MessagesRequest)
        ensures
            request@ == request_of(self@),
    {
        let definitions = self.registry.definitions();
        let ghost listed = definitions@;
        let mut tools: Vec<Tool> = Vec::new();
        for def in it: definitions.into_iter()
            invariant
                it.seq() == listed,
                tools@.len() == it.index(),
                forall|j: int| 0 <= j < tools@.len() ==> tools@[j]@ == advertised(listed[j]@),
        {
            tools.push(self.to_tool(def));
        }
        assert(catalog(tools@) =~= definition_views(listed).map_values(
            |definition: ToolDefinitionView| advertised(definition),
        ));
        MessagesRequest {
            model: self.model.clone(),
            max_tokens: MAX_TOKENS,
            messages: clone_messages(&self.conversation),
            system: Some(self.system_prompt.clone()),
            tools: Some(tools),
            tool_choice: Some(ToolChoice::Auto),
        }
    }

    /// Takes the operator's input: appends it to the conversation as a user
    /// turn of one text segment, forgets the answer to whatever was asked
    /// before, and gives the request to send.
    pub fn process_message(&mut self, input: &str) -> (step: Step)
        ensures
            final(self)@ == heard(old(self)@, input@),
            step@ == StepView::Ask(request_of(final(self)@)),
    {
        let mut content: Vec<ContentBlock> = Vec::new();
        content.push(ContentBlock::Text { text: String::from_str(input) });
        let message = Message { role: Role::User, content };
        assert(message@ == spoken(input@)) by {
            assert(message@.segments =~= seq![Segment::Text { text: input@ }]);
        }
        self.conversation.push(message);
        self.final_response = String::new();
        assert(turns(self.conversation@) =~= turns(old(self).conversation@).push(spoken(input@)));
        Step::Ask(self.request())
    }

    /// Takes the backend's reply to the last request.
    ///
    /// A failure is handed back as it is and changes nothing. A response is
    /// appended as the assistant's turn; its narrative, if it has any,
    /// becomes the answer. Without tool calls the agent is done and gives the
    /// answer. With tool calls each is run in order, the results are appended
    /// as one user turn, and the agent gives the next request to send.
    pub fn reasoning_step(&mut self, reply: Result<MessagesResponse, AgentError>) -> (step: Result<
        Step,
        AgentError,
    >)
        ensures
            (match reply {
                Ok(response) => {
                    &&& advanced(old(self)@, response@, final(self)@)
                    &&& step is Ok
                    &&& step->Ok_0@ == next_step(response@, final(self)@)
                },
                Err(failure) => {
                    &&& final(self)@ == old(self)@
                    &&& step is Err
                    &&& step->Err_0@ == failure@
                },
            }),
    {
        let response = match reply {
            Ok(response) => response,
            Err(failure) => {
                return Err(failure);
            },
        };
        let ghost said = segments(response.content@);
        let mut text = String::new();
        let mut tool_uses: Vec<ToolUse> = Vec::new();
        let mut i: usize = 0;
        while i < response.content.len()
            invariant
                i <= response.content.len(),
                said == segments(response.content@),
                text@ == narrative(said.take(i as int)),
                tool_use_views(tool_uses@) == tool_calls(said.take(i as int)),
            decreases response.content.len() - i,
        {
            proof {
                assert(said.take(i + 1).drop_last() == said.take(i as int));
                assert(said.take(i + 1).last() == response.content@[i as int]@);
            }
            match &response.content[i] {
                ContentBlock::Text { text: piece } => {
                    text.append(piece.as_str());
                },
                ContentBlock::ToolUse { id, name, input } => {
                    let tool_use = ToolUse {
                        id: id.clone(),
                        name: name.clone(),
                        input: clone_value(input),
                    };
                    tool_uses.push(tool_use);
                    assert(tool_use_views(tool_uses@) =~= tool_calls(said.take(i as int)).push(
                        tool_use@,
                    ));
                },
                _ => {},
            }
            i += 1;
        }
        assert(said.take(response.content@.len() as int) == said);

        if !text.as_str().is_empty() {
            self.final_response = text;
        }
        self.conversation.push(Message { role: Role::Assistant, content: response.content });
        let ghost assistant = Turn { role: Role::Assistant, segments: said };
        assert(turns(self.conversation@) =~= turns(old(self).conversation@).push(assistant));

        if tool_uses.len() == 0 {
            return Ok(Step::Done(self.final_response.clone()));
        }
        let mut results: Vec<ContentBlock> = Vec::new();
        let mut k: usize = 0;
        while k < tool_uses.len()
            invariant
                k <= tool_uses.len(),
                results@.len() == k,
                self.registry@ == old(self).registry@,
                forall|j: int|
                    0 <= j < k ==> reports(
                        self.registry@,
                        tool_use_views(tool_uses@)[j],
                        #[trigger] segments(results@)[j],
                    ),
            decreases tool_uses.len() - k,
        {
            let result = match self.registry.execute(&tool_uses[k]) {
                Ok(result) => result,
                Err(failure) => {
                    return Err(failure);
                },
            };
            let ghost before = segments(results@);
            let block = ContentBlock::ToolResult {
                tool_use_id: result.tool_use_id,
                content: result.content,
                is_error: Some(result.is_error),
            };
            assert(carried(block@) == Some(result@));
            results.push(block);
            assert(segments(results@) =~= before.push(block@));
            k += 1;
        }
        let ghost answer_turn = Turn { role: Role::User, segments: segments(results@) };
        self.conversation.push(Message { role: Role::User, content: results });
        assert(turns(self.conversation@) =~= turns(old(self).conversation@).push(assistant).push(
            answer_turn,
        ));
        assert(turns(self.conversation@).last() == answer_turn);
        Ok(Step::Ask(self.request()))
    }

    /// The client that knows where and how requests are sent.
    pub fn client(&self) -> (client: &AnthropicClient)
        ensures
            client.key() == self@.key,
    {
        &self.client
    }

    /// The registered tools.
    pub fn registry(&self) -> (registry: &ToolRegistry)
        ensures
            registry@ == self@.registry,
    {
        &self.registry
    }

    /// Every turn so far, oldest first.
    pub fn conversation(&self) -> (conversation: &Vec<Message>)
        ensures
            turns(conversation@) == self@.conversation,
    {
        &self.conversation
    }

    /// The model that is asked.
    pub fn model(&self) -> (model: &str)
        ensures
            model@ == self@.model,
    {
        self.model.as_str()
    }
}

} // verus!
