//! The decisions of an agent run. The caller performs the model calls and the
//! tool runs; this module keeps the context, builds the conversation sent to
//! the model, and says what to do next.

use crate::agent::context::{Context, ContextModel};
use crate::agent::event::{
    arguments_text, parse_arguments_spec, ContentItem, ContentModel, Event,
    EventModel, ToolArguments, ToolCallStatus,
};
use crate::agent::output::{NOT_OUTPUT, OUT_MAX_STEPS, TOOL_NOT_FOUND};
use crate::modals::config::AgentConfig;
use crate::modals::permission_input::PermissionMode;
use crate::modals::tool::{ToolView, ToolViewModel};
use crate::text::str_eq;
use vstd::prelude::*;

verus! {

/// The kind of a tool call: a function call, or a custom tool's call whose
/// `arguments` are the custom tool's input.
#[derive(Clone, Copy, Debug, PartialEq, Eq, Structural)]
pub enum ToolCallKind {
    Function,
    Custom,
}

/// A tool call inside an assistant message.
#[derive(Clone, Debug)]
pub struct ToolCallMessage {
    pub id: String,
    pub name: String,
    pub arguments: String,
    pub kind: ToolCallKind,
}

pub struct ToolCallMessageModel {
    pub id: Seq<char>,
    pub name: Seq<char>,
    pub arguments: Seq<char>,
    pub kind: ToolCallKind,
}

impl View for ToolCallMessage {
    type V = ToolCallMessageModel;

    open spec fn view(&self) -> ToolCallMessageModel {
        ToolCallMessageModel { id: self.id@, name: self.name@, arguments: self.arguments@, kind: self.kind }
    }
}

/// A message of the conversation sent to the model.
#[derive(Clone, Debug)]
pub enum ChatMessage {
    System { content: String },
    User { content: String },
    Assistant { content: Option<String>, tool_calls: Option<Vec<ToolCallMessage>> },
    Tool { content: String, tool_call_id: String },
}

/// The mathematical value of a [`ChatMessage`].
pub enum MessageModel {
    System(Seq<char>),
    User(Seq<char>),
    Assistant(Option<Seq<char>>, Option<Seq<ToolCallMessageModel>>),
    Tool(Seq<char>, Seq<char>),
}

pub open spec fn text_view(s: Option<String>) -> Option<Seq<char>> {
    match s {
        Some(t) => Some(t@),
        None => None,
    }
}

impl View for ChatMessage {
    type V = MessageModel;

    open spec fn view(&self) -> MessageModel {
        match self {
            ChatMessage::System { content } => MessageModel::System(content@),
            ChatMessage::User { content } => MessageModel::User(content@),
            ChatMessage::Assistant { content, tool_calls } => MessageModel::Assistant(
                text_view(*content),
                match tool_calls {
                    Some(calls) => Some(calls@.map_values(|c: ToolCallMessage| c@)),
                    None => None,
                },
            ),
            ChatMessage::Tool { content, tool_call_id } => MessageModel::Tool(
                content@,
                tool_call_id@,
            ),
        }
    }
}

pub open spec fn messages_view(v: Seq<ChatMessage>) -> Seq<MessageModel> {
    v.map_values(|m: ChatMessage| m@)
}

/// Adds one piece of an event to the conversation: a message from the user
/// or the assistant, a tool call (joined to the assistant message just before
/// it, or starting a new one), or a tool result.
pub open spec fn add_item(msgs: Seq<MessageModel>, item: ContentModel) -> Seq<MessageModel> {
    match item {
        ContentModel::Message { role, content } => if role == "user"@ {
            msgs.push(MessageModel::User(content))
        } else {
            msgs.push(MessageModel::Assistant(Some(content), None))
        },
        ContentModel::ToolCall { tool_call_id, name, arguments } => {
            let call = ToolCallMessageModel {
                id: tool_call_id,
                name,
                arguments: arguments_text(arguments),
                kind: ToolCallKind::Function,
            };
            if msgs.len() > 0 && msgs.last() is Assistant {
                let content = msgs.last()->Assistant_0;
                let calls = match msgs.last()->Assistant_1 {
                    Some(c) => c.push(call),
                    None => seq![call],
                };
                msgs.drop_last().push(MessageModel::Assistant(content, Some(calls)))
            } else {
                msgs.push(MessageModel::Assistant(None, Some(seq![call])))
            }
        },
        ContentModel::ToolCallResult { tool_call_id, content, .. } => msgs.push(
            MessageModel::Tool(content, tool_call_id),
        ),
    }
}

pub open spec fn add_items(msgs: Seq<MessageModel>, items: Seq<ContentModel>) -> Seq<MessageModel>
    decreases items.len(),
{
    if items.len() == 0 {
        msgs
    } else {
        add_item(add_items(msgs, items.drop_last()), items.last())
    }
}

pub open spec fn add_events(msgs: Seq<MessageModel>, events: Seq<EventModel>) -> Seq<MessageModel>
    decreases events.len(),
{
    if events.len() == 0 {
        msgs
    } else {
        add_items(add_events(msgs, events.drop_last()), events.last().content)
    }
}

/// The conversation sent to the model: the system instruction, if any, then
/// every piece of every event in order.
pub open spec fn conversation(system: Option<Seq<char>>, events: Seq<EventModel>) -> Seq<MessageModel> {
    let start = match system {
        Some(s) => seq![MessageModel::System(s)],
        None => Seq::empty(),
    };
    add_events(start, events)
}

fn push_item(messages: &mut Vec<ChatMessage>, item: &ContentItem)
    ensures
        messages_view(final(messages)@) == add_item(messages_view(old(messages)@), item@),
{
    let ghost before = messages_view(messages@);
    match item {
        ContentItem::Message { role, content } => {
            if str_eq(role.as_str(), "user") {
                messages.push(ChatMessage::User { content: content.clone() });
            } else {
                messages.push(ChatMessage::Assistant { content: Some(content.clone()), tool_calls: None });
            }
            assert(messages_view(messages@) =~= add_item(before, item@));
        },
        ContentItem::ToolCall { tool_call_id, name, arguments } => {
            let call = ToolCallMessage {
                id: tool_call_id.clone(),
                name: name.clone(),
                arguments: arguments.to_json_text(),
                kind: ToolCallKind::Function,
            };
            let ghost call_model = call@;
            match messages.pop() {
                Some(ChatMessage::Assistant { content, tool_calls }) => {
                    let ghost old_calls = tool_calls;
                    let mut calls = match tool_calls {
                        Some(c) => c,
                        None => Vec::new(),
                    };
                    calls.push(call);
                    proof {
                        let expected = match old_calls {
                            Some(c) => c@.map_values(|c: ToolCallMessage| c@).push(call_model),
                            None => seq![call_model],
                        };
                        assert(calls@.map_values(|c: ToolCallMessage| c@) =~= expected);
                    }
                    messages.push(ChatMessage::Assistant { content, tool_calls: Some(calls) });
                    assert(messages_view(messages@) =~= add_item(before, item@));
                },
                Some(other) => {
                    messages.push(other);
                    let calls = vec![call];
                    assert(calls@.map_values(|c: ToolCallMessage| c@) =~= seq![call_model]);
                    messages.push(ChatMessage::Assistant { content: None, tool_calls: Some(calls) });
                    assert(messages_view(messages@) =~= add_item(before, item@));
                },
                None => {
                    let calls = vec![call];
                    assert(calls@.map_values(|c: ToolCallMessage| c@) =~= seq![call_model]);
                    messages.push(ChatMessage::Assistant { content: None, tool_calls: Some(calls) });
                    assert(messages_view(messages@) =~= add_item(before, item@));
                },
            }
        },
        ContentItem::ToolCallResult { tool_call_id, content, .. } => {
            messages.push(ChatMessage::Tool { content: content.clone(), tool_call_id: tool_call_id.clone() });
            assert(messages_view(messages@) =~= add_item(before, item@));
        },
    }
}

/// Builds the conversation for the given system instruction and events.
pub fn build_messages(system_instruction: &Option<String>, events: &Vec<Event>) -> (r: Vec<ChatMessage>)
    ensures
        messages_view(r@) == conversation(text_view(*system_instruction), events@.map_values(|e: Event| e@)),
{
    let ghost evs = events@.map_values(|e: Event| e@);
    let mut messages: Vec<ChatMessage> = Vec::new();
    if let Some(s) = system_instruction {
        messages.push(ChatMessage::System { content: s.clone() });
    }
    let ghost start = match text_view(*system_instruction) {
        Some(s) => seq![MessageModel::System(s)],
        None => Seq::<MessageModel>::empty(),
    };
    assert(messages_view(messages@) =~= start);
    let n = events.len();
    let mut i: usize = 0;
    while i < n
        invariant
            n == events@.len(),
            evs == events@.map_values(|e: Event| e@),
            i <= n,
            messages_view(messages@) == add_events(start, evs.take(i as int)),
        decreases n - i,
    {
        let event = &events[i];
        let m = event.content.len();
        let ghost items = evs[i as int].content;
        let mut j: usize = 0;
        while j < m
            invariant
                n == events@.len(),
                evs == events@.map_values(|e: Event| e@),
                i < n,
                *event == events@[i as int],
                m == event.content@.len(),
                items == evs[i as int].content,
                j <= m,
                messages_view(messages@) == add_items(add_events(start, evs.take(i as int)), items.take(j as int)),
            decreases m - j,
        {
            push_item(&mut messages, &event.content[j]);
            assert(items.take(j + 1).drop_last() =~= items.take(j as int));
            j = j + 1;
        }
        assert(items.take(m as int) =~= items);
        assert(evs.take(i + 1).drop_last() =~= evs.take(i as int));
        i = i + 1;
    }
    assert(evs.take(n as int) =~= evs);
    messages
}


/// A function call requested by the model.
#[derive(Clone, Debug)]
pub struct FunctionCall {
    pub id: String,
    pub name: String,
    pub arguments: String,
}

pub struct FunctionCallModel {
    pub id: Seq<char>,
    pub name: Seq<char>,
    pub arguments: Seq<char>,
}

impl View for FunctionCall {
    type V = FunctionCallModel;

    open spec fn view(&self) -> FunctionCallModel {
        FunctionCallModel { id: self.id@, name: self.name@, arguments: self.arguments@ }
    }
}

/// A tool call in the model's answer: a function call, or a custom tool's call
/// (its input held as `arguments`), which the agent does not run.
#[derive(Clone, Debug)]
pub enum ResponseToolCall {
    Function(FunctionCall),
    Custom(FunctionCall),
}

impl View for ResponseToolCall {
    type V = Option<FunctionCallModel>;

    open spec fn view(&self) -> Option<FunctionCallModel> {
        match self {
            ResponseToolCall::Function(f) => Some(f@),
            ResponseToolCall::Custom(_) => None,
        }
    }
}

/// The message of the model's first choice.
#[derive(Clone, Debug)]
pub struct ResponseMessage {
    pub content: Option<String>,
    pub tool_calls: Option<Vec<ResponseToolCall>>,
}

/// The event pieces recorded for the tool calls of an answer: one per function
/// call, in order, with its arguments read as JSON where they are JSON.
pub open spec fn tool_call_items(calls: Seq<Option<FunctionCallModel>>) -> Seq<ContentModel>
    decreases calls.len(),
{
    if calls.len() == 0 {
        Seq::empty()
    } else {
        let rest = tool_call_items(calls.drop_last());
        match calls.last() {
            Some(f) => rest.push(
                ContentModel::ToolCall {
                    tool_call_id: f.id,
                    name: f.name,
                    arguments: parse_arguments_spec(f.arguments),
                },
            ),
            None => rest,
        }
    }
}

/// The event piece recorded for the result of a function call; `None` stands
/// for a tool that is not bound.
pub open spec fn tool_result_item(call: FunctionCallModel, outcome: Option<(ToolCallStatus, Seq<char>)>) -> ContentModel {
    match outcome {
        Some((status, content)) => ContentModel::ToolCallResult {
            tool_call_id: call.id,
            name: call.name,
            status,
            content,
        },
        None => ContentModel::ToolCallResult {
            tool_call_id: call.id,
            name: call.name,
            status: ToolCallStatus::Failure,
            content: TOOL_NOT_FOUND@ + ": "@ + call.name,
        },
    }
}

/// Why a run ends without an answer.
#[derive(Clone, Copy, Debug, PartialEq, Eq, Structural)]
pub enum AgentError {
    /// The model gave neither text nor tool calls, or no choice at all.
    NotOutput,
}

impl AgentError {
    /// The text of the error.
    pub fn message(&self) -> (s: &'static str)
        ensures
            s@ == NOT_OUTPUT@,
    {
        NOT_OUTPUT
    }
}

/// What to do before the next model call.
pub enum RunAction {
    /// The run is over with this output.
    Finish(String),
    /// Send this conversation to the model.
    Request(Vec<ChatMessage>),
}

/// What to do with the model's answer.
pub enum ResponseAction {
    /// The run is over with this output.
    Finish(String),
    /// Run the answer's function calls, report each with `record_tool_result`,
    /// then call `end_round`.
    RunTools,
}

/// The outcome of a run.
#[derive(Clone, Debug)]
pub struct AgentResult {
    pub input: String,
    pub output: String,
    pub context: Context,
}

/// The decision-making part of an agent.
pub struct Agent {
    model: String,
    system_instruction: Option<String>,
    max_steps: usize,
    context: Context,
    config: AgentConfig,
}

/// The abstract state of an [`Agent`].
pub struct AgentModel {
    pub model: Seq<char>,
    pub system_instruction: Option<Seq<char>>,
    pub max_steps: nat,
    pub context: ContextModel,
    pub config: AgentConfig,
}

impl View for Agent {
    type V = AgentModel;

    closed spec fn view(&self) -> AgentModel {
        AgentModel {
            model: self.model@,
            system_instruction: text_view(self.system_instruction),
            max_steps: self.max_steps as nat,
            context: self.context@,
            config: self.config,
        }
    }
}

/// The context with one more event.
pub open spec fn with_event(m: AgentModel, e: EventModel) -> AgentModel {
    AgentModel { context: ContextModel { events: m.context.events.push(e), ..m.context }, ..m }
}

/// Whether an event is a fresh event of the run with the given author and pieces.
pub open spec fn is_event_of(e: EventModel, m: AgentModel, author: Seq<char>, content: Seq<ContentModel>) -> bool {
    &&& e.execution_id == m.context.execution_id
    &&& e.author == author
    &&& e.content == content
}

/// Whether the run has used up its steps.
pub open spec fn out_of_steps(m: AgentModel) -> bool {
    m.context.current_step >= m.max_steps
}

impl Agent {
    /// A new agent for a model, with an optional system instruction and a configuration.
    pub fn new(model: String, system_instruction: Option<String>, config: AgentConfig) -> (a: Agent)
        ensures
            a@.model == model@,
            a@.system_instruction == text_view(system_instruction),
            a@.max_steps == config.agent_max_steps,
            a@.config == config,
            a@.context.events.len() == 0,
            a@.context.current_step == 0,
    {
        Agent {
            model,
            system_instruction,
            max_steps: config.agent_max_steps,
            context: Context::new(),
            config,
        }
    }

    /// Caps the number of tool rounds of a run.
    pub fn set_max_steps(&mut self, max_steps: usize)
        ensures
            final(self)@ == (AgentModel { max_steps: max_steps as nat, ..old(self)@ }),
    {
        self.max_steps = max_steps;
    }

    /// Uses a new configuration; it also sets the step cap.
    pub fn bind_config(&mut self, config: AgentConfig)
        ensures
            final(self)@ == (AgentModel { max_steps: config.agent_max_steps as nat, config, ..old(self)@ }),
    {
        self.max_steps = config.agent_max_steps;
        self.config = config;
    }

    pub fn config(&self) -> (c: AgentConfig)
        ensures
            c == self@.config,
    {
        self.config
    }

    pub fn max_steps(&self) -> (n: usize)
        ensures
            n == self@.max_steps,
    {
        self.max_steps
    }

    pub fn model(&self) -> (s: &str)
        ensures
            s@ == self@.model,
    {
        self.model.as_str()
    }

    pub fn context(&self) -> (c: &Context)
        ensures
            c@ == self@.context,
    {
        &self.context
    }

    /// The conversation to send to the model.
    pub fn build_message(&self) -> (r: Vec<ChatMessage>)
        ensures
            messages_view(r@) == conversation(self@.system_instruction, self@.context.events),
    {
        build_messages(&self.system_instruction, &self.context.event)
    }

    /// Starts a run: a fresh context whose one event is the user's prompt.
    pub fn start_run(&mut self, prompt: &str)
        ensures
            final(self)@.model == old(self)@.model,
            final(self)@.system_instruction == old(self)@.system_instruction,
            final(self)@.max_steps == old(self)@.max_steps,
            final(self)@.config == old(self)@.config,
            final(self)@.context.current_step == 0,
            final(self)@.context.events.len() == 1,
            is_event_of(
                final(self)@.context.events[0],
                final(self)@,
                "user"@,
                seq![ContentModel::Message { role: "user"@, content: prompt@ }],
            ),
    {
        self.context = Context::new();
        let content = vec![ContentItem::Message { role: String::from_str("user"), content: String::from_str(prompt) }];
        let event = Event::new(self.context.execution_id.clone(), String::from_str("user"), content);
        self.context.add_event(event);
        assert(self@.context.events[0].content =~= seq![ContentModel::Message { role: "user"@, content: prompt@ }]);
    }

    /// Stops when the run has used up its steps; otherwise asks for a model
    /// call with the current conversation.
    pub fn next_action(&self) -> (r: RunAction)
        ensures
            out_of_steps(self@) ==> (r matches RunAction::Finish(out) && out@ == OUT_MAX_STEPS@),
            !out_of_steps(self@) ==> (r matches RunAction::Request(msgs) && messages_view(msgs@)
                == conversation(self@.system_instruction, self@.context.events)),
    {
        if self.context.current_step >= self.max_steps {
            RunAction::Finish(String::from_str(OUT_MAX_STEPS))
        } else {
            RunAction::Request(self.build_message())
        }
    }

    /// Records the tool calls of an answer as one assistant event.
    pub fn add_tool_call(&mut self, tool_calls: &Vec<ResponseToolCall>)
        ensures
            final(self)@.context.events.len() == old(self)@.context.events.len() + 1,
            final(self)@ == with_event(old(self)@, final(self)@.context.events.last()),
            is_event_of(
                final(self)@.context.events.last(),
                old(self)@,
                "assistant"@,
                tool_call_items(tool_calls@.map_values(|c: ResponseToolCall| c@)),
            ),
    {
        let ghost calls = tool_calls@.map_values(|c: ResponseToolCall| c@);
        let mut content: Vec<ContentItem> = Vec::new();
        let n = tool_calls.len();
        let mut i: usize = 0;
        while i < n
            invariant
                n == tool_calls@.len(),
                calls == tool_calls@.map_values(|c: ResponseToolCall| c@),
                i <= n,
                content@.map_values(|c: ContentItem| c@) == tool_call_items(calls.take(i as int)),
            decreases n - i,
        {
            assert(calls.take(i + 1).drop_last() =~= calls.take(i as int));
            match &tool_calls[i] {
                ResponseToolCall::Function(f) => {
                    let ghost before = content@.map_values(|c: ContentItem| c@);
                    content.push(
                        ContentItem::ToolCall {
                            tool_call_id: f.id.clone(),
                            name: f.name.clone(),
                            arguments: ToolArguments::parse(f.arguments.as_str()),
                        },
                    );
                    assert(content@.map_values(|c: ContentItem| c@) =~= before.push(ContentModel::ToolCall {
                        tool_call_id: f.id@,
                        name: f.name@,
                        arguments: parse_arguments_spec(f.arguments@),
                    }));
                },
                ResponseToolCall::Custom(_) => {},
            }
            i = i + 1;
        }
        assert(calls.take(n as int) =~= calls);
        let event = Event::new(self.context.execution_id.clone(), String::from_str("assistant"), content);
        self.context.add_event(event);
    }

    /// Handles the model's answer (`None`: the answer had no choice). Tool
    /// calls are recorded and must then be run; otherwise the answer's text ends
    /// the run, and an answer with neither is an error.
    pub fn on_response(&mut self, message: Option<ResponseMessage>) -> (r: Result<ResponseAction, AgentError>)
        ensures
            match message {
                None => r == Err::<ResponseAction, AgentError>(AgentError::NotOutput) && final(self)@ == old(self)@,
                Some(m) => match m.tool_calls {
                    Some(calls) => {
                        &&& r matches Ok(ResponseAction::RunTools)
                        &&& final(self)@ == with_event(old(self)@, final(self)@.context.events.last())
                        &&& is_event_of(
                            final(self)@.context.events.last(),
                            old(self)@,
                            "assistant"@,
                            tool_call_items(calls@.map_values(|c: ResponseToolCall| c@)),
                        )
                    },
                    None => final(self)@ == old(self)@ && match m.content {
                        Some(text) => r matches Ok(ResponseAction::Finish(out)) && out@ == text@,
                        None => r == Err::<ResponseAction, AgentError>(AgentError::NotOutput),
                    },
                },
            },
    {
        match message {
            None => Err(AgentError::NotOutput),
            Some(m) => match m.tool_calls {
                Some(calls) => {
                    self.add_tool_call(&calls);
                    Ok(ResponseAction::RunTools)
                },
                None => match m.content {
                    Some(text) => Ok(ResponseAction::Finish(text)),
                    None => Err(AgentError::NotOutput),
                },
            },
        }
    }

    /// What the tool serving a function call gets to see.
    pub fn tool_view_for(&self, call: &FunctionCall) -> (tv: ToolView)
        ensures
            tv@ == (ToolViewModel {
                tool_call_id: call.id@,
                name: call.name@,
                arguments: call.arguments@,
                model: self@.model,
                config: self@.config,
            }),
    {
        ToolView {
            tool_call_id: call.id.clone(),
            name: call.name.clone(),
            arguments: call.arguments.clone(),
            model: self.model.clone(),
            config: self.config,
        }
    }

    /// Records the result of a function call as a `tool_calls` event; `None`
    /// stands for a tool that is not bound, which is recorded as a failure.
    pub fn record_tool_result(&mut self, call: &FunctionCall, outcome: Option<(ToolCallStatus, String)>)
        ensures
            final(self)@ == with_event(old(self)@, final(self)@.context.events.last()),
            is_event_of(
                final(self)@.context.events.last(),
                old(self)@,
                "tool_calls"@,
                seq![tool_result_item(call@, match outcome {
                    Some((status, text)) => Some((status, text@)),
                    None => None,
                })],
            ),
    {
        let (status, content) = match outcome {
            Some((status, text)) => (status, text),
            None => {
                let mut text = String::from_str(TOOL_NOT_FOUND);
                text.append(": ");
                text.append(call.name.as_str());
                (ToolCallStatus::Failure, text)
            },
        };
        let item = ContentItem::ToolCallResult {
            tool_call_id: call.id.clone(),
            name: call.name.clone(),
            status,
            content,
        };
        let items = vec![item];
        let event = Event::new(self.context.execution_id.clone(), String::from_str("tool_calls"), items);
        self.context.add_event(event);
        assert(self@.context.events.last().content =~= seq![tool_result_item(call@, match outcome {
            Some((status, text)) => Some((status, text@)),
            None => None,
        })]);
    }

    /// Ends a tool round: one more step.
    pub fn end_round(&mut self)
        requires
            old(self)@.context.current_step < usize::MAX,
        ensures
            final(self)@ == after_round(old(self)@),
    {
        self.context.increment_step();
    }
}

/// Which built-in permission input serves a configured mode.
#[derive(Clone, Copy, Debug, PartialEq, Eq, Structural)]
pub enum PermissionInputKind {
    /// [`crate::modals::permission_input::DeniedPermissionInput`].
    Denied,
    /// Answers typed on standard input.
    Stdin,
    /// [`crate::modals::permission_input::GrantedAlwaysPermissionInput`].
    GrantedAlways,
}

impl PermissionInputKind {
    /// The mode the input stands for.
    pub fn mode(&self) -> (m: PermissionMode)
        ensures
            m == match self {
                PermissionInputKind::Denied => PermissionMode::AutoDeny,
                PermissionInputKind::Stdin => PermissionMode::Interactive,
                PermissionInputKind::GrantedAlways => PermissionMode::AutoApprove,
            },
    {
        match self {
            PermissionInputKind::Denied => PermissionMode::AutoDeny,
            PermissionInputKind::Stdin => PermissionMode::Interactive,
            PermissionInputKind::GrantedAlways => PermissionMode::AutoApprove,
        }
    }
}

/// The built-in permission input for a configured mode; its mode is the
/// configured one.
pub fn get_permission_input(permission_mode: &PermissionMode) -> (k: PermissionInputKind)
    ensures
        k == match permission_mode {
            PermissionMode::AutoDeny => PermissionInputKind::Denied,
            PermissionMode::Interactive => PermissionInputKind::Stdin,
            PermissionMode::AutoApprove => PermissionInputKind::GrantedAlways,
        },
{
    match permission_mode {
        PermissionMode::AutoDeny => PermissionInputKind::Denied,
        PermissionMode::Interactive => PermissionInputKind::Stdin,
        PermissionMode::AutoApprove => PermissionInputKind::GrantedAlways,
    }
}

/// The agent after one more tool round.
pub open spec fn after_round(m: AgentModel) -> AgentModel {
    AgentModel { context: ContextModel { current_step: m.context.current_step + 1, ..m.context }, ..m }
}

/// The agent after `k` tool rounds.
pub open spec fn after_rounds(m: AgentModel, k: nat) -> AgentModel
    decreases k,
{
    if k == 0 {
        m
    } else {
        after_round(after_rounds(m, (k - 1) as nat))
    }
}

/// A run takes at most `max_steps` tool rounds: counted from a fresh run (step
/// 0), the agent stops after exactly `max_steps` rounds, and not before.
pub proof fn lemma_round_budget(m: AgentModel, k: nat)
    requires
        m.context.current_step == 0,
    ensures
        out_of_steps(after_rounds(m, k)) <==> k >= m.max_steps,
        after_rounds(m, k).max_steps == m.max_steps,
    decreases k,
{
    if k > 0 {
        lemma_round_budget(m, (k - 1) as nat);
    }
    assert(after_rounds(m, k).context.current_step == k) by {
        lemma_rounds_count(m, k);
    }
}

proof fn lemma_rounds_count(m: AgentModel, k: nat)
    ensures
        after_rounds(m, k).context.current_step == m.context.current_step + k,
        after_rounds(m, k).max_steps == m.max_steps,
    decreases k,
{
    if k > 0 {
        lemma_rounds_count(m, (k - 1) as nat);
    }
}

/// The function calls among the tool calls of an answer, in order.
pub open spec fn function_calls(calls: Seq<Option<FunctionCallModel>>) -> Seq<FunctionCallModel>
    decreases calls.len(),
{
    if calls.len() == 0 {
        Seq::empty()
    } else {
        match calls.last() {
            Some(f) => function_calls(calls.drop_last()).push(f),
            None => function_calls(calls.drop_last()),
        }
    }
}

/// The event piece recorded for a function call.
pub open spec fn call_item(f: FunctionCallModel) -> ContentModel {
    ContentModel::ToolCall {
        tool_call_id: f.id,
        name: f.name,
        arguments: parse_arguments_spec(f.arguments),
    }
}

/// Every function call of an answer is recorded, in order and under its own id
/// and name, also when its arguments are not JSON; other kinds of calls are
/// left out.
pub proof fn lemma_every_function_call_recorded(calls: Seq<Option<FunctionCallModel>>)
    ensures
        tool_call_items(calls) == function_calls(calls).map_values(|f: FunctionCallModel| call_item(f)),
    decreases calls.len(),
{
    if calls.len() > 0 {
        lemma_every_function_call_recorded(calls.drop_last());
        let prev = function_calls(calls.drop_last());
        if calls.last() is Some {
            assert(function_calls(calls).map_values(|f: FunctionCallModel| call_item(f)) =~= prev.map_values(
                |f: FunctionCallModel| call_item(f),
            ).push(call_item(calls.last()->Some_0)));
        }
    } else {
        assert(function_calls(calls).map_values(|f: FunctionCallModel| call_item(f)) =~= Seq::<ContentModel>::empty());
    }
}

/// The tool-call message for a function call.
pub open spec fn call_message(f: FunctionCallModel) -> ToolCallMessageModel {
    ToolCallMessageModel {
        id: f.id,
        name: f.name,
        arguments: arguments_text(parse_arguments_spec(f.arguments)),
        kind: ToolCallKind::Function,
    }
}

/// The function calls of one answer become one assistant message holding all
/// of them, in order and under their ids, so every tool result that follows is
/// preceded by the call it answers.
pub proof fn lemma_tool_calls_form_one_message(msgs: Seq<MessageModel>, fs: Seq<FunctionCallModel>)
    requires
        fs.len() > 0,
        msgs.len() == 0 || !(msgs.last() is Assistant),
    ensures
        add_items(msgs, fs.map_values(|f: FunctionCallModel| call_item(f))) == msgs.push(
            MessageModel::Assistant(None, Some(fs.map_values(|f: FunctionCallModel| call_message(f)))),
        ),
    decreases fs.len(),
{
    let items = fs.map_values(|f: FunctionCallModel| call_item(f));
    let prefix = fs.drop_last();
    assert(items.drop_last() =~= prefix.map_values(|f: FunctionCallModel| call_item(f)));
    assert(items.last() == call_item(fs.last()));
    if fs.len() == 1 {
        assert(add_items(msgs, items.drop_last()) == msgs);
        assert(fs.map_values(|f: FunctionCallModel| call_message(f)) =~= seq![call_message(fs.last())]);
    } else {
        lemma_tool_calls_form_one_message(msgs, prefix);
        let before = msgs.push(
            MessageModel::Assistant(None, Some(prefix.map_values(|f: FunctionCallModel| call_message(f)))),
        );
        assert(before.drop_last() =~= msgs);
        assert(prefix.map_values(|f: FunctionCallModel| call_message(f)).push(call_message(fs.last()))
            =~= fs.map_values(|f: FunctionCallModel| call_message(f)));
    }
}

/// The tool message that a tool-result piece becomes.
pub open spec fn result_message(item: ContentModel) -> MessageModel {
    match item {
        ContentModel::ToolCallResult { tool_call_id, content, .. } => MessageModel::Tool(content, tool_call_id),
        _ => MessageModel::Tool(Seq::empty(), Seq::empty()),
    }
}

/// Tool results added to a conversation become tool messages at its end, one
/// per result, in order.
pub proof fn lemma_results_append_tool_messages(msgs: Seq<MessageModel>, items: Seq<ContentModel>)
    requires
        forall|i: int| 0 <= i < items.len() ==> (#[trigger] items[i]) is ToolCallResult,
    ensures
        add_items(msgs, items) == msgs + items.map_values(|it: ContentModel| result_message(it)),
    decreases items.len(),
{
    if items.len() == 0 {
        assert(msgs + items.map_values(|it: ContentModel| result_message(it)) =~= msgs);
    } else {
        let prefix = items.drop_last();
        assert forall|i: int| 0 <= i < prefix.len() implies (#[trigger] prefix[i]) is ToolCallResult by {
            assert(prefix[i] == items[i]);
        }
        lemma_results_append_tool_messages(msgs, prefix);
        assert(items.last() == items[items.len() - 1]);
        assert(msgs + items.map_values(|it: ContentModel| result_message(it)) =~= (msgs
            + prefix.map_values(|it: ContentModel| result_message(it))).push(result_message(items.last())));
    }
}

/// A tool round, as the run records it: the answer's function calls (one
/// assistant event), then one result per call in the same order. In the
/// conversation this becomes one assistant message holding all the calls,
/// followed by exactly one tool message per call, under that call's id.
pub proof fn lemma_round_pairs_calls_with_results(
    msgs: Seq<MessageModel>,
    fs: Seq<FunctionCallModel>,
    outcomes: Seq<Option<(ToolCallStatus, Seq<char>)>>,
)
    requires
        fs.len() > 0,
        outcomes.len() == fs.len(),
        msgs.len() == 0 || !(msgs.last() is Assistant),
    ensures
        ({
            let results = Seq::new(fs.len(), |i: int| tool_result_item(fs[i], outcomes[i]));
            let conversation = add_items(add_items(msgs, fs.map_values(|f: FunctionCallModel| call_item(f))), results);
            &&& conversation.len() == msgs.len() + 1 + fs.len()
            &&& conversation[msgs.len() as int] == MessageModel::Assistant(
                None,
                Some(fs.map_values(|f: FunctionCallModel| call_message(f))),
            )
            &&& forall|i: int|
                0 <= i < fs.len() ==> #[trigger] conversation[msgs.len() + 1 + i] == MessageModel::Tool(
                    results[i]->ToolCallResult_content,
                    fs[i].id,
                )
        }),
{
    let results = Seq::new(fs.len(), |i: int| tool_result_item(fs[i], outcomes[i]));
    lemma_tool_calls_form_one_message(msgs, fs);
    let with_calls = msgs.push(MessageModel::Assistant(None, Some(fs.map_values(|f: FunctionCallModel| call_message(f)))));
    assert forall|i: int| 0 <= i < results.len() implies (#[trigger] results[i]) is ToolCallResult by {
    }
    lemma_results_append_tool_messages(with_calls, results);
}

/// With no step allowed, a fresh run stops before any model call.
pub proof fn lemma_zero_budget_stops_at_once(m: AgentModel)
    requires
        m.context.current_step == 0,
        m.max_steps == 0,
    ensures
        out_of_steps(m),
{
}

} // verus!
