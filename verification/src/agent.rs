//! The decisions of the agent loop: how a message that is a command is answered,
//! how long a turn may go on, what a tool call turns into, which model and channel
//! settings apply. The loop itself, which awaits plugins, runs outside.

use crate::commands::{help_text, lists_commands, parsed_command, CommandRegistry};
use crate::config::ModelConfig;
use crate::fs_lambda::ArgValue;
use crate::sdk::{ChatResponse, ChatToolCall, InboundMessage, PollParams, PollResponse, SetTypingParams, ToolExecutionResponse};
use crate::settings::ChannelConfig;
use crate::strmap::StrMap;
use crate::text::{concat3, str_eq, to_string};
use vstd::prelude::*;

verus! {

/// The reply to `/clear`.
pub const CLEARED_REPLY: &'static str = "Conversation cleared.";

/// The final answer of a turn that ran out of iterations.
pub const GAVE_UP_REPLY: &'static str = "I apologize, but I reached the maximum number of iterations. Please try again with a simpler request.";

/// What a message that may be a slash command leads to.
pub enum CommandRoute {
    /// `/help`: send this help text.
    Help(String),
    /// `/clear`: clear the conversation, then send `CLEARED_REPLY`.
    Clear,
    /// A registered command answered this.
    Reply(String),
    /// Not a command, or one that gave no answer: the message goes to the model.
    PassThrough,
}

/// Whether `r` is how a message with text `content` is routed, given the registry.
pub open spec fn routed<H: Fn(&str, &str, &str) -> Option<String>>(
    reg: CommandRegistry<H>,
    channel: &str,
    chat_id: &str,
    content: Seq<char>,
    r: CommandRoute,
) -> bool {
    match parsed_command(content) {
        None => r is PassThrough,
        Some((name, args)) => if name == "help"@ {
            r matches CommandRoute::Help(t) && exists|l: Seq<(Seq<char>, Seq<char>)>|
                lists_commands(reg.descriptions(), l) && t@ == #[trigger] help_text(l)
        } else if name == "clear"@ {
            r is Clear
        } else if !reg.descriptions().contains_key(name) {
            r is PassThrough
        } else {
            exists|a: &str, o: Option<String>|
                a@ == args && #[trigger] call_ensures(reg.handler(name), (channel, chat_id, a), o) && match o {
                    Some(t) => r matches CommandRoute::Reply(x) && x@ == t@,
                    None => r is PassThrough,
                }
        },
    }
}

/// Routes a message: `/help` and `/clear` first, then the registered commands; any
/// other message goes on to the model.
pub fn route_command<H: Fn(&str, &str, &str) -> Option<String>>(
    registry: &CommandRegistry<H>,
    channel: &str,
    chat_id: &str,
    content: &str,
) -> (r: CommandRoute)
    requires
        registry.wf(),
        forall|n: Seq<char>, a: &str, b: &str, c: &str|
            registry.descriptions().contains_key(n) ==> #[trigger] call_requires(registry.handler(n), (a, b, c)),
    ensures
        routed(*registry, channel, chat_id, content@, r),
{
    let (name, args) = match crate::commands::parse_command(content) {
        Some(p) => p,
        None => return CommandRoute::PassThrough,
    };
    if str_eq(name.as_str(), "help") {
        return CommandRoute::Help(registry.generate_help());
    }
    if str_eq(name.as_str(), "clear") {
        return CommandRoute::Clear;
    }
    match registry.execute(channel, chat_id, name.as_str(), args.as_str()) {
        Some(text) => CommandRoute::Reply(text),
        None => CommandRoute::PassThrough,
    }
}

/// The role of a message sent to a model.
pub enum MessageRole {
    System,
    User,
    Assistant,
}

/// The model-side role of a stored message: `system` and `assistant` keep theirs,
/// any other role (tool results included) speaks as the user.
pub fn provider_role(role: &str) -> (r: MessageRole)
    ensures
        role@ == "system"@ ==> r is System,
        role@ == "assistant"@ ==> r is Assistant,
        role@ != "system"@ && role@ != "assistant"@ ==> r is User,
{
    proof {
        reveal_strlit("system");
        reveal_strlit("assistant");
        assert("system"@.len() != "assistant"@.len());
    }
    if str_eq(role, "system") {
        MessageRole::System
    } else if str_eq(role, "assistant") {
        MessageRole::Assistant
    } else {
        MessageRole::User
    }
}

/// How far a turn has gone.
pub struct TurnState {
    pub iterations: usize,
    pub max_iterations: usize,
}

/// What the loop does next.
pub enum TurnStep {
    /// Ask the model again.
    CallProvider,
    /// Stop with this final answer.
    GiveUp(String),
}

impl TurnState {
    /// A turn that has not asked the model yet.
    pub fn new(max_iterations: usize) -> (r: Self)
        ensures
            r.iterations == 0,
            r.max_iterations == max_iterations,
    {
        TurnState { iterations: 0, max_iterations }
    }

    /// Counts one more iteration; past the maximum the turn gives up.
    pub fn next_iteration(&mut self) -> (r: TurnStep)
        requires
            old(self).iterations < usize::MAX,
        ensures
            final(self).iterations == old(self).iterations + 1,
            final(self).max_iterations == old(self).max_iterations,
            final(self).iterations > final(self).max_iterations ==> (r matches TurnStep::GiveUp(m) && m@
                == GAVE_UP_REPLY@),
            final(self).iterations <= final(self).max_iterations ==> r is CallProvider,
    {
        self.iterations = self.iterations + 1;
        if self.iterations > self.max_iterations {
            TurnStep::GiveUp(to_string(GAVE_UP_REPLY))
        } else {
            TurnStep::CallProvider
        }
    }
}

/// A tool result as it is shown to the model and kept in the session, for a call
/// with id `id` of tool `name`.
pub open spec fn tool_result_text(id: Seq<char>, name: Seq<char>, resp: ToolExecutionResponse) -> Seq<char> {
    "{\"tool_call_id\": \""@ + id + "\", \"name\": \""@ + name + "\", \"content\": "@ + match resp.error {
        Some(e) => "\"Error: "@ + e@ + "\"}"@,
        None => resp.result@ + "}"@,
    }
}

/// The result shown for a call of a tool that no plugin provides.
pub open spec fn tool_missing_text(id: Seq<char>, name: Seq<char>) -> Seq<char> {
    "{\"tool_call_id\": \""@ + id + "\", \"name\": \""@ + name + "\", \"content\": \"Error: tool '"@ + name
        + "' not found\"}"@
}

/// A tool's answer as shown to the model (see `tool_result_text`); a successful
/// result is inserted as it is, as JSON.
pub fn tool_result_content(id: &str, name: &str, resp: &ToolExecutionResponse) -> (r: String)
    ensures
        r@ == tool_result_text(id@, name@, *resp),
{
    let mut r = concat3("{\"tool_call_id\": \"", id, "\", \"name\": \"");
    r.append(name);
    r.append("\", \"content\": ");
    match &resp.error {
        Some(e) => {
            r.append("\"Error: ");
            r.append(e.as_str());
            r.append("\"}");
        },
        None => {
            r.append(resp.result.as_str());
            r.append("}");
        },
    }
    r
}

/// The result shown for a call of a tool that no plugin provides.
pub fn tool_missing_content(id: &str, name: &str) -> (r: String)
    ensures
        r@ == tool_missing_text(id@, name@),
{
    let mut r = concat3("{\"tool_call_id\": \"", id, "\", \"name\": \"");
    r.append(name);
    r.append("\", \"content\": \"Error: tool '");
    r.append(name);
    r.append("' not found\"}");
    r
}

/// A tool offered by a plugin: its name and description, and its parameter schema as
/// JSON text.
pub struct ToolDef {
    pub name: String,
    pub description: String,
    pub parameters_json: String,
}

/// The tools offered by the loaded tool plugins, and which plugin provides each.
pub struct ToolRegistry {
    pub definitions: Vec<ToolDef>,
    pub provider: StrMap<String>,
}

impl ToolRegistry {
    pub open spec fn wf(&self) -> bool {
        self.provider.wf()
    }

    /// No tools.
    pub fn new() -> (r: Self)
        ensures
            r.wf(),
            r.definitions@.len() == 0,
            r.provider.view() == Map::<Seq<char>, String>::empty(),
    {
        ToolRegistry { definitions: Vec::new(), provider: StrMap::new() }
    }

    /// Adds the tools of a plugin after those already known; a tool name that an
    /// earlier plugin offered is from now on provided by this one.
    pub fn add_plugin_tools(&mut self, plugin: &str, tools: Vec<ToolDef>)
        requires
            old(self).wf(),
        ensures
            final(self).wf(),
            final(self).definitions@ == old(self).definitions@ + tools@,
            forall|n: Seq<char>|
                #[trigger] final(self).provider.view().contains_key(n) <==> (old(self).provider.view().contains_key(n)
                    || exists|i: int| 0 <= i < tools@.len() && tools@[i].name@ == n),
            forall|n: Seq<char>|
                (exists|i: int| 0 <= i < tools@.len() && tools@[i].name@ == n) ==> #[trigger] final(self).provider.view()[n]@
                    == plugin@,
            forall|n: Seq<char>|
                old(self).provider.view().contains_key(n) && !(exists|i: int| 0 <= i < tools@.len() && tools@[i].name@ == n)
                    ==> #[trigger] final(self).provider.view()[n] == old(self).provider.view()[n],
    {
        let mut tools = tools;
        let ghost added = tools@;
        let ghost start_defs = self.definitions@;
        let ghost start_map = self.provider.view();
        let mut i: usize = 0;
        let n = tools.len();
        let mut rest: Vec<ToolDef> = Vec::new();
        while i < n
            invariant
                self.wf(),
                n == added.len(),
                i <= n,
                self.definitions@ == start_defs,
                forall|m: Seq<char>|
                    #[trigger] self.provider.view().contains_key(m) <==> (start_map.contains_key(m) || exists|j: int|
                        0 <= j < i && added[j].name@ == m),
                forall|m: Seq<char>|
                    (exists|j: int| 0 <= j < i && added[j].name@ == m) ==> #[trigger] self.provider.view()[m]@ == plugin@,
                forall|m: Seq<char>|
                    start_map.contains_key(m) && !(exists|j: int| 0 <= j < i && added[j].name@ == m)
                        ==> #[trigger] self.provider.view()[m] == start_map[m],
                tools@ == added,
            decreases n - i,
        {
            let name = tools[i].name.clone();
            let ghost nm = name@;
            self.provider.insert(name, to_string(plugin));
            proof {
                assert(added[i as int].name@ == nm);
                assert forall|m: Seq<char>|
                    #[trigger] self.provider.view().contains_key(m) <==> (start_map.contains_key(m) || exists|j: int|
                        0 <= j < i + 1 && added[j].name@ == m) by {
                    if m == nm {
                        assert(added[i as int].name@ == m);
                    } else if exists|j: int| 0 <= j < i + 1 && added[j].name@ == m {
                        let j = choose|j: int| 0 <= j < i + 1 && added[j].name@ == m;
                        assert(j != i);
                    }
                }
                assert forall|m: Seq<char>|
                    (exists|j: int| 0 <= j < i + 1 && added[j].name@ == m) implies #[trigger] self.provider.view()[m]@
                        == plugin@ by {
                    if m != nm {
                        let j = choose|j: int| 0 <= j < i + 1 && added[j].name@ == m;
                        assert(j != i);
                        assert(exists|j: int| 0 <= j < i && added[j].name@ == m);
                    }
                }
                assert forall|m: Seq<char>|
                    start_map.contains_key(m) && !(exists|j: int| 0 <= j < i + 1 && added[j].name@ == m) implies
                        #[trigger] self.provider.view()[m] == start_map[m] by {
                    assert(m != nm);
                    assert(!(exists|j: int| 0 <= j < i && added[j].name@ == m));
                }
            }
            i = i + 1;
        }
        self.definitions.append(&mut tools);
    }

    /// The plugin that provides a tool.
    pub fn plugin_for(&self, tool: &str) -> (r: Option<String>)
        requires
            self.wf(),
        ensures
            match r {
                Some(p) => self.provider.view().contains_key(tool@) && p@ == self.provider.view()[tool@]@,
                None => !self.provider.view().contains_key(tool@),
            },
    {
        match self.provider.get(tool) {
            Some(p) => Some(p.clone()),
            None => None,
        }
    }
}

/// How one tool call of the model is served.
pub enum ToolRun {
    /// Run the tool in this plugin, with the call's arguments.
    Call { id: String, name: String, arguments: String, plugin: String },
    /// No plugin provides the tool: this result goes to the model instead.
    Missing(String),
}

/// What a turn does with the model's answer.
pub enum ReplyStep {
    /// The provider reported an error: the turn stops with this message.
    Fail(String),
    /// No tool calls: this is the final answer.
    Finish(String),
    /// Serve these tool calls, in the model's order, then ask the model again.
    RunTools(Vec<ToolRun>),
}

/// `r` is how the call `c` is served: by the plugin the registry names for its
/// tool, else with the not-found result.
pub open spec fn serves(reg: ToolRegistry, c: ChatToolCall, r: ToolRun) -> bool {
    if reg.provider.view().contains_key(c.name@) {
        r matches ToolRun::Call { id, name, arguments, plugin } && id@ == c.id@ && name@ == c.name@ && arguments@
            == c.arguments@ && plugin@ == reg.provider.view()[c.name@]@
    } else {
        r matches ToolRun::Missing(t) && t@ == tool_missing_text(c.id@, c.name@)
    }
}

/// How each call is served (see `serves`), in order.
fn plan_runs(calls: &Vec<ChatToolCall>, reg: &ToolRegistry) -> (r: Vec<ToolRun>)
    requires
        reg.wf(),
    ensures
        r@.len() == calls@.len(),
        forall|i: int| 0 <= i < r@.len() ==> serves(*reg, calls@[i], #[trigger] r@[i]),
{
    let mut runs: Vec<ToolRun> = Vec::new();
    let mut i: usize = 0;
    while i < calls.len()
        invariant
            reg.wf(),
            i <= calls@.len(),
            runs@.len() == i,
            forall|j: int| 0 <= j < i ==> serves(*reg, calls@[j], #[trigger] runs@[j]),
        decreases calls@.len() - i,
    {
        let c = &calls[i];
        let run = match reg.plugin_for(c.name.as_str()) {
            Some(p) => ToolRun::Call { id: c.id.clone(), name: c.name.clone(), arguments: c.arguments.clone(), plugin: p },
            None => ToolRun::Missing(tool_missing_content(c.id.as_str(), c.name.as_str())),
        };
        runs.push(run);
        i = i + 1;
    }
    runs
}

/// What a turn does with the model's answer: a provider error ends it, an answer
/// without tool calls is final, and otherwise every call is served, each once and in
/// the model's order.
pub fn reply_step(reply: &ChatResponse, reg: &ToolRegistry) -> (r: ReplyStep)
    requires
        reg.wf(),
    ensures
        match reply.error {
            Some(e) => r matches ReplyStep::Fail(m) && m@ == "provider error: "@ + e@,
            None => if reply.tool_calls@.len() == 0 {
                r matches ReplyStep::Finish(t) && t@ == reply.content@
            } else {
                r matches ReplyStep::RunTools(runs) && runs@.len() == reply.tool_calls@.len() && forall|i: int|
                    0 <= i < runs@.len() ==> serves(*reg, reply.tool_calls@[i], #[trigger] runs@[i])
            },
        },
{
    match &reply.error {
        Some(e) => ReplyStep::Fail(crate::text::concat2("provider error: ", e.as_str())),
        None => if reply.tool_calls.len() == 0 {
            ReplyStep::Finish(reply.content.clone())
        } else {
            ReplyStep::RunTools(plan_runs(&reply.tool_calls, reg))
        },
    }
}

/// How a turn ends.
pub enum TurnEnd {
    /// The model answered without tool calls: this is the reply.
    Answer(Seq<char>),
    /// The provider reported an error: the turn fails with this message.
    Failed(Seq<char>),
    /// The iterations ran out: the reply is `GAVE_UP_REPLY`.
    GaveUp,
}

/// A turn of at most `max` iterations, `done` of them already made, in which the
/// model's answer to the `i`-th call (from 0) is `replies(i)`: each iteration first
/// counts itself (`TurnState::next_iteration`, which gives up past `max`), then asks
/// the model and acts on its answer (`reply_step`), running the tools and going on
/// when the answer has tool calls. Gives the number of model calls made and how the
/// turn ends.
pub open spec fn turn_run(max: nat, done: nat, replies: spec_fn(nat) -> ChatResponse) -> (nat, TurnEnd)
    decreases max - done,
{
    if done >= max {
        (done, TurnEnd::GaveUp)
    } else {
        let rep = replies(done);
        match rep.error {
            Some(e) => ((done + 1) as nat, TurnEnd::Failed("provider error: "@ + e@)),
            None => if rep.tool_calls@.len() == 0 {
                ((done + 1) as nat, TurnEnd::Answer(rep.content@))
            } else {
                turn_run(max, (done + 1) as nat, replies)
            },
        }
    }
}

/// The model calls a message leads to: none when it is routed to a command, else
/// those of a whole turn (see `turn_run`).
pub open spec fn message_model_calls(route: CommandRoute, max: nat, replies: spec_fn(nat) -> ChatResponse) -> nat {
    match route {
        CommandRoute::PassThrough => turn_run(max, 0, replies).0,
        _ => 0,
    }
}

/// The model settings of the configured model, or the default (`gpt-4` served by
/// `mochiclaw-openai`) when no such model is configured.
pub fn select_model(models: &StrMap<ModelConfig>, name: &str) -> (r: ModelConfig)
    requires
        models.wf(),
    ensures
        models.view().contains_key(name@) ==> {
            let m = models.view()[name@];
            &&& r.model@ == m.model@
            &&& r.provider@ == m.provider@
            &&& crate::session::opt_str(r.api_base) == crate::session::opt_str(m.api_base)
            &&& crate::session::opt_str(r.api_key) == crate::session::opt_str(m.api_key)
        },
        !models.view().contains_key(name@) ==> {
            &&& r.model@ == "gpt-4"@
            &&& r.provider@ == "mochiclaw-openai"@
            &&& r.api_base is None
            &&& r.api_key is None
        },
{
    match models.get(name) {
        Some(m) => ModelConfig {
            model: m.model.clone(),
            provider: m.provider.clone(),
            api_base: match &m.api_base {
                Some(s) => Some(s.clone()),
                None => None,
            },
            api_key: match &m.api_key {
                Some(s) => Some(s.clone()),
                None => None,
            },
        },
        None => ModelConfig {
            model: to_string("gpt-4"),
            provider: to_string("mochiclaw-openai"),
            api_base: None,
            api_key: None,
        },
    }
}

/// The token of a channel, `None` when the channel is not configured or has no token.
pub fn channel_token(channels: &StrMap<ChannelConfig>, channel: &str) -> (r: Option<String>)
    requires
        channels.wf(),
    ensures
        match r {
            Some(t) => channels.view().contains_key(channel@) && (channels.view()[channel@].token matches Some(x)
                && x@ == t@),
            None => !channels.view().contains_key(channel@) || channels.view()[channel@].token is None,
        },
{
    match channels.get(channel) {
        Some(cfg) => match &cfg.token {
            Some(t) => Some(t.clone()),
            None => None,
        },
        None => None,
    }
}

/// The `token` among a channel's extra settings, when it is text.
pub open spec fn extra_token(cfg: ChannelConfig) -> Option<Seq<char>> {
    if cfg.extra.view().contains_key("token"@) {
        match cfg.extra.view()["token"@] {
            ArgValue::Text(s) => Some(s@),
            _ => None,
        }
    } else {
        None
    }
}

fn extra_token_of(cfg: &ChannelConfig) -> (r: Option<String>)
    requires
        cfg.extra.wf(),
    ensures
        crate::session::opt_str(r) == extra_token(*cfg),
{
    match cfg.extra.get("token") {
        Some(ArgValue::Text(s)) => Some(s.clone()),
        _ => None,
    }
}

/// The token a channel's messages are sent and typing shown with: the `token` among
/// its extra settings (see `extra_token`); `None` when the channel is not configured.
pub fn send_token(channels: &StrMap<ChannelConfig>, channel: &str) -> (r: Option<String>)
    requires
        channels.wf(),
        forall|k: Seq<char>| #[trigger] channels.view().contains_key(k) ==> channels.view()[k].extra.wf(),
    ensures
        crate::session::opt_str(r) == if channels.view().contains_key(channel@) {
            extra_token(channels.view()[channel@])
        } else {
            None
        },
{
    match channels.get(channel) {
        Some(cfg) => extra_token_of(cfg),
        None => None,
    }
}

/// The token a channel is polled with: the `token` among its extra settings, when
/// the channel is enabled.
pub fn poll_token(cfg: &ChannelConfig) -> (r: Option<String>)
    requires
        cfg.extra.wf(),
    ensures
        crate::session::opt_str(r) == if cfg.enabled {
            extra_token(*cfg)
        } else {
            None
        },
{
    if !cfg.enabled {
        return None;
    }
    extra_token_of(cfg)
}

/// The cursor a channel's next poll resumes from: the one its last poll left, empty
/// before the first.
pub open spec fn poll_cursor(cursors: Map<Seq<char>, String>, channel: Seq<char>) -> Seq<char> {
    if cursors.contains_key(channel) {
        cursors[channel]@
    } else {
        Seq::<char>::empty()
    }
}

/// The request of the next poll of a channel: its token and its cursor (see
/// `poll_cursor`).
pub fn poll_params(cursors: &StrMap<String>, channel: &str, token: &str) -> (r: PollParams)
    requires
        cursors.wf(),
    ensures
        r.token@ == token@,
        r.get_updates_buf@ == poll_cursor(cursors.view(), channel@),
{
    let buf = match cursors.get(channel) {
        Some(b) => b.clone(),
        None => String::new(),
    };
    PollParams { token: to_string(token), get_updates_buf: buf }
}

/// Takes in what a poll of `channel` answered: the channel's cursor moves to the one
/// the answer gives, unless it gives none, and the messages are attributed to the
/// channel polled, in order.
pub fn take_poll(cursors: &mut StrMap<String>, channel: &str, resp: PollResponse) -> (r: Vec<InboundMessage>)
    requires
        old(cursors).wf(),
    ensures
        final(cursors).wf(),
        resp.get_updates_buf@.len() > 0 ==> final(cursors).view() == old(cursors).view().insert(
            channel@,
            resp.get_updates_buf,
        ),
        resp.get_updates_buf@.len() == 0 ==> final(cursors).view() == old(cursors).view(),
        r@.len() == resp.messages@.len(),
        forall|i: int|
            0 <= i < r@.len() ==> {
                &&& (#[trigger] r@[i]).channel@ == channel@
                &&& r@[i].chat_id@ == resp.messages@[i].chat_id@
                &&& r@[i].content@ == resp.messages@[i].content@
                &&& crate::text::views(r@[i].media@) == crate::text::views(resp.messages@[i].media@)
            },
{
    let ghost msgs = resp.messages@;
    let PollResponse { messages, get_updates_buf, error: _ } = resp;
    if !get_updates_buf.as_str().is_empty() {
        cursors.insert(to_string(channel), get_updates_buf);
    }
    let mut out: Vec<InboundMessage> = Vec::new();
    let mut i: usize = 0;
    while i < messages.len()
        invariant
            messages@ == msgs,
            i <= msgs.len(),
            out@.len() == i,
            forall|j: int|
                0 <= j < i ==> {
                    &&& (#[trigger] out@[j]).channel@ == channel@
                    &&& out@[j].chat_id@ == msgs[j].chat_id@
                    &&& out@[j].content@ == msgs[j].content@
                    &&& crate::text::views(out@[j].media@) == crate::text::views(msgs[j].media@)
                },
        decreases msgs.len() - i,
    {
        let m = &messages[i];
        out.push(
            InboundMessage {
                channel: to_string(channel),
                chat_id: m.chat_id.clone(),
                content: m.content.clone(),
                media: crate::text::clone_strings(&m.media),
            },
        );
        i = i + 1;
    }
    out
}

/// The request that shows or hides the typing indicator in a chat, when the channel
/// has a token to send with (see `send_token`).
pub fn typing_params(channels: &StrMap<ChannelConfig>, channel: &str, chat_id: &str, typing: bool) -> (r: Option<
    SetTypingParams,
>)
    requires
        channels.wf(),
        forall|k: Seq<char>| #[trigger] channels.view().contains_key(k) ==> channels.view()[k].extra.wf(),
    ensures
        match r {
            Some(p) => (if channels.view().contains_key(channel@) {
                extra_token(channels.view()[channel@])
            } else {
                None
            }) == Some(p.token@) && p.chat_id@ == chat_id@ && p.typing == typing,
            None => (if channels.view().contains_key(channel@) {
                extra_token(channels.view()[channel@])
            } else {
                None
            }) is None,
        },
{
    match send_token(channels, channel) {
        Some(token) => Some(SetTypingParams { token, chat_id: to_string(chat_id), typing }),
        None => None,
    }
}

/// Whether the agent polls a channel: it must be enabled and logged in.
pub fn polls_channel(cfg: &ChannelConfig) -> (r: bool)
    ensures
        r == (cfg.enabled && cfg.token is Some),
{
    cfg.enabled && cfg.token.is_some()
}

} // verus!
