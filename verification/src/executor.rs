//! The agent executor: drives one task through rounds of model responses
//! and tool execution, decides when to stop, and folds structured
//! completion verdicts back into plain text.
//!
//! The executor is deterministic: it consumes a sequence of model
//! responses, one per round, and runs the requested tools against the file
//! store. The embedding program obtains each response from the live API
//! client (through the retry policy) and hands it in; a test hands in a
//! scripted sequence.

use vstd::prelude::*;
use crate::args::Args;
use crate::engine::{
    execute_tool_with_preview, spec_execute_entries, spec_execute_result, ExecError,
};
use crate::fsstore::{store_map, FileStore};
use crate::messages::{
    add_working_directory_to_prompt, clone_conversation, conversation_wf, has_wd_marker, Message,
    Role, spec_with_working_directory, wd_marker_spec,
};
use crate::outside::{json_top_bool, json_top_bool_field, json_top_str, json_top_str_field};
use crate::policy::{determine_completion_threshold, should_request_completion};
use crate::text::{contains_seq, fmt_u64, spec_u64_str};
use crate::tools::{
    get_tool_definitions, parse_tool_call, spec_is_catalog, spec_parse_result, ToolCall,
    ToolDefinition,
};

verus! {

/// The round cap: a task is forced to completion after this many tool
/// rounds.
pub const MAX_LOOPS: usize = 100;

/// One model-issued tool call: an optional provider id, the tool name, and
/// the untyped argument bag.
#[derive(Debug)]
pub struct ToolCallRequest {
    pub id: Option<String>,
    pub name: String,
    pub arguments: Args,
}

/// The result the engine returns for one tool call, under the call's
/// correlation id.
#[derive(Debug)]
pub struct ToolResult {
    pub tool_call_id: String,
    pub output: String,
}

/// One model response: generated text, plus the batch of tool calls the
/// model requested, if any.
#[derive(Debug)]
pub struct ApiResponse {
    pub content: String,
    pub tool_calls: Option<Vec<ToolCallRequest>>,
}

/// Options of one completion request. The sampling parameters are fixed
/// point, in thousandths, so that the library holds no floating point; the
/// wire adapter scales them, and where a provider refuses `tools` together
/// with `json_schema` it drops one of the two rather than erroring.
#[derive(Debug)]
pub struct CompletionOptions {
    pub temperature_milli: Option<u32>,
    pub top_p_milli: Option<u32>,
    pub max_tokens: Option<u32>,
    pub tools: Option<Vec<ToolDefinition>>,
    pub require_tool_use: bool,
    pub json_schema: Option<String>,
}

/// A task-level failure: the model could not be reached or answered
/// outside its protocol.
#[derive(Debug)]
pub enum AgentError {
    /// Transport failure, timeout, or retries exhausted.
    Network { message: String },
    /// A non-success status that retrying does not help, with its body.
    Provider { status: u16, message: String },
}

/// The correlation id a tool result carries: the call's own id, or one
/// synthesized from the call's position in the batch.
pub open spec fn spec_call_id(call: &ToolCallRequest, i: int) -> Seq<char> {
    match call.id {
        Some(s) => s@,
        None => "tool_"@ + spec_u64_str(i),
    }
}

/// The conversation entry recording one tool result.
pub open spec fn spec_tool_result_message(id: Seq<char>, output: Seq<char>) -> Seq<char> {
    "Tool result for call "@ + id + ": "@ + output
}

/// The summary a structured verdict carries: the reply's top-level
/// `finalSummary` string, if the reply is such a verdict.
pub open spec fn spec_verdict_summary(content: Seq<char>) -> Option<Seq<char>> {
    json_top_str_field(content, "finalSummary"@)
}

/// Whether a structured verdict declares the task complete: its top-level
/// `taskComplete` field is the boolean true; an absent or non-boolean
/// field counts as not complete.
pub open spec fn spec_verdict_complete(content: Seq<char>) -> bool {
    json_top_bool_field(content, "taskComplete"@) == Some(true)
}

/// What `process_response` yields: a structured verdict's summary with its
/// completion flag, or the text itself, not complete.
pub open spec fn spec_processed(content: Seq<char>) -> (Seq<char>, bool) {
    match spec_verdict_summary(content) {
        Some(s) => (s, spec_verdict_complete(content)),
        None => (content, false),
    }
}

/// Fold a reply's raw verdict fields into the working answer: a present
/// summary becomes the answer, with an absent or non-boolean completion
/// flag counting as not complete; without a summary the raw text stands,
/// not complete. This is the verdict-interpretation rule itself, on plain
/// values, so it is checkable on any input.
pub fn interpret_verdict(content: &str, summary: Option<String>, complete: Option<bool>) -> (r: (
    String,
    bool,
))
    ensures
        summary matches Some(s) ==> r.0@ == s@ && r.1 == (complete == Some(true)),
        summary is None ==> r.0@ == content@ && !r.1,
{
    match summary {
        Some(s) => {
            let done = match complete {
                Some(b) => b,
                None => false,
            };
            (s, done)
        },
        None => (content.to_owned(), false),
    }
}

/// Process a model reply: if it is a structured verdict carrying a final
/// summary, that summary becomes the working answer and the completion
/// flag is taken from it; otherwise the raw text stands, not complete.
pub fn process_response(content: &str) -> (r: (String, bool))
    ensures
        (r.0@, r.1) == spec_processed(content@),
{
    let summary = json_top_str(content, "finalSummary");
    let complete = json_top_bool(content, "taskComplete");
    interpret_verdict(content, summary, complete)
}

/// The diagnostic put in front of the answer when the round cap forces
/// completion.
pub open spec fn spec_forced_answer(answer: Seq<char>) -> Seq<char> {
    "Reached maximum number of tool call loops (100). Forcing completion.\n"@ + answer
}

/// Put the forced-completion diagnostic in front of the working answer.
pub fn forced_answer(answer: &str) -> (r: String)
    ensures
        r@ == spec_forced_answer(answer@),
{
    let mut r = "Reached maximum number of tool call loops (100). Forcing completion.\n"
        .to_owned();
    r.append(answer);
    r
}

/// The lines recording a tool-call batch in an assistant entry: one line
/// per call, carrying its id, its name, and its full argument bag, so the
/// turn's record holds everything the model called with.
pub open spec fn spec_call_lines(calls: Seq<ToolCallRequest>) -> Seq<char>
    decreases calls.len(),
{
    if calls.len() == 0 {
        Seq::empty()
    } else {
        "\n[tool_call "@ + (match calls[0].id {
            Some(s) => s@,
            None => Seq::empty(),
        }) + "] "@ + calls[0].name@ + " "@ + calls[0].arguments.spec_render() + spec_call_lines(
            calls.skip(1),
        )
    }
}

/// The content of the assistant entry for a model turn: the text, and a
/// line per requested tool call.
pub open spec fn spec_assistant_entry(content: Seq<char>, calls: &Option<Vec<ToolCallRequest>>) -> Seq<char> {
    match calls {
        Some(cs) => content + spec_call_lines(cs@),
        None => content,
    }
}

/// Append the assistant's turn: its text, with the tool-call batch
/// recorded one call per line.
pub fn add_assistant_message_to_conversation(
    conversation: &mut Vec<Message>,
    content: &str,
    tool_calls: &Option<Vec<ToolCallRequest>>,
)
    ensures
        final(conversation)@.len() == old(conversation)@.len() + 1,
        final(conversation)@ == old(conversation)@ + seq![final(conversation)@.last()],
        final(conversation)@.last().role == Role::Assistant,
        final(conversation)@.last().content@ == spec_assistant_entry(content@, tool_calls),
{
    let mut text = content.to_owned();
    match tool_calls {
        Some(calls) => {
            let n = calls.len();
            let mut i: usize = 0;
            proof {
                assert(calls@.skip(0) =~= calls@);
            }
            while i < n
                invariant
                    n == calls@.len(),
                    i <= n,
                    text@ + spec_call_lines(calls@.skip(i as int)) == content@ + spec_call_lines(
                        calls@,
                    ),
                decreases n - i,
            {
                text.append("\n[tool_call ");
                match &calls[i].id {
                    Some(s) => {
                        text.append(s.as_str());
                    },
                    None => {},
                }
                text.append("] ");
                text.append(calls[i].name.as_str());
                text.append(" ");
                text.append(calls[i].arguments.render().as_str());
                proof {
                    assert(calls@.skip(i as int)[0] == calls@[i as int]);
                    assert(calls@.skip(i as int).skip(1) =~= calls@.skip(i + 1));
                }
                i += 1;
            }
            proof {
                assert(calls@.skip(n as int) =~= Seq::<ToolCallRequest>::empty());
            }
        },
        None => {},
    }
    conversation.push(Message::assistant(text));
    proof {
        assert(conversation@ =~= old(conversation)@ + seq![conversation@.last()]);
    }
}

/// The agent executor's state for one task: the conversation it owns, the
/// advertised tool catalog, and the working directory the system prompt
/// names.
#[derive(Debug)]
pub struct AgentExecutor {
    pub conversation: Vec<Message>,
    pub tool_definitions: Vec<ToolDefinition>,
    pub working_directory: Option<String>,
}

impl AgentExecutor {
    /// A fresh executor with the fixed tool catalog and no conversation.
    pub fn new() -> (r: AgentExecutor)
        ensures
            r.conversation@.len() == 0,
            spec_is_catalog(r.tool_definitions@),
            r.working_directory is None,
    {
        AgentExecutor {
            conversation: Vec::new(),
            tool_definitions: get_tool_definitions(),
            working_directory: None,
        }
    }

    /// Record the working directory, and fold it into the first system
    /// message unless that message already names one: that message gets
    /// the directory section appended, every other message stays as it is.
    pub fn set_working_directory(&mut self, working_dir: String)
        ensures
            final(self).working_directory matches Some(w) && w@ == working_dir@,
            final(self).tool_definitions == old(self).tool_definitions,
            final(self).conversation@.len() == old(self).conversation@.len(),
            ({
                let f = crate::messages::spec_first_system(old(self).conversation@);
                if f == -1 {
                    final(self).conversation@ == old(self).conversation@
                } else {
                    final(self).conversation@ == old(self).conversation@.update(
                        f,
                        final(self).conversation@[f],
                    ) && spec_wd_applied(
                        old(self).conversation@[f],
                        final(self).conversation@[f],
                        final(self).working_directory,
                    )
                }
            }),
    {
        self.working_directory = Some(working_dir.clone());
        let n = self.conversation.len();
        let mut i: usize = 0;
        while i < n
            invariant
                n == self.conversation@.len(),
                i <= n,
                self.tool_definitions == old(self).tool_definitions,
                self.working_directory matches Some(w) && w@ == working_dir@,
                self.conversation@ == old(self).conversation@,
                forall|j: int|
                    0 <= j < i ==> !((#[trigger] old(self).conversation@[j]).role is System),
            decreases n - i,
        {
            let is_system = matches!(self.conversation[i].role, Role::System);
            if is_system {
                proof {
                    crate::messages::lemma_first_system_at(old(self).conversation@, i as int);
                }
                if !has_wd_marker(self.conversation[i].content.as_str()) {
                    let updated = add_working_directory_to_prompt(
                        self.conversation[i].content.as_str(),
                        working_dir.as_str(),
                    );
                    self.conversation[i].content = updated;
                }
                proof {
                    assert(self.conversation@ =~= old(self).conversation@.update(
                        i as int,
                        self.conversation@[i as int],
                    ));
                }
                return ;
            }
            i += 1;
        }
        proof {
            crate::messages::lemma_first_system_none(old(self).conversation@);
        }
    }

    /// Replace the conversation with a caller-supplied history; system
    /// messages in it that name no working directory get the recorded one
    /// appended.
    pub fn set_conversation_history(&mut self, history: Vec<Message>)
        ensures
            final(self).tool_definitions == old(self).tool_definitions,
            final(self).working_directory == old(self).working_directory,
            final(self).conversation@.len() == history@.len(),
            forall|i: int|
                0 <= i < history@.len() ==> spec_wd_applied(
                    history@[i],
                    #[trigger] final(self).conversation@[i],
                    old(self).working_directory,
                ),
    {
        let mut history = history;
        let ghost history0 = history@;
        match &self.working_directory {
            Some(cwd) => {
                let n = history.len();
                let mut i: usize = 0;
                while i < n
                    invariant
                        n == history@.len(),
                        n == history0.len(),
                        i <= n,
                        old(self).working_directory matches Some(c) && c@ == cwd@,
                        forall|j: int| i <= j < n ==> #[trigger] history@[j] == history0[j],
                        forall|j: int|
                            0 <= j < i ==> spec_wd_applied(
                                history0[j],
                                #[trigger] history@[j],
                                old(self).working_directory,
                            ),
                    decreases n - i,
                {
                    let is_system = matches!(history[i].role, Role::System);
                    if is_system && !has_wd_marker(history[i].content.as_str()) {
                        let updated = add_working_directory_to_prompt(
                            history[i].content.as_str(),
                            cwd.as_str(),
                        );
                        history[i].content = updated;
                    }
                    i += 1;
                }
            },
            None => {},
        }
        self.conversation = history;
    }

    /// The conversation so far, copied.
    pub fn get_conversation_history(&self) -> (r: Vec<Message>)
        ensures
            r@ == self.conversation@,
    {
        clone_conversation(&self.conversation)
    }

    /// Install `content` as the one system message, first in the
    /// conversation, with the working directory appended when one is
    /// recorded; any earlier system message is dropped.
    pub fn add_system_message(&mut self, content: String)
        ensures
            final(self).tool_definitions == old(self).tool_definitions,
            final(self).working_directory == old(self).working_directory,
            conversation_wf(final(self).conversation@),
            final(self).conversation@.len() >= 1,
            final(self).conversation@[0].role is System,
            final(self).conversation@[0].content@ == (match old(self).working_directory {
                Some(w) => spec_with_working_directory(content@, w@),
                None => content@,
            }),
            final(self).conversation@.skip(1) == spec_non_system(old(self).conversation@),
    {
        let system_content = match &self.working_directory {
            Some(cwd) => add_working_directory_to_prompt(content.as_str(), cwd.as_str()),
            None => content,
        };
        let ghost scv = system_content@;
        let mut rebuilt: Vec<Message> = Vec::new();
        rebuilt.push(Message::system(system_content));
        let n = self.conversation.len();
        let mut i: usize = 0;
        proof {
            assert(self.conversation@.take(0) =~= Seq::<Message>::empty());
            assert(rebuilt@.skip(1) =~= spec_non_system(self.conversation@.take(0)));
        }
        while i < n
            invariant
                n == self.conversation@.len(),
                i <= n,
                *self == *old(self),
                rebuilt@.len() >= 1,
                rebuilt@[0].role is System,
                rebuilt@[0].content@ == scv,
                rebuilt@.skip(1) == spec_non_system(self.conversation@.take(i as int)),
                forall|j: int| 1 <= j < rebuilt@.len() ==> !(#[trigger] rebuilt@[j].role
                    is System),
            decreases n - i,
        {
            proof {
                assert(self.conversation@.take(i + 1).drop_last() =~= self.conversation@.take(
                    i as int,
                ));
                assert(self.conversation@.take(i + 1).last() == self.conversation@[i as int]);
            }
            let is_system = matches!(self.conversation[i].role, Role::System);
            if !is_system {
                rebuilt.push(self.conversation[i].clone());
                proof {
                    assert(rebuilt@.skip(1) =~= spec_non_system(
                        self.conversation@.take(i + 1),
                    ));
                }
            } else {
                proof {
                    assert(rebuilt@.skip(1) =~= spec_non_system(
                        self.conversation@.take(i + 1),
                    ));
                }
            }
            i += 1;
        }
        proof {
            assert(self.conversation@.take(n as int) =~= self.conversation@);
        }
        self.conversation = rebuilt;
    }

    /// Append a user message.
    pub fn add_user_message(&mut self, content: String)
        ensures
            final(self).tool_definitions == old(self).tool_definitions,
            final(self).working_directory == old(self).working_directory,
            final(self).conversation@ == old(self).conversation@ + seq![
                Message { role: Role::User, content: content },
            ],
    {
        let m = Message::user(content);
        self.conversation.push(m);
        proof {
            assert(final(self).conversation@ =~= old(self).conversation@ + seq![
                final(self).conversation@.last(),
            ]);
        }
    }
}

/// What the round loop yields from response `k` on, with `current` the
/// working answer so far: the forced answer past the cap, nothing when the
/// responses run out (the transport failed), the processed verdict or
/// drained answer, or the next round's yield. This is the executor's whole
/// round policy as one function.
pub open spec fn spec_rounds(responses: Seq<ApiResponse>, k: int, current: Seq<char>) -> Option<
    Seq<char>,
>
    decreases MAX_LOOPS + 1 - k,
{
    if k > MAX_LOOPS as int {
        Some(spec_forced_answer(current))
    } else if k >= responses.len() {
        None
    } else {
        let p = spec_processed(responses[k].content@);
        if p.1 {
            Some(p.0)
        } else if !(responses[k].tool_calls is Some) {
            if p.0.len() == 0 {
                if k + 1 >= responses.len() {
                    None
                } else {
                    Some(spec_processed(responses[k + 1].content@).0)
                }
            } else {
                Some(p.0)
            }
        } else {
            spec_rounds(responses, k + 1, p.0)
        }
    }
}

/// What `execute` answers for a response sequence: nothing when the
/// sequence is empty, the first response's text when it asks for no tools,
/// and otherwise the round loop's yield.
pub open spec fn spec_executor_answer(responses: Seq<ApiResponse>) -> Option<Seq<char>> {
    if responses.len() == 0 {
        None
    } else if !(responses[0].tool_calls is Some) {
        Some(responses[0].content@)
    } else {
        spec_rounds(responses, 1, responses[0].content@)
    }
}

/// The output text recorded for one engine outcome: the result itself, or
/// the readable execution-error text.
pub open spec fn spec_outcome_text(r: &Result<String, ExecError>) -> Seq<char> {
    match r {
        Ok(o) => o@,
        Err(e) => "ERROR EXECUTING TOOL: "@ + e.spec_message(),
    }
}

/// Executing one typed command turns the store's entries `e1` into `e2`
/// and records `output`: some engine outcome ties all three together.
pub open spec fn spec_exec_step(
    cmd: &ToolCall,
    e1: Seq<(Seq<char>, Seq<char>)>,
    e2: Seq<(Seq<char>, Seq<char>)>,
    output: Seq<char>,
) -> bool {
    exists|r: Result<String, ExecError>|
        {
            &&& #[trigger] spec_execute_result(e1, store_map(e2), cmd, &r)
            &&& spec_execute_entries(e1, e2, cmd, &r)
            &&& output == spec_outcome_text(&r)
        }
}

/// One step of a tool batch: the call parses to a typed command that the
/// engine executes over the entries, or it fails to parse, leaving the
/// store as it was and recording the readable parse error.
pub open spec fn spec_batch_step(
    call: &ToolCallRequest,
    e1: Seq<(Seq<char>, Seq<char>)>,
    e2: Seq<(Seq<char>, Seq<char>)>,
    output: Seq<char>,
) -> bool {
    if crate::tools::spec_parse_ok(call.name@, &call.arguments) {
        exists|cmd: ToolCall|
            #[trigger] spec_parse_result(call.name@, &call.arguments, Ok(cmd)) && spec_exec_step(
                &cmd,
                e1,
                e2,
                output,
            )
    } else {
        e2 == e1 && exists|err: crate::tools::ParseError|
            #[trigger] spec_parse_result(call.name@, &call.arguments, Err(err)) && output
                == "ERROR PARSING TOOL CALL: "@ + err.spec_message()
                + ". Please check the format of your arguments and try again."@
    }
}

/// A batch runs as a sequential fold over the store: `trace` lists the
/// entries before the first call and after each one, and every result's
/// output is the step's recorded text.
pub open spec fn spec_batch_trace(
    trace: Seq<Seq<(Seq<char>, Seq<char>)>>,
    calls: Seq<ToolCallRequest>,
    results: Seq<ToolResult>,
    e_start: Seq<(Seq<char>, Seq<char>)>,
    e_end: Seq<(Seq<char>, Seq<char>)>,
) -> bool {
    &&& trace.len() == calls.len() + 1
    &&& trace[0] == e_start
    &&& trace[calls.len() as int] == e_end
    &&& forall|i: int|
        0 <= i < calls.len() ==> #[trigger] spec_batch_step(
            &calls[i],
            trace[i],
            trace[i + 1],
            results[i].output@,
        )
}

/// The JSON schema of the structured completion verdict that a
/// completion-check round constrains the reply to.
pub open spec fn spec_verdict_schema() -> Seq<char> {
    "{\"type\":\"object\",\"properties\":{\"taskComplete\":{\"type\":\"boolean\",\"description\":\"Whether the task is fully complete and no more tool calls are needed\"},\"finalSummary\":{\"type\":\"string\",\"description\":\"Final comprehensive summary of findings and results\"},\"reasoning\":{\"type\":\"string\",\"description\":\"Explanation of why the task is or is not complete\"}},\"required\":[\"taskComplete\",\"finalSummary\"]}"@
}

/// What the loop does with a processed reply: go on, ask one summary
/// round, or finish.
#[derive(Clone, Copy, PartialEq, Eq, Structural, Debug)]
pub enum RoundDecision {
    /// More tool calls are pending: execute them and ask the next round.
    AskAgain,
    /// The reply drained with an empty answer: ask one schema-constrained
    /// summary round, then finish with its text.
    AskSummary,
    /// The task is over; the working answer is final.
    Finished,
}

/// The round decision rule: a completion verdict ends the task; pending
/// tool calls keep it going; a drained reply ends it, after one summary
/// round when its answer is empty.
pub open spec fn spec_round_decision(
    complete: bool,
    has_tool_calls: bool,
    answer_empty: bool,
) -> RoundDecision {
    if complete {
        RoundDecision::Finished
    } else if has_tool_calls {
        RoundDecision::AskAgain
    } else if answer_empty {
        RoundDecision::AskSummary
    } else {
        RoundDecision::Finished
    }
}

/// Decide a round from its processed reply, so the loop host holds no
/// decisions of its own.
pub fn round_decision(complete: bool, has_tool_calls: bool, answer_empty: bool) -> (r:
    RoundDecision)
    ensures
        r == spec_round_decision(complete, has_tool_calls, answer_empty),
{
    if complete {
        RoundDecision::Finished
    } else if has_tool_calls {
        RoundDecision::AskAgain
    } else if answer_empty {
        RoundDecision::AskSummary
    } else {
        RoundDecision::Finished
    }
}

/// Whether the round counter has passed the cap, forcing completion.
pub fn cap_forces_completion(loop_count: usize) -> (b: bool)
    ensures
        b == (loop_count > MAX_LOOPS),
{
    loop_count > MAX_LOOPS
}

/// One step of a hosted batch: a supplied outcome — a shell capture the
/// host performed for a command the engine cannot run — stands as the
/// output with the store untouched; without one the step is the engine's.
pub open spec fn spec_hosted_step(
    call: &ToolCallRequest,
    supplied: Option<Seq<char>>,
    e1: Seq<(Seq<char>, Seq<char>)>,
    e2: Seq<(Seq<char>, Seq<char>)>,
    output: Seq<char>,
) -> bool {
    match supplied {
        Some(o) => e2 == e1 && output == o,
        None => spec_batch_step(call, e1, e2, output),
    }
}

/// A hosted batch as a sequential fold over the store, step by step as
/// `spec_batch_trace`, with the supplied outcomes substituted.
pub open spec fn spec_hosted_trace(
    trace: Seq<Seq<(Seq<char>, Seq<char>)>>,
    calls: Seq<ToolCallRequest>,
    supplied: Seq<Option<Seq<char>>>,
    results: Seq<ToolResult>,
    e_start: Seq<(Seq<char>, Seq<char>)>,
    e_end: Seq<(Seq<char>, Seq<char>)>,
) -> bool {
    &&& trace.len() == calls.len() + 1
    &&& trace[0] == e_start
    &&& trace[calls.len() as int] == e_end
    &&& forall|i: int|
        0 <= i < calls.len() ==> #[trigger] spec_hosted_step(
            &calls[i],
            supplied[i],
            trace[i],
            trace[i + 1],
            results[i].output@,
        )
}

/// One response's tool batch run against the store: with a batch, some
/// results and some trace relate the entries before and after; without
/// one, the store stands as it is.
pub open spec fn spec_batch_for_response(
    resp: &ApiResponse,
    e0: Seq<(Seq<char>, Seq<char>)>,
    e1: Seq<(Seq<char>, Seq<char>)>,
) -> bool {
    match resp.tool_calls {
        Some(b) => exists|trace: Seq<Seq<(Seq<char>, Seq<char>)>>, outs: Seq<ToolResult>|
            spec_batch_trace(trace, b@, outs, e0, e1),
        None => e0 == e1,
    }
}

/// The store can evolve from `e0` to `e1` by running, in order, the tool
/// batches of the first `rounds` responses.
pub open spec fn spec_batches_evolve(
    responses: Seq<ApiResponse>,
    rounds: int,
    e0: Seq<(Seq<char>, Seq<char>)>,
    e1: Seq<(Seq<char>, Seq<char>)>,
) -> bool
    decreases rounds,
{
    if rounds <= 0 {
        e0 == e1
    } else {
        exists|e_mid: Seq<(Seq<char>, Seq<char>)>|
            spec_batches_evolve(responses, rounds - 1, e0, e_mid) && #[trigger]
            spec_batch_for_response(&responses[rounds - 1], e_mid, e1)
    }
}

/// How many tool batches the round loop runs before it stops, seen from
/// level `k`: the cap's worth when forced, and the stopping round itself
/// otherwise.
pub open spec fn spec_rounds_used(responses: Seq<ApiResponse>, k: int) -> int
    decreases MAX_LOOPS + 1 - k,
{
    if k > MAX_LOOPS as int {
        MAX_LOOPS as int
    } else if k >= responses.len() {
        k
    } else {
        let p = spec_processed(responses[k].content@);
        if p.1 {
            k
        } else if !(responses[k].tool_calls is Some) {
            k
        } else {
            spec_rounds_used(responses, k + 1)
        }
    }
}

/// How many tool batches `execute` runs for a response sequence.
pub open spec fn spec_executor_rounds(responses: Seq<ApiResponse>) -> int {
    if responses.len() == 0 {
        0
    } else if !(responses[0].tool_calls is Some) {
        0
    } else {
        spec_rounds_used(responses, 1)
    }
}

impl AgentExecutor {
    /// The options of a tool round: fixed sampling parameters, the tool
    /// catalog, and, on rounds the policy picks, the schema of the
    /// structured completion verdict.
    pub fn next_round_options(&self, loop_count: usize) -> (r: CompletionOptions)
        ensures
            r.temperature_milli == Some(250u32),
            r.top_p_milli == Some(950u32),
            r.max_tokens == Some(4096u32),
            r.tools matches Some(t) && t@ == self.tool_definitions@,
            !r.require_tool_use,
            r.json_schema is Some <==> crate::policy::spec_should_request_completion(
                loop_count as int,
                MAX_LOOPS as int,
                crate::policy::spec_completion_threshold(loop_count as int),
            ),
            r.json_schema matches Some(s) ==> s@ == spec_verdict_schema(),
    {
        let threshold = determine_completion_threshold(loop_count);
        let ask = should_request_completion(loop_count, MAX_LOOPS, threshold);
        let schema: Option<String> = if ask {
            Some(
                "{\"type\":\"object\",\"properties\":{\"taskComplete\":{\"type\":\"boolean\",\"description\":\"Whether the task is fully complete and no more tool calls are needed\"},\"finalSummary\":{\"type\":\"string\",\"description\":\"Final comprehensive summary of findings and results\"},\"reasoning\":{\"type\":\"string\",\"description\":\"Explanation of why the task is or is not complete\"}},\"required\":[\"taskComplete\",\"finalSummary\"]}".to_owned(),
            )
        } else {
            None
        };
        let mut tools: Vec<ToolDefinition> = Vec::new();
        let n = self.tool_definitions.len();
        let mut i: usize = 0;
        while i < n
            invariant
                n == self.tool_definitions@.len(),
                i <= n,
                tools@ == self.tool_definitions@.subrange(0, i as int),
            decreases n - i,
        {
            tools.push(self.tool_definitions[i].clone());
            proof {
                assert(tools@ =~= self.tool_definitions@.subrange(0, i + 1));
            }
            i += 1;
        }
        proof {
            assert(tools@ =~= self.tool_definitions@);
        }
        CompletionOptions {
            temperature_milli: Some(250),
            top_p_milli: Some(950),
            max_tokens: Some(4096),
            tools: Some(tools),
            require_tool_use: false,
            json_schema: schema,
        }
    }

    /// Execute one batch of tool calls like `execute_tool_calls`, but
    /// take supplied outcomes from `host_outputs`: the host runs each
    /// shell command itself and hands the captured, formatted outcome
    /// under the call's index; a call with no supplied outcome goes to
    /// the engine.
    pub fn execute_tool_calls_hosted(
        &mut self,
        calls: &Vec<ToolCallRequest>,
        fs: &mut FileStore,
        host_outputs: &Vec<Option<String>>,
    ) -> (results: Vec<ToolResult>)
        requires
            old(fs).wf(),
            host_outputs@.len() == calls@.len(),
        ensures
            final(fs).wf(),
            results@.len() == calls@.len(),
            forall|i: int|
                0 <= i < calls@.len() ==> (#[trigger] results@[i]).tool_call_id@ == spec_call_id(
                    &calls@[i],
                    i,
                ),
            exists|trace: Seq<Seq<(Seq<char>, Seq<char>)>>|
                spec_hosted_trace(
                    trace,
                    calls@,
                    host_outputs.deep_view(),
                    results@,
                    old(fs).entries(),
                    final(fs).entries(),
                ),
            final(self).tool_definitions == old(self).tool_definitions,
            final(self).working_directory == old(self).working_directory,
            final(self).conversation@.len() == old(self).conversation@.len() + calls@.len(),
            final(self).conversation@.subrange(0, old(self).conversation@.len() as int) == old(
                self,
            ).conversation@,
            forall|i: int|
                0 <= i < calls@.len() ==> ({
                    let m = #[trigger] final(self).conversation@[old(self).conversation@.len()
                        + i];
                    m.role is User && m.content@ == spec_tool_result_message(
                        results@[i].tool_call_id@,
                        results@[i].output@,
                    )
                }),
    {
        let mut results: Vec<ToolResult> = Vec::new();
        let ghost mut trace: Seq<Seq<(Seq<char>, Seq<char>)>> = seq![old(fs).entries()];
        let n = calls.len();
        let mut i: usize = 0;
        while i < n
            invariant
                n == calls@.len(),
                host_outputs@.len() == n,
                i <= n,
                fs.wf(),
                results@.len() == i,
                trace.len() == i + 1,
                trace[0] == old(fs).entries(),
                trace[i as int] == fs.entries(),
                forall|j: int|
                    0 <= j < i ==> #[trigger] spec_hosted_step(
                        &calls@[j],
                        host_outputs.deep_view()[j],
                        trace[j],
                        trace[j + 1],
                        results@[j].output@,
                    ),
                self.tool_definitions == old(self).tool_definitions,
                self.working_directory == old(self).working_directory,
                self.conversation@.len() == old(self).conversation@.len() + i,
                self.conversation@.subrange(0, old(self).conversation@.len() as int) == old(
                    self,
                ).conversation@,
                forall|j: int|
                    0 <= j < i ==> (#[trigger] results@[j]).tool_call_id@ == spec_call_id(
                        &calls@[j],
                        j,
                    ),
                forall|j: int|
                    0 <= j < i ==> ({
                        let m = #[trigger] self.conversation@[old(self).conversation@.len() + j];
                        m.role is User && m.content@ == spec_tool_result_message(
                            results@[j].tool_call_id@,
                            results@[j].output@,
                        )
                    }),
            decreases n - i,
        {
            let ghost e1 = fs.entries();
            let output: String;
            proof {
                assert(host_outputs.deep_view()[i as int] == host_outputs@[i as int].deep_view());
            }
            if let Some(o) = &host_outputs[i] {
                output = o.clone();
                proof {
                    assert(spec_hosted_step(
                        &calls@[i as int],
                        host_outputs.deep_view()[i as int],
                        e1,
                        fs.entries(),
                        output@,
                    ));
                }
            } else {
            match parse_tool_call(calls[i].name.as_str(), &calls[i].arguments) {
                Ok(tc) => {
                    let (res, _preview) = execute_tool_with_preview(&tc, fs);
                    let ghost gres = res;
                    output = match res {
                        Ok(o) => o,
                        Err(e) => {
                            let mut t = "ERROR EXECUTING TOOL: ".to_owned();
                            t.append(e.message().as_str());
                            t
                        },
                    };
                    proof {
                        assert(output@ == spec_outcome_text(&gres));
                        assert(spec_execute_result(e1, store_map(fs.entries()), &tc, &gres));
                        assert(spec_exec_step(&tc, e1, fs.entries(), output@));
                        assert(spec_parse_result(
                            calls@[i as int].name@,
                            &calls@[i as int].arguments,
                            Ok(tc),
                        ));
                        assert(spec_batch_step(&calls@[i as int], e1, fs.entries(), output@));
                    }
                },
                Err(e) => {
                    let ghost ge = e;
                    let mut t = "ERROR PARSING TOOL CALL: ".to_owned();
                    t.append(e.message().as_str());
                    t.append(". Please check the format of your arguments and try again.");
                    output = t;
                    proof {
                        assert(spec_parse_result(
                            calls@[i as int].name@,
                            &calls@[i as int].arguments,
                            Err(ge),
                        ));
                        assert(spec_batch_step(&calls@[i as int], e1, fs.entries(), output@));
                    }
                },
            }
            }
            proof {
                trace = trace.push(fs.entries());
            }
            let tool_call_id: String = match &calls[i].id {
                Some(s) => s.clone(),
                None => {
                    let mut t = "tool_".to_owned();
                    t.append(fmt_u64(i as u64).as_str());
                    t
                },
            };
            let mut entry = "Tool result for call ".to_owned();
            entry.append(tool_call_id.as_str());
            entry.append(": ");
            entry.append(output.as_str());
            self.conversation.push(Message::user(entry));
            results.push(ToolResult { tool_call_id, output });
            proof {
                assert(self.conversation@.subrange(0, old(self).conversation@.len() as int)
                    =~= old(self).conversation@);
            }
            i += 1;
        }
        proof {
            assert(spec_hosted_trace(
                trace,
                calls@,
                host_outputs.deep_view(),
                results@,
                old(fs).entries(),
                fs.entries(),
            ));
        }
        results
    }

    /// Execute one batch of tool calls, sequentially in the order
    /// received, so that a later call observes an earlier call's edits:
    /// the batch is a fold over the store, witnessed by a trace of the
    /// store's entries. Each call yields exactly one result under its
    /// correlation id — the engine's output, or the readable parse or
    /// execution error, so that the model can read the failure and go on —
    /// and one conversation entry recording it.
    pub fn execute_tool_calls(&mut self, calls: &Vec<ToolCallRequest>, fs: &mut FileStore) -> (results: Vec<ToolResult>)
        requires
            old(fs).wf(),
        ensures
            final(fs).wf(),
            results@.len() == calls@.len(),
            forall|i: int|
                0 <= i < calls@.len() ==> (#[trigger] results@[i]).tool_call_id@ == spec_call_id(
                    &calls@[i],
                    i,
                ),
            exists|trace: Seq<Seq<(Seq<char>, Seq<char>)>>|
                spec_batch_trace(trace, calls@, results@, old(fs).entries(), final(fs).entries()),
            final(self).tool_definitions == old(self).tool_definitions,
            final(self).working_directory == old(self).working_directory,
            final(self).conversation@.len() == old(self).conversation@.len() + calls@.len(),
            final(self).conversation@.subrange(0, old(self).conversation@.len() as int) == old(
                self,
            ).conversation@,
            forall|i: int|
                0 <= i < calls@.len() ==> ({
                    let m = #[trigger] final(self).conversation@[old(self).conversation@.len()
                        + i];
                    m.role is User && m.content@ == spec_tool_result_message(
                        results@[i].tool_call_id@,
                        results@[i].output@,
                    )
                }),
    {
        let mut none_outputs: Vec<Option<String>> = Vec::new();
        let n = calls.len();
        let mut i: usize = 0;
        while i < n
            invariant
                n == calls@.len(),
                i <= n,
                none_outputs@.len() == i,
                forall|j: int| 0 <= j < i ==> (#[trigger] none_outputs@[j]) is None,
            decreases n - i,
        {
            none_outputs.push(None);
            i += 1;
        }
        let results = self.execute_tool_calls_hosted(calls, fs, &none_outputs);
        proof {
            let tr = choose|tr: Seq<Seq<(Seq<char>, Seq<char>)>>|
                spec_hosted_trace(
                    tr,
                    calls@,
                    none_outputs.deep_view(),
                    results@,
                    old(fs).entries(),
                    fs.entries(),
                );
            assert forall|j: int| 0 <= j < calls@.len() implies #[trigger] spec_batch_step(
                &calls@[j],
                tr[j],
                tr[j + 1],
                results@[j].output@,
            ) by {
                assert(none_outputs.deep_view()[j] == none_outputs@[j].deep_view());
                assert(spec_hosted_step(
                    &calls@[j],
                    none_outputs.deep_view()[j],
                    tr[j],
                    tr[j + 1],
                    results@[j].output@,
                ));
            }
            assert(spec_batch_trace(tr, calls@, results@, old(fs).entries(), fs.entries()));
        }
        results
    }

    /// Drive one task to its answer. The executor consumes one model
    /// response per round: if the first response carries no tool calls its
    /// text is the answer; otherwise each round executes the requested
    /// batch and takes the next response, a structured verdict ends the
    /// task with its summary, a drained round with an empty answer asks
    /// for one final summary, and the round cap forces completion with a
    /// diagnostic in front of whatever answer is at hand. The extra
    /// summary round happens only when the drained answer is empty: a
    /// drained round that carries text is itself the answer, and asking
    /// again would discard it. Running out of responses is the transport
    /// failing: a network error, no fabricated answer.
    pub fn execute(&mut self, responses: &Vec<ApiResponse>, fs: &mut FileStore) -> (r: Result<
        String,
        AgentError,
    >)
        requires
            old(fs).wf(),
        ensures
            final(fs).wf(),
            final(self).tool_definitions == old(self).tool_definitions,
            final(self).working_directory == old(self).working_directory,
            old(self).conversation@.is_prefix_of(final(self).conversation@),
            match r {
                Ok(ans) => spec_executor_answer(responses@) == Some(ans@),
                Err(_) => spec_executor_answer(responses@) is None,
            },
            spec_batches_evolve(
                responses@,
                spec_executor_rounds(responses@),
                old(fs).entries(),
                final(fs).entries(),
            ),
            responses@.len() == 0 ==> r is Err,
            (responses@.len() >= 1 && responses@[0].tool_calls is None) ==> (r matches Ok(ans)
                && ans@ == responses@[0].content@),
            (responses@.len() >= 1 && responses@[0].tool_calls is None) ==> ({
                let c = final(self).conversation@;
                c.len() == old(self).conversation@.len() + 1 && c.last().role is Assistant
                    && c.last().content@ == responses@[0].content@
            }),
            (responses@.len() >= 2 && responses@[0].tool_calls is Some
                && responses@[1].tool_calls is None && spec_processed(
                responses@[1].content@,
            ).0.len() > 0) ==> (r matches Ok(ans) && ans@ == spec_processed(
                responses@[1].content@,
            ).0),
            (responses@.len() > MAX_LOOPS && (forall|i: int|
                0 <= i <= MAX_LOOPS ==> (#[trigger] responses@[i]).tool_calls is Some) && (
            forall|i: int|
                1 <= i <= MAX_LOOPS ==> !spec_processed(
                    (#[trigger] responses@[i]).content@,
                ).1)) ==> (r matches Ok(ans) && ans@ == spec_forced_answer(
                spec_processed(responses@[MAX_LOOPS as int].content@).0,
            )),
    {
        if responses.len() == 0 {
            return Err(
                AgentError::Network { message: "The model returned no response".to_owned() },
            );
        }
        let content0 = responses[0].content.clone();
        match &responses[0].tool_calls {
            None => {
                self.conversation.push(Message::assistant(content0.clone()));
                return Ok(content0);
            },
            Some(_) => {},
        }
        add_assistant_message_to_conversation(
            &mut self.conversation,
            &responses[0].content,
            &responses[0].tool_calls,
        );
        let mut current_content = content0;
        let mut k: usize = 1;
        let mut loop_count: usize = 0;
        loop
            invariant
                fs.wf(),
                self.tool_definitions == old(self).tool_definitions,
                self.working_directory == old(self).working_directory,
                old(self).conversation@.is_prefix_of(self.conversation@),
                1 <= k <= responses@.len(),
                loop_count == k - 1,
                loop_count <= MAX_LOOPS,
                k == 1 ==> current_content@ == responses@[0].content@,
                k >= 2 ==> current_content@ == spec_processed(responses@[k - 1].content@).0,
                forall|i: int|
                    1 <= i < k ==> !spec_processed((#[trigger] responses@[i]).content@).1,
                forall|i: int| 0 <= i < k ==> (#[trigger] responses@[i]).tool_calls is Some,
                spec_rounds(responses@, k as int, current_content@) == spec_executor_answer(
                    responses@,
                ),
                spec_rounds_used(responses@, k as int) == spec_executor_rounds(responses@),
                spec_batches_evolve(
                    responses@,
                    loop_count as int,
                    old(fs).entries(),
                    fs.entries(),
                ),
            decreases responses@.len() - k,
        {
            loop_count += 1;
            if loop_count > MAX_LOOPS {
                let answer = forced_answer(current_content.as_str());
                self.conversation.push(Message::assistant(answer.clone()));
                return Ok(answer);
            }
            let ghost e_before = fs.entries();
            let _tool_results = match &responses[k - 1].tool_calls {
                Some(batch) => {
                    let results = self.execute_tool_calls(batch, fs);
                    proof {
                        assert(spec_batch_for_response(
                            &responses@[k - 1],
                            e_before,
                            fs.entries(),
                        ));
                    }
                    results
                },
                None => {
                    proof {
                        assert(false);
                    }
                    Vec::new()
                },
            };
            proof {
                assert(spec_batches_evolve(
                    responses@,
                    loop_count as int,
                    old(fs).entries(),
                    fs.entries(),
                ));
            }
            if k >= responses.len() {
                return Err(
                    AgentError::Network {
                        message: "The model returned no response".to_owned(),
                    },
                );
            }
            let (processed, complete) = process_response(responses[k].content.as_str());
            current_content = processed;
            let next_has_calls = matches!(&responses[k].tool_calls, Some(_));
            k += 1;
            if complete {
                self.conversation.push(Message::assistant(current_content.clone()));
                return Ok(current_content);
            }
            if !next_has_calls {
                if current_content.as_str().is_empty() {
                    if k >= responses.len() {
                        return Err(
                            AgentError::Network {
                                message: "The model returned no response".to_owned(),
                            },
                        );
                    }
                    let (summary, _c) = process_response(responses[k].content.as_str());
                    current_content = summary;
                }
                self.conversation.push(Message::assistant(current_content.clone()));
                return Ok(current_content);
            }
        }
    }
}

/// How one history message relates to the stored one: a system message
/// that names no working directory gets the recorded one appended; every
/// other message is kept as it is.
pub open spec fn spec_wd_applied(m: Message, m2: Message, wd: Option<String>) -> bool {
    if m.role is System && wd is Some && !contains_seq(m.content@, wd_marker_spec()) {
        m2.role == m.role && m2.content@ == spec_with_working_directory(m.content@, wd->0@)
    } else {
        m2 == m
    }
}

/// The messages of a conversation that are not system messages, in order.
pub open spec fn spec_non_system(msgs: Seq<Message>) -> Seq<Message>
    decreases msgs.len(),
{
    if msgs.len() == 0 {
        Seq::empty()
    } else {
        spec_non_system(msgs.drop_last()) + if msgs.last().role is System {
            Seq::empty()
        } else {
            seq![msgs.last()]
        }
    }
}

} // verus!
