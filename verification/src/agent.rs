//! The conversation state machine: it owns the append-only history, decides
//! what each model response means, detects termination, and accounts for the
//! one extra restatement call that closes a conversation. The caller performs
//! the model calls and the commands' outside work, and feeds the results back.

use vstd::prelude::*;

verus! {

use vstd::string::StringExecFns;
use crate::repl::{Command, SpecCommand, parse_spec};

/// Who produced a turn of the conversation.
#[derive(Debug, PartialEq, Eq, Structural)]
pub enum Role {
    User,
    Assistant,
}

/// One turn of the conversation.
pub struct ChatMessage {
    pub role: Role,
    pub text: String,
}

/// Where a conversation stands: waiting for the model's next command,
/// waiting for the closing restatement call, or finished.
#[derive(Debug, PartialEq, Eq, Structural)]
pub enum LoopState {
    AwaitingModel,
    Restating,
    Terminated,
}

/// What the caller must do after recording a model response: issue the one
/// closing restatement call for a terminal answer, or dispatch the parsed
/// command and feed its text back as the next prompt.
pub enum TurnOutcome {
    Restate { message: String },
    Dispatch { command: Command },
}

/// The fixed text put before the task description in the seed prompt.
pub open spec fn seed_prefix() -> Seq<char> {
    "Think step-by-step on what to do using the REPL environment (which contains the context) to answer the original query: \""@
}

/// The fixed text put after the task description in the seed prompt.
pub open spec fn seed_suffix() -> Seq<char> {
    "\".\n\nContinue using the REPL environment, which has the context variable, and querying sub-LLMs by writing to repl tags, and determine your answer. Your next action:"@
}

/// The fixed text put before a terminal answer in the restatement prompt.
pub open spec fn restate_prefix() -> Seq<char> {
    "Please send a message to the user in regular text format using the following output:\n\n"@
}

/// The first prompt of a conversation: the task description embedded in the
/// instructions on the protocol.
pub fn seed_prompt(task: &str) -> (r: String)
    ensures
        r@ == seed_prefix() + task@ + seed_suffix(),
{
    let r = String::from_str(
        "Think step-by-step on what to do using the REPL environment (which contains the context) to answer the original query: \"",
    ).concat(task).concat(
        "\".\n\nContinue using the REPL environment, which has the context variable, and querying sub-LLMs by writing to repl tags, and determine your answer. Your next action:",
    );
    r
}

/// The closing restatement request embedding a terminal answer.
pub fn restatement_prompt(message: &str) -> (r: String)
    ensures
        r@ == restate_prefix() + message@,
{
    String::from_str(
        "Please send a message to the user in regular text format using the following output:\n\n",
    ).concat(message)
}

/// One conversation: its append-only history and its state. History is never
/// reordered or truncated during a session.
pub struct AgentSession {
    pub history: Vec<ChatMessage>,
    pub state: LoopState,
}

impl AgentSession {
    /// Two history entries per completed turn: each turn appends the prompt
    /// as a user message and the raw response as an assistant message, user
    /// and assistant strictly alternating.
    pub open spec fn wf(&self) -> bool {
        &&& self.history@.len() % 2 == 0
        &&& forall|i: int|
            0 <= i < self.history@.len() ==> ((#[trigger] self.history@[i].role) is User <==> i % 2
                == 0)
    }

    /// How many turns the loop has completed.
    pub open spec fn turn_count(&self) -> nat {
        self.history@.len() / 2
    }

    /// A fresh conversation: empty history, waiting for the model.
    pub fn new() -> (r: AgentSession)
        ensures
            r.wf(),
            r.history@.len() == 0,
            r.state is AwaitingModel,
    {
        AgentSession { history: Vec::new(), state: LoopState::AwaitingModel }
    }

    /// Record one completed model call: append the prompt as a user turn and
    /// the raw response as an assistant turn, then classify the response. A
    /// terminal answer moves the session to the restating state, where
    /// exactly one further model call is owed; anything else leaves the
    /// session awaiting the model, and the caller dispatches the command.
    pub fn record_turn(&mut self, prompt: String, response: String) -> (r: TurnOutcome)
        requires
            old(self).wf(),
            old(self).state is AwaitingModel,
        ensures
            final(self).wf(),
            final(self).turn_count() == old(self).turn_count() + 1,
            final(self).history@.len() == old(self).history@.len() + 2,
            final(self).history@.subrange(0, old(self).history@.len() as int) == old(self).history@,
            final(self).history@[old(self).history@.len() as int].role is User,
            final(self).history@[old(self).history@.len() as int].text@ == prompt@,
            final(self).history@[old(self).history@.len() as int + 1].role is Assistant,
            final(self).history@[old(self).history@.len() as int + 1].text@ == response@,
            match r {
                TurnOutcome::Restate { message } => {
                    &&& parse_spec(response@) == (SpecCommand::Final { message: message@ })
                    &&& final(self).state is Restating
                },
                TurnOutcome::Dispatch { command } => {
                    &&& !(parse_spec(response@) is Final)
                    &&& command@ == parse_spec(response@)
                    &&& final(self).state is AwaitingModel
                },
            },
    {
        let parsed = Command::parse(response.as_str());
        let ghost before = self.history@;
        self.history.push(ChatMessage { role: Role::User, text: prompt });
        self.history.push(ChatMessage { role: Role::Assistant, text: response });
        proof {
            assert(self.history@.subrange(0, before.len() as int) =~= before);
        }
        match parsed {
            Command::Final(message) => {
                self.state = LoopState::Restating;
                TurnOutcome::Restate { message }
            },
            other => TurnOutcome::Dispatch { command: other },
        }
    }

    /// Consume the response of the one closing restatement call: the session
    /// terminates, the history stands unchanged, and the response is the
    /// conversation's overall result.
    pub fn finish(&mut self, restatement_response: String) -> (r: String)
        requires
            old(self).wf(),
            old(self).state is Restating,
        ensures
            final(self).wf(),
            final(self).state is Terminated,
            final(self).history@ == old(self).history@,
            final(self).turn_count() == old(self).turn_count(),
            r@ == restatement_response@,
    {
        self.state = LoopState::Terminated;
        restatement_response
    }

    /// Law: the history a well-formed session hands to any model call —
    /// the one restatement call included — holds exactly two messages for
    /// every completed turn.
    pub proof fn lemma_history_tracks_turns(&self)
        requires
            self.wf(),
        ensures
            self.history@.len() == 2 * self.turn_count(),
    {
    }
}

} // verus!
