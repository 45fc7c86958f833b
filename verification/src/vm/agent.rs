//! Agent bookkeeping: execution states, token budgets, and the decisions of the
//! Observe→Think→Act loop.

use vstd::prelude::*;
use crate::stdlib::text::{decimal, owned, push_decimal, push_str, same_text};

verus! {

broadcast use vstd::string::group_string_axioms;

/// Agent execution state.
#[derive(Debug, Clone, Copy, PartialEq, Eq, Structural)]
pub enum AgentState {
    /// Agent is idle, waiting for a task
    Idle,
    /// Agent is observing context (gathering memory/tool output)
    Observing,
    /// Agent is thinking (running model inference)
    Thinking,
    /// Agent is acting (dispatching tool calls)
    Acting,
    /// Agent is waiting on external input
    Waiting,
    /// Agent has completed its task
    Done,
    /// Agent encountered an error
    Error,
}

impl AgentState {
    /// The lowercase name of the state.
    pub open spec fn label(self) -> Seq<char> {
        match self {
            AgentState::Idle => "idle"@,
            AgentState::Observing => "observing"@,
            AgentState::Thinking => "thinking"@,
            AgentState::Acting => "acting"@,
            AgentState::Waiting => "waiting"@,
            AgentState::Done => "done"@,
            AgentState::Error => "error"@,
        }
    }

    /// The lowercase name of the state ("idle", "observing", ...).
    pub fn to_string(&self) -> (r: String)
        ensures
            r@ == self.label(),
    {
        match self {
            AgentState::Idle => owned("idle"),
            AgentState::Observing => owned("observing"),
            AgentState::Thinking => owned("thinking"),
            AgentState::Acting => owned("acting"),
            AgentState::Waiting => owned("waiting"),
            AgentState::Done => owned("done"),
            AgentState::Error => owned("error"),
        }
    }

    /// Whether the agent has stopped for good (done or failed).
    pub open spec fn is_final(self) -> bool {
        self == AgentState::Done || self == AgentState::Error
    }
}

/// Token budget tracker.
#[derive(Debug, Clone)]
pub struct TokenBudget {
    /// Maximum total tokens allowed
    pub max_tokens: usize,
    /// Tokens consumed so far
    pub used_tokens: usize,
}

impl TokenBudget {
    /// Tokens still available (none once the limit is reached or passed).
    pub open spec fn remaining_spec(self) -> nat {
        if self.used_tokens <= self.max_tokens {
            (self.max_tokens - self.used_tokens) as nat
        } else {
            0
        }
    }

    /// Whether the limit has been reached.
    pub open spec fn exhausted_spec(self) -> bool {
        self.used_tokens >= self.max_tokens
    }

    /// A fresh budget of `max_tokens` with nothing used.
    pub fn new(max_tokens: usize) -> (r: Self)
        ensures
            r.max_tokens == max_tokens,
            r.used_tokens == 0,
    {
        TokenBudget { max_tokens, used_tokens: 0 }
    }

    /// Tokens still available.
    pub fn remaining(&self) -> (r: usize)
        ensures
            r == self.remaining_spec(),
    {
        if self.used_tokens <= self.max_tokens {
            self.max_tokens - self.used_tokens
        } else {
            0
        }
    }

    /// Use `tokens` if they fit within the limit; report whether they did. A budget
    /// within its limit stays within it, and the call succeeds exactly when the
    /// remaining tokens cover the request. (The sum `used + tokens` must fit in a
    /// `usize`; the addition panics on overflow.)
    pub fn consume(&mut self, tokens: usize) -> (r: bool)
        requires
            old(self).used_tokens + tokens <= usize::MAX,
        ensures
            r == (old(self).used_tokens + tokens <= old(self).max_tokens),
            final(self).max_tokens == old(self).max_tokens,
            final(self).used_tokens == if r {
                old(self).used_tokens + tokens
            } else {
                old(self).used_tokens as int
            },
            old(self).used_tokens <= old(self).max_tokens ==> final(self).used_tokens
                <= final(self).max_tokens && r == (tokens <= old(self).remaining_spec()),
    {
        if self.used_tokens + tokens <= self.max_tokens {
            self.used_tokens = self.used_tokens + tokens;
            true
        } else {
            false
        }
    }

    /// Whether the limit has been reached.
    pub fn is_exhausted(&self) -> (r: bool)
        ensures
            r == self.exhausted_spec(),
    {
        self.used_tokens >= self.max_tokens
    }
}

/// A budget is exhausted exactly when no tokens remain.
pub proof fn lemma_exhausted_iff_nothing_remains(b: TokenBudget)
    ensures
        b.exhausted_spec() <==> b.remaining_spec() == 0,
{
}

/// What one step of the Observe→Think→Act loop does before observing.
#[derive(Debug, Clone, Copy, PartialEq, Eq, Structural)]
pub enum StepGate {
    /// The agent has already stopped; the step changes nothing.
    Stopped,
    /// The step limit is reached; the agent becomes `Done`.
    MaxStepsReached,
    /// The token budget is exhausted; the agent becomes `Done`.
    BudgetExhausted,
    /// The step proceeds through observe, think and act.
    Proceed,
}

/// Decide whether a step runs: a stopped agent stays as it is, then the step limit and
/// then the token budget can end the run.
pub fn step_gate(state: AgentState, step_count: usize, max_steps: usize, budget: &TokenBudget) -> (r:
    StepGate)
    ensures
        r == if state.is_final() {
            StepGate::Stopped
        } else if step_count >= max_steps {
            StepGate::MaxStepsReached
        } else if budget.exhausted_spec() {
            StepGate::BudgetExhausted
        } else {
            StepGate::Proceed
        },
{
    if state == AgentState::Done || state == AgentState::Error {
        StepGate::Stopped
    } else if step_count >= max_steps {
        StepGate::MaxStepsReached
    } else if budget.is_exhausted() {
        StepGate::BudgetExhausted
    } else {
        StepGate::Proceed
    }
}

/// The state after acting: `Done` for the action "done" or an empty action, `Idle`
/// otherwise.
pub fn state_after_action(action: &str) -> (r: AgentState)
    ensures
        r == if action@ == "done"@ || action@.len() == 0 {
            AgentState::Done
        } else {
            AgentState::Idle
        },
{
    if same_text(action, "done") || action.is_empty() {
        AgentState::Done
    } else {
        AgentState::Idle
    }
}

/// The result an agent records when it finishes: `Agent '<name>' completed in <n> steps`.
pub fn completion_message(name: &str, steps: usize) -> (r: String)
    ensures
        r@ == "Agent '"@ + name@ + "' completed in "@ + decimal(steps as nat) + " steps"@,
{
    let mut r = String::new();
    push_str(&mut r, "Agent '");
    push_str(&mut r, name);
    push_str(&mut r, "' completed in ");
    push_decimal(&mut r, steps as u64);
    push_str(&mut r, " steps");
    assert(r@ =~= "Agent '"@ + name@ + "' completed in "@ + decimal(steps as nat) + " steps"@);
    r
}

/// The status summary:
/// `Agent '<name>': state=<state>, steps=<n>/<max>, tokens=<used>/<limit>`.
pub fn status_line(name: &str, state: AgentState, steps: usize, max_steps: usize, budget: &TokenBudget) -> (r:
    String)
    ensures
        r@ == "Agent '"@ + name@ + "': state="@ + state.label() + ", steps="@ + decimal(steps as nat)
            + "/"@ + decimal(max_steps as nat) + ", tokens="@ + decimal(budget.used_tokens as nat)
            + "/"@ + decimal(budget.max_tokens as nat),
{
    let mut r = String::new();
    push_str(&mut r, "Agent '");
    push_str(&mut r, name);
    push_str(&mut r, "': state=");
    let st = state.to_string();
    push_str(&mut r, st.as_str());
    push_str(&mut r, ", steps=");
    push_decimal(&mut r, steps as u64);
    push_str(&mut r, "/");
    push_decimal(&mut r, max_steps as u64);
    push_str(&mut r, ", tokens=");
    push_decimal(&mut r, budget.used_tokens as u64);
    push_str(&mut r, "/");
    push_decimal(&mut r, budget.max_tokens as u64);
    assert(r@ =~= "Agent '"@ + name@ + "': state="@ + state.label() + ", steps="@ + decimal(
        steps as nat,
    ) + "/"@ + decimal(max_steps as nat) + ", tokens="@ + decimal(budget.used_tokens as nat) + "/"@
        + decimal(budget.max_tokens as nat));
    r
}

} // verus!
