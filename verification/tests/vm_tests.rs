use a16::vm::agent::{completion_message, state_after_action, status_line, step_gate, AgentState, StepGate, TokenBudget};
use a16::vm::error::VMError;
use a16::vm::tool_registry::{
    builtin_clock, builtin_echo, first_missing_permission, permission_denied, user_tool_result, Permission,
    RateLimiter,
};

#[test]
fn agent_state_labels() {
    assert_eq!(AgentState::Idle.to_string(), "idle");
    assert_eq!(AgentState::Observing.to_string(), "observing");
    assert_eq!(AgentState::Done.to_string(), "done");
    assert_eq!(AgentState::Error.to_string(), "error");
}

#[test]
fn token_budget_consumes_within_limit() {
    let mut b = TokenBudget::new(100);
    assert_eq!(b.remaining(), 100);
    assert!(b.consume(60));
    assert_eq!(b.remaining(), 40);
    assert!(!b.consume(41));
    assert_eq!(b.used_tokens, 60);
    assert!(b.consume(40));
    assert_eq!(b.remaining(), 0);
    assert!(b.is_exhausted());
    assert!(!b.consume(1));
    let zero = TokenBudget::new(0);
    assert!(zero.is_exhausted());
}

#[test]
fn step_gate_order() {
    let fresh = TokenBudget::new(10);
    let mut spent = TokenBudget::new(10);
    spent.consume(10);
    assert_eq!(step_gate(AgentState::Done, 0, 5, &fresh), StepGate::Stopped);
    assert_eq!(step_gate(AgentState::Error, 9, 5, &spent), StepGate::Stopped);
    assert_eq!(step_gate(AgentState::Idle, 5, 5, &spent), StepGate::MaxStepsReached);
    assert_eq!(step_gate(AgentState::Idle, 4, 5, &spent), StepGate::BudgetExhausted);
    assert_eq!(step_gate(AgentState::Thinking, 4, 5, &fresh), StepGate::Proceed);
}

#[test]
fn actions_and_messages() {
    assert_eq!(state_after_action("done"), AgentState::Done);
    assert_eq!(state_after_action(""), AgentState::Done);
    assert_eq!(state_after_action("search"), AgentState::Idle);
    assert_eq!(completion_message("helper", 3), "Agent 'helper' completed in 3 steps");
    let mut b = TokenBudget::new(500);
    b.consume(120);
    assert_eq!(
        status_line("helper", AgentState::Acting, 2, 10, &b),
        "Agent 'helper': state=acting, steps=2/10, tokens=120/500"
    );
}

#[test]
fn vm_error_messages() {
    assert_eq!(VMError::StackUnderflow.to_string(), "Stack underflow");
    assert_eq!(VMError::InvalidOpcode(0xAB).to_string(), "Invalid opcode: 0xAB");
    assert_eq!(VMError::InvalidOpcode(7).to_string(), "Invalid opcode: 0x07");
    assert_eq!(VMError::TypeError("bad".to_string()).to_string(), "Type error: bad");
    assert_eq!(VMError::UndefinedVariable("x".to_string()).to_string(), "Undefined variable: x");
    assert_eq!(
        VMError::WrongArgCount { expected: 2, got: 1 }.to_string(),
        "Wrong number of arguments: expected 2, got 1"
    );
}

#[test]
fn permission_checks() {
    assert_eq!(Permission::FileRead.to_string(), "file_read");
    let required = [Permission::Network, Permission::FileWrite, Permission::Execute];
    let granted = [Permission::Network, Permission::Execute];
    assert_eq!(first_missing_permission(&required, &granted), Some(Permission::FileWrite));
    assert_eq!(first_missing_permission(&required[..1], &granted), None);
    assert_eq!(first_missing_permission(&[], &[]), None);
    let denied = permission_denied("fetch", Permission::Network);
    assert!(!denied.success);
    assert_eq!(denied.tool_name, "fetch");
    assert_eq!(denied.output, "");
    assert_eq!(denied.error.unwrap(), "Permission 'network' not granted for tool 'fetch'");
}

#[test]
fn tool_results() {
    let r = user_tool_result("calc", "add");
    assert!(r.success);
    assert_eq!(r.output, "[user_tool:add]");
    let e = builtin_echo(&["hello".to_string(), "world".to_string()]);
    assert_eq!(e.tool_name, "echo");
    assert_eq!(e.output, "hello world");
    let c = builtin_clock(&[]);
    assert_eq!(c.tool_name, "clock");
    assert!(c.output.parse::<u64>().unwrap() > 1_600_000_000);
}

#[test]
fn rate_limiter_counts_calls() {
    let mut rl = RateLimiter::new(2);
    assert!(rl.try_acquire());
    assert!(rl.try_acquire());
    assert!(!rl.try_acquire());
    let mut un = RateLimiter::unlimited();
    for _ in 0..100 {
        assert!(un.try_acquire());
    }
    let mut none = RateLimiter::new(0);
    assert!(!none.try_acquire());
}

#[test]
fn rate_limiter_grants_the_first_calls_of_a_window() {
    let now = std::time::Instant::now();
    let mut rl = RateLimiter::new(2);
    assert!(rl.acquire_at(now, None));
    assert!(rl.acquire_at(now, Some(1)));
    assert!(!rl.acquire_at(now, Some(30)));
    assert!(!rl.acquire_at(now, Some(59)));
    // A window of 60 seconds has passed: the count starts again.
    assert!(rl.acquire_at(now, Some(60)));
    assert!(rl.acquire_at(now, Some(3)));
    assert!(!rl.acquire_at(now, Some(4)));
    let mut none = RateLimiter::new(0);
    assert!(!none.acquire_at(now, None));
}
