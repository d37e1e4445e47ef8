use std::time::Duration;

use vstd::prelude::*;

use crate::text::{decimal, push_decimal, push_decimal_u128, push_str, string_from};

verus! {

/// Limits that a command run must respect: a deadline and a byte budget for
/// stdout and stderr together.
#[derive(Clone, Copy, Debug)]
pub struct CommandPolicy {
    timeout: Duration,
    max_output_bytes: usize,
}

impl CommandPolicy {
    pub fn new(timeout: Duration, max_output_bytes: usize) -> (r: Self)
        ensures
            r.max_output_bytes() == max_output_bytes,
            r.deadline() == timeout,
    {
        CommandPolicy { timeout, max_output_bytes }
    }

    pub closed spec fn max_output_bytes(self) -> usize {
        self.max_output_bytes
    }

    pub closed spec fn deadline(self) -> Duration {
        self.timeout
    }

    /// The byte budget for stdout and stderr together.
    pub fn output_limit(&self) -> (r: usize)
        ensures
            r == self.max_output_bytes(),
    {
        self.max_output_bytes
    }

    /// How long the command may run.
    pub fn timeout(&self) -> (r: Duration)
        ensures
            r == self.deadline(),
    {
        self.timeout
    }
}

/// What a finished command printed, and whether it exited successfully.
pub struct CommandOutput {
    pub success: bool,
    pub stdout: Vec<u8>,
    pub stderr: Vec<u8>,
}

/// The message of a command whose output went over `limit` bytes.
pub open spec fn output_exceeded_message(limit: nat) -> Seq<char> {
    "Command output exceeded "@ + decimal(limit) + " bytes"@
}

/// Total number of bytes that `output` holds.
pub open spec fn output_bytes(output: CommandOutput) -> nat {
    output.stdout@.len() + output.stderr@.len()
}

/// Keeps `output` when it fits in the policy's byte budget, and refuses it otherwise.
pub fn enforce_output_budget(output: CommandOutput, policy: CommandPolicy) -> (r: Result<
    CommandOutput,
    String,
>)
    ensures
        output_bytes(output) <= policy.max_output_bytes() ==> r == Ok::<CommandOutput, String>(
            output,
        ),
        output_bytes(output) > policy.max_output_bytes() ==> r is Err && r->Err_0@
            == output_exceeded_message(policy.max_output_bytes() as nat),
{
    let limit = policy.output_limit();
    if output.stdout.len() > limit || output.stderr.len() > limit - output.stdout.len() {
        return Err(output_exceeded(limit));
    }
    Ok(output)
}

/// `output_exceeded_message` of `limit`.
pub fn output_exceeded(limit: usize) -> (r: String)
    ensures
        r@ == output_exceeded_message(limit as nat),
{
    let mut message = string_from("Command output exceeded ");
    push_decimal(&mut message, limit as u64);
    push_str(&mut message, " bytes");
    message
}

/// The whole milliseconds that `Duration::as_millis` gives of `d`.
pub uninterp spec fn millis_of(d: Duration) -> u128;

/// `Duration::as_millis`: the whole milliseconds in `d`.
#[verifier::external_body]
fn duration_millis(d: Duration) -> (r: u128)
    ensures
        r == millis_of(d),
{
    d.as_millis()
}

/// The message of a command stopped at its deadline of `ms` milliseconds.
pub open spec fn timed_out_message(ms: nat, program: Seq<char>) -> Seq<char> {
    "Command timed out after "@ + decimal(ms) + " ms: "@ + program
}

/// What a runner waiting on a command does next.
#[derive(Debug, PartialEq, Eq)]
pub enum CommandWait {
    /// The command exited: collect what it printed.
    Collect,
    /// Keep waiting.
    Wait,
    /// Kill the command and fail with this message: its output went over the budget.
    KillOverBudget(String),
    /// Kill the command and fail with this message: its deadline passed.
    KillTimedOut(String),
}

/// One look at a running command under `policy`: whether it has exited, how
/// many bytes it printed so far, and how long it has run. An exit wins; then
/// output over the budget; then a deadline reached; otherwise the runner waits.
pub fn command_wait_step(
    exited: bool,
    used_bytes: usize,
    elapsed_ms: u64,
    policy: CommandPolicy,
    program: &str,
) -> (r: CommandWait)
    ensures
        exited ==> r == CommandWait::Collect,
        !exited && used_bytes > policy.max_output_bytes() ==> (r matches CommandWait::KillOverBudget(
            m,
        ) && m@ == output_exceeded_message(policy.max_output_bytes() as nat)),
        !exited && used_bytes <= policy.max_output_bytes() && elapsed_ms >= millis_of(
            policy.deadline(),
        ) ==> (r matches CommandWait::KillTimedOut(m) && m@ == timed_out_message(
            millis_of(policy.deadline()) as nat,
            program@,
        )),
        !exited && used_bytes <= policy.max_output_bytes() && elapsed_ms < millis_of(
            policy.deadline(),
        ) ==> r == CommandWait::Wait,
{
    if exited {
        return CommandWait::Collect;
    }
    let limit = policy.output_limit();
    if used_bytes > limit {
        return CommandWait::KillOverBudget(output_exceeded(limit));
    }
    let deadline = duration_millis(policy.timeout());
    if elapsed_ms as u128 >= deadline {
        let mut message = string_from("Command timed out after ");
        push_decimal_u128(&mut message, deadline);
        push_str(&mut message, " ms: ");
        push_str(&mut message, program);
        return CommandWait::KillTimedOut(message);
    }
    CommandWait::Wait
}

/// Runs external programs. Implementations decide how a program is started;
/// `output_with_policy` must not hand back more bytes than the policy allows.
pub trait CommandRunner: Send + Sync {
    /// Runs `program` with `args` and collects what it printed.
    fn output(&self, program: &str, args: &[String]) -> Result<CommandOutput, String>;

    /// Runs `program` under `policy`. The default runs it through `output` and
    /// refuses a result that is over the byte budget.
    fn output_with_policy(&self, program: &str, args: &[String], policy: CommandPolicy) -> (r:
        Result<CommandOutput, String>)
        ensures
            r matches Ok(o) ==> output_bytes(o) <= policy.max_output_bytes(),
    {
        let output = self.output(program, args)?;
        enforce_output_budget(output, policy)
    }
}

} // verus!
