//! What is to be run, and what is made of how it ended.
//!
//! Nothing is spawned here. The caller lists the suggestions, asks the user
//! where it is told to, spawns what the plan names and reports back how the
//! process ended.

use vstd::prelude::*;
use vstd::string::*;
use crate::model::{pairs, sugg, AssistError, ExecConfig, Fault, Suggestion};
use crate::text::{contains, has_infix, has_prefix, same_text, starts_with, strip, texts, trimmed};
use crate::validate::{is_safe, outcome, validate, verdict};

verus! {

/// The command fetches packages: an install or an upgrade.
pub open spec fn needs_network(cmd: Seq<char>) -> bool {
    has_infix(cmd, " pacman -S"@) || has_infix(cmd, " pacman -Syu"@) || has_infix(cmd, "paru -S"@)
        || has_prefix(cmd, "pacman -S"@) || has_prefix(cmd, "paru -S"@) || has_prefix(
        cmd,
        "sudo pacman -S"@,
    )
}

/// What the offline policy answers for a command: offline, a command that
/// fetches packages is unsafe.
pub open spec fn offline_verdict(cmd: Seq<char>, c: ExecConfig) -> Result<(), Fault> {
    if c.offline && needs_network(cmd) {
        Err(Fault::Unsafe("offline mode: blocked network command: "@ + cmd))
    } else {
        Ok(())
    }
}

/// Holds a suggestion to the offline policy.
pub fn ensure_offline_ok(suggestion: &Suggestion, config: &ExecConfig) -> (r: Result<
    (),
    AssistError,
>)
    ensures
        outcome(r) == offline_verdict(suggestion.cmd@, *config),
        !config.offline ==> r is Ok,
{
    if !config.offline {
        return Ok(());
    }
    let cmd: &str = suggestion.cmd.as_str();
    let is_pkg_op: bool = contains(cmd, " pacman -S") || contains(cmd, " pacman -Syu") || contains(
        cmd,
        "paru -S",
    ) || starts_with(cmd, "pacman -S") || starts_with(cmd, "paru -S") || starts_with(
        cmd,
        "sudo pacman -S",
    );
    if is_pkg_op {
        return Err(
            AssistError::Unsafe(
                String::from_str("offline mode: blocked network command: ").concat(cmd),
            ),
        );
    }
    Ok(())
}

/// What stands between a suggestion and its execution: the offline policy,
/// then the validator.
pub open spec fn clearance(cmd: Seq<char>, c: ExecConfig) -> Result<(), Fault> {
    match offline_verdict(cmd, c) {
        Err(f) => Err(f),
        Ok(_) => verdict(cmd),
    }
}

/// Clears a suggestion for execution. What is cleared is safe.
pub fn clear_for_run(suggestion: &Suggestion, config: &ExecConfig) -> (r: Result<(), AssistError>)
    ensures
        outcome(r) == clearance(suggestion.cmd@, *config),
        r is Ok ==> is_safe(suggestion.cmd@),
{
    match ensure_offline_ok(suggestion, config) {
        Err(e) => Err(e),
        Ok(_) => validate(suggestion.cmd.as_str()),
    }
}

/// The replies that count as consent, once the spaces around them are gone.
/// Case matters: `Yes` is none of them.
pub open spec fn affirmative(reply: Seq<char>) -> bool {
    let t = trimmed(reply);
    t == "y"@ || t == "Y"@ || t == "yes"@ || t == "YES"@
}

/// Whether a reply is consent.
pub fn is_affirmative(reply: &str) -> (r: bool)
    ensures
        r == affirmative(reply@),
{
    let t: &str = strip(reply, false);
    same_text(t, "y") || same_text(t, "Y") || same_text(t, "yes") || same_text(t, "YES")
}

/// What follows the listing of a batch.
#[derive(Clone, Copy, Debug, PartialEq, Eq, Structural)]
pub enum BatchStep {
    /// Nothing is run.
    Stop,
    /// The user is to be asked.
    Ask,
    /// The batch is run.
    Execute,
}

/// After the listing: nothing is run unless asked for; the user is asked
/// unless consent was given beforehand.
pub open spec fn step_after_listing(c: ExecConfig) -> BatchStep {
    if !c.auto {
        BatchStep::Stop
    } else if c.yes {
        BatchStep::Execute
    } else {
        BatchStep::Ask
    }
}

/// What follows the listing of a batch.
pub fn after_listing(config: &ExecConfig) -> (r: BatchStep)
    ensures
        r == step_after_listing(*config),
{
    if !config.auto {
        BatchStep::Stop
    } else if config.yes {
        BatchStep::Execute
    } else {
        BatchStep::Ask
    }
}

/// Whether a batch is to be run, given the reply of a user who was asked.
pub open spec fn approved(c: ExecConfig, reply: Option<Seq<char>>) -> bool {
    c.auto && (c.yes || (reply matches Some(t) && affirmative(t)))
}

/// The commands of a batch that are to be attempted, in order: all of them
/// where the batch is approved, none where it is not. `reply` is what the
/// user answered, if the user was asked.
pub fn approved_batch(suggestions: &Vec<Suggestion>, config: &ExecConfig, reply: Option<&str>) -> (r:
    Vec<Suggestion>)
    ensures
        approved(*config, reply_text(reply)) ==> pairs(r@) == pairs(suggestions@),
        !approved(*config, reply_text(reply)) ==> r@.len() == 0,
{
    let mut out: Vec<Suggestion> = Vec::new();
    if !config.auto {
        return out;
    }
    let consent: bool = config.yes || match reply {
        Some(t) => is_affirmative(t),
        None => false,
    };
    if !consent {
        return out;
    }
    let mut k: usize = 0;
    assert(pairs(out@) =~= pairs(suggestions@).subrange(0, 0));
    while k < suggestions.len()
        invariant
            k <= suggestions.len(),
            pairs(out@) == pairs(suggestions@).subrange(0, k as int),
        decreases suggestions.len() - k,
    {
        let ghost before = pairs(out@);
        let s: Suggestion = Suggestion::new(suggestions[k].cmd.clone(), suggestions[k].reason);
        out.push(s);
        assert(pairs(out@) =~= before.push(suggestions@[k as int].pair()));
        assert(pairs(out@) =~= pairs(suggestions@).subrange(0, k + 1));
        k += 1;
    }
    assert(pairs(suggestions@).subrange(0, suggestions@.len() as int) =~= pairs(suggestions@));
    out
}

/// The text of a reply, if there is one.
pub open spec fn reply_text(reply: Option<&str>) -> Option<Seq<char>> {
    match reply {
        Some(t) => Some(t@),
        None => None,
    }
}

/// A batch that the user was asked about and did not consent to is dropped
/// whole: none of its commands is to be attempted.
pub proof fn law_declined_batch_is_empty(c: ExecConfig, reply: Seq<char>)
    requires
        c.auto,
        !c.yes,
        !affirmative(reply),
    ensures
        !approved(c, Some(reply)),
        step_after_listing(c) == BatchStep::Ask,
{
}

/// The words that a command line splits into by the quoting rules of a Unix
/// shell, or `None` where a quote is left open.
pub uninterp spec fn shell_words_of(s: Seq<char>) -> Option<Seq<Seq<char>>>;

#[verifier::external_type_specification]
#[verifier::external_body]
pub struct ExParseError(shell_words::ParseError);

/// Calls `shell_words::split`, which splits a command line into words with
/// quotes and escapes resolved, and fails where a quote is left open. The
/// result is a function of the text alone and carries the name
/// `shell_words_of`.
#[verifier::external_body]
fn shell_split(cmd: &str) -> (r: Result<Vec<String>, shell_words::ParseError>)
    ensures
        r is Ok <==> shell_words_of(cmd@) is Some,
        r matches Ok(v) ==> shell_words_of(cmd@) == Some(texts(v@)),
{
    shell_words::split(cmd)
}

/// Calls `to_string` on a `shell_words::ParseError`, that is the crate's
/// `Display` for it. The error has one text, which that impl writes: that a
/// closing quote is missing.
#[verifier::external_body]
fn parse_error_text(e: &shell_words::ParseError) -> (r: String)
    ensures
        r@ == "missing closing quote"@,
{
    e.to_string()
}

/// What splitting a command line gives: its words, or why it has none.
pub open spec fn split_result(cmd: Seq<char>) -> Result<Seq<Seq<char>>, Seq<char>> {
    match shell_words_of(cmd) {
        Some(ws) => Ok(ws),
        None => Err("missing closing quote"@),
    }
}

/// What is to be done with a cleared command.
#[derive(Debug)]
pub enum RunPlan {
    /// Nothing is spawned: the command was only to be shown.
    Skip,
    /// The program to spawn, followed by its arguments.
    Spawn(Vec<String>),
}

impl RunPlan {
    /// `None`: nothing is spawned. Else the program and its arguments.
    pub open spec fn argv(&self) -> Option<Seq<Seq<char>>> {
        match self {
            RunPlan::Skip => None,
            RunPlan::Spawn(v) => Some(texts(v@)),
        }
    }
}

/// The plan for a command that was split into `parts` (`Err`: it could not be
/// split, for the reason given). In a dry run nothing is spawned, whatever the
/// command. Else the command must split into a program and its arguments.
pub open spec fn plan(
    cmd: Seq<char>,
    c: ExecConfig,
    parts: Result<Seq<Seq<char>>, Seq<char>>,
) -> Result<Option<Seq<Seq<char>>>, Fault> {
    if c.dry_run {
        Ok(None)
    } else {
        match parts {
            Err(why) => Err(Fault::CommandFailed(cmd + " ("@ + why + ")"@)),
            Ok(ws) => if ws.len() == 0 {
                Err(Fault::CommandFailed(cmd))
            } else {
                Ok(Some(ws))
            },
        }
    }
}

/// What a planning result holds.
pub open spec fn plan_or_fault(r: Result<RunPlan, AssistError>) -> Result<
    Option<Seq<Seq<char>>>,
    Fault,
> {
    match r {
        Ok(p) => Ok(p.argv()),
        Err(e) => Err(e.fault()),
    }
}

/// What a splitting result holds.
pub open spec fn words_or_reason(parts: Result<Vec<String>, String>) -> Result<
    Seq<Seq<char>>,
    Seq<char>,
> {
    match parts {
        Ok(v) => Ok(texts(v@)),
        Err(why) => Err(why@),
    }
}

/// The plan for a command that was split into `parts`.
pub fn plan_from_words(cmd: &str, config: &ExecConfig, parts: Result<Vec<String>, String>) -> (r:
    Result<RunPlan, AssistError>)
    ensures
        plan_or_fault(r) == plan(cmd@, *config, words_or_reason(parts)),
{
    if config.dry_run {
        return Ok(RunPlan::Skip);
    }
    match parts {
        Err(why) => Err(
            AssistError::CommandFailed(
                String::from_str(cmd).concat(" (").concat(why.as_str()).concat(")"),
            ),
        ),
        Ok(v) => if v.len() == 0 {
            Err(AssistError::CommandFailed(String::from_str(cmd)))
        } else {
            Ok(RunPlan::Spawn(v))
        },
    }
}

/// The plan for a command: in a dry run nothing is spawned and the command
/// is not even split; else it is split as a shell would split it, without a
/// shell being run.
pub fn plan_run(cmd: &str, config: &ExecConfig) -> (r: Result<RunPlan, AssistError>)
    ensures
        plan_or_fault(r) == plan(cmd@, *config, split_result(cmd@)),
        config.dry_run ==> r matches Ok(RunPlan::Skip),
        r matches Ok(RunPlan::Spawn(argv)) ==> argv@.len() > 0,
{
    if config.dry_run {
        return Ok(RunPlan::Skip);
    }
    let parts: Result<Vec<String>, String> = match shell_split(cmd) {
        Ok(v) => Ok(v),
        Err(e) => Err(parse_error_text(&e)),
    };
    plan_from_words(cmd, config, parts)
}

/// What is to be done next about a batch.
#[derive(Debug)]
pub enum BatchAction {
    /// Every command of the batch has run.
    Done,
    /// The batch ends here with this error; nothing more is shown or run.
    Fail(AssistError),
    /// The next command was cleared but cannot be run: it is shown, and the
    /// batch ends with this error.
    Reject(AssistError),
    /// The next command is shown, and its plan is carried out.
    Run(RunPlan),
}

/// What is to be done next about a batch of which the first `done` commands
/// have run, the last attempt having ended as `failed` says.
pub enum NextStep {
    Done,
    Fail(Fault),
    Reject(Fault),
    Run(Option<Seq<Seq<char>>>),
}

impl BatchAction {
    /// The mathematical value of an action.
    pub open spec fn step(&self) -> NextStep {
        match self {
            BatchAction::Done => NextStep::Done,
            BatchAction::Fail(e) => NextStep::Fail(e.fault()),
            BatchAction::Reject(e) => NextStep::Reject(e.fault()),
            BatchAction::Run(p) => NextStep::Run(p.argv()),
        }
    }
}

/// The rule of a batch: a failure ends it, whatever is left; without one the
/// commands are taken in order, each cleared before it is planned, and the
/// batch is done when none is left.
pub open spec fn next_step(
    cmds: Seq<Seq<char>>,
    done: int,
    failed: Option<Fault>,
    c: ExecConfig,
) -> NextStep {
    match failed {
        Some(f) => NextStep::Fail(f),
        None => if done < 0 || done >= cmds.len() {
            NextStep::Done
        } else {
            match clearance(cmds[done], c) {
                Err(f) => NextStep::Fail(f),
                Ok(_) => match plan(cmds[done], c, split_result(cmds[done])) {
                    Err(f) => NextStep::Reject(f),
                    Ok(p) => NextStep::Run(p),
                },
            }
        },
    }
}

/// The commands of a batch.
pub open spec fn commands_of(batch: Seq<Suggestion>) -> Seq<Seq<char>> {
    batch.map_values(|s: Suggestion| s.cmd@)
}

/// The next step of a batch. `done` counts the commands that have run and
/// succeeded; `failed` is the failure of the last attempt, if it failed.
pub fn batch_step(
    batch: &Vec<Suggestion>,
    done: usize,
    failed: Option<AssistError>,
    config: &ExecConfig,
) -> (r: BatchAction)
    ensures
        r.step() == next_step(
            commands_of(batch@),
            done as int,
            match failed {
                Some(e) => Some(e.fault()),
                None => None,
            },
            *config,
        ),
        failed is Some ==> r is Fail,
        r matches BatchAction::Run(p) ==> done < batch@.len() && is_safe(batch@[done as int].cmd@),
{
    match failed {
        Some(e) => {
            return BatchAction::Fail(e);
        },
        None => {},
    }
    if done >= batch.len() {
        return BatchAction::Done;
    }
    assert(commands_of(batch@)[done as int] == batch@[done as int].cmd@);
    match clear_for_run(&batch[done], config) {
        Err(e) => BatchAction::Fail(e),
        Ok(_) => match plan_run(batch[done].cmd.as_str(), config) {
            Err(e) => BatchAction::Reject(e),
            Ok(p) => BatchAction::Run(p),
        },
    }
}

/// A failure ends the batch: after it nothing is run, however many commands
/// are left; and no command is run before the one ahead of it has succeeded.
pub proof fn law_failure_ends_batch(cmds: Seq<Seq<char>>, done: int, f: Fault, c: ExecConfig)
    ensures
        next_step(cmds, done, Some(f), c) == NextStep::Fail(f),
        next_step(cmds, done, None, c) is Run ==> 0 <= done < cmds.len() && is_safe(cmds[done]),
        c.dry_run && next_step(cmds, done, None, c) is Run ==> next_step(cmds, done, None, c)
            == NextStep::Run(None),
{
}

/// The failure to report where a command could not be started or awaited.
pub open spec fn start_failure(cmd: Seq<char>, program: Seq<char>, missing: bool, cause: Seq<char>)
    -> Fault {
    if missing {
        Fault::CommandFailed(program + " not found; install or adjust PATH"@)
    } else {
        Fault::CommandFailed(cmd + " ("@ + cause + ")"@)
    }
}

/// The failure to report where a command could not be started or awaited.
/// `missing`: the program was not found.
pub fn spawn_failure(cmd: &str, program: &str, missing: bool, cause: &str) -> (e: AssistError)
    ensures
        e.fault() == start_failure(cmd@, program@, missing, cause@),
{
    if missing {
        AssistError::CommandFailed(
            String::from_str(program).concat(" not found; install or adjust PATH"),
        )
    } else {
        AssistError::CommandFailed(String::from_str(cmd).concat(" (").concat(cause).concat(")"))
    }
}

/// What is made of a finished command: a failure unless it succeeded.
pub open spec fn exit_verdict(cmd: Seq<char>, success: bool, status: Seq<char>) -> Result<
    (),
    Fault,
> {
    if success {
        Ok(())
    } else {
        Err(Fault::CommandFailed(cmd + " exited with "@ + status))
    }
}

/// What is made of a finished command.
pub fn exit_report(cmd: &str, success: bool, status: &str) -> (r: Result<(), AssistError>)
    ensures
        outcome(r) == exit_verdict(cmd@, success, status@),
{
    if success {
        Ok(())
    } else {
        Err(
            AssistError::CommandFailed(
                String::from_str(cmd).concat(" exited with ").concat(status),
            ),
        )
    }
}

/// The line that shows a suggestion: the command, then the reason as a
/// remark.
pub fn listing_line(suggestion: &Suggestion) -> (r: String)
    ensures
        r@ == suggestion.cmd@ + "    # "@ + suggestion.reason@,
{
    String::from_str(suggestion.cmd.as_str()).concat("    # ").concat(suggestion.reason)
}

/// A command of the remote model as a suggestion.
pub fn llm_suggestion(cmd: String) -> (r: Suggestion)
    ensures
        r.pair() == sugg(cmd@, "LLM suggestion"@),
{
    Suggestion::new(cmd, "LLM suggestion")
}

} // verus!
