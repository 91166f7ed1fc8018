//! One run of a tool of the TPM suite.
//!
//! The library decides; its caller acts. [`run`] says what to start and in
//! which environment. After each attempt the caller reports the exit code to
//! [`CommandRun::observe`], which says whether to wait and start the tool
//! again: only while the TPM is busy, and at most [`MAX_TRY`] times in all.
//! [`CommandRun::finish`] then turns what the last attempt left into the
//! outcome of the run, or into a fatal error.

use vstd::prelude::*;
use crate::command::{
    env_map, is_split_of, lemma_first_piece_empty, texts, tokenize, tool_env, tool_environment,
    PATH_VAR,
};

verus! {

/// How many times a tool is started at most while the TPM stays busy.
pub const MAX_TRY: usize = 10;

/// How long to wait before the tool is started again, in milliseconds.
pub const RETRY_SLEEP_MILLIS: u64 = 50;

/// The exit code of a tool that found the TPM in use.
pub const TPM_IO_ERROR: i32 = 5;

/// The exit code of a tool that succeeded.
pub const EXIT_SUCCESS: i32 = 0;

/// What to do after an attempt.
#[derive(Clone, Copy, Debug, PartialEq, Eq, Structural)]
pub enum Verdict {
    /// The TPM was busy: wait [`RETRY_SLEEP_MILLIS`] and start the tool again.
    Retry,
    /// The tool ended with another code, or with none: the run is over.
    Finished,
    /// The TPM was busy on the last attempt allowed: the run is over, and
    /// another application seems to hold the TPM.
    Exhausted,
}

/// Why a run failed.
#[derive(Debug, PartialEq, Eq)]
pub enum RunError {
    /// The command line names no tool: it is empty or starts with a space.
    MalformedCommand,
    /// The caller's environment has no search path to add the tools to.
    NoSearchPath,
    /// The tool did not end with the code that was expected of it.
    UnexpectedExit {
        /// The command line.
        command: String,
        /// The code the tool ended with, if it ended with one.
        exit_code: Option<i32>,
        /// The code that was expected.
        expected: i32,
        /// What the tool wrote to its standard output.
        output: Vec<u8>,
    },
}

/// What a run left behind.
#[derive(Debug, PartialEq, Eq)]
pub struct CommandOutcome {
    /// What the tool wrote to its standard output.
    pub stdout: Vec<u8>,
    /// The code the tool ended with, if it ended with one.
    pub exit_code: Option<i32>,
    /// The text of the file that the tool was told to write: empty where no
    /// file was asked for or it could not be read.
    pub file_output: Option<String>,
}

/// A run of one command line: what to start, and how far the run has come.
#[derive(Debug, PartialEq, Eq)]
pub struct CommandRun {
    /// The command line as it was given.
    pub command: String,
    /// The tool to start: the first piece of the command line.
    pub program: String,
    /// The tool's arguments: the other pieces, in order.
    pub args: Vec<String>,
    /// The environment to start the tool in; of two entries with one name
    /// the later counts.
    pub env: Vec<(String, String)>,
    /// The exit code that is expected of the tool.
    pub except_code: i32,
    /// Whether another exit code is a fatal error.
    pub raise_on_error: bool,
    /// The file that the tool writes, or nothing.
    pub output_path: String,
    /// How many attempts have found the TPM busy.
    pub busy: usize,
}

/// The verdict on an attempt that ended with `exit_code`, after `busy`
/// earlier attempts that found the TPM busy.
pub open spec fn verdict_on(busy: nat, exit_code: Option<i32>) -> Verdict {
    if exit_code == Some(TPM_IO_ERROR) {
        if busy + 1 >= MAX_TRY {
            Verdict::Exhausted
        } else {
            Verdict::Retry
        }
    } else {
        Verdict::Finished
    }
}

/// The count of busy attempts after one more attempt.
pub open spec fn busy_after(busy: nat, exit_code: Option<i32>) -> nat {
    if exit_code == Some(TPM_IO_ERROR) && busy < MAX_TRY {
        busy + 1
    } else {
        busy
    }
}

/// How many times the tool is started when attempt `k` ends with
/// `codes[k]`, counted from a run with `busy` busy attempts behind it. The
/// run takes no more attempts than there are codes.
pub open spec fn attempts(busy: nat, codes: Seq<Option<i32>>) -> nat
    decreases codes.len(),
{
    if codes.len() == 0 {
        0
    } else if verdict_on(busy, codes[0]) == Verdict::Retry {
        1 + attempts(busy_after(busy, codes[0]), codes.skip(1))
    } else {
        1
    }
}

/// Whether the run ends in a fatal error, given the last exit code.
pub open spec fn is_fatal(run: CommandRun, exit_code: Option<i32>) -> bool {
    run.raise_on_error && exit_code != Some(run.except_code)
}

/// The text of the tool's file in the outcome: what was read, where a file
/// was asked for and could be read.
pub open spec fn side_channel(run: CommandRun, file_contents: Option<String>) -> Seq<char> {
    match file_contents {
        Some(contents) if run.output_path@.len() > 0 => contents@,
        _ => Seq::empty(),
    }
}

/// Prepares a run of `cmd` in the environment `inherited` extended for the
/// tools. Nothing has been started yet.
pub fn run(
    cmd: String,
    except_code: i32,
    raise_on_error: bool,
    _lock: bool,
    output_path: String,
    inherited: Vec<(String, String)>,
) -> (prepared: Result<CommandRun, RunError>)
    ensures
        match prepared {
            Ok(r) => {
                &&& r.command@ == cmd@
                &&& r.program@.len() > 0
                &&& is_split_of(seq![r.program@] + texts(r.args@), cmd@)
                &&& env_map(inherited@).contains_key(PATH_VAR@)
                &&& env_map(r.env@) == tool_env(env_map(inherited@))
                &&& r.except_code == except_code
                &&& r.raise_on_error == raise_on_error
                &&& r.output_path@ == output_path@
                &&& r.busy == 0
            },
            Err(RunError::MalformedCommand) => cmd@.len() == 0 || cmd@[0] == ' ',
            Err(RunError::NoSearchPath) => !(cmd@.len() == 0 || cmd@[0] == ' ') && !env_map(
                inherited@,
            ).contains_key(PATH_VAR@),
            Err(RunError::UnexpectedExit { .. }) => false,
        },
{
    let mut pieces = tokenize(cmd.as_str());
    let ghost all = texts(pieces@);
    proof {
        lemma_first_piece_empty(all, cmd@);
    }
    let program = pieces.remove(0);
    proof {
        assert(seq![program@] + texts(pieces@) =~= all);
    }
    if program.as_str().is_empty() {
        return Err(RunError::MalformedCommand);
    }
    match tool_environment(inherited) {
        None => Err(RunError::NoSearchPath),
        Some(env) => Ok(
            CommandRun {
                command: cmd,
                program,
                args: pieces,
                env,
                except_code,
                raise_on_error,
                output_path,
                busy: 0,
            },
        ),
    }
}

impl CommandRun {
    /// Takes note of an attempt that ended with `exit_code` (`None` where
    /// the tool ended without one) and says what to do next.
    pub fn observe(&mut self, exit_code: Option<i32>) -> (verdict: Verdict)
        ensures
            verdict == verdict_on(old(self).busy as nat, exit_code),
            final(self).busy == busy_after(old(self).busy as nat, exit_code),
            final(self).command == old(self).command,
            final(self).program == old(self).program,
            final(self).args == old(self).args,
            final(self).env == old(self).env,
            final(self).except_code == old(self).except_code,
            final(self).raise_on_error == old(self).raise_on_error,
            final(self).output_path == old(self).output_path,
    {
        let found_busy = match exit_code {
            Some(code) => code == TPM_IO_ERROR,
            None => false,
        };
        if !found_busy {
            return Verdict::Finished;
        }
        if self.busy < MAX_TRY {
            self.busy = self.busy + 1;
        }
        if self.busy >= MAX_TRY {
            Verdict::Exhausted
        } else {
            Verdict::Retry
        }
    }

    /// Whether the caller is to read a file that the tool wrote.
    pub fn wants_file(&self) -> (wanted: bool)
        ensures
            wanted == (self.output_path@.len() > 0),
    {
        !self.output_path.as_str().is_empty()
    }

    /// Ends the run. `stdout` and `exit_code` are those of the last attempt;
    /// `file_contents` is the text of the tool's file, or `None` where none
    /// was read. The run fails where a failure is to be raised and the exit
    /// code is not the expected one; else its outcome holds what was given.
    pub fn finish(self, stdout: Vec<u8>, exit_code: Option<i32>, file_contents: Option<String>) -> (ended:
        Result<CommandOutcome, RunError>)
        ensures
            match ended {
                Ok(outcome) => {
                    &&& !is_fatal(self, exit_code)
                    &&& outcome.stdout == stdout
                    &&& outcome.exit_code == exit_code
                    &&& outcome.file_output matches Some(text)
                    &&& text@ == side_channel(self, file_contents)
                },
                Err(RunError::UnexpectedExit { command, exit_code: code, expected, output }) => {
                    &&& is_fatal(self, exit_code)
                    &&& command == self.command
                    &&& code == exit_code
                    &&& expected == self.except_code
                    &&& output == stdout
                },
                Err(_) => false,
            },
    {
        let as_expected = match exit_code {
            Some(code) => code == self.except_code,
            None => false,
        };
        if self.raise_on_error && !as_expected {
            return Err(
                RunError::UnexpectedExit {
                    command: self.command,
                    exit_code,
                    expected: self.except_code,
                    output: stdout,
                },
            );
        }
        let wanted = self.wants_file();
        let text = match file_contents {
            Some(contents) if wanted => contents,
            _ => String::new(),
        };
        Ok(CommandOutcome { stdout, exit_code, file_output: Some(text) })
    }
}

/// A run never takes more than `MAX_TRY` attempts.
pub proof fn lemma_attempts_bounded(busy: nat, codes: Seq<Option<i32>>)
    requires
        busy < MAX_TRY,
    ensures
        attempts(busy, codes) <= MAX_TRY - busy,
        attempts(busy, codes) <= codes.len(),
    decreases codes.len(),
{
    if codes.len() > 0 && verdict_on(busy, codes[0]) == Verdict::Retry {
        lemma_attempts_bounded(busy + 1, codes.skip(1));
    }
}

/// While every attempt finds the TPM busy, the run goes on until `MAX_TRY`
/// attempts have been made in all, and then stops.
pub proof fn lemma_attempts_always_busy(busy: nat, codes: Seq<Option<i32>>)
    requires
        busy < MAX_TRY,
        codes.len() >= MAX_TRY - busy,
        forall|k: int| 0 <= k < MAX_TRY - busy ==> codes[k] == Some(TPM_IO_ERROR),
    ensures
        attempts(busy, codes) == MAX_TRY - busy,
    decreases codes.len(),
{
    if busy + 1 < MAX_TRY {
        let rest = codes.skip(1);
        assert forall|k: int| 0 <= k < MAX_TRY - (busy + 1) implies rest[k] == Some(
            TPM_IO_ERROR,
        ) by {
            assert(rest[k] == codes[k + 1]);
        }
        lemma_attempts_always_busy(busy + 1, rest);
    }
}

/// A tool that is started afresh and always finds the TPM busy is started
/// exactly `MAX_TRY` times.
pub proof fn lemma_retries_exactly_max_try(codes: Seq<Option<i32>>)
    requires
        codes.len() >= MAX_TRY,
        forall|k: int| 0 <= k < codes.len() ==> codes[k] == Some(TPM_IO_ERROR),
    ensures
        attempts(0, codes) == MAX_TRY,
{
    lemma_attempts_always_busy(0, codes);
}

/// The run stops at the first attempt that ends with anything but the busy
/// code: after `at` busy attempts, attempt `at` is the last.
pub proof fn lemma_stops_at_first_other_code(busy: nat, codes: Seq<Option<i32>>, at: int)
    requires
        0 <= at < codes.len(),
        busy + at < MAX_TRY,
        forall|k: int| 0 <= k < at ==> codes[k] == Some(TPM_IO_ERROR),
        codes[at] != Some(TPM_IO_ERROR),
    ensures
        attempts(busy, codes) == at + 1,
    decreases codes.len(),
{
    if at > 0 {
        let rest = codes.skip(1);
        assert forall|k: int| 0 <= k < at - 1 implies rest[k] == Some(TPM_IO_ERROR) by {
            assert(rest[k] == codes[k + 1]);
        }
        assert(rest[at - 1] == codes[at]);
        lemma_stops_at_first_other_code(busy + 1, rest, at - 1);
    }
}

/// No exit code but the busy code leads to another attempt.
pub proof fn lemma_no_retry_on_other_code(busy: nat, exit_code: Option<i32>)
    ensures
        verdict_on(busy, exit_code) == Verdict::Retry ==> exit_code == Some(TPM_IO_ERROR),
        exit_code != Some(TPM_IO_ERROR) ==> verdict_on(busy, exit_code) == Verdict::Finished,
{
}

} // verus!
