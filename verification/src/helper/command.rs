//! Commands of the platform: fixed programs with separate arguments, never a shell.

use crate::error::{ErrorCode, NetToolError};
use crate::helper::programs::{Programs, RunStep};
use crate::helper::windows;
use crate::helper::windows::validate_state_query_command;
use crate::text;
use crate::text::{byte_len, contains_char, same};
use vstd::prelude::*;
use vstd::utf8::encode_utf8;

verus! {

/// The program that configures macOS.
pub const NETWORKSETUP: &'static str = "/usr/sbin/networksetup";

/// The program that configures Windows.
pub const NETSH_EXE: &'static str = "C:\\Windows\\System32\\netsh.exe";

/// The program that queries Windows.
pub const POWERSHELL_EXE: &'static str =
    "C:\\Windows\\System32\\WindowsPowerShell\\v1.0\\powershell.exe";

/// What a program printed.
#[derive(Clone, Debug, PartialEq, Eq)]
pub struct CommandOutput {
    /// Whether it succeeded.
    pub success: bool,
    /// Its standard output.
    pub stdout: String,
    /// Its standard error.
    pub stderr: String,
}

/// Something that runs programs without a shell.
pub trait CommandRunner {
    /// Runs a program with separate arguments.
    fn run(&mut self, program: &str, arguments: &[String]) -> Result<CommandOutput, NetToolError>;
}

/// A program with its arguments.
#[derive(Clone, Debug, PartialEq, Eq)]
pub struct PlatformCommand {
    /// The absolute path of the program.
    pub program: String,
    /// The arguments.
    pub arguments: Vec<String>,
}

/// The runs that commands come to, with what came of each.
pub open spec fn runs_of(
    commands: Seq<CommandView>,
    answers: Seq<Result<CommandOutput, NetToolError>>,
) -> Seq<RunStep> {
    Seq::new(answers.len(), |i: int| (commands[i], answers[i]))
}

/// Whether a program was run and succeeded.
pub open spec fn succeeded(answer: Result<CommandOutput, NetToolError>) -> bool {
    answer matches Ok(output) && output.success
}

/// How commands are run in their order, each once. The first that fails is the last that is
/// run.
pub open spec fn executed_by(
    from: Seq<RunStep>,
    to: Seq<RunStep>,
    commands: Seq<CommandView>,
    r: Result<(), NetToolError>,
) -> bool {
    exists|answers: Seq<Result<CommandOutput, NetToolError>>|
        {
            let n = answers.len() as int;
            &&& to == from + #[trigger] runs_of(commands, answers)
            &&& n <= commands.len()
            &&& forall|i: int| 0 <= i < n - 1 ==> succeeded(#[trigger] answers[i])
            &&& match r {
                Ok(_) => n == commands.len() && (n > 0 ==> succeeded(answers[n - 1])),
                Err(e) => n > 0 && match answers[n - 1] {
                    Ok(output) => !output.success && e.is(
                        ErrorCode::HelperExecutionFailed,
                        "platform network command failed"@,
                        true,
                    ),
                    Err(f) => e == f,
                },
            }
        }
}

/// A program with its arguments, as texts.
pub type CommandView = (Seq<char>, Seq<Seq<char>>);

impl View for PlatformCommand {
    type V = CommandView;

    open spec fn view(&self) -> CommandView {
        (self.program@, text::texts(self.arguments@))
    }
}

/// Commands as texts.
pub open spec fn views(commands: Seq<PlatformCommand>) -> Seq<CommandView> {
    Seq::new(commands.len(), |i: int| commands[i]@)
}

/// What is wrong with the name of an interface, if something is.
pub open spec fn interface_fault(interface_id: Seq<char>) -> Option<Seq<char>> {
    if interface_id.len() == 0 || encode_utf8(interface_id).len() > 256 || interface_id.contains(
        '\0',
    ) || interface_id.contains('\n') || interface_id.contains('\r') {
        Some("interface ID contains unsupported characters"@)
    } else {
        None
    }
}

/// Checks the name of an interface.
///
/// # Errors
///
/// Fails when it is empty, longer than 256 bytes or holds a line break or a zero.
pub fn validate_interface(interface_id: &str) -> (r: Result<(), NetToolError>)
    ensures
        match r {
            Ok(_) => interface_fault(interface_id@) is None,
            Err(e) => interface_fault(interface_id@) is Some && e.is(
                ErrorCode::InvalidArgument,
                interface_fault(interface_id@)->0,
                false,
            ),
        },
{
    if interface_id.is_empty() || byte_len(interface_id) > 256 || contains_char(
        interface_id,
        '\0',
    ) || contains_char(interface_id, '\n') || contains_char(interface_id, '\r') {
        return Err(invalid("interface ID contains unsupported characters"));
    }
    Ok(())
}

/// Whether a text holds a character that a shell would act on.
pub open spec fn has_shell_syntax(s: Seq<char>) -> bool {
    s.contains(';') || s.contains('|') || s.contains('&') || s.contains('`') || s.contains('$')
}

/// Whether an argument may be passed on: not empty, on one line, without zeros and without
/// what a shell would act on.
pub open spec fn argument_allowed(s: Seq<char>) -> bool {
    &&& s.len() > 0
    &&& !s.contains('\0')
    &&& !s.contains('\n')
    &&& !s.contains('\r')
    &&& !has_shell_syntax(s)
}

/// What is wrong with a command, if something is.
pub open spec fn command_fault(command: CommandView) -> Option<Seq<char>> {
    if command.0 != NETWORKSETUP@ && command.0 != NETSH_EXE@ && command.0 != POWERSHELL_EXE@ {
        Some("platform command executable is not allowlisted"@)
    } else if command.0 == POWERSHELL_EXE@ {
        windows::query_fault(command.1)
    } else if command.1.len() == 0 || command.1.len() > 32 {
        Some("platform command argument count is invalid"@)
    } else if exists|i: int| 0 <= i < command.1.len() && !argument_allowed(#[trigger] command.1[i]) {
        Some("platform command argument contains forbidden syntax"@)
    } else {
        None
    }
}

fn is_argument_allowed(s: &str) -> (r: bool)
    ensures
        r == argument_allowed(s@),
{
    !s.is_empty() && !contains_char(s, '\0') && !contains_char(s, '\n') && !contains_char(s, '\r')
        && !contains_char(s, ';') && !contains_char(s, '|') && !contains_char(s, '&')
        && !contains_char(s, '`') && !contains_char(s, '$')
}

/// Checks that a command is one of the fixed programs with harmless arguments.
///
/// # Errors
///
/// Fails when the program is another one or an argument is not harmless.
pub fn validate_platform_command(command: &PlatformCommand) -> (r: Result<(), NetToolError>)
    ensures
        match r {
            Ok(_) => command_fault(command@) is None,
            Err(e) => command_fault(command@) is Some && e.is(
                ErrorCode::InvalidArgument,
                command_fault(command@)->0,
                false,
            ),
        },
{
    let program = command.program.as_str();
    if !same(program, NETWORKSETUP) && !same(program, NETSH_EXE) && !same(
        program,
        POWERSHELL_EXE,
    ) {
        return Err(invalid("platform command executable is not allowlisted"));
    }
    if same(program, POWERSHELL_EXE) {
        return validate_state_query_command(command);
    }
    if command.arguments.len() == 0 || command.arguments.len() > 32 {
        return Err(invalid("platform command argument count is invalid"));
    }
    let ghost arguments = text::texts(command.arguments@);
    let mut i: usize = 0;
    while i < command.arguments.len()
        invariant
            arguments == text::texts(command.arguments@),
            command.program@ != POWERSHELL_EXE@,
            command.program@ == NETWORKSETUP@ || command.program@ == NETSH_EXE@,
            0 < command.arguments@.len() <= 32,
            i <= command.arguments@.len(),
            forall|j: int| 0 <= j < i ==> argument_allowed(#[trigger] arguments[j]),
        decreases command.arguments@.len() - i,
    {
        proof {
            assert(arguments[i as int] == command.arguments@[i as int]@);
        }
        if !is_argument_allowed(command.arguments[i].as_str()) {
            proof {
                assert(!argument_allowed(command@.1[i as int]));
            }
            return Err(invalid("platform command argument contains forbidden syntax"));
        }
        i += 1;
    }
    Ok(())
}

/// How a command that has to pass the checks is run, once. One that does not pass is not run.
pub open spec fn validated_answered(
    from: Seq<RunStep>,
    to: Seq<RunStep>,
    command: CommandView,
    r: Result<CommandOutput, NetToolError>,
) -> bool {
    match command_fault(command) {
        Some(fault) => to == from && (r matches Err(e) && e.is(
            ErrorCode::InvalidArgument,
            fault,
            false,
        )),
        None => to == from.push((command, r)),
    }
}

/// How the output of a command is handed on: what it printed, or a failure of the runner, or a
/// message that it failed.
pub open spec fn output_answered(
    from: Seq<RunStep>,
    to: Seq<RunStep>,
    command: CommandView,
    message: Seq<char>,
    r: Result<String, NetToolError>,
) -> bool {
    exists|answer: Result<CommandOutput, NetToolError>| #[trigger]
        validated_answered(from, to, command, answer) && match answer {
            Ok(output) => if output.success {
                r == Ok::<String, NetToolError>(output.stdout)
            } else {
                r matches Err(e) && e.is(ErrorCode::HelperExecutionFailed, message, true)
            },
            Err(e) => r == Err::<String, NetToolError>(e),
        }
}

/// What is wrong with the first commands, if something is.
pub open spec fn first_command_fault(commands: Seq<CommandView>, n: nat) -> Option<Seq<char>>
    decreases n,
{
    if n == 0 {
        None
    } else {
        match first_command_fault(commands, (n - 1) as nat) {
            Some(fault) => Some(fault),
            None => command_fault(commands[n - 1]),
        }
    }
}

/// What is wrong with a sequence of commands, if something is.
pub open spec fn commands_fault(commands: Seq<CommandView>) -> Option<Seq<char>> {
    if commands.len() == 0 {
        Some("platform command sequence is empty"@)
    } else {
        first_command_fault(commands, commands.len())
    }
}

proof fn lemma_command_fault_stays(commands: Seq<CommandView>, n: nat, m: nat)
    requires
        n <= m,
        first_command_fault(commands, n) is Some,
    ensures
        first_command_fault(commands, m) == first_command_fault(commands, n),
    decreases m,
{
    if n < m {
        lemma_command_fault_stays(commands, n, (m - 1) as nat);
    }
}

/// Where no command is at fault, the sequence is not.
pub proof fn lemma_commands_pass(commands: Seq<CommandView>, n: nat)
    requires
        n <= commands.len(),
        forall|i: int| 0 <= i < n ==> command_fault(#[trigger] commands[i]) is None,
    ensures
        first_command_fault(commands, n) is None,
    decreases n,
{
    if n > 0 {
        lemma_commands_pass(commands, (n - 1) as nat);
    }
}

/// Checks a sequence of commands.
///
/// # Errors
///
/// Fails when there is none, and with what is wrong with the first command that is at fault.
pub fn validate_commands(commands: &[PlatformCommand]) -> (r: Result<(), NetToolError>)
    ensures
        match r {
            Ok(_) => commands_fault(views(commands@)) is None,
            Err(e) => commands_fault(views(commands@)) is Some && e.is(
                ErrorCode::InvalidArgument,
                commands_fault(views(commands@))->0,
                false,
            ),
        },
{
    if commands.len() == 0 {
        return Err(invalid("platform command sequence is empty"));
    }
    let mut i: usize = 0;
    while i < commands.len()
        invariant
            0 < commands@.len(),
            i <= commands@.len(),
            first_command_fault(views(commands@), i as nat) is None,
        decreases commands@.len() - i,
    {
        proof {
            assert(views(commands@)[i as int] == commands@[i as int]@);
        }
        match validate_platform_command(&commands[i]) {
            Ok(_) => {},
            Err(e) => {
                proof {
                    lemma_command_fault_stays(
                        views(commands@),
                        (i + 1) as nat,
                        views(commands@).len(),
                    );
                }
                return Err(e);
            },
        }
        i += 1;
    }
    Ok(())
}

/// Runs a command that passes the checks. One that does not never reaches the runner.
///
/// # Errors
///
/// Fails with what is wrong with the command, or with what the runner fails with.
pub fn run_validated_platform_command<R: CommandRunner>(
    programs: &mut Programs<R>,
    command: &PlatformCommand,
) -> (r: Result<CommandOutput, NetToolError>)
    ensures
        validated_answered(old(programs).log(), final(programs).log(), command@, r),
        command_fault(command@) is Some ==> *final(programs) == *old(programs),
{
    match validate_platform_command(command) {
        Ok(_) => {},
        Err(e) => {
            return Err(e);
        },
    }
    programs.run(command.program.as_str(), command.arguments.as_slice())
}

/// What a command of a sequence came to: a program that fails stops the sequence.
pub fn require_success(output: &CommandOutput) -> (r: Result<(), NetToolError>)
    ensures
        match r {
            Ok(_) => output.success,
            Err(e) => !output.success && e.is(
                ErrorCode::HelperExecutionFailed,
                "platform network command failed"@,
                true,
            ),
        },
{
    if output.success {
        Ok(())
    } else {
        Err(
            NetToolError::new(
                ErrorCode::HelperExecutionFailed,
                "platform network command failed",
                true,
            ),
        )
    }
}

/// How commands that have to pass the checks are run. Where one does not pass, none is run.
pub open spec fn all_answered(
    from: Seq<RunStep>,
    to: Seq<RunStep>,
    commands: Seq<CommandView>,
    r: Result<(), NetToolError>,
) -> bool {
    match commands_fault(commands) {
        Some(fault) => to == from && (r matches Err(e) && e.is(
            ErrorCode::InvalidArgument,
            fault,
            false,
        )),
        None => executed_by(from, to, commands, r),
    }
}

/// Runs commands in their order, up to the first that fails. Where one of them does not pass
/// the checks, none is run.
///
/// # Errors
///
/// Fails with what is wrong with the sequence, with what the runner fails with, and when a
/// program fails.
pub fn execute_platform_commands<R: CommandRunner>(
    programs: &mut Programs<R>,
    commands: &[PlatformCommand],
) -> (r: Result<(), NetToolError>)
    ensures
        all_answered(old(programs).log(), final(programs).log(), views(commands@), r),
        commands_fault(views(commands@)) is Some ==> *final(programs) == *old(programs),
{
    match validate_commands(commands) {
        Ok(_) => {},
        Err(e) => {
            return Err(e);
        },
    }
    let ghost all = views(commands@);
    let ghost from = programs.log();
    let ghost mut answers: Seq<Result<CommandOutput, NetToolError>> = Seq::empty();
    let mut i: usize = 0;
    proof {
        assert(from + runs_of(all, answers) =~= from);
    }
    while i < commands.len()
        invariant
            i <= commands@.len(),
            all == views(commands@),
            commands_fault(all) is None,
            from == old(programs).log(),
            programs.log() == from + runs_of(all, answers),
            answers.len() == i,
            forall|k: int| 0 <= k < i ==> succeeded(#[trigger] answers[k]),
        decreases commands@.len() - i,
    {
        proof {
            assert(all[i as int] == commands@[i as int]@);
            if command_fault(all[i as int]) is Some {
                assert(first_command_fault(all, (i + 1) as nat) is Some);
                lemma_command_fault_stays(all, (i + 1) as nat, all.len());
            }
        }
        let answer = run_validated_platform_command(programs, &commands[i]);
        proof {
            let longer = answers.push(answer);
            assert(from + runs_of(all, longer) =~= (from + runs_of(all, answers)).push(
                (all[i as int], answer),
            ));
            answers = longer;
        }
        let output = match answer {
            Ok(output) => output,
            Err(e) => {
                return Err(e);
            },
        };
        match require_success(&output) {
            Ok(_) => {},
            Err(e) => {
                return Err(e);
            },
        }
        i += 1;
    }
    Ok(())
}

/// A refusal of an argument.
pub fn invalid(message: &str) -> (r: NetToolError)
    ensures
        r.is(ErrorCode::InvalidArgument, message@, false),
{
    NetToolError::new(ErrorCode::InvalidArgument, message, false)
}

} // verus!
