//! The command line.
use crate::flow;
use crate::text;
use vstd::prelude::*;

verus! {

/// A scheduling command.
#[derive(Debug, Clone, Copy, PartialEq, Eq, Structural)]
pub enum ScheduleCommand {
    /// Install the schedule, or refresh it.
    Install { allow_degraded_preflight: bool },
    /// Report on the schedule.
    Status,
    /// Change the settings of the schedule.
    Edit { allow_degraded_preflight: bool },
    /// Remove the schedule.
    Uninstall,
}

impl DeepView for ScheduleCommand {
    type V = ScheduleCommand;

    open spec fn deep_view(&self) -> ScheduleCommand {
        *self
    }
}

/// What to do.
#[derive(Debug, Clone, Copy, PartialEq, Eq, Structural)]
pub enum Command {
    /// Fetch, inspect, and report without removing worktrees.
    Scan,
    /// Inspect candidates; removal remains disabled unless `--yes` is present.
    Prune { yes: bool },
    /// Manage unattended runs.
    Schedule { command: ScheduleCommand },
}

impl DeepView for Command {
    type V = Command;

    open spec fn deep_view(&self) -> Command {
        *self
    }
}

/// A command line that was understood.
#[derive(Debug, Clone, Copy, PartialEq, Eq, Structural)]
pub struct Cli {
    pub command: Command,
}

impl DeepView for Cli {
    type V = Cli;

    open spec fn deep_view(&self) -> Cli {
        *self
    }
}

/// Why a command line was not understood.
#[derive(Debug, PartialEq, Eq)]
pub enum UsageError {
    /// A command is missing.
    MissingCommand,
    /// There is no such command.
    UnknownCommand(String),
    /// There is no place for this argument.
    UnexpectedArgument(String),
}

/// The content of a [`UsageError`].
pub enum UsageErrorView {
    MissingCommand,
    UnknownCommand(Seq<char>),
    UnexpectedArgument(Seq<char>),
}

impl DeepView for UsageError {
    type V = UsageErrorView;

    open spec fn deep_view(&self) -> UsageErrorView {
        match self {
            UsageError::MissingCommand => UsageErrorView::MissingCommand,
            UsageError::UnknownCommand(value) => UsageErrorView::UnknownCommand(value@),
            UsageError::UnexpectedArgument(value) => UsageErrorView::UnexpectedArgument(value@),
        }
    }
}

/// The argument, from number `i` on, for which there is no place: any but a final `--`.
pub open spec fn first_extra(arguments: Seq<Seq<char>>, i: int) -> Option<Seq<char>> {
    if arguments.len() <= i {
        None
    } else if arguments[i] != "--"@ {
        Some(arguments[i])
    } else if arguments.len() == i + 1 {
        None
    } else {
        Some(arguments[i + 1])
    }
}

/// Whether the arguments from number `i` on start with the flag; nothing more may follow.
pub open spec fn only_flag(arguments: Seq<Seq<char>>, i: int, flag: Seq<char>) -> Result<
    bool,
    UsageErrorView,
> {
    let given = i < arguments.len() && arguments[i] == flag;
    match first_extra(
        arguments,
        if given {
            i + 1
        } else {
            i
        },
    ) {
        Some(extra) => Err(UsageErrorView::UnexpectedArgument(extra)),
        None => Ok(given),
    }
}

/// The command, unless there is no place for the arguments from number `i` on.
pub open spec fn no_more(arguments: Seq<Seq<char>>, i: int, command: Command) -> Result<
    Cli,
    UsageErrorView,
> {
    match first_extra(arguments, i) {
        Some(extra) => Err(UsageErrorView::UnexpectedArgument(extra)),
        None => Ok(Cli { command }),
    }
}

/// The scheduling command that the arguments behind `schedule` name.
pub open spec fn parse_schedule(arguments: Seq<Seq<char>>) -> Result<Cli, UsageErrorView> {
    if arguments.len() < 3 {
        Err(UsageErrorView::MissingCommand)
    } else if arguments[2] == "install"@ {
        match only_flag(arguments, 3, "--allow-degraded-preflight"@) {
            Err(error) => Err(error),
            Ok(allow_degraded_preflight) => Ok(
                Cli {
                    command: Command::Schedule {
                        command: ScheduleCommand::Install { allow_degraded_preflight },
                    },
                },
            ),
        }
    } else if arguments[2] == "edit"@ {
        match only_flag(arguments, 3, "--allow-degraded-preflight"@) {
            Err(error) => Err(error),
            Ok(allow_degraded_preflight) => Ok(
                Cli {
                    command: Command::Schedule {
                        command: ScheduleCommand::Edit { allow_degraded_preflight },
                    },
                },
            ),
        }
    } else if arguments[2] == "status"@ {
        no_more(arguments, 3, Command::Schedule { command: ScheduleCommand::Status })
    } else if arguments[2] == "uninstall"@ {
        no_more(arguments, 3, Command::Schedule { command: ScheduleCommand::Uninstall })
    } else {
        Err(UsageErrorView::UnknownCommand(arguments[2]))
    }
}

/// What the arguments, of which the first is the name of the program, ask for.
pub open spec fn parse_arguments(arguments: Seq<Seq<char>>) -> Result<Cli, UsageErrorView> {
    if arguments.len() < 2 {
        Err(UsageErrorView::MissingCommand)
    } else if arguments[1] == "scan"@ {
        no_more(arguments, 2, Command::Scan)
    } else if arguments[1] == "prune"@ {
        match only_flag(arguments, 2, "--yes"@) {
            Err(error) => Err(error),
            Ok(yes) => Ok(Cli { command: Command::Prune { yes } }),
        }
    } else if arguments[1] == "schedule"@ {
        parse_schedule(arguments)
    } else {
        Err(UsageErrorView::UnknownCommand(arguments[1]))
    }
}

fn find_extra(arguments: &Vec<String>, i: usize) -> (extra: Option<String>)
    requires
        i < usize::MAX,
    ensures
        extra.deep_view() == first_extra(arguments.deep_view(), i as int),
{
    if arguments.len() <= i {
        return None;
    }
    assert(arguments.deep_view()[i as int] == arguments[i as int]@);
    if !text::same_text(arguments[i].as_str(), "--") {
        return Some(arguments[i].clone());
    }
    if arguments.len() == i + 1 {
        return None;
    }
    assert(arguments.deep_view()[i + 1] == arguments[i + 1]@);
    Some(arguments[i + 1].clone())
}

fn take_flag(arguments: &Vec<String>, i: usize, flag: &str) -> (result: Result<bool, UsageError>)
    requires
        i + 1 < usize::MAX,
    ensures
        flow::result_view(result) == only_flag(arguments.deep_view(), i as int, flag@),
{
    let mut given = false;
    if i < arguments.len() {
        assert(arguments.deep_view()[i as int] == arguments[i as int]@);
        given = text::same_text(arguments[i].as_str(), flag);
    }
    let next: usize = if given {
        i + 1
    } else {
        i
    };
    match find_extra(arguments, next) {
        Some(extra) => Err(UsageError::UnexpectedArgument(extra)),
        None => Ok(given),
    }
}

fn end_of(arguments: &Vec<String>, i: usize, command: Command) -> (result: Result<Cli, UsageError>)
    requires
        i < usize::MAX,
    ensures
        flow::result_view(result) == no_more(arguments.deep_view(), i as int, command),
{
    match find_extra(arguments, i) {
        Some(extra) => Err(UsageError::UnexpectedArgument(extra)),
        None => Ok(Cli { command }),
    }
}

fn take_schedule(arguments: &Vec<String>) -> (result: Result<Cli, UsageError>)
    ensures
        flow::result_view(result) == parse_schedule(arguments.deep_view()),
{
    if arguments.len() < 3 {
        return Err(UsageError::MissingCommand);
    }
    let word = arguments[2].as_str();
    assert(arguments.deep_view()[2] == word@);
    if text::same_text(word, "install") {
        return match take_flag(arguments, 3, "--allow-degraded-preflight") {
            Err(error) => Err(error),
            Ok(allow_degraded_preflight) => Ok(
                Cli {
                    command: Command::Schedule {
                        command: ScheduleCommand::Install { allow_degraded_preflight },
                    },
                },
            ),
        };
    }
    if text::same_text(word, "edit") {
        return match take_flag(arguments, 3, "--allow-degraded-preflight") {
            Err(error) => Err(error),
            Ok(allow_degraded_preflight) => Ok(
                Cli {
                    command: Command::Schedule {
                        command: ScheduleCommand::Edit { allow_degraded_preflight },
                    },
                },
            ),
        };
    }
    if text::same_text(word, "status") {
        return end_of(arguments, 3, Command::Schedule { command: ScheduleCommand::Status });
    }
    if text::same_text(word, "uninstall") {
        return end_of(arguments, 3, Command::Schedule { command: ScheduleCommand::Uninstall });
    }
    Err(UsageError::UnknownCommand(arguments[2].clone()))
}

impl Cli {
    /// Reads the arguments, of which the first is the name of the program.
    pub fn try_parse_from(arguments: &Vec<String>) -> (result: Result<Cli, UsageError>)
        ensures
            flow::result_view(result) == parse_arguments(arguments.deep_view()),
    {
        if arguments.len() < 2 {
            return Err(UsageError::MissingCommand);
        }
        let word = arguments[1].as_str();
        assert(arguments.deep_view()[1] == word@);
        if text::same_text(word, "scan") {
            return end_of(arguments, 2, Command::Scan);
        }
        if text::same_text(word, "prune") {
            return match take_flag(arguments, 2, "--yes") {
                Err(error) => Err(error),
                Ok(yes) => Ok(Cli { command: Command::Prune { yes } }),
            };
        }
        if text::same_text(word, "schedule") {
            return take_schedule(arguments);
        }
        Err(UsageError::UnknownCommand(arguments[1].clone()))
    }
}

/// Removal is asked for only by the word `prune` with `--yes` right behind it.
pub proof fn law_only_yes_applies(arguments: Seq<Seq<char>>)
    ensures
        parse_arguments(arguments) == Ok::<Cli, UsageErrorView>(
            Cli { command: Command::Prune { yes: true } },
        ) ==> arguments.len() >= 3 && arguments[1] == "prune"@ && arguments[2] == "--yes"@
            && first_extra(arguments, 3) is None,
{
}

/// The words of a command line, without an end mark behind them.
pub open spec fn words(arguments: Seq<Seq<char>>) -> Seq<Seq<char>> {
    if arguments.len() > 0 && arguments.last() == "--"@ {
        arguments.drop_last()
    } else {
        arguments
    }
}

/// Whether words, of which the first is the name of the program, ask for a command.
pub open spec fn ask_for(words: Seq<Seq<char>>, command: Command) -> bool {
    match command {
        Command::Scan => words.len() == 2 && words[1] == "scan"@,
        Command::Prune { yes: false } => words.len() == 2 && words[1] == "prune"@,
        Command::Prune { yes: true } => words.len() == 3 && words[1] == "prune"@ && words[2]
            == "--yes"@,
        Command::Schedule { command } => words.len() >= 3 && words[1] == "schedule"@
            && match command {
            ScheduleCommand::Status => words.len() == 3 && words[2] == "status"@,
            ScheduleCommand::Uninstall => words.len() == 3 && words[2] == "uninstall"@,
            ScheduleCommand::Install { allow_degraded_preflight } => words[2] == "install"@
                && may_allow(words, allow_degraded_preflight),
            ScheduleCommand::Edit { allow_degraded_preflight } => words[2] == "edit"@ && may_allow(
                words,
                allow_degraded_preflight,
            ),
        },
    }
}

/// Whether words allow a degraded schedule exactly as told.
pub open spec fn may_allow(words: Seq<Seq<char>>, allowed: bool) -> bool {
    if allowed {
        words.len() == 4 && words[3] == "--allow-degraded-preflight"@
    } else {
        words.len() == 3
    }
}

/// The words of the language are different.
proof fn lemma_command_words()
    ensures
        "--"@ != "--yes"@,
        "--"@ != "--allow-degraded-preflight"@,
        "--"@ != "scan"@,
        "--"@ != "prune"@,
        "--"@ != "schedule"@,
        "--"@ != "install"@,
        "--"@ != "edit"@,
        "--"@ != "status"@,
        "--"@ != "uninstall"@,
        "scan"@ != "prune"@,
        "scan"@ != "schedule"@,
        "prune"@ != "schedule"@,
        "install"@ != "edit"@,
        "install"@ != "status"@,
        "install"@ != "uninstall"@,
        "edit"@ != "status"@,
        "edit"@ != "uninstall"@,
        "status"@ != "uninstall"@,
{
    reveal_strlit("--");
    reveal_strlit("--yes");
    reveal_strlit("--allow-degraded-preflight");
    reveal_strlit("scan");
    reveal_strlit("prune");
    reveal_strlit("schedule");
    reveal_strlit("install");
    reveal_strlit("edit");
    reveal_strlit("status");
    reveal_strlit("uninstall");
    assert("--"@.len() == 2 && "--yes"@.len() == 5 && "scan"@.len() == 4 && "prune"@.len() == 5);
    assert("schedule"@.len() == 8 && "install"@.len() == 7 && "edit"@.len() == 4);
    assert("status"@.len() == 6 && "uninstall"@.len() == 9);
    assert("--allow-degraded-preflight"@.len() == 26);
}

/// A command line is understood exactly when its words ask for a command, and then as that command:
/// in particular removals are applied only by `prune --yes`, and a degraded schedule is allowed only
/// where that is said.
pub proof fn law_command_lines_ask_for_commands(arguments: Seq<Seq<char>>, command: Command)
    ensures
        parse_arguments(arguments) == Ok::<Cli, UsageErrorView>(Cli { command }) <==> ask_for(
            words(arguments),
            command,
        ),
{
    lemma_command_words();
}

/// What a command line that is not understood lacks or has too much is told.
pub proof fn law_misunderstood_command_lines_are_told(arguments: Seq<Seq<char>>)
    ensures
        arguments.len() < 2 ==> parse_arguments(arguments) == Err::<Cli, UsageErrorView>(
            UsageErrorView::MissingCommand,
        ),
        arguments.len() >= 2 && arguments[1] != "scan"@ && arguments[1] != "prune"@ && arguments[1]
            != "schedule"@ ==> parse_arguments(arguments) == Err::<Cli, UsageErrorView>(
            UsageErrorView::UnknownCommand(arguments[1]),
        ),
        arguments.len() >= 3 && arguments[1] == "scan"@ && arguments[2] != "--"@
            ==> parse_arguments(arguments) == Err::<Cli, UsageErrorView>(
            UsageErrorView::UnexpectedArgument(arguments[2]),
        ),
{
    lemma_command_words();
}

} // verus!
