//! The safety of a removal, and the removal itself.
pub mod model;

use crate::command;
use crate::command::{CommandLine, CommandResult, CommandResultView};
use crate::command::{Reply, ReplyView, Request, RequestView};
use crate::filepath;
use crate::filepath::FilePath;
use crate::flow;
use crate::flow::{Flow, Step};
use crate::inspection;
use crate::inspection::{InventoryWorktree, InventoryWorktreeView};
use crate::inspection::{WorktreeInspection, WorktreeInspectionView};
use crate::output::ReasonCode;
use crate::text;
use vstd::prelude::*;

verus! {

/// Why a worktree is not removed.
#[derive(Debug, PartialEq, Eq)]
pub struct SafetyRefusal {
    pub reason_code: ReasonCode,
    pub message: String,
    /// Whether something failed, as against a fact that speaks against the removal.
    pub operational_failure: bool,
}

/// The content of a [`SafetyRefusal`].
pub struct SafetyRefusalView {
    pub reason_code: ReasonCode,
    pub message: Seq<char>,
    pub operational_failure: bool,
}

impl DeepView for SafetyRefusal {
    type V = SafetyRefusalView;

    open spec fn deep_view(&self) -> SafetyRefusalView {
        SafetyRefusalView {
            reason_code: self.reason_code,
            message: self.message@,
            operational_failure: self.operational_failure,
        }
    }
}

/// A refusal because of what was found.
pub open spec fn refusal(reason_code: ReasonCode, message: Seq<char>) -> SafetyRefusalView {
    SafetyRefusalView { reason_code, message, operational_failure: false }
}

/// A refusal because something could not be found out.
pub open spec fn inspection_failure(context: Seq<char>, message: Seq<char>) -> SafetyRefusalView {
    SafetyRefusalView {
        reason_code: ReasonCode::SafetyInspectionFailed,
        message: context + " failed: "@ + message,
        operational_failure: true,
    }
}

fn new_refusal(reason_code: ReasonCode, message: &str) -> (result: SafetyRefusal)
    ensures
        result.deep_view() == refusal(reason_code, message@),
{
    SafetyRefusal { reason_code, message: message.to_owned(), operational_failure: false }
}

fn new_inspection_failure(context: &str, message: &str) -> (result: SafetyRefusal)
    ensures
        result.deep_view() == inspection_failure(context@, message@),
{
    SafetyRefusal {
        reason_code: ReasonCode::SafetyInspectionFailed,
        message: text::concat3(context, " failed: ", message),
        operational_failure: true,
    }
}

/// Tells whether a worktree is in use.
pub trait ProcessInspector {
    /// Reports whether a live process has its current directory at or below `worktree`; an error
    /// where process information cannot be obtained completely and safely.
    fn worktree_in_use(&self, worktree: &FilePath, timeout: u64) -> Result<bool, String>;
}

/// Tells from a list of current directories whether a worktree is in use.
#[derive(Debug, PartialEq, Eq)]
pub struct PlatformProcessInspector {
    /// How the command that lists current directories ended; none where there is no such command.
    pub listing: Option<CommandResult>,
    /// The processes whose current directories do not count.
    pub ignored: Vec<u32>,
}

/// The content of a [`PlatformProcessInspector`].
pub struct PlatformProcessInspectorView {
    pub listing: Option<CommandResultView>,
    pub ignored: Seq<u32>,
}

impl DeepView for PlatformProcessInspector {
    type V = PlatformProcessInspectorView;

    open spec fn deep_view(&self) -> PlatformProcessInspectorView {
        PlatformProcessInspectorView {
            listing: self.listing.deep_view(),
            ignored: self.ignored@,
        }
    }
}

/// The process that a field of the list names; none where it is not a number.
pub open spec fn field_process(field: Seq<u8>) -> Option<nat> {
    match text::bytes_after(field, "p"@) {
        None => None,
        Some(digits) => match text::utf8_text(digits) {
            Err(_) => None,
            Ok(digits) => text::parse_unsigned(digits, u32::MAX as nat),
        },
    }
}

fn read_process(field: &Vec<u8>) -> (process: Option<u64>)
    ensures
        process is Some <==> field_process(field@) is Some,
        process is Some ==> process->0 == field_process(field@)->0,
{
    match text::strip_bytes(field.as_slice(), "p") {
        None => None,
        Some(digits) => match text::from_utf8(digits.as_slice()) {
            Err(_) => None,
            Ok(digits) => text::parse_number(digits.as_str(), u32::MAX as u64),
        },
    }
}

/// Whether a process is one of `ignored`.
pub open spec fn is_ignored(process: Option<nat>, ignored: Seq<u32>) -> bool {
    process is Some && exists|i: int| 0 <= i < ignored.len() && ignored[i] as nat == process->0
}

fn ignores(process: Option<u64>, ignored: &Vec<u32>) -> (result: bool)
    ensures
        result == (process is Some && exists|i: int|
            0 <= i < ignored@.len() && ignored@[i] as nat == process->0 as nat),
{
    match process {
        None => false,
        Some(number) => {
            let mut i: usize = 0;
            while i < ignored.len()
                invariant
                    i <= ignored.len(),
                    process == Some(number),
                    forall|j: int| 0 <= j < i ==> ignored@[j] as nat != number as nat,
                decreases ignored.len() - i,
            {
                if ignored[i] as u64 == number {
                    assert(ignored@[i as int] as nat == number as nat);
                    return true;
                }
                i += 1;
            }
            false
        },
    }
}

/// Whether the list whose fields are left has a current directory at or below `worktree`, of a
/// process that counts; `process` is the process that the next directory belongs to. Fields that
/// start with `p` name a process, fields that start with `n` its current directory.
pub open spec fn directory_listed(
    fields: Seq<Seq<u8>>,
    process: Option<nat>,
    worktree: Seq<u8>,
    ignored: Seq<u32>,
) -> Result<bool, Seq<char>>
    decreases fields.len(),
{
    if fields.len() == 0 {
        Ok(false)
    } else if text::bytes_after(fields[0], "p"@) is Some {
        directory_listed(fields.skip(1), field_process(fields[0]), worktree, ignored)
    } else {
        match text::bytes_after(fields[0], "n"@) {
            None => directory_listed(fields.skip(1), process, worktree, ignored),
            Some(path) => if path.len() == 0 {
                Err("lsof returned an empty current-directory path"@)
            } else if filepath::path_within(path, worktree) && !is_ignored(process, ignored) {
                Ok(true)
            } else {
                directory_listed(fields.skip(1), process, worktree, ignored)
            },
        }
    }
}

/// Whether a list of current directories has one at or below `worktree`.
pub open spec fn listed_in_use(list: Seq<u8>, worktree: Seq<u8>, ignored: Seq<u32>) -> Result<
    bool,
    Seq<char>,
> {
    directory_listed(text::split_bytes(list, 0, 10), None, worktree, ignored)
}

/// Reads a list of current directories as `lsof -F0pn` prints it, and tells whether a process
/// other than those in `ignored` has its current directory at or below `worktree`.
pub fn parse_lsof_cwds(list: &Vec<u8>, worktree: &FilePath, ignored: &Vec<u32>) -> (result: Result<
    bool,
    String,
>)
    ensures
        flow::result_view(result) == listed_in_use(list@, worktree@, ignored@),
{
    let fields = text::split_at_bytes(list.as_slice(), 0, 10);
    let ghost all = text::contents(fields@);
    let ghost goal = directory_listed(all, None, worktree@, ignored@);
    let mut process: Option<u64> = None;
    let ghost mut shown: Option<nat> = None;
    let mut i: usize = 0;
    assert(all.skip(0) =~= all);
    while i < fields.len()
        invariant
            i <= fields.len(),
            all == text::contents(fields@),
            goal == listed_in_use(list@, worktree@, ignored@),
            process is Some <==> shown is Some,
            process is Some ==> process->0 == shown->0,
            goal == directory_listed(all.skip(i as int), shown, worktree@, ignored@),
        decreases fields.len() - i,
    {
        let ghost rest = all.skip(i as int);
        assert(rest[0] == fields@[i as int]@);
        assert(rest.skip(1) =~= all.skip(i + 1));
        if text::bytes_start_with(fields[i].as_slice(), "p") {
            process = read_process(&fields[i]);
            proof {
                shown = field_process(fields@[i as int]@);
            }
        } else {
            match text::strip_bytes(fields[i].as_slice(), "n") {
                None => {},
                Some(path) => {
                    if path.len() == 0 {
                        return Err("lsof returned an empty current-directory path".to_owned());
                    }
                    let path = FilePath::new(path);
                    if path.is_within(worktree) && !ignores(process, ignored) {
                        return Ok(true);
                    }
                },
            }
        }
        i += 1;
    }
    Ok(false)
}

/// Why a command told nothing.
pub open spec fn run_error(result: CommandResultView) -> Seq<char> {
    match result {
        CommandResultView::Failed(error) => "failed to start command: "@ + error,
        _ => "command timed out"@,
    }
}

/// Whether a worktree is in use, as far as the list of current directories tells it.
pub open spec fn in_use(
    listing: Option<CommandResultView>,
    worktree: Seq<u8>,
    ignored: Seq<u32>,
) -> Result<bool, Seq<char>> {
    match listing {
        None => Err("process inspection is not implemented on this platform"@),
        Some(CommandResultView::Exited { code, stdout, stderr }) => if command::succeeded(code) {
            listed_in_use(stdout, worktree, ignored)
        } else {
            Err("lsof exited unsuccessfully: "@ + flow::stderr_text(stderr))
        },
        Some(result) => Err(run_error(result)),
    }
}

impl ProcessInspector for PlatformProcessInspector {
    fn worktree_in_use(&self, worktree: &FilePath, timeout: u64) -> (result: Result<bool, String>)
        ensures
            flow::result_view(result) == in_use(
                self.listing.deep_view(),
                worktree@,
                self.ignored@,
            ),
    {
        match &self.listing {
            None => Err("process inspection is not implemented on this platform".to_owned()),
            Some(CommandResult::Exited { code, stdout, stderr }) => if command::is_success(*code) {
                parse_lsof_cwds(stdout, worktree, &self.ignored)
            } else {
                let message = flow::stderr_message(stderr);
                Err(text::concat2("lsof exited unsuccessfully: ", message.as_str()))
            },
            Some(CommandResult::Failed(error)) => Err(
                text::concat2("failed to start command: ", error.as_str()),
            ),
            Some(CommandResult::TimedOut) => Err("command timed out".to_owned()),
        }
    }
}

/// The entries of a list of worktrees whose path is `path`.
pub open spec fn entries_at(inventory: Seq<InventoryWorktreeView>, path: Seq<u8>) -> Seq<
    InventoryWorktreeView,
>
    decreases inventory.len(),
{
    if inventory.len() == 0 {
        Seq::empty()
    } else {
        let before = entries_at(inventory.drop_last(), path);
        if filepath::same_path(inventory.last().path, path) {
            before.push(inventory.last())
        } else {
            before
        }
    }
}

/// How many entries of a list of worktrees are on `branch`.
pub open spec fn count_on_branch(
    inventory: Seq<InventoryWorktreeView>,
    branch: Option<Seq<char>>,
) -> nat
    decreases inventory.len(),
{
    if inventory.len() == 0 {
        0
    } else {
        count_on_branch(inventory.drop_last(), branch) + if inventory.last().branch == branch {
            1nat
        } else {
            0nat
        }
    }
}

fn find_entries(
    inventory: &Vec<InventoryWorktree>,
    path: &FilePath,
) -> (found: (Option<usize>, bool))
    ensures
        ({
            let entries = entries_at(inventory.deep_view(), path@);
            &&& found.0 is None <==> entries.len() == 0
            &&& found.0 matches Some(i) ==> {
                &&& i < inventory.len()
                &&& inventory.deep_view()[i as int] == entries[0]
            }
            &&& found.1 == (entries.len() > 1)
        }),
{
    let ghost all = inventory.deep_view();
    let mut first: Option<usize> = None;
    let mut more = false;
    let mut i: usize = 0;
    assert(all.take(0) =~= Seq::empty());
    while i < inventory.len()
        invariant
            i <= inventory.len(),
            all == inventory.deep_view(),
            first is None <==> entries_at(all.take(i as int), path@).len() == 0,
            first matches Some(k) ==> k < inventory.len() && all[k as int] == entries_at(
                all.take(i as int),
                path@,
            )[0],
            more == (entries_at(all.take(i as int), path@).len() > 1),
        decreases inventory.len() - i,
    {
        assert(all.take(i + 1).drop_last() =~= all.take(i as int));
        assert(all.take(i + 1).last() == inventory[i as int].deep_view());
        if inventory[i].path.same_as(path) {
            if first.is_some() {
                more = true;
            } else {
                first = Some(i);
            }
        }
        i += 1;
    }
    assert(all.take(i as int) =~= all);
    (first, more)
}

fn count_branch(inventory: &Vec<InventoryWorktree>, branch: &Option<String>) -> (count: usize)
    ensures
        count == count_on_branch(inventory.deep_view(), branch.deep_view()),
{
    let ghost all = inventory.deep_view();
    let mut count: usize = 0;
    let mut i: usize = 0;
    assert(all.take(0) =~= Seq::empty());
    while i < inventory.len()
        invariant
            i <= inventory.len(),
            count <= i,
            all == inventory.deep_view(),
            count == count_on_branch(all.take(i as int), branch.deep_view()),
        decreases inventory.len() - i,
    {
        assert(all.take(i + 1).drop_last() =~= all.take(i as int));
        assert(all.take(i + 1).last() == inventory[i as int].deep_view());
        if text::same_optional_text(&inventory[i].branch, branch) {
            count += 1;
        }
        i += 1;
    }
    assert(all.take(i as int) =~= all);
    count
}

/// What the current list of worktrees has against the removal of a candidate.
pub open spec fn inventory_refusal(
    inventory: Seq<InventoryWorktreeView>,
    candidate: WorktreeInspectionView,
) -> Option<SafetyRefusalView> {
    let entries = entries_at(inventory, candidate.path);
    let current = entries[0];
    if entries.len() == 0 {
        Some(
            refusal(
                ReasonCode::WorktreeMissing,
                "the worktree disappeared after classification"@,
            ),
        )
    } else if entries.len() > 1 {
        Some(
            inspection_failure(
                "worktree inventory"@,
                "multiple records matched the candidate path"@,
            ),
        )
    } else if filepath::same_path(inventory[0].path, current.path) {
        Some(refusal(ReasonCode::MainWorktree, "the main worktree is never removable"@))
    } else if current.locked {
        Some(refusal(ReasonCode::LockedWorktree, "the worktree is locked"@))
    } else if current.detached || current.branch is None {
        Some(
            refusal(
                ReasonCode::DetachedWorktree,
                "the worktree no longer has an attached branch"@,
            ),
        )
    } else if current.prunable || current.bare {
        Some(
            refusal(
                ReasonCode::InvalidGitMetadata,
                "the worktree metadata is prunable or bare"@,
            ),
        )
    } else if current.head != candidate.head || current.branch != candidate.branch {
        Some(
            refusal(
                ReasonCode::WorktreeChanged,
                "the worktree branch or HEAD changed after classification"@,
            ),
        )
    } else if count_on_branch(inventory, current.branch) != 1 {
        Some(
            refusal(
                ReasonCode::CheckedOutMultipleTimes,
                "the branch is checked out in more than one worktree"@,
            ),
        )
    } else {
        None
    }
}

/// What the current list of worktrees has against the removal of a candidate.
pub fn check_inventory(
    inventory: &Vec<InventoryWorktree>,
    candidate: &WorktreeInspection,
) -> (result: Option<SafetyRefusal>)
    ensures
        result.deep_view() == inventory_refusal(inventory.deep_view(), candidate.deep_view()),
{
    let (first, more) = find_entries(inventory, &candidate.path);
    let index = match first {
        None => return Some(
            new_refusal(
                ReasonCode::WorktreeMissing,
                "the worktree disappeared after classification",
            ),
        ),
        Some(index) => index,
    };
    if more {
        return Some(
            new_inspection_failure(
                "worktree inventory",
                "multiple records matched the candidate path",
            ),
        );
    }
    let current = &inventory[index];
    assert(inventory.deep_view()[0] == inventory[0].deep_view());
    assert(current.deep_view() == entries_at(inventory.deep_view(), candidate.path@)[0]);
    if inventory[0].path.same_as(&current.path) {
        return Some(new_refusal(ReasonCode::MainWorktree, "the main worktree is never removable"));
    }
    if current.locked {
        return Some(new_refusal(ReasonCode::LockedWorktree, "the worktree is locked"));
    }
    if current.detached || current.branch.is_none() {
        return Some(
            new_refusal(
                ReasonCode::DetachedWorktree,
                "the worktree no longer has an attached branch",
            ),
        );
    }
    if current.prunable || current.bare {
        return Some(
            new_refusal(
                ReasonCode::InvalidGitMetadata,
                "the worktree metadata is prunable or bare",
            ),
        );
    }
    if !text::same_text(current.head.as_str(), candidate.head.as_str())
        || !text::same_optional_text(&current.branch, &candidate.branch) {
        return Some(
            new_refusal(
                ReasonCode::WorktreeChanged,
                "the worktree branch or HEAD changed after classification",
            ),
        );
    }
    if count_branch(inventory, &current.branch) != 1 {
        return Some(
            new_refusal(
                ReasonCode::CheckedOutMultipleTimes,
                "the branch is checked out in more than one worktree",
            ),
        );
    }
    None
}

/// The command that tells whether a worktree is clean.
pub open spec fn status_command(path: Seq<u8>, timeout: u64) -> command::CommandLineView {
    command::git_command(
        "git"@,
        None,
        seq![
            "-C"@,
            text::lossy_text(path),
            "status"@,
            "--porcelain=v1"@,
            "-z"@,
            "--untracked-files=all"@,
        ],
        false,
        Some(timeout),
    )
}

fn new_status_command(path: &FilePath, timeout: u64) -> (line: CommandLine)
    ensures
        line.deep_view() == status_command(path@, timeout),
{
    let shown = path.display();
    let mut arguments = command::texts4("-C", shown.as_str(), "status", "--porcelain=v1");
    text::push_text(&mut arguments, "-z");
    text::push_text(&mut arguments, "--untracked-files=all");
    assert(arguments.deep_view() =~= seq![
        "-C"@,
        text::lossy_text(path@),
        "status"@,
        "--porcelain=v1"@,
        "-z"@,
        "--untracked-files=all"@,
    ]);
    command::new_git_command("git", None, arguments, false, Some(timeout))
}

/// What the status of a worktree has against its removal.
pub open spec fn status_refusal(status: CommandResultView) -> Option<SafetyRefusalView> {
    match status {
        CommandResultView::Exited { code, stdout, stderr } => if !command::succeeded(code) {
            Some(inspection_failure("git status"@, flow::stderr_text(stderr)))
        } else if stdout.len() > 0 {
            Some(
                refusal(
                    ReasonCode::DirtyWorktree,
                    "the worktree has staged, modified, or untracked files"@,
                ),
            )
        } else {
            None
        },
        _ => Some(inspection_failure("git status"@, run_error(status))),
    }
}

/// What the status of a worktree has against its removal.
pub fn check_status(status: &CommandResult) -> (result: Option<SafetyRefusal>)
    ensures
        result.deep_view() == status_refusal(status.deep_view()),
{
    match status {
        CommandResult::Exited { code, stdout, stderr } => {
            if !command::is_success(*code) {
                let message = flow::stderr_message(stderr);
                return Some(new_inspection_failure("git status", message.as_str()));
            }
            if stdout.len() > 0 {
                return Some(
                    new_refusal(
                        ReasonCode::DirtyWorktree,
                        "the worktree has staged, modified, or untracked files",
                    ),
                );
            }
            None
        },
        CommandResult::Failed(error) => {
            let message = text::concat2("failed to start command: ", error.as_str());
            Some(new_inspection_failure("git status", message.as_str()))
        },
        CommandResult::TimedOut => Some(new_inspection_failure("git status", "command timed out")),
    }
}

/// What the answer of a process inspection has against a removal.
pub open spec fn process_refusal(in_use: Result<bool, Seq<char>>) -> Option<SafetyRefusalView> {
    match in_use {
        Ok(true) => Some(
            refusal(
                ReasonCode::ProcessUsingWorktree,
                "a live process has its current directory in the worktree"@,
            ),
        ),
        Ok(false) => None,
        Err(message) => Some(inspection_failure("process inspection"@, message)),
    }
}

/// What the answer of a process inspection has against a removal.
pub fn check_process_answer(in_use: Result<bool, String>) -> (result: Option<SafetyRefusal>)
    ensures
        result.deep_view() == process_refusal(flow::result_view(in_use)),
{
    match in_use {
        Ok(true) => Some(
            new_refusal(
                ReasonCode::ProcessUsingWorktree,
                "a live process has its current directory in the worktree",
            ),
        ),
        Ok(false) => None,
        Err(message) => Some(new_inspection_failure("process inspection", message.as_str())),
    }
}

/// The refusal as the end of a check; no refusal is success.
pub open spec fn verdict(refusal: Option<SafetyRefusalView>) -> Result<(), SafetyRefusalView> {
    match refusal {
        None => Ok(()),
        Some(refusal) => Err(refusal),
    }
}

/// Everything that is rechecked of a candidate but its use by processes; in the end its
/// canonical path, which is its path.
pub open spec fn facts_flow(
    repository: Seq<u8>,
    candidate: WorktreeInspectionView,
    timeout: u64,
    replies: Seq<ReplyView>,
    at: int,
) -> Flow<Result<Seq<u8>, SafetyRefusalView>> {
    match inspection::inventory_flow(repository, timeout, replies, at) {
        Flow::Ask(request) => Flow::Ask(request),
        Flow::Done(Err(message), next) => Flow::Done(
            Err(inspection_failure("worktree inventory"@, message)),
            next,
        ),
        Flow::Done(Ok(inventory), next) => match inventory_refusal(inventory, candidate) {
            Some(refusal) => Flow::Done(Err(refusal), next),
            None => match flow::canonical_flow(candidate.path, replies, next) {
                Flow::Ask(request) => Flow::Ask(request),
                Flow::Done(Err(failure), next) => Flow::Done(
                    Err(
                        refusal(
                            ReasonCode::WorktreeMissing,
                            "cannot resolve worktree path: "@ + failure.message,
                        ),
                    ),
                    next,
                ),
                Flow::Done(Ok(canonical), next) => if !filepath::same_path(
                    canonical,
                    candidate.path,
                ) {
                    Flow::Done(
                        Err(
                            refusal(
                                ReasonCode::WorktreeChanged,
                                "the worktree path changed after classification"@,
                            ),
                        ),
                        next,
                    )
                } else {
                    match flow::run_flow(status_command(candidate.path, timeout), replies, next) {
                        Flow::Ask(request) => Flow::Ask(request),
                        Flow::Done(status, next) => match status_refusal(status) {
                            Some(refusal) => Flow::Done(Err(refusal), next),
                            None => Flow::Done(Ok(canonical), next),
                        },
                    }
                },
            },
        },
    }
}

fn check_facts(
    repository: &FilePath,
    candidate: &WorktreeInspection,
    timeout: u64,
    replies: &Vec<Reply>,
    at: usize,
) -> (step: Step<Result<FilePath, SafetyRefusal>>)
    ensures
        flow::step_view(step) == facts_flow(
            repository@,
            candidate.deep_view(),
            timeout,
            replies.deep_view(),
            at as int,
        ),
{
    let (inventory, next) = match inspection::worktree_inventory(repository, timeout, replies, at) {
        Step::Ask(request) => return Step::Ask(request),
        Step::Done(Err(message), next) => return Step::Done(
            Err(new_inspection_failure("worktree inventory", message.as_str())),
            next,
        ),
        Step::Done(Ok(inventory), next) => (inventory, next),
    };
    match check_inventory(&inventory, candidate) {
        Some(refusal) => return Step::Done(Err(refusal), next),
        None => {},
    }
    let (canonical, next) = match flow::canonical_step(&candidate.path, replies, next) {
        Step::Ask(request) => return Step::Ask(request),
        Step::Done(Err(failure), next) => {
            let message = text::concat2("cannot resolve worktree path: ", failure.message.as_str());
            return Step::Done(
                Err(new_refusal(ReasonCode::WorktreeMissing, message.as_str())),
                next,
            );
        },
        Step::Done(Ok(canonical), next) => (canonical, next),
    };
    if !canonical.same_as(&candidate.path) {
        return Step::Done(
            Err(
                new_refusal(
                    ReasonCode::WorktreeChanged,
                    "the worktree path changed after classification",
                ),
            ),
            next,
        );
    }
    match flow::run_step(new_status_command(&candidate.path, timeout), replies, next) {
        Step::Ask(request) => Step::Ask(request),
        Step::Done(status, next) => match check_status(&status) {
            Some(refusal) => Step::Done(Err(refusal), next),
            None => Step::Done(Ok(canonical), next),
        },
    }
}

/// The command that lists the current directories of all processes.
pub open spec fn lsof_command(timeout: u64) -> command::CommandLineView {
    command::git_command(
        "/usr/sbin/lsof"@,
        None,
        seq!["-n"@, "-w"@, "-a"@, "-d"@, "cwd"@, "-F0pn"@],
        false,
        Some(timeout),
    )
}

fn new_lsof_command(timeout: u64) -> (line: CommandLine)
    ensures
        line.deep_view() == lsof_command(timeout),
{
    let mut arguments = command::texts4("-n", "-w", "-a", "-d");
    text::push_text(&mut arguments, "cwd");
    text::push_text(&mut arguments, "-F0pn");
    assert(arguments.deep_view() =~= seq!["-n"@, "-w"@, "-a"@, "-d"@, "cwd"@, "-F0pn"@]);
    command::new_git_command("/usr/sbin/lsof", None, arguments, false, Some(timeout))
}

/// The recheck of a candidate; where `check_processes` says so, the processes not in `ignored`
/// are looked at last.
pub open spec fn check_flow(
    repository: Seq<u8>,
    candidate: WorktreeInspectionView,
    check_processes: bool,
    timeout: u64,
    ignored: Seq<u32>,
    replies: Seq<ReplyView>,
    at: int,
) -> Flow<Result<(), SafetyRefusalView>> {
    match facts_flow(repository, candidate, timeout, replies, at) {
        Flow::Ask(request) => Flow::Ask(request),
        Flow::Done(Err(refusal), next) => Flow::Done(Err(refusal), next),
        Flow::Done(Ok(canonical), next) => if !check_processes {
            Flow::Done(Ok(()), next)
        } else if next >= replies.len() {
            Flow::Ask(RequestView::ListCurrentDirectories(lsof_command(timeout)))
        } else {
            let listing = command::current_directories(replies[next]);
            Flow::Done(
                verdict(process_refusal(in_use(listing, canonical, ignored))),
                next + 1,
            )
        },
    }
}

/// Rechecks a candidate like [`check_candidate`], but takes no notice of the current directories
/// of the processes in `ignored`.
pub fn check_candidate_ignoring_processes(
    repository: &FilePath,
    candidate: &WorktreeInspection,
    check_processes: bool,
    timeout: u64,
    ignored: &Vec<u32>,
    replies: &Vec<Reply>,
    at: usize,
) -> (step: Step<Result<(), SafetyRefusal>>)
    ensures
        flow::step_view(step) == check_flow(
            repository@,
            candidate.deep_view(),
            check_processes,
            timeout,
            ignored@,
            replies.deep_view(),
            at as int,
        ),
{
    let (canonical, next) = match check_facts(repository, candidate, timeout, replies, at) {
        Step::Ask(request) => return Step::Ask(request),
        Step::Done(Err(refusal), next) => return Step::Done(Err(refusal), next),
        Step::Done(Ok(canonical), next) => (canonical, next),
    };
    if !check_processes {
        return Step::Done(Ok(()), next);
    }
    if next >= replies.len() {
        return Step::Ask(Request::ListCurrentDirectories(new_lsof_command(timeout)));
    }
    let inspector = PlatformProcessInspector {
        listing: replies[next].current_directories(),
        ignored: clone_processes(ignored),
    };
    match check_process_answer(inspector.worktree_in_use(&canonical, timeout)) {
        Some(refusal) => Step::Done(Err(refusal), next + 1),
        None => Step::Done(Ok(()), next + 1),
    }
}

/// A copy of a list of processes.
pub fn clone_processes(processes: &Vec<u32>) -> (copy: Vec<u32>)
    ensures
        copy@ == processes@,
{
    let mut copy: Vec<u32> = Vec::new();
    let mut i: usize = 0;
    while i < processes.len()
        invariant
            i <= processes.len(),
            copy@ == processes@.take(i as int),
        decreases processes.len() - i,
    {
        copy.push(processes[i]);
        i += 1;
        assert(copy@ =~= processes@.take(i as int));
    }
    assert(processes@.take(i as int) =~= processes@);
    copy
}

/// Rechecks mutable worktree safety facts immediately before a possible removal.
///
/// Any fact that is negative or cannot be inspected leads to a refusal.
pub fn check_candidate(
    repository: &FilePath,
    candidate: &WorktreeInspection,
    check_processes: bool,
    timeout: u64,
    replies: &Vec<Reply>,
    at: usize,
) -> (step: Step<Result<(), SafetyRefusal>>)
    ensures
        flow::step_view(step) == check_flow(
            repository@,
            candidate.deep_view(),
            check_processes,
            timeout,
            Seq::empty(),
            replies.deep_view(),
            at as int,
        ),
{
    let none: Vec<u32> = Vec::new();
    assert(none@ =~= Seq::empty());
    check_candidate_ignoring_processes(
        repository,
        candidate,
        check_processes,
        timeout,
        &none,
        replies,
        at,
    )
}

/// The recheck of a candidate where an inspector of processes gives `answer` on its path.
pub open spec fn answered_flow(
    repository: Seq<u8>,
    candidate: WorktreeInspectionView,
    check_processes: bool,
    timeout: u64,
    answer: Result<bool, Seq<char>>,
    replies: Seq<ReplyView>,
    at: int,
) -> Flow<Result<(), SafetyRefusalView>> {
    match facts_flow(repository, candidate, timeout, replies, at) {
        Flow::Ask(request) => Flow::Ask(request),
        Flow::Done(Err(refusal), next) => Flow::Done(Err(refusal), next),
        Flow::Done(Ok(canonical), next) => if !check_processes {
            Flow::Done(Ok(()), next)
        } else {
            Flow::Done(verdict(process_refusal(answer)), next)
        },
    }
}

/// Whether the inspector of processes is asked at all: processes are checked, and every other fact
/// speaks for the removal.
pub open spec fn asks_inspector(
    repository: Seq<u8>,
    candidate: WorktreeInspectionView,
    check_processes: bool,
    timeout: u64,
    replies: Seq<ReplyView>,
    at: int,
) -> bool {
    check_processes && facts_flow(repository, candidate, timeout, replies, at) matches Flow::Done(
        Ok(_),
        _,
    )
}

/// Rechecks a candidate with another inspector of processes. Where the inspector is asked, it is
/// asked about the canonical path of the candidate, and its answer decides.
pub fn check_candidate_with_inspector<I: ProcessInspector>(
    repository: &FilePath,
    candidate: &WorktreeInspection,
    check_processes: bool,
    timeout: u64,
    process_inspector: &I,
    replies: &Vec<Reply>,
    at: usize,
) -> (step: Step<Result<(), SafetyRefusal>>)
    ensures
        !asks_inspector(
            repository@,
            candidate.deep_view(),
            check_processes,
            timeout,
            replies.deep_view(),
            at as int,
        ) ==> flow::step_view(step) == answered_flow(
            repository@,
            candidate.deep_view(),
            check_processes,
            timeout,
            Ok(false),
            replies.deep_view(),
            at as int,
        ),
        asks_inspector(
            repository@,
            candidate.deep_view(),
            check_processes,
            timeout,
            replies.deep_view(),
            at as int,
        ) ==> exists|canonical: FilePath, answer: Result<bool, String>|
            #[trigger] call_ensures(
                I::worktree_in_use,
                (process_inspector, &canonical, timeout),
                answer,
            ) && canonical@ == facts_flow(
                repository@,
                candidate.deep_view(),
                timeout,
                replies.deep_view(),
                at as int,
            )->Done_0->Ok_0 && flow::step_view(step) == answered_flow(
                repository@,
                candidate.deep_view(),
                check_processes,
                timeout,
                flow::result_view(answer),
                replies.deep_view(),
                at as int,
            ),
{
    let (canonical, next) = match check_facts(repository, candidate, timeout, replies, at) {
        Step::Ask(request) => return Step::Ask(request),
        Step::Done(Err(refusal), next) => return Step::Done(Err(refusal), next),
        Step::Done(Ok(canonical), next) => (canonical, next),
    };
    if !check_processes {
        return Step::Done(Ok(()), next);
    }
    let answer = process_inspector.worktree_in_use(&canonical, timeout);
    assert(call_ensures(I::worktree_in_use, (process_inspector, &canonical, timeout), answer));
    match check_process_answer(answer) {
        Some(refusal) => Step::Done(Err(refusal), next),
        None => Step::Done(Ok(()), next),
    }
}

/// What became of the branch of a removed worktree.
#[derive(Debug, Clone, Copy, PartialEq, Eq, Structural)]
pub enum BranchOutcome {
    Deleted,
    Deferred,
    NotAttempted,
    RetainedUnmerged,
    RetainedCheckedOut,
    RetainedRaced,
    RetainedFailed,
}

impl DeepView for BranchOutcome {
    type V = BranchOutcome;

    open spec fn deep_view(&self) -> BranchOutcome {
        *self
    }
}

/// A removal that happened.
#[derive(Debug, PartialEq, Eq)]
pub struct RemovalResult {
    pub branch_outcome: BranchOutcome,
    pub branch_checked_out_at: Option<FilePath>,
}

/// The content of a [`RemovalResult`].
pub struct RemovalResultView {
    pub branch_outcome: BranchOutcome,
    pub branch_checked_out_at: Option<Seq<u8>>,
}

impl DeepView for RemovalResult {
    type V = RemovalResultView;

    open spec fn deep_view(&self) -> RemovalResultView {
        RemovalResultView {
            branch_outcome: self.branch_outcome,
            branch_checked_out_at: self.branch_checked_out_at.deep_view(),
        }
    }
}

/// One row of the document that a removal prints.
#[derive(Debug, PartialEq, Eq)]
pub struct RemovalRow {
    pub kind: String,
    pub branch: Option<String>,
    pub path: FilePath,
    pub branch_outcome: BranchOutcome,
    pub branch_checked_out_at: Option<FilePath>,
}

/// The content of a [`RemovalRow`].
pub struct RemovalRowView {
    pub kind: Seq<char>,
    pub branch: Option<Seq<char>>,
    pub path: Seq<u8>,
    pub branch_outcome: BranchOutcome,
    pub branch_checked_out_at: Option<Seq<u8>>,
}

impl DeepView for RemovalRow {
    type V = RemovalRowView;

    open spec fn deep_view(&self) -> RemovalRowView {
        RemovalRowView {
            kind: self.kind@,
            branch: self.branch.deep_view(),
            path: self.path@,
            branch_outcome: self.branch_outcome,
            branch_checked_out_at: self.branch_checked_out_at.deep_view(),
        }
    }
}

impl Clone for RemovalRow {
    fn clone(&self) -> (copy: Self)
        ensures
            copy.deep_view() == self.deep_view(),
    {
        RemovalRow {
            kind: self.kind.clone(),
            branch: text::clone_optional(&self.branch),
            path: self.path.clone(),
            branch_outcome: self.branch_outcome,
            branch_checked_out_at: filepath::clone_optional(&self.branch_checked_out_at),
        }
    }
}

/// Why a removal cannot be counted on.
#[derive(Debug, PartialEq, Eq)]
pub enum RemovalError {
    Unavailable(String),
    TimedOut,
    Command(String),
    MalformedJson(String),
    MalformedResult(String),
}

/// The content of a [`RemovalError`].
pub enum RemovalErrorView {
    Unavailable(Seq<char>),
    TimedOut,
    Command(Seq<char>),
    MalformedJson(Seq<char>),
    MalformedResult(Seq<char>),
}

impl DeepView for RemovalError {
    type V = RemovalErrorView;

    open spec fn deep_view(&self) -> RemovalErrorView {
        match self {
            RemovalError::Unavailable(value) => RemovalErrorView::Unavailable(value@),
            RemovalError::TimedOut => RemovalErrorView::TimedOut,
            RemovalError::Command(value) => RemovalErrorView::Command(value@),
            RemovalError::MalformedJson(value) => RemovalErrorView::MalformedJson(value@),
            RemovalError::MalformedResult(value) => RemovalErrorView::MalformedResult(value@),
        }
    }
}

/// The message of an error.
pub open spec fn removal_message(error: RemovalErrorView) -> Seq<char> {
    match error {
        RemovalErrorView::Unavailable(message) => "Worktrunk is unavailable: "@ + message,
        RemovalErrorView::TimedOut => "Worktrunk removal timed out"@,
        RemovalErrorView::Command(message) => "Worktrunk removal failed: "@ + message,
        RemovalErrorView::MalformedJson(message) => "malformed Worktrunk removal JSON: "@ + message,
        RemovalErrorView::MalformedResult(message) => "malformed Worktrunk removal result: "@
            + message,
    }
}

impl RemovalError {
    /// The message of the error.
    pub fn message(&self) -> (message: String)
        ensures
            message@ == removal_message(self.deep_view()),
    {
        match self {
            RemovalError::Unavailable(message) => text::concat2(
                "Worktrunk is unavailable: ",
                message.as_str(),
            ),
            RemovalError::TimedOut => "Worktrunk removal timed out".to_owned(),
            RemovalError::Command(message) => text::concat2(
                "Worktrunk removal failed: ",
                message.as_str(),
            ),
            RemovalError::MalformedJson(message) => text::concat2(
                "malformed Worktrunk removal JSON: ",
                message.as_str(),
            ),
            RemovalError::MalformedResult(message) => text::concat2(
                "malformed Worktrunk removal result: ",
                message.as_str(),
            ),
        }
    }
}

/// The command that removes a worktree. It neither forces the removal nor ends processes.
pub open spec fn remove_command(
    repository: Seq<u8>,
    worktree: Seq<u8>,
    timeout: u64,
) -> command::CommandLineView {
    command::git_command(
        "wt"@,
        None,
        seq![
            "-C"@,
            text::lossy_text(repository),
            "remove"@,
            "--foreground"@,
            "--format=json"@,
            "--yes"@,
            text::lossy_text(worktree),
        ],
        false,
        Some(timeout),
    )
}

fn new_remove_command(
    repository: &FilePath,
    worktree: &FilePath,
    timeout: u64,
) -> (line: CommandLine)
    ensures
        line.deep_view() == remove_command(repository@, worktree@, timeout),
{
    let shown_repository = repository.display();
    let shown_worktree = worktree.display();
    let mut arguments = command::texts4("-C", shown_repository.as_str(), "remove", "--foreground");
    text::push_text(&mut arguments, "--format=json");
    text::push_text(&mut arguments, "--yes");
    text::push_text(&mut arguments, shown_worktree.as_str());
    assert(arguments.deep_view() =~= seq![
        "-C"@,
        text::lossy_text(repository@),
        "remove"@,
        "--foreground"@,
        "--format=json"@,
        "--yes"@,
        text::lossy_text(worktree@),
    ]);
    command::new_git_command("wt", None, arguments, false, Some(timeout))
}

/// What the rows of a removal document say of the removal of the worktree at `expected`.
pub open spec fn removal_result(rows: Seq<RemovalRowView>, expected: Seq<u8>) -> Result<
    RemovalResultView,
    RemovalErrorView,
> {
    let row = rows[0];
    if rows.len() != 1 {
        Err(
            RemovalErrorView::MalformedResult(
                "expected one result, received "@ + text::decimal_text(rows.len()),
            ),
        )
    } else if row.kind != "worktree"@ {
        Err(
            RemovalErrorView::MalformedResult(
                "expected worktree result, received "@ + text::quoted_text(row.kind),
            ),
        )
    } else if !filepath::same_path(row.path, expected) {
        Err(
            RemovalErrorView::MalformedResult(
                "result path "@ + text::lossy_text(row.path) + " did not match "@
                    + text::lossy_text(expected),
            ),
        )
    } else if row.branch is None {
        Err(RemovalErrorView::MalformedResult("result omitted the attached branch"@))
    } else if row.branch_outcome is Deferred {
        Err(
            RemovalErrorView::MalformedResult(
                "foreground removal unexpectedly deferred branch deletion"@,
            ),
        )
    } else {
        Ok(
            RemovalResultView {
                branch_outcome: row.branch_outcome,
                branch_checked_out_at: row.branch_checked_out_at,
            },
        )
    }
}

/// What the rows of a removal document say of the removal of the worktree at `expected`.
pub fn parse_removal(rows: &Vec<RemovalRow>, expected: &FilePath) -> (result: Result<
    RemovalResult,
    RemovalError,
>)
    ensures
        flow::result_view(result) == removal_result(rows.deep_view(), expected@),
{
    if rows.len() != 1 {
        let count = text::decimal(rows.len() as u64);
        return Err(
            RemovalError::MalformedResult(
                text::concat2("expected one result, received ", count.as_str()),
            ),
        );
    }
    let row = &rows[0];
    assert(rows.deep_view()[0] == row.deep_view());
    if !text::same_text(row.kind.as_str(), "worktree") {
        let kind = text::quoted(row.kind.as_str());
        return Err(
            RemovalError::MalformedResult(
                text::concat2("expected worktree result, received ", kind.as_str()),
            ),
        );
    }
    if !row.path.same_as(expected) {
        let found = row.path.display();
        let wanted = expected.display();
        return Err(
            RemovalError::MalformedResult(
                text::concat4("result path ", found.as_str(), " did not match ", wanted.as_str()),
            ),
        );
    }
    if row.branch.is_none() {
        return Err(
            RemovalError::MalformedResult("result omitted the attached branch".to_owned()),
        );
    }
    if row.branch_outcome == BranchOutcome::Deferred {
        return Err(
            RemovalError::MalformedResult(
                "foreground removal unexpectedly deferred branch deletion".to_owned(),
            ),
        );
    }
    Ok(
        RemovalResult {
            branch_outcome: row.branch_outcome,
            branch_checked_out_at: filepath::clone_optional(&row.branch_checked_out_at),
        },
    )
}

/// The removal of one worktree: one command, and the document that it prints.
pub open spec fn remove_flow(
    repository: Seq<u8>,
    worktree: Seq<u8>,
    timeout: u64,
    replies: Seq<ReplyView>,
    at: int,
) -> Flow<Result<RemovalResultView, RemovalErrorView>> {
    match flow::run_flow(remove_command(repository, worktree, timeout), replies, at) {
        Flow::Ask(request) => Flow::Ask(request),
        Flow::Done(CommandResultView::Failed(error), next) => Flow::Done(
            Err(RemovalErrorView::Unavailable(error)),
            next,
        ),
        Flow::Done(CommandResultView::TimedOut, next) => Flow::Done(
            Err(RemovalErrorView::TimedOut),
            next,
        ),
        Flow::Done(CommandResultView::Exited { code, stdout, stderr }, next) => {
            if !command::succeeded(code) {
                Flow::Done(Err(RemovalErrorView::Command(flow::stderr_text(stderr))), next)
            } else if next >= replies.len() {
                Flow::Ask(RequestView::DecodeRemoval(stdout))
            } else {
                match command::removal_rows(replies[next]) {
                    Err(error) => Flow::Done(Err(RemovalErrorView::MalformedJson(error)), next + 1),
                    Ok(rows) => Flow::Done(removal_result(rows, worktree), next + 1),
                }
            }
        },
    }
}

/// Removes one worktree through Worktrunk without any force or reaping flags.
///
/// It is an error when Worktrunk fails, times out, or returns an ambiguous result.
pub fn remove_worktree(
    repository: &FilePath,
    worktree: &FilePath,
    timeout: u64,
    replies: &Vec<Reply>,
    at: usize,
) -> (step: Step<Result<RemovalResult, RemovalError>>)
    ensures
        flow::step_view(step) == remove_flow(
            repository@,
            worktree@,
            timeout,
            replies.deep_view(),
            at as int,
        ),
{
    let (result, next) = match flow::run_step(
        new_remove_command(repository, worktree, timeout),
        replies,
        at,
    ) {
        Step::Ask(request) => return Step::Ask(request),
        Step::Done(result, next) => (result, next),
    };
    match result {
        CommandResult::Failed(error) => Step::Done(Err(RemovalError::Unavailable(error)), next),
        CommandResult::TimedOut => Step::Done(Err(RemovalError::TimedOut), next),
        CommandResult::Exited { code, stdout, stderr } => {
            if !command::is_success(code) {
                let message = flow::stderr_message(&stderr);
                return Step::Done(Err(RemovalError::Command(message)), next);
            }
            if next >= replies.len() {
                return Step::Ask(Request::DecodeRemoval(stdout));
            }
            match &replies[next] {
                Reply::Removal(Ok(rows)) => Step::Done(parse_removal(rows, worktree), next + 1),
                Reply::Removal(Err(error)) => Step::Done(
                    Err(RemovalError::MalformedJson(error.clone())),
                    next + 1,
                ),
                _ => Step::Done(
                    Err(RemovalError::MalformedJson(command::UNEXPECTED_REPLY.to_owned())),
                    next + 1,
                ),
            }
        },
    }
}

proof fn lemma_entries(inventory: Seq<InventoryWorktreeView>, path: Seq<u8>)
    ensures
        forall|k: int|
            0 <= k < entries_at(inventory, path).len() ==> filepath::same_path(
                (#[trigger] entries_at(inventory, path)[k]).path,
                path,
            ) && inventory.contains(entries_at(inventory, path)[k]),
    decreases inventory.len(),
{
    if inventory.len() > 0 {
        let shorter = inventory.drop_last();
        lemma_entries(shorter, path);
        let entries = entries_at(inventory, path);
        assert forall|k: int| 0 <= k < entries.len() implies filepath::same_path(
            (#[trigger] entries[k]).path,
            path,
        ) && inventory.contains(entries[k]) by {
            let before = entries_at(shorter, path);
            if k < before.len() {
                assert(entries[k] == before[k]);
                let j = choose|j: int| 0 <= j < shorter.len() && shorter[j] == before[k];
                assert(inventory[j] == entries[k]);
            } else {
                assert(inventory[inventory.len() - 1] == entries[k]);
            }
        }
    }
}

/// Whether a worktree was seen to be safe to remove: listed once, at the candidate's path, with
/// the candidate's commit and branch, attached, unlocked, with sound metadata, not the main
/// worktree, and alone on its branch.
pub open spec fn safely_listed(
    inventory: Seq<InventoryWorktreeView>,
    candidate: WorktreeInspectionView,
) -> bool {
    exists|current: InventoryWorktreeView|
        {
            &&& #[trigger] inventory.contains(current)
            &&& entries_at(inventory, candidate.path) == seq![current]
            &&& filepath::same_path(current.path, candidate.path)
            &&& current.head == candidate.head
            &&& current.branch == candidate.branch
            &&& current.branch is Some
            &&& !current.detached && !current.locked && !current.prunable && !current.bare
            &&& !filepath::same_path(inventory[0].path, candidate.path)
            &&& count_on_branch(inventory, current.branch) == 1
        }
}

/// Whether three replies tell that a candidate is safe to remove, but for processes: the current
/// list of worktrees is there and has the candidate safely listed; its canonical path is its path;
/// and Git reports its status, and reports nothing in it.
pub open spec fn safe_facts(
    candidate: WorktreeInspectionView,
    replies: Seq<ReplyView>,
    at: int,
) -> bool {
    &&& at + 2 < replies.len()
    &&& inspection::listed(command::command_result(replies[at])) matches Ok(inventory)
        && safely_listed(inventory, candidate)
    &&& command::canonical_path(replies[at + 1]) matches Ok(canonical) && filepath::same_path(
        canonical,
        candidate.path,
    )
    &&& command::command_result(replies[at + 2]) matches CommandResultView::Exited {
        code,
        stdout,
        stderr,
    } && command::succeeded(code) && stdout.len() == 0
}

proof fn lemma_inventory_refusal(
    inventory: Seq<InventoryWorktreeView>,
    candidate: WorktreeInspectionView,
)
    ensures
        inventory_refusal(inventory, candidate) is None <==> safely_listed(inventory, candidate),
{
    let entries = entries_at(inventory, candidate.path);
    lemma_entries(inventory, candidate.path);
    if inventory_refusal(inventory, candidate) is None {
        let current = entries[0];
        assert(filepath::same_path(current.path, candidate.path));
        assert(entries =~= seq![current]);
        assert(inventory.contains(current));
    }
    if safely_listed(inventory, candidate) {
        let current = choose|current: InventoryWorktreeView|
            {
                &&& #[trigger] inventory.contains(current)
                &&& entries == seq![current]
                &&& filepath::same_path(current.path, candidate.path)
                &&& current.head == candidate.head
                &&& current.branch == candidate.branch
                &&& current.branch is Some
                &&& !current.detached && !current.locked && !current.prunable && !current.bare
                &&& !filepath::same_path(inventory[0].path, candidate.path)
                &&& count_on_branch(inventory, current.branch) == 1
            };
        assert(entries[0] == current);
    }
}

/// A candidate passes the recheck exactly on these facts: it is safe to remove as the list of
/// worktrees, its canonical path and its status tell it; and where processes are checked, no
/// process that counts has its current directory there, or the inspector that was asked says that
/// the worktree is not in use. The main worktree never passes.
pub proof fn law_checks_pass_exactly_on_safe_facts(
    repository: Seq<u8>,
    candidate: WorktreeInspectionView,
    check_processes: bool,
    timeout: u64,
    ignored: Seq<u32>,
    answer: Result<bool, Seq<char>>,
    replies: Seq<ReplyView>,
    at: int,
)
    requires
        0 <= at,
    ensures
        (check_flow(repository, candidate, check_processes, timeout, ignored, replies, at)
            matches Flow::Done(Ok(()), _)) <==> safe_facts(candidate, replies, at) && (
        check_processes ==> at + 3 < replies.len() && in_use(
            command::current_directories(replies[at + 3]),
            command::canonical_path(replies[at + 1])->Ok_0,
            ignored,
        ) == Ok::<bool, Seq<char>>(false)),
        (answered_flow(repository, candidate, check_processes, timeout, answer, replies, at)
            matches Flow::Done(Ok(()), _)) <==> safe_facts(candidate, replies, at) && (
        check_processes ==> answer == Ok::<bool, Seq<char>>(false)),
{
    if at < replies.len() {
        if let Ok(inventory) = inspection::listed(command::command_result(replies[at])) {
            lemma_inventory_refusal(inventory, candidate);
        }
    }
}

/// Until its verdict is there, a recheck only ever looks: no request of it removes anything.
pub open spec fn only_looks(request: RequestView) -> bool {
    match request {
        RequestView::Run(line) => {
            ||| line.program == "git"@ && line.arguments.len() == 4 && line.arguments[0]
                == "worktree"@ && line.arguments[1] == "list"@
            ||| line.program == "git"@ && line.arguments.len() == 6 && line.arguments[2]
                == "status"@
        },
        RequestView::Canonicalize(_) => true,
        RequestView::ListCurrentDirectories(_) => true,
        _ => false,
    }
}

/// A recheck asks for nothing but the list of worktrees, the canonical path, the status of the
/// worktree, and the current directories of processes.
pub proof fn law_check_only_looks(
    repository: Seq<u8>,
    candidate: WorktreeInspectionView,
    check_processes: bool,
    timeout: u64,
    ignored: Seq<u32>,
    replies: Seq<ReplyView>,
    at: int,
)
    ensures
        check_flow(repository, candidate, check_processes, timeout, ignored, replies, at)
            matches Flow::Ask(request) ==> only_looks(request),
{
}

/// A field of a list of current directories that is at or below `worktree`.
pub open spec fn field_within(field: Seq<u8>, worktree: Seq<u8>) -> bool {
    text::bytes_after(field, "p"@) is None && (text::bytes_after(field, "n"@) matches Some(path)
        && filepath::path_within(path, worktree))
}

proof fn lemma_directory_listed(
    fields: Seq<Seq<u8>>,
    process: Option<nat>,
    worktree: Seq<u8>,
    ignored: Seq<u32>,
)
    ensures
        directory_listed(fields, process, worktree, ignored) == Ok::<bool, Seq<char>>(true)
            ==> exists|k: int| 0 <= k < fields.len() && #[trigger] field_within(
                fields[k],
                worktree,
            ),
        directory_listed(fields, process, worktree, ignored) == Ok::<bool, Seq<char>>(false)
            && ignored.len() == 0 ==> forall|k: int|
            0 <= k < fields.len() ==> !#[trigger] field_within(fields[k], worktree),
    decreases fields.len(),
{
    if fields.len() > 0 {
        let rest = fields.skip(1);
        let next = if text::bytes_after(fields[0], "p"@) is Some {
            field_process(fields[0])
        } else {
            process
        };
        lemma_directory_listed(rest, next, worktree, ignored);
        let result = directory_listed(fields, process, worktree, ignored);
        if result == Ok::<bool, Seq<char>>(true) {
            if field_within(fields[0], worktree) {
            } else {
                let k = choose|k: int| 0 <= k < rest.len() && #[trigger] field_within(
                    rest[k],
                    worktree,
                );
                assert(field_within(fields[k + 1], worktree));
            }
        }
        if result == Ok::<bool, Seq<char>>(false) && ignored.len() == 0 {
            assert forall|k: int| 0 <= k < fields.len() implies !#[trigger] field_within(
                fields[k],
                worktree,
            ) by {
                if k > 0 {
                    assert(!field_within(rest[k - 1], worktree));
                }
            }
        }
    }
}

/// A list of current directories makes a worktree count as used only where it names the worktree
/// or a path below it; and where no process is ignored, each such name makes it count as used.
pub proof fn law_only_the_worktree_or_descendants_are_in_use(
    list: Seq<u8>,
    worktree: Seq<u8>,
    ignored: Seq<u32>,
)
    ensures
        listed_in_use(list, worktree, ignored) == Ok::<bool, Seq<char>>(true) ==> exists|k: int|
            0 <= k < text::split_bytes(list, 0, 10).len() && #[trigger] field_within(
                text::split_bytes(list, 0, 10)[k],
                worktree,
            ),
        listed_in_use(list, worktree, ignored) == Ok::<bool, Seq<char>>(false) && ignored.len()
            == 0 ==> forall|k: int|
            0 <= k < text::split_bytes(list, 0, 10).len() ==> !#[trigger] field_within(
                text::split_bytes(list, 0, 10)[k],
                worktree,
            ),
{
    lemma_directory_listed(text::split_bytes(list, 0, 10), None, worktree, ignored);
}

} // verus!
