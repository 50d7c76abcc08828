//! What scheduled runs find around them.
use crate::command::{Reply, ReplyView};
use crate::discovery::Discovery;
use crate::filepath;
use crate::filepath::{FilePath, ShownPath, ShownPathView};
use crate::flow;
use crate::flow::{Flow, Step};
use crate::launch_agent::{Programs, ProgramsView, ScheduleEnvironment, ScheduleEnvironmentView};
use crate::schedule;
use crate::schedule::ScheduleContext;
use crate::schedule::error::{ScheduleError, ScheduleErrorView};
use crate::schedule::steps;
use crate::schedule::steps::COLON;
use crate::text;
use vstd::prelude::*;
use vstd::utf8::*;

verus! {

/// The directories, which are in order, with one more in its place, unless it is there already.
pub open spec fn insert_directory(directories: Seq<Seq<u8>>, directory: Seq<u8>) -> Seq<Seq<u8>>
    decreases directories.len(),
{
    if directories.len() == 0 {
        seq![directory]
    } else if filepath::same_path(directories.last(), directory) {
        directories
    } else if filepath::path_before(directories.last(), directory) {
        directories.push(directory)
    } else {
        insert_directory(directories.drop_last(), directory).push(directories.last())
    }
}

fn insert_ordered(directories: Vec<FilePath>, directory: FilePath) -> (inserted: Vec<FilePath>)
    ensures
        inserted.deep_view() == insert_directory(directories.deep_view(), directory@),
    decreases directories.len(),
{
    let ghost all = directories.deep_view();
    let mut rest = directories;
    match rest.pop() {
        None => {
            let mut inserted = rest;
            let ghost added = directory@;
            filepath::push_path(&mut inserted, directory);
            assert(inserted.deep_view() =~= seq![added]);
            inserted
        },
        Some(last) => {
            assert(rest.deep_view() =~= all.drop_last());
            assert(last@ == all.last());
            if last.same_as(&directory) {
                filepath::push_path(&mut rest, last);
                assert(rest.deep_view() =~= all);
                rest
            } else if last.is_before(&directory) {
                filepath::push_path(&mut rest, last);
                assert(rest.deep_view() =~= all);
                filepath::push_path(&mut rest, directory);
                rest
            } else {
                let mut inserted = insert_ordered(rest, directory);
                filepath::push_path(&mut inserted, last);
                inserted
            }
        },
    }
}

/// The directories, with the one that a program is in.
pub open spec fn insert_parent(directories: Seq<Seq<u8>>, program: Seq<u8>) -> Seq<Seq<u8>> {
    match filepath::parent_path(program) {
        None => directories,
        Some(parent) => insert_directory(directories, parent),
    }
}

fn with_parent(directories: Vec<FilePath>, program: &FilePath) -> (inserted: Vec<FilePath>)
    ensures
        inserted.deep_view() == insert_parent(directories.deep_view(), program@),
{
    match program.parent() {
        None => directories,
        Some(parent) => insert_ordered(directories, parent),
    }
}

/// The directories that a scheduled run looks up programs in, in order and each once: those of
/// its own programs, and those of the system.
pub open spec fn run_directories(lop: Seq<u8>, git: Seq<u8>, worktrunk: Seq<u8>) -> Seq<Seq<u8>> {
    let programs = insert_parent(
        insert_parent(insert_parent(Seq::empty(), lop), git),
        worktrunk,
    );
    insert_directory(
        insert_directory(programs, encode_utf8("/usr/bin"@)),
        encode_utf8("/bin"@),
    )
}

/// The directories with colons between them; nothing where one of them holds a colon itself.
pub open spec fn joined_directories(directories: Seq<Seq<u8>>) -> Option<Seq<u8>>
    decreases directories.len(),
{
    if directories.len() == 0 {
        Some(Seq::empty())
    } else {
        match joined_directories(directories.drop_last()) {
            None => None,
            Some(front) => if directories.last().contains(COLON) {
                None
            } else if directories.len() == 1 {
                Some(directories.last())
            } else {
                Some(front.push(COLON) + directories.last())
            },
        }
    }
}

fn holds_byte(bytes: &Vec<u8>, byte: u8) -> (found: bool)
    ensures
        found == bytes@.contains(byte),
{
    let mut i: usize = 0;
    while i < bytes.len()
        invariant
            i <= bytes.len(),
            forall|j: int| 0 <= j < i ==> bytes[j] != byte,
        decreases bytes.len() - i,
    {
        if bytes[i] == byte {
            assert(bytes@[i as int] == byte);
            return true;
        }
        i += 1;
    }
    false
}

fn append_bytes(bytes: &mut Vec<u8>, more: &Vec<u8>)
    ensures
        final(bytes)@ == old(bytes)@ + more@,
{
    let ghost before = bytes@;
    let mut i: usize = 0;
    assert(before + more@.take(0) =~= before);
    while i < more.len()
        invariant
            i <= more.len(),
            bytes@ == before + more@.take(i as int),
        decreases more.len() - i,
    {
        bytes.push(more[i]);
        assert(before + more@.take(i + 1) =~= (before + more@.take(i as int)).push(more[i as int]));
        i += 1;
    }
    assert(more@.take(i as int) =~= more@);
}

proof fn lemma_joined_directories(directories: Seq<Seq<u8>>, n: int)
    requires
        0 <= n <= directories.len(),
        joined_directories(directories.take(n)) is None,
    ensures
        joined_directories(directories) is None,
    decreases directories.len() - n,
{
    if n == directories.len() {
        assert(directories.take(n) =~= directories);
    } else {
        assert(directories.take(n + 1).drop_last() =~= directories.take(n));
        lemma_joined_directories(directories, n + 1);
    }
}

fn join_directories(directories: &Vec<FilePath>) -> (joined: Option<FilePath>)
    ensures
        joined.deep_view() == joined_directories(directories.deep_view()),
{
    let ghost all = directories.deep_view();
    let mut bytes: Vec<u8> = Vec::new();
    let mut i: usize = 0;
    assert(all.take(0) =~= Seq::empty());
    assert(bytes@ =~= Seq::empty());
    while i < directories.len()
        invariant
            i <= directories.len(),
            all == directories.deep_view(),
            joined_directories(all.take(i as int)) == Some(bytes@),
        decreases directories.len() - i,
    {
        let ghost before = bytes@;
        assert(all.take(i + 1).drop_last() =~= all.take(i as int));
        assert(all.take(i + 1).last() == directories[i as int]@);
        let directory = &directories[i].bytes;
        if holds_byte(directory, COLON) {
            proof {
                lemma_joined_directories(all, i + 1);
            }
            return None;
        }
        if i > 0 {
            bytes.push(COLON);
        } else {
            assert(before =~= Seq::empty());
            assert(before + directory@ =~= directory@);
        }
        append_bytes(&mut bytes, directory);
        i += 1;
    }
    assert(all.take(i as int) =~= all);
    Some(FilePath::new(bytes))
}

/// What a scheduled run of the program `lop` finds around it.
pub open spec fn run_environment(
    lop: Seq<u8>,
    git: Seq<u8>,
    worktrunk: Seq<u8>,
    ssh_auth_sock: Option<ShownPathView>,
) -> Result<ScheduleEnvironmentView, ScheduleErrorView> {
    match joined_directories(run_directories(lop, git, worktrunk)) {
        None => Err(ScheduleErrorView::Discovery("path segment contains separator `:`"@)),
        Some(path) => Ok(
            ScheduleEnvironmentView {
                programs: ProgramsView { lop, git, worktrunk, path: text::lossy_text(path) },
                ssh_auth_sock: schedule::set_path(ssh_auth_sock),
            },
        ),
    }
}

/// Puts together what a scheduled run of the program `lop` finds around it.
pub fn new_environment(
    lop: FilePath,
    git: FilePath,
    worktrunk: FilePath,
    ssh_auth_sock: &Option<ShownPath>,
) -> (result: Result<ScheduleEnvironment, ScheduleError>)
    ensures
        flow::result_view(result) == run_environment(
            lop@,
            git@,
            worktrunk@,
            ssh_auth_sock.deep_view(),
        ),
{
    let mut directories: Vec<FilePath> = Vec::new();
    assert(directories.deep_view() =~= Seq::empty());
    directories = with_parent(directories, &lop);
    directories = with_parent(directories, &git);
    directories = with_parent(directories, &worktrunk);
    directories = insert_ordered(directories, FilePath::from_text("/usr/bin"));
    directories = insert_ordered(directories, FilePath::from_text("/bin"));
    match join_directories(&directories) {
        None => Err(ScheduleError::Discovery("path segment contains separator `:`".to_owned())),
        Some(path) => Ok(
            ScheduleEnvironment {
                programs: Programs { lop, git, worktrunk, path: path.display() },
                ssh_auth_sock: schedule::path_set(ssh_auth_sock),
            },
        ),
    }
}

/// The preparation of what a scheduled run finds around it.
pub open spec fn environment_flow(
    executable: Result<Seq<u8>, Seq<char>>,
    search_path: Option<Seq<u8>>,
    ssh_auth_sock: Option<ShownPathView>,
    replies: Seq<ReplyView>,
    at: int,
) -> Flow<Result<ScheduleEnvironmentView, ScheduleErrorView>> {
    let directories = steps::search_directories(search_path);
    match executable {
        Err(source) => Flow::Done(
            Err(ScheduleErrorView::Spawn { program: "current executable"@, source }),
            at,
        ),
        Ok(lop) => match steps::find_flow("git"@, directories, 0, replies, at) {
            Flow::Ask(request) => Flow::Ask(request),
            Flow::Done(Err(error), next) => Flow::Done(Err(error), next),
            Flow::Done(Ok(git), next) => match steps::find_flow("wt"@, directories, 0, replies, next) {
                Flow::Ask(request) => Flow::Ask(request),
                Flow::Done(Err(error), next) => Flow::Done(Err(error), next),
                Flow::Done(Ok(worktrunk), next) => Flow::Done(
                    run_environment(lop, git, worktrunk, ssh_auth_sock),
                    next,
                ),
            },
        },
    }
}

/// Prepares what a scheduled run finds around it.
pub fn prepare_environment(context: &ScheduleContext, replies: &Vec<Reply>, at: usize) -> (step:
    Step<Result<ScheduleEnvironment, ScheduleError>>)
    ensures
        flow::step_view(step) == environment_flow(
            context.deep_view().executable,
            context.deep_view().search_path,
            context.deep_view().ssh_auth_sock,
            replies.deep_view(),
            at as int,
        ),
{
    let lop = match &context.executable {
        Err(source) => {
            return Step::Done(
                Err(
                    ScheduleError::Spawn {
                        program: "current executable".to_owned(),
                        source: source.clone(),
                    },
                ),
                at,
            );
        },
        Ok(lop) => lop.clone(),
    };
    let (git, next) = match steps::find_executable("git", &context.search_path, replies, at) {
        Step::Ask(request) => return Step::Ask(request),
        Step::Done(Err(error), next) => return Step::Done(Err(error), next),
        Step::Done(Ok(git), next) => (git, next),
    };
    match steps::find_executable("wt", &context.search_path, replies, next) {
        Step::Ask(request) => Step::Ask(request),
        Step::Done(Err(error), next) => Step::Done(Err(error), next),
        Step::Done(Ok(worktrunk), next) => Step::Done(
            new_environment(lop, git, worktrunk, &context.ssh_auth_sock),
            next,
        ),
    }
}

} // verus!
