//! The lock that keeps runs from overlapping.
use crate::command::{Reply, ReplyView, Request, RequestView};
use crate::command;
use crate::filepath;
use crate::filepath::FilePath;
use crate::flow;
use crate::flow::{Flow, Step};
use crate::text;
use vstd::prelude::*;
use vstd::utf8::*;

verus! {

/// A lock that is held.
#[derive(Debug, PartialEq, Eq)]
pub struct RunLock {
    pub path: FilePath,
}

/// The content of a [`RunLock`].
pub struct RunLockView {
    pub path: Seq<u8>,
}

impl DeepView for RunLock {
    type V = RunLockView;

    open spec fn deep_view(&self) -> RunLockView {
        RunLockView {
            path: self.path@,
        }
    }
}

/// What went wrong on the way to the lock.
#[derive(Debug, PartialEq, Eq)]
pub enum LockFailure {
    /// The directory could not be made.
    CreateDirectory(String),
    /// The file could not be opened.
    Open(String),
    /// Another run holds the lock.
    Contended,
    /// The lock could not be taken for another reason.
    Acquire(String),
}

/// The content of a [`LockFailure`].
pub enum LockFailureView {
    CreateDirectory(Seq<char>),
    Open(Seq<char>),
    Contended,
    Acquire(Seq<char>),
}

impl DeepView for LockFailure {
    type V = LockFailureView;

    open spec fn deep_view(&self) -> LockFailureView {
        match self {
            LockFailure::CreateDirectory(value) => LockFailureView::CreateDirectory(value@),
            LockFailure::Open(value) => LockFailureView::Open(value@),
            LockFailure::Contended => LockFailureView::Contended,
            LockFailure::Acquire(value) => LockFailureView::Acquire(value@),
        }
    }
}

impl Clone for LockFailure {
    fn clone(&self) -> (copy: Self)
        ensures
            copy.deep_view() == self.deep_view(),
    {
        match self {
            LockFailure::CreateDirectory(value) => LockFailure::CreateDirectory(value.clone()),
            LockFailure::Open(value) => LockFailure::Open(value.clone()),
            LockFailure::Contended => LockFailure::Contended,
            LockFailure::Acquire(value) => LockFailure::Acquire(value.clone()),
        }
    }
}

/// Why the lock is not held.
#[derive(Debug, PartialEq, Eq)]
pub enum LockError {
    Contended(FilePath),
    CreateDirectory { path: FilePath, source: String },
    Open { path: FilePath, source: String },
    Acquire { path: FilePath, source: String },
}

/// The content of a [`LockError`].
pub enum LockErrorView {
    Contended(Seq<u8>),
    CreateDirectory { path: Seq<u8>, source: Seq<char> },
    Open { path: Seq<u8>, source: Seq<char> },
    Acquire { path: Seq<u8>, source: Seq<char> },
}

impl DeepView for LockError {
    type V = LockErrorView;

    open spec fn deep_view(&self) -> LockErrorView {
        match self {
            LockError::Contended(value) => LockErrorView::Contended(value@),
            LockError::CreateDirectory { path, source } => LockErrorView::CreateDirectory {
                path: path@,
                source: source@,
            },
            LockError::Open { path, source } => LockErrorView::Open {
                path: path@,
                source: source@,
            },
            LockError::Acquire { path, source } => LockErrorView::Acquire {
                path: path@,
                source: source@,
            },
        }
    }
}

/// The message of an error.
pub open spec fn lock_message(error: LockErrorView) -> Seq<char> {
    match error {
        LockErrorView::Contended(path) => "another Lop run is already active (lock: "@
            + text::lossy_text(path) + ")"@,
        LockErrorView::CreateDirectory { path, source } => "failed to create lock directory "@
            + text::lossy_text(path) + ": "@ + source,
        LockErrorView::Open { path, source } => "failed to open process lock "@
            + text::lossy_text(path) + ": "@ + source,
        LockErrorView::Acquire { path, source } => "failed to acquire process lock "@
            + text::lossy_text(path) + ": "@ + source,
    }
}

impl LockError {
    /// The message of the error.
    pub fn message(&self) -> (message: String)
        ensures
            message@ == lock_message(self.deep_view()),
    {
        match self {
            LockError::Contended(path) => {
                let shown = path.display();
                text::concat3("another Lop run is already active (lock: ", shown.as_str(), ")")
            },
            LockError::CreateDirectory { path, source } => {
                let shown = path.display();
                text::concat4(
                    "failed to create lock directory ",
                    shown.as_str(),
                    ": ",
                    source.as_str(),
                )
            },
            LockError::Open { path, source } => {
                let shown = path.display();
                text::concat4("failed to open process lock ", shown.as_str(), ": ", source.as_str())
            },
            LockError::Acquire { path, source } => {
                let shown = path.display();
                text::concat4(
                    "failed to acquire process lock ",
                    shown.as_str(),
                    ": ",
                    source.as_str(),
                )
            },
        }
    }
}

/// The directory that a file is in; the current one where the path does not tell.
pub open spec fn directory_of(path: Seq<u8>) -> Seq<u8> {
    match filepath::parent_path(path) {
        Some(parent) => parent,
        None => encode_utf8("."@),
    }
}

/// The directory that a file is in.
pub fn containing_directory(path: &FilePath) -> (directory: FilePath)
    ensures
        directory@ == directory_of(path@),
{
    match path.parent() {
        Some(parent) => parent,
        None => FilePath::from_text("."),
    }
}

/// The failure on the way to the lock at `path`, as an error.
pub open spec fn lock_error(path: Seq<u8>, failure: LockFailureView) -> LockErrorView {
    match failure {
        LockFailureView::CreateDirectory(source) => LockErrorView::CreateDirectory {
            path: directory_of(path),
            source,
        },
        LockFailureView::Open(source) => LockErrorView::Open { path, source },
        LockFailureView::Contended => LockErrorView::Contended(path),
        LockFailureView::Acquire(source) => LockErrorView::Acquire { path, source },
    }
}

/// The failure that a reply tells of, if it tells of one.
pub open spec fn lock_failure(reply: ReplyView) -> Option<LockFailureView> {
    match reply {
        ReplyView::Lock(Ok(_)) => None,
        ReplyView::Lock(Err(failure)) => Some(failure),
        _ => Some(LockFailureView::Acquire(command::UNEXPECTED_REPLY@)),
    }
}

/// The taking of the lock at `path`.
pub open spec fn acquire_flow(path: Seq<u8>, replies: Seq<ReplyView>, at: int) -> Flow<
    Result<RunLockView, LockErrorView>,
> {
    if at >= replies.len() {
        Flow::Ask(RequestView::AcquireLock { directory: directory_of(path), path })
    } else {
        Flow::Done(
            match lock_failure(replies[at]) {
                None => Ok(RunLockView { path }),
                Some(failure) => Err(lock_error(path, failure)),
            },
            at + 1,
        )
    }
}

impl RunLock {
    /// Acquires the process-wide lock at `path`. It is an error when the lock cannot be opened or
    /// another run holds it.
    pub fn acquire(path: &FilePath, replies: &Vec<Reply>, at: usize) -> (step: Step<
        Result<RunLock, LockError>,
    >)
        ensures
            flow::step_view(step) == acquire_flow(path@, replies.deep_view(), at as int),
            step matches Step::Done(_, next) ==> next == at + 1 <= replies.len(),
    {
        if at >= replies.len() {
            return Step::Ask(
                Request::AcquireLock { directory: containing_directory(path), path: path.clone() },
            );
        }
        let result = match &replies[at] {
            Reply::Lock(Ok(_)) => Ok(RunLock { path: path.clone() }),
            Reply::Lock(Err(LockFailure::CreateDirectory(source))) => Err(
                LockError::CreateDirectory {
                    path: containing_directory(path),
                    source: source.clone(),
                },
            ),
            Reply::Lock(Err(LockFailure::Open(source))) => Err(
                LockError::Open { path: path.clone(), source: source.clone() },
            ),
            Reply::Lock(Err(LockFailure::Contended)) => Err(LockError::Contended(path.clone())),
            Reply::Lock(Err(LockFailure::Acquire(source))) => Err(
                LockError::Acquire { path: path.clone(), source: source.clone() },
            ),
            _ => Err(
                LockError::Acquire {
                    path: path.clone(),
                    source: command::UNEXPECTED_REPLY.to_owned(),
                },
            ),
        };
        Step::Done(result, at + 1)
    }
}

/// What is told of a lock that one holder has at a time.
pub open spec fn exclusive_lock(held: bool) -> ReplyView {
    if held {
        ReplyView::Lock(Err(LockFailureView::Contended))
    } else {
        ReplyView::Lock(Ok(()))
    }
}

/// Of a lock that one holder has at a time, the lock is got when nobody has it, and is refused
/// under its path while somebody has it.
pub proof fn law_held_locks_are_refused(path: Seq<u8>)
    ensures
        acquire_flow(path, seq![exclusive_lock(false)], 0) == Flow::<
            Result<RunLockView, LockErrorView>,
        >::Done(Ok(RunLockView { path }), 1),
        acquire_flow(path, seq![exclusive_lock(true)], 0) == Flow::<
            Result<RunLockView, LockErrorView>,
        >::Done(Err(LockErrorView::Contended(path)), 1),
{
}

} // verus!
