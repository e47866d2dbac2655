//! Open files, and what several operations do with one.

use crate::attr::{checked_file_info, FileInfo};
use crate::path::texts;
use crate::plan::Plan;
use crate::protocol::{
    follows, Answer, DirEntry, Operation, Reply, Request, Step, StorePlan, StoreReply,
};
use crate::resolve::{parent_plan, ParentWalk};
use crate::status::{
    error_status, fs_error_to_status, status_result, to_status, NTSTATUS, STATUS_INVALID_HANDLE,
};
use vstd::pervasive::unreached;
use vstd::prelude::*;

verus! {

/// What stays the same of an open file or directory: its number, its kind, and the modes in
/// which the store has opened it.
#[derive(Debug, Clone, Copy, PartialEq, Eq, Structural)]
pub struct OpenFile {
    pub ino: u64,
    pub is_dir: bool,
    pub read: bool,
    pub write: bool,
}

/// An open file or directory as it is handed to Windows: a file has a store handle, a
/// directory may come to keep a listing.
#[derive(Debug)]
pub struct WindowsFileContext {
    pub file: OpenFile,
    pub handle: Option<u64>,
    pub directory_entries: Option<Vec<DirEntry<String>>>,
}

/// The store handle of an open file; there is none behind a broken lock.
pub open spec fn held_handle(slot: Option<Option<u64>>) -> Result<u64, NTSTATUS> {
    match slot {
        Some(Some(handle)) => Ok(handle),
        _ => Err(STATUS_INVALID_HANDLE),
    }
}

/// The store handle of an open file, from what its lock gave.
pub fn context_handle(slot: Option<Option<u64>>) -> (handle: Result<u64, NTSTATUS>)
    ensures
        handle == held_handle(slot),
{
    match slot {
        Some(Some(handle)) => Ok(handle),
        _ => Err(STATUS_INVALID_HANDLE),
    }
}

pub type InfoPlan = StorePlan<Result<FileInfo, NTSTATUS>>;

/// Asking the store for the attributes of a file, to tell Windows.
pub open spec fn report_plan(ino: u64) -> InfoPlan {
    Plan::Ask(
        Request::GetAttr { ino },
        |reply: Answer|
            match reply->Attr_0 {
                Ok(attr) => if attr.reportable() {
                    Plan::Done(Ok(attr.info()))
                } else {
                    Plan::Overflow
                },
                Err(error) => Plan::Done(Err(error_status(error))),
            },
    )
}

/// The reporting of a file, under way.
pub struct Report {
    pub ino: u64,
}

impl Report {
    /// Begins to report a file.
    pub fn start(ino: u64) -> (step: Step<Report, Result<FileInfo, NTSTATUS>>)
        ensures
            follows(step, report_plan(ino)),
    {
        Step::Ask { request: Request::GetAttr { ino }, next: Report { ino } }
    }
}

impl Operation for Report {
    type Output = Result<FileInfo, NTSTATUS>;

    type Outcome = Result<FileInfo, NTSTATUS>;

    open spec fn outcome(output: Self::Output) -> Self::Outcome {
        output
    }

    open spec fn plan(&self) -> InfoPlan {
        report_plan(self.ino)
    }

    fn resume(self, reply: StoreReply) -> (step: Step<Self, Self::Output>) {
        match reply {
            Reply::Attr(Ok(attr)) => match checked_file_info(attr) {
                Some(info) => Step::Done(Ok(info)),
                None => Step::Overflow,
            },
            Reply::Attr(Err(error)) => Step::Done(Err(fs_error_to_status(error))),
            _ => unreached(),
        }
    }
}

pub type UnitPlan = StorePlan<Result<(), NTSTATUS>>;

/// Giving the store handle of an open file back to the store, if there is one.
pub open spec fn release_plan() -> UnitPlan {
    Plan::Ask(
        Request::TakeHandle,
        |reply: Answer|
            match reply->Slot_0 {
                Some(Some(handle)) => releasing(handle),
                Some(None) => Plan::Done(Ok(())),
                None => Plan::Done(Err(STATUS_INVALID_HANDLE)),
            },
    )
}

pub open spec fn releasing(handle: u64) -> UnitPlan {
    Plan::Ask(
        Request::Release { handle },
        |reply: Answer| Plan::Done(status_result(reply->Unit_0)),
    )
}

/// The giving back of a store handle, under way.
pub enum Release {
    Taking,
    Releasing { handle: u64 },
}

impl Release {
    /// Begins to give the store handle back.
    pub fn start() -> (step: Step<Release, Result<(), NTSTATUS>>)
        ensures
            follows(step, release_plan()),
    {
        Step::Ask { request: Request::TakeHandle, next: Release::Taking }
    }
}

impl Operation for Release {
    type Output = Result<(), NTSTATUS>;

    type Outcome = Result<(), NTSTATUS>;

    open spec fn outcome(output: Self::Output) -> Self::Outcome {
        output
    }

    open spec fn plan(&self) -> UnitPlan {
        match *self {
            Release::Taking => release_plan(),
            Release::Releasing { handle } => releasing(handle),
        }
    }

    fn resume(self, reply: StoreReply) -> (step: Step<Self, Self::Output>) {
        match (self, reply) {
            (Release::Taking, Reply::Slot(Some(Some(handle)))) => Step::Ask {
                request: Request::Release { handle },
                next: Release::Releasing { handle },
            },
            (Release::Taking, Reply::Slot(Some(None))) => Step::Done(Ok(())),
            (Release::Taking, Reply::Slot(None)) => Step::Done(Err(STATUS_INVALID_HANDLE)),
            (Release::Releasing { .. }, Reply::Unit(result)) => Step::Done(to_status(result)),
            _ => unreached(),
        }
    }
}

/// Changing the size of an open file. The store does so only while the file is closed, so
/// the file is closed first and opened again afterwards, in the same modes.
pub open spec fn resize_plan(file: OpenFile, new_size: u64) -> UnitPlan {
    release_plan().bind(resize_released(file, new_size))
}

pub open spec fn resize_released(file: OpenFile, new_size: u64) -> spec_fn(
    Result<(), NTSTATUS>,
) -> UnitPlan {
    |released: Result<(), NTSTATUS>|
        match released {
            Ok(()) => resizing(file, new_size),
            Err(status) => Plan::Done(Err(status)),
        }
}

pub open spec fn resizing(file: OpenFile, new_size: u64) -> UnitPlan {
    Plan::Ask(
        Request::SetLen { ino: file.ino, size: new_size },
        |reply: Answer|
            match reply->Unit_0 {
                Ok(()) => reopening(file),
                Err(error) => Plan::Done(Err(error_status(error))),
            },
    )
}

pub open spec fn reopening(file: OpenFile) -> UnitPlan {
    Plan::Ask(
        Request::Open { ino: file.ino, read: file.read, write: file.write },
        |reply: Answer|
            match reply->Handle_0 {
                Ok(handle) => storing(handle),
                Err(error) => Plan::Done(Err(error_status(error))),
            },
    )
}

pub open spec fn storing(handle: u64) -> UnitPlan {
    Plan::Ask(
        Request::StoreHandle { handle },
        |reply: Answer|
            Plan::Done(
                if reply->Stored_0 {
                    Ok(())
                } else {
                    Err(STATUS_INVALID_HANDLE)
                },
            ),
    )
}

/// The changing of the size of an open file, under way.
pub enum Resize {
    Releasing { release: Release, file: OpenFile, new_size: u64 },
    Resizing { file: OpenFile, new_size: u64 },
    Reopening { file: OpenFile },
    Storing { handle: u64 },
}

impl Resize {
    /// Begins to change the size of an open file.
    pub fn start(file: OpenFile, new_size: u64) -> (step: Step<Resize, Result<(), NTSTATUS>>)
        ensures
            follows(step, resize_plan(file, new_size)),
    {
        match Release::start() {
            Step::Ask { request, next } => Step::Ask {
                request,
                next: Resize::Releasing { release: next, file, new_size },
            },
            _ => unreached(),
        }
    }
}

impl Operation for Resize {
    type Output = Result<(), NTSTATUS>;

    type Outcome = Result<(), NTSTATUS>;

    open spec fn outcome(output: Self::Output) -> Self::Outcome {
        output
    }

    open spec fn plan(&self) -> UnitPlan {
        match *self {
            Resize::Releasing { release, file, new_size } => release.plan().part_of(
                resize_released(file, new_size),
            ),
            Resize::Resizing { file, new_size } => resizing(file, new_size),
            Resize::Reopening { file } => reopening(file),
            Resize::Storing { handle } => storing(handle),
        }
    }

    fn resume(self, reply: StoreReply) -> (step: Step<Self, Self::Output>) {
        match (self, reply) {
            (Resize::Releasing { release, file, new_size }, reply) => {
                proof {
                    release.plan().lemma_part_of(resize_released(file, new_size), reply@);
                }
                match release.resume(reply) {
                    Step::Ask { request, next } => Step::Ask {
                        request,
                        next: Resize::Releasing { release: next, file, new_size },
                    },
                    Step::Done(Ok(())) => Step::Ask {
                        request: Request::SetLen { ino: file.ino, size: new_size },
                        next: Resize::Resizing { file, new_size },
                    },
                    Step::Done(Err(status)) => Step::Done(Err(status)),
                    Step::Overflow => Step::Overflow,
                }
            },
            (Resize::Resizing { file, .. }, Reply::Unit(Ok(()))) => Step::Ask {
                request: Request::Open { ino: file.ino, read: file.read, write: file.write },
                next: Resize::Reopening { file },
            },
            (Resize::Resizing { .. }, Reply::Unit(Err(error))) => Step::Done(
                Err(fs_error_to_status(error)),
            ),
            (Resize::Reopening { .. }, Reply::Handle(Ok(handle))) => Step::Ask {
                request: Request::StoreHandle { handle },
                next: Resize::Storing { handle },
            },
            (Resize::Reopening { .. }, Reply::Handle(Err(error))) => Step::Done(
                Err(fs_error_to_status(error)),
            ),
            (Resize::Storing { .. }, Reply::Stored(stored)) => Step::Done(
                if stored {
                    Ok(())
                } else {
                    Err(STATUS_INVALID_HANDLE)
                },
            ),
            _ => unreached(),
        }
    }
}

/// Deleting an open file or directory: it is closed, and then its name is removed.
pub open spec fn delete_plan(is_dir: bool, names: Seq<Seq<char>>) -> UnitPlan {
    release_plan().bind(delete_released(is_dir, names))
}

pub open spec fn delete_released(is_dir: bool, names: Seq<Seq<char>>) -> spec_fn(
    Result<(), NTSTATUS>,
) -> UnitPlan {
    |released: Result<(), NTSTATUS>|
        match released {
            Ok(()) => parent_plan(names).bind(delete_resolved(is_dir)),
            Err(status) => Plan::Done(Err(status)),
        }
}

pub open spec fn delete_resolved(is_dir: bool) -> spec_fn(
    Result<(u64, Seq<char>), NTSTATUS>,
) -> UnitPlan {
    |resolved: Result<(u64, Seq<char>), NTSTATUS>|
        match resolved {
            Ok((parent, name)) => removing(is_dir, parent, name),
            Err(status) => Plan::Done(Err(status)),
        }
}

pub open spec fn removing(is_dir: bool, parent: u64, name: Seq<char>) -> UnitPlan {
    Plan::Ask(
        if is_dir {
            Request::RemoveDir { parent, name }
        } else {
            Request::RemoveFile { parent, name }
        },
        |reply: Answer| Plan::Done(status_result(reply->Unit_0)),
    )
}

/// The deleting of an open file or directory, under way.
pub enum DeleteByName {
    Releasing { release: Release, is_dir: bool, names: Vec<String> },
    Resolving { walk: ParentWalk, is_dir: bool },
    Removing { is_dir: bool, asked: Ghost<(u64, Seq<char>)> },
}

impl DeleteByName {
    /// Begins to delete an open file or directory.
    pub fn start(is_dir: bool, names: Vec<String>) -> (step: Step<
        DeleteByName,
        Result<(), NTSTATUS>,
    >)
        ensures
            follows(step, delete_plan(is_dir, texts(names@))),
    {
        match Release::start() {
            Step::Ask { request, next } => Step::Ask {
                request,
                next: DeleteByName::Releasing { release: next, is_dir, names },
            },
            _ => unreached(),
        }
    }
}

impl Operation for DeleteByName {
    type Output = Result<(), NTSTATUS>;

    type Outcome = Result<(), NTSTATUS>;

    open spec fn outcome(output: Self::Output) -> Self::Outcome {
        output
    }

    open spec fn plan(&self) -> UnitPlan {
        match *self {
            DeleteByName::Releasing { release, is_dir, names } => release.plan().part_of(
                delete_released(is_dir, texts(names@)),
            ),
            DeleteByName::Resolving { walk, is_dir } => walk.plan().part_of(
                delete_resolved(is_dir),
            ),
            DeleteByName::Removing { is_dir, asked } => removing(is_dir, asked@.0, asked@.1),
        }
    }

    fn resume(self, reply: StoreReply) -> (step: Step<Self, Self::Output>) {
        let (walked, is_dir) = match (self, reply) {
            (DeleteByName::Releasing { release, is_dir, names }, reply) => {
                proof {
                    release.plan().lemma_part_of(delete_released(is_dir, texts(names@)), reply@);
                }
                match release.resume(reply) {
                    Step::Ask { request, next } => {
                        return Step::Ask {
                            request,
                            next: DeleteByName::Releasing { release: next, is_dir, names },
                        };
                    },
                    Step::Done(Ok(())) => (ParentWalk::start(names), is_dir),
                    Step::Done(Err(status)) => return Step::Done(Err(status)),
                    Step::Overflow => return Step::Overflow,
                }
            },
            (DeleteByName::Resolving { walk, is_dir }, reply) => {
                proof {
                    walk.plan().lemma_part_of(delete_resolved(is_dir), reply@);
                }
                (walk.resume(reply), is_dir)
            },
            (DeleteByName::Removing { .. }, Reply::Unit(result)) => {
                return Step::Done(to_status(result));
            },
            _ => unreached(),
        };
        match walked {
            Step::Ask { request, next } => Step::Ask {
                request,
                next: DeleteByName::Resolving { walk: next, is_dir },
            },
            Step::Done(Ok((parent, name))) => {
                let asked: Ghost<(u64, Seq<char>)> = Ghost((parent, name@));
                let request = if is_dir {
                    Request::RemoveDir { parent, name }
                } else {
                    Request::RemoveFile { parent, name }
                };
                Step::Ask { request, next: DeleteByName::Removing { is_dir, asked } }
            },
            Step::Done(Err(status)) => Step::Done(Err(status)),
            Step::Overflow => Step::Overflow,
        }
    }
}

} // verus!
