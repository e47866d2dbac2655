//! Changing what is known of a file: its size, its times, its name, and whether it stays.

use crate::attr::{FileInfo, FileType, SetFileAttr, UnixTime};
use crate::context::{report_plan, resize_plan, InfoPlan, OpenFile, Report, Resize, UnitPlan};
use crate::filetime::{
    lemma_tick_round_trip, since_epoch, system_time_from_filetime, tick_time, time_tick, LAST_TICK,
    WINDOWS_EPOCH_OFFSET,
};
use crate::path::texts;
use crate::plan::Plan;
use crate::protocol::{follows, Answer, Operation, Reply, Request, Step, StoreReply};
use crate::resolve::{parent_plan, ParentWalk};
use crate::status::{
    error_status, fs_error_to_status, status_result, to_status, NTSTATUS,
    STATUS_DIRECTORY_NOT_EMPTY, STATUS_FILE_IS_A_DIRECTORY, STATUS_MEDIA_WRITE_PROTECTED,
    STATUS_OBJECT_NAME_COLLISION,
};
use std::time::SystemTime;
use vstd::pervasive::unreached;
use vstd::prelude::*;

verus! {

/// Changing the size of an open file, and reporting the file afterwards.
pub open spec fn refit_plan(file: OpenFile, new_size: u64) -> InfoPlan {
    resize_plan(file, new_size).bind(refit_resized(file.ino))
}

pub open spec fn refit_resized(ino: u64) -> spec_fn(Result<(), NTSTATUS>) -> InfoPlan {
    |resized: Result<(), NTSTATUS>|
        match resized {
            Ok(()) => report_plan(ino),
            Err(status) => Plan::Done(Err(status)),
        }
}

/// Emptying an open file, to write it anew.
pub open spec fn overwrite_plan(read_only: bool, file: OpenFile) -> InfoPlan {
    if read_only {
        Plan::Done(Err(STATUS_MEDIA_WRITE_PROTECTED))
    } else if file.is_dir {
        Plan::Done(Err(STATUS_FILE_IS_A_DIRECTORY))
    } else {
        refit_plan(file, 0)
    }
}

/// Setting the size of an open file, or the space that it may take. The store reserves no
/// space, so the latter only cuts off what a file has beyond it.
pub open spec fn set_file_size_plan(
    read_only: bool,
    file: OpenFile,
    new_size: u64,
    set_allocation_size: bool,
) -> InfoPlan {
    if read_only {
        Plan::Done(Err(STATUS_MEDIA_WRITE_PROTECTED))
    } else if file.is_dir {
        Plan::Done(Err(STATUS_FILE_IS_A_DIRECTORY))
    } else {
        refit_sizing(file, new_size, set_allocation_size)
    }
}

pub open spec fn refit_sizing(
    file: OpenFile,
    new_size: u64,
    set_allocation_size: bool,
) -> InfoPlan {
    Plan::Ask(
        Request::GetAttr { ino: file.ino },
        |reply: Answer|
            match reply->Attr_0 {
                Ok(current) => if !set_allocation_size || new_size < current.size {
                    refit_plan(file, new_size)
                } else {
                    report_plan(file.ino)
                },
                Err(error) => Plan::Done(Err(error_status(error))),
            },
    )
}

/// The changing of a size and the report that follows, under way.
pub enum Refit {
    Sizing { file: OpenFile, new_size: u64, set_allocation_size: bool },
    Resizing { resize: Resize, ino: u64 },
    Reporting { report: Report },
}

impl Refit {
    /// Begins to empty an open file.
    pub fn overwrite(read_only: bool, file: OpenFile) -> (step: Step<
        Refit,
        Result<FileInfo, NTSTATUS>,
    >)
        ensures
            follows(step, overwrite_plan(read_only, file)),
    {
        if read_only {
            return Step::Done(Err(STATUS_MEDIA_WRITE_PROTECTED));
        }
        if file.is_dir {
            return Step::Done(Err(STATUS_FILE_IS_A_DIRECTORY));
        }
        match Resize::start(file, 0) {
            Step::Ask { request, next } => Step::Ask {
                request,
                next: Refit::Resizing { resize: next, ino: file.ino },
            },
            _ => unreached(),
        }
    }

    /// Begins to set the size of an open file, or the space that it may take.
    pub fn set_file_size(
        read_only: bool,
        file: OpenFile,
        new_size: u64,
        set_allocation_size: bool,
    ) -> (step: Step<Refit, Result<FileInfo, NTSTATUS>>)
        ensures
            follows(step, set_file_size_plan(read_only, file, new_size, set_allocation_size)),
    {
        if read_only {
            return Step::Done(Err(STATUS_MEDIA_WRITE_PROTECTED));
        }
        if file.is_dir {
            return Step::Done(Err(STATUS_FILE_IS_A_DIRECTORY));
        }
        Step::Ask {
            request: Request::GetAttr { ino: file.ino },
            next: Refit::Sizing { file, new_size, set_allocation_size },
        }
    }
}

impl Operation for Refit {
    type Output = Result<FileInfo, NTSTATUS>;

    type Outcome = Result<FileInfo, NTSTATUS>;

    open spec fn outcome(output: Self::Output) -> Self::Outcome {
        output
    }

    open spec fn plan(&self) -> InfoPlan {
        match *self {
            Refit::Sizing { file, new_size, set_allocation_size } => refit_sizing(
                file,
                new_size,
                set_allocation_size,
            ),
            Refit::Resizing { resize, ino } => resize.plan().part_of(refit_resized(ino)),
            Refit::Reporting { report } => report.plan(),
        }
    }

    fn resume(self, reply: StoreReply) -> (step: Step<Self, Self::Output>) {
        match (self, reply) {
            (
                Refit::Sizing { file, new_size, set_allocation_size },
                Reply::Attr(Ok(current)),
            ) => {
                if !set_allocation_size || new_size < current.size {
                    match Resize::start(file, new_size) {
                        Step::Ask { request, next } => Step::Ask {
                            request,
                            next: Refit::Resizing { resize: next, ino: file.ino },
                        },
                        _ => unreached(),
                    }
                } else {
                    Step::Ask {
                        request: Request::GetAttr { ino: file.ino },
                        next: Refit::Reporting { report: Report { ino: file.ino } },
                    }
                }
            },
            (Refit::Sizing { .. }, Reply::Attr(Err(error))) => Step::Done(
                Err(fs_error_to_status(error)),
            ),
            (Refit::Resizing { resize, ino }, reply) => {
                proof {
                    resize.plan().lemma_part_of(refit_resized(ino), reply@);
                }
                match resize.resume(reply) {
                    Step::Ask { request, next } => Step::Ask {
                        request,
                        next: Refit::Resizing { resize: next, ino },
                    },
                    Step::Done(Ok(())) => Step::Ask {
                        request: Request::GetAttr { ino },
                        next: Refit::Reporting { report: Report { ino } },
                    },
                    Step::Done(Err(status)) => Step::Done(Err(status)),
                    Step::Overflow => Step::Overflow,
                }
            },
            (Refit::Reporting { report }, reply) => match report.resume(reply) {
                Step::Ask { request, next } => Step::Ask {
                    request,
                    next: Refit::Reporting { report: next },
                },
                Step::Done(output) => Step::Done(output),
                Step::Overflow => Step::Overflow,
            },
            _ => unreached(),
        }
    }
}

/// The times that Windows sets, in ticks; a time of zero stays as it is.
#[derive(Debug, Clone, Copy, PartialEq, Eq, Structural)]
pub struct BasicTimes {
    pub creation_time: u64,
    pub last_access_time: u64,
    pub last_write_time: u64,
    pub change_time: u64,
}

/// The Unix time of a tick, or nothing for a time that stays.
pub open spec fn new_time(tick: u64) -> Option<UnixTime> {
    if tick != 0 {
        Some(Some(tick_time(tick)))
    } else {
        None
    }
}

impl BasicTimes {
    /// Whether every time is one that a system time can hold.
    pub open spec fn representable(self) -> bool {
        &&& self.creation_time <= LAST_TICK
        &&& self.last_access_time <= LAST_TICK
        &&& self.last_write_time <= LAST_TICK
        &&& self.change_time <= LAST_TICK
    }

    /// The times that the store is to change.
    pub open spec fn update(self) -> SetFileAttr<UnixTime> {
        SetFileAttr {
            crtime: new_time(self.creation_time),
            atime: new_time(self.last_access_time),
            mtime: new_time(self.last_write_time),
            ctime: new_time(self.change_time),
        }
    }

    /// The times that the store is to change.
    pub fn to_update(self) -> (update: SetFileAttr<SystemTime>)
        requires
            self.representable(),
        ensures
            update@ == self.update(),
    {
        let mut update = SetFileAttr { crtime: None, atime: None, mtime: None, ctime: None };
        if self.creation_time != 0 {
            update.crtime = Some(system_time_from_filetime(self.creation_time));
        }
        if self.last_access_time != 0 {
            update.atime = Some(system_time_from_filetime(self.last_access_time));
        }
        if self.last_write_time != 0 {
            update.mtime = Some(system_time_from_filetime(self.last_write_time));
        }
        if self.change_time != 0 {
            update.ctime = Some(system_time_from_filetime(self.change_time));
        }
        update
    }
}

/// A time that Windows sets is the time that Windows is told later, as long as the store keeps
/// it; one before the Unix epoch becomes the epoch.
pub proof fn lemma_set_time_is_reported(tick: u64, kept: SystemTime)
    requires
        0 < tick <= LAST_TICK,
        new_time(tick) == Some(since_epoch(kept)),
    ensures
        time_tick(kept) == if tick < WINDOWS_EPOCH_OFFSET {
            WINDOWS_EPOCH_OFFSET
        } else {
            tick
        },
{
    lemma_tick_round_trip(tick);
}

/// Setting the times of an open file or directory.
pub open spec fn set_basic_info_plan(read_only: bool, ino: u64, times: BasicTimes) -> InfoPlan {
    if read_only {
        Plan::Done(Err(STATUS_MEDIA_WRITE_PROTECTED))
    } else if times.representable() {
        updating(ino, times.update())
    } else {
        Plan::Overflow
    }
}

pub open spec fn updating(ino: u64, update: SetFileAttr<UnixTime>) -> InfoPlan {
    Plan::Ask(
        Request::SetAttr { ino, update },
        |reply: Answer|
            match reply->Unit_0 {
                Ok(()) => report_plan(ino),
                Err(error) => Plan::Done(Err(error_status(error))),
            },
    )
}

/// The setting of times, under way.
pub enum SetBasicInfo {
    Updating { ino: u64, asked: Ghost<SetFileAttr<UnixTime>> },
    Reporting { report: Report },
}

impl SetBasicInfo {
    /// Begins to set the times of an open file or directory.
    pub fn start(read_only: bool, ino: u64, times: BasicTimes) -> (step: Step<
        SetBasicInfo,
        Result<FileInfo, NTSTATUS>,
    >)
        ensures
            follows(step, set_basic_info_plan(read_only, ino, times)),
    {
        if read_only {
            return Step::Done(Err(STATUS_MEDIA_WRITE_PROTECTED));
        }
        if times.creation_time > LAST_TICK || times.last_access_time > LAST_TICK
            || times.last_write_time > LAST_TICK || times.change_time > LAST_TICK {
            return Step::Overflow;
        }
        let asked: Ghost<SetFileAttr<UnixTime>> = Ghost(times.update());
        Step::Ask {
            request: Request::SetAttr { ino, update: times.to_update() },
            next: SetBasicInfo::Updating { ino, asked },
        }
    }
}

impl Operation for SetBasicInfo {
    type Output = Result<FileInfo, NTSTATUS>;

    type Outcome = Result<FileInfo, NTSTATUS>;

    open spec fn outcome(output: Self::Output) -> Self::Outcome {
        output
    }

    open spec fn plan(&self) -> InfoPlan {
        match *self {
            SetBasicInfo::Updating { ino, asked } => updating(ino, asked@),
            SetBasicInfo::Reporting { report } => report.plan(),
        }
    }

    fn resume(self, reply: StoreReply) -> (step: Step<Self, Self::Output>) {
        match (self, reply) {
            (SetBasicInfo::Updating { ino, .. }, Reply::Unit(Ok(()))) => Step::Ask {
                request: Request::GetAttr { ino },
                next: SetBasicInfo::Reporting { report: Report { ino } },
            },
            (SetBasicInfo::Updating { .. }, Reply::Unit(Err(error))) => Step::Done(
                Err(fs_error_to_status(error)),
            ),
            (SetBasicInfo::Reporting { report }, reply) => match report.resume(reply) {
                Step::Ask { request, next } => Step::Ask {
                    request,
                    next: SetBasicInfo::Reporting { report: next },
                },
                Step::Done(output) => Step::Done(output),
                Step::Overflow => Step::Overflow,
            },
            _ => unreached(),
        }
    }
}

/// Saying whether an open file or directory may be deleted: a directory has to be empty.
pub open spec fn set_delete_plan(read_only: bool, file: OpenFile, delete_file: bool) -> UnitPlan {
    if read_only {
        Plan::Done(Err(STATUS_MEDIA_WRITE_PROTECTED))
    } else if delete_file && file.is_dir {
        counting(file.ino)
    } else {
        Plan::Done(Ok(()))
    }
}

pub open spec fn counting(ino: u64) -> UnitPlan {
    Plan::Ask(
        Request::Len { ino },
        |reply: Answer|
            Plan::Done(
                match reply->Count_0 {
                    Ok(len) => if len > 0 {
                        Err(STATUS_DIRECTORY_NOT_EMPTY)
                    } else {
                        Ok(())
                    },
                    Err(error) => Err(error_status(error)),
                },
            ),
    )
}

/// The saying whether something may be deleted, under way.
pub struct SetDelete {
    pub ino: u64,
}

impl SetDelete {
    /// Begins to say whether an open file or directory may be deleted.
    pub fn start(read_only: bool, file: OpenFile, delete_file: bool) -> (step: Step<
        SetDelete,
        Result<(), NTSTATUS>,
    >)
        ensures
            follows(step, set_delete_plan(read_only, file, delete_file)),
    {
        if read_only {
            return Step::Done(Err(STATUS_MEDIA_WRITE_PROTECTED));
        }
        if delete_file && file.is_dir {
            Step::Ask {
                request: Request::Len { ino: file.ino },
                next: SetDelete { ino: file.ino },
            }
        } else {
            Step::Done(Ok(()))
        }
    }
}

impl Operation for SetDelete {
    type Output = Result<(), NTSTATUS>;

    type Outcome = Result<(), NTSTATUS>;

    open spec fn outcome(output: Self::Output) -> Self::Outcome {
        output
    }

    open spec fn plan(&self) -> UnitPlan {
        counting(self.ino)
    }

    fn resume(self, reply: StoreReply) -> (step: Step<Self, Self::Output>) {
        match reply {
            Reply::Count(Ok(len)) => {
                if len > 0 {
                    Step::Done(Err(STATUS_DIRECTORY_NOT_EMPTY))
                } else {
                    Step::Done(Ok(()))
                }
            },
            Reply::Count(Err(error)) => Step::Done(Err(fs_error_to_status(error))),
            _ => unreached(),
        }
    }
}

/// Renaming a file or directory. What has the new name already makes way if it may be
/// replaced.
pub open spec fn rename_plan(
    read_only: bool,
    names: Seq<Seq<char>>,
    new_names: Seq<Seq<char>>,
    replace_if_exists: bool,
) -> UnitPlan {
    if read_only {
        Plan::Done(Err(STATUS_MEDIA_WRITE_PROTECTED))
    } else {
        parent_plan(names).bind(rename_from(new_names, replace_if_exists))
    }
}

pub open spec fn rename_from(new_names: Seq<Seq<char>>, replace_if_exists: bool) -> spec_fn(
    Result<(u64, Seq<char>), NTSTATUS>,
) -> UnitPlan {
    |resolved: Result<(u64, Seq<char>), NTSTATUS>|
        match resolved {
            Ok((parent, name)) => parent_plan(new_names).bind(
                rename_to(parent, name, replace_if_exists),
            ),
            Err(status) => Plan::Done(Err(status)),
        }
}

pub open spec fn rename_to(parent: u64, name: Seq<char>, replace_if_exists: bool) -> spec_fn(
    Result<(u64, Seq<char>), NTSTATUS>,
) -> UnitPlan {
    |resolved: Result<(u64, Seq<char>), NTSTATUS>|
        match resolved {
            Ok((new_parent, new_name)) => if parent == new_parent && name == new_name {
                Plan::Done(Ok(()))
            } else {
                rename_looking(parent, name, new_parent, new_name, replace_if_exists)
            },
            Err(status) => Plan::Done(Err(status)),
        }
}

pub open spec fn rename_looking(
    parent: u64,
    name: Seq<char>,
    new_parent: u64,
    new_name: Seq<char>,
    replace_if_exists: bool,
) -> UnitPlan {
    Plan::Ask(
        Request::FindByName { parent: new_parent, name: new_name },
        |reply: Answer|
            match reply->Found_0 {
                Ok(Some(existing)) => if replace_if_exists {
                    rename_replacing(
                        existing.kind == FileType::Directory,
                        parent,
                        name,
                        new_parent,
                        new_name,
                    )
                } else {
                    Plan::Done(Err(STATUS_OBJECT_NAME_COLLISION))
                },
                Ok(None) => renaming(parent, name, new_parent, new_name),
                Err(error) => Plan::Done(Err(error_status(error))),
            },
    )
}

pub open spec fn rename_replacing(
    is_dir: bool,
    parent: u64,
    name: Seq<char>,
    new_parent: u64,
    new_name: Seq<char>,
) -> UnitPlan {
    Plan::Ask(
        if is_dir {
            Request::RemoveDir { parent: new_parent, name: new_name }
        } else {
            Request::RemoveFile { parent: new_parent, name: new_name }
        },
        |reply: Answer|
            match reply->Unit_0 {
                Ok(()) => renaming(parent, name, new_parent, new_name),
                Err(error) => Plan::Done(Err(error_status(error))),
            },
    )
}

pub open spec fn renaming(
    parent: u64,
    name: Seq<char>,
    new_parent: u64,
    new_name: Seq<char>,
) -> UnitPlan {
    Plan::Ask(
        Request::Rename { parent, name, new_parent, new_name },
        |reply: Answer| Plan::Done(status_result(reply->Unit_0)),
    )
}

/// The renaming of a file or directory, under way.
pub enum Rename {
    From { walk: ParentWalk, new_names: Vec<String>, replace_if_exists: bool },
    To { walk: ParentWalk, parent: u64, name: String, replace_if_exists: bool },
    Looking {
        parent: u64,
        name: String,
        new_parent: u64,
        new_name: String,
        replace_if_exists: bool,
    },
    Replacing { is_dir: bool, parent: u64, name: String, new_parent: u64, new_name: String },
    Renaming { asked: Ghost<(u64, Seq<char>, u64, Seq<char>)> },
}

impl Rename {
    /// Begins to rename a file or directory.
    pub fn start(
        read_only: bool,
        names: Vec<String>,
        new_names: Vec<String>,
        replace_if_exists: bool,
    ) -> (step: Step<Rename, Result<(), NTSTATUS>>)
        ensures
            follows(
                step,
                rename_plan(read_only, texts(names@), texts(new_names@), replace_if_exists),
            ),
    {
        if read_only {
            return Step::Done(Err(STATUS_MEDIA_WRITE_PROTECTED));
        }
        match ParentWalk::start(names) {
            Step::Ask { request, next } => Step::Ask {
                request,
                next: Rename::From { walk: next, new_names, replace_if_exists },
            },
            Step::Done(Err(status)) => Step::Done(Err(status)),
            _ => unreached(),
        }
    }
}

impl Operation for Rename {
    type Output = Result<(), NTSTATUS>;

    type Outcome = Result<(), NTSTATUS>;

    open spec fn outcome(output: Self::Output) -> Self::Outcome {
        output
    }

    open spec fn plan(&self) -> UnitPlan {
        match *self {
            Rename::From { walk, new_names, replace_if_exists } => walk.plan().part_of(
                rename_from(texts(new_names@), replace_if_exists),
            ),
            Rename::To { walk, parent, name, replace_if_exists } => walk.plan().part_of(
                rename_to(parent, name@, replace_if_exists),
            ),
            Rename::Looking {
                parent,
                name,
                new_parent,
                new_name,
                replace_if_exists,
            } => rename_looking(parent, name@, new_parent, new_name@, replace_if_exists),
            Rename::Replacing { is_dir, parent, name, new_parent, new_name } => rename_replacing(
                is_dir,
                parent,
                name@,
                new_parent,
                new_name@,
            ),
            Rename::Renaming { asked } => renaming(asked@.0, asked@.1, asked@.2, asked@.3),
        }
    }

    fn resume(self, reply: StoreReply) -> (step: Step<Self, Self::Output>) {
        let (parent, name, new_parent, new_name) = match (self, reply) {
            (Rename::From { walk, new_names, replace_if_exists }, reply) => {
                proof {
                    walk.plan().lemma_part_of(
                        rename_from(texts(new_names@), replace_if_exists),
                        reply@,
                    );
                }
                let (parent, name) = match walk.resume(reply) {
                    Step::Ask { request, next } => {
                        return Step::Ask {
                            request,
                            next: Rename::From { walk: next, new_names, replace_if_exists },
                        };
                    },
                    Step::Done(Ok(resolved)) => resolved,
                    Step::Done(Err(status)) => return Step::Done(Err(status)),
                    Step::Overflow => return Step::Overflow,
                };
                return match ParentWalk::start(new_names) {
                    Step::Ask { request, next } => Step::Ask {
                        request,
                        next: Rename::To { walk: next, parent, name, replace_if_exists },
                    },
                    Step::Done(Err(status)) => Step::Done(Err(status)),
                    _ => unreached(),
                };
            },
            (Rename::To { walk, parent, name, replace_if_exists }, reply) => {
                proof {
                    walk.plan().lemma_part_of(rename_to(parent, name@, replace_if_exists), reply@);
                }
                let (new_parent, new_name) = match walk.resume(reply) {
                    Step::Ask { request, next } => {
                        return Step::Ask {
                            request,
                            next: Rename::To { walk: next, parent, name, replace_if_exists },
                        };
                    },
                    Step::Done(Ok(resolved)) => resolved,
                    Step::Done(Err(status)) => return Step::Done(Err(status)),
                    Step::Overflow => return Step::Overflow,
                };
                if parent == new_parent && name == new_name {
                    return Step::Done(Ok(()));
                }
                return Step::Ask {
                    request: Request::FindByName { parent: new_parent, name: new_name.clone() },
                    next: Rename::Looking {
                        parent,
                        name,
                        new_parent,
                        new_name,
                        replace_if_exists,
                    },
                };
            },
            (
                Rename::Looking { parent, name, new_parent, new_name, replace_if_exists },
                Reply::Found(Ok(Some(existing))),
            ) => {
                if !replace_if_exists {
                    return Step::Done(Err(STATUS_OBJECT_NAME_COLLISION));
                }
                let is_dir = existing.kind == FileType::Directory;
                let request = if is_dir {
                    Request::RemoveDir { parent: new_parent, name: new_name.clone() }
                } else {
                    Request::RemoveFile { parent: new_parent, name: new_name.clone() }
                };
                return Step::Ask {
                    request,
                    next: Rename::Replacing { is_dir, parent, name, new_parent, new_name },
                };
            },
            (
                Rename::Looking { parent, name, new_parent, new_name, .. },
                Reply::Found(Ok(None)),
            ) => (parent, name, new_parent, new_name),
            (Rename::Looking { .. }, Reply::Found(Err(error))) => {
                return Step::Done(Err(fs_error_to_status(error)));
            },
            (
                Rename::Replacing { parent, name, new_parent, new_name, .. },
                Reply::Unit(Ok(())),
            ) => (parent, name, new_parent, new_name),
            (Rename::Replacing { .. }, Reply::Unit(Err(error))) => {
                return Step::Done(Err(fs_error_to_status(error)));
            },
            (Rename::Renaming { .. }, Reply::Unit(result)) => {
                return Step::Done(to_status(result));
            },
            _ => unreached(),
        };
        let asked: Ghost<(u64, Seq<char>, u64, Seq<char>)> = Ghost(
            (parent, name@, new_parent, new_name@),
        );
        Step::Ask {
            request: Request::Rename { parent, name, new_parent, new_name },
            next: Rename::Renaming { asked },
        }
    }
}

} // verus!
