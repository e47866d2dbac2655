//! What is said while an open file is read, written, changed, renamed or listed, word for
//! word.

use crate::attr::{FileAttr, FileType, UnixTime};
use crate::change::{
    overwrite_plan, refit_plan, refit_resized, rename_from, rename_plan, rename_to,
    set_basic_info_plan, set_delete_plan, set_file_size_plan, BasicTimes,
};
use crate::context::{resize_plan, InfoPlan, OpenFile, UnitPlan};
use crate::conversation::{lemma_report_conversation, told, Talk};
use crate::directory::{collected, offering, offering_first, pending, read_directory_plan};
use crate::filetime::{since_epoch, WINDOWS_EPOCH_OFFSET};
use crate::io::{flush_plan, read_plan, write_plan, CountPlan, WriteMode, WritePlan};
use crate::order::{sorted, Entries};
use crate::plan::Plan;
use crate::protocol::{Answer, Asked, Reply, Request};
use crate::resolve::parent_plan;
use crate::status::{
    error_status, FsError, NTSTATUS, STATUS_DIRECTORY_NOT_EMPTY, STATUS_END_OF_FILE,
    STATUS_FILE_IS_A_DIRECTORY, STATUS_INVALID_HANDLE, STATUS_NOT_A_DIRECTORY,
    STATUS_OBJECT_NAME_COLLISION,
};
use std::time::SystemTime;
use vstd::prelude::*;

verus! {

/// Reading asks how long the file is, and then for the bytes at the very offset, with the
/// handle of the open file; what the store says is what Windows gets. Nothing is read from
/// the end of the file on, without a handle, or from a directory.
pub proof fn lemma_read_conversation(
    file: OpenFile,
    offset: u64,
    attr: FileAttr,
    handle: u64,
    count: usize,
    error: FsError,
)
    requires
        !file.is_dir,
    ensures
        ({
            let plan = read_plan(file, offset);
            let size = (Asked::GetAttr { ino: file.ino }, Answer::Attr(Ok(attr)));
            let peek = (Asked::PeekHandle, Answer::Slot(Some(Some(handle))));
            let read = Asked::Read { ino: file.ino, offset, handle };
            &&& offset < attr.size ==> {
                &&& plan.converses(
                    seq![size, peek, (read, Reply::Count(Ok(count)))],
                    Plan::Done(Ok(count)),
                )
                &&& plan.converses(
                    seq![size, peek, (read, Reply::Count(Err(error)))],
                    Plan::Done(Err(error_status(error))),
                )
                &&& plan.converses(
                    seq![size, (Asked::PeekHandle, Reply::Slot(Some(None)))],
                    Plan::Done(Err(STATUS_INVALID_HANDLE)),
                )
                &&& plan.converses(
                    seq![size, (Asked::PeekHandle, Reply::Slot(None))],
                    Plan::Done(Err(STATUS_INVALID_HANDLE)),
                )
            }
            &&& offset >= attr.size ==> plan.converses(
                seq![size],
                Plan::Done(Err(STATUS_END_OF_FILE)),
            )
            &&& plan.converses(
                seq![(Request::GetAttr { ino: file.ino }, Reply::Attr(Err(error)))],
                Plan::Done(Err(error_status(error))),
            )
        }),
{
    reveal_with_fuel(Plan::converses_from, 4);
}

/// Writing asks for the handle of the open file and for the length of the file, writes once,
/// with that handle, and tells how many bytes the store took and what the file is like
/// afterwards.
pub proof fn lemma_write_conversation(
    file: OpenFile,
    len: usize,
    mode: WriteMode,
    handle: u64,
    before: FileAttr,
    offset: u64,
    count: usize,
    written: usize,
    after: FileAttr,
    error: FsError,
)
    requires
        !file.is_dir,
        mode.placed(before.size, len) == Some((offset, count)),
    ensures
        ({
            let plan = write_plan(false, file, len, mode);
            let peek = (Asked::PeekHandle, Answer::Slot(Some(Some(handle))));
            let size = (Asked::GetAttr { ino: file.ino }, Answer::Attr(Ok(before)));
            let write = Asked::Write { ino: file.ino, offset, count, handle };
            let wrote = (write, Answer::Count(Ok(written)));
            let report = Asked::GetAttr { ino: file.ino };
            &&& plan.converses(
                seq![peek, size, wrote, (report, Reply::Attr(Ok(after)))],
                if after.reportable() {
                    Plan::Done(Ok((written, after.info())))
                } else {
                    Plan::Overflow
                },
            )
            &&& plan.converses(
                seq![peek, size, wrote, (report, Reply::Attr(Err(error)))],
                Plan::Done(Err(error_status(error))),
            )
            &&& plan.converses(
                seq![peek, size, (write, Reply::Count(Err(error)))],
                Plan::Done(Err(error_status(error))),
            )
        }),
{
    reveal_with_fuel(Plan::converses_from, 5);
}

/// A write for which there is no place writes nothing and tells so. Nothing is written without
/// a handle, where the length is not known, or to a directory.
pub proof fn lemma_nothing_is_written(
    file: OpenFile,
    len: usize,
    mode: WriteMode,
    handle: u64,
    before: FileAttr,
    error: FsError,
)
    ensures
        ({
            let plan = write_plan(false, file, len, mode);
            let peek = (Asked::PeekHandle, Answer::Slot(Some(Some(handle))));
            &&& file.is_dir ==> plan == WritePlan::Done(Err(STATUS_FILE_IS_A_DIRECTORY))
            &&& !file.is_dir ==> {
                &&& mode.placed(before.size, len) is None ==> plan.converses(
                    seq![peek, (Asked::GetAttr { ino: file.ino }, Reply::Attr(Ok(before)))],
                    if before.reportable() {
                        Plan::Done(Ok((0, before.info())))
                    } else {
                        Plan::Overflow
                    },
                )
                &&& plan.converses(
                    seq![peek, (Asked::GetAttr { ino: file.ino }, Reply::Attr(Err(error)))],
                    Plan::Done(Err(error_status(error))),
                )
                &&& plan.converses(
                    seq![(Asked::PeekHandle, Reply::Slot(Some(None)))],
                    Plan::Done(Err(STATUS_INVALID_HANDLE)),
                )
                &&& plan.converses(
                    seq![(Asked::PeekHandle, Reply::Slot(None))],
                    Plan::Done(Err(STATUS_INVALID_HANDLE)),
                )
            }
        }),
{
    reveal_with_fuel(Plan::converses_from, 3);
}

/// A directory has no bytes: it is neither read nor given a length, and no request is made.
pub proof fn lemma_directories_have_no_bytes(file: OpenFile, offset: u64, size: u64, flag: bool)
    requires
        file.is_dir,
    ensures
        read_plan(file, offset) == CountPlan::Done(Err(STATUS_FILE_IS_A_DIRECTORY)),
        overwrite_plan(false, file) == InfoPlan::Done(Err(STATUS_FILE_IS_A_DIRECTORY)),
        set_file_size_plan(false, file, size, flag) == InfoPlan::Done(
            Err(STATUS_FILE_IS_A_DIRECTORY),
        ),
{
}

/// Flushing flushes the handle of the open file and then reports the file. On a read-only
/// volume and for a directory it only reports.
pub proof fn lemma_flush_conversation(
    read_only: bool,
    file: OpenFile,
    handle: u64,
    attr: FileAttr,
    error: FsError,
)
    ensures
        ({
            let plan = flush_plan(read_only, file);
            let peek = (Asked::PeekHandle, Answer::Slot(Some(Some(handle))));
            let flush = Asked::Flush { handle };
            let flushed = (flush, Answer::Unit(Ok(())));
            let report = Asked::GetAttr { ino: file.ino };
            let reported: InfoPlan = if attr.reportable() {
                Plan::Done(Ok(attr.info()))
            } else {
                Plan::Overflow
            };
            if read_only || file.is_dir {
                &&& plan.converses(seq![(report, Reply::Attr(Ok(attr)))], reported)
                &&& plan.converses(
                    seq![(report, Reply::Attr(Err(error)))],
                    Plan::Done(Err(error_status(error))),
                )
            } else {
                &&& plan.converses(seq![peek, flushed, (report, Reply::Attr(Ok(attr)))], reported)
                &&& plan.converses(
                    seq![peek, flushed, (report, Reply::Attr(Err(error)))],
                    Plan::Done(Err(error_status(error))),
                )
                &&& plan.converses(
                    seq![peek, (flush, Reply::Unit(Err(error)))],
                    Plan::Done(Err(error_status(error))),
                )
                &&& plan.converses(
                    seq![(Asked::PeekHandle, Reply::Slot(Some(None)))],
                    Plan::Done(Err(STATUS_INVALID_HANDLE)),
                )
                &&& plan.converses(
                    seq![(Asked::PeekHandle, Reply::Slot(None))],
                    Plan::Done(Err(STATUS_INVALID_HANDLE)),
                )
            }
        }),
{
    reveal_with_fuel(Plan::converses_from, 4);
}

/// Resizing and then reporting.
proof fn lemma_refit_conversation(
    file: OpenFile,
    new_size: u64,
    resizing: Talk,
    attr: FileAttr,
    error: FsError,
    status: NTSTATUS,
)
    ensures
        resize_plan(file, new_size).converses(resizing, Plan::Done(Ok(()))) ==> {
            &&& refit_plan(file, new_size).converses(
                resizing.push((Request::GetAttr { ino: file.ino }, Reply::Attr(Ok(attr)))),
                if attr.reportable() {
                    Plan::Done(Ok(attr.info()))
                } else {
                    Plan::Overflow
                },
            )
            &&& refit_plan(file, new_size).converses(
                resizing.push((Request::GetAttr { ino: file.ino }, Reply::Attr(Err(error)))),
                Plan::Done(Err(error_status(error))),
            )
        },
        resize_plan(file, new_size).converses(resizing, Plan::Done(Err(status))) ==> refit_plan(
            file,
            new_size,
        ).converses(resizing, Plan::Done(Err(status))),
{
    let plan = resize_plan(file, new_size);
    let rest = refit_resized(file.ino);
    let get = Asked::GetAttr { ino: file.ino };
    let reported = seq![(get, Answer::Attr(Ok(attr)))];
    let failed = seq![(get, Answer::Attr(Err(error)))];
    lemma_report_conversation(file.ino, attr, error);
    if plan.converses(resizing, Plan::Done(Ok(()))) {
        let end: InfoPlan = if attr.reportable() {
            Plan::Done(Ok(attr.info()))
        } else {
            Plan::Overflow
        };
        plan.lemma_bind_converses(rest, resizing, Ok(()), reported, end);
        plan.lemma_bind_converses(
            rest,
            resizing,
            Ok(()),
            failed,
            Plan::Done(Err(error_status(error))),
        );
        assert(resizing + reported =~= resizing.push(reported[0]));
        assert(resizing + failed =~= resizing.push(failed[0]));
    }
    if plan.converses(resizing, Plan::Done(Err(status))) {
        plan.lemma_bind_ends(rest, resizing, Err(status), Err(status));
    }
}

/// Overwriting a file sets its size to zero and reports it.
pub proof fn lemma_overwrite_conversation(
    file: OpenFile,
    resizing: Talk,
    attr: FileAttr,
    error: FsError,
    status: NTSTATUS,
)
    requires
        !file.is_dir,
    ensures
        resize_plan(file, 0).converses(resizing, Plan::Done(Ok(()))) ==> {
            &&& overwrite_plan(false, file).converses(
                resizing.push((Request::GetAttr { ino: file.ino }, Reply::Attr(Ok(attr)))),
                if attr.reportable() {
                    Plan::Done(Ok(attr.info()))
                } else {
                    Plan::Overflow
                },
            )
            &&& overwrite_plan(false, file).converses(
                resizing.push((Request::GetAttr { ino: file.ino }, Reply::Attr(Err(error)))),
                Plan::Done(Err(error_status(error))),
            )
        },
        resize_plan(file, 0).converses(resizing, Plan::Done(Err(status))) ==> overwrite_plan(
            false,
            file,
        ).converses(resizing, Plan::Done(Err(status))),
{
    lemma_refit_conversation(file, 0, resizing, attr, error, status);
}

/// Setting the size of a file looks how long it is, changes its size to the one that is set
/// unless only space is set aside and the file fits, and reports what the file is like
/// afterwards.
pub proof fn lemma_set_file_size_conversation(
    file: OpenFile,
    new_size: u64,
    set_allocation_size: bool,
    current: FileAttr,
    resizing: Talk,
    after: FileAttr,
    error: FsError,
    status: NTSTATUS,
)
    requires
        !file.is_dir,
    ensures
        ({
            let plan = set_file_size_plan(false, file, new_size, set_allocation_size);
            let get = Asked::GetAttr { ino: file.ino };
            let looked = seq![(get, Answer::Attr(Ok(current)))];
            let reported: InfoPlan = if after.reportable() {
                Plan::Done(Ok(after.info()))
            } else {
                Plan::Overflow
            };
            let changes = !set_allocation_size || new_size < current.size;
            &&& changes && resize_plan(file, new_size).converses(resizing, Plan::Done(Ok(())))
                ==> plan.converses(
                looked + resizing.push((get, Reply::Attr(Ok(after)))),
                reported,
            )
            &&& changes && resize_plan(file, new_size).converses(
                resizing,
                Plan::Done(Err(status)),
            ) ==> plan.converses(looked + resizing, Plan::Done(Err(status)))
            &&& !changes ==> plan.converses(
                looked.push((get, Reply::Attr(Ok(after)))),
                reported,
            )
            &&& plan.converses(
                seq![(get, Answer::Attr(Err(error)))],
                Plan::Done(Err(error_status(error))),
            )
        }),
{
    reveal_with_fuel(Plan::converses_from, 3);
    let plan = set_file_size_plan(false, file, new_size, set_allocation_size);
    let get = Asked::GetAttr { ino: file.ino };
    let looked = seq![(get, Answer::Attr(Ok(current)))];
    let reported: InfoPlan = if after.reportable() {
        Plan::Done(Ok(after.info()))
    } else {
        Plan::Overflow
    };
    lemma_refit_conversation(file, new_size, resizing, after, error, status);
    if !set_allocation_size || new_size < current.size {
        let refit = refit_plan(file, new_size);
        assert(plan.converses(looked, refit));
        if resize_plan(file, new_size).converses(resizing, Plan::Done(Ok(()))) {
            plan.lemma_converses_on(
                looked,
                refit,
                resizing.push((get, Answer::Attr(Ok(after)))),
                reported,
            );
        }
        if resize_plan(file, new_size).converses(resizing, Plan::Done(Err(status))) {
            plan.lemma_converses_on(looked, refit, resizing, Plan::Done(Err(status)));
        }
    } else {
        let talk = looked.push((get, Answer::Attr(Ok(after))));
        assert(talk[0] == looked[0]);
        assert(plan.converses(talk, reported));
    }
}

/// Whether a field of an update is what a tick calls for: it is left out exactly if the tick is
/// zero, and otherwise holds a time whose tick is the same, or the Unix epoch for an earlier
/// one, and which is a whole number of ticks.
pub open spec fn sets(field: Option<UnixTime>, tick: u64) -> bool {
    match field {
        None => tick == 0,
        Some(Some((secs, nanos))) => {
            &&& tick != 0
            &&& nanos < 1_000_000_000
            &&& nanos % 100 == 0
            &&& tick >= WINDOWS_EPOCH_OFFSET ==> secs * 10_000_000 + nanos / 100 == tick
                - WINDOWS_EPOCH_OFFSET
            &&& tick < WINDOWS_EPOCH_OFFSET ==> secs == 0 && nanos == 0
        },
        Some(None) => false,
    }
}

/// Setting times sends one update, in which each of the four times stands on its own, and
/// reports the file afterwards.
pub proof fn lemma_set_basic_info_conversation(
    ino: u64,
    times: BasicTimes,
    attr: FileAttr,
    error: FsError,
)
    requires
        times.creation_time <= 0x7FFF_FFFF_FFFF_FFFF,
        times.last_access_time <= 0x7FFF_FFFF_FFFF_FFFF,
        times.last_write_time <= 0x7FFF_FFFF_FFFF_FFFF,
        times.change_time <= 0x7FFF_FFFF_FFFF_FFFF,
    ensures
        ({
            let plan = set_basic_info_plan(false, ino, times);
            let update = times.update();
            let set = Asked::SetAttr { ino, update };
            let report = Asked::GetAttr { ino };
            &&& sets(update.crtime, times.creation_time)
            &&& sets(update.atime, times.last_access_time)
            &&& sets(update.mtime, times.last_write_time)
            &&& sets(update.ctime, times.change_time)
            &&& plan.converses(
                seq![(set, Answer::Unit(Ok(()))), (report, Answer::Attr(Ok(attr)))],
                if attr.reportable() {
                    Plan::Done(Ok(attr.info()))
                } else {
                    Plan::Overflow
                },
            )
            &&& plan.converses(
                seq![(set, Answer::Unit(Ok(()))), (report, Answer::Attr(Err(error)))],
                Plan::Done(Err(error_status(error))),
            )
            &&& plan.converses(
                seq![(set, Answer::Unit(Err(error)))],
                Plan::Done(Err(error_status(error))),
            )
        }),
{
    reveal_with_fuel(Plan::converses_from, 3);
}

/// A time that no system time can hold is not set, and no request is made.
pub proof fn lemma_times_beyond_system_time_are_not_set(ino: u64, times: BasicTimes)
    requires
        times.creation_time > 0x7FFF_FFFF_FFFF_FFFF || times.last_access_time
            > 0x7FFF_FFFF_FFFF_FFFF || times.last_write_time > 0x7FFF_FFFF_FFFF_FFFF
            || times.change_time > 0x7FFF_FFFF_FFFF_FFFF,
    ensures
        set_basic_info_plan(false, ino, times) is Overflow,
{
}

/// The update that the times of Windows call for changes each time exactly if it is not zero,
/// and to that time.
pub proof fn lemma_update_sets_each_time(times: BasicTimes)
    ensures
        sets(times.update().crtime, times.creation_time),
        sets(times.update().atime, times.last_access_time),
        sets(times.update().mtime, times.last_write_time),
        sets(times.update().ctime, times.change_time),
{
}

/// A field of an attribute that an update was applied to.
pub open spec fn applied(
    field: Option<UnixTime>,
    before: SystemTime,
    after: SystemTime,
) -> bool {
    match field {
        Some(time) => since_epoch(after) == time,
        None => after == before,
    }
}

/// If the store applies the update that it is sent, Windows is told each time that it set, from
/// the Unix epoch on, and each time that it did not set as it was.
pub proof fn lemma_set_times_are_told(times: BasicTimes, before: FileAttr, after: FileAttr)
    requires
        applied(times.update().crtime, before.crtime, after.crtime),
        applied(times.update().atime, before.atime, after.atime),
        applied(times.update().mtime, before.mtime, after.mtime),
        applied(times.update().ctime, before.ctime, after.ctime),
        after.reportable(),
        before.reportable(),
    ensures
        times.creation_time >= WINDOWS_EPOCH_OFFSET ==> after.info().creation_time
            == times.creation_time,
        times.last_access_time >= WINDOWS_EPOCH_OFFSET ==> after.info().last_access_time
            == times.last_access_time,
        times.last_write_time >= WINDOWS_EPOCH_OFFSET ==> after.info().last_write_time
            == times.last_write_time,
        times.change_time >= WINDOWS_EPOCH_OFFSET ==> after.info().change_time
            == times.change_time,
        times.creation_time == 0 ==> after.info().creation_time == before.info().creation_time,
        times.last_access_time == 0 ==> after.info().last_access_time
            == before.info().last_access_time,
        times.last_write_time == 0 ==> after.info().last_write_time
            == before.info().last_write_time,
        times.change_time == 0 ==> after.info().change_time == before.info().change_time,
{
    lemma_update_sets_each_time(times);
}

/// Saying that a directory may be deleted asks how many names it holds, and refuses exactly if
/// there is one. Nothing else is asked, and nothing is asked of a file.
pub proof fn lemma_set_delete_conversation(
    file: OpenFile,
    delete_file: bool,
    len: usize,
    error: FsError,
)
    ensures
        ({
            let plan = set_delete_plan(false, file, delete_file);
            if delete_file && file.is_dir {
                let count = Asked::Len { ino: file.ino };
                &&& plan.converses(
                    seq![(count, Reply::Count(Ok(len)))],
                    if len == 0 {
                        Plan::Done(Ok(()))
                    } else {
                        Plan::Done(Err(STATUS_DIRECTORY_NOT_EMPTY))
                    },
                )
                &&& plan.converses(
                    seq![(count, Reply::Count(Err(error)))],
                    Plan::Done(Err(error_status(error))),
                )
            } else {
                plan == UnitPlan::Done(Ok(()))
            }
        }),
{
    reveal_with_fuel(Plan::converses_from, 2);
}

/// Renaming asks whether the new name is taken, in the new directory, removes what has it, as
/// what it is, if that may be replaced, and then moves the old name in the old directory to
/// the new name in the new directory. What the store says of that is what comes of it. A file
/// that has its new name already stays.
pub proof fn lemma_rename_conversation(
    names: Seq<Seq<char>>,
    new_names: Seq<Seq<char>>,
    resolving: Talk,
    resolving_new: Talk,
    parent: u64,
    name: Seq<char>,
    new_parent: u64,
    new_name: Seq<char>,
    existing: FileAttr,
    result: Result<(), FsError>,
    error: FsError,
)
    requires
        parent_plan(names).converses(resolving, Plan::Done(Ok((parent, name)))),
        parent_plan(new_names).converses(resolving_new, Plan::Done(Ok((new_parent, new_name)))),
    ensures
        ({
            let may = rename_plan(false, names, new_names, true);
            let may_not = rename_plan(false, names, new_names, false);
            let resolved = resolving + resolving_new;
            let look = Asked::FindByName { parent: new_parent, name: new_name };
            let free = (look, Answer::Found(Ok(None)));
            let taken = (look, Answer::Found(Ok(Some(existing))));
            let remove = if existing.kind == FileType::Directory {
                Asked::RemoveDir { parent: new_parent, name: new_name }
            } else {
                Asked::RemoveFile { parent: new_parent, name: new_name }
            };
            let removed = (remove, Answer::Unit(Ok(())));
            let rename = (
                Asked::Rename { parent, name, new_parent, new_name },
                Answer::Unit(result),
            );
            if parent == new_parent && name == new_name {
                &&& may.converses(resolved, Plan::Done(Ok(())))
                &&& may_not.converses(resolved, Plan::Done(Ok(())))
            } else {
                &&& may.converses(resolved + seq![free, rename], Plan::Done(told(result)))
                &&& may_not.converses(resolved + seq![free, rename], Plan::Done(told(result)))
                &&& may.converses(
                    resolved + seq![taken, removed, rename],
                    Plan::Done(told(result)),
                )
                &&& may.converses(
                    resolved + seq![taken, (remove, Answer::Unit(Err(error)))],
                    Plan::Done(Err(error_status(error))),
                )
                &&& may_not.converses(
                    resolved + seq![taken],
                    Plan::Done(Err(STATUS_OBJECT_NAME_COLLISION)),
                )
                &&& may.converses(
                    resolved + seq![(look, Answer::Found(Err(error)))],
                    Plan::Done(Err(error_status(error))),
                )
                &&& may_not.converses(
                    resolved + seq![(look, Answer::Found(Err(error)))],
                    Plan::Done(Err(error_status(error))),
                )
            }
        }),
{
    reveal_with_fuel(Plan::converses_from, 4);
    let resolved = resolving + resolving_new;
    let paths = (names, new_names);
    let talks = (resolving, resolving_new);
    let source = (parent, name);
    let target = (new_parent, new_name);
    if parent == new_parent && name == new_name {
        lemma_rename_tail(paths, true, talks, source, target, Seq::empty(), Plan::Done(Ok(())));
        lemma_rename_tail(paths, false, talks, source, target, Seq::empty(), Plan::Done(Ok(())));
        assert(resolved + Talk::empty() == resolved);
    } else {
        let look = Asked::FindByName { parent: new_parent, name: new_name };
        let free = (look, Answer::Found(Ok(None)));
        let taken = (look, Answer::Found(Ok(Some(existing))));
        let remove = if existing.kind == FileType::Directory {
            Asked::RemoveDir { parent: new_parent, name: new_name }
        } else {
            Asked::RemoveFile { parent: new_parent, name: new_name }
        };
        let removed = (remove, Answer::Unit(Ok(())));
        let rename = (Asked::Rename { parent, name, new_parent, new_name }, Answer::Unit(result));
        let end: UnitPlan = Plan::Done(told(result));
        let failed: UnitPlan = Plan::Done(Err(error_status(error)));
        let collided: UnitPlan = Plan::Done(Err(STATUS_OBJECT_NAME_COLLISION));
        let moved = seq![free, rename];
        let replaced = seq![taken, removed, rename];
        let unremoved = seq![taken, (remove, Answer::Unit(Err(error)))];
        let unknown = seq![(look, Answer::Found(Err(error)))];
        lemma_rename_tail(paths, true, talks, source, target, moved, end);
        lemma_rename_tail(paths, false, talks, source, target, moved, end);
        lemma_rename_tail(paths, true, talks, source, target, replaced, end);
        lemma_rename_tail(paths, true, talks, source, target, unremoved, failed);
        lemma_rename_tail(paths, false, talks, source, target, seq![taken], collided);
        lemma_rename_tail(paths, true, talks, source, target, unknown, failed);
        lemma_rename_tail(paths, false, talks, source, target, unknown, failed);
    }
}

/// Renaming goes on with what is left once both directories are known.
proof fn lemma_rename_tail(
    paths: (Seq<Seq<char>>, Seq<Seq<char>>),
    replace_if_exists: bool,
    talks: (Talk, Talk),
    source: (u64, Seq<char>),
    target: (u64, Seq<char>),
    tail: Talk,
    end: UnitPlan,
)
    requires
        parent_plan(paths.0).converses(talks.0, Plan::Done(Ok(source))),
        parent_plan(paths.1).converses(talks.1, Plan::Done(Ok(target))),
        rename_to(source.0, source.1, replace_if_exists)(
            Ok::<(u64, Seq<char>), NTSTATUS>(target),
        ).converses(tail, end),
    ensures
        rename_plan(false, paths.0, paths.1, replace_if_exists).converses(
            talks.0 + talks.1 + tail,
            end,
        ),
{
    parent_plan(paths.1).lemma_bind_converses(
        rename_to(source.0, source.1, replace_if_exists),
        talks.1,
        Ok(target),
        tail,
        end,
    );
    parent_plan(paths.0).lemma_bind_converses(
        rename_from(paths.1, replace_if_exists),
        talks.0,
        Ok(source),
        talks.1 + tail,
        end,
    );
    assert(talks.0 + (talks.1 + tail) == talks.0 + talks.1 + tail);
}

/// Listing a directory looks for the listing that is kept. One that is kept serves a call with
/// a marker; otherwise the directory is read, by its number, and what is read is kept, sorted.
/// Either way what is pending is offered then. It ends at the first failure, with that failure.
pub proof fn lemma_listing_conversation(
    file: OpenFile,
    marker: Option<Seq<char>>,
    kept: Option<Entries>,
    items: Seq<Result<(Seq<char>, FileAttr), FsError>>,
    error: FsError,
)
    ensures
        ({
            let plan = read_directory_plan(file, marker);
            let recall = (Asked::CachedEntries, Answer::Cached(Some(kept)));
            let read = Asked::ReadDirPlus { ino: file.ino };
            if !file.is_dir {
                plan == UnitPlan::Done(Err(STATUS_NOT_A_DIRECTORY))
            } else {
                &&& plan.converses(
                    seq![(Asked::CachedEntries, Reply::Cached(None))],
                    Plan::Done(Err(STATUS_INVALID_HANDLE)),
                )
                &&& marker is Some && kept is Some ==> plan.converses(
                    seq![recall],
                    offering(pending(kept->0, marker)),
                )
                &&& marker is None || kept is None ==> {
                    &&& plan.converses(
                        seq![recall, (read, Reply::Listing(Err(error)))],
                        Plan::Done(Err(error_status(error))),
                    )
                    &&& match collected(items) {
                        Some(Ok(entries)) => plan.converses(
                            seq![
                                recall,
                                (read, Answer::Listing(Ok(items))),
                                (Asked::StoreEntries { entries: sorted(entries) }, Answer::Kept),
                            ],
                            offering(pending(sorted(entries), marker)),
                        ),
                        Some(Err(status)) => plan.converses(
                            seq![recall, (read, Answer::Listing(Ok(items)))],
                            Plan::Done(Err(status)),
                        ),
                        None => plan.converses(
                            seq![recall, (read, Answer::Listing(Ok(items)))],
                            Plan::Overflow,
                        ),
                    }
                }
            }
        }),
{
    reveal_with_fuel(Plan::converses_from, 4);
}

/// Entries are offered one by one, each as it is, as long as Windows takes them. After the last
/// one the listing is forgotten; after one that is refused it stays.
pub proof fn lemma_offering_conversation(entries: Entries, stored: bool)
    ensures
        entries.len() > 0 ==> {
            let offer = Asked::Offer { entry: entries[0] };
            &&& offering(entries).converses(
                seq![(offer, Reply::Accepted(true))],
                offering(entries.skip(1)),
            )
            &&& offering(entries).converses(
                seq![(offer, Reply::Accepted(false))],
                Plan::Done(Ok(())),
            )
        },
        entries.len() == 0 ==> offering(entries).converses(
            seq![(Asked::ClearEntries, Reply::Stored(stored))],
            if stored {
                Plan::Done(Ok(()))
            } else {
                Plan::Done(Err(STATUS_INVALID_HANDLE))
            },
        ),
{
    reveal_with_fuel(Plan::converses_from, 2);
    reveal_with_fuel(offering, 2);
    reveal_with_fuel(offering_first, 2);
}

} // verus!
