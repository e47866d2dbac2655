//! What is said between the file system, the store and Windows, word for word: for each
//! operation the requests that it makes, with all that they hold, and what it comes to, for
//! every reply.

use crate::adapter::cleanup_plan;
use crate::attr::{kind_attributes, CreateFileAttr, FileAttr, FileType};
use crate::change::{rename_from, rename_plan, rename_to};
use crate::context::{
    delete_plan, delete_released, delete_resolved, release_plan, report_plan, resize_plan,
    resize_released, OpenFile, UnitPlan, WindowsFileContext,
};
use crate::flags::{CleanupFlags, CreateOptions, FileAccessRights, FileAttributes};
use crate::open::{
    create_plan, create_resolved, open_plan, open_resolved, security_plan, security_resolved,
    CreateFileInfo,
};
use crate::path::path_names;
use crate::plan::Plan;
use crate::protocol::{Answer, Asked, Reply, Request};
use crate::resolve::{
    parent_below, parent_from, parent_plan, path_below, path_from, path_plan, ParentPlan, PathPlan,
};
use crate::status::{
    error_status, FsError, NTSTATUS, STATUS_FILE_IS_A_DIRECTORY, STATUS_INVALID_HANDLE,
    STATUS_INVALID_PARAMETER, STATUS_NOT_A_DIRECTORY, STATUS_OBJECT_NAME_NOT_FOUND,
};
use vstd::prelude::*;

verus! {

pub type Talk = Seq<(Asked, Answer)>;

/// Finding one file after another: the root, and then each name in the file found before.
pub open spec fn finding(names: Seq<Seq<char>>, found: Seq<FileAttr>) -> Talk {
    Seq::new(
        found.len(),
        |i: int|
            if i == 0 {
                (Request::GetAttr { ino: 1 }, Reply::Attr(Ok(found[0])))
            } else {
                (
                    Request::FindByName { parent: found[i - 1].ino, name: names[i - 1] },
                    Reply::Found(Ok(Some(found[i]))),
                )
            },
    )
}

/// Resolving a path, as far as directories were found.
proof fn lemma_path_so_far(names: Seq<Seq<char>>, found: Seq<FileAttr>)
    requires
        0 < found.len() <= names.len() + 1,
        forall|i: int|
            0 <= i < found.len() - 1 ==> (#[trigger] found[i]).kind == FileType::Directory,
    ensures
        path_plan(names).converses(
            finding(names, found),
            path_from(found.last(), names.skip(found.len() - 1)),
        ),
    decreases found.len(),
{
    reveal_with_fuel(Plan::converses_from, 2);
    let end = path_from(found.last(), names.skip(found.len() - 1));
    if found.len() == 1 {
        assert(names.skip(0) == names);
    } else {
        let before = found.drop_last();
        assert forall|i: int| 0 <= i < before.len() - 1 implies (#[trigger] before[i]).kind
            == FileType::Directory by {
            assert(before[i] == found[i]);
        }
        lemma_path_so_far(names, before);
        let rest = names.skip(before.len() - 1);
        let last = before.last();
        assert(last == found[found.len() - 2]);
        assert(last.kind == FileType::Directory);
        let step = seq![
            (
                Asked::FindByName { parent: last.ino, name: names[found.len() - 2] },
                Answer::Found(Ok(Some(found.last()))),
            ),
        ];
        assert(rest.skip(1) == names.skip(found.len() - 1));
        assert(rest[0] == names[found.len() - 2]);
        reveal_with_fuel(path_from, 2);
        reveal_with_fuel(path_below, 2);
        assert(path_from(last, rest).converses(step, end));
        let middle = path_from(last, rest);
        path_plan(names).lemma_converses_on(finding(names, before), middle, step, end);
        assert(finding(names, before) + step =~= finding(names, found));
    }
}

/// A path is resolved by asking for the root and then, in each directory that was found, for
/// the next name. What was found last is what the path names.
pub proof fn lemma_path_is_found(names: Seq<Seq<char>>, found: Seq<FileAttr>)
    requires
        found.len() == names.len() + 1,
        forall|i: int| 0 <= i < names.len() ==> (#[trigger] found[i]).kind == FileType::Directory,
    ensures
        path_plan(names).converses(finding(names, found), Plan::Done(Ok(found.last()))),
{
    lemma_path_so_far(names, found);
}

/// A path is not resolved beyond a file that is no directory, a name that is not found, or a
/// failure of the store, and fails as these do.
pub proof fn lemma_path_is_not_found(names: Seq<Seq<char>>, found: Seq<FileAttr>, error: FsError)
    requires
        found.len() <= names.len(),
        forall|i: int|
            0 <= i < found.len() - 1 ==> (#[trigger] found[i]).kind == FileType::Directory,
    ensures
        path_plan(names).converses(
            seq![(Request::GetAttr { ino: 1 }, Reply::Attr(Err(error)))],
            Plan::Done(Err(error_status(error))),
        ),
        found.len() > 0 && found.last().kind != FileType::Directory ==> path_plan(names).converses(
            finding(names, found),
            Plan::Done(Err(STATUS_NOT_A_DIRECTORY)),
        ),
        found.len() > 0 && found.last().kind == FileType::Directory ==> {
            let lookup = Asked::FindByName {
                parent: found.last().ino,
                name: names[found.len() - 1],
            };
            &&& path_plan(names).converses(
                finding(names, found).push((lookup, Reply::Found(Ok(None)))),
                Plan::Done(Err(STATUS_OBJECT_NAME_NOT_FOUND)),
            )
            &&& path_plan(names).converses(
                finding(names, found).push((lookup, Reply::Found(Err(error)))),
                Plan::Done(Err(error_status(error))),
            )
        },
{
    reveal_with_fuel(Plan::converses_from, 2);
    if found.len() > 0 {
        lemma_path_so_far(names, found);
        let rest = names.skip(found.len() - 1);
        let last = found.last();
        assert(rest[0] == names[found.len() - 1]);
        reveal_with_fuel(path_from, 2);
        if last.kind == FileType::Directory {
            let lookup = Asked::FindByName { parent: last.ino, name: rest[0] };
            let missing = seq![(lookup, Answer::Found(Ok(None)))];
            let failing = seq![(lookup, Answer::Found(Err(error)))];
            let not_found: PathPlan = Plan::Done(Err(STATUS_OBJECT_NAME_NOT_FOUND));
            let failed: PathPlan = Plan::Done(Err(error_status(error)));
            assert(path_from(last, rest).converses(missing, not_found));
            assert(path_from(last, rest).converses(failing, failed));
            path_plan(names).lemma_converses_on(
                finding(names, found),
                path_from(last, rest),
                missing,
                not_found,
            );
            path_plan(names).lemma_converses_on(
                finding(names, found),
                path_from(last, rest),
                failing,
                failed,
            );
            assert(finding(names, found) + missing =~= finding(names, found).push(missing[0]));
            assert(finding(names, found) + failing =~= finding(names, found).push(failing[0]));
        }
    }
}

/// Resolving the directory of a name, as far as directories were found.
proof fn lemma_parent_so_far(names: Seq<Seq<char>>, found: Seq<FileAttr>)
    requires
        0 < found.len() <= names.len(),
        forall|i: int| 0 < i < found.len() ==> (#[trigger] found[i]).kind == FileType::Directory,
    ensures
        parent_plan(names).converses(
            finding(names, found),
            parent_from(
                found.last().ino,
                names.drop_last().skip(found.len() - 1),
                names.last(),
            ),
        ),
    decreases found.len(),
{
    reveal_with_fuel(Plan::converses_from, 2);
    let directories = names.drop_last();
    let end = parent_from(found.last().ino, directories.skip(found.len() - 1), names.last());
    if found.len() == 1 {
        assert(directories.skip(0) == directories);
    } else {
        let before = found.drop_last();
        assert forall|i: int| 0 < i < before.len() implies (#[trigger] before[i]).kind
            == FileType::Directory by {
            assert(before[i] == found[i]);
        }
        lemma_parent_so_far(names, before);
        let rest = directories.skip(before.len() - 1);
        let last = before.last();
        assert(last == found[found.len() - 2]);
        assert(found[found.len() - 1].kind == FileType::Directory);
        let step = seq![
            (
                Asked::FindByName { parent: last.ino, name: names[found.len() - 2] },
                Answer::Found(Ok(Some(found.last()))),
            ),
        ];
        assert(rest.skip(1) == directories.skip(found.len() - 1));
        assert(rest[0] == names[found.len() - 2]);
        reveal_with_fuel(parent_from, 2);
        reveal_with_fuel(parent_below, 2);
        let middle = parent_from(last.ino, rest, names.last());
        assert(middle.converses(step, end));
        parent_plan(names).lemma_converses_on(finding(names, before), middle, step, end);
        assert(finding(names, before) + step =~= finding(names, found));
    }
}

/// The directory in which a name stands is found by asking for the root and then, in each
/// directory, for the next name but the last. It is the directory that was found last, and the
/// last name comes with it.
pub proof fn lemma_parent_is_found(names: Seq<Seq<char>>, found: Seq<FileAttr>)
    requires
        0 < found.len() == names.len(),
        forall|i: int| 0 < i < found.len() ==> (#[trigger] found[i]).kind == FileType::Directory,
    ensures
        parent_plan(names).converses(
            finding(names, found),
            Plan::Done(Ok((found.last().ino, names.last()))),
        ),
{
    lemma_parent_so_far(names, found);
}

/// The directory in which a name stands is not found if there is no name, or beyond a file
/// that is no directory, a name that is not found, or a failure of the store.
pub proof fn lemma_parent_is_not_found(
    names: Seq<Seq<char>>,
    found: Seq<FileAttr>,
    file: FileAttr,
    error: FsError,
)
    requires
        found.len() < names.len() || names.len() == 0,
        forall|i: int| 0 < i < found.len() ==> (#[trigger] found[i]).kind == FileType::Directory,
    ensures
        names.len() == 0 ==> parent_plan(names) == ParentPlan::Done(Err(STATUS_INVALID_PARAMETER)),
        names.len() > 0 ==> parent_plan(names).converses(
            seq![(Request::GetAttr { ino: 1 }, Reply::Attr(Err(error)))],
            Plan::Done(Err(error_status(error))),
        ),
        0 < found.len() < names.len() ==> {
            let lookup = Asked::FindByName {
                parent: found.last().ino,
                name: names[found.len() - 1],
            };
            &&& parent_plan(names).converses(
                finding(names, found).push((lookup, Reply::Found(Ok(None)))),
                Plan::Done(Err(STATUS_OBJECT_NAME_NOT_FOUND)),
            )
            &&& parent_plan(names).converses(
                finding(names, found).push((lookup, Reply::Found(Err(error)))),
                Plan::Done(Err(error_status(error))),
            )
            &&& file.kind != FileType::Directory ==> parent_plan(names).converses(
                finding(names, found).push((lookup, Reply::Found(Ok(Some(file))))),
                Plan::Done(Err(STATUS_NOT_A_DIRECTORY)),
            )
        },
{
    reveal_with_fuel(Plan::converses_from, 2);
    if 0 < found.len() < names.len() {
        lemma_parent_so_far(names, found);
        let rest = names.drop_last().skip(found.len() - 1);
        let last = found.last();
        assert(rest[0] == names[found.len() - 1]);
        reveal_with_fuel(parent_from, 2);
        let middle = parent_from(last.ino, rest, names.last());
        let lookup = Asked::FindByName { parent: last.ino, name: rest[0] };
        let missing = seq![(lookup, Answer::Found(Ok(None)))];
        let failing = seq![(lookup, Answer::Found(Err(error)))];
        let other = seq![(lookup, Answer::Found(Ok(Some(file))))];
        let so_far = finding(names, found);
        let not_found: ParentPlan = Plan::Done(Err(STATUS_OBJECT_NAME_NOT_FOUND));
        let failed: ParentPlan = Plan::Done(Err(error_status(error)));
        let no_directory: ParentPlan = Plan::Done(Err(STATUS_NOT_A_DIRECTORY));
        assert(middle.converses(missing, not_found));
        assert(middle.converses(failing, failed));
        parent_plan(names).lemma_converses_on(so_far, middle, missing, not_found);
        parent_plan(names).lemma_converses_on(so_far, middle, failing, failed);
        assert(so_far + missing =~= so_far.push(missing[0]));
        assert(so_far + failing =~= so_far.push(failing[0]));
        if file.kind != FileType::Directory {
            assert(middle.converses(other, no_directory));
            parent_plan(names).lemma_converses_on(so_far, middle, other, no_directory);
            assert(so_far + other =~= so_far.push(other[0]));
        }
    }
}

/// What the store says of something that gives nothing back.
pub open spec fn told(result: Result<(), FsError>) -> Result<(), NTSTATUS> {
    match result {
        Ok(()) => Ok(()),
        Err(error) => Err(error_status(error)),
    }
}

/// Creating asks the store for one new file or directory, under the last name of the path and
/// in the directory in which that name stands. What comes of it is an open file of the number
/// that the store gave, with the handle that the store gave, unless that is zero.
pub proof fn lemma_create_conversation(
    names: Seq<Seq<char>>,
    info: CreateFileInfo,
    resolving: Talk,
    parent: u64,
    name: Seq<char>,
    handle: u64,
    attr: FileAttr,
    error: FsError,
)
    requires
        parent_plan(names).converses(resolving, Plan::Done(Ok((parent, name)))),
    ensures
        ({
            let is_dir = info.create_options.wants_directory();
            let read = !is_dir && info.granted_access.modes().0;
            let write = !is_dir && info.granted_access.modes().1;
            let request = Asked::Create {
                parent,
                name,
                attr: CreateFileAttr {
                    kind: if is_dir {
                        FileType::Directory
                    } else {
                        FileType::RegularFile
                    },
                    perm: if is_dir {
                        0o755
                    } else {
                        0o644
                    },
                    uid: 0,
                    gid: 0,
                    rdev: 0,
                    flags: 0,
                },
                read,
                write,
            };
            let context = WindowsFileContext {
                file: OpenFile { ino: attr.ino, is_dir, read, write },
                handle: if handle == 0 {
                    None
                } else {
                    Some(handle)
                },
                directory_entries: None,
            };
            let plan = create_plan(false, names, info);
            &&& plan.converses(
                resolving.push((request, Reply::Created(Ok((handle, attr))))),
                if attr.reportable() {
                    Plan::Done(Ok((context, attr.info())))
                } else {
                    Plan::Overflow
                },
            )
            &&& plan.converses(
                resolving.push((request, Reply::Created(Err(error)))),
                Plan::Done(Err(error_status(error))),
            )
        }),
{
    reveal_with_fuel(Plan::converses_from, 2);
    let rest = create_resolved(info);
    let resolved: Result<(u64, Seq<char>), NTSTATUS> = Ok((parent, name));
    let request = rest(resolved)->Ask_0;
    let done = seq![(request, Answer::Created(Ok((handle, attr))))];
    let failed = seq![(request, Answer::Created(Err(error)))];
    let next = rest(resolved)->Ask_1;
    assert(rest(resolved).converses(done, next(done[0].1)));
    assert(rest(resolved).converses(failed, next(failed[0].1)));
    parent_plan(names).lemma_bind_converses(rest, resolving, resolved, done, next(done[0].1));
    parent_plan(names).lemma_bind_converses(rest, resolving, resolved, failed, next(failed[0].1));
    assert(resolving + done =~= resolving.push(done[0]));
    assert(resolving + failed =~= resolving.push(failed[0]));
}

/// Where the directory in which a name stands cannot be found, nothing is created, deleted or
/// renamed, and Windows is told why.
pub proof fn lemma_lost_parent_ends_it(
    names: Seq<Seq<char>>,
    other_names: Seq<Seq<char>>,
    info: CreateFileInfo,
    is_dir: bool,
    flag: bool,
    releasing: Talk,
    resolving: Talk,
    other: Talk,
    other_parent: (u64, Seq<char>),
    status: NTSTATUS,
)
    requires
        parent_plan(names).converses(resolving, Plan::Done(Err(status))),
        release_plan().converses(releasing, Plan::Done(Ok(()))),
        parent_plan(other_names).converses(other, Plan::Done(Ok(other_parent))),
    ensures
        create_plan(false, names, info).converses(resolving, Plan::Done(Err(status))),
        delete_plan(is_dir, names).converses(releasing + resolving, Plan::Done(Err(status))),
        rename_plan(false, names, other_names, flag).converses(
            resolving,
            Plan::Done(Err(status)),
        ),
        rename_plan(false, other_names, names, flag).converses(
            other + resolving,
            Plan::Done(Err(status)),
        ),
{
    let lost: Result<(u64, Seq<char>), NTSTATUS> = Err(status);
    let found: Result<(u64, Seq<char>), NTSTATUS> = Ok(other_parent);
    let released: Result<(), NTSTATUS> = Ok(());
    let end: UnitPlan = Plan::Done(Err(status));
    parent_plan(names).lemma_bind_ends(create_resolved(info), resolving, lost, Err(status));
    parent_plan(names).lemma_bind_ends(delete_resolved(is_dir), resolving, lost, Err(status));
    release_plan().lemma_bind_converses(
        delete_released(is_dir, names),
        releasing,
        released,
        resolving,
        end,
    );
    let from = rename_from(other_names, flag);
    parent_plan(names).lemma_bind_ends(from, resolving, lost, Err(status));
    let to = rename_to(other_parent.0, other_parent.1, flag);
    parent_plan(names).lemma_bind_ends(to, resolving, lost, Err(status));
    parent_plan(other_names).lemma_bind_converses(
        rename_from(names, flag),
        other,
        found,
        resolving,
        end,
    );
}

/// Opening asks the store to open the file that the path names, by its number and in the modes
/// that are granted, and hands over that number with the handle that the store gave. A
/// directory is handed over without a further request. What is not of the kind that is wanted
/// is refused without one.
pub proof fn lemma_open_conversation(
    names: Seq<Seq<char>>,
    options: CreateOptions,
    access: FileAccessRights,
    resolving: Talk,
    attr: FileAttr,
    handle: u64,
    error: FsError,
)
    requires
        path_plan(names).converses(resolving, Plan::Done(Ok(attr))),
    ensures
        ({
            let plan = open_plan(names, options, access);
            let is_dir = attr.kind == FileType::Directory;
            let (read, write) = access.modes();
            let request = Asked::Open { ino: attr.ino, read, write };
            let directory = WindowsFileContext {
                file: OpenFile { ino: attr.ino, is_dir: true, read: false, write: false },
                handle: None,
                directory_entries: None,
            };
            let file = WindowsFileContext {
                file: OpenFile { ino: attr.ino, is_dir: false, read, write },
                handle: Some(handle),
                directory_entries: None,
            };
            if options.wants_directory() && !is_dir {
                plan.converses(resolving, Plan::Done(Err(STATUS_NOT_A_DIRECTORY)))
            } else if options.wants_file() && is_dir {
                plan.converses(resolving, Plan::Done(Err(STATUS_FILE_IS_A_DIRECTORY)))
            } else if is_dir {
                plan.converses(
                    resolving,
                    if attr.reportable() {
                        Plan::Done(Ok((directory, attr.info())))
                    } else {
                        Plan::Overflow
                    },
                )
            } else {
                &&& plan.converses(
                    resolving.push((request, Reply::Handle(Ok(handle)))),
                    if attr.reportable() {
                        Plan::Done(Ok((file, attr.info())))
                    } else {
                        Plan::Overflow
                    },
                )
                &&& plan.converses(
                    resolving.push((request, Reply::Handle(Err(error)))),
                    Plan::Done(Err(error_status(error))),
                )
            }
        }),
{
    reveal_with_fuel(Plan::converses_from, 2);
    let rest = open_resolved(options, access);
    let resolved: Result<FileAttr, NTSTATUS> = Ok(attr);
    let tail = rest(resolved);
    if tail is Ask {
        let request = tail->Ask_0;
        let next = tail->Ask_1;
        let done = seq![(request, Answer::Handle(Ok(handle)))];
        let failed = seq![(request, Answer::Handle(Err(error)))];
        assert(tail.converses(done, next(done[0].1)));
        assert(tail.converses(failed, next(failed[0].1)));
        path_plan(names).lemma_bind_converses(rest, resolving, resolved, done, next(done[0].1));
        path_plan(names).lemma_bind_converses(rest, resolving, resolved, failed, next(failed[0].1));
        assert(resolving + done =~= resolving.push(done[0]));
        assert(resolving + failed =~= resolving.push(failed[0]));
    } else {
        path_plan(names).lemma_bind_converses(rest, resolving, resolved, Seq::empty(), tail);
        assert(resolving + Talk::empty() == resolving);
    }
}

/// Telling the attribute bits asks for nothing but the path, and tells the bits of what the
/// path names.
pub proof fn lemma_security_conversation(names: Seq<Seq<char>>, resolving: Talk, attr: FileAttr)
    requires
        path_plan(names).converses(resolving, Plan::Done(Ok(attr))),
    ensures
        security_plan(names).converses(
            resolving,
            Plan::Done(
                Ok(
                    (
                        FileAttributes(
                            match attr.kind {
                                FileType::Directory => 0x10,
                                FileType::RegularFile => 0x20,
                            },
                        ),
                        false,
                    ),
                ),
            ),
        ),
{
    let resolved: Result<FileAttr, NTSTATUS> = Ok(attr);
    path_plan(names).lemma_bind_ends(
        security_resolved(),
        resolving,
        resolved,
        Ok((kind_attributes(attr.kind), false)),
    );
}

/// Where a path names nothing, nothing is opened, and Windows is told why.
pub proof fn lemma_lost_path_ends_it(
    names: Seq<Seq<char>>,
    options: CreateOptions,
    access: FileAccessRights,
    resolving: Talk,
    status: NTSTATUS,
)
    requires
        path_plan(names).converses(resolving, Plan::Done(Err(status))),
    ensures
        open_plan(names, options, access).converses(resolving, Plan::Done(Err(status))),
        security_plan(names).converses(resolving, Plan::Done(Err(status))),
{
    let lost: Result<FileAttr, NTSTATUS> = Err(status);
    path_plan(names).lemma_bind_ends(open_resolved(options, access), resolving, lost, Err(status));
    path_plan(names).lemma_bind_ends(security_resolved(), resolving, lost, Err(status));
}

/// Closing takes the handle out of the open file and releases that very handle. Where there is
/// none, it is done; where the lock is broken, it fails.
pub proof fn lemma_release_conversation(handle: u64, result: Result<(), FsError>)
    ensures
        release_plan().converses(
            seq![
                (Request::TakeHandle, Reply::Slot(Some(Some(handle)))),
                (Request::Release { handle }, Reply::Unit(result)),
            ],
            Plan::Done(told(result)),
        ),
        release_plan().converses(
            seq![(Request::TakeHandle, Reply::Slot(Some(None)))],
            Plan::Done(Ok(())),
        ),
        release_plan().converses(
            seq![(Request::TakeHandle, Reply::Slot(None))],
            Plan::Done(Err(STATUS_INVALID_HANDLE)),
        ),
{
    reveal_with_fuel(Plan::converses_from, 3);
}

/// Reporting a file asks for its attributes and tells Windows what they are.
pub proof fn lemma_report_conversation(ino: u64, attr: FileAttr, error: FsError)
    ensures
        report_plan(ino).converses(
            seq![(Request::GetAttr { ino }, Reply::Attr(Ok(attr)))],
            if attr.reportable() {
                Plan::Done(Ok(attr.info()))
            } else {
                Plan::Overflow
            },
        ),
        report_plan(ino).converses(
            seq![(Request::GetAttr { ino }, Reply::Attr(Err(error)))],
            Plan::Done(Err(error_status(error))),
        ),
{
    reveal_with_fuel(Plan::converses_from, 2);
}

/// Changing the size of a file closes it, sets the length of that file to that size, opens the
/// same file again in the modes it had, and keeps the handle that the store gave. It ends at
/// the first failure, with that failure.
pub proof fn lemma_resize_conversation(
    file: OpenFile,
    new_size: u64,
    releasing: Talk,
    handle: u64,
    error: FsError,
)
    requires
        release_plan().converses(releasing, Plan::Done(Ok(()))),
    ensures
        ({
            let plan = resize_plan(file, new_size);
            let set = Asked::SetLen { ino: file.ino, size: new_size };
            let open = Asked::Open { ino: file.ino, read: file.read, write: file.write };
            let store = Asked::StoreHandle { handle };
            &&& plan.converses(
                releasing + seq![
                    (set, Answer::Unit(Ok(()))),
                    (open, Answer::Handle(Ok(handle))),
                    (store, Answer::Stored(true)),
                ],
                Plan::Done(Ok(())),
            )
            &&& plan.converses(
                releasing + seq![
                    (set, Answer::Unit(Ok(()))),
                    (open, Answer::Handle(Ok(handle))),
                    (store, Answer::Stored(false)),
                ],
                Plan::Done(Err(STATUS_INVALID_HANDLE)),
            )
            &&& plan.converses(
                releasing + seq![
                    (set, Answer::Unit(Ok(()))),
                    (open, Answer::Handle(Err(error))),
                ],
                Plan::Done(Err(error_status(error))),
            )
            &&& plan.converses(
                releasing + seq![(set, Answer::Unit(Err(error)))],
                Plan::Done(Err(error_status(error))),
            )
        }),
{
    reveal_with_fuel(Plan::converses_from, 4);
    let rest = resize_released(file, new_size);
    let released: Result<(), NTSTATUS> = Ok(());
    let set = Asked::SetLen { ino: file.ino, size: new_size };
    let open = Asked::Open { ino: file.ino, read: file.read, write: file.write };
    let store = Asked::StoreHandle { handle };
    let done = seq![
        (set, Answer::Unit(Ok(()))),
        (open, Answer::Handle(Ok(handle))),
        (store, Answer::Stored(true)),
    ];
    let broken = seq![
        (set, Answer::Unit(Ok(()))),
        (open, Answer::Handle(Ok(handle))),
        (store, Answer::Stored(false)),
    ];
    let closed = seq![(set, Answer::Unit(Ok(()))), (open, Answer::Handle(Err(error)))];
    let unset = seq![(set, Answer::Unit(Err(error)))];
    let invalid: UnitPlan = Plan::Done(Err(STATUS_INVALID_HANDLE));
    let failed: UnitPlan = Plan::Done(Err(error_status(error)));
    release_plan().lemma_bind_converses(rest, releasing, released, done, Plan::Done(Ok(())));
    release_plan().lemma_bind_converses(rest, releasing, released, broken, invalid);
    release_plan().lemma_bind_converses(rest, releasing, released, closed, failed);
    release_plan().lemma_bind_converses(rest, releasing, released, unset, failed);
}

/// A file that cannot be closed is neither resized nor deleted, and Windows is told why.
pub proof fn lemma_unclosed_file_ends_it(
    file: OpenFile,
    new_size: u64,
    names: Seq<Seq<char>>,
    releasing: Talk,
    status: NTSTATUS,
)
    requires
        release_plan().converses(releasing, Plan::Done(Err(status))),
    ensures
        resize_plan(file, new_size).converses(releasing, Plan::Done(Err(status))),
        delete_plan(file.is_dir, names).converses(releasing, Plan::Done(Err(status))),
{
    let failed: Result<(), NTSTATUS> = Err(status);
    release_plan().lemma_bind_ends(resize_released(file, new_size), releasing, failed, failed);
    release_plan().lemma_bind_ends(delete_released(file.is_dir, names), releasing, failed, failed);
}

/// Deleting closes the file and then removes one name: the last one of its path, from the
/// directory in which that name stands, as a directory or as a file. What the store says of
/// that is what comes of it.
pub proof fn lemma_delete_conversation(
    is_dir: bool,
    names: Seq<Seq<char>>,
    releasing: Talk,
    resolving: Talk,
    parent: u64,
    name: Seq<char>,
    result: Result<(), FsError>,
)
    requires
        release_plan().converses(releasing, Plan::Done(Ok(()))),
        parent_plan(names).converses(resolving, Plan::Done(Ok((parent, name)))),
    ensures
        delete_plan(is_dir, names).converses(
            releasing + resolving.push(
                (
                    if is_dir {
                        Asked::RemoveDir { parent, name }
                    } else {
                        Asked::RemoveFile { parent, name }
                    },
                    Reply::Unit(result),
                ),
            ),
            Plan::Done(told(result)),
        ),
{
    reveal_with_fuel(Plan::converses_from, 2);
    let resolved: Result<(u64, Seq<char>), NTSTATUS> = Ok((parent, name));
    let request = if is_dir {
        Asked::RemoveDir { parent, name }
    } else {
        Asked::RemoveFile { parent, name }
    };
    let last = seq![(request, Answer::Unit(result))];
    let end: UnitPlan = Plan::Done(told(result));
    parent_plan(names).lemma_bind_converses(
        delete_resolved(is_dir),
        resolving,
        resolved,
        last,
        end,
    );
    assert(resolving + last =~= resolving.push(last[0]));
    let released: Result<(), NTSTATUS> = Ok(());
    release_plan().lemma_bind_converses(
        delete_released(is_dir, names),
        releasing,
        released,
        resolving.push(last[0]),
        end,
    );
}

/// As a handle goes, its file is deleted exactly if that is asked for and the name is given.
pub proof fn lemma_cleanup_is_deletion(is_dir: bool, file_name: Seq<u16>, flags: CleanupFlags)
    ensures
        cleanup_plan(false, is_dir, Some(file_name), flags) == if flags.0 & 1 != 0 {
            delete_plan(is_dir, path_names(file_name))
        } else {
            Plan::Done(Ok(()))
        },
        cleanup_plan(false, is_dir, None, flags) == UnitPlan::Done(Ok(())),
{
}

} // verus!
