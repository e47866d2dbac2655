//! What holds of the operations as a whole.

use crate::adapter::cleanup_plan;
use crate::attr::{kind_attributes, FileAttr, FileInfo, FileType};
use crate::change::{
    overwrite_plan, refit_plan, refit_resized, rename_from, rename_plan, rename_to,
    set_basic_info_plan, set_delete_plan, set_file_size_plan, BasicTimes, Refit, Rename,
    SetBasicInfo, SetDelete,
};
use crate::context::{
    delete_plan, delete_released, release_plan, reopening, report_plan, resize_plan,
    resize_released, resizing, storing, DeleteByName, InfoPlan, OpenFile, Release, Report, Resize,
    UnitPlan, WindowsFileContext,
};
use crate::directory::{
    collected, is_pending, keeping, lemma_all_are_offered, listing, offering, offering_first,
    offers, pending, read_directory_plan, recalling, ReadDirectory,
};
use crate::flags::{CleanupFlags, CreateOptions, FileAccessRights};
use crate::io::{
    flush_plan, flushing, lemma_write_is_placed, read_plan, write_plan, write_reporting,
    write_sizing, writing, Flush, Read, Write, WriteMode, WritePlan, WriteResult,
};
use crate::open::{
    create_plan, create_resolved, open_plan, open_resolved, security_plan, security_resolved,
    Create, CreateFileInfo, Open, OpenPlan, OpenResult, SecurityByName, SecurityResult,
};
use crate::order::{lemma_sorted, lemma_sorted_keeps, sorted, text_le, Entries};
use crate::plan::Plan;
use crate::protocol::{changes, Answer, Asked, DirEntry, Operation, Reply, StorePlan};
use crate::resolve::{
    lemma_parent_asks_only, lemma_path_asks_only, parent_plan, path_plan, ParentWalk, PathWalk,
};
use crate::status::{
    status_result, FsError, NTSTATUS, STATUS_MEDIA_WRITE_PROTECTED, STATUS_OBJECT_NAME_COLLISION,
};
use crate::utf16::{text_units, NAME_UNITS};
use vstd::prelude::*;

verus! {

/// Every change to a read-only volume is refused at once, with the same status code and
/// without a request, and the deletion that comes with the end of a handle is left out.
pub proof fn lemma_read_only_refuses_changes(
    file: OpenFile,
    names: Seq<Seq<char>>,
    new_names: Seq<Seq<char>>,
    info: CreateFileInfo,
    len: usize,
    mode: WriteMode,
    times: BasicTimes,
    new_size: u64,
    flag: bool,
    file_name: Option<Seq<u16>>,
    flags: CleanupFlags,
)
    ensures
        create_plan(true, names, info) == OpenPlan::Done(Err(STATUS_MEDIA_WRITE_PROTECTED)),
        overwrite_plan(true, file) == InfoPlan::Done(Err(STATUS_MEDIA_WRITE_PROTECTED)),
        write_plan(true, file, len, mode) == WritePlan::Done(Err(STATUS_MEDIA_WRITE_PROTECTED)),
        set_basic_info_plan(true, file.ino, times) == InfoPlan::Done(
            Err(STATUS_MEDIA_WRITE_PROTECTED),
        ),
        set_file_size_plan(true, file, new_size, flag) == InfoPlan::Done(
            Err(STATUS_MEDIA_WRITE_PROTECTED),
        ),
        set_delete_plan(true, file, flag) == UnitPlan::Done(Err(STATUS_MEDIA_WRITE_PROTECTED)),
        rename_plan(true, names, new_names, flag) == UnitPlan::Done(
            Err(STATUS_MEDIA_WRITE_PROTECTED),
        ),
        cleanup_plan(true, file.is_dir, file_name, flags) == UnitPlan::Done(Ok(())),
{
}

/// Requests that leave the store as it is.
pub open spec fn unchanging() -> spec_fn(Asked) -> bool {
    |request: Asked| !changes(request)
}

/// What a read-only volume does not refuse changes nothing in the store, whatever the store
/// replies.
pub proof fn lemma_read_only_volume_changes_nothing(
    file: OpenFile,
    names: Seq<Seq<char>>,
    options: CreateOptions,
    access: FileAccessRights,
    offset: u64,
    marker: Option<Seq<char>>,
)
    ensures
        security_plan(names).asks_only(unchanging()),
        open_plan(names, options, access).asks_only(unchanging()),
        read_plan(file, offset).asks_only(unchanging()),
        flush_plan(true, file).asks_only(unchanging()),
        report_plan(file.ino).asks_only(unchanging()),
        read_directory_plan(file, marker).asks_only(unchanging()),
        release_plan().asks_only(unchanging()),
{
    let allowed = unchanging();
    lemma_path_asks_only(names, allowed);
    assert forall|found: Result<FileAttr, NTSTATUS>| (#[trigger] security_resolved()(
        found,
    )).asks_only(allowed) by {}
    path_plan(names).lemma_bind_asks_only(security_resolved(), allowed);
    assert forall|found: Result<FileAttr, NTSTATUS>| (#[trigger] open_resolved(options, access)(
        found,
    )).asks_only(allowed) by {
        reveal_with_fuel(Plan::asks_only, 3);
    }
    path_plan(names).lemma_bind_asks_only(open_resolved(options, access), allowed);
    lemma_read_asks_only(file, offset, allowed);
    lemma_report_asks_only(file.ino, allowed);
    lemma_listing_asks_only(file, marker, allowed);
    lemma_release_asks_only(allowed);
}

proof fn lemma_report_asks_only(ino: u64, allowed: spec_fn(Asked) -> bool)
    requires
        allowed(Asked::GetAttr { ino }),
    ensures
        report_plan(ino).asks_only(allowed),
{
    reveal_with_fuel(Plan::asks_only, 2);
}

proof fn lemma_release_asks_only(allowed: spec_fn(Asked) -> bool)
    requires
        allowed(Asked::TakeHandle),
        forall|handle: u64| #[trigger] allowed(Asked::Release { handle }),
    ensures
        release_plan().asks_only(allowed),
{
    reveal_with_fuel(Plan::asks_only, 3);
}

proof fn lemma_read_asks_only(file: OpenFile, offset: u64, allowed: spec_fn(Asked) -> bool)
    requires
        allowed(Asked::GetAttr { ino: file.ino }),
        allowed(Asked::PeekHandle),
        forall|handle: u64|
            #[trigger] allowed(Asked::Read { ino: file.ino, offset, handle }),
    ensures
        read_plan(file, offset).asks_only(allowed),
{
    reveal_with_fuel(Plan::asks_only, 4);
}

proof fn lemma_offering_asks_only(entries: Entries, allowed: spec_fn(Asked) -> bool)
    requires
        allowed(Asked::ClearEntries),
        forall|i: int|
            0 <= i < entries.len() ==> allowed(Asked::Offer { entry: #[trigger] entries[i] }),
    ensures
        offering(entries).asks_only(allowed),
    decreases entries.len(),
{
    reveal_with_fuel(Plan::asks_only, 2);
    if entries.len() > 0 {
        let rest = entries.skip(1);
        assert forall|i: int| 0 <= i < rest.len() implies allowed(
            Asked::Offer { entry: #[trigger] rest[i] },
        ) by {
            assert(rest[i] == entries[i + 1]);
        }
        lemma_offering_asks_only(rest, allowed);
        assert(allowed(Asked::Offer { entry: entries[0] }));
        reveal_with_fuel(offering, 2);
        reveal_with_fuel(offering_first, 2);
    }
}

proof fn lemma_listing_asks_only(
    file: OpenFile,
    marker: Option<Seq<char>>,
    allowed: spec_fn(Asked) -> bool,
)
    requires
        allowed(Asked::CachedEntries),
        allowed(Asked::ReadDirPlus { ino: file.ino }),
        allowed(Asked::ClearEntries),
        forall|entries: Entries| #[trigger] allowed(Asked::StoreEntries { entries }),
        forall|entry: DirEntry<Seq<char>>|
            is_pending(marker)(entry) ==> #[trigger] allowed(Asked::Offer { entry }),
    ensures
        read_directory_plan(file, marker).asks_only(allowed),
{
    reveal_with_fuel(Plan::asks_only, 2);
    assert forall|entries: Entries| (#[trigger] offering(pending(entries, marker))).asks_only(
        allowed,
    ) by {
        let offered = pending(entries, marker);
        assert forall|i: int| 0 <= i < offered.len() implies allowed(
            Asked::Offer { entry: #[trigger] offered[i] },
        ) by {
            entries.lemma_filter_pred(is_pending(marker), i);
        }
        lemma_offering_asks_only(offered, allowed);
    }
    assert forall|entries: Entries| (#[trigger] keeping(entries, marker)).asks_only(allowed) by {
        assert(offering(pending(entries, marker)).asks_only(allowed));
    }
    assert(listing(file.ino, marker).asks_only(allowed));
    let next = recalling(file.ino, marker)->Ask_1;
    assert forall|reply: Answer| (#[trigger] next(reply)).asks_only(allowed) by {
        match reply->Cached_0 {
            Some(Some(entries)) => {
                assert(offering(pending(entries, marker)).asks_only(allowed));
            },
            _ => {},
        }
    }
}

/// Every entry that Windows is offered comes behind the marker and has a name that fits into
/// the record of an entry, whatever the store replies and whatever listing was kept.
pub proof fn lemma_offered_names_fit(file: OpenFile, marker: Option<Seq<char>>)
    ensures
        read_directory_plan(file, marker).asks_only(
            |request: Asked|
                request matches Asked::Offer { entry } ==> {
                    &&& marker matches Some(last) ==> !text_le(entry.name, last)
                    &&& text_units(entry.name).len() < NAME_UNITS
                },
        ),
{
    let allowed = |request: Asked|
        request matches Asked::Offer { entry } ==> {
            &&& marker matches Some(last) ==> !text_le(entry.name, last)
            &&& text_units(entry.name).len() < NAME_UNITS
        };
    lemma_listing_asks_only(file, marker, allowed);
}

/// A listing that Windows takes whole offers every entry of the directory whose name fits,
/// each once and in order, and is not kept any longer.
pub proof fn lemma_listing_taken_whole(
    file: OpenFile,
    entries: Entries,
    world: spec_fn(Asked) -> Answer,
)
    requires
        file.is_dir,
        world(Asked::CachedEntries)->Cached_0 is Some,
        world(Asked::ReadDirPlus { ino: file.ino })->Listing_0 matches Ok(items) && collected(items)
            == Some(Ok::<Entries, NTSTATUS>(entries)),
        forall|entry: DirEntry<Seq<char>>|
            entries.contains(entry) ==> (#[trigger] world(Asked::Offer { entry }))->Accepted_0,
        world(Asked::ClearEntries)->Stored_0,
    ensures
        read_directory_plan(file, None).run(world) == Some(Ok::<(), NTSTATUS>(())),
        read_directory_plan(file, None).trace(world) == seq![
            Asked::CachedEntries,
            Asked::ReadDirPlus { ino: file.ino },
            Asked::StoreEntries { entries: sorted(entries) },
        ] + offers(pending(sorted(entries), None)).push(Asked::ClearEntries),
{
    let offered = pending(sorted(entries), None);
    lemma_sorted(entries);
    assert forall|i: int| 0 <= i < offered.len() implies world(
        Asked::Offer { entry: #[trigger] offered[i] },
    )->Accepted_0 by {
        assert(offered.contains(offered[i]));
        sorted(entries).lemma_filter_contains_rev(is_pending(None), offered[i]);
        lemma_sorted_keeps(entries, offered[i]);
        assert(entries.contains(offered[i]));
    }
    lemma_all_are_offered(offered, world);
    reveal_with_fuel(Plan::run, 4);
    reveal_with_fuel(Plan::trace, 4);
    assert(read_directory_plan(file, None).trace(world) =~= seq![
        Asked::CachedEntries,
        Asked::ReadDirPlus { ino: file.ino },
        Asked::StoreEntries { entries: sorted(entries) },
    ] + offers(offered).push(Asked::ClearEntries));
}

/// A write takes no more bytes than the buffer of Windows has, whatever the store replies.
pub proof fn lemma_write_stays_within_the_buffer(
    read_only: bool,
    file: OpenFile,
    len: usize,
    mode: WriteMode,
)
    ensures
        write_plan(read_only, file, len, mode).asks_only(
            |request: Asked| request matches Asked::Write { count, .. } ==> count <= len,
        ),
{
    let allowed = |request: Asked| request matches Asked::Write { count, .. } ==> count <= len;
    reveal_with_fuel(Plan::asks_only, 2);
    assert forall|count: usize| (#[trigger] write_reporting(file.ino, count)).asks_only(
        allowed,
    ) by {}
    assert forall|offset: u64, count: usize, handle: u64| count <= len implies (#[trigger] writing(
        file.ino,
        offset,
        count,
        handle,
    )).asks_only(allowed) by {}
    assert forall|handle: u64| (#[trigger] write_sizing(file.ino, len, mode, handle)).asks_only(
        allowed,
    ) by {
        let next = write_sizing(file.ino, len, mode, handle)->Ask_1;
        assert forall|reply: Answer| (#[trigger] next(reply)).asks_only(allowed) by {
            match reply->Attr_0 {
                Ok(attr) => lemma_write_is_placed(mode, attr.size, len),
                Err(_) => {},
            }
        }
    }
}

/// Requests that concern a file by its number, or an open file that Windows holds, but none
/// that goes by a name or concerns another file.
pub open spec fn concerns(ino: u64) -> spec_fn(Asked) -> bool {
    |request: Asked|
        match request {
            Asked::GetAttr { ino: other } => other == ino,
            Asked::Open { ino: other, .. } => other == ino,
            Asked::SetLen { ino: other, .. } => other == ino,
            Asked::SetAttr { ino: other, .. } => other == ino,
            Asked::Read { ino: other, .. } => other == ino,
            Asked::Write { ino: other, .. } => other == ino,
            Asked::Len { ino: other } => other == ino,
            Asked::ReadDirPlus { ino: other } => other == ino,
            Asked::FindByName { .. }
            | Asked::Create { .. }
            | Asked::RemoveDir { .. }
            | Asked::RemoveFile { .. }
            | Asked::Rename { .. } => false,
            _ => true,
        }
}

/// An operation on an open file or directory concerns that file alone, whatever the store
/// replies.
pub proof fn lemma_open_file_alone_is_touched(
    read_only: bool,
    file: OpenFile,
    offset: u64,
    len: usize,
    mode: WriteMode,
    times: BasicTimes,
    new_size: u64,
    flag: bool,
    marker: Option<Seq<char>>,
)
    ensures
        report_plan(file.ino).asks_only(concerns(file.ino)),
        release_plan().asks_only(concerns(file.ino)),
        read_plan(file, offset).asks_only(concerns(file.ino)),
        write_plan(read_only, file, len, mode).asks_only(concerns(file.ino)),
        flush_plan(read_only, file).asks_only(concerns(file.ino)),
        overwrite_plan(read_only, file).asks_only(concerns(file.ino)),
        set_basic_info_plan(read_only, file.ino, times).asks_only(concerns(file.ino)),
        set_file_size_plan(read_only, file, new_size, flag).asks_only(concerns(file.ino)),
        set_delete_plan(read_only, file, flag).asks_only(concerns(file.ino)),
        read_directory_plan(file, marker).asks_only(concerns(file.ino)),
{
    let allowed = concerns(file.ino);
    lemma_report_asks_only(file.ino, allowed);
    lemma_release_asks_only(allowed);
    lemma_read_asks_only(file, offset, allowed);
    lemma_listing_asks_only(file, marker, allowed);
    lemma_write_asks_only(read_only, file, len, mode, allowed);
    lemma_refit_asks_only(file, 0, allowed);
    lemma_refit_asks_only(file, new_size, allowed);
    reveal_with_fuel(Plan::asks_only, 2);
    assert forall|handle: u64| (#[trigger] flushing(file.ino, handle)).asks_only(allowed) by {}
}

proof fn lemma_write_asks_only(
    read_only: bool,
    file: OpenFile,
    len: usize,
    mode: WriteMode,
    allowed: spec_fn(Asked) -> bool,
)
    requires
        allowed(Asked::GetAttr { ino: file.ino }),
        allowed(Asked::PeekHandle),
        forall|offset: u64, count: usize, handle: u64|
            #[trigger] allowed(Asked::Write { ino: file.ino, offset, count, handle }),
    ensures
        write_plan(read_only, file, len, mode).asks_only(allowed),
{
    reveal_with_fuel(Plan::asks_only, 2);
    assert forall|count: usize| (#[trigger] write_reporting(file.ino, count)).asks_only(
        allowed,
    ) by {}
    assert forall|offset: u64, count: usize, handle: u64| (#[trigger] writing(
        file.ino,
        offset,
        count,
        handle,
    )).asks_only(allowed) by {}
    assert forall|handle: u64| (#[trigger] write_sizing(file.ino, len, mode, handle)).asks_only(
        allowed,
    ) by {}
}

proof fn lemma_resize_asks_only(file: OpenFile, new_size: u64, allowed: spec_fn(Asked) -> bool)
    requires
        allowed(Asked::TakeHandle),
        allowed(Asked::SetLen { ino: file.ino, size: new_size }),
        allowed(Asked::Open { ino: file.ino, read: file.read, write: file.write }),
        forall|handle: u64| #[trigger] allowed(Asked::Release { handle }),
        forall|handle: u64| #[trigger] allowed(Asked::StoreHandle { handle }),
    ensures
        resize_plan(file, new_size).asks_only(allowed),
{
    lemma_release_asks_only(allowed);
    reveal_with_fuel(Plan::asks_only, 2);
    assert forall|handle: u64| (#[trigger] storing(handle)).asks_only(allowed) by {}
    assert(reopening(file).asks_only(allowed));
    assert(resizing(file, new_size).asks_only(allowed));
    release_plan().lemma_bind_asks_only(resize_released(file, new_size), allowed);
}

proof fn lemma_refit_asks_only(file: OpenFile, new_size: u64, allowed: spec_fn(Asked) -> bool)
    requires
        allowed(Asked::GetAttr { ino: file.ino }),
        allowed(Asked::TakeHandle),
        allowed(Asked::SetLen { ino: file.ino, size: new_size }),
        allowed(Asked::Open { ino: file.ino, read: file.read, write: file.write }),
        forall|handle: u64| #[trigger] allowed(Asked::Release { handle }),
        forall|handle: u64| #[trigger] allowed(Asked::StoreHandle { handle }),
    ensures
        refit_plan(file, new_size).asks_only(allowed),
{
    lemma_resize_asks_only(file, new_size, allowed);
    lemma_report_asks_only(file.ino, allowed);
    resize_plan(file, new_size).lemma_bind_asks_only(refit_resized(file.ino), allowed);
}

/// What an open file or directory is like when it is handed to Windows: a directory is open
/// in no mode of the store, anything else in one at least, no listing is kept yet, and
/// Windows is told the number of the same file.
pub open spec fn handed_over(context: WindowsFileContext, info: FileInfo) -> bool {
    &&& context.file.is_dir ==> !context.file.read && !context.file.write
    &&& !context.file.is_dir ==> context.file.read || context.file.write
    &&& context.directory_entries is None
    &&& info.index_number == context.file.ino
}

/// What opening may come to: a failure, or a directory without a store handle if a directory
/// was found, or a file with one; a directory where one is wanted, and none where none is.
pub open spec fn opens(options: CreateOptions, access: FileAccessRights) -> spec_fn(
    OpenResult,
) -> bool {
    |result: OpenResult|
        result matches Ok((context, info)) ==> {
            &&& handed_over(context, info)
            &&& context.file.is_dir == (info.file_attributes == kind_attributes(
                FileType::Directory,
            ))
            &&& context.file.is_dir == (context.handle is None)
            &&& !context.file.is_dir ==> (context.file.read, context.file.write) == access.modes()
            &&& options.wants_directory() ==> context.file.is_dir
            &&& options.wants_file() ==> !context.file.is_dir
        }
}

/// Opening keeps to what is wanted and granted, whatever the store replies.
pub proof fn lemma_open_keeps_to_what_is_wanted(
    names: Seq<Seq<char>>,
    options: CreateOptions,
    access: FileAccessRights,
)
    ensures
        open_plan(names, options, access).yields_only(opens(options, access)),
{
    let allowed = opens(options, access);
    let anything = |found: Result<FileAttr, NTSTATUS>| true;
    path_plan(names).lemma_yields_anything();
    assert forall|found: Result<FileAttr, NTSTATUS>| anything(found) implies (
    #[trigger] open_resolved(options, access)(found)).yields_only(allowed) by {
        reveal_with_fuel(Plan::yields_only, 2);
    }
    path_plan(names).lemma_bind_yields_only(open_resolved(options, access), anything, allowed);
}

/// What creating may come to: a failure, or an open directory or file as the options say.
pub open spec fn creates(info: CreateFileInfo) -> spec_fn(OpenResult) -> bool {
    |result: OpenResult|
        result matches Ok((context, told)) ==> {
            &&& handed_over(context, told)
            &&& context.file.is_dir == info.create_options.wants_directory()
            &&& !context.file.is_dir ==> (context.file.read, context.file.write)
                == info.granted_access.modes()
            &&& context.handle != Some(0u64)
        }
}

/// Creating keeps to what is wanted and granted, whatever the store replies.
pub proof fn lemma_create_keeps_to_what_is_wanted(
    read_only: bool,
    names: Seq<Seq<char>>,
    info: CreateFileInfo,
)
    ensures
        create_plan(read_only, names, info).yields_only(creates(info)),
{
    if !read_only {
        let allowed = creates(info);
        let anything = |resolved: Result<(u64, Seq<char>), NTSTATUS>| true;
        parent_plan(names).lemma_yields_anything();
        assert forall|resolved: Result<(u64, Seq<char>), NTSTATUS>| anything(resolved) implies (
        #[trigger] create_resolved(info)(resolved)).yields_only(allowed) by {
            reveal_with_fuel(Plan::yields_only, 2);
        }
        parent_plan(names).lemma_bind_yields_only(create_resolved(info), anything, allowed);
    }
}

/// Requests that remove nothing.
pub open spec fn unremoving() -> spec_fn(Asked) -> bool {
    |request: Asked| !(request is RemoveDir) && !(request is RemoveFile)
}

/// A renaming that may not replace anything removes nothing, whatever the store replies.
pub proof fn lemma_rename_replaces_only_if_it_may(
    read_only: bool,
    names: Seq<Seq<char>>,
    new_names: Seq<Seq<char>>,
)
    ensures
        rename_plan(read_only, names, new_names, false).asks_only(unremoving()),
{
    let allowed = unremoving();
    lemma_parent_asks_only(names, allowed);
    lemma_parent_asks_only(new_names, allowed);
    assert forall|resolved: Result<(u64, Seq<char>), NTSTATUS>| (#[trigger] rename_from(
        new_names,
        false,
    )(resolved)).asks_only(allowed) by {
        match resolved {
            Ok((parent, name)) => {
                assert forall|target: Result<(u64, Seq<char>), NTSTATUS>| (#[trigger] rename_to(
                    parent,
                    name,
                    false,
                )(target)).asks_only(allowed) by {
                    reveal_with_fuel(Plan::asks_only, 3);
                }
                parent_plan(new_names).lemma_bind_asks_only(
                    rename_to(parent, name, false),
                    allowed,
                );
            },
            Err(_) => {},
        }
    }
    parent_plan(names).lemma_bind_asks_only(rename_from(new_names, false), allowed);
}

/// What a renaming comes to once both directories are known.
proof fn lemma_rename_run(
    names: Seq<Seq<char>>,
    new_names: Seq<Seq<char>>,
    replace_if_exists: bool,
    parent: u64,
    name: Seq<char>,
    new_parent: u64,
    new_name: Seq<char>,
    store: spec_fn(Asked) -> Answer,
)
    requires
        parent_plan(names).run(store) == Some(Ok::<(u64, Seq<char>), NTSTATUS>((parent, name))),
        parent_plan(new_names).run(store) == Some(
            Ok::<(u64, Seq<char>), NTSTATUS>((new_parent, new_name)),
        ),
    ensures
        ({
            let target: Result<(u64, Seq<char>), NTSTATUS> = Ok((new_parent, new_name));
            let rest = rename_to(parent, name, replace_if_exists)(target);
            let whole = rename_plan(false, names, new_names, replace_if_exists);
            &&& whole.run(store) == rest.run(store)
            &&& whole.trace(store) == parent_plan(names).trace(store) + (parent_plan(
                new_names,
            ).trace(store) + rest.trace(store))
        }),
{
    parent_plan(names).lemma_bind_run(rename_from(new_names, replace_if_exists), store);
    parent_plan(new_names).lemma_bind_run(rename_to(parent, name, replace_if_exists), store);
}

/// Every request of a run is one that the plan may make.
proof fn lemma_trace_is_allowed<Q, R, T>(
    plan: Plan<Q, R, T>,
    world: spec_fn(Q) -> R,
    allowed: spec_fn(Q) -> bool,
)
    requires
        plan.asks_only(allowed),
    ensures
        forall|request: Q| #[trigger] plan.trace(world).contains(request) ==> allowed(request),
    decreases plan,
{
    match plan {
        Plan::Ask(request, next) => {
            let rest = next(world(request));
            lemma_trace_is_allowed(rest, world, allowed);
            assert forall|other: Q| #[trigger] plan.trace(world).contains(other) implies allowed(
                other,
            ) by {
                let at = choose|at: int|
                    0 <= at < plan.trace(world).len() && plan.trace(world)[at] == other;
                if at > 0 {
                    assert(rest.trace(world)[at - 1] == other);
                    assert(rest.trace(world).contains(other));
                }
            }
        },
        _ => {},
    }
}

/// A file that is renamed to the name it has stays as it is, and so does everything else.
pub proof fn lemma_rename_to_the_same_name(
    names: Seq<Seq<char>>,
    new_names: Seq<Seq<char>>,
    replace_if_exists: bool,
    store: spec_fn(Asked) -> Answer,
)
    requires
        parent_plan(names).run(store) matches Some(Ok(_)),
        parent_plan(new_names).run(store) == parent_plan(names).run(store),
    ensures
        rename_plan(false, names, new_names, replace_if_exists).run(store) == Some(
            Ok::<(), NTSTATUS>(()),
        ),
        forall|request: Asked| #[trigger]
            rename_plan(false, names, new_names, replace_if_exists).trace(store).contains(request)
                ==> !changes(request),
{
    let (parent, name) = parent_plan(names).run(store)->0->Ok_0;
    lemma_rename_run(names, new_names, replace_if_exists, parent, name, parent, name, store);
    lemma_parent_asks_only(names, unchanging());
    lemma_parent_asks_only(new_names, unchanging());
    lemma_trace_is_allowed(parent_plan(names), store, unchanging());
    lemma_trace_is_allowed(parent_plan(new_names), store, unchanging());
    let first = parent_plan(names).trace(store);
    let second = parent_plan(new_names).trace(store);
    let whole = rename_plan(false, names, new_names, replace_if_exists).trace(store);
    assert(whole == first + second);
    assert forall|request: Asked| #[trigger] whole.contains(request) implies !changes(request) by {
        let at = choose|at: int| 0 <= at < whole.len() && whole[at] == request;
        if at < first.len() {
            assert(first[at] == request);
            assert(first.contains(request));
        } else {
            assert(second[at - first.len()] == request);
            assert(second.contains(request));
        }
        assert(unchanging()(request));
    }
}

/// A renaming to a name that is taken fails with a collision unless the file may be replaced,
/// and changes nothing.
pub proof fn lemma_rename_collides(
    names: Seq<Seq<char>>,
    new_names: Seq<Seq<char>>,
    store: spec_fn(Asked) -> Answer,
)
    requires
        parent_plan(names).run(store) matches Some(Ok(_)),
        parent_plan(new_names).run(store) matches Some(Ok((new_parent, new_name))) && store(
            Asked::FindByName { parent: new_parent, name: new_name },
        )->Found_0 matches Ok(Some(_)),
        parent_plan(new_names).run(store) != parent_plan(names).run(store),
    ensures
        rename_plan(false, names, new_names, false).run(store) == Some(
            Err::<(), NTSTATUS>(STATUS_OBJECT_NAME_COLLISION),
        ),
        forall|request: Asked| #[trigger]
            rename_plan(false, names, new_names, false).trace(store).contains(request) ==> !changes(
                request,
            ),
{
    let (parent, name) = parent_plan(names).run(store)->0->Ok_0;
    let (new_parent, new_name) = parent_plan(new_names).run(store)->0->Ok_0;
    lemma_rename_run(names, new_names, false, parent, name, new_parent, new_name, store);
    let target: Result<(u64, Seq<char>), NTSTATUS> = Ok((new_parent, new_name));
    let rest = rename_to(parent, name, false)(target);
    reveal_with_fuel(Plan::run, 2);
    reveal_with_fuel(Plan::trace, 2);
    let look = Asked::FindByName { parent: new_parent, name: new_name };
    assert(rest.trace(store) == seq![look]);
    lemma_parent_asks_only(names, unchanging());
    lemma_parent_asks_only(new_names, unchanging());
    lemma_trace_is_allowed(parent_plan(names), store, unchanging());
    lemma_trace_is_allowed(parent_plan(new_names), store, unchanging());
    let first = parent_plan(names).trace(store);
    let second = parent_plan(new_names).trace(store);
    let whole = rename_plan(false, names, new_names, false).trace(store);
    assert forall|request: Asked| #[trigger] whole.contains(request) implies !changes(request) by {
        let at = choose|at: int| 0 <= at < whole.len() && whole[at] == request;
        if at < first.len() {
            assert(first[at] == request);
            assert(first.contains(request));
            assert(unchanging()(request));
        } else if at < first.len() + second.len() {
            assert(second[at - first.len()] == request);
            assert(second.contains(request));
            assert(unchanging()(request));
        } else {
            assert(request == look);
        }
    }
}

/// A file is closed before its size is changed and before it is deleted; if that fails, the
/// failure is all that comes of it.
pub proof fn lemma_file_is_closed_first(
    file: OpenFile,
    new_size: u64,
    names: Seq<Seq<char>>,
    store: spec_fn(Asked) -> Answer,
)
    ensures
        release_plan().trace(store).is_prefix_of(resize_plan(file, new_size).trace(store)),
        release_plan().trace(store).is_prefix_of(delete_plan(file.is_dir, names).trace(store)),
        release_plan().run(store) matches Some(Err(status)) ==> {
            &&& resize_plan(file, new_size).run(store) == release_plan().run(store)
            &&& resize_plan(file, new_size).trace(store) == release_plan().trace(store)
            &&& delete_plan(file.is_dir, names).run(store) == release_plan().run(store)
            &&& delete_plan(file.is_dir, names).trace(store) == release_plan().trace(store)
        },
{
    release_plan().lemma_bind_run(resize_released(file, new_size), store);
    release_plan().lemma_bind_run(delete_released(file.is_dir, names), store);
}

/// A handle that is taken out of an open file is the one that is released, and nothing is
/// released where there is none.
pub proof fn lemma_taken_handle_is_released(store: spec_fn(Asked) -> Answer)
    ensures
        release_plan().trace(store) == match store(Asked::TakeHandle)->Slot_0 {
            Some(Some(handle)) => seq![Asked::TakeHandle, Asked::Release { handle }],
            _ => seq![Asked::TakeHandle],
        },
{
    reveal_with_fuel(Plan::trace, 3);
    assert(release_plan().trace(store) =~= match store(Asked::TakeHandle)->Slot_0 {
        Some(Some(handle)) => seq![Asked::TakeHandle, Asked::Release { handle }],
        _ => seq![Asked::TakeHandle],
    });
}

/// A size that is changed without a failure is changed while the file is closed, and the file
/// is open again afterwards, in the modes it had and under the handle that the store gave.
pub proof fn lemma_resized_file_is_open_again(
    file: OpenFile,
    new_size: u64,
    store: spec_fn(Asked) -> Answer,
)
    requires
        resize_plan(file, new_size).run(store) == Some(Ok::<(), NTSTATUS>(())),
    ensures
        store(
            Asked::Open { ino: file.ino, read: file.read, write: file.write },
        )->Handle_0 matches Ok(handle) && resize_plan(file, new_size).trace(store)
            == release_plan().trace(store) + seq![
            Asked::SetLen { ino: file.ino, size: new_size },
            Asked::Open { ino: file.ino, read: file.read, write: file.write },
            Asked::StoreHandle { handle },
        ],
{
    release_plan().lemma_bind_run(resize_released(file, new_size), store);
    reveal_with_fuel(Plan::run, 4);
    reveal_with_fuel(Plan::trace, 4);
    let open = Asked::Open { ino: file.ino, read: file.read, write: file.write };
    let handle = store(open)->Handle_0->Ok_0;
    assert(resizing(file, new_size).trace(store) =~= seq![
        Asked::SetLen { ino: file.ino, size: new_size },
        open,
        Asked::StoreHandle { handle },
    ]);
}

/// Creating sets no length: the space that Windows wants reserved is a hint only, and a new
/// file is as long as the store makes it.
pub proof fn lemma_create_sets_no_length(
    read_only: bool,
    names: Seq<Seq<char>>,
    info: CreateFileInfo,
)
    ensures
        create_plan(read_only, names, info).asks_only(
            |request: Asked| !(request is SetLen) && !(request is Write),
        ),
{
    let allowed = |request: Asked| !(request is SetLen) && !(request is Write);
    lemma_parent_asks_only(names, allowed);
    assert forall|resolved: Result<(u64, Seq<char>), NTSTATUS>| (#[trigger] create_resolved(info)(
        resolved,
    )).asks_only(allowed) by {
        reveal_with_fuel(Plan::asks_only, 2);
    }
    parent_plan(names).lemma_bind_asks_only(create_resolved(info), allowed);
}

/// Space that is set aside for a file never makes it longer: where the file fits, it is
/// reported as it is.
pub proof fn lemma_space_makes_no_file_longer(file: OpenFile, new_size: u64, current: FileAttr)
    requires
        !file.is_dir,
        current.size <= new_size,
    ensures
        (set_file_size_plan(false, file, new_size, true)->Ask_1)(Reply::Attr(Ok(current)))
            == report_plan(file.ino),
{
}

/// A read within a file reaches the store, at the same offset and with the handle of the open
/// file, and what the store says is what Windows gets.
pub proof fn lemma_read_reaches_the_store(
    file: OpenFile,
    offset: u64,
    handle: u64,
    store: spec_fn(Asked) -> Answer,
)
    requires
        !file.is_dir,
        store(Asked::GetAttr { ino: file.ino })->Attr_0 matches Ok(attr) && offset < attr.size,
        store(Asked::PeekHandle)->Slot_0 == Some(Some(handle)),
    ensures
        read_plan(file, offset).trace(store) == seq![
            Asked::GetAttr { ino: file.ino },
            Asked::PeekHandle,
            Asked::Read { ino: file.ino, offset, handle },
        ],
        read_plan(file, offset).run(store) == Some(
            status_result(store(Asked::Read { ino: file.ino, offset, handle })->Count_0),
        ),
{
    reveal_with_fuel(Plan::run, 4);
    reveal_with_fuel(Plan::trace, 4);
    assert(read_plan(file, offset).trace(store) =~= seq![
        Asked::GetAttr { ino: file.ino },
        Asked::PeekHandle,
        Asked::Read { ino: file.ino, offset, handle },
    ]);
}

/// A write that is placed reaches the store at its place, with the handle of the open file,
/// and exactly once.
pub proof fn lemma_write_reaches_the_store(
    file: OpenFile,
    len: usize,
    mode: WriteMode,
    handle: u64,
    attr: FileAttr,
    offset: u64,
    count: usize,
    store: spec_fn(Asked) -> Answer,
)
    requires
        !file.is_dir,
        store(Asked::PeekHandle)->Slot_0 == Some(Some(handle)),
        store(Asked::GetAttr { ino: file.ino })->Attr_0 == Ok::<FileAttr, FsError>(attr),
        mode.placed(attr.size, len) == Some((offset, count)),
    ensures
        write_plan(false, file, len, mode).trace(store) == seq![
            Asked::PeekHandle,
            Asked::GetAttr { ino: file.ino },
            Asked::Write { ino: file.ino, offset, count, handle },
        ] + if store(Asked::Write { ino: file.ino, offset, count, handle })->Count_0 is Ok {
            seq![Asked::GetAttr { ino: file.ino }]
        } else {
            Seq::empty()
        },
{
    reveal_with_fuel(Plan::trace, 5);
    assert(write_plan(false, file, len, mode).trace(store) =~= seq![
        Asked::PeekHandle,
        Asked::GetAttr { ino: file.ino },
        Asked::Write { ino: file.ino, offset, count, handle },
    ] + if store(Asked::Write { ino: file.ino, offset, count, handle })->Count_0 is Ok {
        seq![Asked::GetAttr { ino: file.ino }]
    } else {
        Seq::empty()
    });
}

/// The store handle that an open file has at the end of a plan, if it has a given one at its
/// beginning, its lock is in order, and the store replies in a given way.
pub open spec fn handle_after<T>(
    plan: StorePlan<T>,
    slot: Option<u64>,
    store: spec_fn(Asked) -> Answer,
) -> Option<u64>
    decreases plan,
{
    match plan {
        Plan::Ask(request, next) => match request {
            Asked::PeekHandle => handle_after(next(Reply::Slot(Some(slot))), slot, store),
            Asked::TakeHandle => handle_after(next(Reply::Slot(Some(slot))), None, store),
            Asked::StoreHandle { handle } => handle_after(
                next(Reply::Stored(true)),
                Some(handle),
                store,
            ),
            _ => handle_after(next(store(request)), slot, store),
        },
        _ => slot,
    }
}

/// A file that was closed has no store handle, whether or not the store could release it, so
/// closing it once more releases nothing.
pub proof fn lemma_closed_file_has_no_handle(slot: Option<u64>, store: spec_fn(Asked) -> Answer)
    ensures
        handle_after(release_plan(), slot, store) is None,
        (release_plan()->Ask_1)(Reply::Slot(Some(None))) == UnitPlan::Done(Ok(())),
{
    reveal_with_fuel(handle_after, 3);
}

/// After its size was changed, an open file has the store handle under which it was opened
/// again, and none if any step failed.
pub proof fn lemma_handle_after_resize(
    file: OpenFile,
    new_size: u64,
    slot: Option<u64>,
    store: spec_fn(Asked) -> Answer,
)
    ensures
        handle_after(resize_plan(file, new_size), slot, store) == {
            let released = slot matches Some(handle) ==> store(
                Asked::Release { handle },
            )->Unit_0 is Ok;
            let resized = store(Asked::SetLen { ino: file.ino, size: new_size })->Unit_0 is Ok;
            let opened = store(
                Asked::Open { ino: file.ino, read: file.read, write: file.write },
            )->Handle_0;
            match opened {
                Ok(handle) if released && resized => Some(handle),
                _ => None,
            }
        },
{
    reveal_with_fuel(handle_after, 6);
    reveal_with_fuel(Plan::bind, 4);
}

/// What an operation gives in the end is what its plan comes to, names as texts.
pub proof fn lemma_outcomes_are_outputs(
    found: Result<FileAttr, NTSTATUS>,
    parent: u64,
    name: String,
    status: NTSTATUS,
    opened: OpenResult,
    security: SecurityResult,
    info: Result<FileInfo, NTSTATUS>,
    unit: Result<(), NTSTATUS>,
    count: Result<usize, NTSTATUS>,
    written: WriteResult,
)
    ensures
        PathWalk::outcome(found) == found,
        ParentWalk::outcome(Ok((parent, name))) == Ok::<(u64, Seq<char>), NTSTATUS>(
            (parent, name@),
        ),
        ParentWalk::outcome(Err(status)) == Err::<(u64, Seq<char>), NTSTATUS>(status),
        Create::outcome(opened) == opened,
        Open::outcome(opened) == opened,
        SecurityByName::outcome(security) == security,
        Report::outcome(info) == info,
        Release::outcome(unit) == unit,
        Resize::outcome(unit) == unit,
        DeleteByName::outcome(unit) == unit,
        Refit::outcome(info) == info,
        SetBasicInfo::outcome(info) == info,
        SetDelete::outcome(unit) == unit,
        Rename::outcome(unit) == unit,
        Read::outcome(count) == count,
        Write::outcome(written) == written,
        Flush::outcome(info) == info,
        ReadDirectory::outcome(unit) == unit,
{
}

} // verus!
