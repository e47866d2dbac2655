//! The file system as Windows calls it. Each call begins an operation.

use crate::attr::{FileAttr, FileInfo};
use crate::change::{
    overwrite_plan, rename_plan, set_basic_info_plan, set_delete_plan, set_file_size_plan,
    BasicTimes, Refit, Rename, SetBasicInfo, SetDelete,
};
use crate::context::{
    delete_plan, release_plan, report_plan, resize_plan, DeleteByName, OpenFile, Release, Report,
    Resize, UnitPlan,
};
use crate::directory::{read_directory_plan, ReadDirectory};
use crate::flags::{CleanupFlags, CreateOptions, FileAccessRights, FileAttributes, CLEANUP_DELETE};
use crate::io::{flush_plan, read_plan, write_plan, Flush, Read, Write, WriteMode, WriteResult};
use crate::open::{
    create_plan, open_plan, security_plan, Create, CreateFileInfo, Open, OpenResult, SecurityByName,
    SecurityResult,
};
use crate::path::{path_components, path_names};
use crate::plan::Plan;
use crate::protocol::{follows, Step};
use crate::resolve::{parent_plan, path_plan, ParentWalk, PathWalk};
use crate::status::NTSTATUS;
use crate::utf16::{lossy_text, to_string_lossy};
use vstd::prelude::*;

verus! {

/// Windows is told that the volume has this many bytes, and that all of them are free.
pub const VOLUME_SIZE: u64 = 1024 * 1024 * 1024 * 1024;

/// What Windows is told of the volume.
#[derive(Debug, Clone, Copy, PartialEq, Eq)]
pub struct VolumeInfo {
    pub total_size: u64,
    pub free_size: u64,
    pub volume_label: &'static str,
}

/// What Windows is told of every volume.
pub open spec fn volume_info() -> VolumeInfo {
    VolumeInfo { total_size: VOLUME_SIZE, free_size: VOLUME_SIZE, volume_label: "rencfs" }
}

impl VolumeInfo {
    /// What Windows is told of every volume.
    pub fn of_volume() -> (info: VolumeInfo)
        ensures
            info == volume_info(),
    {
        VolumeInfo { total_size: VOLUME_SIZE, free_size: VOLUME_SIZE, volume_label: "rencfs" }
    }
}

/// The file system; a read-only one changes nothing in the store.
#[derive(Debug, Clone, Copy, PartialEq, Eq, Structural)]
pub struct WindowsFs {
    pub read_only: bool,
}

/// Deleting an open file or directory as a handle of it goes, if that is asked for.
pub open spec fn cleanup_plan(
    read_only: bool,
    is_dir: bool,
    file_name: Option<Seq<u16>>,
    flags: CleanupFlags,
) -> UnitPlan {
    if read_only || flags.0 & CLEANUP_DELETE == 0 {
        Plan::Done(Ok(()))
    } else {
        match file_name {
            Some(file_name) => delete_plan(is_dir, path_names(file_name)),
            None => Plan::Done(Ok(())),
        }
    }
}

/// The units of a name, if there is one.
pub open spec fn name_units(file_name: Option<&[u16]>) -> Option<Seq<u16>> {
    match file_name {
        Some(file_name) => Some(file_name@),
        None => None,
    }
}

/// The text of a name, if there is one.
pub open spec fn name_text(file_name: Option<&[u16]>) -> Option<Seq<char>> {
    match file_name {
        Some(file_name) => Some(lossy_text(file_name@)),
        None => None,
    }
}

impl WindowsFs {
    /// What Windows is told of the volume.
    pub fn get_volume_info(&self) -> (info: Result<VolumeInfo, NTSTATUS>)
        ensures
            info == Ok::<VolumeInfo, NTSTATUS>(volume_info()),
    {
        Ok(VolumeInfo::of_volume())
    }

    /// Begins to find the file that a path names.
    pub fn resolve_path(&self, file_name: &[u16]) -> (step: Step<
        PathWalk,
        Result<FileAttr, NTSTATUS>,
    >)
        ensures
            follows(step, path_plan(path_names(file_name@))),
    {
        PathWalk::start(path_components(file_name))
    }

    /// Begins to find the directory in which the last component of a path stands.
    pub fn resolve_parent(&self, file_name: &[u16]) -> (step: Step<
        ParentWalk,
        Result<(u64, String), NTSTATUS>,
    >)
        ensures
            follows(step, parent_plan(path_names(file_name@))),
    {
        ParentWalk::start(path_components(file_name))
    }

    /// Begins to delete an open file or directory.
    pub fn delete_by_name(&self, file: OpenFile, file_name: &[u16]) -> (step: Step<
        DeleteByName,
        Result<(), NTSTATUS>,
    >)
        ensures
            follows(step, delete_plan(file.is_dir, path_names(file_name@))),
    {
        DeleteByName::start(file.is_dir, path_components(file_name))
    }

    /// Begins to give the store handle of an open file back.
    pub fn release_context(&self) -> (step: Step<Release, Result<(), NTSTATUS>>)
        ensures
            follows(step, release_plan()),
    {
        Release::start()
    }

    /// Begins to change the size of an open file.
    pub fn resize_context(&self, file: OpenFile, new_size: u64) -> (step: Step<
        Resize,
        Result<(), NTSTATUS>,
    >)
        ensures
            follows(step, resize_plan(file, new_size)),
    {
        Resize::start(file, new_size)
    }

    /// Begins to tell the attribute bits of the file that a path names.
    pub fn get_security_by_name(&self, file_name: &[u16]) -> (step: Step<
        SecurityByName,
        SecurityResult,
    >)
        ensures
            follows(step, security_plan(path_names(file_name@))),
    {
        SecurityByName::start(path_components(file_name))
    }

    /// Begins to create a file or directory.
    pub fn create(&self, file_name: &[u16], create_file_info: CreateFileInfo) -> (step: Step<
        Create,
        OpenResult,
    >)
        ensures
            follows(step, create_plan(self.read_only, path_names(file_name@), create_file_info)),
    {
        Create::start(self.read_only, path_components(file_name), create_file_info)
    }

    /// Begins to open a file or directory.
    pub fn open(
        &self,
        file_name: &[u16],
        create_options: CreateOptions,
        granted_access: FileAccessRights,
    ) -> (step: Step<Open, OpenResult>)
        ensures
            follows(step, open_plan(path_names(file_name@), create_options, granted_access)),
    {
        Open::start(path_components(file_name), create_options, granted_access)
    }

    /// Begins to empty an open file, to write it anew.
    pub fn overwrite(
        &self,
        file: OpenFile,
        _file_attributes: FileAttributes,
        _replace_file_attributes: bool,
        _allocation_size: u64,
    ) -> (step: Step<Refit, Result<FileInfo, NTSTATUS>>)
        ensures
            follows(step, overwrite_plan(self.read_only, file)),
    {
        Refit::overwrite(self.read_only, file)
    }

    /// Begins to delete an open file or directory as a handle of it goes, if that is asked
    /// for.
    pub fn cleanup(&self, file: OpenFile, file_name: Option<&[u16]>, flags: CleanupFlags) -> (step:
        Step<DeleteByName, Result<(), NTSTATUS>>)
        ensures
            follows(
                step,
                cleanup_plan(self.read_only, file.is_dir, name_units(file_name), flags),
            ),
    {
        if self.read_only || !flags.is(CleanupFlags(CLEANUP_DELETE)) {
            return Step::Done(Ok(()));
        }
        match file_name {
            Some(file_name) => self.delete_by_name(file, file_name),
            None => Step::Done(Ok(())),
        }
    }

    /// Begins to close an open file or directory.
    pub fn close(&self) -> (step: Step<Release, Result<(), NTSTATUS>>)
        ensures
            follows(step, release_plan()),
    {
        self.release_context()
    }

    /// Begins to read from an open file.
    pub fn read(&self, file: OpenFile, offset: u64) -> (step: Step<Read, Result<usize, NTSTATUS>>)
        ensures
            follows(step, read_plan(file, offset)),
    {
        Read::start(file, offset)
    }

    /// Begins to write a buffer of a given length to an open file.
    pub fn write(&self, file: OpenFile, len: usize, mode: WriteMode) -> (step: Step<
        Write,
        WriteResult,
    >)
        ensures
            follows(step, write_plan(self.read_only, file, len, mode)),
    {
        Write::start(self.read_only, file, len, mode)
    }

    /// Begins to flush an open file.
    pub fn flush(&self, file: OpenFile) -> (step: Step<Flush, Result<FileInfo, NTSTATUS>>)
        ensures
            follows(step, flush_plan(self.read_only, file)),
    {
        Flush::start(self.read_only, file)
    }

    /// Begins to report an open file or directory.
    pub fn get_file_info(&self, file: OpenFile) -> (step: Step<Report, Result<FileInfo, NTSTATUS>>)
        ensures
            follows(step, report_plan(file.ino)),
    {
        Report::start(file.ino)
    }

    /// Begins to set the times of an open file or directory.
    pub fn set_basic_info(
        &self,
        file: OpenFile,
        _file_attributes: FileAttributes,
        times: BasicTimes,
    ) -> (step: Step<SetBasicInfo, Result<FileInfo, NTSTATUS>>)
        ensures
            follows(step, set_basic_info_plan(self.read_only, file.ino, times)),
    {
        SetBasicInfo::start(self.read_only, file.ino, times)
    }

    /// Begins to set the size of an open file, or the space that it may take.
    pub fn set_file_size(&self, file: OpenFile, new_size: u64, set_allocation_size: bool) -> (step:
        Step<Refit, Result<FileInfo, NTSTATUS>>)
        ensures
            follows(
                step,
                set_file_size_plan(self.read_only, file, new_size, set_allocation_size),
            ),
    {
        Refit::set_file_size(self.read_only, file, new_size, set_allocation_size)
    }

    /// Begins to say whether an open file or directory may be deleted.
    pub fn set_delete(&self, file: OpenFile, _file_name: &[u16], delete_file: bool) -> (step: Step<
        SetDelete,
        Result<(), NTSTATUS>,
    >)
        ensures
            follows(step, set_delete_plan(self.read_only, file, delete_file)),
    {
        SetDelete::start(self.read_only, file, delete_file)
    }

    /// Begins to rename a file or directory.
    pub fn rename(
        &self,
        file_name: &[u16],
        new_file_name: &[u16],
        replace_if_exists: bool,
    ) -> (step: Step<Rename, Result<(), NTSTATUS>>)
        ensures
            follows(
                step,
                rename_plan(
                    self.read_only,
                    path_names(file_name@),
                    path_names(new_file_name@),
                    replace_if_exists,
                ),
            ),
    {
        Rename::start(
            self.read_only,
            path_components(file_name),
            path_components(new_file_name),
            replace_if_exists,
        )
    }

    /// Begins to list an open directory from a marker on.
    pub fn read_directory(&self, file: OpenFile, marker: Option<&[u16]>) -> (step: Step<
        ReadDirectory,
        Result<(), NTSTATUS>,
    >)
        ensures
            follows(step, read_directory_plan(file, name_text(marker))),
    {
        let marker = match marker {
            Some(marker) => Some(to_string_lossy(marker)),
            None => None,
        };
        ReadDirectory::start(file, marker)
    }
}

/// Whatever a call on an open file gives begins the operation on that very file, with all that
/// Windows passed.
pub proof fn lemma_calls_on_an_open_file(
    fs: &WindowsFs,
    file: OpenFile,
    offset: u64,
    len: usize,
    mode: WriteMode,
    size: u64,
    flag: bool,
    file_name: &[u16],
    attributes: FileAttributes,
    times: BasicTimes,
    flags: CleanupFlags,
)
    ensures
        forall|step: Step<Read, Result<usize, NTSTATUS>>|
            call_ensures(WindowsFs::read, (fs, file, offset), step) ==> #[trigger] follows(
                step,
                read_plan(file, offset),
            ),
        forall|step: Step<Write, WriteResult>|
            call_ensures(WindowsFs::write, (fs, file, len, mode), step) ==> #[trigger] follows(
                step,
                write_plan(fs.read_only, file, len, mode),
            ),
        forall|step: Step<Flush, Result<FileInfo, NTSTATUS>>|
            call_ensures(WindowsFs::flush, (fs, file), step) ==> #[trigger] follows(
                step,
                flush_plan(fs.read_only, file),
            ),
        forall|step: Step<Report, Result<FileInfo, NTSTATUS>>|
            call_ensures(WindowsFs::get_file_info, (fs, file), step) ==> #[trigger] follows(
                step,
                report_plan(file.ino),
            ),
        forall|step: Step<Refit, Result<FileInfo, NTSTATUS>>|
            call_ensures(WindowsFs::overwrite, (fs, file, attributes, flag, size), step)
                ==> #[trigger] follows(step, overwrite_plan(fs.read_only, file)),
        forall|step: Step<Refit, Result<FileInfo, NTSTATUS>>|
            call_ensures(WindowsFs::set_file_size, (fs, file, size, flag), step)
                ==> #[trigger] follows(step, set_file_size_plan(fs.read_only, file, size, flag)),
        forall|step: Step<SetBasicInfo, Result<FileInfo, NTSTATUS>>|
            call_ensures(WindowsFs::set_basic_info, (fs, file, attributes, times), step)
                ==> #[trigger] follows(step, set_basic_info_plan(fs.read_only, file.ino, times)),
        forall|step: Step<SetDelete, Result<(), NTSTATUS>>|
            call_ensures(WindowsFs::set_delete, (fs, file, file_name, flag), step)
                ==> #[trigger] follows(step, set_delete_plan(fs.read_only, file, flag)),
        forall|step: Step<Resize, Result<(), NTSTATUS>>|
            call_ensures(WindowsFs::resize_context, (fs, file, size), step) ==> #[trigger] follows(
                step,
                resize_plan(file, size),
            ),
        forall|step: Step<DeleteByName, Result<(), NTSTATUS>>|
            call_ensures(WindowsFs::delete_by_name, (fs, file, file_name), step)
                ==> #[trigger] follows(step, delete_plan(file.is_dir, path_names(file_name@))),
        forall|step: Step<DeleteByName, Result<(), NTSTATUS>>|
            call_ensures(WindowsFs::cleanup, (fs, file, Some(file_name), flags), step)
                ==> #[trigger] follows(
                step,
                cleanup_plan(fs.read_only, file.is_dir, Some(file_name@), flags),
            ),
        forall|step: Step<DeleteByName, Result<(), NTSTATUS>>|
            call_ensures(WindowsFs::cleanup, (fs, file, None, flags), step) ==> #[trigger] follows(
                step,
                cleanup_plan(fs.read_only, file.is_dir, None, flags),
            ),
        forall|step: Step<ReadDirectory, Result<(), NTSTATUS>>|
            call_ensures(WindowsFs::read_directory, (fs, file, Some(file_name)), step)
                ==> #[trigger] follows(
                step,
                read_directory_plan(file, Some(lossy_text(file_name@))),
            ),
        forall|step: Step<ReadDirectory, Result<(), NTSTATUS>>|
            call_ensures(WindowsFs::read_directory, (fs, file, None), step) ==> #[trigger] follows(
                step,
                read_directory_plan(file, None),
            ),
        forall|step: Step<Release, Result<(), NTSTATUS>>|
            call_ensures(WindowsFs::release_context, (fs,), step) ==> #[trigger] follows(
                step,
                release_plan(),
            ),
        forall|step: Step<Release, Result<(), NTSTATUS>>|
            call_ensures(WindowsFs::close, (fs,), step) ==> #[trigger] follows(
                step,
                release_plan(),
            ),
{
}

/// Whatever a call on a path gives begins the operation on that very path, with all that Windows
/// passed.
pub proof fn lemma_calls_on_a_path(
    fs: &WindowsFs,
    file_name: &[u16],
    new_file_name: &[u16],
    info: CreateFileInfo,
    options: CreateOptions,
    access: FileAccessRights,
    flag: bool,
)
    ensures
        forall|step: Step<PathWalk, Result<FileAttr, NTSTATUS>>|
            call_ensures(WindowsFs::resolve_path, (fs, file_name), step) ==> #[trigger] follows(
                step,
                path_plan(path_names(file_name@)),
            ),
        forall|step: Step<ParentWalk, Result<(u64, String), NTSTATUS>>|
            call_ensures(WindowsFs::resolve_parent, (fs, file_name), step) ==> #[trigger] follows(
                step,
                parent_plan(path_names(file_name@)),
            ),
        forall|step: Step<SecurityByName, SecurityResult>|
            call_ensures(WindowsFs::get_security_by_name, (fs, file_name), step)
                ==> #[trigger] follows(step, security_plan(path_names(file_name@))),
        forall|step: Step<Create, OpenResult>|
            call_ensures(WindowsFs::create, (fs, file_name, info), step) ==> #[trigger] follows(
                step,
                create_plan(fs.read_only, path_names(file_name@), info),
            ),
        forall|step: Step<Open, OpenResult>|
            call_ensures(WindowsFs::open, (fs, file_name, options, access), step)
                ==> #[trigger] follows(step, open_plan(path_names(file_name@), options, access)),
        forall|step: Step<Rename, Result<(), NTSTATUS>>|
            call_ensures(WindowsFs::rename, (fs, file_name, new_file_name, flag), step)
                ==> #[trigger] follows(
                step,
                rename_plan(
                    fs.read_only,
                    path_names(file_name@),
                    path_names(new_file_name@),
                    flag,
                ),
            ),
{
}

} // verus!
