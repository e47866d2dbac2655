//! What the store knows of a file, and what Windows is told of it.

use crate::filetime::{checked_filetime, filetime_from_system_time, since_epoch, time_tick};
use crate::flags::{FileAttributes, FILE_ATTRIBUTE_ARCHIVE, FILE_ATTRIBUTE_DIRECTORY};
use std::time::SystemTime;
use vstd::prelude::*;

verus! {

/// Windows is told that space is handed out in units of this many bytes.
pub const ALLOCATION_UNIT: u64 = 4096;

/// The largest size that can be rounded up to whole units.
pub const LARGEST_SIZE: u64 = 0xFFFF_FFFF_FFFF_F000;

#[derive(Debug, Clone, Copy, PartialEq, Eq, Structural)]
pub enum FileType {
    Directory,
    RegularFile,
}

/// What the store says of a file or directory.
#[derive(Debug, Clone, Copy)]
pub struct FileAttr {
    pub ino: u64,
    pub size: u64,
    pub atime: SystemTime,
    pub mtime: SystemTime,
    pub ctime: SystemTime,
    pub crtime: SystemTime,
    pub kind: FileType,
    pub nlink: u32,
}

/// What a new file or directory is to be.
#[derive(Debug, Clone, Copy, PartialEq, Eq, Structural)]
pub struct CreateFileAttr {
    pub kind: FileType,
    pub perm: u16,
    pub uid: u32,
    pub gid: u32,
    pub rdev: u32,
    pub flags: u32,
}

/// The times of a file that are to be changed; the others stay.
#[derive(Debug, PartialEq, Eq)]
pub struct SetFileAttr<Time> {
    pub crtime: Option<Time>,
    pub atime: Option<Time>,
    pub mtime: Option<Time>,
    pub ctime: Option<Time>,
}

/// Seconds and nanoseconds since the Unix epoch, or nothing for an earlier time.
pub type UnixTime = Option<(u64, u32)>;

/// When a chosen time is, if one is chosen.
pub open spec fn chosen_time(time: Option<SystemTime>) -> Option<UnixTime> {
    match time {
        Some(time) => Some(since_epoch(time)),
        None => None,
    }
}

impl View for SetFileAttr<SystemTime> {
    type V = SetFileAttr<UnixTime>;

    open spec fn view(&self) -> SetFileAttr<UnixTime> {
        SetFileAttr {
            crtime: chosen_time(self.crtime),
            atime: chosen_time(self.atime),
            mtime: chosen_time(self.mtime),
            ctime: chosen_time(self.ctime),
        }
    }
}

/// What Windows is told of a file or directory; the times are in ticks.
#[derive(Debug, Clone, Copy, PartialEq, Eq, Structural)]
pub struct FileInfo {
    pub file_attributes: FileAttributes,
    pub allocation_size: u64,
    pub file_size: u64,
    pub creation_time: u64,
    pub last_access_time: u64,
    pub last_write_time: u64,
    pub change_time: u64,
    pub index_number: u64,
    pub hard_links: u32,
}

/// The attribute bits of a kind.
pub open spec fn kind_attributes(kind: FileType) -> FileAttributes {
    match kind {
        FileType::Directory => FileAttributes(FILE_ATTRIBUTE_DIRECTORY),
        FileType::RegularFile => FileAttributes(FILE_ATTRIBUTE_ARCHIVE),
    }
}

/// The attribute bits that Windows gets for a kind of file.
pub fn file_attributes(kind: FileType) -> (attributes: FileAttributes)
    ensures
        attributes == kind_attributes(kind),
{
    match kind {
        FileType::Directory => FileAttributes(FILE_ATTRIBUTE_DIRECTORY),
        FileType::RegularFile => FileAttributes(FILE_ATTRIBUTE_ARCHIVE),
    }
}

/// A size rounded up to whole allocation units.
pub open spec fn allocation_size(size: u64) -> int {
    (size + ALLOCATION_UNIT - 1) / (ALLOCATION_UNIT as int) * ALLOCATION_UNIT
}

/// The space of a file is the least number of whole units that holds its bytes.
pub proof fn lemma_allocation_size(size: u64)
    ensures
        allocation_size(size) % (ALLOCATION_UNIT as int) == 0,
        size <= allocation_size(size) < size + ALLOCATION_UNIT,
        size % ALLOCATION_UNIT == 0 ==> allocation_size(size) == size,
        size <= LARGEST_SIZE <==> allocation_size(size) <= u64::MAX,
{
}

impl FileAttr {
    /// Whether every number that Windows is told fits in 64 bits.
    pub open spec fn reportable(self) -> bool {
        &&& allocation_size(self.size) <= u64::MAX
        &&& time_tick(self.crtime) <= u64::MAX
        &&& time_tick(self.atime) <= u64::MAX
        &&& time_tick(self.mtime) <= u64::MAX
        &&& time_tick(self.ctime) <= u64::MAX
    }

    /// What Windows is told of a file with these attributes.
    pub open spec fn info(self) -> FileInfo {
        FileInfo {
            file_attributes: kind_attributes(self.kind),
            allocation_size: allocation_size(self.size) as u64,
            file_size: self.size,
            creation_time: time_tick(self.crtime) as u64,
            last_access_time: time_tick(self.atime) as u64,
            last_write_time: time_tick(self.mtime) as u64,
            change_time: time_tick(self.ctime) as u64,
            index_number: self.ino,
            hard_links: self.nlink,
        }
    }

    /// Whether every number that Windows is told fits in 64 bits.
    pub fn is_reportable(&self) -> (fits: bool)
        ensures
            fits == self.reportable(),
    {
        proof {
            lemma_allocation_size(self.size);
        }
        self.size <= LARGEST_SIZE && checked_filetime(self.crtime).is_some() && checked_filetime(
            self.atime,
        ).is_some() && checked_filetime(self.mtime).is_some() && checked_filetime(
            self.ctime,
        ).is_some()
    }
}

/// What Windows is told of a file.
pub fn attr_to_file_info(attr: FileAttr) -> (info: FileInfo)
    requires
        attr.reportable(),
    ensures
        info == attr.info(),
{
    proof {
        lemma_allocation_size(attr.size);
    }
    let partial: u64 = if attr.size % ALLOCATION_UNIT == 0 {
        0
    } else {
        1
    };
    FileInfo {
        file_attributes: file_attributes(attr.kind),
        allocation_size: (attr.size / ALLOCATION_UNIT + partial) * ALLOCATION_UNIT,
        file_size: attr.size,
        creation_time: filetime_from_system_time(attr.crtime),
        last_access_time: filetime_from_system_time(attr.atime),
        last_write_time: filetime_from_system_time(attr.mtime),
        change_time: filetime_from_system_time(attr.ctime),
        index_number: attr.ino,
        hard_links: attr.nlink,
    }
}

/// What Windows is told of a file, or nothing where a number would not fit.
pub fn checked_file_info(attr: FileAttr) -> (info: Option<FileInfo>)
    ensures
        info == if attr.reportable() {
            Some(attr.info())
        } else {
            None
        },
{
    if attr.is_reportable() {
        Some(attr_to_file_info(attr))
    } else {
        None
    }
}

/// Windows is told the length, the number, the links and the kind of a file as they are, and
/// each of its times under its own name.
pub proof fn lemma_info_tells_the_attributes(attr: FileAttr)
    requires
        attr.reportable(),
    ensures
        attr.info().file_size == attr.size,
        attr.info().allocation_size == allocation_size(attr.size),
        attr.info().index_number == attr.ino,
        attr.info().hard_links == attr.nlink,
        attr.info().creation_time == time_tick(attr.crtime),
        attr.info().last_access_time == time_tick(attr.atime),
        attr.info().last_write_time == time_tick(attr.mtime),
        attr.info().change_time == time_tick(attr.ctime),
        attr.kind is Directory ==> attr.info().file_attributes.0 == 0x10,
        attr.kind is RegularFile ==> attr.info().file_attributes.0 == 0x20,
{
}

/// Every file can be reported unless it is within a unit of the longest length there is or one
/// of its times is beyond the last tick.
pub proof fn lemma_files_can_be_reported(attr: FileAttr)
    ensures
        attr.reportable() <==> {
            &&& attr.size <= 0xFFFF_FFFF_FFFF_F000
            &&& time_tick(attr.crtime) <= u64::MAX
            &&& time_tick(attr.atime) <= u64::MAX
            &&& time_tick(attr.mtime) <= u64::MAX
            &&& time_tick(attr.ctime) <= u64::MAX
        },
{
    lemma_allocation_size(attr.size);
}

} // verus!
