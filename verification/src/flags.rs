//! The bits that Windows passes with a request.

use vstd::prelude::*;

verus! {

/// The caller wants a directory.
pub const FILE_DIRECTORY_FILE: u32 = 0x1;

/// The caller wants anything but a directory.
pub const FILE_NON_DIRECTORY_FILE: u32 = 0x40;

pub const FILE_READ_DATA: u32 = 0x1;

pub const FILE_WRITE_DATA: u32 = 0x2;

pub const FILE_APPEND_DATA: u32 = 0x4;

/// The right to read what is known of a file, which is no right to its bytes.
pub const FILE_READ_ATTRIBUTES: u32 = 0x80;

/// The right to change what is known of a file, which is no right to its bytes.
pub const FILE_WRITE_ATTRIBUTES: u32 = 0x100;

pub const FILE_GENERIC_READ: u32 = 0x12_0089;

pub const FILE_GENERIC_WRITE: u32 = 0x12_0116;

pub const FILE_ATTRIBUTE_DIRECTORY: u32 = 0x10;

pub const FILE_ATTRIBUTE_ARCHIVE: u32 = 0x20;

/// The file is to be deleted as its last handle goes.
pub const CLEANUP_DELETE: i32 = 0x1;

/// How a file is to be created or opened.
#[derive(Debug, Clone, Copy, PartialEq, Eq, Structural)]
pub struct CreateOptions(pub u32);

impl CreateOptions {
    /// Whether the caller wants a directory.
    pub open spec fn wants_directory(self) -> bool {
        self.0 & FILE_DIRECTORY_FILE != 0
    }

    /// Whether the caller wants anything but a directory.
    pub open spec fn wants_file(self) -> bool {
        self.0 & FILE_NON_DIRECTORY_FILE != 0
    }

    /// Whether any bit of the other options is set in these.
    pub fn is(self, rhs: CreateOptions) -> (set: bool)
        ensures
            set == (self.0 & rhs.0 != 0),
    {
        self.0 & rhs.0 != 0
    }
}

/// What Windows does with a file as a handle of it goes.
#[derive(Debug, Clone, Copy, PartialEq, Eq, Structural)]
pub struct CleanupFlags(pub i32);

impl CleanupFlags {
    /// Whether any bit of the other flags is set in these.
    pub fn is(self, rhs: CleanupFlags) -> (set: bool)
        ensures
            set == (self.0 & rhs.0 != 0),
    {
        self.0 & rhs.0 != 0
    }
}

/// The access that Windows has granted to a handle.
#[derive(Debug, Clone, Copy, PartialEq, Eq, Structural)]
pub struct FileAccessRights(pub u32);

impl FileAccessRights {
    /// Whether any bit of a right to read is granted.
    pub open spec fn reads(self) -> bool {
        self.0 & (FILE_READ_DATA | FILE_GENERIC_READ) != 0
    }

    /// Whether any bit of a right to write is granted.
    pub open spec fn writes(self) -> bool {
        self.0 & (FILE_WRITE_DATA | FILE_APPEND_DATA | FILE_GENERIC_WRITE) != 0
    }

    /// Whether nothing is granted but rights to the attributes of the file, though the generic
    /// rights to read and to write hold these too.
    pub open spec fn only_attributes(self) -> bool {
        self.0 & !(FILE_READ_ATTRIBUTES | FILE_WRITE_ATTRIBUTES) == 0
    }

    /// The modes in which the store is to open a file: those that are granted, and reading
    /// where none is or where the attributes alone are wanted.
    pub open spec fn modes(self) -> (bool, bool) {
        if self.only_attributes() || (!self.reads() && !self.writes()) {
            (true, false)
        } else {
            (self.reads(), self.writes())
        }
    }
}

/// The modes in which the store is to open a file, to read and to write.
pub fn access_modes(granted_access: FileAccessRights) -> (modes: (bool, bool))
    ensures
        modes == granted_access.modes(),
{
    let only_attributes = granted_access.0 & !(FILE_READ_ATTRIBUTES | FILE_WRITE_ATTRIBUTES) == 0;
    let read = granted_access.0 & (FILE_READ_DATA | FILE_GENERIC_READ) != 0;
    let write = granted_access.0 & (FILE_WRITE_DATA | FILE_APPEND_DATA | FILE_GENERIC_WRITE) != 0;
    if only_attributes || (!read && !write) {
        // A handle for the attributes alone, or with other rights that are neither to read nor
        // to write, such as the right to delete, still needs an open file behind it: a cached
        // read may come for the same Windows file object later.
        (true, false)
    } else {
        (read, write)
    }
}

/// A file is always opened to be read, to be written, or both, and writing needs a right to
/// write.
pub proof fn lemma_some_mode_is_open(granted_access: FileAccessRights)
    ensures
        granted_access.modes().0 || granted_access.modes().1,
        granted_access.modes().1 ==> granted_access.writes(),
{
}

/// A file that is opened for its attributes alone, to read or to change them, is open to be
/// read and not to be written, so that it can serve a cached read later.
pub proof fn lemma_attributes_open_for_reading(granted_access: FileAccessRights)
    requires
        granted_access.only_attributes(),
    ensures
        granted_access.modes() == (true, false),
{
}

/// Every bit of a right to read opens for reading. A right to write or to append opens for
/// writing, and so does every other bit of the generic right to write, unless nothing but
/// rights to the attributes is granted.
pub proof fn lemma_each_right_opens(granted_access: FileAccessRights)
    ensures
        granted_access.0 & FILE_READ_DATA != 0 ==> granted_access.modes().0,
        granted_access.0 & FILE_GENERIC_READ != 0 ==> granted_access.modes().0,
        granted_access.0 & FILE_WRITE_DATA != 0 ==> granted_access.modes().1,
        granted_access.0 & FILE_APPEND_DATA != 0 ==> granted_access.modes().1,
        granted_access.0 & FILE_GENERIC_WRITE != 0 && !granted_access.only_attributes()
            ==> granted_access.modes().1,
{
    let bits = granted_access.0;
    assert(bits & FILE_READ_DATA != 0 ==> bits & (FILE_READ_DATA | FILE_GENERIC_READ) != 0)
        by (bit_vector);
    assert(bits & FILE_GENERIC_READ != 0 ==> bits & (FILE_READ_DATA | FILE_GENERIC_READ) != 0)
        by (bit_vector);
    assert(bits & FILE_WRITE_DATA != 0 ==> bits & (FILE_WRITE_DATA | FILE_APPEND_DATA
        | FILE_GENERIC_WRITE) != 0 && bits & !(FILE_READ_ATTRIBUTES | FILE_WRITE_ATTRIBUTES) != 0)
        by (bit_vector);
    assert(bits & FILE_APPEND_DATA != 0 ==> bits & (FILE_WRITE_DATA | FILE_APPEND_DATA
        | FILE_GENERIC_WRITE) != 0 && bits & !(FILE_READ_ATTRIBUTES | FILE_WRITE_ATTRIBUTES) != 0)
        by (bit_vector);
    assert(bits & FILE_GENERIC_WRITE != 0 ==> bits & (FILE_WRITE_DATA | FILE_APPEND_DATA
        | FILE_GENERIC_WRITE) != 0) by (bit_vector);
}

/// The generic rights to read and to write share bits: the right to read the security
/// descriptor and the right to wait for the file. Either of these opens for both.
pub proof fn lemma_shared_rights_open_for_both(granted_access: FileAccessRights)
    requires
        granted_access.0 & FILE_GENERIC_READ & FILE_GENERIC_WRITE != 0,
    ensures
        granted_access.modes() == (true, true),
{
    let bits = granted_access.0;
    assert(bits & FILE_GENERIC_READ & FILE_GENERIC_WRITE != 0 ==> bits & FILE_GENERIC_READ != 0
        && bits & FILE_GENERIC_WRITE != 0 && bits & !(FILE_READ_ATTRIBUTES
        | FILE_WRITE_ATTRIBUTES) != 0) by (bit_vector);
    lemma_each_right_opens(granted_access);
}

/// A file is opened to be written exactly if a bit of a right to write is granted and more than
/// rights to the attributes is, and to be read exactly if a bit of a right to read is granted,
/// or if it is not opened to be written.
pub proof fn lemma_modes_by_bits(granted_access: FileAccessRights)
    ensures
        granted_access.modes().1 <==> granted_access.0 & 0x12_0116 != 0 && granted_access.0
            & 0xFFFF_FE7F != 0,
        granted_access.modes().0 <==> granted_access.0 & 0x12_0089 != 0
            || !granted_access.modes().1,
{
    let bits = granted_access.0;
    assert((0x1u32 | 0x12_0089) == 0x12_0089) by (bit_vector);
    assert((0x2u32 | 0x4 | 0x12_0116) == 0x12_0116) by (bit_vector);
    assert(!(0x80u32 | 0x100) == 0xFFFF_FE7F) by (bit_vector);
    assert(bits & 0x12_0089 == 0 && bits & 0x12_0116 != 0 && bits & 0xFFFF_FE7F == 0 ==> bits
        == 0x100) by (bit_vector);
}

/// A directory is wanted exactly if the lowest bit of the options is set, and anything but a
/// directory exactly if the seventh is.
pub proof fn lemma_options_by_bits(options: CreateOptions)
    ensures
        options.wants_directory() <==> options.0 % 2 == 1,
        options.wants_file() <==> options.0 / 64 % 2 == 1,
{
    let bits = options.0;
    assert(bits & 0x1 != 0 <==> bits % 2 == 1) by (bit_vector);
    assert(bits & 0x40 != 0 <==> bits / 64 % 2 == 1) by (bit_vector);
}

/// The attribute bits of a file.
#[derive(Debug, Clone, Copy, PartialEq, Eq, Structural)]
pub struct FileAttributes(pub u32);

} // verus!
