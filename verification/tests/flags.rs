use rencfs_winfsp::flags::{
    access_modes, CleanupFlags, CreateOptions, FileAccessRights, CLEANUP_DELETE, FILE_APPEND_DATA,
    FILE_ATTRIBUTE_ARCHIVE, FILE_ATTRIBUTE_DIRECTORY, FILE_DIRECTORY_FILE, FILE_GENERIC_READ,
    FILE_GENERIC_WRITE, FILE_NON_DIRECTORY_FILE, FILE_READ_ATTRIBUTES, FILE_READ_DATA,
    FILE_WRITE_ATTRIBUTES, FILE_WRITE_DATA,
};
use windows_sys::Wdk::Storage::FileSystem as wdk;
use windows_sys::Win32::Storage::FileSystem as win32;

#[test]
fn bits_are_those_of_windows() {
    assert_eq!(FILE_DIRECTORY_FILE, wdk::FILE_DIRECTORY_FILE);
    assert_eq!(FILE_NON_DIRECTORY_FILE, wdk::FILE_NON_DIRECTORY_FILE);
    assert_eq!(FILE_READ_DATA, win32::FILE_READ_DATA);
    assert_eq!(FILE_WRITE_DATA, win32::FILE_WRITE_DATA);
    assert_eq!(FILE_APPEND_DATA, win32::FILE_APPEND_DATA);
    assert_eq!(FILE_READ_ATTRIBUTES, win32::FILE_READ_ATTRIBUTES);
    assert_eq!(FILE_WRITE_ATTRIBUTES, win32::FILE_WRITE_ATTRIBUTES);
    assert_eq!(FILE_GENERIC_READ, win32::FILE_GENERIC_READ);
    assert_eq!(FILE_GENERIC_WRITE, win32::FILE_GENERIC_WRITE);
    assert_eq!(FILE_ATTRIBUTE_DIRECTORY, win32::FILE_ATTRIBUTE_DIRECTORY);
    assert_eq!(FILE_ATTRIBUTE_ARCHIVE, win32::FILE_ATTRIBUTE_ARCHIVE);
}

#[test]
fn files_are_open_as_granted() {
    assert_eq!(access_modes(FileAccessRights(FILE_READ_DATA)), (true, false));
    assert_eq!(access_modes(FileAccessRights(FILE_WRITE_DATA)), (false, true));
    assert_eq!(access_modes(FileAccessRights(FILE_APPEND_DATA)), (false, true));
    assert_eq!(access_modes(FileAccessRights(FILE_READ_DATA | FILE_WRITE_DATA)), (true, true));
}

#[test]
fn rights_that_both_generic_rights_hold_open_for_both() {
    assert_eq!(access_modes(FileAccessRights(FILE_GENERIC_READ)), (true, true));
    assert_eq!(access_modes(FileAccessRights(FILE_GENERIC_WRITE)), (true, true));
    assert_eq!(access_modes(FileAccessRights(win32::SYNCHRONIZE)), (true, true));
    assert_eq!(access_modes(FileAccessRights(win32::READ_CONTROL)), (true, true));
}

#[test]
fn files_without_a_data_right_are_open_to_be_read() {
    assert_eq!(access_modes(FileAccessRights(0)), (true, false));
    assert_eq!(access_modes(FileAccessRights(win32::DELETE)), (true, false));
}

#[test]
fn files_that_are_open_for_their_attributes_can_be_read() {
    assert_eq!(access_modes(FileAccessRights(FILE_WRITE_ATTRIBUTES)), (true, false));
    assert_eq!(access_modes(FileAccessRights(FILE_READ_ATTRIBUTES)), (true, false));
    let both = FILE_READ_ATTRIBUTES | FILE_WRITE_ATTRIBUTES;
    assert_eq!(access_modes(FileAccessRights(both)), (true, false));
    assert_eq!(access_modes(FileAccessRights(both | FILE_WRITE_DATA)), (true, true));
    assert_eq!(access_modes(FileAccessRights(both | FILE_READ_DATA)), (true, true));
    let changing = FILE_WRITE_ATTRIBUTES | FILE_APPEND_DATA;
    assert_eq!(access_modes(FileAccessRights(changing)), (false, true));
}

#[test]
fn options_and_flags_are_tested_by_any_bit() {
    assert!(CreateOptions(0x41).is(CreateOptions(FILE_DIRECTORY_FILE)));
    assert!(CreateOptions(0x41).is(CreateOptions(FILE_NON_DIRECTORY_FILE)));
    assert!(!CreateOptions(0x40).is(CreateOptions(FILE_DIRECTORY_FILE)));
    assert!(CleanupFlags(0x21).is(CleanupFlags(CLEANUP_DELETE)));
    assert!(!CleanupFlags(0x20).is(CleanupFlags(CLEANUP_DELETE)));
}
