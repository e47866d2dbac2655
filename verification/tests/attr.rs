use rencfs_winfsp::attr::{
    attr_to_file_info, checked_file_info, file_attributes, FileAttr, FileInfo, FileType,
    ALLOCATION_UNIT, LARGEST_SIZE,
};
use rencfs_winfsp::filetime::WINDOWS_EPOCH_OFFSET;
use rencfs_winfsp::flags::{FileAttributes, FILE_ATTRIBUTE_ARCHIVE, FILE_ATTRIBUTE_DIRECTORY};
use std::time::{Duration, UNIX_EPOCH};

fn attr(size: u64) -> FileAttr {
    FileAttr {
        ino: 42,
        size,
        atime: UNIX_EPOCH + Duration::new(1, 0),
        mtime: UNIX_EPOCH + Duration::new(2, 0),
        ctime: UNIX_EPOCH + Duration::new(3, 0),
        crtime: UNIX_EPOCH + Duration::new(4, 0),
        kind: FileType::RegularFile,
        nlink: 3,
    }
}

#[test]
fn every_field_is_reported() {
    let expected = FileInfo {
        file_attributes: FileAttributes(FILE_ATTRIBUTE_ARCHIVE),
        allocation_size: 12288,
        file_size: 8193,
        creation_time: WINDOWS_EPOCH_OFFSET + 40_000_000,
        last_access_time: WINDOWS_EPOCH_OFFSET + 10_000_000,
        last_write_time: WINDOWS_EPOCH_OFFSET + 20_000_000,
        change_time: WINDOWS_EPOCH_OFFSET + 30_000_000,
        index_number: 42,
        hard_links: 3,
    };
    assert_eq!(attr_to_file_info(attr(8193)), expected);
    assert_eq!(checked_file_info(attr(8193)), Some(expected));
}

#[test]
fn space_is_counted_in_whole_units() {
    for (size, allocated) in [(0, 0), (1, 4096), (4095, 4096), (4096, 4096), (4097, 8192)] {
        let info = attr_to_file_info(attr(size));
        assert_eq!(info.allocation_size, allocated);
        assert_eq!(info.allocation_size % ALLOCATION_UNIT, 0);
        assert_eq!(info.file_size, size);
    }
}

#[test]
fn sizes_and_times_that_do_not_fit_are_found_out() {
    assert!(attr(LARGEST_SIZE).is_reportable());
    assert_eq!(checked_file_info(attr(LARGEST_SIZE)).unwrap().allocation_size, LARGEST_SIZE);
    assert!(!attr(LARGEST_SIZE + 1).is_reportable());
    assert_eq!(checked_file_info(attr(u64::MAX)), None);
    let far = UNIX_EPOCH + Duration::new(1_900_000_000_000, 0);
    for field in 0..4 {
        let mut late = attr(1);
        match field {
            0 => late.crtime = far,
            1 => late.atime = far,
            2 => late.mtime = far,
            _ => late.ctime = far,
        }
        assert!(!late.is_reportable());
    }
}

#[test]
fn kinds_have_their_attribute_bits() {
    assert_eq!(file_attributes(FileType::Directory), FileAttributes(FILE_ATTRIBUTE_DIRECTORY));
    assert_eq!(file_attributes(FileType::RegularFile), FileAttributes(FILE_ATTRIBUTE_ARCHIVE));
}
