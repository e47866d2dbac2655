use rencfs_winfsp::status::{
    fs_error_to_status, to_status, FsError, STATUS_ACCESS_DENIED, STATUS_DIRECTORY_NOT_EMPTY,
    STATUS_DISK_FULL, STATUS_END_OF_FILE, STATUS_FILE_IS_A_DIRECTORY, STATUS_INVALID_HANDLE,
    STATUS_INVALID_PARAMETER, STATUS_MEDIA_WRITE_PROTECTED, STATUS_NOT_A_DIRECTORY,
    STATUS_OBJECT_NAME_COLLISION, STATUS_OBJECT_NAME_NOT_FOUND, STATUS_OBJECT_PATH_NOT_FOUND,
    STATUS_UNEXPECTED_IO_ERROR,
};
use windows_sys::Win32::Foundation as windows;

fn every_error() -> Vec<(FsError, i32)> {
    vec![
        (FsError::NotFound("x"), STATUS_OBJECT_NAME_NOT_FOUND),
        (FsError::InodeNotFound, STATUS_OBJECT_NAME_NOT_FOUND),
        (FsError::AlreadyExists, STATUS_OBJECT_NAME_COLLISION),
        (FsError::NotEmpty, STATUS_DIRECTORY_NOT_EMPTY),
        (FsError::ReadOnly, STATUS_MEDIA_WRITE_PROTECTED),
        (FsError::InvalidInodeType, STATUS_NOT_A_DIRECTORY),
        (FsError::InvalidFileHandle, STATUS_INVALID_HANDLE),
        (FsError::InvalidInput("x"), STATUS_INVALID_PARAMETER),
        (FsError::MaxFilesizeExceeded(1), STATUS_DISK_FULL),
        (FsError::AlreadyOpenForWrite, STATUS_ACCESS_DENIED),
        (FsError::InvalidDataDirStructure, STATUS_OBJECT_PATH_NOT_FOUND),
        (FsError::Io, STATUS_UNEXPECTED_IO_ERROR),
        (FsError::Other("x"), STATUS_UNEXPECTED_IO_ERROR),
    ]
}

#[test]
fn every_error_has_its_status() {
    for (error, status) in every_error() {
        assert_eq!(fs_error_to_status(error), status);
    }
}

#[test]
fn errors_are_failures_to_windows() {
    for (error, _) in every_error() {
        assert!(fs_error_to_status(error) < 0);
    }
}

#[test]
fn results_keep_their_values() {
    assert_eq!(to_status(Ok(5)), Ok(5));
    assert_eq!(to_status::<()>(Err(FsError::NotEmpty)), Err(STATUS_DIRECTORY_NOT_EMPTY));
}

#[test]
fn status_codes_are_those_of_windows() {
    assert_eq!(STATUS_ACCESS_DENIED, windows::STATUS_ACCESS_DENIED);
    assert_eq!(STATUS_DIRECTORY_NOT_EMPTY, windows::STATUS_DIRECTORY_NOT_EMPTY);
    assert_eq!(STATUS_DISK_FULL, windows::STATUS_DISK_FULL);
    assert_eq!(STATUS_END_OF_FILE, windows::STATUS_END_OF_FILE);
    assert_eq!(STATUS_FILE_IS_A_DIRECTORY, windows::STATUS_FILE_IS_A_DIRECTORY);
    assert_eq!(STATUS_INVALID_HANDLE, windows::STATUS_INVALID_HANDLE);
    assert_eq!(STATUS_INVALID_PARAMETER, windows::STATUS_INVALID_PARAMETER);
    assert_eq!(STATUS_MEDIA_WRITE_PROTECTED, windows::STATUS_MEDIA_WRITE_PROTECTED);
    assert_eq!(STATUS_NOT_A_DIRECTORY, windows::STATUS_NOT_A_DIRECTORY);
    assert_eq!(STATUS_OBJECT_NAME_COLLISION, windows::STATUS_OBJECT_NAME_COLLISION);
    assert_eq!(STATUS_OBJECT_NAME_NOT_FOUND, windows::STATUS_OBJECT_NAME_NOT_FOUND);
    assert_eq!(STATUS_OBJECT_PATH_NOT_FOUND, windows::STATUS_OBJECT_PATH_NOT_FOUND);
    assert_eq!(STATUS_UNEXPECTED_IO_ERROR, windows::STATUS_UNEXPECTED_IO_ERROR);
}
