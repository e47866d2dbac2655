//! The errors of the encrypted store and the status codes that Windows gets for them.

use vstd::prelude::*;

verus! {

/// A status code of Windows; the errors are negative.
pub type NTSTATUS = i32;

pub const STATUS_INVALID_HANDLE: NTSTATUS = -1073741816;

pub const STATUS_INVALID_PARAMETER: NTSTATUS = -1073741811;

pub const STATUS_END_OF_FILE: NTSTATUS = -1073741807;

pub const STATUS_ACCESS_DENIED: NTSTATUS = -1073741790;

pub const STATUS_OBJECT_NAME_NOT_FOUND: NTSTATUS = -1073741772;

pub const STATUS_OBJECT_NAME_COLLISION: NTSTATUS = -1073741771;

pub const STATUS_OBJECT_PATH_NOT_FOUND: NTSTATUS = -1073741766;

pub const STATUS_DISK_FULL: NTSTATUS = -1073741697;

pub const STATUS_MEDIA_WRITE_PROTECTED: NTSTATUS = -1073741662;

pub const STATUS_FILE_IS_A_DIRECTORY: NTSTATUS = -1073741638;

pub const STATUS_UNEXPECTED_IO_ERROR: NTSTATUS = -1073741591;

pub const STATUS_DIRECTORY_NOT_EMPTY: NTSTATUS = -1073741567;

pub const STATUS_NOT_A_DIRECTORY: NTSTATUS = -1073741565;

/// What can go wrong in the encrypted store.
#[derive(Debug, Clone, Copy)]
pub enum FsError {
    NotFound(&'static str),
    InodeNotFound,
    InvalidInput(&'static str),
    InvalidInodeType,
    InvalidFileHandle,
    AlreadyExists,
    AlreadyOpenForWrite,
    NotEmpty,
    ReadOnly,
    MaxFilesizeExceeded(usize),
    InvalidDataDirStructure,
    /// An error of the operating system.
    Io,
    /// Anything else, such as a wrong password or data that does not decrypt.
    Other(&'static str),
}

/// The status code of an error.
pub open spec fn error_status(error: FsError) -> NTSTATUS {
    match error {
        FsError::NotFound(_) | FsError::InodeNotFound => STATUS_OBJECT_NAME_NOT_FOUND,
        FsError::AlreadyExists => STATUS_OBJECT_NAME_COLLISION,
        FsError::NotEmpty => STATUS_DIRECTORY_NOT_EMPTY,
        FsError::ReadOnly => STATUS_MEDIA_WRITE_PROTECTED,
        FsError::InvalidInodeType => STATUS_NOT_A_DIRECTORY,
        FsError::InvalidFileHandle => STATUS_INVALID_HANDLE,
        FsError::InvalidInput(_) => STATUS_INVALID_PARAMETER,
        FsError::MaxFilesizeExceeded(_) => STATUS_DISK_FULL,
        FsError::AlreadyOpenForWrite => STATUS_ACCESS_DENIED,
        FsError::InvalidDataDirStructure => STATUS_OBJECT_PATH_NOT_FOUND,
        FsError::Io | FsError::Other(_) => STATUS_UNEXPECTED_IO_ERROR,
    }
}

/// The status code that Windows gets for an error of the store.
pub fn fs_error_to_status(error: FsError) -> (status: NTSTATUS)
    ensures
        status == error_status(error),
{
    match error {
        FsError::NotFound(_) | FsError::InodeNotFound => STATUS_OBJECT_NAME_NOT_FOUND,
        FsError::AlreadyExists => STATUS_OBJECT_NAME_COLLISION,
        FsError::NotEmpty => STATUS_DIRECTORY_NOT_EMPTY,
        FsError::ReadOnly => STATUS_MEDIA_WRITE_PROTECTED,
        FsError::InvalidInodeType => STATUS_NOT_A_DIRECTORY,
        FsError::InvalidFileHandle => STATUS_INVALID_HANDLE,
        FsError::InvalidInput(_) => STATUS_INVALID_PARAMETER,
        FsError::MaxFilesizeExceeded(_) => STATUS_DISK_FULL,
        FsError::AlreadyOpenForWrite => STATUS_ACCESS_DENIED,
        FsError::InvalidDataDirStructure => STATUS_OBJECT_PATH_NOT_FOUND,
        FsError::Io | FsError::Other(_) => STATUS_UNEXPECTED_IO_ERROR,
    }
}

/// What a result of the store is to Windows.
pub open spec fn status_result<T>(result: Result<T, FsError>) -> Result<T, NTSTATUS> {
    match result {
        Ok(value) => Ok(value),
        Err(error) => Err(error_status(error)),
    }
}

/// What a result of the store is to Windows: the same value, or the status code of the error.
pub fn to_status<T>(result: Result<T, FsError>) -> (reported: Result<T, NTSTATUS>)
    ensures
        reported == status_result(result),
{
    match result {
        Ok(value) => Ok(value),
        Err(error) => Err(fs_error_to_status(error)),
    }
}

/// No error of the store is reported as a success: every status code is negative.
pub proof fn lemma_errors_are_failures(error: FsError)
    ensures
        error_status(error) < 0,
{
}

/// Each error of the store has its status code, whatever it says.
pub proof fn lemma_status_of_each_error(text: &'static str, size: usize)
    ensures
        error_status(FsError::NotFound(text)) == STATUS_OBJECT_NAME_NOT_FOUND,
        error_status(FsError::InodeNotFound) == STATUS_OBJECT_NAME_NOT_FOUND,
        error_status(FsError::AlreadyExists) == STATUS_OBJECT_NAME_COLLISION,
        error_status(FsError::NotEmpty) == STATUS_DIRECTORY_NOT_EMPTY,
        error_status(FsError::ReadOnly) == STATUS_MEDIA_WRITE_PROTECTED,
        error_status(FsError::InvalidInodeType) == STATUS_NOT_A_DIRECTORY,
        error_status(FsError::InvalidFileHandle) == STATUS_INVALID_HANDLE,
        error_status(FsError::InvalidInput(text)) == STATUS_INVALID_PARAMETER,
        error_status(FsError::MaxFilesizeExceeded(size)) == STATUS_DISK_FULL,
        error_status(FsError::AlreadyOpenForWrite) == STATUS_ACCESS_DENIED,
        error_status(FsError::InvalidDataDirStructure) == STATUS_OBJECT_PATH_NOT_FOUND,
        error_status(FsError::Io) == STATUS_UNEXPECTED_IO_ERROR,
        error_status(FsError::Other(text)) == STATUS_UNEXPECTED_IO_ERROR,
{
}

/// A value that the store gives comes through, and an error is told as its status code.
pub proof fn lemma_results_come_through<T>(value: T, error: FsError)
    ensures
        status_result(Ok::<T, FsError>(value)) == Ok::<T, NTSTATUS>(value),
        status_result(Err::<T, FsError>(error)) == Err::<T, NTSTATUS>(error_status(error)),
{
}

} // verus!
