//! What mounting asks of the operating system, of WinFSP and of the store.

use crate::adapter::{VolumeInfo, WindowsFs};
use crate::mount::VolumeParams;
use crate::plan::Plan;
use crate::status::FsError;
use std::path::PathBuf;
use std::time::SystemTime;
use vstd::prelude::*;

verus! {

/// A path of the standard library.
#[verifier::external_type_specification]
#[verifier::external_body]
pub struct ExPathBuf(PathBuf);

/// What mounting asks for. What a request brings into being stays with whoever answers it:
/// the store, the runtime, the access token, the descriptor, the volume.
#[derive(Debug)]
pub enum SystemRequest<Provider, Cipher, Units> {
    /// Load the driver library.
    InitDriver,
    /// Open the store.
    OpenStore { data_dir: PathBuf, password_provider: Provider, cipher: Cipher, read_only: bool },
    /// Make the runtime in which the store works.
    BuildRuntime,
    /// Open the access token of the process.
    OpenToken,
    /// Ask how many bytes the user of the token takes.
    TokenSize,
    /// Read the user of the token into a buffer of machine words.
    ReadToken { bytes: u32, words: usize },
    /// Write the security identifier of the user in UTF-16, and read it up to its NUL.
    SidUnits,
    /// Free the text of the security identifier.
    FreeSid,
    /// Close the access token.
    CloseToken,
    /// Make a security descriptor of its text.
    MakeDescriptor { text: Units },
    /// Make the volume information that WinFSP is given.
    MakeVolumeInfo { info: VolumeInfo },
    /// Read the clock.
    ReadClock,
    /// Name the file system.
    NameFileSystem { name: &'static str },
    /// Set the prefix under which the volume is on the network; an empty one keeps it off.
    SetPrefix { prefix: &'static str },
    /// Start the file system.
    StartVolume { params: VolumeParams, mount_point: Units, file_system: WindowsFs },
}

/// What comes back.
#[derive(Debug)]
pub enum SystemReply<Units> {
    /// Whether something of the store or of the runtime could be had.
    Opened(Result<(), FsError>),
    /// Whether something of the operating system or of WinFSP worked.
    Worked(bool),
    Size(u32),
    /// The security identifier, unless it could not be written.
    Sid(Option<Units>),
    /// Something of the operating system is given back.
    Released,
    Time(SystemTime),
}

pub type SystemPlan<Provider, Cipher, T> = Plan<
    SystemRequest<Provider, Cipher, Seq<u16>>,
    SystemReply<Seq<u16>>,
    T,
>;

impl<Provider, Cipher> View for SystemRequest<Provider, Cipher, Vec<u16>> {
    type V = SystemRequest<Provider, Cipher, Seq<u16>>;

    open spec fn view(&self) -> SystemRequest<Provider, Cipher, Seq<u16>> {
        match *self {
            SystemRequest::InitDriver => SystemRequest::InitDriver,
            SystemRequest::OpenStore {
                data_dir,
                password_provider,
                cipher,
                read_only,
            } => SystemRequest::OpenStore { data_dir, password_provider, cipher, read_only },
            SystemRequest::BuildRuntime => SystemRequest::BuildRuntime,
            SystemRequest::OpenToken => SystemRequest::OpenToken,
            SystemRequest::TokenSize => SystemRequest::TokenSize,
            SystemRequest::ReadToken { bytes, words } => SystemRequest::ReadToken { bytes, words },
            SystemRequest::SidUnits => SystemRequest::SidUnits,
            SystemRequest::FreeSid => SystemRequest::FreeSid,
            SystemRequest::CloseToken => SystemRequest::CloseToken,
            SystemRequest::MakeDescriptor { text } => SystemRequest::MakeDescriptor { text: text@ },
            SystemRequest::MakeVolumeInfo { info } => SystemRequest::MakeVolumeInfo { info },
            SystemRequest::ReadClock => SystemRequest::ReadClock,
            SystemRequest::NameFileSystem { name } => SystemRequest::NameFileSystem { name },
            SystemRequest::SetPrefix { prefix } => SystemRequest::SetPrefix { prefix },
            SystemRequest::StartVolume {
                params,
                mount_point,
                file_system,
            } => SystemRequest::StartVolume { params, mount_point: mount_point@, file_system },
        }
    }
}

impl View for SystemReply<Vec<u16>> {
    type V = SystemReply<Seq<u16>>;

    open spec fn view(&self) -> SystemReply<Seq<u16>> {
        match *self {
            SystemReply::Opened(result) => SystemReply::Opened(result),
            SystemReply::Worked(worked) => SystemReply::Worked(worked),
            SystemReply::Size(size) => SystemReply::Size(size),
            SystemReply::Sid(Some(units)) => SystemReply::Sid(Some(units@)),
            SystemReply::Sid(None) => SystemReply::Sid(None),
            SystemReply::Released => SystemReply::Released,
            SystemReply::Time(time) => SystemReply::Time(time),
        }
    }
}

/// Whether a reply is of the kind that a request calls for.
pub open spec fn replies<Provider, Cipher>(
    request: SystemRequest<Provider, Cipher, Seq<u16>>,
    reply: SystemReply<Seq<u16>>,
) -> bool {
    match request {
        SystemRequest::OpenStore { .. } | SystemRequest::BuildRuntime => reply is Opened,
        SystemRequest::TokenSize => reply is Size,
        SystemRequest::SidUnits => reply is Sid,
        SystemRequest::FreeSid | SystemRequest::CloseToken => reply is Released,
        SystemRequest::ReadClock => reply is Time,
        _ => reply is Worked,
    }
}

/// Where mounting has come to: it asks for something, it is over, or it cannot go on because
/// a number that it has to give does not fit in its type.
#[derive(Debug)]
pub enum SystemStep<Provider, Cipher, Next, Output> {
    Ask { request: SystemRequest<Provider, Cipher, Vec<u16>>, next: Next },
    Done(Output),
    Overflow,
}

/// A request for mounting is seen as it is.
pub proof fn lemma_system_requests_are_seen_as_they_are<Provider, Cipher>(
    request: SystemRequest<Provider, Cipher, Vec<u16>>,
    reply: SystemReply<Vec<u16>>,
)
    ensures
        match (request, request@) {
            (
                SystemRequest::OpenStore { data_dir, password_provider, cipher, read_only },
                SystemRequest::OpenStore {
                    data_dir: dir,
                    password_provider: provider,
                    cipher: other,
                    read_only: mode,
                },
            ) => dir == data_dir && provider == password_provider && other == cipher && mode
                == read_only,
            (
                SystemRequest::ReadToken { bytes, words },
                SystemRequest::ReadToken { bytes: size, words: room },
            ) => size == bytes && room == words,
            (
                SystemRequest::MakeDescriptor { text },
                SystemRequest::MakeDescriptor { text: units },
            ) => units == text@,
            (
                SystemRequest::MakeVolumeInfo { info },
                SystemRequest::MakeVolumeInfo { info: told },
            ) => told == info,
            (
                SystemRequest::NameFileSystem { name },
                SystemRequest::NameFileSystem { name: told },
            ) => told == name,
            (SystemRequest::SetPrefix { prefix }, SystemRequest::SetPrefix { prefix: told }) => told
                == prefix,
            (
                SystemRequest::StartVolume { params, mount_point, file_system },
                SystemRequest::StartVolume {
                    params: told,
                    mount_point: units,
                    file_system: adapter,
                },
            ) => told == params && units == mount_point@ && adapter == file_system,
            (SystemRequest::InitDriver, seen) => seen is InitDriver,
            (SystemRequest::BuildRuntime, seen) => seen is BuildRuntime,
            (SystemRequest::OpenToken, seen) => seen is OpenToken,
            (SystemRequest::TokenSize, seen) => seen is TokenSize,
            (SystemRequest::SidUnits, seen) => seen is SidUnits,
            (SystemRequest::FreeSid, seen) => seen is FreeSid,
            (SystemRequest::CloseToken, seen) => seen is CloseToken,
            (SystemRequest::ReadClock, seen) => seen is ReadClock,
            _ => false,
        },
        match (reply, reply@) {
            (SystemReply::Opened(result), SystemReply::Opened(told)) => told == result,
            (SystemReply::Worked(worked), SystemReply::Worked(told)) => told == worked,
            (SystemReply::Size(size), SystemReply::Size(told)) => told == size,
            (SystemReply::Sid(Some(units)), SystemReply::Sid(Some(told))) => told == units@,
            (SystemReply::Sid(None), SystemReply::Sid(None)) => true,
            (SystemReply::Released, seen) => seen is Released,
            (SystemReply::Time(time), SystemReply::Time(told)) => told == time,
            _ => false,
        },
{
}

} // verus!
