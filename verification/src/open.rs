//! Creating and opening files and directories.

use crate::attr::{
    checked_file_info, file_attributes, kind_attributes, CreateFileAttr, FileAttr, FileInfo,
    FileType,
};
use crate::context::{OpenFile, WindowsFileContext};
use crate::flags::{
    access_modes, CreateOptions, FileAccessRights, FileAttributes, FILE_DIRECTORY_FILE,
    FILE_NON_DIRECTORY_FILE,
};
use crate::path::texts;
use crate::plan::Plan;
use crate::protocol::{follows, Answer, Operation, Reply, Request, Step, StorePlan, StoreReply};
use crate::resolve::{parent_plan, path_plan, ParentWalk, PathWalk};
use crate::status::{
    error_status, fs_error_to_status, NTSTATUS, STATUS_FILE_IS_A_DIRECTORY,
    STATUS_MEDIA_WRITE_PROTECTED, STATUS_NOT_A_DIRECTORY,
};
use vstd::pervasive::unreached;
use vstd::prelude::*;

verus! {

/// What Windows passes with the creation of a file. The allocation size is a hint at how
/// much space to reserve, not the length of the file.
#[derive(Debug, Clone, Copy, PartialEq, Eq, Structural)]
pub struct CreateFileInfo {
    pub create_options: CreateOptions,
    pub granted_access: FileAccessRights,
    pub file_attributes: FileAttributes,
    pub allocation_size: u64,
}

impl CreateFileInfo {
    /// What the store is to create.
    pub open spec fn attr(self) -> CreateFileAttr {
        CreateFileAttr {
            kind: if self.create_options.wants_directory() {
                FileType::Directory
            } else {
                FileType::RegularFile
            },
            perm: if self.create_options.wants_directory() {
                0o755
            } else {
                0o644
            },
            uid: 0,
            gid: 0,
            rdev: 0,
            flags: 0,
        }
    }

    /// The modes in which the store is to open what it creates; a directory is not opened.
    pub open spec fn modes(self) -> (bool, bool) {
        if self.create_options.wants_directory() {
            (false, false)
        } else {
            self.granted_access.modes()
        }
    }
}

pub type OpenResult = Result<(WindowsFileContext, FileInfo), NTSTATUS>;

pub type OpenPlan = StorePlan<OpenResult>;

/// Creating a file or directory under the last component of a path.
pub open spec fn create_plan(
    read_only: bool,
    names: Seq<Seq<char>>,
    info: CreateFileInfo,
) -> OpenPlan {
    if read_only {
        Plan::Done(Err(STATUS_MEDIA_WRITE_PROTECTED))
    } else {
        parent_plan(names).bind(create_resolved(info))
    }
}

pub open spec fn create_resolved(info: CreateFileInfo) -> spec_fn(
    Result<(u64, Seq<char>), NTSTATUS>,
) -> OpenPlan {
    |resolved: Result<(u64, Seq<char>), NTSTATUS>|
        match resolved {
            Ok((parent, name)) => creating(parent, name, info),
            Err(status) => Plan::Done(Err(status)),
        }
}

pub open spec fn creating(parent: u64, name: Seq<char>, info: CreateFileInfo) -> OpenPlan {
    Plan::Ask(
        Request::Create {
            parent,
            name,
            attr: info.attr(),
            read: info.modes().0,
            write: info.modes().1,
        },
        |reply: Answer|
            match reply->Created_0 {
                Ok((handle, attr)) => opened(
                    attr,
                    info.create_options.wants_directory(),
                    info.modes(),
                    if handle != 0 {
                        Some(handle)
                    } else {
                        None
                    },
                ),
                Err(error) => Plan::Done(Err(error_status(error))),
            },
    )
}

/// Handing an open file to Windows.
pub open spec fn opened(
    attr: FileAttr,
    is_dir: bool,
    modes: (bool, bool),
    handle: Option<u64>,
) -> OpenPlan {
    if attr.reportable() {
        Plan::Done(
            Ok(
                (
                    WindowsFileContext {
                        file: OpenFile { ino: attr.ino, is_dir, read: modes.0, write: modes.1 },
                        handle,
                        directory_entries: None,
                    },
                    attr.info(),
                ),
            ),
        )
    } else {
        Plan::Overflow
    }
}

/// The creation of a file or directory, under way.
pub enum Create {
    Resolving { walk: ParentWalk, info: CreateFileInfo },
    Creating { info: CreateFileInfo, asked: Ghost<(u64, Seq<char>)> },
}

impl Create {
    /// Begins to create a file or directory.
    pub fn start(read_only: bool, names: Vec<String>, info: CreateFileInfo) -> (step: Step<
        Create,
        OpenResult,
    >)
        ensures
            follows(step, create_plan(read_only, texts(names@), info)),
    {
        if read_only {
            return Step::Done(Err(STATUS_MEDIA_WRITE_PROTECTED));
        }
        match ParentWalk::start(names) {
            Step::Ask { request, next } => Step::Ask {
                request,
                next: Create::Resolving { walk: next, info },
            },
            Step::Done(Err(status)) => Step::Done(Err(status)),
            _ => unreached(),
        }
    }
}

impl Operation for Create {
    type Output = OpenResult;

    type Outcome = OpenResult;

    open spec fn outcome(output: Self::Output) -> Self::Outcome {
        output
    }

    open spec fn plan(&self) -> OpenPlan {
        match *self {
            Create::Resolving { walk, info } => walk.plan().part_of(create_resolved(info)),
            Create::Creating { info, asked } => creating(asked@.0, asked@.1, info),
        }
    }

    fn resume(self, reply: StoreReply) -> (step: Step<Self, Self::Output>) {
        match (self, reply) {
            (Create::Resolving { walk, info }, reply) => {
                proof {
                    walk.plan().lemma_part_of(create_resolved(info), reply@);
                }
                match walk.resume(reply) {
                    Step::Ask { request, next } => Step::Ask {
                        request,
                        next: Create::Resolving { walk: next, info },
                    },
                    Step::Done(Ok((parent, name))) => {
                        let is_dir = info.create_options.is(CreateOptions(FILE_DIRECTORY_FILE));
                        let kind = if is_dir {
                            FileType::Directory
                        } else {
                            FileType::RegularFile
                        };
                        let (read, write) = if is_dir {
                            (false, false)
                        } else {
                            access_modes(info.granted_access)
                        };
                        let attr = CreateFileAttr {
                            kind,
                            perm: if is_dir {
                                0o755
                            } else {
                                0o644
                            },
                            uid: 0,
                            gid: 0,
                            rdev: 0,
                            flags: 0,
                        };
                        let asked: Ghost<(u64, Seq<char>)> = Ghost((parent, name@));
                        Step::Ask {
                            request: Request::Create { parent, name, attr, read, write },
                            next: Create::Creating { info, asked },
                        }
                    },
                    Step::Done(Err(status)) => Step::Done(Err(status)),
                    Step::Overflow => Step::Overflow,
                }
            },
            (Create::Creating { info, .. }, Reply::Created(Ok((handle, attr)))) => {
                let is_dir = info.create_options.is(CreateOptions(FILE_DIRECTORY_FILE));
                let (read, write) = if is_dir {
                    (false, false)
                } else {
                    access_modes(info.granted_access)
                };
                let context = WindowsFileContext {
                    file: OpenFile { ino: attr.ino, is_dir, read, write },
                    handle: if handle != 0 {
                        Some(handle)
                    } else {
                        None
                    },
                    directory_entries: None,
                };
                match checked_file_info(attr) {
                    Some(info) => Step::Done(Ok((context, info))),
                    None => Step::Overflow,
                }
            },
            (Create::Creating { .. }, Reply::Created(Err(error))) => Step::Done(
                Err(fs_error_to_status(error)),
            ),
            _ => unreached(),
        }
    }
}

/// Opening the file or directory that a path names.
pub open spec fn open_plan(
    names: Seq<Seq<char>>,
    options: CreateOptions,
    access: FileAccessRights,
) -> OpenPlan {
    path_plan(names).bind(open_resolved(options, access))
}

/// A caller that wants a directory gets nothing else, and one that does not want a directory
/// gets none.
pub open spec fn open_resolved(options: CreateOptions, access: FileAccessRights) -> spec_fn(
    Result<FileAttr, NTSTATUS>,
) -> OpenPlan {
    |resolved: Result<FileAttr, NTSTATUS>|
        match resolved {
            Ok(attr) => if options.wants_directory() && attr.kind != FileType::Directory {
                Plan::Done(Err(STATUS_NOT_A_DIRECTORY))
            } else if options.wants_file() && attr.kind == FileType::Directory {
                Plan::Done(Err(STATUS_FILE_IS_A_DIRECTORY))
            } else {
                open_found(attr, access)
            },
            Err(status) => Plan::Done(Err(status)),
        }
}

/// A directory needs no store handle; a file is opened in the modes that are granted.
pub open spec fn open_found(attr: FileAttr, access: FileAccessRights) -> OpenPlan {
    if attr.kind == FileType::Directory {
        opened(attr, true, (false, false), None)
    } else {
        opening(attr, access.modes())
    }
}

pub open spec fn opening(attr: FileAttr, modes: (bool, bool)) -> OpenPlan {
    Plan::Ask(
        Request::Open { ino: attr.ino, read: modes.0, write: modes.1 },
        |reply: Answer|
            match reply->Handle_0 {
                Ok(handle) => opened(attr, false, modes, Some(handle)),
                Err(error) => Plan::Done(Err(error_status(error))),
            },
    )
}

/// The opening of a file or directory, under way.
pub enum Open {
    Resolving { walk: PathWalk, options: CreateOptions, access: FileAccessRights },
    Opening { attr: FileAttr, read: bool, write: bool },
}

impl Open {
    /// Begins to open a file or directory.
    pub fn start(names: Vec<String>, options: CreateOptions, access: FileAccessRights) -> (step:
        Step<Open, OpenResult>)
        ensures
            follows(step, open_plan(texts(names@), options, access)),
    {
        match PathWalk::start(names) {
            Step::Ask { request, next } => Step::Ask {
                request,
                next: Open::Resolving { walk: next, options, access },
            },
            _ => unreached(),
        }
    }
}

impl Operation for Open {
    type Output = OpenResult;

    type Outcome = OpenResult;

    open spec fn outcome(output: Self::Output) -> Self::Outcome {
        output
    }

    open spec fn plan(&self) -> OpenPlan {
        match *self {
            Open::Resolving { walk, options, access } => walk.plan().part_of(
                open_resolved(options, access),
            ),
            Open::Opening { attr, read, write } => opening(attr, (read, write)),
        }
    }

    fn resume(self, reply: StoreReply) -> (step: Step<Self, Self::Output>) {
        match (self, reply) {
            (Open::Resolving { walk, options, access }, reply) => {
                proof {
                    walk.plan().lemma_part_of(open_resolved(options, access), reply@);
                }
                let attr = match walk.resume(reply) {
                    Step::Ask { request, next } => {
                        return Step::Ask {
                            request,
                            next: Open::Resolving { walk: next, options, access },
                        };
                    },
                    Step::Done(Ok(attr)) => attr,
                    Step::Done(Err(status)) => return Step::Done(Err(status)),
                    Step::Overflow => return Step::Overflow,
                };
                if options.is(CreateOptions(FILE_DIRECTORY_FILE)) && attr.kind
                    != FileType::Directory {
                    return Step::Done(Err(STATUS_NOT_A_DIRECTORY));
                }
                if options.is(CreateOptions(FILE_NON_DIRECTORY_FILE)) && attr.kind
                    == FileType::Directory {
                    return Step::Done(Err(STATUS_FILE_IS_A_DIRECTORY));
                }
                if attr.kind == FileType::Directory {
                    let context = WindowsFileContext {
                        file: OpenFile { ino: attr.ino, is_dir: true, read: false, write: false },
                        handle: None,
                        directory_entries: None,
                    };
                    return match checked_file_info(attr) {
                        Some(info) => Step::Done(Ok((context, info))),
                        None => Step::Overflow,
                    };
                }
                let (read, write) = access_modes(access);
                Step::Ask {
                    request: Request::Open { ino: attr.ino, read, write },
                    next: Open::Opening { attr, read, write },
                }
            },
            (Open::Opening { attr, read, write }, Reply::Handle(Ok(handle))) => {
                let context = WindowsFileContext {
                    file: OpenFile { ino: attr.ino, is_dir: false, read, write },
                    handle: Some(handle),
                    directory_entries: None,
                };
                match checked_file_info(attr) {
                    Some(info) => Step::Done(Ok((context, info))),
                    None => Step::Overflow,
                }
            },
            (Open::Opening { .. }, Reply::Handle(Err(error))) => Step::Done(
                Err(fs_error_to_status(error)),
            ),
            _ => unreached(),
        }
    }
}

/// The attribute bits of a file, and whether it stands for another path.
pub type SecurityResult = Result<(FileAttributes, bool), NTSTATUS>;

pub type SecurityPlan = StorePlan<SecurityResult>;

/// Telling the attribute bits of the file that a path names. No file stands for another path.
pub open spec fn security_plan(names: Seq<Seq<char>>) -> SecurityPlan {
    path_plan(names).bind(security_resolved())
}

pub open spec fn security_resolved() -> spec_fn(Result<FileAttr, NTSTATUS>) -> SecurityPlan {
    |resolved: Result<FileAttr, NTSTATUS>|
        Plan::Done(
            match resolved {
                Ok(attr) => Ok((kind_attributes(attr.kind), false)),
                Err(status) => Err(status),
            },
        )
}

/// The telling of attribute bits, under way.
pub struct SecurityByName {
    pub walk: PathWalk,
}

impl SecurityByName {
    /// Begins to tell the attribute bits of the file that a path names.
    pub fn start(names: Vec<String>) -> (step: Step<
        SecurityByName,
        SecurityResult,
    >)
        ensures
            follows(step, security_plan(texts(names@))),
    {
        match PathWalk::start(names) {
            Step::Ask { request, next } => Step::Ask {
                request,
                next: SecurityByName { walk: next },
            },
            _ => unreached(),
        }
    }
}

impl Operation for SecurityByName {
    type Output = SecurityResult;

    type Outcome = SecurityResult;

    open spec fn outcome(output: Self::Output) -> Self::Outcome {
        output
    }

    open spec fn plan(&self) -> SecurityPlan {
        self.walk.plan().part_of(security_resolved())
    }

    fn resume(self, reply: StoreReply) -> (step: Step<Self, Self::Output>) {
        proof {
            self.walk.plan().lemma_part_of(security_resolved(), reply@);
        }
        match self.walk.resume(reply) {
            Step::Ask { request, next } => Step::Ask {
                request,
                next: SecurityByName { walk: next },
            },
            Step::Done(Ok(attr)) => Step::Done(Ok((file_attributes(attr.kind), false))),
            Step::Done(Err(status)) => Step::Done(Err(status)),
            Step::Overflow => Step::Overflow,
        }
    }
}

} // verus!
