//! Reading, writing and flushing an open file.

use crate::attr::{checked_file_info, FileAttr, FileInfo};
use crate::context::{context_handle, held_handle, report_plan, InfoPlan, OpenFile, Report};
use crate::plan::Plan;
use crate::protocol::{follows, Answer, Operation, Reply, Request, Step, StorePlan, StoreReply};
use crate::status::{
    error_status, fs_error_to_status, status_result, to_status, NTSTATUS, STATUS_END_OF_FILE,
    STATUS_FILE_IS_A_DIRECTORY, STATUS_MEDIA_WRITE_PROTECTED,
};
use vstd::pervasive::unreached;
use vstd::prelude::*;

verus! {

pub type CountPlan = StorePlan<Result<usize, NTSTATUS>>;

/// Reading from an open file: nothing can be read from its end on.
pub open spec fn read_plan(file: OpenFile, offset: u64) -> CountPlan {
    if file.is_dir {
        Plan::Done(Err(STATUS_FILE_IS_A_DIRECTORY))
    } else {
        read_sizing(file.ino, offset)
    }
}

pub open spec fn read_sizing(ino: u64, offset: u64) -> CountPlan {
    Plan::Ask(
        Request::GetAttr { ino },
        |reply: Answer|
            match reply->Attr_0 {
                Ok(attr) => if offset >= attr.size {
                    Plan::Done(Err(STATUS_END_OF_FILE))
                } else {
                    read_peeking(ino, offset)
                },
                Err(error) => Plan::Done(Err(error_status(error))),
            },
    )
}

pub open spec fn read_peeking(ino: u64, offset: u64) -> CountPlan {
    Plan::Ask(
        Request::PeekHandle,
        |reply: Answer|
            match held_handle(reply->Slot_0) {
                Ok(handle) => reading(ino, offset, handle),
                Err(status) => Plan::Done(Err(status)),
            },
    )
}

pub open spec fn reading(ino: u64, offset: u64, handle: u64) -> CountPlan {
    Plan::Ask(
        Request::Read { ino, offset, handle },
        |reply: Answer| Plan::Done(status_result(reply->Count_0)),
    )
}

/// The reading from an open file, under way.
pub enum Read {
    Sizing { ino: u64, offset: u64 },
    Peeking { ino: u64, offset: u64 },
    Reading { ino: u64, offset: u64, handle: u64 },
}

impl Read {
    /// Begins to read from an open file.
    pub fn start(file: OpenFile, offset: u64) -> (step: Step<Read, Result<usize, NTSTATUS>>)
        ensures
            follows(step, read_plan(file, offset)),
    {
        if file.is_dir {
            return Step::Done(Err(STATUS_FILE_IS_A_DIRECTORY));
        }
        let ino: u64 = file.ino;
        Step::Ask { request: Request::GetAttr { ino }, next: Read::Sizing { ino, offset } }
    }
}

impl Operation for Read {
    type Output = Result<usize, NTSTATUS>;

    type Outcome = Result<usize, NTSTATUS>;

    open spec fn outcome(output: Self::Output) -> Self::Outcome {
        output
    }

    open spec fn plan(&self) -> CountPlan {
        match *self {
            Read::Sizing { ino, offset } => read_sizing(ino, offset),
            Read::Peeking { ino, offset } => read_peeking(ino, offset),
            Read::Reading { ino, offset, handle } => reading(ino, offset, handle),
        }
    }

    fn resume(self, reply: StoreReply) -> (step: Step<Self, Self::Output>) {
        match (self, reply) {
            (Read::Sizing { ino, offset }, Reply::Attr(Ok(attr))) => {
                if offset >= attr.size {
                    Step::Done(Err(STATUS_END_OF_FILE))
                } else {
                    Step::Ask {
                        request: Request::PeekHandle,
                        next: Read::Peeking { ino, offset },
                    }
                }
            },
            (Read::Sizing { .. }, Reply::Attr(Err(error))) => Step::Done(
                Err(fs_error_to_status(error)),
            ),
            (Read::Peeking { ino, offset }, Reply::Slot(slot)) => match context_handle(slot) {
                Ok(handle) => Step::Ask {
                    request: Request::Read { ino, offset, handle },
                    next: Read::Reading { ino, offset, handle },
                },
                Err(status) => Step::Done(Err(status)),
            },
            (Read::Reading { .. }, Reply::Count(count)) => Step::Done(to_status(count)),
            _ => unreached(),
        }
    }
}

/// Where a write goes.
#[derive(Debug, Clone, Copy, PartialEq, Eq, Structural)]
pub enum WriteMode {
    /// To an offset, and beyond the end of the file if need be.
    Normal { offset: u64 },
    /// To an offset, but only as far as the file goes.
    ConstrainedIO { offset: u64 },
    /// Behind the end of the file.
    WriteToEOF,
}

impl WriteMode {
    /// The offset and the number of bytes of a write to a file of a given size, from a buffer
    /// of a given length; nothing where no byte may be written.
    pub open spec fn placed(self, size: u64, len: usize) -> Option<(u64, usize)> {
        match self {
            WriteMode::Normal { offset } => Some((offset, len)),
            WriteMode::WriteToEOF => Some((size, len)),
            WriteMode::ConstrainedIO { offset } => if offset >= size {
                None
            } else if size - offset < len {
                Some((offset, (size - offset) as usize))
            } else {
                Some((offset, len))
            },
        }
    }

    /// The offset and the number of bytes of a write.
    pub fn place(self, size: u64, len: usize) -> (placed: Option<(u64, usize)>)
        ensures
            placed == self.placed(size, len),
    {
        match self {
            WriteMode::Normal { offset } => Some((offset, len)),
            WriteMode::WriteToEOF => Some((size, len)),
            WriteMode::ConstrainedIO { offset } => {
                if offset >= size {
                    return None;
                }
                if size - offset < len as u64 {
                    Some((offset, (size - offset) as usize))
                } else {
                    Some((offset, len))
                }
            },
        }
    }
}

/// A write takes no more bytes than the buffer has. One that is constrained stays within the
/// file, and writes all that it may: it stops at the end of the buffer or of the file.
pub proof fn lemma_write_is_placed(mode: WriteMode, size: u64, len: usize)
    ensures
        mode.placed(size, len) matches Some((_, count)) ==> count <= len,
        mode is ConstrainedIO ==> match mode.placed(size, len) {
            Some((offset, count)) => {
                &&& offset == mode->ConstrainedIO_offset
                &&& offset + count <= size
                &&& count == len || offset + count == size
            },
            None => mode->ConstrainedIO_offset >= size,
        },
        mode is WriteToEOF ==> mode.placed(size, len) == Some((size, len)),
        mode matches WriteMode::Normal { offset } ==> mode.placed(size, len) == Some((offset, len)),
{
}

pub type WriteResult = Result<(usize, FileInfo), NTSTATUS>;

pub type WritePlan = StorePlan<WriteResult>;

/// Writing to an open file.
pub open spec fn write_plan(
    read_only: bool,
    file: OpenFile,
    len: usize,
    mode: WriteMode,
) -> WritePlan {
    if read_only {
        Plan::Done(Err(STATUS_MEDIA_WRITE_PROTECTED))
    } else if file.is_dir {
        Plan::Done(Err(STATUS_FILE_IS_A_DIRECTORY))
    } else {
        write_peeking(file.ino, len, mode)
    }
}

pub open spec fn write_peeking(ino: u64, len: usize, mode: WriteMode) -> WritePlan {
    Plan::Ask(
        Request::PeekHandle,
        |reply: Answer|
            match held_handle(reply->Slot_0) {
                Ok(handle) => write_sizing(ino, len, mode, handle),
                Err(status) => Plan::Done(Err(status)),
            },
    )
}

pub open spec fn write_sizing(ino: u64, len: usize, mode: WriteMode, handle: u64) -> WritePlan {
    Plan::Ask(
        Request::GetAttr { ino },
        |reply: Answer|
            match reply->Attr_0 {
                Ok(attr) => match mode.placed(attr.size, len) {
                    Some((offset, count)) => writing(ino, offset, count, handle),
                    None => written(attr, 0),
                },
                Err(error) => Plan::Done(Err(error_status(error))),
            },
    )
}

pub open spec fn writing(ino: u64, offset: u64, count: usize, handle: u64) -> WritePlan {
    Plan::Ask(
        Request::Write { ino, offset, count, handle },
        |reply: Answer|
            match reply->Count_0 {
                Ok(count) => write_reporting(ino, count),
                Err(error) => Plan::Done(Err(error_status(error))),
            },
    )
}

pub open spec fn write_reporting(ino: u64, count: usize) -> WritePlan {
    Plan::Ask(
        Request::GetAttr { ino },
        |reply: Answer|
            match reply->Attr_0 {
                Ok(attr) => written(attr, count),
                Err(error) => Plan::Done(Err(error_status(error))),
            },
    )
}

/// Telling Windows how many bytes were written, and what the file is like now.
pub open spec fn written(attr: FileAttr, count: usize) -> WritePlan {
    if attr.reportable() {
        Plan::Done(Ok((count, attr.info())))
    } else {
        Plan::Overflow
    }
}

/// The writing to an open file, under way.
pub enum Write {
    Peeking { ino: u64, len: usize, mode: WriteMode },
    Sizing { ino: u64, len: usize, mode: WriteMode, handle: u64 },
    Writing { ino: u64, offset: u64, count: usize, handle: u64 },
    Reporting { ino: u64, count: usize },
}

impl Write {
    /// Begins to write to an open file.
    pub fn start(read_only: bool, file: OpenFile, len: usize, mode: WriteMode) -> (step: Step<
        Write,
        WriteResult,
    >)
        ensures
            follows(step, write_plan(read_only, file, len, mode)),
    {
        if read_only {
            return Step::Done(Err(STATUS_MEDIA_WRITE_PROTECTED));
        }
        if file.is_dir {
            return Step::Done(Err(STATUS_FILE_IS_A_DIRECTORY));
        }
        Step::Ask {
            request: Request::PeekHandle,
            next: Write::Peeking { ino: file.ino, len, mode },
        }
    }
}

impl Operation for Write {
    type Output = WriteResult;

    type Outcome = WriteResult;

    open spec fn outcome(output: Self::Output) -> Self::Outcome {
        output
    }

    open spec fn plan(&self) -> WritePlan {
        match *self {
            Write::Peeking { ino, len, mode } => write_peeking(ino, len, mode),
            Write::Sizing { ino, len, mode, handle } => write_sizing(ino, len, mode, handle),
            Write::Writing { ino, offset, count, handle } => writing(ino, offset, count, handle),
            Write::Reporting { ino, count } => write_reporting(ino, count),
        }
    }

    fn resume(self, reply: StoreReply) -> (step: Step<Self, Self::Output>) {
        match (self, reply) {
            (Write::Peeking { ino, len, mode }, Reply::Slot(slot)) => match context_handle(slot) {
                Ok(handle) => Step::Ask {
                    request: Request::GetAttr { ino },
                    next: Write::Sizing { ino, len, mode, handle },
                },
                Err(status) => Step::Done(Err(status)),
            },
            (
                Write::Sizing { ino, len, mode, handle },
                Reply::Attr(Ok(attr)),
            ) => match mode.place(attr.size, len) {
                Some((offset, count)) => Step::Ask {
                    request: Request::Write { ino, offset, count, handle },
                    next: Write::Writing { ino, offset, count, handle },
                },
                None => match checked_file_info(attr) {
                    Some(info) => Step::Done(Ok((0, info))),
                    None => Step::Overflow,
                },
            },
            (Write::Writing { ino, .. }, Reply::Count(Ok(count))) => Step::Ask {
                request: Request::GetAttr { ino },
                next: Write::Reporting { ino, count },
            },
            (
                Write::Reporting { count, .. },
                Reply::Attr(Ok(attr)),
            ) => match checked_file_info(attr) {
                Some(info) => Step::Done(Ok((count, info))),
                None => Step::Overflow,
            },
            (_, Reply::Attr(Err(error))) => Step::Done(Err(fs_error_to_status(error))),
            (_, Reply::Count(Err(error))) => Step::Done(Err(fs_error_to_status(error))),
            _ => unreached(),
        }
    }
}

/// Flushing an open file. There is nothing to flush on a read-only volume or in a directory.
pub open spec fn flush_plan(read_only: bool, file: OpenFile) -> InfoPlan {
    if !read_only && !file.is_dir {
        flush_peeking(file.ino)
    } else {
        report_plan(file.ino)
    }
}

pub open spec fn flush_peeking(ino: u64) -> InfoPlan {
    Plan::Ask(
        Request::PeekHandle,
        |reply: Answer|
            match held_handle(reply->Slot_0) {
                Ok(handle) => flushing(ino, handle),
                Err(status) => Plan::Done(Err(status)),
            },
    )
}

pub open spec fn flushing(ino: u64, handle: u64) -> InfoPlan {
    Plan::Ask(
        Request::Flush { handle },
        |reply: Answer|
            match reply->Unit_0 {
                Ok(()) => report_plan(ino),
                Err(error) => Plan::Done(Err(error_status(error))),
            },
    )
}

/// The flushing of an open file, under way.
pub enum Flush {
    Peeking { ino: u64 },
    Flushing { ino: u64, handle: u64 },
    Reporting { report: Report },
}

impl Flush {
    /// Begins to flush an open file.
    pub fn start(read_only: bool, file: OpenFile) -> (step: Step<Flush, Result<FileInfo, NTSTATUS>>)
        ensures
            follows(step, flush_plan(read_only, file)),
    {
        let ino: u64 = file.ino;
        if !read_only && !file.is_dir {
            Step::Ask { request: Request::PeekHandle, next: Flush::Peeking { ino } }
        } else {
            Step::Ask {
                request: Request::GetAttr { ino },
                next: Flush::Reporting { report: Report { ino } },
            }
        }
    }
}

impl Operation for Flush {
    type Output = Result<FileInfo, NTSTATUS>;

    type Outcome = Result<FileInfo, NTSTATUS>;

    open spec fn outcome(output: Self::Output) -> Self::Outcome {
        output
    }

    open spec fn plan(&self) -> InfoPlan {
        match *self {
            Flush::Peeking { ino } => flush_peeking(ino),
            Flush::Flushing { ino, handle } => flushing(ino, handle),
            Flush::Reporting { report } => report.plan(),
        }
    }

    fn resume(self, reply: StoreReply) -> (step: Step<Self, Self::Output>) {
        match (self, reply) {
            (Flush::Peeking { ino }, Reply::Slot(slot)) => match context_handle(slot) {
                Ok(handle) => Step::Ask {
                    request: Request::Flush { handle },
                    next: Flush::Flushing { ino, handle },
                },
                Err(status) => Step::Done(Err(status)),
            },
            (Flush::Flushing { ino, .. }, Reply::Unit(Ok(()))) => Step::Ask {
                request: Request::GetAttr { ino },
                next: Flush::Reporting { report: Report { ino } },
            },
            (Flush::Flushing { .. }, Reply::Unit(Err(error))) => Step::Done(
                Err(fs_error_to_status(error)),
            ),
            (Flush::Reporting { report }, reply) => match report.resume(reply) {
                Step::Ask { request, next } => Step::Ask {
                    request,
                    next: Flush::Reporting { report: next },
                },
                Step::Done(output) => Step::Done(output),
                Step::Overflow => Step::Overflow,
            },
            _ => unreached(),
        }
    }
}

} // verus!
