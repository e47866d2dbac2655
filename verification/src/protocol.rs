//! How an operation and its surroundings talk: the operation asks, one request at a time,
//! and goes on with the reply.

use crate::attr::{CreateFileAttr, FileAttr, FileInfo, SetFileAttr, UnixTime};
use crate::filetime::since_epoch;
use crate::plan::Plan;
use crate::status::FsError;
use std::time::SystemTime;
use vstd::prelude::*;

verus! {

/// A name in a directory and what Windows is told of the file it names.
#[derive(Debug, PartialEq, Eq)]
pub struct DirEntry<Name> {
    pub name: Name,
    pub info: FileInfo,
}

impl View for DirEntry<String> {
    type V = DirEntry<Seq<char>>;

    open spec fn view(&self) -> DirEntry<Seq<char>> {
        DirEntry { name: self.name@, info: self.info }
    }
}

/// What an operation asks of its surroundings. Most requests go to the store. The others
/// concern the open file that the operation is about, which keeps a store handle and a
/// directory listing, each behind a lock, and the buffer that Windows passed.
#[derive(Debug)]
pub enum Request<Name, Entries, Entry, Update> {
    GetAttr { ino: u64 },
    FindByName { parent: u64, name: Name },
    Open { ino: u64, read: bool, write: bool },
    Create { parent: u64, name: Name, attr: CreateFileAttr, read: bool, write: bool },
    Release { handle: u64 },
    SetLen { ino: u64, size: u64 },
    SetAttr { ino: u64, update: Update },
    /// Fill the buffer of Windows.
    Read { ino: u64, offset: u64, handle: u64 },
    /// Store the first `count` bytes of the buffer of Windows.
    Write { ino: u64, offset: u64, count: usize, handle: u64 },
    Flush { handle: u64 },
    Len { ino: u64 },
    RemoveDir { parent: u64, name: Name },
    RemoveFile { parent: u64, name: Name },
    Rename { parent: u64, name: Name, new_parent: u64, new_name: Name },
    ReadDirPlus { ino: u64 },
    /// Read the store handle of the open file.
    PeekHandle,
    /// Take the store handle out of the open file, and keep it locked until the release that
    /// may follow is answered.
    TakeHandle,
    /// Put a store handle into the open file.
    StoreHandle { handle: u64 },
    /// Read the listing that the open directory keeps, and keep it locked until the listing
    /// that may have to be made is stored.
    CachedEntries,
    /// Let the open directory keep a listing.
    StoreEntries { entries: Entries },
    /// Let the open directory forget its listing.
    ClearEntries,
    /// Hand an entry to Windows.
    Offer { entry: Entry },
}

/// What an operation gets back.
#[derive(Debug)]
pub enum Reply<Listing, Entries> {
    Attr(Result<FileAttr, FsError>),
    Found(Result<Option<FileAttr>, FsError>),
    Created(Result<(u64, FileAttr), FsError>),
    Handle(Result<u64, FsError>),
    Unit(Result<(), FsError>),
    Count(Result<usize, FsError>),
    /// The names and attributes in a directory; the reading of each may fail.
    Listing(Result<Listing, FsError>),
    /// The store handle of the open file, if it has one; nothing if the lock is broken.
    Slot(Option<Option<u64>>),
    /// The listing of the open directory, if it keeps one; nothing if the lock is broken.
    Cached(Option<Option<Entries>>),
    /// Whether the lock was in order.
    Stored(bool),
    /// The listing is kept.
    Kept,
    /// Whether Windows took the entry and wants more.
    Accepted(bool),
}

pub type StoreRequest = Request<
    String,
    Vec<DirEntry<String>>,
    DirEntry<String>,
    SetFileAttr<SystemTime>,
>;

pub type StoreReply = Reply<Vec<Result<(String, FileAttr), FsError>>, Vec<DirEntry<String>>>;

/// A request, its names as texts and its times as numbers.
pub type Asked = Request<
    Seq<char>,
    Seq<DirEntry<Seq<char>>>,
    DirEntry<Seq<char>>,
    SetFileAttr<UnixTime>,
>;

/// A reply, its names as texts.
pub type Answer = Reply<Seq<Result<(Seq<char>, FileAttr), FsError>>, Seq<DirEntry<Seq<char>>>>;

/// The plan of an operation.
pub type StorePlan<T> = Plan<Asked, Answer, T>;

/// The entries of a listing, their names as texts.
pub open spec fn shown(entries: Seq<DirEntry<String>>) -> Seq<DirEntry<Seq<char>>> {
    entries.map_values(|entry: DirEntry<String>| entry@)
}

/// The items of a directory, their names as texts.
pub open spec fn listed(items: Seq<Result<(String, FileAttr), FsError>>) -> Seq<
    Result<(Seq<char>, FileAttr), FsError>,
> {
    items.map_values(
        |item: Result<(String, FileAttr), FsError>|
            match item {
                Ok((name, attr)) => Ok((name@, attr)),
                Err(error) => Err(error),
            },
    )
}

impl View for StoreRequest {
    type V = Asked;

    open spec fn view(&self) -> Asked {
        match *self {
            Request::GetAttr { ino } => Request::GetAttr { ino },
            Request::FindByName { parent, name } => Request::FindByName { parent, name: name@ },
            Request::Open { ino, read, write } => Request::Open { ino, read, write },
            Request::Create { parent, name, attr, read, write } => Request::Create {
                parent,
                name: name@,
                attr,
                read,
                write,
            },
            Request::Release { handle } => Request::Release { handle },
            Request::SetLen { ino, size } => Request::SetLen { ino, size },
            Request::SetAttr { ino, update } => Request::SetAttr { ino, update: update@ },
            Request::Read { ino, offset, handle } => Request::Read { ino, offset, handle },
            Request::Write { ino, offset, count, handle } => Request::Write {
                ino,
                offset,
                count,
                handle,
            },
            Request::Flush { handle } => Request::Flush { handle },
            Request::Len { ino } => Request::Len { ino },
            Request::RemoveDir { parent, name } => Request::RemoveDir { parent, name: name@ },
            Request::RemoveFile { parent, name } => Request::RemoveFile { parent, name: name@ },
            Request::Rename { parent, name, new_parent, new_name } => Request::Rename {
                parent,
                name: name@,
                new_parent,
                new_name: new_name@,
            },
            Request::ReadDirPlus { ino } => Request::ReadDirPlus { ino },
            Request::PeekHandle => Request::PeekHandle,
            Request::TakeHandle => Request::TakeHandle,
            Request::StoreHandle { handle } => Request::StoreHandle { handle },
            Request::CachedEntries => Request::CachedEntries,
            Request::StoreEntries { entries } => Request::StoreEntries { entries: shown(entries@) },
            Request::ClearEntries => Request::ClearEntries,
            Request::Offer { entry } => Request::Offer { entry: entry@ },
        }
    }
}

impl View for StoreReply {
    type V = Answer;

    open spec fn view(&self) -> Answer {
        match *self {
            Reply::Attr(attr) => Reply::Attr(attr),
            Reply::Found(found) => Reply::Found(found),
            Reply::Created(created) => Reply::Created(created),
            Reply::Handle(handle) => Reply::Handle(handle),
            Reply::Unit(unit) => Reply::Unit(unit),
            Reply::Count(count) => Reply::Count(count),
            Reply::Listing(Ok(items)) => Reply::Listing(Ok(listed(items@))),
            Reply::Listing(Err(error)) => Reply::Listing(Err(error)),
            Reply::Slot(slot) => Reply::Slot(slot),
            Reply::Cached(Some(Some(entries))) => Reply::Cached(Some(Some(shown(entries@)))),
            Reply::Cached(Some(None)) => Reply::Cached(Some(None)),
            Reply::Cached(None) => Reply::Cached(None),
            Reply::Stored(stored) => Reply::Stored(stored),
            Reply::Kept => Reply::Kept,
            Reply::Accepted(accepted) => Reply::Accepted(accepted),
        }
    }
}

/// Whether a reply is of the kind that a request calls for.
pub open spec fn answers(request: Asked, reply: Answer) -> bool {
    match request {
        Request::GetAttr { .. } => reply is Attr,
        Request::FindByName { .. } => reply is Found,
        Request::Open { .. } => reply is Handle,
        Request::Create { .. } => reply is Created,
        Request::Read { .. } | Request::Write { .. } | Request::Len { .. } => reply is Count,
        Request::ReadDirPlus { .. } => reply is Listing,
        Request::PeekHandle | Request::TakeHandle => reply is Slot,
        Request::CachedEntries => reply is Cached,
        Request::StoreEntries { .. } => reply is Kept,
        Request::StoreHandle { .. } | Request::ClearEntries => reply is Stored,
        Request::Offer { .. } => reply is Accepted,
        _ => reply is Unit,
    }
}

/// Whether a request changes what the store holds.
pub open spec fn changes(request: Asked) -> bool {
    match request {
        Request::Create { .. }
        | Request::SetLen { .. }
        | Request::SetAttr { .. }
        | Request::Write { .. }
        | Request::Flush { .. }
        | Request::RemoveDir { .. }
        | Request::RemoveFile { .. }
        | Request::Rename { .. } => true,
        _ => false,
    }
}

/// Where an operation has come to: it asks for something, it is over, or it cannot go on
/// because a number that it has to give does not fit in its type.
#[derive(Debug)]
pub enum Step<Next, Output> {
    Ask { request: StoreRequest, next: Next },
    Done(Output),
    Overflow,
}

/// An operation that waits for the reply to a request.
pub trait Operation: Sized {
    /// What the operation gives in the end.
    type Output;

    /// The same, its names as texts.
    type Outcome;

    spec fn outcome(output: Self::Output) -> Self::Outcome;

    /// The request that the operation waits on, and how it goes on.
    spec fn plan(&self) -> StorePlan<Self::Outcome>;

    /// Goes on with the reply, exactly as the plan says.
    fn resume(self, reply: StoreReply) -> (step: Step<Self, Self::Output>)
        requires
            self.plan() matches Plan::Ask(request, _) && answers(request, reply@),
        ensures
            match step {
                Step::Ask { request, next } => {
                    &&& next.plan() == (self.plan()->Ask_1)(reply@)
                    &&& next.plan() matches Plan::Ask(asked, _) && asked == request@
                },
                Step::Done(output) => (self.plan()->Ask_1)(reply@) == StorePlan::<
                    Self::Outcome,
                >::Done(Self::outcome(output)),
                Step::Overflow => (self.plan()->Ask_1)(reply@) is Overflow,
            },
    ;
}

/// Whether a step is where a plan begins.
pub open spec fn follows<O: Operation>(
    step: Step<O, O::Output>,
    plan: StorePlan<O::Outcome>,
) -> bool {
    match step {
        Step::Ask { request, next } => {
            &&& next.plan() == plan
            &&& plan matches Plan::Ask(asked, _) && asked == request@
        },
        Step::Done(output) => plan == StorePlan::<O::Outcome>::Done(O::outcome(output)),
        Step::Overflow => plan is Overflow,
    }
}

/// A request is seen as it is: with its numbers, the texts of its names, and its entries.
pub proof fn lemma_requests_are_seen_as_they_are(
    ino: u64,
    other: u64,
    handle: u64,
    count: usize,
    name: String,
    new_name: String,
    attr: CreateFileAttr,
    read: bool,
    write: bool,
    update: SetFileAttr<SystemTime>,
    entries: Vec<DirEntry<String>>,
    entry: DirEntry<String>,
)
    ensures
        (StoreRequest::GetAttr { ino })@ == (Asked::GetAttr { ino }),
        (StoreRequest::FindByName { parent: ino, name })@ == (Asked::FindByName {
            parent: ino,
            name: name@,
        }),
        (StoreRequest::Open { ino, read, write })@ == (Asked::Open { ino, read, write }),
        (StoreRequest::Create { parent: ino, name, attr, read, write })@ == (Asked::Create {
            parent: ino,
            name: name@,
            attr,
            read,
            write,
        }),
        (StoreRequest::Release { handle })@ == (Asked::Release { handle }),
        (StoreRequest::SetLen { ino, size: other })@ == (Asked::SetLen { ino, size: other }),
        (StoreRequest::SetAttr { ino, update })@ == (Asked::SetAttr { ino, update: update@ }),
        (StoreRequest::Read { ino, offset: other, handle })@ == (Asked::Read {
            ino,
            offset: other,
            handle,
        }),
        (StoreRequest::Write { ino, offset: other, count, handle })@ == (Asked::Write {
            ino,
            offset: other,
            count,
            handle,
        }),
        (StoreRequest::Flush { handle })@ == (Asked::Flush { handle }),
        (StoreRequest::Len { ino })@ == (Asked::Len { ino }),
        (StoreRequest::RemoveDir { parent: ino, name })@ == (Asked::RemoveDir {
            parent: ino,
            name: name@,
        }),
        (StoreRequest::RemoveFile { parent: ino, name })@ == (Asked::RemoveFile {
            parent: ino,
            name: name@,
        }),
        (StoreRequest::Rename { parent: ino, name, new_parent: other, new_name })@ == (
        Asked::Rename { parent: ino, name: name@, new_parent: other, new_name: new_name@ }),
        (StoreRequest::ReadDirPlus { ino })@ == (Asked::ReadDirPlus { ino }),
        StoreRequest::PeekHandle@ == Asked::PeekHandle,
        StoreRequest::TakeHandle@ == Asked::TakeHandle,
        (StoreRequest::StoreHandle { handle })@ == (Asked::StoreHandle { handle }),
        StoreRequest::CachedEntries@ == Asked::CachedEntries,
        (StoreRequest::StoreEntries { entries })@ == (Asked::StoreEntries {
            entries: shown(entries@),
        }),
        StoreRequest::ClearEntries@ == Asked::ClearEntries,
        (StoreRequest::Offer { entry })@ == (Asked::Offer { entry: entry@ }),
        entry@.name == entry.name@,
        entry@.info == entry.info,
        shown(entries@).len() == entries@.len(),
        forall|i: int| 0 <= i < entries@.len() ==> #[trigger] shown(entries@)[i] == entries@[i]@,
        update@.crtime == match update.crtime {
            Some(time) => Some(since_epoch(time)),
            None => None,
        },
        update@.atime == match update.atime {
            Some(time) => Some(since_epoch(time)),
            None => None,
        },
        update@.mtime == match update.mtime {
            Some(time) => Some(since_epoch(time)),
            None => None,
        },
        update@.ctime == match update.ctime {
            Some(time) => Some(since_epoch(time)),
            None => None,
        },
{
}

/// A reply is seen as it is: with its values, the texts of its names, and its errors.
pub proof fn lemma_replies_are_seen_as_they_are(
    attr: Result<FileAttr, FsError>,
    found: Result<Option<FileAttr>, FsError>,
    created: Result<(u64, FileAttr), FsError>,
    handle: Result<u64, FsError>,
    unit: Result<(), FsError>,
    count: Result<usize, FsError>,
    items: Vec<Result<(String, FileAttr), FsError>>,
    error: FsError,
    slot: Option<Option<u64>>,
    entries: Vec<DirEntry<String>>,
    flag: bool,
)
    ensures
        StoreReply::Attr(attr)@ == Answer::Attr(attr),
        StoreReply::Found(found)@ == Answer::Found(found),
        StoreReply::Created(created)@ == Answer::Created(created),
        StoreReply::Handle(handle)@ == Answer::Handle(handle),
        StoreReply::Unit(unit)@ == Answer::Unit(unit),
        StoreReply::Count(count)@ == Answer::Count(count),
        StoreReply::Listing(Ok(items))@ == Answer::Listing(Ok(listed(items@))),
        StoreReply::Listing(Err(error))@ == Answer::Listing(Err(error)),
        StoreReply::Slot(slot)@ == Answer::Slot(slot),
        StoreReply::Cached(Some(Some(entries)))@ == Answer::Cached(Some(Some(shown(entries@)))),
        StoreReply::Cached(Some(None))@ == Answer::Cached(Some(None)),
        StoreReply::Cached(None)@ == Answer::Cached(None),
        StoreReply::Stored(flag)@ == Answer::Stored(flag),
        StoreReply::Kept@ == Answer::Kept,
        StoreReply::Accepted(flag)@ == Answer::Accepted(flag),
        listed(items@).len() == items@.len(),
        forall|i: int|
            0 <= i < items@.len() ==> match (items@[i], #[trigger] listed(items@)[i]) {
                (Ok((name, attr)), Ok((text, told))) => text == name@ && told == attr,
                (Err(error), Err(told)) => told == error,
                _ => false,
            },
{
}

} // verus!
