//! Finding the file that a path names, by asking the store for one component after another.

use crate::attr::{FileAttr, FileType};
use crate::path::texts;
use crate::plan::Plan;
use crate::protocol::{
    follows, Answer, Asked, Operation, Reply, Request, Step, StorePlan, StoreReply,
};
use crate::status::{
    error_status, fs_error_to_status, FsError, NTSTATUS, STATUS_INVALID_PARAMETER,
    STATUS_NOT_A_DIRECTORY, STATUS_OBJECT_NAME_NOT_FOUND,
};
use vstd::pervasive::unreached;
use vstd::prelude::*;

verus! {

/// The number that the store gives to its root directory.
pub const ROOT_INODE: u64 = 1;

pub type PathPlan = StorePlan<Result<FileAttr, NTSTATUS>>;

/// Resolving a path: the root first, and then one component after another.
pub open spec fn path_plan(names: Seq<Seq<char>>) -> PathPlan {
    Plan::Ask(
        Request::GetAttr { ino: ROOT_INODE },
        |reply: Answer|
            match reply->Attr_0 {
                Ok(attr) => path_from(attr, names),
                Err(error) => Plan::Done(Err(error_status(error))),
            },
    )
}

/// Resolving components from a file that is found already, which has to be a directory if
/// there is a component left.
pub open spec fn path_from(attr: FileAttr, names: Seq<Seq<char>>) -> PathPlan
    decreases names.len(), 1int,
{
    if names.len() == 0 {
        Plan::Done(Ok(attr))
    } else if attr.kind != FileType::Directory {
        Plan::Done(Err(STATUS_NOT_A_DIRECTORY))
    } else {
        path_below(attr.ino, names[0], names.skip(1))
    }
}

/// Resolving a component in a directory, and then the components behind it.
pub open spec fn path_below(parent: u64, name: Seq<char>, rest: Seq<Seq<char>>) -> PathPlan
    decreases rest.len() + 1, 0int,
{
    Plan::Ask(
        Request::FindByName { parent, name },
        |reply: Answer|
            match reply->Found_0 {
                Ok(Some(attr)) => path_from(attr, rest),
                Ok(None) => Plan::Done(Err(STATUS_OBJECT_NAME_NOT_FOUND)),
                Err(error) => Plan::Done(Err(error_status(error))),
            },
    )
}

/// The resolving of a path, under way.
pub enum PathWalk {
    Root { rest: Vec<String> },
    Below { rest: Vec<String>, asked: Ghost<(u64, Seq<char>)> },
}

impl PathWalk {
    /// Begins to resolve a path.
    pub fn start(names: Vec<String>) -> (step: Step<PathWalk, Result<FileAttr, NTSTATUS>>)
        ensures
            follows(step, path_plan(texts(names@))),
    {
        Step::Ask {
            request: Request::GetAttr { ino: ROOT_INODE },
            next: PathWalk::Root { rest: names },
        }
    }
}

impl Operation for PathWalk {
    type Output = Result<FileAttr, NTSTATUS>;

    type Outcome = Result<FileAttr, NTSTATUS>;

    open spec fn outcome(output: Self::Output) -> Self::Outcome {
        output
    }

    open spec fn plan(&self) -> PathPlan {
        match *self {
            PathWalk::Root { rest } => path_plan(texts(rest@)),
            PathWalk::Below { rest, asked } => path_below(asked@.0, asked@.1, texts(rest@)),
        }
    }

    fn resume(self, reply: StoreReply) -> (step: Step<Self, Self::Output>) {
        let (found, rest) = match (self, reply) {
            (PathWalk::Root { rest }, Reply::Attr(found)) => (found, rest),
            (PathWalk::Below { rest, .. }, Reply::Found(Ok(Some(attr)))) => (Ok(attr), rest),
            (PathWalk::Below { rest, .. }, Reply::Found(Ok(None))) => (
                Err(FsError::NotFound("path component not found")),
                rest,
            ),
            (PathWalk::Below { rest, .. }, Reply::Found(Err(error))) => (Err(error), rest),
            _ => unreached(),
        };
        let attr = match found {
            Ok(attr) => attr,
            Err(error) => return Step::Done(Err(fs_error_to_status(error))),
        };
        if rest.len() == 0 {
            return Step::Done(Ok(attr));
        }
        if attr.kind != FileType::Directory {
            return Step::Done(Err(fs_error_to_status(FsError::InvalidInodeType)));
        }
        let mut rest = rest;
        let ghost names = texts(rest@);
        let name = rest.remove(0);
        let asked: Ghost<(u64, Seq<char>)> = Ghost((attr.ino, name@));
        assert(texts(rest@) == names.skip(1));
        Step::Ask {
            request: Request::FindByName { parent: attr.ino, name },
            next: PathWalk::Below { rest, asked },
        }
    }
}

pub type ParentPlan = StorePlan<Result<(u64, Seq<char>), NTSTATUS>>;

/// Resolving the directory in which the last component of a path stands. The root stands in
/// none.
pub open spec fn parent_plan(names: Seq<Seq<char>>) -> ParentPlan {
    if names.len() == 0 {
        Plan::Done(Err(STATUS_INVALID_PARAMETER))
    } else {
        parent_root(names.drop_last(), names.last())
    }
}

/// Asking for the root, and then resolving directories from it.
pub open spec fn parent_root(directories: Seq<Seq<char>>, name: Seq<char>) -> ParentPlan {
    Plan::Ask(
        Request::GetAttr { ino: ROOT_INODE },
        |reply: Answer|
            match reply->Attr_0 {
                Ok(attr) => parent_from(attr.ino, directories, name),
                Err(error) => Plan::Done(Err(error_status(error))),
            },
    )
}

/// Resolving directories from one that is found already.
pub open spec fn parent_from(ino: u64, directories: Seq<Seq<char>>, name: Seq<char>) -> ParentPlan
    decreases directories.len(), 1int,
{
    if directories.len() == 0 {
        Plan::Done(Ok((ino, name)))
    } else {
        parent_below(ino, directories[0], directories.skip(1), name)
    }
}

/// Resolving a component, which has to be a directory, and then the directories behind it.
pub open spec fn parent_below(
    parent: u64,
    directory: Seq<char>,
    rest: Seq<Seq<char>>,
    name: Seq<char>,
) -> ParentPlan
    decreases rest.len() + 1, 0int,
{
    Plan::Ask(
        Request::FindByName { parent, name: directory },
        |reply: Answer|
            match reply->Found_0 {
                Ok(Some(attr)) => if attr.kind == FileType::Directory {
                    parent_from(attr.ino, rest, name)
                } else {
                    Plan::Done(Err(STATUS_NOT_A_DIRECTORY))
                },
                Ok(None) => Plan::Done(Err(STATUS_OBJECT_NAME_NOT_FOUND)),
                Err(error) => Plan::Done(Err(error_status(error))),
            },
    )
}

/// The resolving of the directory in which a name stands, under way.
pub enum ParentWalk {
    Root { rest: Vec<String>, name: String },
    Below { rest: Vec<String>, name: String, asked: Ghost<(u64, Seq<char>)> },
}

/// The directory in which a name stands, and the name.
pub open spec fn parent_outcome(output: Result<(u64, String), NTSTATUS>) -> Result<
    (u64, Seq<char>),
    NTSTATUS,
> {
    match output {
        Ok((parent, name)) => Ok((parent, name@)),
        Err(status) => Err(status),
    }
}

impl ParentWalk {
    /// Begins to resolve the directory in which the last component stands.
    pub fn start(names: Vec<String>) -> (step: Step<ParentWalk, Result<(u64, String), NTSTATUS>>)
        ensures
            follows(step, parent_plan(texts(names@))),
    {
        let mut rest = names;
        match rest.pop() {
            Some(name) => {
                assert(texts(rest@) == texts(names@).drop_last());
                Step::Ask {
                    request: Request::GetAttr { ino: ROOT_INODE },
                    next: ParentWalk::Root { rest, name },
                }
            },
            None => Step::Done(Err(STATUS_INVALID_PARAMETER)),
        }
    }
}

impl Operation for ParentWalk {
    type Output = Result<(u64, String), NTSTATUS>;

    type Outcome = Result<(u64, Seq<char>), NTSTATUS>;

    open spec fn outcome(output: Self::Output) -> Self::Outcome {
        parent_outcome(output)
    }

    open spec fn plan(&self) -> ParentPlan {
        match *self {
            ParentWalk::Root { rest, name } => parent_root(texts(rest@), name@),
            ParentWalk::Below { rest, name, asked } => parent_below(
                asked@.0,
                asked@.1,
                texts(rest@),
                name@,
            ),
        }
    }

    fn resume(self, reply: StoreReply) -> (step: Step<Self, Self::Output>) {
        let (found, rest, name) = match (self, reply) {
            (ParentWalk::Root { rest, name }, Reply::Attr(Ok(attr))) => (Ok(attr.ino), rest, name),
            (ParentWalk::Root { rest, name }, Reply::Attr(Err(error))) => (Err(error), rest, name),
            (ParentWalk::Below { rest, name, .. }, Reply::Found(Ok(Some(attr)))) => {
                if attr.kind == FileType::Directory {
                    (Ok(attr.ino), rest, name)
                } else {
                    (Err(FsError::InvalidInodeType), rest, name)
                }
            },
            (ParentWalk::Below { rest, name, .. }, Reply::Found(Ok(None))) => (
                Err(FsError::NotFound("parent path component not found")),
                rest,
                name,
            ),
            (ParentWalk::Below { rest, name, .. }, Reply::Found(Err(error))) => (
                Err(error),
                rest,
                name,
            ),
            _ => unreached(),
        };
        let ino: u64 = match found {
            Ok(ino) => ino,
            Err(error) => return Step::Done(Err(fs_error_to_status(error))),
        };
        if rest.len() == 0 {
            return Step::Done(Ok((ino, name)));
        }
        let mut rest = rest;
        let ghost directories = texts(rest@);
        let directory = rest.remove(0);
        let asked: Ghost<(u64, Seq<char>)> = Ghost((ino, directory@));
        assert(texts(rest@) == directories.skip(1));
        Step::Ask {
            request: Request::FindByName { parent: ino, name: directory },
            next: ParentWalk::Below { rest, name, asked },
        }
    }
}

/// Going on from a file that was found.
pub open spec fn onward(names: Seq<Seq<char>>) -> spec_fn(Result<FileAttr, NTSTATUS>) -> PathPlan {
    |found: Result<FileAttr, NTSTATUS>|
        match found {
            Ok(attr) => path_from(attr, names),
            Err(status) => Plan::Done(Err(status)),
        }
}

/// Resolving a path is resolving a beginning of it and going on from there.
pub proof fn lemma_resolve_in_parts(names: Seq<Seq<char>>, more: Seq<Seq<char>>)
    ensures
        path_plan(names + more) == path_plan(names).bind(onward(more)),
{
    reveal_with_fuel(Plan::bind, 2);
    let whole = path_plan(names + more)->Ask_1;
    let parts = path_plan(names).bind(onward(more))->Ask_1;
    assert forall|reply: Answer| #[trigger] whole(reply) == parts(reply) by {
        match reply->Attr_0 {
            Ok(attr) => lemma_resolve_in_parts_from(attr, names, more),
            Err(_) => {},
        }
    }
    assert(whole =~= parts);
}

proof fn lemma_resolve_in_parts_from(
    attr: FileAttr,
    names: Seq<Seq<char>>,
    more: Seq<Seq<char>>,
)
    ensures
        path_from(attr, names + more) == path_from(attr, names).bind(onward(more)),
    decreases names.len(),
{
    reveal_with_fuel(Plan::bind, 2);
    reveal_with_fuel(path_from, 2);
    reveal_with_fuel(path_below, 2);
    if names.len() == 0 {
        assert(names + more == more);
    } else if attr.kind == FileType::Directory {
        assert((names + more).skip(1) == names.skip(1) + more);
        let whole = path_from(attr, names + more)->Ask_1;
        let parts = path_from(attr, names).bind(onward(more))->Ask_1;
        assert forall|reply: Answer| #[trigger] whole(reply) == parts(reply) by {
            match reply->Found_0 {
                Ok(Some(attr)) => lemma_resolve_in_parts_from(attr, names.skip(1), more),
                _ => {},
            }
        }
        assert(whole =~= parts);
    }
}

/// What a lookup in a directory comes to.
pub open spec fn lookup(reply: Answer) -> Result<FileAttr, NTSTATUS> {
    match reply->Found_0 {
        Ok(Some(attr)) => Ok(attr),
        Ok(None) => Err(STATUS_OBJECT_NAME_NOT_FOUND),
        Err(error) => Err(error_status(error)),
    }
}

/// The file that a path names is the one that has the last component as its name in the
/// directory in which that component stands, and a path fails as that directory or the name
/// in it does. The root has to be a directory.
pub proof fn lemma_path_is_name_in_parent(names: Seq<Seq<char>>, store: spec_fn(Asked) -> Answer)
    requires
        names.len() > 0,
        store(Request::GetAttr { ino: ROOT_INODE })->Attr_0 matches Ok(root) ==> root.kind
            == FileType::Directory,
    ensures
        path_plan(names).run(store) == match parent_plan(names).run(store) {
            Some(Ok((parent, name))) => Some(
                lookup(store(Request::FindByName { parent, name })),
            ),
            Some(Err(status)) => Some(Err(status)),
            None => None,
        },
{
    match store(Request::GetAttr { ino: ROOT_INODE })->Attr_0 {
        Ok(root) => lemma_name_in_parent_from(root, names, store),
        Err(_) => {},
    }
    reveal_with_fuel(Plan::run, 3);
}

proof fn lemma_name_in_parent_from(
    attr: FileAttr,
    names: Seq<Seq<char>>,
    store: spec_fn(Asked) -> Answer,
)
    requires
        names.len() > 0,
        attr.kind == FileType::Directory,
    ensures
        path_from(attr, names).run(store) == match parent_from(
            attr.ino,
            names.drop_last(),
            names.last(),
        ).run(store) {
            Some(Ok((parent, name))) => Some(
                lookup(store(Request::FindByName { parent, name })),
            ),
            Some(Err(status)) => Some(Err(status)),
            None => None,
        },
    decreases names.len(),
{
    reveal_with_fuel(Plan::run, 3);
    reveal_with_fuel(path_from, 2);
    reveal_with_fuel(path_below, 2);
    reveal_with_fuel(parent_from, 2);
    reveal_with_fuel(parent_below, 2);
    let rest = names.skip(1);
    if names.len() == 1 {
        assert(names[0] == names.last());
    } else {
        assert(names.drop_last().skip(1) == rest.drop_last());
        assert(rest.last() == names.last());
        match store(Request::FindByName { parent: attr.ino, name: names[0] })->Found_0 {
            Ok(Some(found)) => {
                if found.kind == FileType::Directory {
                    lemma_name_in_parent_from(found, rest, store);
                }
            },
            _ => {},
        }
    }
}

/// Resolving a path asks for nothing but attributes and names.
pub proof fn lemma_path_asks_only(names: Seq<Seq<char>>, allowed: spec_fn(Asked) -> bool)
    requires
        forall|request: Asked|
            request is GetAttr || request is FindByName ==> #[trigger] allowed(request),
    ensures
        path_plan(names).asks_only(allowed),
{
    let next = path_plan(names)->Ask_1;
    assert forall|reply: Answer| (#[trigger] next(reply)).asks_only(allowed) by {
        match reply->Attr_0 {
            Ok(attr) => lemma_path_from_asks_only(attr, names, allowed),
            Err(_) => {},
        }
    }
}

proof fn lemma_path_from_asks_only(
    attr: FileAttr,
    names: Seq<Seq<char>>,
    allowed: spec_fn(Asked) -> bool,
)
    requires
        forall|request: Asked|
            request is GetAttr || request is FindByName ==> #[trigger] allowed(request),
    ensures
        path_from(attr, names).asks_only(allowed),
    decreases names.len(),
{
    if names.len() > 0 && attr.kind == FileType::Directory {
        let next = path_from(attr, names)->Ask_1;
        assert forall|reply: Answer| (#[trigger] next(reply)).asks_only(allowed) by {
            match reply->Found_0 {
                Ok(Some(attr)) => lemma_path_from_asks_only(attr, names.skip(1), allowed),
                _ => {},
            }
        }
    }
}

/// Resolving the directory in which a name stands asks for nothing but attributes and names.
pub proof fn lemma_parent_asks_only(names: Seq<Seq<char>>, allowed: spec_fn(Asked) -> bool)
    requires
        forall|request: Asked|
            request is GetAttr || request is FindByName ==> #[trigger] allowed(request),
    ensures
        parent_plan(names).asks_only(allowed),
{
    if names.len() > 0 {
        let next = parent_plan(names)->Ask_1;
        assert forall|reply: Answer| (#[trigger] next(reply)).asks_only(allowed) by {
            match reply->Attr_0 {
                Ok(attr) => lemma_parent_from_asks_only(
                    attr.ino,
                    names.drop_last(),
                    names.last(),
                    allowed,
                ),
                Err(_) => {},
            }
        }
    }
}

proof fn lemma_parent_from_asks_only(
    ino: u64,
    directories: Seq<Seq<char>>,
    name: Seq<char>,
    allowed: spec_fn(Asked) -> bool,
)
    requires
        forall|request: Asked|
            request is GetAttr || request is FindByName ==> #[trigger] allowed(request),
    ensures
        parent_from(ino, directories, name).asks_only(allowed),
    decreases directories.len(),
{
    if directories.len() > 0 {
        let next = parent_from(ino, directories, name)->Ask_1;
        assert forall|reply: Answer| (#[trigger] next(reply)).asks_only(allowed) by {
            match reply->Found_0 {
                Ok(Some(attr)) => lemma_parent_from_asks_only(
                    attr.ino,
                    directories.skip(1),
                    name,
                    allowed,
                ),
                _ => {},
            }
        }
    }
}

} // verus!
