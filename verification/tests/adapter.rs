use rencfs_winfsp::adapter::{WindowsFs, VOLUME_SIZE};
use rencfs_winfsp::attr::{FileAttr, FileType, SetFileAttr};
use rencfs_winfsp::change::BasicTimes;
use rencfs_winfsp::context::{OpenFile, WindowsFileContext};
use rencfs_winfsp::filetime::{
    filetime_from_system_time, system_time_from_filetime, LAST_TICK, WINDOWS_EPOCH_OFFSET,
};
use rencfs_winfsp::flags::{
    CleanupFlags, CreateOptions, FileAccessRights, FileAttributes, CLEANUP_DELETE,
    FILE_ATTRIBUTE_ARCHIVE, FILE_ATTRIBUTE_DIRECTORY, FILE_DIRECTORY_FILE, FILE_GENERIC_READ,
    FILE_GENERIC_WRITE, FILE_NON_DIRECTORY_FILE, FILE_WRITE_ATTRIBUTES, FILE_WRITE_DATA,
};
use rencfs_winfsp::io::WriteMode;
use rencfs_winfsp::open::CreateFileInfo;
use rencfs_winfsp::protocol::{DirEntry, Operation, Reply, Request, Step, StoreReply, StoreRequest};
use rencfs_winfsp::resolve::ROOT_INODE;
use rencfs_winfsp::status::{
    FsError, STATUS_ACCESS_DENIED, STATUS_DIRECTORY_NOT_EMPTY, STATUS_END_OF_FILE,
    STATUS_FILE_IS_A_DIRECTORY, STATUS_INVALID_HANDLE, STATUS_INVALID_PARAMETER,
    STATUS_MEDIA_WRITE_PROTECTED, STATUS_NOT_A_DIRECTORY, STATUS_OBJECT_NAME_COLLISION,
    STATUS_OBJECT_NAME_NOT_FOUND, STATUS_UNEXPECTED_IO_ERROR,
};
use std::collections::BTreeMap;
use std::time::{Duration, SystemTime, UNIX_EPOCH};
use widestring::U16CString;

const DELETE: u32 = 0x1_0000;
const FILE_LIST_DIRECTORY: u32 = 0x1;

struct Node {
    attr: FileAttr,
    data: Vec<u8>,
    children: BTreeMap<String, u64>,
}

/// A store in memory. It changes the size of a closed file only.
struct Store {
    nodes: BTreeMap<u64, Node>,
    handles: BTreeMap<u64, (u64, bool, bool)>,
    next: u64,
    log: Vec<String>,
    texts: Vec<String>,
    failing: Option<&'static str>,
}

fn attr(ino: u64, kind: FileType) -> FileAttr {
    FileAttr {
        ino,
        size: 0,
        atime: UNIX_EPOCH,
        mtime: UNIX_EPOCH,
        ctime: UNIX_EPOCH,
        crtime: UNIX_EPOCH,
        kind,
        nlink: 1,
    }
}

impl Store {
    fn new() -> Store {
        let root = Node {
            attr: attr(ROOT_INODE, FileType::Directory),
            data: Vec::new(),
            children: BTreeMap::new(),
        };
        Store {
            nodes: BTreeMap::from([(ROOT_INODE, root)]),
            handles: BTreeMap::new(),
            next: 100,
            log: Vec::new(),
            texts: Vec::new(),
            failing: None,
        }
    }

    fn fresh(&mut self) -> u64 {
        self.next += 1;
        self.next
    }

    fn get_attr(&self, ino: u64) -> Result<FileAttr, FsError> {
        self.nodes.get(&ino).map(|node| node.attr).ok_or(FsError::InodeNotFound)
    }

    fn find(&self, parent: u64, name: &str) -> Result<Option<FileAttr>, FsError> {
        let node = self.nodes.get(&parent).ok_or(FsError::InodeNotFound)?;
        match node.children.get(name) {
            Some(ino) => self.get_attr(*ino).map(Some),
            None => Ok(None),
        }
    }

    fn open(&mut self, ino: u64, read: bool, write: bool) -> Result<u64, FsError> {
        if !read && !write {
            return Err(FsError::InvalidInput("no mode"));
        }
        if write && self.handles.values().any(|open| open.0 == ino && open.2) {
            return Err(FsError::AlreadyOpenForWrite);
        }
        let handle = self.fresh();
        self.handles.insert(handle, (ino, read, write));
        Ok(handle)
    }

    fn remove(&mut self, parent: u64, name: &str, kind: FileType) -> Result<(), FsError> {
        let found = self.find(parent, name)?.ok_or(FsError::NotFound("name"))?;
        if found.kind != kind {
            return Err(FsError::InvalidInodeType);
        }
        if !self.nodes[&found.ino].children.is_empty() {
            return Err(FsError::NotEmpty);
        }
        self.nodes.get_mut(&parent).unwrap().children.remove(name);
        self.nodes.remove(&found.ino);
        Ok(())
    }
}

/// A store, an open file, and the buffers of Windows.
struct World {
    store: Store,
    handle: Option<u64>,
    entries: Option<Vec<DirEntry<String>>>,
    read_buffer: Vec<u8>,
    write_buffer: Vec<u8>,
    offered: Vec<String>,
    room: usize,
    broken_lock: bool,
}

impl World {
    fn new() -> World {
        World {
            store: Store::new(),
            handle: None,
            entries: None,
            read_buffer: Vec::new(),
            write_buffer: Vec::new(),
            offered: Vec::new(),
            room: usize::MAX,
            broken_lock: false,
        }
    }

    fn fails(&self, request: &str) -> bool {
        self.store.failing == Some(request)
    }

    fn answer(&mut self, request: StoreRequest) -> StoreReply {
        let text = format!("{request:?}");
        let kind = text.split([' ', '{']).next().unwrap().to_string();
        self.store.log.push(kind.clone());
        self.store.texts.push(text);
        let failed = self.fails(&kind);
        match request {
            Request::GetAttr { .. } if failed => Reply::Attr(Err(FsError::Io)),
            Request::GetAttr { ino } => Reply::Attr(self.store.get_attr(ino)),
            Request::FindByName { .. } if failed => Reply::Found(Err(FsError::Io)),
            Request::FindByName { parent, name } => Reply::Found(self.store.find(parent, &name)),
            Request::Open { .. } if failed => Reply::Handle(Err(FsError::Io)),
            Request::Open { ino, read, write } => Reply::Handle(self.store.open(ino, read, write)),
            Request::Create { .. } if failed => Reply::Created(Err(FsError::ReadOnly)),
            Request::Create { parent, name, attr: wanted, read, write } => {
                assert_eq!((wanted.uid, wanted.gid, wanted.rdev, wanted.flags), (0, 0, 0, 0));
                let is_dir = wanted.kind == FileType::Directory;
                assert_eq!(wanted.perm, if is_dir { 0o755 } else { 0o644 });
                if self.store.find(parent, &name).unwrap().is_some() {
                    return Reply::Created(Err(FsError::AlreadyExists));
                }
                let ino = self.store.fresh();
                let node = Node {
                    attr: attr(ino, wanted.kind),
                    data: Vec::new(),
                    children: BTreeMap::new(),
                };
                self.store.nodes.insert(ino, node);
                self.store.nodes.get_mut(&parent).unwrap().children.insert(name, ino);
                let handle = if is_dir { 0 } else { self.store.open(ino, read, write).unwrap() };
                Reply::Created(self.store.get_attr(ino).map(|attr| (handle, attr)))
            }
            Request::Release { handle } => Reply::Unit(match self.store.handles.remove(&handle) {
                Some(_) if !failed => Ok(()),
                _ => Err(FsError::InvalidFileHandle),
            }),
            Request::SetLen { .. } if failed => Reply::Unit(Err(FsError::MaxFilesizeExceeded(9))),
            Request::SetLen { ino, size } => {
                if self.store.handles.values().any(|open| open.0 == ino) {
                    return Reply::Unit(Err(FsError::AlreadyOpenForWrite));
                }
                let node = self.store.nodes.get_mut(&ino).unwrap();
                node.data.resize(size as usize, 0);
                node.attr.size = size;
                Reply::Unit(Ok(()))
            }
            Request::SetAttr { .. } if failed => Reply::Unit(Err(FsError::Io)),
            Request::SetAttr { ino, update } => {
                let SetFileAttr { crtime, atime, mtime, ctime } = update;
                let node = self.store.nodes.get_mut(&ino).unwrap();
                node.attr.crtime = crtime.unwrap_or(node.attr.crtime);
                node.attr.atime = atime.unwrap_or(node.attr.atime);
                node.attr.mtime = mtime.unwrap_or(node.attr.mtime);
                node.attr.ctime = ctime.unwrap_or(node.attr.ctime);
                Reply::Unit(Ok(()))
            }
            Request::Read { ino, offset, handle } => {
                assert!(self.store.handles[&handle].1);
                let data = &self.store.nodes[&ino].data[offset as usize..];
                let count = data.len().min(self.read_buffer.len());
                self.read_buffer[..count].copy_from_slice(&data[..count]);
                Reply::Count(Ok(count))
            }
            Request::Write { .. } if failed => Reply::Count(Err(FsError::Other("full"))),
            Request::Write { ino, offset, count, handle } => {
                assert!(self.store.handles[&handle].2);
                let node = self.store.nodes.get_mut(&ino).unwrap();
                let end = offset as usize + count;
                if node.data.len() < end {
                    node.data.resize(end, 0);
                }
                node.data[offset as usize..end].copy_from_slice(&self.write_buffer[..count]);
                node.attr.size = node.data.len() as u64;
                Reply::Count(Ok(count))
            }
            Request::Flush { handle } => {
                assert!(self.store.handles.contains_key(&handle));
                Reply::Unit(if failed { Err(FsError::Io) } else { Ok(()) })
            }
            Request::Len { .. } if failed => Reply::Count(Err(FsError::InodeNotFound)),
            Request::Len { ino } => Reply::Count(Ok(self.store.nodes[&ino].children.len())),
            Request::RemoveDir { parent, name } => {
                Reply::Unit(self.store.remove(parent, &name, FileType::Directory))
            }
            Request::RemoveFile { parent, name } => {
                Reply::Unit(self.store.remove(parent, &name, FileType::RegularFile))
            }
            Request::Rename { .. } if failed => Reply::Unit(Err(FsError::Io)),
            Request::Rename { parent, name, new_parent, new_name } => {
                let ino = self.store.nodes.get_mut(&parent).unwrap().children.remove(&name);
                let Some(ino) = ino else {
                    return Reply::Unit(Err(FsError::NotFound("name")));
                };
                let target = self.store.nodes.get_mut(&new_parent).unwrap();
                assert!(target.children.insert(new_name, ino).is_none());
                Reply::Unit(Ok(()))
            }
            Request::ReadDirPlus { .. } if failed => Reply::Listing(Err(FsError::Io)),
            Request::ReadDirPlus { ino } => {
                let children = &self.store.nodes[&ino].children;
                let mut items: Vec<Result<(String, FileAttr), FsError>> = children
                    .iter()
                    .rev()
                    .map(|(name, ino)| Ok((name.clone(), self.store.nodes[ino].attr)))
                    .collect();
                if self.fails("item") {
                    items.push(Err(FsError::InvalidDataDirStructure));
                }
                Reply::Listing(Ok(items))
            }
            Request::PeekHandle if self.broken_lock => Reply::Slot(None),
            Request::PeekHandle => Reply::Slot(Some(self.handle)),
            Request::TakeHandle if self.broken_lock => Reply::Slot(None),
            Request::TakeHandle => Reply::Slot(Some(self.handle.take())),
            Request::StoreHandle { .. } if failed => Reply::Stored(false),
            Request::StoreHandle { handle } => {
                self.handle = Some(handle);
                Reply::Stored(true)
            }
            Request::CachedEntries if self.broken_lock => Reply::Cached(None),
            Request::CachedEntries => Reply::Cached(Some(self.entries.as_ref().map(|entries| {
                entries
                    .iter()
                    .map(|entry| DirEntry { name: entry.name.clone(), info: entry.info })
                    .collect()
            }))),
            Request::StoreEntries { entries } => {
                self.entries = Some(entries);
                Reply::Kept
            }
            Request::ClearEntries if failed => Reply::Stored(false),
            Request::ClearEntries => {
                self.entries = None;
                Reply::Stored(true)
            }
            Request::Offer { entry } => {
                if self.offered.len() == self.room {
                    return Reply::Accepted(false);
                }
                self.offered.push(entry.name);
                Reply::Accepted(true)
            }
        }
    }

    fn run<O: Operation>(&mut self, first: Step<O, O::Output>) -> O::Output {
        let mut step = first;
        loop {
            step = match step {
                Step::Ask { request, next } => next.resume(self.answer(request)),
                Step::Done(output) => return output,
                Step::Overflow => panic!("a number does not fit"),
            };
        }
    }

    /// Turns to another open file.
    fn enter(&mut self, context: WindowsFileContext) -> OpenFile {
        self.handle = context.handle;
        self.entries = context.directory_entries;
        context.file
    }

    fn put(&mut self, parent: u64, name: &str, kind: FileType, data: &[u8]) -> u64 {
        let ino = self.store.fresh();
        let mut attr = attr(ino, kind);
        attr.size = data.len() as u64;
        let node = Node { attr, data: data.to_vec(), children: BTreeMap::new() };
        self.store.nodes.insert(ino, node);
        self.store.nodes.get_mut(&parent).unwrap().children.insert(name.to_string(), ino);
        ino
    }

    fn open_file(&mut self, name: &str, access: u32) -> OpenFile {
        let options = CreateOptions(FILE_NON_DIRECTORY_FILE);
        let step = ADAPTER.open(&wide(name), options, FileAccessRights(access));
        let (context, _) = self.run(step).unwrap();
        self.enter(context)
    }

    fn log(&mut self) -> Vec<String> {
        std::mem::take(&mut self.store.log)
    }
}

const ADAPTER: WindowsFs = WindowsFs { read_only: false };

const READ_ONLY: WindowsFs = WindowsFs { read_only: true };

fn wide(text: &str) -> Vec<u16> {
    U16CString::from_str(text).unwrap().into_vec()
}

fn file_create_info() -> CreateFileInfo {
    CreateFileInfo {
        create_options: CreateOptions(FILE_NON_DIRECTORY_FILE),
        granted_access: FileAccessRights(FILE_GENERIC_READ | FILE_GENERIC_WRITE),
        file_attributes: FileAttributes(FILE_ATTRIBUTE_ARCHIVE),
        // This is a reservation hint, not the logical file length.
        allocation_size: 64 * 1024,
    }
}

#[test]
fn adapter_supports_basic_file_lifecycle_without_mounting_driver() {
    let mut world = World::new();
    let adapter = ADAPTER;
    let original_name = wide(r"\hello.txt");
    let renamed_name = wide(r"\renamed.txt");
    let replacement_name = wide(r"\replacement.txt");
    let root_name = wide(r"\");

    let (context, created) = world
        .run(adapter.create(&original_name, file_create_info()))
        .unwrap();
    let write_file = world.enter(context);
    assert_eq!(created.file_size, 0);

    let initial_payload = b"hello before truncate";
    world.write_buffer = initial_payload.to_vec();
    let (written, written_info) = world
        .run(adapter.write(write_file, initial_payload.len(), WriteMode::Normal { offset: 0 }))
        .unwrap();
    assert_eq!(written, initial_payload.len());
    assert_eq!(written_info.file_size, initial_payload.len() as u64);
    let truncated = world.run(adapter.set_file_size(write_file, 5, false)).unwrap();
    assert_eq!(truncated.file_size, 5);
    let suffix = b" from WinFSP";
    world.write_buffer = suffix.to_vec();
    world.run(adapter.write(write_file, suffix.len(), WriteMode::WriteToEOF)).unwrap();
    world.run(adapter.flush(write_file)).unwrap();
    world.run(adapter.close()).unwrap();

    let payload = b"hello from WinFSP";
    let (context, _) = world
        .run(adapter.open(
            &original_name,
            CreateOptions(FILE_NON_DIRECTORY_FILE),
            FileAccessRights(FILE_GENERIC_READ),
        ))
        .unwrap();
    let read_file = world.enter(context);
    world.read_buffer = vec![0; payload.len()];
    let read = world.run(adapter.read(read_file, 0)).unwrap();
    assert_eq!(read, payload.len());
    assert_eq!(world.read_buffer, payload);

    world.run(adapter.rename(&original_name, &renamed_name, false)).unwrap();
    assert!(world.run(adapter.resolve_path(&original_name)).is_err());
    assert_eq!(
        world.run(adapter.resolve_path(&renamed_name)).unwrap().size,
        payload.len() as u64
    );
    world.run(adapter.close()).unwrap();

    let (context, _) = world
        .run(adapter.open(
            &root_name,
            CreateOptions(FILE_DIRECTORY_FILE),
            FileAccessRights(FILE_LIST_DIRECTORY),
        ))
        .unwrap();
    let root = world.enter(context);
    world.run(adapter.read_directory(root, None)).unwrap();
    assert!(world.offered.iter().any(|name| name == "renamed.txt"));
    world.run(adapter.close()).unwrap();

    let (context, _) = world
        .run(adapter.create(&replacement_name, file_create_info()))
        .unwrap();
    world.enter(context);
    world.run(adapter.close()).unwrap();
    let (context, _) = world
        .run(adapter.open(
            &renamed_name,
            CreateOptions(FILE_NON_DIRECTORY_FILE),
            FileAccessRights(FILE_GENERIC_READ | DELETE),
        ))
        .unwrap();
    world.enter(context);
    world.run(adapter.rename(&renamed_name, &replacement_name, true)).unwrap();
    world.run(adapter.close()).unwrap();
    assert!(world.run(adapter.resolve_path(&renamed_name)).is_err());
    assert_eq!(
        world.run(adapter.resolve_path(&replacement_name)).unwrap().size,
        payload.len() as u64
    );

    let (context, _) = world
        .run(adapter.open(
            &replacement_name,
            CreateOptions(FILE_NON_DIRECTORY_FILE),
            FileAccessRights(FILE_GENERIC_READ | DELETE),
        ))
        .unwrap();
    let delete_file = world.enter(context);
    world.run(adapter.set_delete(delete_file, &replacement_name, true)).unwrap();
    world
        .run(adapter.cleanup(
            delete_file,
            Some(&replacement_name),
            CleanupFlags(CLEANUP_DELETE),
        ))
        .unwrap();
    world.run(adapter.close()).unwrap();
    assert!(world.run(adapter.resolve_path(&replacement_name)).is_err());
    assert!(world.store.handles.is_empty());
}

#[test]
fn volume_is_one_tebibyte_and_empty() {
    let info = ADAPTER.get_volume_info().unwrap();
    assert_eq!(info.total_size, 1_099_511_627_776);
    assert_eq!(info.free_size, VOLUME_SIZE);
    assert_eq!(info.volume_label, "rencfs");
}

#[test]
fn paths_are_resolved_component_by_component() {
    let mut world = World::new();
    let sub = world.put(ROOT_INODE, "sub", FileType::Directory, b"");
    let file = world.put(sub, "file", FileType::RegularFile, b"xyz");
    assert_eq!(world.run(ADAPTER.resolve_path(&wide(r"\"))).unwrap().ino, ROOT_INODE);
    assert_eq!(world.run(ADAPTER.resolve_path(&wide(r"\sub\file"))).unwrap().ino, file);
    assert_eq!(world.run(ADAPTER.resolve_path(&wide("/sub/./file/"))).unwrap().ino, file);
    world.log();
    assert_eq!(
        world.run(ADAPTER.resolve_path(&wide(r"\sub\file\deeper"))).unwrap_err(),
        STATUS_NOT_A_DIRECTORY
    );
    assert_eq!(world.log(), ["GetAttr", "FindByName", "FindByName"]);
    assert_eq!(
        world.run(ADAPTER.resolve_path(&wide(r"\sub\none"))).unwrap_err(),
        STATUS_OBJECT_NAME_NOT_FOUND
    );
    world.store.failing = Some("FindByName");
    assert_eq!(
        world.run(ADAPTER.resolve_path(&wide(r"\sub"))).unwrap_err(),
        STATUS_UNEXPECTED_IO_ERROR
    );
    world.store.failing = Some("GetAttr");
    assert_eq!(
        world.run(ADAPTER.resolve_path(&wide(r"\sub"))).unwrap_err(),
        STATUS_UNEXPECTED_IO_ERROR
    );
}

#[test]
fn parents_are_resolved_to_the_last_component() {
    let mut world = World::new();
    let sub = world.put(ROOT_INODE, "sub", FileType::Directory, b"");
    world.put(sub, "file", FileType::RegularFile, b"");
    assert_eq!(
        world.run(ADAPTER.resolve_parent(&wide(r"\sub\new"))).unwrap(),
        (sub, "new".to_string())
    );
    assert_eq!(
        world.run(ADAPTER.resolve_parent(&wide(r"\new"))).unwrap(),
        (ROOT_INODE, "new".to_string())
    );
    assert_eq!(
        world.run(ADAPTER.resolve_parent(&wide(r"\"))).unwrap_err(),
        STATUS_INVALID_PARAMETER
    );
    assert_eq!(
        world.run(ADAPTER.resolve_parent(&wide(r"\sub\file\new"))).unwrap_err(),
        STATUS_NOT_A_DIRECTORY
    );
    assert_eq!(
        world.run(ADAPTER.resolve_parent(&wide(r"\none\new"))).unwrap_err(),
        STATUS_OBJECT_NAME_NOT_FOUND
    );
    world.store.failing = Some("GetAttr");
    assert_eq!(
        world.run(ADAPTER.resolve_parent(&wide(r"\new"))).unwrap_err(),
        STATUS_UNEXPECTED_IO_ERROR
    );
}

#[test]
fn path_names_what_its_last_component_names_in_the_parent() {
    let mut world = World::new();
    let sub = world.put(ROOT_INODE, "sub", FileType::Directory, b"");
    world.put(sub, "file", FileType::RegularFile, b"xyz");
    let path = wide(r"\sub\file");
    let (parent, name) = world.run(ADAPTER.resolve_parent(&path)).unwrap();
    let found = world.store.find(parent, &name).unwrap().unwrap();
    assert_eq!(world.run(ADAPTER.resolve_path(&path)).unwrap().ino, found.ino);
}

#[test]
fn attribute_bits_tell_directories_from_files() {
    let mut world = World::new();
    world.put(ROOT_INODE, "file", FileType::RegularFile, b"");
    assert_eq!(
        world.run(ADAPTER.get_security_by_name(&wide(r"\"))).unwrap(),
        (FileAttributes(FILE_ATTRIBUTE_DIRECTORY), false)
    );
    assert_eq!(
        world.run(ADAPTER.get_security_by_name(&wide(r"\file"))).unwrap(),
        (FileAttributes(FILE_ATTRIBUTE_ARCHIVE), false)
    );
    assert_eq!(
        world.run(ADAPTER.get_security_by_name(&wide(r"\none"))).unwrap_err(),
        STATUS_OBJECT_NAME_NOT_FOUND
    );
}

#[test]
fn created_directories_have_no_handle() {
    let mut world = World::new();
    let mut info = file_create_info();
    info.create_options = CreateOptions(FILE_DIRECTORY_FILE);
    let (context, told) = world.run(ADAPTER.create(&wide(r"\dir"), info)).unwrap();
    assert_eq!(context.handle, None);
    assert!(context.file.is_dir && !context.file.read && !context.file.write);
    assert_eq!(told.file_attributes, FileAttributes(FILE_ATTRIBUTE_DIRECTORY));
    assert_eq!(told.index_number, context.file.ino);
    assert_eq!(
        world.run(ADAPTER.create(&wide(r"\dir"), info)).unwrap_err(),
        STATUS_OBJECT_NAME_COLLISION
    );
    world.store.failing = Some("Create");
    assert_eq!(
        world.run(ADAPTER.create(&wide(r"\other"), info)).unwrap_err(),
        STATUS_MEDIA_WRITE_PROTECTED
    );
    assert_eq!(
        world.run(ADAPTER.create(&wide(r"\none\other"), info)).unwrap_err(),
        STATUS_OBJECT_NAME_NOT_FOUND
    );
    assert_eq!(
        world.run(ADAPTER.create(&wide(r"\"), info)).unwrap_err(),
        STATUS_INVALID_PARAMETER
    );
}

#[test]
fn created_files_are_open_as_granted() {
    let mut world = World::new();
    let mut info = file_create_info();
    info.granted_access = FileAccessRights(FILE_WRITE_DATA);
    let (context, told) = world.run(ADAPTER.create(&wide(r"\file"), info)).unwrap();
    assert!(!context.file.is_dir && !context.file.read && context.file.write);
    assert!(context.handle.is_some());
    assert!(context.directory_entries.is_none());
    assert_eq!(told.allocation_size, 0);
    assert_eq!(world.log(), ["GetAttr", "Create"]);
}

#[test]
fn opening_keeps_to_the_kind_that_is_wanted() {
    let mut world = World::new();
    let file = world.put(ROOT_INODE, "file", FileType::RegularFile, b"abc");
    let read = FileAccessRights(FILE_GENERIC_READ);
    let directory = CreateOptions(FILE_DIRECTORY_FILE);
    let no_directory = CreateOptions(FILE_NON_DIRECTORY_FILE);
    assert_eq!(
        world.run(ADAPTER.open(&wide(r"\file"), directory, read)).unwrap_err(),
        STATUS_NOT_A_DIRECTORY
    );
    assert_eq!(
        world.run(ADAPTER.open(&wide(r"\"), no_directory, read)).unwrap_err(),
        STATUS_FILE_IS_A_DIRECTORY
    );
    world.log();
    let (context, told) = world.run(ADAPTER.open(&wide(r"\"), CreateOptions(0), read)).unwrap();
    assert_eq!(world.log(), ["GetAttr"]);
    assert_eq!(context.handle, None);
    assert!(context.file.is_dir && !context.file.read && !context.file.write);
    assert_eq!(told.index_number, ROOT_INODE);
    let none = FileAccessRights(0);
    let (context, told) = world.run(ADAPTER.open(&wide(r"\file"), no_directory, none)).unwrap();
    assert!(context.file.read && !context.file.write && !context.file.is_dir);
    assert_eq!((told.index_number, told.file_size, told.allocation_size), (file, 3, 4096));
    world.store.failing = Some("Open");
    assert_eq!(
        world.run(ADAPTER.open(&wide(r"\file"), no_directory, read)).unwrap_err(),
        STATUS_UNEXPECTED_IO_ERROR
    );
    assert_eq!(
        world.run(ADAPTER.open(&wide(r"\none"), no_directory, read)).unwrap_err(),
        STATUS_OBJECT_NAME_NOT_FOUND
    );
}

#[test]
fn files_that_are_open_for_their_attributes_serve_a_cached_read() {
    let mut world = World::new();
    world.put(ROOT_INODE, "file", FileType::RegularFile, b"abc");
    let file = world.open_file(r"\file", FILE_WRITE_ATTRIBUTES);
    assert!(file.read && !file.write);
    world.read_buffer = vec![0; 3];
    assert_eq!(world.run(ADAPTER.read(file, 0)).unwrap(), 3);
    assert_eq!(world.read_buffer, b"abc");
}

#[test]
fn overwriting_empties_a_file() {
    let mut world = World::new();
    world.put(ROOT_INODE, "file", FileType::RegularFile, b"abc");
    let file = world.open_file(r"\file", FILE_GENERIC_WRITE);
    let old_handle = world.handle;
    world.log();
    let info = world.run(ADAPTER.overwrite(file, FileAttributes(0), true, 77)).unwrap();
    assert_eq!(info.file_size, 0);
    assert_eq!(
        world.log(),
        ["TakeHandle", "Release", "SetLen", "Open", "StoreHandle", "GetAttr"]
    );
    assert!(world.handle.is_some() && world.handle != old_handle);
    let root = OpenFile { ino: ROOT_INODE, is_dir: true, read: false, write: false };
    assert_eq!(
        world.run(ADAPTER.overwrite(root, FileAttributes(0), true, 77)).unwrap_err(),
        STATUS_FILE_IS_A_DIRECTORY
    );
}

#[test]
fn failed_resizing_leaves_the_file_closed() {
    for (failing, status) in [
        ("Release", STATUS_INVALID_HANDLE),
        ("SetLen", rencfs_winfsp::status::STATUS_DISK_FULL),
        ("Open", STATUS_UNEXPECTED_IO_ERROR),
        ("StoreHandle", STATUS_INVALID_HANDLE),
    ] {
        let mut world = World::new();
        world.put(ROOT_INODE, "file", FileType::RegularFile, b"abc");
        let file = world.open_file(r"\file", FILE_GENERIC_WRITE);
        world.store.failing = Some(failing);
        assert_eq!(world.run(ADAPTER.resize_context(file, 9)).unwrap_err(), status);
        assert_eq!(world.handle, None);
        world.store.failing = None;
        world.log();
        world.run(ADAPTER.close()).unwrap();
        assert_eq!(world.log(), ["TakeHandle"]);
        world.read_buffer = vec![0; 3];
        assert_eq!(world.run(ADAPTER.flush(file)).unwrap_err(), STATUS_INVALID_HANDLE);
    }
}

#[test]
fn cleanup_deletes_only_when_asked() {
    let mut world = World::new();
    world.put(ROOT_INODE, "file", FileType::RegularFile, b"abc");
    let dir = world.put(ROOT_INODE, "dir", FileType::Directory, b"");
    let file = world.open_file(r"\file", FILE_GENERIC_READ);
    world.log();
    let name = wide(r"\file");
    world.run(ADAPTER.cleanup(file, Some(&name), CleanupFlags(0))).unwrap();
    world.run(ADAPTER.cleanup(file, None, CleanupFlags(CLEANUP_DELETE))).unwrap();
    world.run(READ_ONLY.cleanup(file, Some(&name), CleanupFlags(CLEANUP_DELETE))).unwrap();
    assert!(world.log().is_empty());
    world.run(ADAPTER.cleanup(file, Some(&name), CleanupFlags(CLEANUP_DELETE))).unwrap();
    assert_eq!(world.log(), ["TakeHandle", "Release", "GetAttr", "RemoveFile"]);
    world.put(dir, "child", FileType::RegularFile, b"");
    let directory = OpenFile { ino: dir, is_dir: true, read: false, write: false };
    assert_eq!(
        world.run(ADAPTER.delete_by_name(directory, &wide(r"\dir"))).unwrap_err(),
        STATUS_DIRECTORY_NOT_EMPTY
    );
    assert_eq!(world.log(), ["TakeHandle", "GetAttr", "RemoveDir"]);
    assert_eq!(
        world.run(ADAPTER.delete_by_name(directory, &wide(r"\"))).unwrap_err(),
        STATUS_INVALID_PARAMETER
    );
    world.broken_lock = true;
    assert_eq!(
        world.run(ADAPTER.delete_by_name(directory, &wide(r"\dir"))).unwrap_err(),
        STATUS_INVALID_HANDLE
    );
}

#[test]
fn reading_stops_at_the_end_of_the_file() {
    let mut world = World::new();
    world.put(ROOT_INODE, "file", FileType::RegularFile, b"abcdef");
    let file = world.open_file(r"\file", FILE_GENERIC_READ);
    world.read_buffer = vec![0; 4];
    assert_eq!(world.run(ADAPTER.read(file, 4)).unwrap(), 2);
    assert_eq!(world.read_buffer, b"ef\0\0");
    world.log();
    assert_eq!(world.run(ADAPTER.read(file, 6)).unwrap_err(), STATUS_END_OF_FILE);
    assert_eq!(world.log(), ["GetAttr"]);
    assert_eq!(world.run(ADAPTER.read(file, u64::MAX)).unwrap_err(), STATUS_END_OF_FILE);
    world.run(ADAPTER.close()).unwrap();
    assert_eq!(world.run(ADAPTER.read(file, 0)).unwrap_err(), STATUS_INVALID_HANDLE);
    let root = OpenFile { ino: ROOT_INODE, is_dir: true, read: false, write: false };
    assert_eq!(world.run(ADAPTER.read(root, 0)).unwrap_err(), STATUS_FILE_IS_A_DIRECTORY);
    world.store.failing = Some("GetAttr");
    assert_eq!(world.run(ADAPTER.read(file, 0)).unwrap_err(), STATUS_UNEXPECTED_IO_ERROR);
}

#[test]
fn what_is_written_is_read_back() {
    let mut world = World::new();
    world.put(ROOT_INODE, "file", FileType::RegularFile, b"abcdef");
    let file = world.open_file(r"\file", FILE_GENERIC_READ | FILE_GENERIC_WRITE);
    world.write_buffer = b"123".to_vec();
    world.run(ADAPTER.write(file, 3, WriteMode::Normal { offset: 8 })).unwrap();
    world.read_buffer = vec![7; 11];
    assert_eq!(world.run(ADAPTER.read(file, 0)).unwrap(), 11);
    assert_eq!(world.read_buffer, b"abcdef\0\x00123");
}

#[test]
fn constrained_writes_stay_within_the_file() {
    let mut world = World::new();
    world.put(ROOT_INODE, "file", FileType::RegularFile, b"abcdef");
    let file = world.open_file(r"\file", FILE_GENERIC_READ | FILE_GENERIC_WRITE);
    world.write_buffer = b"12345678".to_vec();
    let (written, info) = world
        .run(ADAPTER.write(file, 8, WriteMode::ConstrainedIO { offset: 4 }))
        .unwrap();
    assert_eq!((written, info.file_size), (2, 6));
    world.log();
    let (written, info) = world
        .run(ADAPTER.write(file, 8, WriteMode::ConstrainedIO { offset: 6 }))
        .unwrap();
    assert_eq!((written, info.file_size), (0, 6));
    assert_eq!(world.log(), ["PeekHandle", "GetAttr"]);
    assert_eq!(WriteMode::ConstrainedIO { offset: 4 }.place(6, 1), Some((4, 1)));
    assert_eq!(WriteMode::WriteToEOF.place(6, 8), Some((6, 8)));
    assert_eq!(WriteMode::Normal { offset: 2 }.place(6, 8), Some((2, 8)));
    assert_eq!(world.store.nodes[&file.ino].data, b"abcd12");
}

#[test]
fn failed_writes_are_reported() {
    let mut world = World::new();
    world.put(ROOT_INODE, "file", FileType::RegularFile, b"abcdef");
    let file = world.open_file(r"\file", FILE_GENERIC_WRITE);
    world.write_buffer = b"1".to_vec();
    let mode = WriteMode::Normal { offset: 0 };
    world.store.failing = Some("Write");
    assert_eq!(
        world.run(ADAPTER.write(file, 1, mode)).unwrap_err(),
        STATUS_UNEXPECTED_IO_ERROR
    );
    world.store.failing = Some("GetAttr");
    assert_eq!(
        world.run(ADAPTER.write(file, 1, mode)).unwrap_err(),
        STATUS_UNEXPECTED_IO_ERROR
    );
    world.broken_lock = true;
    assert_eq!(world.run(ADAPTER.write(file, 1, mode)).unwrap_err(), STATUS_INVALID_HANDLE);
    let root = OpenFile { ino: ROOT_INODE, is_dir: true, read: false, write: false };
    assert_eq!(world.run(ADAPTER.write(root, 1, mode)).unwrap_err(), STATUS_FILE_IS_A_DIRECTORY);
}

#[test]
fn second_writer_is_denied() {
    let mut world = World::new();
    world.put(ROOT_INODE, "file", FileType::RegularFile, b"");
    world.open_file(r"\file", FILE_GENERIC_WRITE);
    let options = CreateOptions(0);
    let access = FileAccessRights(FILE_GENERIC_WRITE);
    assert_eq!(
        world.run(ADAPTER.open(&wide(r"\file"), options, access)).unwrap_err(),
        STATUS_ACCESS_DENIED
    );
}

#[test]
fn flushing_needs_a_handle_only_where_there_is_something_to_flush() {
    let mut world = World::new();
    world.put(ROOT_INODE, "file", FileType::RegularFile, b"abc");
    let file = world.open_file(r"\file", FILE_GENERIC_WRITE);
    world.log();
    assert_eq!(world.run(ADAPTER.flush(file)).unwrap().file_size, 3);
    assert_eq!(world.log(), ["PeekHandle", "Flush", "GetAttr"]);
    assert_eq!(world.run(READ_ONLY.flush(file)).unwrap().file_size, 3);
    assert_eq!(world.log(), ["GetAttr"]);
    let root = OpenFile { ino: ROOT_INODE, is_dir: true, read: false, write: false };
    assert_eq!(world.run(ADAPTER.flush(root)).unwrap().index_number, ROOT_INODE);
    assert_eq!(world.log(), ["GetAttr"]);
    world.store.failing = Some("Flush");
    assert_eq!(world.run(ADAPTER.flush(file)).unwrap_err(), STATUS_UNEXPECTED_IO_ERROR);
}

#[test]
fn file_info_is_what_the_store_says() {
    let mut world = World::new();
    let ino = world.put(ROOT_INODE, "file", FileType::RegularFile, &[1; 5000]);
    let file = OpenFile { ino, is_dir: false, read: true, write: false };
    let info = world.run(ADAPTER.get_file_info(file)).unwrap();
    assert_eq!((info.file_size, info.allocation_size, info.hard_links), (5000, 8192, 1));
    assert_eq!(info.creation_time, WINDOWS_EPOCH_OFFSET);
    world.store.failing = Some("GetAttr");
    assert_eq!(world.run(ADAPTER.get_file_info(file)).unwrap_err(), STATUS_UNEXPECTED_IO_ERROR);
}

#[test]
fn times_that_are_set_are_reported_and_zero_keeps_a_time() {
    let mut world = World::new();
    let ino = world.put(ROOT_INODE, "file", FileType::RegularFile, b"");
    let file = OpenFile { ino, is_dir: false, read: true, write: false };
    let kept = UNIX_EPOCH + Duration::new(5, 700);
    world.store.nodes.get_mut(&ino).unwrap().attr.mtime = kept;
    let times = BasicTimes {
        creation_time: WINDOWS_EPOCH_OFFSET + 12_345_678,
        last_access_time: 5,
        last_write_time: 0,
        change_time: WINDOWS_EPOCH_OFFSET + 1,
    };
    let info = world.run(ADAPTER.set_basic_info(file, FileAttributes(0), times)).unwrap();
    assert_eq!(info.creation_time, WINDOWS_EPOCH_OFFSET + 12_345_678);
    assert_eq!(info.last_access_time, WINDOWS_EPOCH_OFFSET);
    assert_eq!(info.last_write_time, WINDOWS_EPOCH_OFFSET + 50_000_007);
    assert_eq!(info.change_time, WINDOWS_EPOCH_OFFSET + 1);
    assert_eq!(world.store.nodes[&ino].attr.mtime, kept);
    assert_eq!(world.log(), ["SetAttr", "GetAttr"]);
    world.store.failing = Some("SetAttr");
    assert_eq!(
        world.run(ADAPTER.set_basic_info(file, FileAttributes(0), times)).unwrap_err(),
        STATUS_UNEXPECTED_IO_ERROR
    );
    let update = times.to_update();
    assert_eq!(update.mtime, None);
    assert_eq!(update.ctime, Some(UNIX_EPOCH + Duration::new(0, 100)));
    assert_eq!(update.atime, Some(UNIX_EPOCH));
}

#[test]
fn times_beyond_a_system_time_overflow() {
    let file = OpenFile { ino: 9, is_dir: false, read: true, write: false };
    let times = BasicTimes {
        creation_time: LAST_TICK + 1,
        last_access_time: 0,
        last_write_time: 0,
        change_time: 0,
    };
    let step = ADAPTER.set_basic_info(file, FileAttributes(0), times);
    assert!(matches!(step, Step::Overflow));
    let step = READ_ONLY.set_basic_info(file, FileAttributes(0), times);
    assert!(matches!(step, Step::Done(Err(STATUS_MEDIA_WRITE_PROTECTED))));
}

#[test]
fn sizes_that_do_not_fit_overflow() {
    let file = OpenFile { ino: 9, is_dir: false, read: true, write: false };
    let mut huge = attr(9, FileType::RegularFile);
    huge.size = u64::MAX;
    match ADAPTER.get_file_info(file) {
        Step::Ask { next, .. } => {
            assert!(matches!(next.resume(Reply::Attr(Ok(huge))), Step::Overflow));
        }
        _ => unreachable!(),
    }
}

#[test]
fn sizes_are_set_and_space_only_cuts() {
    let mut world = World::new();
    let ino = world.put(ROOT_INODE, "file", FileType::RegularFile, b"abcdef");
    let file = world.open_file(r"\file", FILE_GENERIC_WRITE);
    world.log();
    assert_eq!(world.run(ADAPTER.set_file_size(file, 4096, true)).unwrap().file_size, 6);
    assert_eq!(world.log(), ["GetAttr", "GetAttr"]);
    assert_eq!(world.run(ADAPTER.set_file_size(file, 6, true)).unwrap().file_size, 6);
    assert_eq!(world.log(), ["GetAttr", "GetAttr"]);
    assert_eq!(world.run(ADAPTER.set_file_size(file, 4, true)).unwrap().file_size, 4);
    assert_eq!(world.run(ADAPTER.set_file_size(file, 8, false)).unwrap().file_size, 8);
    assert_eq!(world.store.nodes[&ino].data, b"abcd\0\0\0\0");
    let root = OpenFile { ino: ROOT_INODE, is_dir: true, read: false, write: false };
    assert_eq!(
        world.run(ADAPTER.set_file_size(root, 8, false)).unwrap_err(),
        STATUS_FILE_IS_A_DIRECTORY
    );
    world.store.failing = Some("GetAttr");
    assert_eq!(
        world.run(ADAPTER.set_file_size(file, 8, false)).unwrap_err(),
        STATUS_UNEXPECTED_IO_ERROR
    );
}

#[test]
fn only_empty_directories_may_be_deleted() {
    let mut world = World::new();
    let dir = world.put(ROOT_INODE, "dir", FileType::Directory, b"");
    let name = wide(r"\dir");
    let directory = OpenFile { ino: dir, is_dir: true, read: false, write: false };
    world.run(ADAPTER.set_delete(directory, &name, true)).unwrap();
    world.put(dir, "child", FileType::RegularFile, b"");
    assert_eq!(
        world.run(ADAPTER.set_delete(directory, &name, true)).unwrap_err(),
        STATUS_DIRECTORY_NOT_EMPTY
    );
    world.log();
    world.run(ADAPTER.set_delete(directory, &name, false)).unwrap();
    assert!(world.log().is_empty());
    world.store.failing = Some("Len");
    assert_eq!(
        world.run(ADAPTER.set_delete(directory, &name, true)).unwrap_err(),
        STATUS_OBJECT_NAME_NOT_FOUND
    );
}

#[test]
fn renaming_replaces_only_if_it_may() {
    let mut world = World::new();
    world.put(ROOT_INODE, "one", FileType::RegularFile, b"1");
    world.put(ROOT_INODE, "two", FileType::RegularFile, b"22");
    world.put(ROOT_INODE, "dir", FileType::Directory, b"");
    world.log();
    assert_eq!(
        world.run(ADAPTER.rename(&wide(r"\one"), &wide(r"\two"), false)).unwrap_err(),
        STATUS_OBJECT_NAME_COLLISION
    );
    assert_eq!(world.log(), ["GetAttr", "GetAttr", "FindByName"]);
    world.run(ADAPTER.rename(&wide(r"\one"), &wide(r"\dir"), true)).unwrap();
    assert_eq!(world.log(), ["GetAttr", "GetAttr", "FindByName", "RemoveDir", "Rename"]);
    assert_eq!(world.run(ADAPTER.resolve_path(&wide(r"\dir"))).unwrap().size, 1);
    world.log();
    world.run(ADAPTER.rename(&wide(r"\dir"), &wide(r"\two"), true)).unwrap();
    assert_eq!(world.log(), ["GetAttr", "GetAttr", "FindByName", "RemoveFile", "Rename"]);
    let full = world.put(ROOT_INODE, "full", FileType::Directory, b"");
    world.put(full, "child", FileType::RegularFile, b"");
    assert_eq!(
        world.run(ADAPTER.rename(&wide(r"\two"), &wide(r"\full"), true)).unwrap_err(),
        STATUS_DIRECTORY_NOT_EMPTY
    );
    world.store.failing = Some("Rename");
    assert_eq!(
        world.run(ADAPTER.rename(&wide(r"\two"), &wide(r"\new"), true)).unwrap_err(),
        STATUS_UNEXPECTED_IO_ERROR
    );
}

#[test]
fn renaming_to_the_same_name_changes_nothing() {
    let mut world = World::new();
    world.put(ROOT_INODE, "one", FileType::RegularFile, b"1");
    world.log();
    world.run(ADAPTER.rename(&wide(r"\one"), &wide("/./one"), false)).unwrap();
    assert_eq!(world.log(), ["GetAttr", "GetAttr"]);
    assert_eq!(
        world.run(ADAPTER.rename(&wide(r"\"), &wide(r"\one"), false)).unwrap_err(),
        STATUS_INVALID_PARAMETER
    );
    assert_eq!(
        world.run(ADAPTER.rename(&wide(r"\one"), &wide(r"\"), false)).unwrap_err(),
        STATUS_INVALID_PARAMETER
    );
    assert_eq!(
        world.run(ADAPTER.rename(&wide(r"\one"), &wide(r"\none\x"), false)).unwrap_err(),
        STATUS_OBJECT_NAME_NOT_FOUND
    );
}

#[test]
fn read_only_volume_refuses_every_change_without_a_request() {
    let mut world = World::new();
    let file = OpenFile { ino: 9, is_dir: false, read: true, write: true };
    let name = wide(r"\file");
    let times = BasicTimes {
        creation_time: 1,
        last_access_time: 1,
        last_write_time: 1,
        change_time: 1,
    };
    let refused = STATUS_MEDIA_WRITE_PROTECTED;
    assert_eq!(world.run(READ_ONLY.create(&name, file_create_info())).unwrap_err(), refused);
    assert_eq!(
        world.run(READ_ONLY.overwrite(file, FileAttributes(0), false, 0)).unwrap_err(),
        refused
    );
    assert_eq!(
        world.run(READ_ONLY.write(file, 1, WriteMode::WriteToEOF)).unwrap_err(),
        refused
    );
    assert_eq!(
        world.run(READ_ONLY.set_basic_info(file, FileAttributes(0), times)).unwrap_err(),
        refused
    );
    assert_eq!(world.run(READ_ONLY.set_file_size(file, 1, false)).unwrap_err(), refused);
    assert_eq!(world.run(READ_ONLY.set_delete(file, &name, false)).unwrap_err(), refused);
    assert_eq!(world.run(READ_ONLY.rename(&name, &name, true)).unwrap_err(), refused);
    assert!(world.log().is_empty());
}

fn root() -> OpenFile {
    OpenFile { ino: ROOT_INODE, is_dir: true, read: false, write: false }
}

#[test]
fn listing_is_ordered_and_forgotten_at_its_end() {
    let mut world = World::new();
    for name in ["b", "a", "c", "B"] {
        world.put(ROOT_INODE, name, FileType::RegularFile, b"");
    }
    world.run(ADAPTER.read_directory(root(), None)).unwrap();
    assert_eq!(world.offered, ["B", "a", "b", "c"]);
    assert!(world.entries.is_none());
    assert_eq!(
        world.log(),
        [
            "CachedEntries",
            "ReadDirPlus",
            "StoreEntries",
            "Offer",
            "Offer",
            "Offer",
            "Offer",
            "ClearEntries"
        ]
    );
}

#[test]
fn pieces_of_a_listing_join() {
    let mut world = World::new();
    for name in ["a", "b", "c", "d", "e"] {
        world.put(ROOT_INODE, name, FileType::RegularFile, b"");
    }
    world.room = 2;
    world.run(ADAPTER.read_directory(root(), None)).unwrap();
    assert_eq!(world.offered, ["a", "b"]);
    // A file that comes up meanwhile is not in the listing that is kept.
    world.put(ROOT_INODE, "bb", FileType::RegularFile, b"");
    let mut all = std::mem::take(&mut world.offered);
    world.log();
    world.run(ADAPTER.read_directory(root(), Some(&wide("b")))).unwrap();
    assert_eq!(world.log(), ["CachedEntries", "Offer", "Offer", "Offer"]);
    all.append(&mut world.offered);
    world.run(ADAPTER.read_directory(root(), Some(&wide("d")))).unwrap();
    all.append(&mut world.offered);
    assert_eq!(all, ["a", "b", "c", "d", "e"]);
    assert!(world.entries.is_none());
    // A marker without a listing makes a new one.
    world.run(ADAPTER.read_directory(root(), Some(&wide("b")))).unwrap();
    assert_eq!(world.offered, ["bb", "c"]);
}

#[test]
fn listing_leaves_out_names_that_are_too_long() {
    let mut world = World::new();
    let fitting = "x".repeat(254);
    for name in [fitting.clone(), "x".repeat(255), "\u{1F600}".repeat(128)] {
        world.put(ROOT_INODE, &name, FileType::RegularFile, b"");
    }
    world.put(ROOT_INODE, &"\u{1F600}".repeat(127), FileType::RegularFile, b"");
    world.run(ADAPTER.read_directory(root(), None)).unwrap();
    assert_eq!(world.offered, [fitting, "\u{1F600}".repeat(127)]);
}

#[test]
fn failed_listings_are_reported() {
    let mut world = World::new();
    world.put(ROOT_INODE, "a", FileType::RegularFile, b"");
    let file = OpenFile { ino: 9, is_dir: false, read: true, write: false };
    assert_eq!(
        world.run(ADAPTER.read_directory(file, None)).unwrap_err(),
        STATUS_NOT_A_DIRECTORY
    );
    world.store.failing = Some("ReadDirPlus");
    assert_eq!(
        world.run(ADAPTER.read_directory(root(), None)).unwrap_err(),
        STATUS_UNEXPECTED_IO_ERROR
    );
    world.store.failing = Some("item");
    assert_eq!(
        world.run(ADAPTER.read_directory(root(), None)).unwrap_err(),
        rencfs_winfsp::status::STATUS_OBJECT_PATH_NOT_FOUND
    );
    assert!(world.offered.is_empty() && world.entries.is_none());
    world.store.failing = Some("ClearEntries");
    assert_eq!(
        world.run(ADAPTER.read_directory(root(), None)).unwrap_err(),
        STATUS_INVALID_HANDLE
    );
    world.broken_lock = true;
    assert_eq!(
        world.run(ADAPTER.read_directory(root(), None)).unwrap_err(),
        STATUS_INVALID_HANDLE
    );
}

#[test]
fn a_set_time_is_the_time_that_is_read() {
    let tick = WINDOWS_EPOCH_OFFSET + 98_765_432_109;
    let kept: SystemTime = system_time_from_filetime(tick);
    assert_eq!(filetime_from_system_time(kept), tick);
}

#[test]
fn operations_on_an_open_file_ask_about_no_other() {
    let mut world = World::new();
    world.put(ROOT_INODE, "other", FileType::RegularFile, b"xyz");
    world.put(ROOT_INODE, "file", FileType::RegularFile, b"abcdef");
    let file = world.open_file(r"\file", FILE_GENERIC_READ | FILE_GENERIC_WRITE);
    world.store.texts.clear();
    world.read_buffer = vec![0; 2];
    world.write_buffer = b"12".to_vec();
    let times = BasicTimes {
        creation_time: 1,
        last_access_time: 1,
        last_write_time: 1,
        change_time: 1,
    };
    world.run(ADAPTER.read(file, 0)).unwrap();
    world.run(ADAPTER.write(file, 2, WriteMode::WriteToEOF)).unwrap();
    world.run(ADAPTER.flush(file)).unwrap();
    world.run(ADAPTER.get_file_info(file)).unwrap();
    world.run(ADAPTER.set_basic_info(file, FileAttributes(0), times)).unwrap();
    world.run(ADAPTER.set_file_size(file, 1, false)).unwrap();
    world.run(ADAPTER.overwrite(file, FileAttributes(0), false, 0)).unwrap();
    world.run(ADAPTER.close()).unwrap();
    assert!(world.store.texts.len() > 20);
    for text in &world.store.texts {
        assert!(!text.contains("name:"), "{text}");
        assert!(!text.contains("ino:") || text.contains(&format!("ino: {}", file.ino)), "{text}");
    }
}

#[test]
fn read_only_volume_is_read_without_a_change() {
    let mut world = World::new();
    world.put(ROOT_INODE, "file", FileType::RegularFile, b"abcdef");
    let options = CreateOptions(0);
    let access = FileAccessRights(FILE_GENERIC_READ);
    let (context, _) = world.run(READ_ONLY.open(&wide(r"\file"), options, access)).unwrap();
    let file = world.enter(context);
    world.read_buffer = vec![0; 6];
    assert_eq!(world.run(READ_ONLY.read(file, 0)).unwrap(), 6);
    world.run(READ_ONLY.flush(file)).unwrap();
    world.run(READ_ONLY.get_file_info(file)).unwrap();
    world.run(READ_ONLY.close()).unwrap();
    world.run(READ_ONLY.get_security_by_name(&wide(r"\file"))).unwrap();
    world.run(READ_ONLY.read_directory(root(), None)).unwrap();
    for kind in world.log() {
        assert!(!["Create", "SetLen", "SetAttr", "Write", "Flush"].contains(&kind.as_str()));
        assert!(!["RemoveDir", "RemoveFile", "Rename"].contains(&kind.as_str()));
    }
}

#[test]
fn paths_are_resolved_in_parts() {
    let mut world = World::new();
    let sub = world.put(ROOT_INODE, "sub", FileType::Directory, b"");
    let deep = world.put(sub, "deep", FileType::Directory, b"");
    let file = world.put(deep, "file", FileType::RegularFile, b"");
    assert_eq!(world.run(ADAPTER.resolve_path(&wide(r"\sub"))).unwrap().ino, sub);
    assert_eq!(world.run(ADAPTER.resolve_path(&wide(r"\sub\deep"))).unwrap().ino, deep);
    world.log();
    assert_eq!(world.run(ADAPTER.resolve_path(&wide(r"\sub\deep\file"))).unwrap().ino, file);
    assert_eq!(world.log(), ["GetAttr", "FindByName", "FindByName", "FindByName"]);
}
