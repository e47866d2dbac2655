//! Mounting a store as a Windows volume.

use crate::adapter::{volume_info, VolumeInfo, WindowsFs};
use crate::attr::ALLOCATION_UNIT;
use crate::filetime::{checked_filetime, time_tick};
use crate::plan::Plan;
use crate::security::{default_security_descriptor, descriptor_units, user_sid_plan, UserSid};
use crate::status::FsError;
use crate::system::{replies, SystemPlan, SystemReply, SystemRequest, SystemStep};
use crate::utf16::{path_units, terminated, unit_is_early_nul, wide_path};
use std::path::PathBuf;
use std::time::SystemTime;
use vstd::pervasive::unreached;
use vstd::prelude::*;

verus! {

/// The bytes of a sector, as Windows is told.
pub const SECTOR_SIZE: u16 = 512;

/// The serial number of every volume: the letters RENC.
pub const VOLUME_SERIAL_NUMBER: u32 = 0x5245_4E43;

/// How WinFSP is to run the volume.
#[derive(Debug, Clone, Copy, PartialEq, Eq)]
pub struct VolumeParams {
    pub sector_size: u16,
    pub sectors_per_allocation_unit: u16,
    pub volume_creation_time: u64,
    pub volume_serial_number: u32,
    /// How long Windows may keep what it was told of a file, in milliseconds.
    pub file_info_timeout: u32,
    pub case_sensitive_search: bool,
    pub case_preserved_names: bool,
    pub unicode_on_disk: bool,
    pub post_cleanup_when_modified_only: bool,
    pub read_only_volume: bool,
    pub file_system_name: &'static str,
    pub prefix: &'static str,
}

/// How WinFSP is to run a volume that is mounted at a given tick.
pub open spec fn params_at(read_only: bool, tick: u64) -> VolumeParams {
    VolumeParams {
        sector_size: SECTOR_SIZE,
        sectors_per_allocation_unit: (ALLOCATION_UNIT / SECTOR_SIZE as u64) as u16,
        volume_creation_time: tick,
        volume_serial_number: VOLUME_SERIAL_NUMBER,
        file_info_timeout: 1000,
        case_sensitive_search: true,
        case_preserved_names: true,
        unicode_on_disk: true,
        post_cleanup_when_modified_only: true,
        read_only_volume: read_only,
        file_system_name: "rencfs",
        prefix: "",
    }
}

/// How WinFSP is to run a volume that is mounted at a given tick.
pub fn volume_params(read_only: bool, tick: u64) -> (params: VolumeParams)
    ensures
        params == params_at(read_only, tick),
{
    VolumeParams {
        sector_size: SECTOR_SIZE,
        sectors_per_allocation_unit: (ALLOCATION_UNIT / SECTOR_SIZE as u64) as u16,
        volume_creation_time: tick,
        volume_serial_number: VOLUME_SERIAL_NUMBER,
        file_info_timeout: 1000,
        case_sensitive_search: true,
        case_preserved_names: true,
        unicode_on_disk: true,
        post_cleanup_when_modified_only: true,
        read_only_volume: read_only,
        file_system_name: "rencfs",
        prefix: "",
    }
}

/// The sectors of an allocation unit fill it, so that WinFSP and the sizes that files report
/// agree on what a unit is.
pub proof fn lemma_sectors_fill_a_unit(read_only: bool, tick: u64)
    ensures
        params_at(read_only, tick).sector_size * params_at(
            read_only,
            tick,
        ).sectors_per_allocation_unit == ALLOCATION_UNIT,
{
}

pub type AdapterPlan<Provider, Cipher> = SystemPlan<Provider, Cipher, Result<WindowsFs, FsError>>;

/// Making the file system that WinFSP calls: its runtime, its security descriptor and its
/// volume information.
pub open spec fn adapter_plan<Provider, Cipher>(read_only: bool) -> AdapterPlan<Provider, Cipher> {
    Plan::Ask(
        SystemRequest::BuildRuntime,
        |reply: SystemReply<Seq<u16>>|
            match reply->Opened_0 {
                Ok(()) => user_sid_plan().bind(describing(read_only)),
                Err(error) => Plan::Done(Err(error)),
            },
    )
}

pub open spec fn describing<Provider, Cipher>(read_only: bool) -> spec_fn(
    Result<Seq<char>, FsError>,
) -> AdapterPlan<Provider, Cipher> {
    |user_sid: Result<Seq<char>, FsError>|
        match user_sid {
            Ok(user_sid) => match descriptor_units(user_sid) {
                Ok(text) => making_descriptor(read_only, text),
                Err(error) => Plan::Done(Err(error)),
            },
            Err(error) => Plan::Done(Err(error)),
        }
}

pub open spec fn making_descriptor<Provider, Cipher>(
    read_only: bool,
    text: Seq<u16>,
) -> AdapterPlan<Provider, Cipher> {
    Plan::Ask(
        SystemRequest::MakeDescriptor { text },
        |reply: SystemReply<Seq<u16>>|
            if reply->Worked_0 {
                making_volume_info(read_only)
            } else {
                Plan::Done(Err(FsError::Other("cannot create Windows security descriptor")))
            },
    )
}

pub open spec fn making_volume_info<Provider, Cipher>(read_only: bool) -> AdapterPlan<
    Provider,
    Cipher,
> {
    Plan::Ask(
        SystemRequest::MakeVolumeInfo { info: volume_info() },
        |reply: SystemReply<Seq<u16>>|
            if reply->Worked_0 {
                Plan::Done(Ok(WindowsFs { read_only }))
            } else {
                Plan::Done(Err(FsError::Other("cannot create Windows volume info")))
            },
    )
}

/// The making of the file system, under way.
pub enum NewAdapter {
    Building { read_only: bool },
    Asking { user: UserSid, read_only: bool },
    Describing { read_only: bool, asked: Ghost<Seq<u16>> },
    Informing { read_only: bool },
}

impl NewAdapter {
    pub open spec fn plan<Provider, Cipher>(&self) -> AdapterPlan<Provider, Cipher> {
        match *self {
            NewAdapter::Building { read_only } => adapter_plan(read_only),
            NewAdapter::Asking { user, read_only } => user.plan().part_of(describing(read_only)),
            NewAdapter::Describing { read_only, asked } => making_descriptor(read_only, asked@),
            NewAdapter::Informing { read_only } => making_volume_info(read_only),
        }
    }

    /// Goes on with the reply, exactly as the plan says.
    pub fn resume<Provider, Cipher>(self, reply: SystemReply<Vec<u16>>) -> (step: SystemStep<
        Provider,
        Cipher,
        NewAdapter,
        Result<WindowsFs, FsError>,
    >)
        requires
            self.plan::<Provider, Cipher>() matches Plan::Ask(request, _) && replies(
                request,
                reply@,
            ),
        ensures
            match step {
                SystemStep::Ask { request, next } => {
                    &&& next.plan::<Provider, Cipher>() == (self.plan::<
                        Provider,
                        Cipher,
                    >()->Ask_1)(reply@)
                    &&& next.plan::<Provider, Cipher>() matches Plan::Ask(asked, _) && asked
                        == request@
                },
                SystemStep::Done(output) => (self.plan::<Provider, Cipher>()->Ask_1)(reply@)
                    == AdapterPlan::<Provider, Cipher>::Done(output),
                SystemStep::Overflow => false,
            },
    {
        match (self, reply) {
            (
                NewAdapter::Building { read_only },
                SystemReply::Opened(Ok(())),
            ) => match UserSid::current_user_sid::<Provider, Cipher>() {
                SystemStep::Ask { request, next } => SystemStep::Ask {
                    request,
                    next: NewAdapter::Asking { user: next, read_only },
                },
                _ => unreached(),
            },
            (NewAdapter::Building { .. }, SystemReply::Opened(Err(error))) => SystemStep::Done(
                Err(error),
            ),
            (NewAdapter::Asking { user, read_only }, reply) => {
                proof {
                    user.plan::<Provider, Cipher>().lemma_part_of(
                        describing::<Provider, Cipher>(read_only),
                        reply@,
                    );
                }
                let user_sid = match user.resume::<Provider, Cipher>(reply) {
                    SystemStep::Ask { request, next } => {
                        return SystemStep::Ask {
                            request,
                            next: NewAdapter::Asking { user: next, read_only },
                        };
                    },
                    SystemStep::Done(Ok(user_sid)) => user_sid,
                    SystemStep::Done(Err(error)) => return SystemStep::Done(Err(error)),
                    SystemStep::Overflow => unreached(),
                };
                match default_security_descriptor(user_sid.as_str()) {
                    Ok(text) => {
                        let asked: Ghost<Seq<u16>> = Ghost(text@);
                        SystemStep::Ask {
                            request: SystemRequest::MakeDescriptor { text },
                            next: NewAdapter::Describing { read_only, asked },
                        }
                    },
                    Err(error) => SystemStep::Done(Err(error)),
                }
            },
            (NewAdapter::Describing { read_only, .. }, SystemReply::Worked(worked)) => {
                if !worked {
                    return SystemStep::Done(
                        Err(FsError::Other("cannot create Windows security descriptor")),
                    );
                }
                SystemStep::Ask {
                    request: SystemRequest::MakeVolumeInfo { info: VolumeInfo::of_volume() },
                    next: NewAdapter::Informing { read_only },
                }
            },
            (NewAdapter::Informing { read_only }, SystemReply::Worked(worked)) => {
                if worked {
                    SystemStep::Done(Ok(WindowsFs { read_only }))
                } else {
                    SystemStep::Done(Err(FsError::Other("cannot create Windows volume info")))
                }
            },
            _ => unreached(),
        }
    }
}

pub type MountPlan<Provider, Cipher> = SystemPlan<Provider, Cipher, Result<(), FsError>>;

/// What is to be mounted, where, and how.
#[derive(Debug)]
pub struct MountPointImpl<Provider, Cipher> {
    pub mountpoint: PathBuf,
    pub data_dir: PathBuf,
    pub password_provider: Provider,
    pub cipher: Cipher,
    pub read_only: bool,
}

/// Mounting: the driver, the store, the file system, and then the volume.
pub open spec fn mount_plan<Provider, Cipher>(
    target: MountPointImpl<Provider, Cipher>,
) -> MountPlan<Provider, Cipher> {
    Plan::Ask(
        SystemRequest::InitDriver,
        |reply: SystemReply<Seq<u16>>|
            if reply->Worked_0 {
                opening_store(
                    (target.data_dir, target.password_provider, target.cipher),
                    target.mountpoint,
                    target.read_only,
                )
            } else {
                Plan::Done(Err(FsError::Other("cannot initialize WinFSP")))
            },
    )
}

pub open spec fn opening_store<Provider, Cipher>(
    store: (PathBuf, Provider, Cipher),
    mountpoint: PathBuf,
    read_only: bool,
) -> MountPlan<Provider, Cipher> {
    Plan::Ask(
        SystemRequest::OpenStore {
            data_dir: store.0,
            password_provider: store.1,
            cipher: store.2,
            read_only,
        },
        |reply: SystemReply<Seq<u16>>|
            match reply->Opened_0 {
                Ok(()) => adapter_plan(read_only).bind(locating(mountpoint)),
                Err(error) => Plan::Done(Err(error)),
            },
    )
}

pub open spec fn locating<Provider, Cipher>(mountpoint: PathBuf) -> spec_fn(
    Result<WindowsFs, FsError>,
) -> MountPlan<Provider, Cipher> {
    |made: Result<WindowsFs, FsError>|
        match made {
            Ok(file_system) => if unit_is_early_nul(path_units(mountpoint)) {
                Plan::Done(Err(FsError::InvalidInput("invalid Windows mount point")))
            } else {
                timing(file_system, terminated(path_units(mountpoint)))
            },
            Err(error) => Plan::Done(Err(error)),
        }
}

pub open spec fn timing<Provider, Cipher>(
    file_system: WindowsFs,
    mount_point: Seq<u16>,
) -> MountPlan<Provider, Cipher> {
    Plan::Ask(
        SystemRequest::ReadClock,
        |reply: SystemReply<Seq<u16>>|
            if time_tick(reply->Time_0) <= u64::MAX {
                naming(
                    params_at(file_system.read_only, time_tick(reply->Time_0) as u64),
                    file_system,
                    mount_point,
                )
            } else {
                Plan::Overflow
            },
    )
}

pub open spec fn naming<Provider, Cipher>(
    params: VolumeParams,
    file_system: WindowsFs,
    mount_point: Seq<u16>,
) -> MountPlan<Provider, Cipher> {
    Plan::Ask(
        SystemRequest::NameFileSystem { name: params.file_system_name },
        |reply: SystemReply<Seq<u16>>|
            if reply->Worked_0 {
                prefixing(params, file_system, mount_point)
            } else {
                Plan::Done(Err(FsError::Other("invalid filesystem name")))
            },
    )
}

pub open spec fn prefixing<Provider, Cipher>(
    params: VolumeParams,
    file_system: WindowsFs,
    mount_point: Seq<u16>,
) -> MountPlan<Provider, Cipher> {
    Plan::Ask(
        SystemRequest::SetPrefix { prefix: params.prefix },
        |reply: SystemReply<Seq<u16>>|
            if reply->Worked_0 {
                starting(params, file_system, mount_point)
            } else {
                Plan::Done(Err(FsError::Other("invalid filesystem prefix")))
            },
    )
}

pub open spec fn starting<Provider, Cipher>(
    params: VolumeParams,
    file_system: WindowsFs,
    mount_point: Seq<u16>,
) -> MountPlan<Provider, Cipher> {
    Plan::Ask(
        SystemRequest::StartVolume { params, mount_point, file_system },
        |reply: SystemReply<Seq<u16>>|
            Plan::Done(
                if reply->Worked_0 {
                    Ok(())
                } else {
                    Err(FsError::Other("cannot start WinFSP filesystem"))
                },
            ),
    )
}

/// The mounting of a store, under way.
pub enum Mount<Provider, Cipher> {
    Initializing { target: MountPointImpl<Provider, Cipher> },
    Opening { mountpoint: PathBuf, read_only: bool, store: Ghost<(PathBuf, Provider, Cipher)> },
    Making { adapter: NewAdapter, mountpoint: PathBuf },
    Timing { file_system: WindowsFs, mount_point: Vec<u16> },
    Naming { params: VolumeParams, file_system: WindowsFs, mount_point: Vec<u16> },
    Prefixing { params: VolumeParams, file_system: WindowsFs, mount_point: Vec<u16> },
    Starting { asked: Ghost<(VolumeParams, WindowsFs, Seq<u16>)> },
}

impl<Provider, Cipher> MountPointImpl<Provider, Cipher> {
    /// What is to be mounted, where, and how. Other users are kept out by the security
    /// descriptor of the volume, whatever is allowed to them here.
    pub fn new(
        mountpoint: PathBuf,
        data_dir: PathBuf,
        password_provider: Provider,
        cipher: Cipher,
        _allow_root: bool,
        _allow_other: bool,
        read_only: bool,
    ) -> (target: Self)
        ensures
            target == (MountPointImpl {
                mountpoint,
                data_dir,
                password_provider,
                cipher,
                read_only,
            }),
    {
        MountPointImpl { mountpoint, data_dir, password_provider, cipher, read_only }
    }

    /// Begins to mount.
    pub fn mount(self) -> (step: SystemStep<
        Provider,
        Cipher,
        Mount<Provider, Cipher>,
        Result<(), FsError>,
    >)
        ensures
            step matches SystemStep::Ask { request, next } && next.plan() == mount_plan(self)
                && request@ == mount_plan(self)->Ask_0,
    {
        SystemStep::Ask {
            request: SystemRequest::InitDriver,
            next: Mount::Initializing { target: self },
        }
    }
}

impl<Provider, Cipher> Mount<Provider, Cipher> {
    pub open spec fn plan(&self) -> MountPlan<Provider, Cipher> {
        match *self {
            Mount::Initializing { target } => mount_plan(target),
            Mount::Opening { mountpoint, read_only, store } => opening_store(
                store@,
                mountpoint,
                read_only,
            ),
            Mount::Making { adapter, mountpoint } => adapter.plan().part_of(locating(mountpoint)),
            Mount::Timing { file_system, mount_point } => timing(file_system, mount_point@),
            Mount::Naming { params, file_system, mount_point } => naming(
                params,
                file_system,
                mount_point@,
            ),
            Mount::Prefixing { params, file_system, mount_point } => prefixing(
                params,
                file_system,
                mount_point@,
            ),
            Mount::Starting { asked } => starting(asked@.0, asked@.1, asked@.2),
        }
    }

    /// Goes on with the reply, exactly as the plan says.
    pub fn resume(self, reply: SystemReply<Vec<u16>>) -> (step: SystemStep<
        Provider,
        Cipher,
        Mount<Provider, Cipher>,
        Result<(), FsError>,
    >)
        requires
            self.plan() matches Plan::Ask(request, _) && replies(request, reply@),
        ensures
            match step {
                SystemStep::Ask { request, next } => {
                    &&& next.plan() == (self.plan()->Ask_1)(reply@)
                    &&& next.plan() matches Plan::Ask(asked, _) && asked == request@
                },
                SystemStep::Done(output) => (self.plan()->Ask_1)(reply@) == MountPlan::<
                    Provider,
                    Cipher,
                >::Done(output),
                SystemStep::Overflow => (self.plan()->Ask_1)(reply@) is Overflow,
            },
    {
        match (self, reply) {
            (Mount::Initializing { target }, SystemReply::Worked(worked)) => {
                if !worked {
                    return SystemStep::Done(Err(FsError::Other("cannot initialize WinFSP")));
                }
                let store: Ghost<(PathBuf, Provider, Cipher)> = Ghost(
                    (target.data_dir, target.password_provider, target.cipher),
                );
                SystemStep::Ask {
                    request: SystemRequest::OpenStore {
                        data_dir: target.data_dir,
                        password_provider: target.password_provider,
                        cipher: target.cipher,
                        read_only: target.read_only,
                    },
                    next: Mount::Opening {
                        mountpoint: target.mountpoint,
                        read_only: target.read_only,
                        store,
                    },
                }
            },
            (
                Mount::Opening { mountpoint, read_only, .. },
                SystemReply::Opened(Ok(())),
            ) => SystemStep::Ask {
                request: SystemRequest::BuildRuntime,
                next: Mount::Making { adapter: NewAdapter::Building { read_only }, mountpoint },
            },
            (Mount::Opening { .. }, SystemReply::Opened(Err(error))) => SystemStep::Done(
                Err(error),
            ),
            (Mount::Making { adapter, mountpoint }, reply) => {
                proof {
                    adapter.plan::<Provider, Cipher>().lemma_part_of(
                        locating::<Provider, Cipher>(mountpoint),
                        reply@,
                    );
                }
                let file_system = match adapter.resume::<Provider, Cipher>(reply) {
                    SystemStep::Ask { request, next } => {
                        return SystemStep::Ask {
                            request,
                            next: Mount::Making { adapter: next, mountpoint },
                        };
                    },
                    SystemStep::Done(Ok(file_system)) => file_system,
                    SystemStep::Done(Err(error)) => return SystemStep::Done(Err(error)),
                    SystemStep::Overflow => unreached(),
                };
                match wide_path(&mountpoint) {
                    Ok(mount_point) => SystemStep::Ask {
                        request: SystemRequest::ReadClock,
                        next: Mount::Timing { file_system, mount_point },
                    },
                    Err(_) => SystemStep::Done(
                        Err(FsError::InvalidInput("invalid Windows mount point")),
                    ),
                }
            },
            (
                Mount::Timing { file_system, mount_point },
                SystemReply::Time(now),
            ) => match checked_filetime(now) {
                Some(tick) => {
                    let params = volume_params(file_system.read_only, tick);
                    SystemStep::Ask {
                        request: SystemRequest::NameFileSystem { name: params.file_system_name },
                        next: Mount::Naming { params, file_system, mount_point },
                    }
                },
                None => SystemStep::Overflow,
            },
            (Mount::Naming { params, file_system, mount_point }, SystemReply::Worked(worked)) => {
                if !worked {
                    return SystemStep::Done(Err(FsError::Other("invalid filesystem name")));
                }
                SystemStep::Ask {
                    request: SystemRequest::SetPrefix { prefix: params.prefix },
                    next: Mount::Prefixing { params, file_system, mount_point },
                }
            },
            (
                Mount::Prefixing { params, file_system, mount_point },
                SystemReply::Worked(worked),
            ) => {
                if !worked {
                    return SystemStep::Done(Err(FsError::Other("invalid filesystem prefix")));
                }
                let asked: Ghost<(VolumeParams, WindowsFs, Seq<u16>)> = Ghost(
                    (params, file_system, mount_point@),
                );
                SystemStep::Ask {
                    request: SystemRequest::StartVolume { params, mount_point, file_system },
                    next: Mount::Starting { asked },
                }
            },
            (Mount::Starting { .. }, SystemReply::Worked(worked)) => {
                if worked {
                    SystemStep::Done(Ok(()))
                } else {
                    SystemStep::Done(Err(FsError::Other("cannot start WinFSP filesystem")))
                }
            },
            _ => unreached(),
        }
    }
}

/// What is asked as the mount point says: the store is opened where the data lies and in the
/// mode that is wanted, and the volume and the file system are read-only exactly if that is
/// wanted.
pub open spec fn as_wanted<Provider, Cipher>(
    target: MountPointImpl<Provider, Cipher>,
) -> spec_fn(SystemRequest<Provider, Cipher, Seq<u16>>) -> bool {
    |request: SystemRequest<Provider, Cipher, Seq<u16>>|
        match request {
            SystemRequest::OpenStore { data_dir, password_provider, cipher, read_only } => {
                &&& data_dir == target.data_dir
                &&& password_provider == target.password_provider
                &&& cipher == target.cipher
                &&& read_only == target.read_only
            },
            SystemRequest::StartVolume { params, mount_point, file_system } => {
                &&& params.read_only_volume == target.read_only
                &&& file_system.read_only == target.read_only
                &&& mount_point == terminated(path_units(target.mountpoint))
                &&& !unit_is_early_nul(path_units(target.mountpoint))
            },
            _ => true,
        }
}

/// Mounting asks only for what is wanted, whatever the replies.
pub proof fn lemma_mount_keeps_to_what_is_wanted<Provider, Cipher>(
    target: MountPointImpl<Provider, Cipher>,
)
    ensures
        mount_plan(target).asks_only(as_wanted(target)),
{
    let allowed = as_wanted(target);
    let read_only = target.read_only;
    let made = |made: Result<WindowsFs, FsError>|
        made matches Ok(file_system) ==> file_system.read_only == read_only;
    let sid = user_sid_plan::<Provider, Cipher>();
    let rest = describing::<Provider, Cipher>(read_only);
    reveal_with_fuel(Plan::asks_only, 7);
    reveal_with_fuel(Plan::yields_only, 3);
    sid.lemma_yields_anything();
    sid.lemma_bind_asks_only(rest, allowed);
    sid.lemma_bind_yields_only(rest, |text: Result<Seq<char>, FsError>| true, made);
    let adapter = adapter_plan::<Provider, Cipher>(read_only);
    assert(adapter.asks_only(allowed));
    assert(adapter.yields_only(made));
    adapter.lemma_bind_asks_only_from(locating(target.mountpoint), made, allowed);
}

/// The volume is told when it was made and whether it is read-only; all else of it is fixed.
pub proof fn lemma_volume_is_told_its_time_and_mode(read_only: bool, tick: u64)
    ensures
        ({
            let params = params_at(read_only, tick);
            &&& params.volume_creation_time == tick
            &&& params.read_only_volume == read_only
            &&& params.sector_size == 512
            &&& params.sectors_per_allocation_unit == 8
            &&& params.volume_serial_number == 0x5245_4E43
            &&& params.file_info_timeout == 1000
            &&& params.case_sensitive_search
            &&& params.case_preserved_names
            &&& params.unicode_on_disk
            &&& params.post_cleanup_when_modified_only
            &&& params.file_system_name == "rencfs"
            &&& params.prefix == ""
        }),
{
}

/// A conversation with the system.
pub type SystemTalk<Provider, Cipher> = Seq<
    (SystemRequest<Provider, Cipher, Seq<u16>>, SystemReply<Seq<u16>>),
>;

/// The file system is made of a runtime, of the descriptor for the user who was asked for, and
/// of a volume of one tebibyte, all of it free, and is read-only if that is wanted. It ends at
/// the first failure, with that failure.
pub proof fn lemma_adapter_conversation<Provider, Cipher>(
    read_only: bool,
    asking: SystemTalk<Provider, Cipher>,
    user_sid: Seq<char>,
    text: Seq<u16>,
    error: FsError,
)
    ensures
        ({
            let plan = adapter_plan::<Provider, Cipher>(read_only);
            let build = SystemRequest::<Provider, Cipher, Seq<u16>>::BuildRuntime;
            let built = seq![(build, SystemReply::<Seq<u16>>::Opened(Ok(())))];
            let make = SystemRequest::<Provider, Cipher, Seq<u16>>::MakeDescriptor { text };
            let inform = SystemRequest::<Provider, Cipher, Seq<u16>>::MakeVolumeInfo {
                info: VolumeInfo {
                    total_size: 0x100_0000_0000,
                    free_size: 0x100_0000_0000,
                    volume_label: "rencfs",
                },
            };
            &&& plan.converses(
                seq![(build, SystemReply::Opened(Err(error)))],
                Plan::Done(Err(error)),
            )
            &&& user_sid_plan::<Provider, Cipher>().converses(asking, Plan::Done(Err(error)))
                ==> plan.converses(built + asking, Plan::Done(Err(error)))
            &&& user_sid_plan::<Provider, Cipher>().converses(asking, Plan::Done(Ok(user_sid)))
                ==> {
                &&& descriptor_units(user_sid) == Err::<Seq<u16>, FsError>(error)
                    ==> plan.converses(built + asking, Plan::Done(Err(error)))
                &&& descriptor_units(user_sid) == Ok::<Seq<u16>, FsError>(text) ==> {
                    &&& plan.converses(
                        built + asking + seq![
                            (make, SystemReply::Worked(true)),
                            (inform, SystemReply::Worked(true)),
                        ],
                        Plan::Done(Ok(WindowsFs { read_only })),
                    )
                    &&& plan.converses(
                        built + asking + seq![
                            (make, SystemReply::Worked(true)),
                            (inform, SystemReply::Worked(false)),
                        ],
                        Plan::Done(Err(FsError::Other("cannot create Windows volume info"))),
                    )
                    &&& plan.converses(
                        built + asking + seq![(make, SystemReply::Worked(false))],
                        Plan::Done(
                            Err(FsError::Other("cannot create Windows security descriptor")),
                        ),
                    )
                }
            }
        }),
{
    reveal_with_fuel(Plan::converses_from, 3);
    let plan = adapter_plan::<Provider, Cipher>(read_only);
    let sid = user_sid_plan::<Provider, Cipher>();
    let rest = describing::<Provider, Cipher>(read_only);
    let build = SystemRequest::<Provider, Cipher, Seq<u16>>::BuildRuntime;
    let built = seq![(build, SystemReply::<Seq<u16>>::Opened(Ok(())))];
    let make = SystemRequest::<Provider, Cipher, Seq<u16>>::MakeDescriptor { text };
    let inform = SystemRequest::<Provider, Cipher, Seq<u16>>::MakeVolumeInfo {
        info: VolumeInfo {
            total_size: 0x100_0000_0000,
            free_size: 0x100_0000_0000,
            volume_label: "rencfs",
        },
    };
    assert(plan.converses(built, sid.bind(rest)));
    if sid.converses(asking, Plan::Done(Err(error))) {
        sid.lemma_bind_ends(rest, asking, Err(error), Err(error));
        plan.lemma_converses_on(built, sid.bind(rest), asking, Plan::Done(Err(error)));
    }
    if sid.converses(asking, Plan::Done(Ok(user_sid))) {
        if descriptor_units(user_sid) == Err::<Seq<u16>, FsError>(error) {
            sid.lemma_bind_ends(rest, asking, Ok(user_sid), Err(error));
            plan.lemma_converses_on(built, sid.bind(rest), asking, Plan::Done(Err(error)));
        }
        if descriptor_units(user_sid) == Ok::<Seq<u16>, FsError>(text) {
            let done = seq![
                (make, SystemReply::<Seq<u16>>::Worked(true)),
                (inform, SystemReply::<Seq<u16>>::Worked(true)),
            ];
            let uninformed = seq![
                (make, SystemReply::<Seq<u16>>::Worked(true)),
                (inform, SystemReply::<Seq<u16>>::Worked(false)),
            ];
            let undescribed = seq![(make, SystemReply::<Seq<u16>>::Worked(false))];
            lemma_adapter_tail(read_only, asking, user_sid, done, Ok(WindowsFs { read_only }));
            lemma_adapter_tail(
                read_only,
                asking,
                user_sid,
                uninformed,
                Err(FsError::Other("cannot create Windows volume info")),
            );
            lemma_adapter_tail(
                read_only,
                asking,
                user_sid,
                undescribed,
                Err(FsError::Other("cannot create Windows security descriptor")),
            );
        }
    }
}

/// Making the file system goes on with what is left once the user is known.
proof fn lemma_adapter_tail<Provider, Cipher>(
    read_only: bool,
    asking: SystemTalk<Provider, Cipher>,
    user_sid: Seq<char>,
    tail: SystemTalk<Provider, Cipher>,
    result: Result<WindowsFs, FsError>,
)
    requires
        user_sid_plan::<Provider, Cipher>().converses(asking, Plan::Done(Ok(user_sid))),
        describing::<Provider, Cipher>(read_only)(Ok::<Seq<char>, FsError>(user_sid)).converses(
            tail,
            Plan::Done(result),
        ),
    ensures
        adapter_plan::<Provider, Cipher>(read_only).converses(
            seq![(SystemRequest::BuildRuntime, SystemReply::Opened(Ok(())))] + asking + tail,
            Plan::Done(result),
        ),
{
    reveal_with_fuel(Plan::converses_from, 2);
    let plan = adapter_plan::<Provider, Cipher>(read_only);
    let sid = user_sid_plan::<Provider, Cipher>();
    let rest = describing::<Provider, Cipher>(read_only);
    let built: SystemTalk<Provider, Cipher> = seq![
        (SystemRequest::BuildRuntime, SystemReply::Opened(Ok(()))),
    ];
    assert(plan.converses(built, sid.bind(rest)));
    sid.lemma_bind_converses(rest, asking, Ok(user_sid), tail, Plan::Done(result));
    plan.lemma_converses_on(built, sid.bind(rest), asking + tail, Plan::Done(result));
    assert(built + (asking + tail) == built + asking + tail);
}

/// Mounting loads the driver, opens the store as the target says, makes the file system, and
/// starts a volume at the mount point with it, with the time at which that is. It ends at the
/// first failure, with that failure.
pub proof fn lemma_mount_conversation<Provider, Cipher>(
    target: MountPointImpl<Provider, Cipher>,
    making: SystemTalk<Provider, Cipher>,
    now: SystemTime,
    error: FsError,
)
    ensures
        ({
            let plan = mount_plan(target);
            let yes = SystemReply::<Seq<u16>>::Worked(true);
            let no = SystemReply::<Seq<u16>>::Worked(false);
            let init = SystemRequest::<Provider, Cipher, Seq<u16>>::InitDriver;
            let open = SystemRequest::<Provider, Cipher, Seq<u16>>::OpenStore {
                data_dir: target.data_dir,
                password_provider: target.password_provider,
                cipher: target.cipher,
                read_only: target.read_only,
            };
            let begun = seq![(init, yes), (open, SystemReply::<Seq<u16>>::Opened(Ok(())))];
            let clock = (
                SystemRequest::<Provider, Cipher, Seq<u16>>::ReadClock,
                SystemReply::<Seq<u16>>::Time(now),
            );
            let name = SystemRequest::<Provider, Cipher, Seq<u16>>::NameFileSystem {
                name: "rencfs",
            };
            let prefix = SystemRequest::<Provider, Cipher, Seq<u16>>::SetPrefix { prefix: "" };
            let start = SystemRequest::<Provider, Cipher, Seq<u16>>::StartVolume {
                params: params_at(target.read_only, time_tick(now) as u64),
                mount_point: terminated(path_units(target.mountpoint)),
                file_system: WindowsFs { read_only: target.read_only },
            };
            let made = adapter_plan::<Provider, Cipher>(target.read_only).converses(
                making,
                Plan::Done(Ok(WindowsFs { read_only: target.read_only })),
            );
            let placed = !unit_is_early_nul(path_units(target.mountpoint));
            let timed = time_tick(now) <= u64::MAX;
            &&& plan.converses(
                seq![(init, no)],
                Plan::Done(Err(FsError::Other("cannot initialize WinFSP"))),
            )
            &&& plan.converses(
                seq![(init, yes), (open, SystemReply::Opened(Err(error)))],
                Plan::Done(Err(error)),
            )
            &&& adapter_plan::<Provider, Cipher>(target.read_only).converses(
                making,
                Plan::Done(Err(error)),
            ) ==> plan.converses(begun + making, Plan::Done(Err(error)))
            &&& made && !placed ==> plan.converses(
                begun + making,
                Plan::Done(Err(FsError::InvalidInput("invalid Windows mount point"))),
            )
            &&& made && placed && !timed ==> plan.converses(
                begun + making + seq![clock],
                Plan::Overflow,
            )
            &&& made && placed && timed ==> {
                &&& plan.converses(
                    begun + making + seq![clock, (name, yes), (prefix, yes), (start, yes)],
                    Plan::Done(Ok(())),
                )
                &&& plan.converses(
                    begun + making + seq![clock, (name, yes), (prefix, yes), (start, no)],
                    Plan::Done(Err(FsError::Other("cannot start WinFSP filesystem"))),
                )
                &&& plan.converses(
                    begun + making + seq![clock, (name, yes), (prefix, no)],
                    Plan::Done(Err(FsError::Other("invalid filesystem prefix"))),
                )
                &&& plan.converses(
                    begun + making + seq![clock, (name, no)],
                    Plan::Done(Err(FsError::Other("invalid filesystem name"))),
                )
            }
        }),
{
    reveal_with_fuel(Plan::converses_from, 5);
    let plan = mount_plan(target);
    let yes = SystemReply::<Seq<u16>>::Worked(true);
    let no = SystemReply::<Seq<u16>>::Worked(false);
    let adapter = adapter_plan::<Provider, Cipher>(target.read_only);
    let rest = locating::<Provider, Cipher>(target.mountpoint);
    let file_system = WindowsFs { read_only: target.read_only };
    let clock = (
        SystemRequest::<Provider, Cipher, Seq<u16>>::ReadClock,
        SystemReply::<Seq<u16>>::Time(now),
    );
    let name = SystemRequest::<Provider, Cipher, Seq<u16>>::NameFileSystem { name: "rencfs" };
    let prefix = SystemRequest::<Provider, Cipher, Seq<u16>>::SetPrefix { prefix: "" };
    let start = SystemRequest::<Provider, Cipher, Seq<u16>>::StartVolume {
        params: params_at(target.read_only, time_tick(now) as u64),
        mount_point: terminated(path_units(target.mountpoint)),
        file_system,
    };
    if adapter.converses(making, Plan::Done(Err(error))) {
        lemma_mount_tail(target, making, Err(error), Seq::empty(), Plan::Done(Err(error)));
    }
    if adapter.converses(making, Plan::Done(Ok(file_system))) {
        if unit_is_early_nul(path_units(target.mountpoint)) {
            lemma_mount_tail(
                target,
                making,
                Ok(file_system),
                Seq::empty(),
                Plan::Done(Err(FsError::InvalidInput("invalid Windows mount point"))),
            );
        } else if time_tick(now) > u64::MAX {
            lemma_mount_tail(target, making, Ok(file_system), seq![clock], Plan::Overflow);
        } else {
            lemma_mount_tail(
                target,
                making,
                Ok(file_system),
                seq![clock, (name, yes), (prefix, yes), (start, yes)],
                Plan::Done(Ok(())),
            );
            lemma_mount_tail(
                target,
                making,
                Ok(file_system),
                seq![clock, (name, yes), (prefix, yes), (start, no)],
                Plan::Done(Err(FsError::Other("cannot start WinFSP filesystem"))),
            );
            lemma_mount_tail(
                target,
                making,
                Ok(file_system),
                seq![clock, (name, yes), (prefix, no)],
                Plan::Done(Err(FsError::Other("invalid filesystem prefix"))),
            );
            lemma_mount_tail(
                target,
                making,
                Ok(file_system),
                seq![clock, (name, no)],
                Plan::Done(Err(FsError::Other("invalid filesystem name"))),
            );
        }
    }
}

/// Mounting goes on with what is left once the file system is made, or could not be.
proof fn lemma_mount_tail<Provider, Cipher>(
    target: MountPointImpl<Provider, Cipher>,
    making: SystemTalk<Provider, Cipher>,
    made: Result<WindowsFs, FsError>,
    tail: SystemTalk<Provider, Cipher>,
    end: MountPlan<Provider, Cipher>,
)
    requires
        adapter_plan::<Provider, Cipher>(target.read_only).converses(making, Plan::Done(made)),
        locating::<Provider, Cipher>(target.mountpoint)(made).converses(tail, end),
    ensures
        ({
            let begun: SystemTalk<Provider, Cipher> = seq![
                (SystemRequest::InitDriver, SystemReply::Worked(true)),
                (
                    SystemRequest::OpenStore {
                        data_dir: target.data_dir,
                        password_provider: target.password_provider,
                        cipher: target.cipher,
                        read_only: target.read_only,
                    },
                    SystemReply::Opened(Ok(())),
                ),
            ];
            &&& mount_plan(target).converses(begun + making + tail, end)
            &&& tail.len() == 0 ==> mount_plan(target).converses(begun + making, end)
        }),
{
    reveal_with_fuel(Plan::converses_from, 3);
    let plan = mount_plan(target);
    let adapter = adapter_plan::<Provider, Cipher>(target.read_only);
    let rest = locating::<Provider, Cipher>(target.mountpoint);
    let begun: SystemTalk<Provider, Cipher> = seq![
        (SystemRequest::InitDriver, SystemReply::Worked(true)),
        (
            SystemRequest::OpenStore {
                data_dir: target.data_dir,
                password_provider: target.password_provider,
                cipher: target.cipher,
                read_only: target.read_only,
            },
            SystemReply::Opened(Ok(())),
        ),
    ];
    assert(plan.converses(begun, adapter.bind(rest)));
    adapter.lemma_bind_converses(rest, making, made, tail, end);
    plan.lemma_converses_on(begun, adapter.bind(rest), making + tail, end);
    assert(begun + (making + tail) == begun + making + tail);
    if tail.len() == 0 {
        assert(begun + making + tail == begun + making);
    }
}

} // verus!
