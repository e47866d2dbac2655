use rencfs_winfsp::adapter::VOLUME_SIZE;
use rencfs_winfsp::attr::ALLOCATION_UNIT;
use rencfs_winfsp::filetime::WINDOWS_EPOCH_OFFSET;
use rencfs_winfsp::mount::{volume_params, Mount, MountPointImpl};
use rencfs_winfsp::status::FsError;
use rencfs_winfsp::system::{SystemReply, SystemRequest, SystemStep};
use std::path::PathBuf;
use std::time::{Duration, UNIX_EPOCH};

#[derive(Debug, PartialEq)]
struct Password(&'static str);

#[derive(Debug, PartialEq)]
enum Cipher {
    ChaCha20Poly1305,
}

type MountStep = SystemStep<Password, Cipher, Mount<Password, Cipher>, Result<(), FsError>>;

fn target(mountpoint: &str, read_only: bool) -> MountPointImpl<Password, Cipher> {
    MountPointImpl::new(
        PathBuf::from(mountpoint),
        PathBuf::from("data"),
        Password("winfsp-adapter-test"),
        Cipher::ChaCha20Poly1305,
        true,
        true,
        read_only,
    )
}

fn units(text: &str) -> Vec<u16> {
    text.encode_utf16().collect()
}

/// Answers every request, one of them with a failure, and tells what was asked.
fn mount(
    target: MountPointImpl<Password, Cipher>,
    failing: &str,
) -> (Vec<String>, Option<Result<(), FsError>>) {
    let mut asked = Vec::new();
    let wanted = target.read_only;
    let mut step: MountStep = target.mount();
    loop {
        let (request, next) = match step {
            SystemStep::Ask { request, next } => (request, next),
            SystemStep::Done(result) => return (asked, Some(result)),
            SystemStep::Overflow => return (asked, None),
        };
        let text = format!("{request:?}");
        let kind = text.split([' ', '{']).next().unwrap().to_string();
        let works = kind != failing;
        let reply = match request {
            SystemRequest::OpenStore { data_dir, password_provider, cipher, read_only } => {
                assert_eq!(read_only, wanted);
                assert_eq!(data_dir, PathBuf::from("data"));
                assert_eq!(password_provider, Password("winfsp-adapter-test"));
                assert_eq!(cipher, Cipher::ChaCha20Poly1305);
                SystemReply::Opened(if works { Ok(()) } else { Err(FsError::InvalidInput("key")) })
            }
            SystemRequest::BuildRuntime => {
                SystemReply::Opened(if works { Ok(()) } else { Err(FsError::Io) })
            }
            SystemRequest::TokenSize => SystemReply::Size(if works { 40 } else { 0 }),
            SystemRequest::SidUnits => {
                SystemReply::Sid(if works { Some(units("S-1")) } else { None })
            }
            SystemRequest::FreeSid | SystemRequest::CloseToken => SystemReply::Released,
            SystemRequest::MakeDescriptor { text } => {
                let expected = "O:S-1G:S-1D:P(A;;FA;;;SY)(A;;FA;;;BA)(A;;FA;;;S-1)\0";
                assert_eq!(text, units(expected));
                SystemReply::Worked(works)
            }
            SystemRequest::MakeVolumeInfo { info } => {
                assert_eq!((info.total_size, info.free_size), (VOLUME_SIZE, VOLUME_SIZE));
                assert_eq!(info.volume_label, "rencfs");
                SystemReply::Worked(works)
            }
            SystemRequest::ReadClock => SystemReply::Time(if works {
                UNIX_EPOCH + Duration::new(1, 0)
            } else {
                UNIX_EPOCH + Duration::new(1_900_000_000_000, 0)
            }),
            SystemRequest::NameFileSystem { name } => {
                assert_eq!(name, "rencfs");
                SystemReply::Worked(works)
            }
            SystemRequest::SetPrefix { prefix } => {
                assert_eq!(prefix, "");
                SystemReply::Worked(works)
            }
            SystemRequest::StartVolume { params, mount_point, file_system } => {
                assert_eq!(params.volume_creation_time, WINDOWS_EPOCH_OFFSET + 10_000_000);
                assert_eq!(params.read_only_volume, wanted);
                assert_eq!(file_system.read_only, wanted);
                assert_eq!(mount_point, units("R:\0"));
                SystemReply::Worked(works)
            }
            _ => SystemReply::Worked(works),
        };
        asked.push(kind);
        step = next.resume(reply);
    }
}

const STEPS: [&str; 15] = [
    "InitDriver",
    "OpenStore",
    "BuildRuntime",
    "OpenToken",
    "TokenSize",
    "ReadToken",
    "SidUnits",
    "FreeSid",
    "CloseToken",
    "MakeDescriptor",
    "MakeVolumeInfo",
    "ReadClock",
    "NameFileSystem",
    "SetPrefix",
    "StartVolume",
];

#[test]
fn mounting_takes_its_steps_in_order() {
    let (asked, result) = mount(target("R:", false), "nothing");
    assert!(matches!(result, Some(Ok(()))));
    assert_eq!(asked, STEPS);
    let (asked, result) = mount(target("R:", true), "nothing");
    assert!(matches!(result, Some(Ok(()))));
    assert_eq!(asked, STEPS);
}

#[test]
fn mounting_stops_at_the_first_failure() {
    for (index, failing) in STEPS.iter().enumerate() {
        if ["FreeSid", "CloseToken"].contains(failing) {
            continue;
        }
        let (mut asked, result) = mount(target("R:", true), failing);
        if ["TokenSize", "ReadToken", "SidUnits"].contains(failing) {
            assert_eq!(asked.pop().unwrap(), "CloseToken");
        }
        assert_eq!(asked, STEPS[..index + 1]);
        let as_expected = match *failing {
            "InitDriver" => {
                matches!(result, Some(Err(FsError::Other("cannot initialize WinFSP"))))
            }
            "OpenStore" => matches!(result, Some(Err(FsError::InvalidInput("key")))),
            "TokenSize" => matches!(
                result,
                Some(Err(FsError::Other("cannot determine Windows token user size")))
            ),
            "MakeDescriptor" => matches!(
                result,
                Some(Err(FsError::Other("cannot create Windows security descriptor")))
            ),
            "MakeVolumeInfo" => {
                matches!(result, Some(Err(FsError::Other("cannot create Windows volume info"))))
            }
            "ReadClock" => result.is_none(),
            "NameFileSystem" => {
                matches!(result, Some(Err(FsError::Other("invalid filesystem name"))))
            }
            "SetPrefix" => {
                matches!(result, Some(Err(FsError::Other("invalid filesystem prefix"))))
            }
            "StartVolume" => {
                matches!(result, Some(Err(FsError::Other("cannot start WinFSP filesystem"))))
            }
            _ => matches!(result, Some(Err(FsError::Io))),
        };
        assert!(as_expected, "{failing}");
    }
}

#[test]
fn mount_point_holds_no_nul() {
    let (asked, result) = mount(target("R\0:", false), "nothing");
    assert!(matches!(
        result,
        Some(Err(FsError::InvalidInput("invalid Windows mount point")))
    ));
    assert_eq!(asked, STEPS[..11]);
}

#[test]
fn mount_point_keeps_what_it_is_given() {
    let kept = target("R:", true);
    assert_eq!(kept.mountpoint, PathBuf::from("R:"));
    assert_eq!(kept.data_dir, PathBuf::from("data"));
    assert!(kept.read_only);
    assert!(!target("R:", false).read_only);
}

#[test]
fn volume_parameters_are_fixed_but_for_time_and_mode() {
    let params = volume_params(true, 77);
    assert_eq!(params.sector_size, 512);
    assert_eq!(params.sectors_per_allocation_unit, 8);
    assert_eq!(params.volume_creation_time, 77);
    assert_eq!(params.volume_serial_number, 0x5245_4E43);
    assert_eq!(params.file_info_timeout, 1000);
    assert!(params.case_sensitive_search && params.case_preserved_names);
    assert!(params.unicode_on_disk && params.post_cleanup_when_modified_only);
    assert!(params.read_only_volume);
    assert!(!volume_params(false, 77).read_only_volume);
    assert_eq!((params.file_system_name, params.prefix), ("rencfs", ""));
    let unit = u64::from(params.sector_size) * u64::from(params.sectors_per_allocation_unit);
    assert_eq!(unit, ALLOCATION_UNIT);
}
