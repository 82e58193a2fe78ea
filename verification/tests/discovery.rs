use drives::{
    get_devices, Device, DeviceDir, Drives, DrivesError, Entry, GptProbe, GptUUID, Mounts,
    PartitionDir,
};
use std::collections::BTreeMap;

/// The text of the file with the given name among the files of a directory.
fn file(files: &[(&str, &str)], name: &str) -> Option<String> {
    files
        .iter()
        .find(|(file_name, _)| *file_name == name)
        .map(|(_, content)| content.to_string())
}

fn entry(parent: &str, name: &str, is_dir: bool) -> Entry {
    Entry {
        file_name: Some(name.to_string()),
        path: Some(format!("{}/{}", parent, name)),
        is_dir: Some(is_dir),
    }
}

fn sub_dir(parent: &str, name: &str, files: &[(&str, &str)]) -> Option<PartitionDir> {
    Some(PartitionDir {
        entry: entry(parent, name, true),
        size: file(files, "size"),
        partition: file(files, "partition"),
    })
}

fn sub_file(parent: &str, name: &str) -> Option<PartitionDir> {
    Some(PartitionDir { entry: entry(parent, name, false), size: None, partition: None })
}

fn mount_lines(content: &str) -> Option<Vec<Option<String>>> {
    Some(content.lines().map(|line| Some(line.to_string())).collect())
}

fn device_dir(
    base: &str,
    name: &str,
    files: &[(&str, &str)],
    entries: Vec<Option<PartitionDir>>,
) -> DeviceDir {
    DeviceDir {
        entry: entry(base, name, true),
        removable: file(files, "removable"),
        size: file(files, "size"),
        model: file(files, "device/model"),
        serial: file(files, "device/serial"),
        mounts: mount_lines(""),
        entries: Some(entries),
        gpt: GptProbe::Disabled,
    }
}

fn nvme(base: &str) -> DeviceDir {
    let dir = format!("{}/nvme0n1", base);
    device_dir(
        base,
        "nvme0n1",
        &[("removable", "0"), ("size", "1000215216")],
        vec![
            sub_dir(&dir, "nvme0n1p1", &[("size", "1050624"), ("partition", "1")]),
            sub_dir(&dir, "nvme0n1p2", &[("size", "999162511"), ("partition", "2")]),
            sub_dir(&dir, "power", &[]),
        ],
    )
}

fn sda(base: &str) -> DeviceDir {
    let dir = format!("{}/sda", base);
    let mut device = device_dir(
        base,
        "sda",
        &[
            ("removable", "1\n"),
            ("size", "30277632\n"),
            ("device/model", "Flash Drive     \n"),
            ("device/serial", "0123456789\n"),
        ],
        vec![
            sub_file(&dir, "uevent"),
            sub_dir(&dir, "queue", &[]),
            sub_dir(&dir, "sda1", &[("size", "2048\n"), ("partition", "1\n")]),
            sub_dir(&dir, "sda2", &[("size", "30273536\n"), ("partition", "2\n")]),
        ],
    );
    device.mounts = mount_lines(
        "/dev/sda1 / ext4 rw,relatime 0 0\n/dev/sda2 /home ext4 rw,relatime 0 0",
    );
    device
}

fn failure(listing: Vec<Option<DeviceDir>>) -> DrivesError {
    match get_devices(&Some(listing)) {
        Err(error) => error,
        Ok(_) => panic!("no failure"),
    }
}

fn only(listing: Vec<Option<DeviceDir>>) -> Device {
    let mut devices = get_devices(&Some(listing)).unwrap();
    assert_eq!(devices.len(), 1);
    devices.remove(0)
}

#[test]
fn test_drives() {
    // the directory that stands for /sys/block
    let base = "/tmp/block";

    // execute
    let drives = Drives { base_path: base.to_owned(), mounts: Mounts::new() };
    let devices = drives.get_devices(&Some(vec![Some(nvme(base))])).unwrap();

    // now verify the results
    assert_eq!(1, devices.len());
    let device = devices.get(0).unwrap();
    assert_eq!("nvme0n1", device.name);
    assert!(!device.is_removable);
    assert_eq!(2, device.partitions.len());
    let part1 = device
        .partitions
        .iter()
        .find(|part| part.name.eq("nvme0n1p1"));
    assert!(part1.is_some());
    let part2 = device
        .partitions
        .iter()
        .find(|part| part.name.eq("nvme0n1p2"));
    assert!(part2.is_some());
}

#[test]
fn a_device_is_described_in_full() {
    let device = only(vec![Some(nvme("/sys/block"))]);
    assert_eq!(device.name, "nvme0n1");
    assert_eq!(device.size.get_raw_size(), 1000215216);
    assert!(device.model.is_none());
    assert!(device.serial.is_none());
    assert!(matches!(device.uuid, GptUUID::FeatureNotEnabled));
    assert_eq!(device.partitions[0].name, "nvme0n1p1");
    assert_eq!(device.partitions[0].size.get_raw_size(), 1050624);
    assert_eq!(device.partitions[0].number, 1);
    assert!(device.partitions[0].mountpoint.is_none());
    assert!(matches!(device.partitions[0].part_uuid, GptUUID::FeatureNotEnabled));
    assert!(matches!(device.partitions[1].part_uuid, GptUUID::FeatureNotEnabled));
    assert_eq!(device.partitions[1].name, "nvme0n1p2");
    assert_eq!(device.partitions[1].size.get_raw_size(), 999162511);
    assert_eq!(device.partitions[1].number, 2);
    assert_eq!(device.partitions[1].size.as_human_readable_string(), "476.44 GB");
}

#[test]
fn only_directories_named_after_the_device_are_partitions() {
    let base = "/sys/block";
    let dir = "/sys/block/sda";
    let device = only(vec![Some(device_dir(
        base,
        "sda",
        &[("removable", "0"), ("size", "100")],
        vec![
            sub_dir(dir, "sdb1", &[("size", "1"), ("partition", "1")]),
            sub_dir(dir, "xsda1", &[("size", "1"), ("partition", "1")]),
            sub_dir(dir, "sd", &[("size", "1"), ("partition", "1")]),
            sub_dir(dir, "sda7", &[("size", "7"), ("partition", "7")]),
            // a plain file is none, whatever its name
            Some(PartitionDir {
                entry: entry(dir, "sda8", false),
                size: Some("8".to_string()),
                partition: Some("8".to_string()),
            }),
            sub_dir(dir, "sda", &[("size", "3"), ("partition", "3")]),
            sub_dir(dir, "sda1", &[("size", "1"), ("partition", "1")]),
        ],
    ))]);
    let names: Vec<&str> = device.partitions.iter().map(|p| p.name.as_str()).collect();
    assert_eq!(names, vec!["sda7", "sda", "sda1"]);
    let numbers: Vec<u32> = device.partitions.iter().map(|p| p.number).collect();
    assert_eq!(numbers, vec![7, 3, 1]);
    for partition in device.partitions.iter() {
        assert!(partition.name.starts_with(&device.name));
    }
}

#[test]
fn partitions_resolve_to_their_mounts() {
    let device = only(vec![Some(sda("/sys/block"))]);
    assert!(device.is_removable);
    assert_eq!(device.model.as_deref(), Some("Flash Drive"));
    assert_eq!(device.serial.as_deref(), Some("0123456789"));
    assert_eq!(device.size.get_raw_size(), 30277632);
    assert_eq!(device.partitions.len(), 2);
    let sda1 = device.partitions[0].mountpoint.as_ref().unwrap();
    assert_eq!(sda1.device, "/dev/sda1");
    assert_eq!(sda1.mountpoint, "/");
    assert_eq!(sda1.filesystem, "ext4");
    let sda2 = device.partitions[1].mountpoint.as_ref().unwrap();
    assert_eq!(sda2.device, "/dev/sda2");
    assert_eq!(sda2.mountpoint, "/home");
    assert_eq!(sda2.filesystem, "ext4");
}

#[test]
fn the_first_mount_that_holds_the_name_wins() {
    let drives = Drives::new();
    let mounts = Mounts::new()
        .read_mountpoints(&mount_lines(
            "/dev/sdb1 /boot vfat rw\n/dev/sda10 /srv xfs rw\n/dev/sda1 / ext4 rw\n",
        ))
        .unwrap();
    let found = drives.find_mountpoint_for_partition(&mounts, "sda1").unwrap().unwrap();
    // the name stands in "/dev/sda10", which comes first
    assert_eq!(found.device, "/dev/sda10");
    assert_eq!(found.mountpoint, "/srv");
    let found = drives.find_mountpoint_for_partition(&mounts, "sdb1").unwrap().unwrap();
    assert_eq!(found.mountpoint, "/boot");
    assert!(drives.find_mountpoint_for_partition(&mounts, "sdc1").unwrap().is_none());
    assert!(drives.find_mountpoint_for_partition(&[], "sda1").unwrap().is_none());
}

#[test]
fn a_missing_model_or_serial_is_no_failure() {
    let base = "/sys/block";
    let mut with_model = sda(base);
    with_model.serial = None;
    let mut bare = sda(base);
    bare.model = None;
    bare.serial = None;
    let devices =
        get_devices(&Some(vec![Some(bare), Some(with_model), Some(nvme(base))])).unwrap();
    assert_eq!(devices.len(), 3);
    assert!(devices[0].model.is_none());
    assert!(devices[0].serial.is_none());
    assert_eq!(devices[0].partitions.len(), 2);
    assert_eq!(devices[1].model.as_deref(), Some("Flash Drive"));
    assert!(devices[1].serial.is_none());
    assert_eq!(devices[2].name, "nvme0n1");
}

#[test]
fn a_root_that_cannot_be_listed_fails_with_its_path() {
    match get_devices(&None) {
        Err(DrivesError::DiraccessError { directory }) => assert_eq!(directory, "/sys/block"),
        _ => panic!("no failure"),
    }
    let drives = Drives { base_path: "/tmp/elsewhere".to_owned(), mounts: Mounts::new() };
    match drives.get_devices(&None) {
        Err(DrivesError::DiraccessError { directory }) => assert_eq!(directory, "/tmp/elsewhere"),
        _ => panic!("no failure"),
    }
}

#[test]
fn an_empty_root_holds_no_devices() {
    assert!(get_devices(&Some(vec![])).unwrap().is_empty());
}

#[test]
fn devices_come_in_the_order_of_the_listing() {
    let base = "/sys/block";
    let devices = get_devices(&Some(vec![Some(sda(base)), Some(nvme(base))])).unwrap();
    let names: Vec<&str> = devices.iter().map(|d| d.name.as_str()).collect();
    assert_eq!(names, vec!["sda", "nvme0n1"]);
    let devices = get_devices(&Some(vec![Some(nvme(base)), Some(sda(base))])).unwrap();
    let names: Vec<&str> = devices.iter().map(|d| d.name.as_str()).collect();
    assert_eq!(names, vec!["nvme0n1", "sda"]);
}

#[test]
fn an_entry_of_the_root_that_cannot_be_read_fails_the_pass() {
    let base = "/sys/block";
    match failure(vec![Some(nvme(base)), None]) {
        DrivesError::DiraccessError { directory } => assert_eq!(directory, "/sys/block"),
        _ => panic!("another failure"),
    }
}

#[test]
fn a_device_name_that_is_no_text_fails_the_pass() {
    let mut device = nvme("/sys/block");
    device.entry.file_name = None;
    assert!(matches!(failure(vec![Some(device)]), DrivesError::NameFromDirEntryFailed));
}

#[test]
fn a_device_path_that_is_no_text_fails_the_pass() {
    let mut device = nvme("/sys/block");
    device.entry.path = None;
    assert!(matches!(failure(vec![Some(device)]), DrivesError::PathAppendFailed));
}

#[test]
fn a_missing_removable_flag_fails_the_pass() {
    let mut device = nvme("/sys/block");
    device.removable = None;
    match failure(vec![Some(sda("/sys/block")), Some(device)]) {
        DrivesError::FileAccessError { filename } => {
            assert_eq!(filename, "/sys/block/nvme0n1/removable")
        }
        _ => panic!("another failure"),
    }
}

#[test]
fn a_mount_table_that_cannot_be_opened_fails_the_pass() {
    let mut device = nvme("/sys/block");
    device.mounts = None;
    assert!(matches!(failure(vec![Some(device)]), DrivesError::ReadingMountsFailed));
}

#[test]
fn a_device_directory_that_cannot_be_listed_fails_the_pass() {
    let mut device = nvme("/sys/block");
    device.entries = None;
    match failure(vec![Some(device)]) {
        DrivesError::DiraccessError { directory } => assert_eq!(directory, "/sys/block/nvme0n1"),
        _ => panic!("another failure"),
    }
    let mut device = nvme("/sys/block");
    device.entries = Some(vec![None]);
    match failure(vec![Some(device)]) {
        DrivesError::DiraccessError { directory } => assert_eq!(directory, "/sys/block/nvme0n1"),
        _ => panic!("another failure"),
    }
}

#[test]
fn an_entry_of_unknown_kind_fails_the_pass() {
    let mut device = nvme("/sys/block");
    device.entries = Some(vec![Some(PartitionDir {
        entry: Entry {
            file_name: Some("power".to_string()),
            path: Some("/sys/block/nvme0n1/power".to_string()),
            is_dir: None,
        },
        size: None,
        partition: None,
    })]);
    match failure(vec![Some(device)]) {
        DrivesError::FileTypeError { filename } => {
            assert_eq!(filename, "/sys/block/nvme0n1/power")
        }
        _ => panic!("another failure"),
    }
    let mut device = nvme("/sys/block");
    device.entries = Some(vec![Some(PartitionDir {
        entry: Entry { file_name: None, path: None, is_dir: None },
        size: None,
        partition: None,
    })]);
    match failure(vec![Some(device)]) {
        DrivesError::FileTypeError { filename } => assert_eq!(filename, "???"),
        _ => panic!("another failure"),
    }
}

#[test]
fn a_partition_without_size_or_number_fails_the_pass() {
    let base = "/sys/block";
    let dir = "/sys/block/sda";
    let files = [("removable", "0"), ("size", "100")];
    let no_size = device_dir(base, "sda", &files, vec![sub_dir(dir, "sda1", &[("partition", "1")])]);
    match failure(vec![Some(no_size)]) {
        DrivesError::FileAccessError { filename } => {
            assert_eq!(filename, "/sys/block/sda/sda1/size")
        }
        _ => panic!("another failure"),
    }
    let no_number = device_dir(base, "sda", &files, vec![sub_dir(dir, "sda1", &[("size", "1")])]);
    match failure(vec![Some(no_number)]) {
        DrivesError::FileAccessError { filename } => {
            assert_eq!(filename, "/sys/block/sda/sda1/partition")
        }
        _ => panic!("another failure"),
    }
    let bad_size = device_dir(
        base,
        "sda",
        &files,
        vec![sub_dir(dir, "sda1", &[("size", "big"), ("partition", "1")])],
    );
    assert!(matches!(failure(vec![Some(bad_size)]), DrivesError::ConversionToU64Failed));
    let bad_number = device_dir(
        base,
        "sda",
        &files,
        vec![sub_dir(dir, "sda1", &[("size", "1"), ("partition", "4294967296")])],
    );
    assert!(matches!(failure(vec![Some(bad_number)]), DrivesError::ConversionToU32Failed));
}

#[test]
fn a_device_without_size_fails_the_pass() {
    let mut device = nvme("/sys/block");
    device.size = None;
    match failure(vec![Some(device)]) {
        DrivesError::FileAccessError { filename } => {
            assert_eq!(filename, "/sys/block/nvme0n1/size")
        }
        _ => panic!("another failure"),
    }
    let mut device = nvme("/sys/block");
    device.size = Some("".to_string());
    assert!(matches!(failure(vec![Some(device)]), DrivesError::ConversionToU64Failed));
}

#[test]
fn the_first_failure_is_the_one_reported() {
    // the flag is read before the mount table, the partitions before the size
    let mut device = nvme("/sys/block");
    device.removable = None;
    device.mounts = None;
    device.size = None;
    assert!(matches!(failure(vec![Some(device)]), DrivesError::FileAccessError { .. }));
    let mut device = nvme("/sys/block");
    device.mounts = None;
    device.entries = None;
    device.size = None;
    assert!(matches!(failure(vec![Some(device)]), DrivesError::ReadingMountsFailed));
    let mut device = nvme("/sys/block");
    device.entries = Some(vec![sub_dir("/sys/block/nvme0n1", "nvme0n1p1", &[])]);
    device.size = Some("x".to_string());
    match failure(vec![Some(device)]) {
        DrivesError::FileAccessError { filename } => {
            assert_eq!(filename, "/sys/block/nvme0n1/nvme0n1p1/size")
        }
        _ => panic!("another failure"),
    }
    // a failure behind a failure is not reached
    let mut first = nvme("/sys/block");
    first.size = Some("x".to_string());
    let mut second = sda("/sys/block");
    second.removable = None;
    assert!(matches!(
        failure(vec![Some(first), Some(second), None]),
        DrivesError::ConversionToU64Failed
    ));
}

#[test]
fn the_partition_table_never_fails_the_pass() {
    let base = "/sys/block";
    let mut no_header = nvme(base);
    let mut table = BTreeMap::new();
    table.insert(2, 0x4d3adf65_ff1b_473c_8f5e_b6c8d228b8d4);
    no_header.gpt = GptProbe::Table { disk_guid: None, partitions: table };
    let mut unreadable = sda(base);
    unreadable.gpt = GptProbe::Failed("No such file or directory (os error 2)".to_string());
    let devices = get_devices(&Some(vec![Some(no_header), Some(unreadable)])).unwrap();

    assert!(matches!(devices[0].uuid, GptUUID::NotAvailable));
    assert_eq!(devices[0].name, "nvme0n1");
    assert_eq!(devices[0].size.get_raw_size(), 1000215216);
    assert_eq!(devices[0].partitions.len(), 2);
    assert!(matches!(devices[0].partitions[0].part_uuid, GptUUID::NotAvailable));
    match &devices[0].partitions[1].part_uuid {
        GptUUID::UUID(uuid) => assert_eq!(uuid, "4d3adf65-ff1b-473c-8f5e-b6c8d228b8d4"),
        _ => panic!("no identifier"),
    }
    match &devices[1].uuid {
        GptUUID::IoError(detail) => assert_eq!(detail, "No such file or directory (os error 2)"),
        _ => panic!("no failure noted"),
    }
    assert_eq!(devices[1].partitions.len(), 2);
    assert!(matches!(devices[1].partitions[0].part_uuid, GptUUID::NotAvailable));
    assert!(matches!(devices[1].partitions[1].part_uuid, GptUUID::NotAvailable));
}

#[test]
fn the_usual_places_are_the_default() {
    let drives = Drives::new();
    assert_eq!(drives.base_path, "/sys/block");
    assert_eq!(drives.mounts.mount_file_path, "/proc/mounts");
}

#[test]
fn partitions_are_found_one_device_at_a_time() {
    let drives = Drives::new();
    let partitions = drives.find_partitions(&sda("/sys/block")).unwrap();
    assert_eq!(partitions.len(), 2);
    assert_eq!(partitions[0].name, "sda1");
    assert_eq!(partitions[0].size.get_raw_size(), 2048);
    assert_eq!(partitions[1].name, "sda2");
    assert_eq!(partitions[1].number, 2);
    let (model, serial) = drives.read_model_and_serial_if_available(&sda("/sys/block"));
    assert_eq!(model.as_deref(), Some("Flash Drive"));
    assert_eq!(serial.as_deref(), Some("0123456789"));
    let (model, serial) = drives.read_model_and_serial_if_available(&nvme("/sys/block"));
    assert!(model.is_none());
    assert!(serial.is_none());
}
