//! Inventory of the block devices of a Linux host: devices, their partitions,
//! the mount point of each partition and, optionally, the identifiers that a
//! GUID partition table gives them.
//!
//! The library does not touch the system itself. Its caller lists the
//! directory of block devices, reads the small files below it, and hands
//! over what came back; the library says which devices that describes, or
//! which failure ends the pass.

pub mod decimal;
pub mod error;
pub mod fs_wrap;
pub mod gpt;
pub mod laws;
pub mod mounts;
pub mod size;
pub mod text;

pub use error::DrivesError;
pub use fs_wrap::{DeviceDir, Entry, PartitionDir};
pub use gpt::{GptProbe, GptUUID};
pub use mounts::{Mount, Mounts};
pub use size::{Size, Unit};

use error::{view_result, DrivesErrorView};
use fs_wrap::{
    build_path, name_from_direntry, path_to_string, read_bool_file, read_dir, read_file_to_u32,
    read_file_to_u64, spec_path_to_string, spec_read_bool_file, spec_read_file_to_u32,
    spec_read_file_to_u64, DeviceDirView, PartitionDirView,
};
use gpt::{enrich_with_gpt_uuid, spec_enrich_with_gpt_uuid, GptUUIDView};
use mounts::{mounts_of_lines, MountView};
use text::{clean, contains, occurs_in, starts_with, trimmed, without_line_feeds};
use vstd::prelude::*;

verus! {

/// A partition of a device.
#[derive(Debug)]
pub struct Partition {
    /// The name of the partition.
    pub name: String,
    /// The size of the partition.
    pub size: Size,
    /// The number that the kernel gave the partition.
    pub number: u32,
    /// Where the partition is mounted, if it is.
    pub mountpoint: Option<Mount>,
    /// The identifier of the partition in the partition table, or why
    /// there is none.
    pub part_uuid: GptUUID,
}

/// A `Partition` as a mathematical value.
pub struct PartitionView {
    pub name: Seq<char>,
    pub size: nat,
    pub number: u32,
    pub mountpoint: Option<MountView>,
    pub part_uuid: GptUUIDView,
}

impl View for Partition {
    type V = PartitionView;

    open spec fn view(&self) -> PartitionView {
        PartitionView {
            name: self.name@,
            size: self.size@,
            number: self.number,
            mountpoint: self.mountpoint.deep_view(),
            part_uuid: self.part_uuid@,
        }
    }
}

impl DeepView for Partition {
    type V = PartitionView;

    open spec fn deep_view(&self) -> PartitionView {
        self@
    }
}

/// A block device.
#[derive(Debug)]
pub struct Device {
    /// The name of the device.
    pub name: String,
    /// The partitions of the device, in the order in which they were found.
    pub partitions: Vec<Partition>,
    /// Whether the device can be removed, as a flash drive can.
    pub is_removable: bool,
    /// The model of the device; virtual devices have none.
    pub model: Option<String>,
    /// The serial number of the device.
    pub serial: Option<String>,
    /// The size of the device.
    pub size: Size,
    /// The identifier of the disk in its partition table, or why there is
    /// none.
    pub uuid: GptUUID,
}

/// A `Device` as a mathematical value.
pub struct DeviceView {
    pub name: Seq<char>,
    pub partitions: Seq<PartitionView>,
    pub is_removable: bool,
    pub model: Option<Seq<char>>,
    pub serial: Option<Seq<char>>,
    pub size: nat,
    pub uuid: GptUUIDView,
}

impl DeviceView {
    /// Every partition of a device carries the device's name at the
    /// beginning of its own.
    pub open spec fn wf(self) -> bool {
        forall|i: int|
            0 <= i < self.partitions.len() ==> self.name.is_prefix_of(
                #[trigger] self.partitions[i].name,
            )
    }
}

impl View for Device {
    type V = DeviceView;

    open spec fn view(&self) -> DeviceView {
        DeviceView {
            name: self.name@,
            partitions: self.partitions.deep_view(),
            is_removable: self.is_removable,
            model: self.model.deep_view(),
            serial: self.serial.deep_view(),
            size: self.size@,
            uuid: self.uuid@,
        }
    }
}

impl Device {
    /// Every partition of the device carries the device's name at the
    /// beginning of its own.
    pub open spec fn wf(&self) -> bool {
        self@.wf()
    }
}

impl DeepView for Device {
    type V = DeviceView;

    open spec fn deep_view(&self) -> DeviceView {
        self@
    }
}

/// Where the discovery looks: the directory of block devices and the mount
/// table.
pub struct Drives {
    /// The path of the directory that holds one entry for each block
    /// device.
    pub base_path: String,
    /// The mount table.
    pub mounts: Mounts,
}

/// The mount of a partition: the first mount whose device holds the
/// partition's name somewhere in its own.
pub open spec fn spec_find_mountpoint(mounts: Seq<MountView>, partition_name: Seq<char>) -> Option<
    MountView,
>
    decreases mounts.len(),
{
    if mounts.len() == 0 {
        None
    } else if occurs_in(mounts[0].device, partition_name) {
        Some(mounts[0])
    } else {
        spec_find_mountpoint(mounts.drop_first(), partition_name)
    }
}

/// What one entry of a device's directory contributes. An entry whose kind
/// is unknown ends the pass. An entry that is no directory, or whose name
/// does not begin with the device's name, contributes nothing. Any other is
/// a partition, and its size and its number must be readable, in this
/// order.
pub open spec fn spec_partition_of(
    device_name: Seq<char>,
    mounts: Seq<MountView>,
    dir: PartitionDirView,
) -> Result<Option<PartitionView>, DrivesErrorView> {
    let entry = dir.entry;
    if entry.is_dir is None {
        Err(DrivesErrorView::FileTypeError { filename: spec_path_to_string(entry.path) })
    } else if entry.is_dir == Some(false) {
        Ok(None)
    } else if entry.file_name is None {
        Err(DrivesErrorView::NameFromDirEntryFailed)
    } else if !device_name.is_prefix_of(entry.file_name->Some_0) {
        Ok(None)
    } else if entry.path is None {
        Err(DrivesErrorView::PathAppendFailed)
    } else {
        let name = entry.file_name->Some_0;
        let path = entry.path->Some_0;
        match (
            spec_read_file_to_u64(path + "/size"@, dir.size),
            spec_read_file_to_u32(path + "/partition"@, dir.partition),
        ) {
            (Err(error), _) => Err(error),
            (Ok(_), Err(error)) => Err(error),
            (Ok(size), Ok(number)) => Ok(
                Some(
                    PartitionView {
                        name,
                        size: size as nat,
                        number,
                        mountpoint: spec_find_mountpoint(mounts, name),
                        part_uuid: GptUUIDView::NotAvailable,
                    },
                ),
            ),
        }
    }
}

/// The partitions that the entries of a device's directory describe, in
/// the order of the entries, or the first failure on the way. An entry that
/// could not be read is a failure of the directory at `path`.
pub open spec fn spec_collect_partitions(
    device_name: Seq<char>,
    mounts: Seq<MountView>,
    path: Seq<char>,
    entries: Seq<Option<PartitionDirView>>,
) -> Result<Seq<PartitionView>, DrivesErrorView>
    decreases entries.len(),
{
    if entries.len() == 0 {
        Ok(Seq::empty())
    } else {
        match spec_collect_partitions(device_name, mounts, path, entries.drop_last()) {
            Err(error) => Err(error),
            Ok(found) => match entries.last() {
                None => Err(DrivesErrorView::DiraccessError { directory: path }),
                Some(dir) => match spec_partition_of(device_name, mounts, dir) {
                    Err(error) => Err(error),
                    Ok(None) => Ok(found),
                    Ok(Some(partition)) => Ok(found.push(partition)),
                },
            },
        }
    }
}

/// The partitions of a device, or the failure that ends the pass: the
/// mount table must be readable, then the device's name and its path, then
/// the listing of its directory, then each entry of the listing.
pub open spec fn spec_find_partitions(device: DeviceDirView) -> Result<
    Seq<PartitionView>,
    DrivesErrorView,
> {
    let entry = device.entry;
    if device.mounts is None {
        Err(DrivesErrorView::ReadingMountsFailed)
    } else if entry.file_name is None || entry.path is None {
        Err(DrivesErrorView::NameFromDirEntryFailed)
    } else if device.entries is None {
        Err(DrivesErrorView::DiraccessError { directory: entry.path->Some_0 })
    } else {
        spec_collect_partitions(
            entry.file_name->Some_0,
            mounts_of_lines(device.mounts->Some_0),
            entry.path->Some_0,
            device.entries->Some_0,
        )
    }
}

/// A text that may be missing: the content of a file where the file could
/// be opened, nothing where it could not.
pub open spec fn spec_optional_text(raw: Option<Seq<char>>) -> Option<Seq<char>> {
    match raw {
        Some(text) => Some(trimmed(without_line_feeds(text))),
        None => None,
    }
}

/// The device that the files of an entry of the directory of block devices
/// describe, before a look at its partition table, or the failure that
/// ends the pass. The name, the path, the flag `removable`, the partitions
/// and the size must be readable, in this order; the model and the serial
/// number may be missing.
pub open spec fn spec_device_from_files(dir: DeviceDirView) -> Result<DeviceView, DrivesErrorView> {
    let entry = dir.entry;
    if entry.file_name is None {
        Err(DrivesErrorView::NameFromDirEntryFailed)
    } else if entry.path is None {
        Err(DrivesErrorView::PathAppendFailed)
    } else {
        let path = entry.path->Some_0;
        match (
            spec_read_bool_file(path + "/removable"@, dir.removable),
            spec_find_partitions(dir),
            spec_read_file_to_u64(path + "/size"@, dir.size),
        ) {
            (Err(error), _, _) => Err(error),
            (Ok(_), Err(error), _) => Err(error),
            (Ok(_), Ok(_), Err(error)) => Err(error),
            (Ok(is_removable), Ok(partitions), Ok(size)) => Ok(
                DeviceView {
                    name: entry.file_name->Some_0,
                    partitions,
                    is_removable,
                    model: spec_optional_text(dir.model),
                    serial: spec_optional_text(dir.serial),
                    size: size as nat,
                    uuid: GptUUIDView::NotAvailable,
                },
            ),
        }
    }
}

/// The device that an entry of the directory of block devices describes:
/// the device that its files describe, with what a look at its partition
/// table gave. What the look gave never ends the pass.
pub open spec fn spec_device_of(dir: DeviceDirView) -> Result<DeviceView, DrivesErrorView> {
    match spec_device_from_files(dir) {
        Ok(device) => Ok(spec_enrich_with_gpt_uuid(device, dir.gpt)),
        Err(error) => Err(error),
    }
}

/// The devices that the entries of the directory at `base_path` describe,
/// in the order of the entries, or the first failure on the way. An entry
/// that could not be read is a failure of that directory.
pub open spec fn spec_collect_devices(
    base_path: Seq<char>,
    entries: Seq<Option<DeviceDirView>>,
) -> Result<Seq<DeviceView>, DrivesErrorView>
    decreases entries.len(),
{
    if entries.len() == 0 {
        Ok(Seq::empty())
    } else {
        match spec_collect_devices(base_path, entries.drop_last()) {
            Err(error) => Err(error),
            Ok(found) => match entries.last() {
                None => Err(DrivesErrorView::DiraccessError { directory: base_path }),
                Some(dir) => match spec_device_of(dir) {
                    Err(error) => Err(error),
                    Ok(device) => Ok(found.push(device)),
                },
            },
        }
    }
}

/// The outcome of a discovery pass over the directory at `base_path`, of
/// which `listing` is what listing it gave.
pub open spec fn spec_get_devices(
    base_path: Seq<char>,
    listing: Option<Seq<Option<DeviceDirView>>>,
) -> Result<Seq<DeviceView>, DrivesErrorView> {
    match listing {
        None => Err(DrivesErrorView::DiraccessError { directory: base_path }),
        Some(entries) => spec_collect_devices(base_path, entries),
    }
}

/// A failure among the first entries of a device's directory is the
/// failure of the whole directory.
pub proof fn lemma_partition_failure_ends_pass(
    device_name: Seq<char>,
    mounts: Seq<MountView>,
    path: Seq<char>,
    entries: Seq<Option<PartitionDirView>>,
    k: int,
)
    requires
        0 <= k <= entries.len(),
        spec_collect_partitions(device_name, mounts, path, entries.take(k)) is Err,
    ensures
        spec_collect_partitions(device_name, mounts, path, entries) == spec_collect_partitions(
            device_name,
            mounts,
            path,
            entries.take(k),
        ),
    decreases entries.len(),
{
    if k < entries.len() {
        assert(entries.drop_last().take(k) =~= entries.take(k));
        lemma_partition_failure_ends_pass(device_name, mounts, path, entries.drop_last(), k);
    } else {
        assert(entries.take(k) =~= entries);
    }
}

/// A failure among the first devices is the failure of the whole pass.
pub proof fn lemma_device_failure_ends_pass(
    base_path: Seq<char>,
    entries: Seq<Option<DeviceDirView>>,
    k: int,
)
    requires
        0 <= k <= entries.len(),
        spec_collect_devices(base_path, entries.take(k)) is Err,
    ensures
        spec_collect_devices(base_path, entries) == spec_collect_devices(
            base_path,
            entries.take(k),
        ),
    decreases entries.len(),
{
    if k < entries.len() {
        assert(entries.drop_last().take(k) =~= entries.take(k));
        lemma_device_failure_ends_pass(base_path, entries.drop_last(), k);
    } else {
        assert(entries.take(k) =~= entries);
    }
}

impl Drives {
    /// The usual places: `/sys/block` and `/proc/mounts`.
    pub fn new() -> (drives: Drives)
        ensures
            drives.base_path@ == "/sys/block"@,
            drives.mounts.mount_file_path@ == "/proc/mounts"@,
    {
        Drives { base_path: "/sys/block".to_owned(), mounts: Mounts::new() }
    }

    /// Looks for the mount of a partition among the mounts of the table.
    pub fn find_mountpoint_for_partition(&self, mounts: &[Mount], partition_name: &str) -> (result:
        Result<Option<Mount>, DrivesError>)
        ensures
            view_result(result) == Ok::<Option<MountView>, DrivesErrorView>(
                spec_find_mountpoint(mounts.deep_view(), partition_name@),
            ),
    {
        let mut i: usize = 0;
        proof {
            assert(mounts.deep_view().skip(0) =~= mounts.deep_view());
        }
        while i < mounts.len()
            invariant
                i <= mounts.len(),
                spec_find_mountpoint(mounts.deep_view(), partition_name@) == spec_find_mountpoint(
                    mounts.deep_view().skip(i as int),
                    partition_name@,
                ),
            decreases mounts.len() - i,
        {
            proof {
                assert(mounts.deep_view().skip(i as int)[0] == mounts[i as int]@);
                assert(mounts.deep_view().skip(i as int).drop_first() =~= mounts.deep_view().skip(
                    i + 1,
                ));
            }
            if contains(mounts[i].device.as_str(), partition_name) {
                return Ok(Some(mounts[i].clone()));
            }
            i += 1;
        }
        Ok(None)
    }

    /// Reads one entry of a device's directory.
    fn read_partition(
        &self,
        device_name: &str,
        mounts: &[Mount],
        dir: &PartitionDir,
    ) -> (result: Result<Option<Partition>, DrivesError>)
        ensures
            view_result(result) == spec_partition_of(
                device_name@,
                mounts.deep_view(),
                dir.deep_view(),
            ),
    {
        let is_dir = match dir.entry.is_dir {
            Some(is_dir) => is_dir,
            None => {
                return Err(
                    DrivesError::FileTypeError { filename: path_to_string(&dir.entry.path) },
                );
            },
        };
        if !is_dir {
            return Ok(None);
        }
        let dir_name = name_from_direntry(&dir.entry)?;
        if !starts_with(dir_name.as_str(), device_name) {
            return Ok(None);
        }
        let size_path = build_path(&dir.entry, "/size")?;
        let size = read_file_to_u64(size_path.as_str(), &dir.size)?;
        let mount = self.find_mountpoint_for_partition(mounts, dir_name.as_str())?;
        let number_path = build_path(&dir.entry, "/partition")?;
        let number = read_file_to_u32(number_path.as_str(), &dir.partition)?;
        Ok(
            Some(
                Partition {
                    name: dir_name,
                    size: Size::new(size),
                    number,
                    mountpoint: mount,
                    part_uuid: GptUUID::NotAvailable,
                },
            ),
        )
    }

    /// Finds the partitions of a device among the entries of its directory.
    pub fn find_partitions(&self, device: &DeviceDir) -> (result: Result<
        Vec<Partition>,
        DrivesError,
    >)
        ensures
            view_result(result) == spec_find_partitions(device.deep_view()),
    {
        let mount_points = self.mounts.read_mountpoints(&device.mounts)?;
        let base_dir_name = name_from_direntry(&device.entry)?;
        let dir_entry_path = match &device.entry.path {
            Some(path) => path.clone(),
            None => {
                return Err(DrivesError::NameFromDirEntryFailed);
            },
        };
        let entries = read_dir(dir_entry_path.as_str(), &device.entries)?;
        let ghost all = entries.deep_view();
        let ghost name = base_dir_name@;
        let ghost mounts = mount_points.deep_view();
        let ghost path = dir_entry_path@;
        let mut partitions: Vec<Partition> = Vec::new();
        let mut i: usize = 0;
        proof {
            assert(all.take(0) =~= Seq::empty());
            assert(partitions.deep_view() =~= Seq::empty());
            assert(device.deep_view().entries == Some(all));
        }
        while i < entries.len()
            invariant
                i <= entries.len(),
                all == entries.deep_view(),
                name == base_dir_name@,
                mounts == mount_points.deep_view(),
                path == dir_entry_path@,
                spec_find_partitions(device.deep_view()) == spec_collect_partitions(
                    name,
                    mounts,
                    path,
                    all,
                ),
                spec_collect_partitions(name, mounts, path, all.take(i as int)) == Ok::<
                    Seq<PartitionView>,
                    DrivesErrorView,
                >(partitions.deep_view()),
            decreases entries.len() - i,
        {
            let ghost before = partitions.deep_view();
            proof {
                assert(all.take(i + 1).drop_last() =~= all.take(i as int));
                assert(all.take(i + 1).last() == entries[i as int].deep_view());
            }
            let outcome = match &entries[i] {
                Some(dir) => self.read_partition(
                    base_dir_name.as_str(),
                    mount_points.as_slice(),
                    dir,
                ),
                None => Err(DrivesError::DiraccessError { directory: dir_entry_path.clone() }),
            };
            match outcome {
                Ok(Some(partition)) => {
                    partitions.push(partition);
                    proof {
                        assert(partitions.deep_view() =~= before.push(partition@));
                    }
                },
                Ok(None) => {},
                Err(error) => {
                    proof {
                        lemma_partition_failure_ends_pass(name, mounts, path, all, i + 1);
                    }
                    return Err(error);
                },
            }
            i += 1;
        }
        proof {
            assert(all.take(entries.len() as int) =~= all);
        }
        Ok(partitions)
    }

    /// The model and the serial number of a device, each as far as its
    /// file could be opened.
    pub fn read_model_and_serial_if_available(&self, device: &DeviceDir) -> (found: (
        Option<String>,
        Option<String>,
    ))
        ensures
            found.0.deep_view() == spec_optional_text(device.deep_view().model),
            found.1.deep_view() == spec_optional_text(device.deep_view().serial),
    {
        let model = match &device.model {
            Some(text) => Some(clean(text.as_str())),
            None => None,
        };
        let serial = match &device.serial {
            Some(text) => Some(clean(text.as_str())),
            None => None,
        };
        (model, serial)
    }

    /// Reads one entry of the directory of block devices.
    fn read_device(&self, dir: &DeviceDir) -> (result: Result<Device, DrivesError>)
        ensures
            view_result(result) == spec_device_of(dir.deep_view()),
    {
        let device_name = name_from_direntry(&dir.entry)?;
        let removable_path = build_path(&dir.entry, "/removable")?;
        let removable = read_bool_file(removable_path.as_str(), &dir.removable)?;
        let partitions = self.find_partitions(dir)?;
        let model_and_serial = self.read_model_and_serial_if_available(dir);
        let size_path = build_path(&dir.entry, "/size")?;
        let size = read_file_to_u64(size_path.as_str(), &dir.size)?;
        let device = Device {
            name: device_name,
            partitions,
            is_removable: removable,
            model: model_and_serial.0,
            serial: model_and_serial.1,
            size: Size::new(size),
            uuid: GptUUID::NotAvailable,
        };
        Ok(enrich_with_gpt_uuid(device, &dir.gpt))
    }

    /// One discovery pass. `listing` is what listing the directory at
    /// `base_path` gave: `None` where it could not be listed, and an entry
    /// is `None` where it could not be read.
    pub fn get_devices(&self, listing: &Option<Vec<Option<DeviceDir>>>) -> (result: Result<
        Vec<Device>,
        DrivesError,
    >)
        ensures
            view_result(result) == spec_get_devices(self.base_path@, listing.deep_view()),
            listing is None ==> view_result(result) == Err::<Seq<DeviceView>, DrivesErrorView>(
                DrivesErrorView::DiraccessError { directory: self.base_path@ },
            ),
            result matches Ok(devices) ==> forall|i: int|
                0 <= i < devices.len() ==> (#[trigger] devices[i]).wf(),
    {
        let entries = read_dir(self.base_path.as_str(), listing)?;
        let ghost all = entries.deep_view();
        let mut devices: Vec<Device> = Vec::new();
        let mut i: usize = 0;
        proof {
            assert(all.take(0) =~= Seq::empty());
            assert(devices.deep_view() =~= Seq::empty());
            assert(listing.deep_view() == Some(all));
        }
        while i < entries.len()
            invariant
                i <= entries.len(),
                all == entries.deep_view(),
                spec_get_devices(self.base_path@, listing.deep_view()) == spec_collect_devices(
                    self.base_path@,
                    all,
                ),
                spec_collect_devices(self.base_path@, all.take(i as int)) == Ok::<
                    Seq<DeviceView>,
                    DrivesErrorView,
                >(devices.deep_view()),
            decreases entries.len() - i,
        {
            let ghost before = devices.deep_view();
            proof {
                assert(all.take(i + 1).drop_last() =~= all.take(i as int));
                assert(all.take(i + 1).last() == entries[i as int].deep_view());
            }
            let outcome = match &entries[i] {
                Some(dir) => self.read_device(dir),
                None => Err(DrivesError::DiraccessError { directory: self.base_path.clone() }),
            };
            match outcome {
                Ok(device) => {
                    devices.push(device);
                    proof {
                        assert(devices.deep_view() =~= before.push(device@));
                    }
                },
                Err(error) => {
                    proof {
                        lemma_device_failure_ends_pass(self.base_path@, all, i + 1);
                    }
                    return Err(error);
                },
            }
            i += 1;
        }
        proof {
            assert(all.take(entries.len() as int) =~= all);
            laws::lemma_devices_are_well_formed(self.base_path@, listing.deep_view());
            let described = devices.deep_view();
            assert(spec_get_devices(self.base_path@, listing.deep_view()) == Ok::<
                Seq<DeviceView>,
                DrivesErrorView,
            >(described));
            let outcome = spec_get_devices(self.base_path@, listing.deep_view());
            assert(outcome->Ok_0 == described);
            assert forall|i: int| 0 <= i < devices.len() implies (#[trigger] devices[i]).wf() by {
                assert(described[i].wf());
            }
        }
        Ok(devices)
    }
}

/// One discovery pass over `/sys/block`, of which `listing` is what
/// listing it gave.
pub fn get_devices(listing: &Option<Vec<Option<DeviceDir>>>) -> (result: Result<
    Vec<Device>,
    DrivesError,
>)
    ensures
        view_result(result) == spec_get_devices("/sys/block"@, listing.deep_view()),
        listing is None ==> view_result(result) == Err::<Seq<DeviceView>, DrivesErrorView>(
            DrivesErrorView::DiraccessError { directory: "/sys/block"@ },
        ),
        result matches Ok(devices) ==> forall|i: int|
            0 <= i < devices.len() ==> (#[trigger] devices[i]).wf(),
{
    let drives = Drives::new();
    drives.get_devices(listing)
}

} // verus!
