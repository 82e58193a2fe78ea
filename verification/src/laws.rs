//! What holds of every discovery pass, proved from the definitions.

use crate::error::DrivesErrorView;
use crate::fs_wrap::{DeviceDirView, PartitionDirView};
use crate::gpt::{spec_enrich_with_gpt_uuid, GptProbeView, GptUUIDView};
use crate::mounts::{mounts_of_lines, MountView};
use crate::text::occurs_in;
use crate::{
    spec_collect_devices, spec_collect_partitions, spec_device_from_files, spec_device_of,
    spec_find_mountpoint, spec_find_partitions, spec_get_devices, spec_optional_text,
    spec_partition_of, DeviceView, PartitionView,
};
use vstd::prelude::*;

verus! {

/// A partition is given the first mount of the table whose device holds
/// the partition's name, and none where no mount does.
pub proof fn lemma_first_matching_mount_wins(mounts: Seq<MountView>, partition_name: Seq<char>)
    ensures
        match spec_find_mountpoint(mounts, partition_name) {
            Some(mount) => exists|i: int|
                0 <= i < mounts.len() && #[trigger] mounts[i] == mount && occurs_in(
                    mount.device,
                    partition_name,
                ) && forall|j: int|
                    0 <= j < i ==> !occurs_in(#[trigger] mounts[j].device, partition_name),
            None => forall|j: int|
                0 <= j < mounts.len() ==> !occurs_in(#[trigger] mounts[j].device, partition_name),
        },
    decreases mounts.len(),
{
    if mounts.len() > 0 && !occurs_in(mounts[0].device, partition_name) {
        let rest = mounts.drop_first();
        lemma_first_matching_mount_wins(rest, partition_name);
        match spec_find_mountpoint(rest, partition_name) {
            Some(mount) => {
                let i = choose|i: int|
                    0 <= i < rest.len() && #[trigger] rest[i] == mount && occurs_in(
                        mount.device,
                        partition_name,
                    ) && forall|j: int|
                        0 <= j < i ==> !occurs_in(#[trigger] rest[j].device, partition_name);
                assert(mounts[i + 1] == mount);
                assert forall|j: int| 0 <= j < i + 1 implies !occurs_in(
                    #[trigger] mounts[j].device,
                    partition_name,
                ) by {
                    if j > 0 {
                        assert(mounts[j] == rest[j - 1]);
                    }
                }
            },
            None => {
                assert forall|j: int| 0 <= j < mounts.len() implies !occurs_in(
                    #[trigger] mounts[j].device,
                    partition_name,
                ) by {
                    if j > 0 {
                        assert(mounts[j] == rest[j - 1]);
                    }
                }
            },
        }
    } else if mounts.len() > 0 {
        assert(mounts[0] == mounts[0]);
    }
}

/// The name under which an entry of a device's directory counts as a
/// partition: the entry is a directory, and its name begins with the name
/// of the device. Any other entry counts as none.
pub open spec fn partition_name_of(device_name: Seq<char>, entry: Option<PartitionDirView>)
    -> Option<Seq<char>> {
    match entry {
        Some(dir) => match dir.entry.file_name {
            Some(name) => if dir.entry.is_dir == Some(true) && device_name.is_prefix_of(name) {
                Some(name)
            } else {
                None
            },
            None => None,
        },
        None => None,
    }
}

/// Where the partitions of a device are found at all, they are exactly the
/// directories of its listing whose name begins with the device's name, in
/// the order of the listing, and each goes by the name of its directory.
pub proof fn lemma_partitions_are_the_named_directories(
    device_name: Seq<char>,
    mounts: Seq<MountView>,
    path: Seq<char>,
    entries: Seq<Option<PartitionDirView>>,
)
    ensures
        spec_collect_partitions(device_name, mounts, path, entries) matches Ok(found)
            ==> found.map_values(|partition: PartitionView| partition.name) == entries.filter_map(
            |entry: Option<PartitionDirView>| partition_name_of(device_name, entry),
        ),
    decreases entries.len(),
{
    let name_of = |partition: PartitionView| partition.name;
    let counts = |entry: Option<PartitionDirView>| partition_name_of(device_name, entry);
    if entries.len() == 0 {
        assert(Seq::<PartitionView>::empty().map_values(name_of) =~= Seq::empty());
    } else {
        let previous = entries.drop_last();
        lemma_partitions_are_the_named_directories(device_name, mounts, path, previous);
        if let Ok(found) = spec_collect_partitions(device_name, mounts, path, entries) {
            let before = spec_collect_partitions(device_name, mounts, path, previous)->Ok_0;
            let dir = entries.last()->Some_0;
            assert(entries.last() == Some(dir));
            match spec_partition_of(device_name, mounts, dir) {
                Ok(Some(partition)) => {
                    assert(dir.entry.is_dir == Some(true));
                    assert(counts(entries.last()) == Some(partition.name));
                    assert(found.map_values(name_of) =~= before.map_values(name_of) + seq![
                        partition.name,
                    ]);
                },
                _ => {
                    assert(counts(entries.last()) is None);
                },
            }
        }
    }
}

/// Every partition that is found carries the name of its device at the
/// beginning of its own.
pub proof fn lemma_partitions_carry_the_device_name(
    device_name: Seq<char>,
    mounts: Seq<MountView>,
    path: Seq<char>,
    entries: Seq<Option<PartitionDirView>>,
)
    ensures
        spec_collect_partitions(device_name, mounts, path, entries) matches Ok(found) ==> forall|
            i: int,
        |
            0 <= i < found.len() ==> device_name.is_prefix_of(#[trigger] found[i].name),
    decreases entries.len(),
{
    if entries.len() > 0 {
        lemma_partitions_carry_the_device_name(device_name, mounts, path, entries.drop_last());
    }
}

/// Looking at the partition table changes nothing but the identifiers: the
/// device keeps its name, its size, its flag, its model and its serial
/// number, and each partition its name, size, number and mount. Where the
/// table was opened and holds no valid primary header, the identifier of
/// the disk is marked as not available. Where nobody looked, the disk and
/// every partition say so. Where the device could not be opened, the disk
/// says why and the partitions are left as they are.
pub proof fn lemma_enrichment_keeps_the_device(device: DeviceView, probe: GptProbeView)
    ensures
        ({
            let enriched = spec_enrich_with_gpt_uuid(device, probe);
            &&& enriched == DeviceView { uuid: enriched.uuid, partitions: enriched.partitions, ..device }
            &&& enriched.partitions.len() == device.partitions.len()
            &&& forall|i: int|
                0 <= i < device.partitions.len() ==> #[trigger] enriched.partitions[i]
                    == (PartitionView {
                    part_uuid: enriched.partitions[i].part_uuid,
                    ..device.partitions[i]
                })
            &&& device.wf() ==> enriched.wf()
            &&& probe matches GptProbeView::Table { disk_guid: None, .. } ==> enriched.uuid
                == GptUUIDView::NotAvailable
            &&& probe is Disabled ==> {
                &&& enriched.uuid == GptUUIDView::FeatureNotEnabled
                &&& forall|i: int|
                    0 <= i < device.partitions.len() ==> (#[trigger] enriched.partitions[i]).part_uuid
                        == GptUUIDView::FeatureNotEnabled
            }
            &&& probe matches GptProbeView::Failed(detail) ==> {
                &&& enriched.uuid == GptUUIDView::IoError(detail)
                &&& enriched.partitions == device.partitions
            }
        }),
{
    let enriched = spec_enrich_with_gpt_uuid(device, probe);
    if device.wf() {
        assert forall|i: int| 0 <= i < enriched.partitions.len() implies enriched.name.is_prefix_of(
            #[trigger] enriched.partitions[i].name,
        ) by {
            assert(enriched.partitions[i].name == device.partitions[i].name);
        }
    }
    if probe is Failed {
        assert(enriched.partitions =~= device.partitions);
    }
}

/// Every device that a pass describes is well formed: its partitions carry
/// its name.
pub proof fn lemma_described_device_is_well_formed(dir: DeviceDirView)
    ensures
        spec_device_of(dir) matches Ok(device) ==> device.wf(),
{
    if let Ok(plain) = spec_device_from_files(dir) {
        lemma_partitions_carry_the_device_name(
            dir.entry.file_name->Some_0,
            mounts_of_lines(dir.mounts->Some_0),
            dir.entry.path->Some_0,
            dir.entries->Some_0,
        );
        assert(plain.wf());
        lemma_enrichment_keeps_the_device(plain, dir.gpt);
    }
}

/// Every device of a pass that succeeds is well formed.
pub proof fn lemma_devices_are_well_formed(
    base_path: Seq<char>,
    listing: Option<Seq<Option<DeviceDirView>>>,
)
    ensures
        spec_get_devices(base_path, listing) matches Ok(devices) ==> forall|i: int|
            0 <= i < devices.len() ==> (#[trigger] devices[i]).wf(),
{
    if let Some(entries) = listing {
        lemma_collected_devices_are_well_formed(base_path, entries);
    }
}

proof fn lemma_collected_devices_are_well_formed(
    base_path: Seq<char>,
    entries: Seq<Option<DeviceDirView>>,
)
    ensures
        spec_collect_devices(base_path, entries) matches Ok(devices) ==> forall|i: int|
            0 <= i < devices.len() ==> (#[trigger] devices[i]).wf(),
    decreases entries.len(),
{
    if entries.len() > 0 {
        lemma_collected_devices_are_well_formed(base_path, entries.drop_last());
        if let Some(dir) = entries.last() {
            lemma_described_device_is_well_formed(dir);
        }
    }
}

/// A missing model or serial number is no failure. Whatever the files
/// `device/model` and `device/serial` gave, the device is described or not
/// for the same reasons, and where it is described, only its model and its
/// serial number depend on them: each is absent exactly where its file
/// could not be opened.
pub proof fn lemma_model_and_serial_never_fail(
    dir: DeviceDirView,
    model: Option<Seq<char>>,
    serial: Option<Seq<char>>,
)
    ensures
        match (spec_device_of(dir), spec_device_of(DeviceDirView { model, serial, ..dir })) {
            (Ok(device), Ok(other)) => {
                &&& other == DeviceView {
                    model: spec_optional_text(model),
                    serial: spec_optional_text(serial),
                    ..device
                }
                &&& (device.model is None <==> dir.model is None)
                &&& (device.serial is None <==> dir.serial is None)
            },
            (Err(error), Err(other)) => error == other,
            _ => false,
        },
{
    let changed = DeviceDirView { model, serial, ..dir };
    assert(spec_find_partitions(changed) == spec_find_partitions(dir));
}

/// What a look at the partition table gave never ends the pass. Whatever it
/// gave, the device is described or not for the same reasons, and where it
/// is described, it is the device that the files describe with the
/// identifiers that the look gave: its name, its size, its flag, its model,
/// its serial number and the number of its partitions are those of the
/// files.
pub proof fn lemma_partition_table_never_fails(dir: DeviceDirView, probe: GptProbeView)
    ensures
        match (spec_device_from_files(dir), spec_device_of(DeviceDirView { gpt: probe, ..dir })) {
            (Ok(plain), Ok(enriched)) => {
                &&& enriched == spec_enrich_with_gpt_uuid(plain, probe)
                &&& enriched == DeviceView {
                    uuid: enriched.uuid,
                    partitions: enriched.partitions,
                    ..plain
                }
                &&& enriched.partitions.len() == plain.partitions.len()
            },
            (Err(error), Err(other)) => error == other,
            _ => false,
        },
{
    let looked = DeviceDirView { gpt: probe, ..dir };
    assert(spec_find_partitions(looked) == spec_find_partitions(dir));
    assert(spec_device_from_files(looked) == spec_device_from_files(dir));
}

/// A device whose partition table nobody looked at says so, and so does
/// each of its partitions.
pub proof fn lemma_switched_off_overlay_is_told_apart(dir: DeviceDirView)
    requires
        dir.gpt is Disabled,
    ensures
        spec_device_of(dir) matches Ok(device) ==> {
            &&& device.uuid == GptUUIDView::FeatureNotEnabled
            &&& forall|i: int|
                0 <= i < device.partitions.len() ==> (#[trigger] device.partitions[i]).part_uuid
                    == GptUUIDView::FeatureNotEnabled
        },
{
    if let Ok(plain) = spec_device_from_files(dir) {
        lemma_enrichment_keeps_the_device(plain, dir.gpt);
    }
}

/// A pass over a directory that could not be listed fails with that
/// directory's path and describes no device.
pub proof fn lemma_unlisted_directory_fails(base_path: Seq<char>)
    ensures
        spec_get_devices(base_path, None) == Err::<Seq<DeviceView>, DrivesErrorView>(
            DrivesErrorView::DiraccessError { directory: base_path },
        ),
{
}

} // verus!
