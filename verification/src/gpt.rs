use crate::decimal::digit_char;
use crate::{Device, DeviceView, PartitionView};
use std::collections::BTreeMap;
use vstd::prelude::*;

verus! {

/// The identifier that a GUID partition table gives a disk or a partition,
/// or the reason why there is none.
#[derive(Debug)]
pub enum GptUUID {
    /// The device could not be opened or read; the text says why.
    IoError(String),
    /// The identifier, written with hyphens.
    UUID(String),
    /// Nobody looked: the overlay is switched off.
    FeatureNotEnabled,
    /// No identifier is at hand: the partition table holds none, or the
    /// table was not read.
    NotAvailable,
}

/// A `GptUUID` as a mathematical value.
pub enum GptUUIDView {
    IoError(Seq<char>),
    UUID(Seq<char>),
    FeatureNotEnabled,
    NotAvailable,
}

impl View for GptUUID {
    type V = GptUUIDView;

    open spec fn view(&self) -> GptUUIDView {
        match *self {
            GptUUID::IoError(detail) => GptUUIDView::IoError(detail@),
            GptUUID::UUID(text) => GptUUIDView::UUID(text@),
            GptUUID::FeatureNotEnabled => GptUUIDView::FeatureNotEnabled,
            GptUUID::NotAvailable => GptUUIDView::NotAvailable,
        }
    }
}

/// What a look at the partition table of a device gave.
#[derive(Debug)]
pub enum GptProbe {
    /// Nobody looked: the overlay is switched off.
    Disabled,
    /// The device could not be opened or read; the text says why.
    Failed(String),
    /// The device was opened. `disk_guid` is the identifier in the primary
    /// header, or `None` where there is no valid primary header;
    /// `partitions` maps the number of each partition of the table to its
    /// identifier.
    Table { disk_guid: Option<u128>, partitions: BTreeMap<u32, u128> },
}

/// A `GptProbe` as a mathematical value.
pub enum GptProbeView {
    Disabled,
    Failed(Seq<char>),
    Table { disk_guid: Option<u128>, partitions: Map<u32, u128> },
}

impl DeepView for GptProbe {
    type V = GptProbeView;

    open spec fn deep_view(&self) -> GptProbeView {
        match *self {
            GptProbe::Disabled => GptProbeView::Disabled,
            GptProbe::Failed(detail) => GptProbeView::Failed(detail@),
            GptProbe::Table { disk_guid, partitions } => GptProbeView::Table {
                disk_guid,
                partitions: partitions@,
            },
        }
    }
}

/// The hexadecimal digit at place `k` of an identifier of 128 bits, the
/// most significant digit at place 0, in lower case.
pub open spec fn hex_digit(guid: u128, k: int) -> char {
    let nibble = (guid >> ((4 * (31 - k)) as u128)) & 0xf;
    if nibble < 10 {
        digit_char(nibble as nat)
    } else {
        (('a' as u8) + (nibble - 10)) as char
    }
}

/// The number of hyphens before position `i` of a hyphenated identifier.
pub open spec fn hyphens_before(i: int) -> int {
    if i < 8 {
        0
    } else if i < 13 {
        1
    } else if i < 18 {
        2
    } else if i < 23 {
        3
    } else {
        4
    }
}

/// An identifier written with hyphens: its 32 hexadecimal digits in groups
/// of 8, 4, 4, 4 and 12, a hyphen between two groups.
pub open spec fn spec_hyphenated(guid: u128) -> Seq<char> {
    Seq::new(
        36,
        |i: int|
            if i == 8 || i == 13 || i == 18 || i == 23 {
                '-'
            } else {
                hex_digit(guid, i - hyphens_before(i))
            },
    )
}

/// Calls `uuid::Uuid::from_u128`, which takes the number as the identifier's
/// 16 bytes, the most significant first, and writes the identifier through
/// the `Hyphenated` adapter of `uuid`, which gives the lower case form of 36
/// characters.
#[verifier::external_body]
fn hyphenated(guid: u128) -> (text: String)
    ensures
        text@ == spec_hyphenated(guid),
{
    uuid::Uuid::from_u128(guid).as_hyphenated().to_string()
}

/// What a look at the partition table says of the disk: its identifier
/// where the primary header gives one, else the reason why there is none.
pub open spec fn spec_disk_uuid(probe: GptProbeView) -> GptUUIDView {
    match probe {
        GptProbeView::Disabled => GptUUIDView::FeatureNotEnabled,
        GptProbeView::Failed(detail) => GptUUIDView::IoError(detail),
        GptProbeView::Table { disk_guid: Some(guid), .. } => GptUUIDView::UUID(
            spec_hyphenated(guid),
        ),
        GptProbeView::Table { disk_guid: None, .. } => GptUUIDView::NotAvailable,
    }
}

/// What a look at the partition table says of a partition. Where nobody
/// looked, it says so. Where the table was read, it gives the identifier
/// that the table holds under the partition's number, or the note that it
/// holds none. Where the device could not be opened, the partition keeps
/// what it has.
pub open spec fn spec_part_uuid(probe: GptProbeView, partition: PartitionView) -> GptUUIDView {
    match probe {
        GptProbeView::Disabled => GptUUIDView::FeatureNotEnabled,
        GptProbeView::Failed(_) => partition.part_uuid,
        GptProbeView::Table { partitions, .. } => if partitions.contains_key(partition.number) {
            GptUUIDView::UUID(spec_hyphenated(partitions[partition.number]))
        } else {
            GptUUIDView::NotAvailable
        },
    }
}

/// A device after a look at its partition table: the disk and each of its
/// partitions carry what the look says of them, and nothing else changes.
pub open spec fn spec_enrich_with_gpt_uuid(device: DeviceView, probe: GptProbeView) -> DeviceView {
    DeviceView {
        uuid: spec_disk_uuid(probe),
        partitions: Seq::new(
            device.partitions.len(),
            |i: int|
                PartitionView {
                    part_uuid: spec_part_uuid(probe, device.partitions[i]),
                    ..device.partitions[i]
                },
        ),
        ..device
    }
}

/// The identifier that the table holds under a partition's number.
fn lookup(partitions: &BTreeMap<u32, u128>, number: u32) -> (guid: Option<u128>)
    ensures
        guid == if partitions@.contains_key(number) {
            Some(partitions@[number])
        } else {
            None
        },
{
    broadcast use vstd::laws_cmp::group_laws_cmp;
    broadcast use vstd::std_specs::btree::group_btree_axioms;

    match partitions.get(&number) {
        Some(guid) => Some(*guid),
        None => None,
    }
}

/// What a look at the partition table says of the disk.
fn disk_uuid(probe: &GptProbe) -> (uuid: GptUUID)
    ensures
        uuid@ == spec_disk_uuid(probe.deep_view()),
{
    match probe {
        GptProbe::Disabled => GptUUID::FeatureNotEnabled,
        GptProbe::Failed(detail) => GptUUID::IoError(detail.clone()),
        GptProbe::Table { disk_guid: Some(guid), .. } => GptUUID::UUID(hyphenated(*guid)),
        GptProbe::Table { disk_guid: None, .. } => GptUUID::NotAvailable,
    }
}

/// Gives a device and its partitions the identifiers that a look at the
/// partition table gave, or the reason why there are none.
pub fn enrich_with_gpt_uuid(device: Device, probe: &GptProbe) -> (enriched: Device)
    ensures
        enriched@ == spec_enrich_with_gpt_uuid(device@, probe.deep_view()),
        device.wf() ==> enriched.wf(),
{
    proof {
        crate::laws::lemma_enrichment_keeps_the_device(device@, probe.deep_view());
    }
    let ghost before = device@;
    let ghost wanted = spec_enrich_with_gpt_uuid(before, probe.deep_view());
    let mut device = device;
    device.uuid = disk_uuid(probe);
    let mut i: usize = 0;
    while i < device.partitions.len()
        invariant
            i <= device.partitions.len(),
            device.partitions.len() == before.partitions.len(),
            wanted == spec_enrich_with_gpt_uuid(before, probe.deep_view()),
            device@ == (DeviceView { partitions: device@.partitions, ..wanted }),
            forall|j: int| 0 <= j < i ==> device.partitions[j]@ == wanted.partitions[j],
            forall|j: int|
                i <= j < device.partitions.len() ==> device.partitions[j]@ == before.partitions[j],
        decreases device.partitions.len() - i,
    {
        match probe {
            GptProbe::Disabled => {
                device.partitions[i].part_uuid = GptUUID::FeatureNotEnabled;
            },
            GptProbe::Failed(_) => {},
            GptProbe::Table { partitions, .. } => {
                let number = device.partitions[i].number;
                device.partitions[i].part_uuid = match lookup(partitions, number) {
                    Some(guid) => GptUUID::UUID(hyphenated(guid)),
                    None => GptUUID::NotAvailable,
                };
            },
        }
        i += 1;
    }
    proof {
        assert(device@.partitions =~= wanted.partitions);
    }
    device
}

} // verus!
