use crate::error::{view_result, DrivesError, DrivesErrorView};
use crate::text::{
    chars_of, find_word_end, find_word_start, is_whitespace, lemma_skip_whitespace_bounds,
    lemma_skip_whitespace_stops, lemma_skip_word_bounds, lemma_skip_word_passes_no_whitespace,
    skip_whitespace, skip_word, string_of,
};
use vstd::prelude::*;

verus! {

/// Where a partition is mounted, as one line of the mount table says it.
#[derive(Debug)]
pub struct Mount {
    /// The device as the mount table names it.
    pub device: String,
    /// The path of the mount point.
    pub mountpoint: String,
    /// The type of the file system.
    pub filesystem: String,
}

/// A `Mount` with each string as the sequence of its characters.
pub struct MountView {
    pub device: Seq<char>,
    pub mountpoint: Seq<char>,
    pub filesystem: Seq<char>,
}

impl View for Mount {
    type V = MountView;

    open spec fn view(&self) -> MountView {
        MountView {
            device: self.device@,
            mountpoint: self.mountpoint@,
            filesystem: self.filesystem@,
        }
    }
}

impl DeepView for Mount {
    type V = MountView;

    open spec fn deep_view(&self) -> MountView {
        self@
    }
}

impl Clone for Mount {
    fn clone(&self) -> (copy: Mount)
        ensures
            copy@ == self@,
    {
        Mount {
            device: self.device.clone(),
            mountpoint: self.mountpoint.clone(),
            filesystem: self.filesystem.clone(),
        }
    }
}

/// The mount table of the system: the file that holds it.
pub struct Mounts {
    /// The path of the mount table.
    pub mount_file_path: String,
}

/// The fields of a line from position `from` on: the runs of characters
/// that are no white space, in order.
pub open spec fn fields_from(line: Seq<char>, from: int) -> Seq<Seq<char>>
    decreases line.len() - from,
    when 0 <= from <= line.len()
    via fields_from_decreases
{
    let start = skip_whitespace(line, from);
    if start >= line.len() {
        Seq::empty()
    } else {
        let end = skip_word(line, start);
        seq![line.subrange(start, end)] + fields_from(line, end)
    }
}

#[via_fn]
proof fn fields_from_decreases(line: Seq<char>, from: int) {
    let start = skip_whitespace(line, from);
    lemma_skip_whitespace_bounds(line, from);
    if start < line.len() {
        lemma_skip_whitespace_stops(line, from);
        lemma_skip_word_bounds(line, start);
    }
}

/// Every field is a word: it holds at least one character and no white
/// space.
pub proof fn lemma_fields_are_words(line: Seq<char>, from: int)
    requires
        0 <= from <= line.len(),
    ensures
        forall|k: int|
            0 <= k < fields_from(line, from).len() ==> {
                let field = #[trigger] fields_from(line, from)[k];
                &&& field.len() > 0
                &&& forall|i: int| 0 <= i < field.len() ==> !is_whitespace(#[trigger] field[i])
            },
    decreases line.len() - from,
{
    let start = skip_whitespace(line, from);
    lemma_skip_whitespace_bounds(line, from);
    if start < line.len() {
        lemma_skip_whitespace_stops(line, from);
        lemma_skip_word_bounds(line, start);
        let end = skip_word(line, start);
        let first = line.subrange(start, end);
        assert forall|i: int| 0 <= i < first.len() implies !is_whitespace(#[trigger] first[i]) by {
            lemma_skip_word_passes_no_whitespace(line, start, start + i);
        }
        lemma_fields_are_words(line, end);
        let rest = fields_from(line, end);
        assert forall|k: int| 0 <= k < fields_from(line, from).len() implies {
            let field = #[trigger] fields_from(line, from)[k];
            &&& field.len() > 0
            &&& forall|i: int| 0 <= i < field.len() ==> !is_whitespace(#[trigger] field[i])
        } by {
            if k > 0 {
                assert(fields_from(line, from)[k] == rest[k - 1]);
            }
        }
    }
}

/// The fields of a line, separated by any amount of white space.
pub open spec fn fields(line: Seq<char>) -> Seq<Seq<char>> {
    fields_from(line, 0)
}

/// The mount that a line of the mount table describes: its first three
/// fields are the device, the mount point and the file system. A line with
/// fewer fields describes none.
pub open spec fn mount_of_line(line: Seq<char>) -> Option<MountView> {
    let f = fields(line);
    if f.len() >= 3 {
        Some(MountView { device: f[0], mountpoint: f[1], filesystem: f[2] })
    } else {
        None
    }
}

/// The mount of a line as far as the line could be read at all.
pub open spec fn mount_of_read_line(line: Option<Seq<char>>) -> Option<MountView> {
    match line {
        Some(text) => mount_of_line(text),
        None => None,
    }
}

/// The mounts that the lines of a mount table describe, in the order of
/// the lines. Lines that could not be read and lines that describe no mount
/// are passed over.
pub open spec fn mounts_of_lines(lines: Seq<Option<Seq<char>>>) -> Seq<MountView> {
    lines.filter_map(|line: Option<Seq<char>>| mount_of_read_line(line))
}

/// What reading the mount table gives: the mounts of its lines, or a failure
/// where the table could not be opened.
pub open spec fn spec_read_mountpoints(lines: Option<Seq<Option<Seq<char>>>>) -> Result<
    Seq<MountView>,
    DrivesErrorView,
> {
    match lines {
        Some(l) => Ok(mounts_of_lines(l)),
        None => Err(DrivesErrorView::ReadingMountsFailed),
    }
}

/// Reads one line of the mount table.
pub fn parse_mount_line(line: &str) -> (mount: Option<Mount>)
    ensures
        mount.deep_view() == mount_of_line(line@),
{
    let v = chars_of(line);
    let device_start = find_word_start(&v, 0);
    if device_start >= v.len() {
        return None;
    }
    let device_end = find_word_end(&v, device_start);
    let mountpoint_start = find_word_start(&v, device_end);
    if mountpoint_start >= v.len() {
        proof {
            assert(fields_from(v@, device_end as int).len() == 0);
        }
        return None;
    }
    let mountpoint_end = find_word_end(&v, mountpoint_start);
    let filesystem_start = find_word_start(&v, mountpoint_end);
    if filesystem_start >= v.len() {
        proof {
            assert(fields_from(v@, mountpoint_end as int).len() == 0);
            assert(fields_from(v@, device_end as int).len() == 1);
        }
        return None;
    }
    let filesystem_end = find_word_end(&v, filesystem_start);
    proof {
        let rest = fields_from(v@, filesystem_end as int);
        assert(fields_from(v@, mountpoint_end as int) == seq![
            v@.subrange(filesystem_start as int, filesystem_end as int),
        ] + rest);
        assert(fields_from(v@, device_end as int) == seq![
            v@.subrange(mountpoint_start as int, mountpoint_end as int),
        ] + fields_from(v@, mountpoint_end as int));
        assert(fields(v@) == seq![v@.subrange(device_start as int, device_end as int)]
            + fields_from(v@, device_end as int));
    }
    Some(
        Mount {
            device: string_of(&v, device_start, device_end),
            mountpoint: string_of(&v, mountpoint_start, mountpoint_end),
            filesystem: string_of(&v, filesystem_start, filesystem_end),
        },
    )
}

impl Mounts {
    /// The mount table at its usual place.
    pub fn new() -> (mounts: Mounts)
        ensures
            mounts.mount_file_path@ == "/proc/mounts"@,
    {
        Mounts { mount_file_path: "/proc/mounts".to_owned() }
    }

    /// Turns the lines that were read from the mount table into mounts.
    /// `lines` is `None` where the table could not be opened, and a line is
    /// `None` where it could not be read.
    pub fn read_mountpoints(&self, lines: &Option<Vec<Option<String>>>) -> (result: Result<
        Vec<Mount>,
        DrivesError,
    >)
        ensures
            view_result(result) == spec_read_mountpoints(lines.deep_view()),
    {
        let lines = match lines {
            Some(lines) => lines,
            None => {
                return Err(DrivesError::ReadingMountsFailed);
            },
        };
        let ghost read = |line: Option<Seq<char>>| mount_of_read_line(line);
        let mut mounts: Vec<Mount> = Vec::new();
        let mut i: usize = 0;
        proof {
            assert(lines.deep_view().take(0) =~= Seq::empty());
            assert(mounts.deep_view() =~= Seq::empty());
        }
        while i < lines.len()
            invariant
                i <= lines.len(),
                read == |line: Option<Seq<char>>| mount_of_read_line(line),
                mounts.deep_view() == lines.deep_view().take(i as int).filter_map(read),
            decreases lines.len() - i,
        {
            let ghost before = mounts.deep_view();
            proof {
                lines.deep_view().lemma_filter_map_take_succ(read, i as int);
                assert(lines.deep_view()[i as int] == lines[i as int].deep_view());
            }
            if let Some(line) = &lines[i] {
                if let Some(mount) = parse_mount_line(line.as_str()) {
                    mounts.push(mount);
                    proof {
                        assert(mounts.deep_view() =~= before + seq![mount.deep_view()]);
                    }
                }
            }
            proof {
                assert(mounts.deep_view() =~= lines.deep_view().take(i + 1).filter_map(read));
            }
            i += 1;
        }
        proof {
            assert(lines.deep_view().take(lines.len() as int) =~= lines.deep_view());
        }
        Ok(mounts)
    }
}

} // verus!
