//! What the file system told, and how it is read: directory entries, the
//! text of small files, the flags and numbers that they hold.
//!
//! Nothing here touches the file system. Whoever lists the directories and
//! opens the files notes down what came back, and the functions of this
//! module say what it means.

use crate::decimal::{parse_decimal, parse_unsigned};
use crate::error::{view_result, DrivesError, DrivesErrorView};
use crate::gpt::{GptProbe, GptProbeView};
use crate::text::{chars_of, clean, trimmed, without_line_feeds};
use vstd::prelude::*;

verus! {

/// One entry of a directory listing.
#[derive(Debug)]
pub struct Entry {
    /// The name of the entry, or `None` where the name is no text.
    pub file_name: Option<String>,
    /// The path of the entry, or `None` where the path is no text.
    pub path: Option<String>,
    /// Whether the entry is a directory, or `None` where its kind could not
    /// be determined.
    pub is_dir: Option<bool>,
}

/// An `Entry` as a mathematical value.
pub struct EntryView {
    pub file_name: Option<Seq<char>>,
    pub path: Option<Seq<char>>,
    pub is_dir: Option<bool>,
}

impl DeepView for Entry {
    type V = EntryView;

    open spec fn deep_view(&self) -> EntryView {
        EntryView {
            file_name: self.file_name.deep_view(),
            path: self.path.deep_view(),
            is_dir: self.is_dir,
        }
    }
}

/// An entry of a device's directory with the files below it that describe
/// a partition. The text of a file is `None` where the file could not be
/// opened.
#[derive(Debug)]
pub struct PartitionDir {
    pub entry: Entry,
    /// The text of the file `size`.
    pub size: Option<String>,
    /// The text of the file `partition`.
    pub partition: Option<String>,
}

/// A `PartitionDir` as a mathematical value.
pub struct PartitionDirView {
    pub entry: EntryView,
    pub size: Option<Seq<char>>,
    pub partition: Option<Seq<char>>,
}

impl DeepView for PartitionDir {
    type V = PartitionDirView;

    open spec fn deep_view(&self) -> PartitionDirView {
        PartitionDirView {
            entry: self.entry.deep_view(),
            size: self.size.deep_view(),
            partition: self.partition.deep_view(),
        }
    }
}

/// An entry of the directory of block devices with all that was read for
/// it. The text of a file is `None` where the file could not be opened.
#[derive(Debug)]
pub struct DeviceDir {
    pub entry: Entry,
    /// The text of the file `removable`.
    pub removable: Option<String>,
    /// The text of the file `size`.
    pub size: Option<String>,
    /// The text of the file `device/model`.
    pub model: Option<String>,
    /// The text of the file `device/serial`.
    pub serial: Option<String>,
    /// The lines of the mount table as they stood when this device was
    /// looked at: `None` where the table could not be opened, and a line is
    /// `None` where it could not be read.
    pub mounts: Option<Vec<Option<String>>>,
    /// The listing of the device's own directory: `None` where it could not
    /// be listed, and an entry is `None` where it could not be read.
    pub entries: Option<Vec<Option<PartitionDir>>>,
    /// What a look at the partition table of the device gave.
    pub gpt: GptProbe,
}

/// A `DeviceDir` as a mathematical value.
pub struct DeviceDirView {
    pub entry: EntryView,
    pub removable: Option<Seq<char>>,
    pub size: Option<Seq<char>>,
    pub model: Option<Seq<char>>,
    pub serial: Option<Seq<char>>,
    pub mounts: Option<Seq<Option<Seq<char>>>>,
    pub entries: Option<Seq<Option<PartitionDirView>>>,
    pub gpt: GptProbeView,
}

impl DeepView for DeviceDir {
    type V = DeviceDirView;

    open spec fn deep_view(&self) -> DeviceDirView {
        DeviceDirView {
            entry: self.entry.deep_view(),
            removable: self.removable.deep_view(),
            size: self.size.deep_view(),
            model: self.model.deep_view(),
            serial: self.serial.deep_view(),
            mounts: self.mounts.deep_view(),
            entries: self.entries.deep_view(),
            gpt: self.gpt.deep_view(),
        }
    }
}

/// The name of an entry, or the failure to read it as text.
pub open spec fn spec_name_from_direntry(entry: EntryView) -> Result<Seq<char>, DrivesErrorView> {
    match entry.file_name {
        Some(name) => Ok(name),
        None => Err(DrivesErrorView::NameFromDirEntryFailed),
    }
}

/// The path of an entry with something appended, or the failure to read
/// the path as text.
pub open spec fn spec_build_path(entry: EntryView, path_to_add: Seq<char>) -> Result<
    Seq<char>,
    DrivesErrorView,
> {
    match entry.path {
        Some(path) => Ok(path + path_to_add),
        None => Err(DrivesErrorView::PathAppendFailed),
    }
}

/// A path as it is shown in a message: three question marks stand for a
/// path that is no text.
pub open spec fn spec_path_to_string(path: Option<Seq<char>>) -> Seq<char> {
    match path {
        Some(text) => text,
        None => "???"@,
    }
}

/// The content of a file: its text without line feeds and without white
/// space around it, or the failure to open the file.
pub open spec fn spec_read_file_to_string(path: Seq<char>, raw: Option<Seq<char>>) -> Result<
    Seq<char>,
    DrivesErrorView,
> {
    match raw {
        Some(text) => Ok(trimmed(without_line_feeds(text))),
        None => Err(DrivesErrorView::FileAccessError { filename: path }),
    }
}

/// The flag that a file holds: set where the content is the digit one.
pub open spec fn spec_read_bool_file(path: Seq<char>, raw: Option<Seq<char>>) -> Result<
    bool,
    DrivesErrorView,
> {
    match spec_read_file_to_string(path, raw) {
        Ok(content) => Ok(content == seq!['1']),
        Err(error) => Err(error),
    }
}

/// The number of 64 bits that a file holds.
pub open spec fn spec_read_file_to_u64(path: Seq<char>, raw: Option<Seq<char>>) -> Result<
    u64,
    DrivesErrorView,
> {
    match spec_read_file_to_string(path, raw) {
        Ok(content) => match parse_unsigned(content, u64::MAX as nat) {
            Some(n) => Ok(n as u64),
            None => Err(DrivesErrorView::ConversionToU64Failed),
        },
        Err(error) => Err(error),
    }
}

/// The number of 32 bits that a file holds.
pub open spec fn spec_read_file_to_u32(path: Seq<char>, raw: Option<Seq<char>>) -> Result<
    u32,
    DrivesErrorView,
> {
    match spec_read_file_to_string(path, raw) {
        Ok(content) => match parse_unsigned(content, u32::MAX as nat) {
            Some(n) => Ok(n as u32),
            None => Err(DrivesErrorView::ConversionToU32Failed),
        },
        Err(error) => Err(error),
    }
}

/// Hands on the listing of the directory at `path`, or reports that the
/// directory could not be listed.
pub fn read_dir<'a, T>(path: &str, listing: &'a Option<Vec<T>>) -> (result: Result<
    &'a Vec<T>,
    DrivesError,
>)
    ensures
        match result {
            Ok(entries) => *listing == Some(*entries),
            Err(error) => listing is None && error@ == (DrivesErrorView::DiraccessError {
                directory: path@,
            }),
        },
{
    match listing {
        Some(entries) => Ok(entries),
        None => Err(DrivesError::DiraccessError { directory: path.to_owned() }),
    }
}

/// The name of a directory entry.
pub fn name_from_direntry(entry: &Entry) -> (result: Result<String, DrivesError>)
    ensures
        view_result(result) == spec_name_from_direntry(entry.deep_view()),
{
    match &entry.file_name {
        Some(name) => Ok(name.clone()),
        None => Err(DrivesError::NameFromDirEntryFailed),
    }
}

/// The path of a directory entry with `path_to_add` appended to it.
pub fn build_path(entry: &Entry, path_to_add: &str) -> (result: Result<String, DrivesError>)
    ensures
        view_result(result) == spec_build_path(entry.deep_view(), path_to_add@),
{
    match &entry.path {
        Some(path) => {
            let mut path = path.clone();
            path.append(path_to_add);
            Ok(path)
        },
        None => Err(DrivesError::PathAppendFailed),
    }
}

/// A path as it is shown in a message.
pub fn path_to_string(path: &Option<String>) -> (text: String)
    ensures
        text@ == spec_path_to_string(path.deep_view()),
{
    match path {
        Some(text) => text.clone(),
        None => "???".to_owned(),
    }
}

/// The content of the file at `path`, of which `raw` is the text that was
/// read, or `None` where the file could not be opened.
pub fn read_file_to_string(path: &str, raw: &Option<String>) -> (result: Result<
    String,
    DrivesError,
>)
    ensures
        view_result(result) == spec_read_file_to_string(path@, raw.deep_view()),
{
    match raw {
        Some(text) => Ok(clean(text.as_str())),
        None => Err(DrivesError::FileAccessError { filename: path.to_owned() }),
    }
}

/// The flag in the file at `path`, of which `raw` is the text that was
/// read, or `None` where the file could not be opened.
pub fn read_bool_file(path: &str, raw: &Option<String>) -> (result: Result<bool, DrivesError>)
    ensures
        view_result(result) == spec_read_bool_file(path@, raw.deep_view()),
{
    let content = read_file_to_string(path, raw)?;
    let c = chars_of(content.as_str());
    let flag = c.len() == 1 && c[0] == '1';
    proof {
        assert(flag == (content@ =~= seq!['1']));
    }
    Ok(flag)
}

/// The number in the file at `path`, of which `raw` is the text that was
/// read, or `None` where the file could not be opened.
pub fn read_file_to_u64(path: &str, raw: &Option<String>) -> (result: Result<u64, DrivesError>)
    ensures
        view_result(result) == spec_read_file_to_u64(path@, raw.deep_view()),
{
    let content = read_file_to_string(path, raw)?;
    match parse_decimal(content.as_str(), u64::MAX) {
        Some(n) => Ok(n),
        None => Err(DrivesError::ConversionToU64Failed),
    }
}

/// The number in the file at `path`, of which `raw` is the text that was
/// read, or `None` where the file could not be opened.
pub fn read_file_to_u32(path: &str, raw: &Option<String>) -> (result: Result<u32, DrivesError>)
    ensures
        view_result(result) == spec_read_file_to_u32(path@, raw.deep_view()),
{
    let content = read_file_to_string(path, raw)?;
    match parse_decimal(content.as_str(), 0xffff_ffff) {
        Some(n) => Ok(n as u32),
        None => Err(DrivesError::ConversionToU32Failed),
    }
}

} // verus!
