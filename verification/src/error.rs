use vstd::prelude::*;

verus! {

/// Why a discovery pass was given up.
#[derive(Debug)]
pub enum DrivesError {
    /// A file could not be opened.
    FileAccessError { filename: String },
    /// A file could not be read.
    FileReadError { filename: String },
    /// The kind of a directory entry could not be determined.
    FileTypeError { filename: String },
    /// The name of a directory entry is no text.
    NameFromDirEntryFailed,
    /// The path of a directory entry is no text, so nothing can be appended.
    PathAppendFailed,
    /// A file does not hold an unsigned number of 64 bits.
    ConversionToU64Failed,
    /// A file does not hold an unsigned number of 32 bits.
    ConversionToU32Failed,
    /// A directory could not be listed, or one of its entries not be read.
    DiraccessError { directory: String },
    /// The mount table could not be opened.
    ReadingMountsFailed,
}

/// A `DrivesError` with each string as the sequence of its characters.
pub enum DrivesErrorView {
    FileAccessError { filename: Seq<char> },
    FileReadError { filename: Seq<char> },
    FileTypeError { filename: Seq<char> },
    NameFromDirEntryFailed,
    PathAppendFailed,
    ConversionToU64Failed,
    ConversionToU32Failed,
    DiraccessError { directory: Seq<char> },
    ReadingMountsFailed,
}

impl View for DrivesError {
    type V = DrivesErrorView;

    open spec fn view(&self) -> DrivesErrorView {
        match *self {
            DrivesError::FileAccessError { filename } => DrivesErrorView::FileAccessError {
                filename: filename@,
            },
            DrivesError::FileReadError { filename } => DrivesErrorView::FileReadError {
                filename: filename@,
            },
            DrivesError::FileTypeError { filename } => DrivesErrorView::FileTypeError {
                filename: filename@,
            },
            DrivesError::NameFromDirEntryFailed => DrivesErrorView::NameFromDirEntryFailed,
            DrivesError::PathAppendFailed => DrivesErrorView::PathAppendFailed,
            DrivesError::ConversionToU64Failed => DrivesErrorView::ConversionToU64Failed,
            DrivesError::ConversionToU32Failed => DrivesErrorView::ConversionToU32Failed,
            DrivesError::DiraccessError { directory } => DrivesErrorView::DiraccessError {
                directory: directory@,
            },
            DrivesError::ReadingMountsFailed => DrivesErrorView::ReadingMountsFailed,
        }
    }
}

/// The outcome of a fallible step with its value and its error as views.
pub open spec fn view_result<T: DeepView>(result: Result<T, DrivesError>) -> Result<
    T::V,
    DrivesErrorView,
> {
    match result {
        Ok(value) => Ok(value.deep_view()),
        Err(error) => Err(error@),
    }
}

} // verus!
