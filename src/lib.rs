//! Reads an unsigned integer out of a text file, with every failure told
//! apart by kind: the path is not a regular file, the file is not a `.txt`
//! file, reading it failed, or its text is no decimal number.
//!
//! The filesystem itself stays outside this crate: a caller hands over what
//! it learned of the path (whether it names a regular file) and what reading
//! it gave, and the functions here decide the outcome.
use vstd::prelude::*;

pub mod file;
pub mod number;

use crate::file::{file_message, file_text, read_file, read_view, FileError, FileFailure, IoCause};
use crate::number::{get_number, parse_decimal, trimmed, ParseIntError};

verus! {

/// The first failure met on the way from a path to an integer.
#[derive(Clone, Debug, PartialEq, Eq)]
pub enum ExtractError {
    /// The file gave no text.
    File(FileError),
    /// The file's text is no unsigned 32-bit decimal number.
    Number(ParseIntError),
}

/// The mathematical value of an `ExtractError`.
pub enum ExtractFailure {
    File(FileFailure),
    Number(ParseIntError),
}

impl View for ExtractError {
    type V = ExtractFailure;

    open spec fn view(&self) -> ExtractFailure {
        match self {
            ExtractError::File(e) => ExtractFailure::File(e@),
            ExtractError::Number(e) => ExtractFailure::Number(*e),
        }
    }
}

impl ExtractError {
    pub open spec fn message_spec(&self) -> Seq<char> {
        match self@ {
            ExtractFailure::File(e) => file_message(e),
            ExtractFailure::Number(e) => e.message_spec(),
        }
    }

    /// The message of the failure, as the stage that failed gave it.
    pub fn message(&self) -> (r: String)
        ensures
            r@ == self.message_spec(),
    {
        match self {
            ExtractError::File(e) => e.message(),
            ExtractError::Number(e) => e.message(),
        }
    }
}

/// What extracting the integer gives: the file's text, or its failure, then
/// the number parsed from the trimmed text, or its failure.
pub open spec fn extraction(
    path: Seq<char>,
    is_file: bool,
    read: Result<Seq<char>, IoCause>,
) -> Result<u32, ExtractFailure> {
    match file_text(path, is_file, read) {
        Err(e) => Err(ExtractFailure::File(e)),
        Ok(text) => match parse_decimal(trimmed(text)) {
            Ok(v) => Ok(v),
            Err(e) => Err(ExtractFailure::Number(e)),
        },
    }
}

pub open spec fn outcome_view(r: Result<u32, ExtractError>) -> Result<u32, ExtractFailure> {
    match r {
        Ok(v) => Ok(v),
        Err(e) => Err(e@),
    }
}

/// Reads the unsigned integer that the file at `path` holds.
///
/// `is_file` says whether `path` names a regular file, and `read` is what
/// reading the whole file as text gave; it is looked at only where the path
/// passes `check_file`, so a caller need not read a file that is refused.
/// The first failure is returned unchanged.
pub fn extract_integer(path: &str, is_file: bool, read: Result<String, IoCause>) -> (r: Result<
    u32,
    ExtractError,
>)
    ensures
        outcome_view(r) == extraction(path@, is_file, read_view(read)),
{
    let text = match read_file(path, is_file, read) {
        Ok(text) => text,
        Err(e) => {
            return Err(ExtractError::File(e));
        },
    };
    match get_number(text.as_str()) {
        Ok(v) => Ok(v),
        Err(e) => Err(ExtractError::Number(e)),
    }
}

/// A path that names no regular file (missing, or a directory) is refused as
/// not a file, whatever a read would give, and the message names the path.
pub proof fn lemma_not_a_file(path: Seq<char>, read: Result<Seq<char>, IoCause>)
    ensures
        file_text(path, false, read) == Err::<Seq<char>, FileFailure>(FileFailure::NotAFile(path)),
        extraction(path, false, read) == Err::<u32, ExtractFailure>(
            ExtractFailure::File(FileFailure::NotAFile(path)),
        ),
        file_message(FileFailure::NotAFile(path)).subrange(
            file_message(FileFailure::NotAFile(path)).len() - path.len(),
            file_message(FileFailure::NotAFile(path)).len() as int,
        ) == path,
{
    let m = file_message(FileFailure::NotAFile(path));
    assert(m.subrange(m.len() - path.len(), m.len() as int) =~= path);
}

/// A regular file whose name lacks the extension `txt` is refused with the
/// fixed message, whatever a read would give.
pub proof fn lemma_wrong_extension(path: Seq<char>, read: Result<Seq<char>, IoCause>)
    requires
        !crate::file::has_txt_extension(path),
    ensures
        file_text(path, true, read) == Err::<Seq<char>, FileFailure>(FileFailure::WrongExtension),
        file_message(FileFailure::WrongExtension) == "The file should have txt extension!"@,
{
}

/// A `.txt` file that may not be read fails with the permission cause,
/// which differs from every other failure of a read.
pub proof fn lemma_permission_denied(path: Seq<char>)
    requires
        crate::file::has_txt_extension(path),
    ensures
        file_text(path, true, Err(IoCause::PermissionDenied)) == Err::<Seq<char>, FileFailure>(
            FileFailure::Io(IoCause::PermissionDenied),
        ),
        file_text(path, true, Err(IoCause::Other)) != file_text(
            path,
            true,
            Err(IoCause::PermissionDenied),
        ),
{
}

/// A readable `.txt` file gives its text exactly as it was read.
pub proof fn lemma_text_untouched(path: Seq<char>, text: Seq<char>)
    requires
        crate::file::has_txt_extension(path),
    ensures
        file_text(path, true, Ok(text)) == Ok::<Seq<char>, FileFailure>(text),
{
}

/// A readable `.txt` file whose text is no number fails as a number, not as
/// a file.
pub proof fn lemma_invalid_number(path: Seq<char>, text: Seq<char>)
    requires
        crate::file::has_txt_extension(path),
        parse_decimal(trimmed(text)) is Err,
    ensures
        extraction(path, true, Ok(text)) == Err::<u32, ExtractFailure>(
            ExtractFailure::Number(parse_decimal(trimmed(text))->Err_0),
        ),
        extraction(path, true, Ok(text))->Err_0 is Number,
{
}

/// Two extractions from the same path, over the same unchanged file, give
/// the same outcome.
pub proof fn lemma_extract_repeatable(
    path: Seq<char>,
    is_file: bool,
    read: Result<Seq<char>, IoCause>,
    first: Result<u32, ExtractError>,
    second: Result<u32, ExtractError>,
)
    requires
        outcome_view(first) == extraction(path, is_file, read),
        outcome_view(second) == extraction(path, is_file, read),
    ensures
        outcome_view(first) == outcome_view(second),
{
}

} // verus!
