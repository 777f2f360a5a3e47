//! Validation of the path that names the input file, and what reading it
//! yields.
use vstd::prelude::*;

verus! {

/// The underlying cause of a failed read.
#[derive(Clone, Copy, Debug, PartialEq, Eq, Structural)]
pub enum IoCause {
    /// The file may not be read by this process.
    PermissionDenied,
    /// Any other failure: an I/O error, or text that is not valid UTF-8.
    Other,
}

/// Why the input file gave no text.
#[derive(Clone, Debug, PartialEq, Eq)]
pub enum FileError {
    /// The path names no regular file (it is missing, or a directory).
    NotAFile(String),
    /// The file's name does not end in the extension `.txt`.
    WrongExtension,
    /// Reading the file failed.
    Io(IoCause),
}

/// The mathematical value of a `FileError`.
pub enum FileFailure {
    NotAFile(Seq<char>),
    WrongExtension,
    Io(IoCause),
}

impl View for FileError {
    type V = FileFailure;

    open spec fn view(&self) -> FileFailure {
        match self {
            FileError::NotAFile(p) => FileFailure::NotAFile(p@),
            FileError::WrongExtension => FileFailure::WrongExtension,
            FileError::Io(c) => FileFailure::Io(*c),
        }
    }
}

pub open spec fn file_message(e: FileFailure) -> Seq<char> {
    match e {
        FileFailure::NotAFile(p) => "Not a file: "@ + p,
        FileFailure::WrongExtension => "The file should have txt extension!"@,
        FileFailure::Io(IoCause::PermissionDenied) => "permission denied"@,
        FileFailure::Io(IoCause::Other) => "input/output failure"@,
    }
}

impl FileError {
    /// The human-readable description of the error.
    pub fn message(&self) -> (r: String)
        ensures
            r@ == file_message(self@),
    {
        match self {
            FileError::NotAFile(p) => {
                let mut m = String::from_str("Not a file: ");
                m.append(p.as_str());
                m
            },
            FileError::WrongExtension => String::from_str("The file should have txt extension!"),
            FileError::Io(IoCause::PermissionDenied) => String::from_str("permission denied"),
            FileError::Io(IoCause::Other) => String::from_str("input/output failure"),
        }
    }

    /// The cause of a failed read, where the error is one.
    pub fn io_cause(&self) -> (r: Option<IoCause>)
        ensures
            r == (match self@ {
                FileFailure::Io(c) => Some(c),
                _ => None,
            }),
    {
        match self {
            FileError::Io(c) => Some(*c),
            _ => None,
        }
    }
}

/// The last component of `path` (what follows its last `/`) is longer than
/// `.txt` and ends in `.txt`: the extension of the file's name is exactly `txt`.
pub open spec fn has_txt_extension(path: Seq<char>) -> bool {
    let n = path.len();
    &&& n >= 5
    &&& path[n - 5] != '/'
    &&& path[n - 4] == '.'
    &&& path[n - 3] == 't'
    &&& path[n - 2] == 'x'
    &&& path[n - 1] == 't'
}

/// Whether the path may be read, given whether it names a regular file.
pub open spec fn path_check(path: Seq<char>, is_file: bool) -> Result<(), FileFailure> {
    if !is_file {
        Err(FileFailure::NotAFile(path))
    } else if !has_txt_extension(path) {
        Err(FileFailure::WrongExtension)
    } else {
        Ok(())
    }
}

/// The text that the file gives: the read's outcome counts only once the path
/// has passed the check.
pub open spec fn file_text(
    path: Seq<char>,
    is_file: bool,
    read: Result<Seq<char>, IoCause>,
) -> Result<Seq<char>, FileFailure> {
    match path_check(path, is_file) {
        Err(e) => Err(e),
        Ok(_) => match read {
            Ok(text) => Ok(text),
            Err(c) => Err(FileFailure::Io(c)),
        },
    }
}

pub open spec fn read_view(read: Result<String, IoCause>) -> Result<Seq<char>, IoCause> {
    match read {
        Ok(text) => Ok(text@),
        Err(c) => Err(c),
    }
}

pub open spec fn text_view(r: Result<String, FileError>) -> Result<Seq<char>, FileFailure> {
    match r {
        Ok(text) => Ok(text@),
        Err(e) => Err(e@),
    }
}

pub fn is_txt_file_name(path: &str) -> (r: bool)
    ensures
        r == has_txt_extension(path@),
{
    let n = path.unicode_len();
    n >= 5 && path.get_char(n - 5) != '/' && path.get_char(n - 4) == '.' && path.get_char(n - 3)
        == 't' && path.get_char(n - 2) == 'x' && path.get_char(n - 1) == 't'
}

/// Decides whether the file at `path` may be read: it must be a regular file
/// (`is_file`) whose name has the extension `txt`.
pub fn check_file(path: &str, is_file: bool) -> (r: Result<(), FileError>)
    ensures
        match r {
            Ok(_) => path_check(path@, is_file) is Ok,
            Err(e) => path_check(path@, is_file) == Err::<(), FileFailure>(e@),
        },
{
    if !is_file {
        return Err(FileError::NotAFile(String::from_str(path)));
    }
    if !is_txt_file_name(path) {
        return Err(FileError::WrongExtension);
    }
    Ok(())
}

/// The full text of the file at `path`, given whether the path names a
/// regular file and what reading it gave. The text comes back as it was read,
/// untrimmed; `read` is looked at only where the path passes `check_file`.
pub fn read_file(path: &str, is_file: bool, read: Result<String, IoCause>) -> (r: Result<
    String,
    FileError,
>)
    ensures
        text_view(r) == file_text(path@, is_file, read_view(read)),
{
    match check_file(path, is_file) {
        Err(e) => Err(e),
        Ok(_) => match read {
            Ok(text) => Ok(text),
            Err(c) => Err(FileError::Io(c)),
        },
    }
}

} // verus!
