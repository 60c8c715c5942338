//! The library's error type and small helpers shared by the detector.
use crate::text::push_str;
use vstd::prelude::*;

verus! {

/// A hard failure of detection. Soft absence (no control directory, no
/// `HEAD`, no operation) is never an error.
#[derive(Debug)]
pub enum EnchantError {
    /// A file that must exist once its directory matched is absent.
    MissingFile(String),
    /// An indirection file does not start with `gitdir: ` after trimming.
    MalformedIndirection(String),
    /// A `HEAD` with no branch reference is too short to show a commit.
    MalformedHead(String),
}

/// What an [`EnchantError`] says, with its path as characters.
pub enum Failure {
    MissingFile(Seq<char>),
    MalformedIndirection(Seq<char>),
    MalformedHead(Seq<char>),
}

impl View for EnchantError {
    type V = Failure;

    open spec fn view(&self) -> Failure {
        match self {
            EnchantError::MissingFile(p) => Failure::MissingFile(p@),
            EnchantError::MalformedIndirection(p) => Failure::MalformedIndirection(p@),
            EnchantError::MalformedHead(p) => Failure::MalformedHead(p@),
        }
    }
}

/// The message that reports a failure.
pub open spec fn message_spec(f: Failure) -> Seq<char> {
    match f {
        Failure::MissingFile(p) => "Missing file: "@ + p,
        Failure::MalformedIndirection(p) => "Malformed gitdir file: "@ + p,
        Failure::MalformedHead(p) => "Malformed HEAD file: "@ + p,
    }
}

impl EnchantError {
    /// The message that reports this failure, naming its path.
    pub fn message(&self) -> (r: String)
        ensures
            r@ == message_spec(self@),
    {
        match self {
            EnchantError::MissingFile(p) => {
                let mut r = "Missing file: ".to_owned();
                push_str(&mut r, p.as_str());
                r
            },
            EnchantError::MalformedIndirection(p) => {
                let mut r = "Malformed gitdir file: ".to_owned();
                push_str(&mut r, p.as_str());
                r
            },
            EnchantError::MalformedHead(p) => {
                let mut r = "Malformed HEAD file: ".to_owned();
                push_str(&mut r, p.as_str());
                r
            },
        }
    }
}

/// `value` where `cond` holds, the empty string otherwise.
pub fn conditional(value: &str, cond: bool) -> (r: &str)
    ensures
        r@ == (if cond {
            value@
        } else {
            Seq::<char>::empty()
        }),
{
    proof {
        reveal_strlit("");
    }
    if cond {
        value
    } else {
        ""
    }
}

/// A file at a fixed place under a control directory: its path, and its
/// text where the file exists.
#[derive(Debug)]
pub struct MarkerFile {
    pub path: String,
    pub contents: Option<String>,
}

/// The text of a file that must exist, or the failure that names it.
pub open spec fn required_spec(f: MarkerFile) -> Result<Seq<char>, Failure> {
    match f.contents {
        Some(c) => Ok(c@),
        None => Err(Failure::MissingFile(f.path@)),
    }
}

/// Reads a file that must exist: its absence is a hard failure.
pub fn read_maybe_missing_file(f: &MarkerFile) -> (r: Result<String, EnchantError>)
    ensures
        match required_spec(*f) {
            Ok(c) => r matches Ok(s) && s@ == c,
            Err(e) => r matches Err(x) && x@ == e,
        },
{
    match &f.contents {
        Some(c) => Ok(c.clone()),
        None => Err(EnchantError::MissingFile(f.path.clone())),
    }
}

} // verus!
