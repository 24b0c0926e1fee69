//! The value model, the engine's failures and the last directory used.

use vstd::prelude::*;
use vstd::utf8::{encode_utf8, encode_utf8_decode_utf8};

verus! {

/// Why an operation of the engine did not produce its result.
#[derive(Clone, Copy, Debug, PartialEq, Eq, Structural)]
pub enum EngineError {
    /// A Variable or List file is absent, or the chosen directory is empty.
    NotFound,
    /// A file does not hold what was expected of it, or a List holds
    /// another type of data than the one asked for.
    Malformed,
    /// A value was to be picked from a collection without elements.
    EmptyCollection,
    /// Question text holds an unterminated or an empty pair of flags.
    InvalidReference,
}

/// What came of one attempt to read a value from a file.
#[derive(Debug, PartialEq)]
pub enum ReadAttempt<T> {
    /// The chosen directory holds no file.
    EmptyDirectory,
    /// The file is absent or could not be read.
    Unreadable,
    /// The file does not hold what was expected of it.
    Unparsable,
    /// The value that the file holds.
    Parsed(T),
}

/// The value that was read, or why there is none: `NotFound` after an
/// empty directory or an unreadable file, `Malformed` after a file that
/// does not hold what was expected of it.
pub fn read_outcome<T>(attempt: ReadAttempt<T>) -> (outcome: Result<T, EngineError>)
    ensures
        outcome == match attempt {
            ReadAttempt::EmptyDirectory => Err::<T, EngineError>(EngineError::NotFound),
            ReadAttempt::Unreadable => Err::<T, EngineError>(EngineError::NotFound),
            ReadAttempt::Unparsable => Err::<T, EngineError>(EngineError::Malformed),
            ReadAttempt::Parsed(value) => Ok::<T, EngineError>(value),
        },
{
    match attempt {
        ReadAttempt::EmptyDirectory => Err(EngineError::NotFound),
        ReadAttempt::Unreadable => Err(EngineError::NotFound),
        ReadAttempt::Unparsable => Err(EngineError::Malformed),
        ReadAttempt::Parsed(value) => Ok(value),
    }
}

/// A decimal number, held as the bit pattern of a 64-bit IEEE 754 float.
///
/// The engine stores and hands on decimals; it never computes with them.
#[derive(Clone, Copy, Debug, PartialEq, Eq, Structural)]
pub struct Decimal {
    pub bits: u64,
}

/// The four types of data that a variable or a list can hold.
#[derive(Clone, Copy, Debug, PartialEq, Eq, Structural)]
pub enum DataKind {
    Strings,
    Characters,
    Ints,
    Floats,
}

/// The tag under which a type of data is written in variables and lists.
pub open spec fn kind_tag(kind: DataKind) -> Seq<char> {
    match kind {
        DataKind::Strings => "Strings"@,
        DataKind::Characters => "chars"@,
        DataKind::Ints => "ints"@,
        DataKind::Floats => "floats"@,
    }
}

/// The type of data that `tag` names, if it names one.
pub open spec fn tag_kind(tag: Seq<char>) -> Option<DataKind> {
    if tag == "Strings"@ {
        Some(DataKind::Strings)
    } else if tag == "chars"@ {
        Some(DataKind::Characters)
    } else if tag == "ints"@ {
        Some(DataKind::Ints)
    } else if tag == "floats"@ {
        Some(DataKind::Floats)
    } else {
        None
    }
}

/// Each type of data is the one that its own tag names.
pub proof fn lemma_tag_names_its_kind(kind: DataKind)
    ensures
        tag_kind(kind_tag(kind)) == Some(kind),
{
    reveal_strlit("Strings");
    reveal_strlit("chars");
    reveal_strlit("ints");
    reveal_strlit("floats");
    assert("Strings"@.len() == 7);
    assert("chars"@.len() == 5);
    assert("ints"@.len() == 4);
    assert("floats"@.len() == 6);
}

/// Whether two string slices hold the same characters.
pub fn same_text(a: &str, b: &str) -> (same: bool)
    ensures
        same == (a@ == b@),
{
    let left = a.as_bytes();
    let right = b.as_bytes();
    proof {
        encode_utf8_decode_utf8(a@);
        encode_utf8_decode_utf8(b@);
    }
    if left.len() != right.len() {
        return false;
    }
    let mut at: usize = 0;
    while at < left.len()
        invariant
            left@ == encode_utf8(a@),
            right@ == encode_utf8(b@),
            left@.len() == right@.len(),
            at <= left@.len(),
            left@.take(at as int) == right@.take(at as int),
        decreases left@.len() - at,
    {
        if left[at] != right[at] {
            return false;
        }
        proof {
            assert(left@.take(at + 1) =~= left@.take(at as int).push(left@[at as int]));
            assert(right@.take(at + 1) =~= right@.take(at as int).push(right@[at as int]));
        }
        at = at + 1;
    }
    proof {
        assert(left@.take(left@.len() as int) =~= left@);
        assert(right@.take(right@.len() as int) =~= right@);
    }
    true
}

/// The type of data that `tag` names, if it names one.
pub fn data_kind(tag: &str) -> (kind: Option<DataKind>)
    ensures
        kind == tag_kind(tag@),
{
    if same_text(tag, "Strings") {
        Some(DataKind::Strings)
    } else if same_text(tag, "chars") {
        Some(DataKind::Characters)
    } else if same_text(tag, "ints") {
        Some(DataKind::Ints)
    } else if same_text(tag, "floats") {
        Some(DataKind::Floats)
    } else {
        None
    }
}

/// The tag of a type of data.
pub fn data_tag(kind: DataKind) -> (tag: &'static str)
    ensures
        tag@ == kind_tag(kind),
{
    match kind {
        DataKind::Strings => "Strings",
        DataKind::Characters => "chars",
        DataKind::Ints => "ints",
        DataKind::Floats => "floats",
    }
}

/// The content of a variable, together with its type.
#[derive(Debug, PartialEq)]
pub enum TypeWrapper {
    Alphanum(String),
    Letter(char),
    Integer(i64),
    Floating(Decimal),
}

/// What a `TypeWrapper` holds, as a mathematical value.
pub enum Content {
    Alphanum(Seq<char>),
    Letter(char),
    Integer(i64),
    Floating(Decimal),
}

impl Content {
    /// The content of a variable of type `kind` before a value was set:
    /// no text, a blank, or zero.
    pub open spec fn blank(kind: DataKind) -> Content {
        match kind {
            DataKind::Strings => Content::Alphanum(Seq::empty()),
            DataKind::Characters => Content::Letter(' '),
            DataKind::Ints => Content::Integer(0),
            DataKind::Floats => Content::Floating(Decimal { bits: 0 }),
        }
    }

    /// The content that is the single character `rune`.
    pub open spec fn letter(rune: char) -> Content {
        Content::Letter(rune)
    }

    /// The type of data that this content is of.
    pub open spec fn kind(self) -> DataKind {
        match self {
            Content::Alphanum(_) => DataKind::Strings,
            Content::Letter(_) => DataKind::Characters,
            Content::Integer(_) => DataKind::Ints,
            Content::Floating(_) => DataKind::Floats,
        }
    }
}

impl View for TypeWrapper {
    type V = Content;

    open spec fn view(&self) -> Content {
        match *self {
            TypeWrapper::Alphanum(s) => Content::Alphanum(s@),
            TypeWrapper::Letter(c) => Content::Letter(c),
            TypeWrapper::Integer(n) => Content::Integer(n),
            TypeWrapper::Floating(d) => Content::Floating(d),
        }
    }
}

impl TypeWrapper {
    /// The content of a variable of type `kind` before a value was set:
    /// no text, a blank, or zero.
    pub fn blank(kind: DataKind) -> (content: TypeWrapper)
        ensures
            content@ == Content::blank(kind),
            content@.kind() == kind,
    {
        match kind {
            DataKind::Strings => TypeWrapper::Alphanum(String::new()),
            DataKind::Characters => TypeWrapper::Letter(' '),
            DataKind::Ints => TypeWrapper::Integer(0),
            DataKind::Floats => TypeWrapper::Floating(Decimal { bits: 0 }),
        }
    }
}

impl Clone for TypeWrapper {
    fn clone(&self) -> (copy: Self)
        ensures
            copy@ == self@,
    {
        match self {
            TypeWrapper::Alphanum(s) => TypeWrapper::Alphanum(s.clone()),
            TypeWrapper::Letter(c) => TypeWrapper::Letter(*c),
            TypeWrapper::Integer(n) => TypeWrapper::Integer(*n),
            TypeWrapper::Floating(d) => TypeWrapper::Floating(*d),
        }
    }
}

/// The directory to start from: the last one used, or `default_dir` where
/// none was used yet, which then becomes the last one used.
pub fn glob_lastdirused_or(last_dir_used: &mut String, default_dir: &str) -> (usedir: String)
    ensures
        old(last_dir_used)@.len() == 0 ==> final(last_dir_used)@ == default_dir@,
        old(last_dir_used)@.len() != 0 ==> final(last_dir_used)@ == old(last_dir_used)@,
        usedir@ == final(last_dir_used)@,
{
    if last_dir_used.as_str().is_empty() {
        *last_dir_used = String::from_str(default_dir);
    }
    last_dir_used.clone()
}

/// The directory to start from: the last one used, or the general data
/// folder where none was used yet, which then becomes the last one used.
pub fn glob_check_lastdirused(last_dir_used: &mut String) -> (usedir: String)
    ensures
        old(last_dir_used)@.len() == 0 ==> final(last_dir_used)@ == crate::DATA_GENERAL_FOLDER@,
        old(last_dir_used)@.len() != 0 ==> final(last_dir_used)@ == old(last_dir_used)@,
        usedir@ == final(last_dir_used)@,
{
    glob_lastdirused_or(last_dir_used, crate::DATA_GENERAL_FOLDER)
}

} // verus!
