//! Plain-value forms of the C ABI: statuses, borrowed views, log values and their limits.
//!
//! A C pointer that may be NULL is an `Option` here (or the `Null` case of an array view), and
//! a C union is a struct with one slot per member of which the tag selects one.

use vstd::prelude::*;
use vstd::utf8::{decode_utf8, encode_utf8, encode_utf8_decode_utf8, valid_utf8};

verus! {

/// Status codes returned across the C boundary.
#[derive(Clone, Copy, Debug, PartialEq, Eq, Structural)]
pub enum OtelStatus {
    /// Success.
    Success,
    /// An argument was NULL, out of range or inconsistent.
    InvalidArgument,
    /// A string was not valid UTF-8.
    InvalidUtf8,
    /// A configuration is not acceptable.
    InvalidConfig,
    /// The target was shut down before.
    AlreadyShutdown,
    /// The operation ran out of time.
    Timeout,
    /// The export pipeline failed.
    ExportFailed,
    /// The library itself failed.
    InternalError,
    /// A code this library does not assign.
    Other(u32),
}

impl OtelStatus {
    /// The number of this status on the C side.
    pub open spec fn spec_code(self) -> u32 {
        match self {
            OtelStatus::Success => 0,
            OtelStatus::InvalidArgument => 1,
            OtelStatus::InvalidUtf8 => 2,
            OtelStatus::InvalidConfig => 3,
            OtelStatus::AlreadyShutdown => 4,
            OtelStatus::Timeout => 5,
            OtelStatus::ExportFailed => 6,
            OtelStatus::InternalError => 7,
            OtelStatus::Other(code) => code,
        }
    }

    /// The number of this status on the C side.
    pub fn code(self) -> (r: u32)
        ensures
            r == self.spec_code(),
    {
        match self {
            OtelStatus::Success => 0,
            OtelStatus::InvalidArgument => 1,
            OtelStatus::InvalidUtf8 => 2,
            OtelStatus::InvalidConfig => 3,
            OtelStatus::AlreadyShutdown => 4,
            OtelStatus::Timeout => 5,
            OtelStatus::ExportFailed => 6,
            OtelStatus::InternalError => 7,
            OtelStatus::Other(code) => code,
        }
    }

    /// The status with the given number; an unassigned number is kept as `Other`.
    pub fn from_code(code: u32) -> (r: OtelStatus)
        ensures
            r.spec_code() == code,
            r matches OtelStatus::Other(c) ==> c > 7,
    {
        match code {
            0 => OtelStatus::Success,
            1 => OtelStatus::InvalidArgument,
            2 => OtelStatus::InvalidUtf8,
            3 => OtelStatus::InvalidConfig,
            4 => OtelStatus::AlreadyShutdown,
            5 => OtelStatus::Timeout,
            6 => OtelStatus::ExportFailed,
            7 => OtelStatus::InternalError,
            _ => OtelStatus::Other(code),
        }
    }
}

/// Why a borrowed view cannot be read.
#[derive(Clone, Copy, Debug, PartialEq, Eq, Structural)]
pub enum AbiError {
    /// A NULL pointer came with a non-zero length.
    NullData,
    /// The bytes are not UTF-8.
    InvalidUtf8,
}

impl AbiError {
    /// The status reported for this error.
    pub open spec fn spec_status(self) -> OtelStatus {
        match self {
            AbiError::NullData => OtelStatus::InvalidArgument,
            AbiError::InvalidUtf8 => OtelStatus::InvalidUtf8,
        }
    }

    /// The diagnostic recorded for this error.
    pub open spec fn spec_message(self) -> Seq<char> {
        match self {
            AbiError::NullData => "view has a NULL pointer with a non-zero length"@,
            AbiError::InvalidUtf8 => "string view is not valid UTF-8"@,
        }
    }

    /// The status reported for this error.
    pub fn status(self) -> (r: OtelStatus)
        ensures
            r == self.spec_status(),
    {
        match self {
            AbiError::NullData => OtelStatus::InvalidArgument,
            AbiError::InvalidUtf8 => OtelStatus::InvalidUtf8,
        }
    }

    /// The diagnostic recorded for this error.
    pub fn message(self) -> (r: &'static str)
        ensures
            r@ == self.spec_message(),
    {
        match self {
            AbiError::NullData => "view has a NULL pointer with a non-zero length",
            AbiError::InvalidUtf8 => "string view is not valid UTF-8",
        }
    }
}

/// The status and diagnostic of a text that cannot be read, if it cannot.
pub open spec fn text_fault(text: Result<Seq<char>, AbiError>) -> Option<(OtelStatus, Seq<char>)> {
    match text {
        Ok(_) => None,
        Err(e) => Some((e.spec_status(), e.spec_message())),
    }
}

/// `std::str::from_utf8`: the bytes as text exactly when they are valid UTF-8.
#[verifier::external_body]
fn utf8_text(bytes: &[u8]) -> (r: Option<&str>)
    ensures
        r is Some <==> valid_utf8(bytes@),
        r matches Some(s) ==> encode_utf8(s@) == bytes@,
{
    std::str::from_utf8(bytes).ok()
}

/// A borrowed string. `None` stands for a NULL pointer with a non-zero length.
#[derive(Clone, Copy, Debug)]
pub struct OtelStringView<'a> {
    pub bytes: Option<&'a [u8]>,
}

impl<'a> OtelStringView<'a> {
    /// The text of the view, or why it has none.
    pub open spec fn text(self) -> Result<Seq<char>, AbiError> {
        match self.bytes {
            None => Err(AbiError::NullData),
            Some(bytes) => if valid_utf8(bytes@) {
                Ok(decode_utf8(bytes@))
            } else {
                Err(AbiError::InvalidUtf8)
            },
        }
    }

    /// The view of no bytes.
    pub fn empty() -> (r: OtelStringView<'a>)
        ensures
            r.text() == Ok::<Seq<char>, AbiError>(Seq::empty()),
            r.bytes is Some,
            r.bytes->0@ == Seq::<u8>::empty(),
    {
        let none: &'a str = "";
        proof {
            reveal_strlit("");
            assert(none@ =~= Seq::<char>::empty());
            encode_utf8_decode_utf8(none@);
            assert(encode_utf8(none@) =~= Seq::<u8>::empty());
        }
        OtelStringView { bytes: Some(none.as_bytes()) }
    }

    /// The view of the bytes of `s`.
    pub fn of(s: &'a str) -> (r: OtelStringView<'a>)
        ensures
            r.text() == Ok::<Seq<char>, AbiError>(s@),
            r.bytes is Some,
            r.bytes->0@ == encode_utf8(s@),
    {
        proof {
            encode_utf8_decode_utf8(s@);
            vstd::utf8::encode_utf8_valid_utf8(s@);
        }
        OtelStringView { bytes: Some(s.as_bytes()) }
    }

    /// The text of the view.
    pub fn as_str(&self) -> (r: Result<&'a str, AbiError>)
        ensures
            r is Ok <==> self.text() is Ok,
            r matches Ok(s) ==> self.text() == Ok::<Seq<char>, AbiError>(s@) && self.bytes is Some
                && encode_utf8(s@) == self.bytes->0@,
            r matches Err(e) ==> self.text() == Err::<Seq<char>, AbiError>(e),
    {
        match self.bytes {
            None => Err(AbiError::NullData),
            Some(bytes) => match utf8_text(bytes) {
                None => Err(AbiError::InvalidUtf8),
                Some(s) => {
                    proof {
                        encode_utf8_decode_utf8(s@);
                    }
                    Ok(s)
                },
            },
        }
    }

    /// An owned copy of the text of the view.
    pub fn to_string_strict(&self) -> (r: Result<String, AbiError>)
        ensures
            r is Ok <==> self.text() is Ok,
            r matches Ok(s) ==> self.text() == Ok::<Seq<char>, AbiError>(s@),
            r matches Err(e) ==> self.text() == Err::<Seq<char>, AbiError>(e),
    {
        match self.as_str() {
            Ok(s) => Ok(s.to_owned()),
            Err(e) => Err(e),
        }
    }
}

/// The empty text has no bytes.
pub proof fn lemma_empty_text()
    ensures
        encode_utf8(Seq::<char>::empty()) == Seq::<u8>::empty(),
{
    assert(encode_utf8(Seq::<char>::empty()) =~= Seq::<u8>::empty());
}

/// A borrowed array that a C pointer and a count describe.
#[derive(Clone, Copy, Debug)]
pub enum OtelArrayView<'a, T> {
    /// A NULL pointer with the given count.
    Null(usize),
    /// A readable array.
    Data(&'a [T]),
}

impl<'a, T> OtelArrayView<'a, T> {
    /// The count that came with the pointer.
    pub open spec fn spec_count(self) -> nat {
        match self {
            OtelArrayView::Null(count) => count as nat,
            OtelArrayView::Data(items) => items@.len(),
        }
    }

    /// The readable elements.
    pub open spec fn items(self) -> Seq<T> {
        match self {
            OtelArrayView::Null(_) => Seq::empty(),
            OtelArrayView::Data(items) => items@,
        }
    }

    /// A NULL pointer with a non-zero count.
    pub open spec fn spec_is_dangling(self) -> bool {
        self matches OtelArrayView::Null(count) && count > 0
    }

    /// The count that came with the pointer.
    pub fn count(&self) -> (r: usize)
        ensures
            r == self.spec_count(),
    {
        match self {
            OtelArrayView::Null(count) => *count,
            OtelArrayView::Data(items) => items.len(),
        }
    }

    /// Whether the pointer is NULL although the count is not zero.
    pub fn is_dangling(&self) -> (r: bool)
        ensures
            r == self.spec_is_dangling(),
    {
        match self {
            OtelArrayView::Null(count) => *count > 0,
            OtelArrayView::Data(_) => false,
        }
    }
}

} // verus!
