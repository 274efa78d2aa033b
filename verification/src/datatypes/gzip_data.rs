//! Request bodies that may be compressed.

use crate::datastore::data_providers::http_data_provider;
use crate::text;
use libflate::gzip::Decoder;
use std::io::{ErrorKind, Read};
use vstd::prelude::*;
use vstd::utf8::*;

verus! {

/// What was read, and how long it was.
#[derive(Debug, PartialEq, Eq, PartialOrd, Ord, Hash)]
pub struct LoggedBodyJSON<T> {
    pub body: T,
    pub size: usize,
}

impl<T> LoggedBodyJSON<T> {
    pub fn into_inner(self) -> (r: T)
        ensures
            r == self.body,
    {
        self.body
    }
}

/// Why compressed bytes cannot be read.
#[derive(Clone, Copy, Debug, PartialEq, Eq, Structural)]
pub enum InflateError {
    BadHeader,
    EndsTooSoon,
    BadStream,
}

/// The first bytes that a gzip stream holds, `at_most` of them, where they can be
/// read.
pub uninterp spec fn inflated(data: Seq<u8>, at_most: u64) -> Result<Seq<u8>, InflateError>;

pub open spec fn inflated_view(r: Result<Vec<u8>, InflateError>) -> Result<
    Seq<u8>,
    InflateError,
> {
    match r {
        Ok(v) => Ok(v@),
        Err(e) => Err(e),
    }
}

/// `libflate::gzip::Decoder`, read to its end or to the end of what is asked for.
/// It hands out no more than that.
#[verifier::external_body]
fn inflate(data: &[u8], at_most: u64) -> (r: Result<Vec<u8>, InflateError>)
    ensures
        inflated_view(r) == inflated(data@, at_most),
        r matches Ok(v) ==> v@.len() <= at_most,
{
    let decoder = Decoder::new(data).map_err(|_| InflateError::BadHeader)?;
    let mut out = Vec::new();
    match decoder.take(at_most).read_to_end(&mut out) {
        Ok(_) => Ok(out),
        Err(e) if e.kind() == ErrorKind::UnexpectedEof => Err(InflateError::EndsTooSoon),
        Err(_) => Err(InflateError::BadStream),
    }
}

/// What came of reading a body.
#[derive(Debug)]
pub enum BodyRead {
    Complete(Vec<u8>),
    /// There was more than is taken.
    Incomplete,
    /// Reading failed, and whether it was for the lack of data.
    Failed { ended_too_soon: bool },
}

/// Why a body is refused.
#[derive(Clone, Copy, Debug, PartialEq, Eq, Structural)]
pub enum BodyError {
    DataLimitExceeded,
    EndsTooSoon,
    ReadFailed,
    CannotDecodeGzip,
    BadGzip,
    NotUtf8,
}

impl BodyError {
    /// Whatever ends too soon is taken for a body that is too large.
    pub open spec fn code(self) -> u16 {
        match self {
            BodyError::DataLimitExceeded => 413,
            BodyError::EndsTooSoon => 413,
            _ => 400,
        }
    }

    pub fn status(&self) -> (r: u16)
        ensures
            r == self.code(),
    {
        match self {
            BodyError::DataLimitExceeded | BodyError::EndsTooSoon => 413,
            _ => 400,
        }
    }
}

/// The status of a body that is no JSON of the right kind.
pub fn parse_error_status(is_data_error: bool) -> (r: u16)
    ensures
        r == (if is_data_error {
            422u16
        } else {
            400u16
        }),
{
    if is_data_error {
        422
    } else {
        400
    }
}

/// The bytes of a body, without their compression. What it holds is limited like
/// the body itself.
pub open spec fn plain_bytes(
    is_gzipped: bool,
    raw: Seq<u8>,
    limit: u64,
) -> Result<Seq<u8>, BodyError> {
    if !is_gzipped {
        Ok(raw)
    } else {
        let at_most = if limit < u64::MAX {
            (limit + 1) as u64
        } else {
            u64::MAX
        };
        match inflated(raw, at_most) {
            Err(InflateError::BadHeader) => Err(BodyError::CannotDecodeGzip),
            Err(InflateError::EndsTooSoon) => Err(BodyError::EndsTooSoon),
            Err(InflateError::BadStream) => Err(BodyError::BadGzip),
            Ok(data) => if data.len() > limit {
                Err(BodyError::DataLimitExceeded)
            } else {
                Ok(data)
            },
        }
    }
}

/// The text of a body, and how many bytes it takes.
pub open spec fn body_text(bytes: Result<Seq<u8>, BodyError>) -> Result<
    (Seq<char>, nat),
    BodyError,
> {
    match bytes {
        Err(e) => Err(e),
        Ok(data) => if valid_utf8(data) {
            Ok((decode_utf8(data), data.len()))
        } else {
            Err(BodyError::NotUtf8)
        },
    }
}

/// What came of a body: its text and size, or why it is refused.
pub open spec fn read_text(
    content_encoding: Option<Seq<char>>,
    body: BodyRead,
    limit: u64,
) -> Result<(Seq<char>, nat), BodyError> {
    match body {
        BodyRead::Incomplete => Err(BodyError::DataLimitExceeded),
        BodyRead::Failed { ended_too_soon } => Err(
            if ended_too_soon {
                BodyError::EndsTooSoon
            } else {
                BodyError::ReadFailed
            },
        ),
        BodyRead::Complete(raw) => body_text(
            plain_bytes(content_encoding == Some("gzip"@), raw@, limit),
        ),
    }
}

pub open spec fn sized_view(r: Result<LoggedBodyJSON<String>, BodyError>) -> Result<
    (Seq<char>, nat),
    BodyError,
> {
    match r {
        Ok(b) => Ok((b.body@, b.size as nat)),
        Err(e) => Err(e),
    }
}

/// The text of some bytes, with its length in bytes.
fn text_of(data: Vec<u8>) -> (r: Result<LoggedBodyJSON<String>, BodyError>)
    ensures
        sized_view(r) == body_text(Ok(data@)),
{
    match http_data_provider::utf8_text(data.as_slice()) {
        Some(s) => Ok(LoggedBodyJSON { body: s, size: data.len() }),
        None => Err(BodyError::NotUtf8),
    }
}

/// Reads the text of a body, which may be compressed.
pub fn from_data(content_encoding: &Option<String>, body: BodyRead, limit: u64) -> (r: Result<
    LoggedBodyJSON<String>,
    BodyError,
>)
    ensures
        sized_view(r) == read_text(text::text_option(*content_encoding), body, limit),
{
    let raw = match body {
        BodyRead::Complete(raw) => raw,
        BodyRead::Incomplete => {
            return Err(BodyError::DataLimitExceeded);
        },
        BodyRead::Failed { ended_too_soon } => {
            return Err(
                if ended_too_soon {
                    BodyError::EndsTooSoon
                } else {
                    BodyError::ReadFailed
                },
            );
        },
    };
    let is_gzipped = match content_encoding {
        Some(e) => text::same_text(e.as_str(), "gzip"),
        None => false,
    };
    if !is_gzipped {
        return text_of(raw);
    }
    let at_most: u64 = if limit < u64::MAX {
        limit + 1
    } else {
        u64::MAX
    };
    match inflate(raw.as_slice(), at_most) {
        Err(InflateError::BadHeader) => Err(BodyError::CannotDecodeGzip),
        Err(InflateError::EndsTooSoon) => Err(BodyError::EndsTooSoon),
        Err(InflateError::BadStream) => Err(BodyError::BadGzip),
        Ok(data) => {
            if data.len() as u64 > limit {
                return Err(BodyError::DataLimitExceeded);
            }
            text_of(data)
        },
    }
}

/// A small body that inflates to a large text is refused: what is read of a
/// compressed body is no longer than a body may be.
pub proof fn law_inflated_bodies_fit(body: BodyRead, limit: u64)
    ensures
        read_text(Some("gzip"@), body, limit) matches Ok((_, size)) ==> size <= limit,
{
}

/// A plain body is read as it came, whatever its size. Its text is that of its bytes, and
/// bytes that are no text are an error.
pub proof fn law_plain_bodies_are_read_as_they_came(
    content_encoding: Option<Seq<char>>,
    raw: Vec<u8>,
    limit: u64,
)
    requires
        content_encoding != Some("gzip"@),
    ensures
        ({
            let r = read_text(content_encoding, BodyRead::Complete(raw), limit);
            &&& r is Ok <==> valid_utf8(raw@)
            &&& r matches Ok((t, size)) ==> encode_utf8(t) == raw@ && size == raw@.len()
            &&& r is Err ==> r->Err_0 == BodyError::NotUtf8
        }),
{
    if valid_utf8(raw@) {
        decode_utf8_encode_utf8(raw@);
    }
}

/// A packed body is read as what it unpacks to, within the limit. The limit is a byte less
/// than what is unpacked at most, and a body that goes on is too large.
pub proof fn law_packed_bodies_are_unpacked(raw: Vec<u8>, limit: u64)
    requires
        limit < u64::MAX,
    ensures
        ({
            let r = read_text(Some("gzip"@), BodyRead::Complete(raw), limit);
            match inflated(raw@, (limit + 1) as u64) {
                Ok(data) => {
                    &&& data.len() > limit ==> r == Err::<(Seq<char>, nat), BodyError>(
                        BodyError::DataLimitExceeded,
                    )
                    &&& data.len() <= limit && valid_utf8(data) ==> {
                        &&& r matches Ok((t, size))
                        &&& encode_utf8(t) == data
                        &&& size == data.len()
                    }
                    &&& data.len() <= limit && !valid_utf8(data) ==> r == Err::<
                        (Seq<char>, nat),
                        BodyError,
                    >(BodyError::NotUtf8)
                },
                Err(_) => r is Err && r->Err_0 != BodyError::NotUtf8 && r->Err_0
                    != BodyError::DataLimitExceeded,
            }
        }),
{
    if let Ok(data) = inflated(raw@, (limit + 1) as u64) {
        if valid_utf8(data) {
            decode_utf8_encode_utf8(data);
        }
    }
}

/// A body that is too large, or ends before it should, is told as one that is too large,
/// and any other that cannot be read as a bad request.
pub proof fn law_bodies_are_refused_by_cause(
    e: BodyError,
    content_encoding: Option<Seq<char>>,
    limit: u64,
)
    ensures
        e.code() == 413 <==> e == BodyError::DataLimitExceeded || e == BodyError::EndsTooSoon,
        e.code() == 413 || e.code() == 400,
        read_text(content_encoding, BodyRead::Incomplete, limit) == Err::<
            (Seq<char>, nat),
            BodyError,
        >(BodyError::DataLimitExceeded),
        read_text(content_encoding, BodyRead::Failed { ended_too_soon: true }, limit) == Err::<
            (Seq<char>, nat),
            BodyError,
        >(BodyError::EndsTooSoon),
        read_text(content_encoding, BodyRead::Failed { ended_too_soon: false }, limit) == Err::<
            (Seq<char>, nat),
            BodyError,
        >(BodyError::ReadFailed),
{
}

} // verus!
