//! Error taxonomy of the protocol: format violations found while encoding
//! or decoding a payload, and the failures a client run can report.
use vstd::prelude::*;

verus! {

/// A violation of the wire format, found while encoding or decoding.
/// Every one of these is terminal for the payload at hand: no partial
/// collection ever escapes a failed transcode.
#[derive(Debug)]
pub enum EncodeDecodeError {
    /// One encoded entry exceeded `MAX_ENTRY_LENGTH` bytes.
    InvalidEntryLength(usize),
    /// The whole payload would exceed `MAX_PAYLOAD_LENGTH` bytes, or the
    /// collection holds more entries than a 16-bit count can carry.
    InvalidPayloadLength(usize),
    /// The payload did not open with `WHERED_MAGIC`; the bytes found stand
    /// in the error.
    BadMagic([u8; 4]),
    /// The number of entries found did not match the declared count.
    IncorrectEntryCount,
    /// A string field declared a length over its ceiling; the declared
    /// length and the ceiling stand in the error.
    StringSizeLimitExceeded(u32, usize),
    /// A string field's bytes were not valid UTF-8.
    StringDecodeError,
    /// A presence or active flag held a byte other than 0 or 1.
    NonbinaryBoolean,
    /// An entry declared a remote peer and then carried an empty string.
    EmptyRemote,
}

/// A failure of one client-target exchange.
#[derive(Debug)]
pub enum WhereError {
    /// The reply violated the wire format.
    EncodeDecodeError(EncodeDecodeError),
    /// The transport failed: a read ran past the end of the payload, or a
    /// socket operation failed in the caller.
    IOError,
    /// Every retry timed out. Carries the target's endpoint, the resolved
    /// address, the number of attempts made, and the per-attempt timeout
    /// in milliseconds.
    TimedOut(String, String, usize, u64),
    /// The target's address could not be parsed.
    CannotParseAddress,
}

impl From<EncodeDecodeError> for WhereError {
    fn from(value: EncodeDecodeError) -> (r: Self) {
        WhereError::EncodeDecodeError(value)
    }
}

impl vstd::std_specs::convert::FromSpecImpl<EncodeDecodeError> for WhereError {
    open spec fn obeys_from_spec() -> bool {
        true
    }

    open spec fn from_spec(t: EncodeDecodeError) -> Self {
        WhereError::EncodeDecodeError(t)
    }
}

impl EncodeDecodeError {
    /// A short human-readable name for the condition.
    pub fn message(&self) -> (r: String)
        ensures
            r@.len() > 0,
            self is InvalidEntryLength ==> r@ == "entry exceeds the per-entry length bound"@,
            self is InvalidPayloadLength ==> r@ == "payload exceeds the datagram capacity"@,
            self is BadMagic ==> r@
                == "invalid packet magic, possible corruption or invalid server"@,
            self is IncorrectEntryCount ==> r@ == "invalid amount of entries decoded"@,
            self is StringSizeLimitExceeded ==> r@
                == "exceeded length limit for payload string"@,
            self is StringDecodeError ==> r@ == "string decoding error"@,
            self is NonbinaryBoolean ==> r@ == "boolean value is not 0 or 1"@,
            self is EmptyRemote ==> r@ == "remote tag set but no remote host is present"@,
    {
        let m: &str = match self {
            EncodeDecodeError::InvalidEntryLength(_) => "entry exceeds the per-entry length bound",
            EncodeDecodeError::InvalidPayloadLength(_) => "payload exceeds the datagram capacity",
            EncodeDecodeError::BadMagic(_) => "invalid packet magic, possible corruption or invalid server",
            EncodeDecodeError::IncorrectEntryCount => "invalid amount of entries decoded",
            EncodeDecodeError::StringSizeLimitExceeded(_, _) => "exceeded length limit for payload string",
            EncodeDecodeError::StringDecodeError => "string decoding error",
            EncodeDecodeError::NonbinaryBoolean => "boolean value is not 0 or 1",
            EncodeDecodeError::EmptyRemote => "remote tag set but no remote host is present",
        };
        proof {
            reveal_strlit("entry exceeds the per-entry length bound");
            reveal_strlit("payload exceeds the datagram capacity");
            reveal_strlit("invalid packet magic, possible corruption or invalid server");
            reveal_strlit("invalid amount of entries decoded");
            reveal_strlit("exceeded length limit for payload string");
            reveal_strlit("string decoding error");
            reveal_strlit("boolean value is not 0 or 1");
            reveal_strlit("remote tag set but no remote host is present");
        }
        m.to_owned()
    }
}

impl WhereError {
    /// A short human-readable name for the condition.
    pub fn message(&self) -> (r: String)
        ensures
            r@.len() > 0,
            self is EncodeDecodeError ==> r@ == "encode/decode error"@,
            self is IOError ==> r@ == "input/output error"@,
            self is TimedOut ==> r@ == "timed out waiting for data"@,
            self is CannotParseAddress ==> r@ == "unable to parse server address"@,
    {
        let m: &str = match self {
            WhereError::EncodeDecodeError(_) => "encode/decode error",
            WhereError::IOError => "input/output error",
            WhereError::TimedOut(_, _, _, _) => "timed out waiting for data",
            WhereError::CannotParseAddress => "unable to parse server address",
        };
        proof {
            reveal_strlit("encode/decode error");
            reveal_strlit("input/output error");
            reveal_strlit("timed out waiting for data");
            reveal_strlit("unable to parse server address");
        }
        m.to_owned()
    }
}

} // verus!
