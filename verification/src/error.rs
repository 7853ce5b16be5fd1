//! The failures a run can meet.

use crate::crypto::DecryptError;
use crate::text::{decimal, decimal_digits};
use vstd::prelude::*;
use vstd::string::*;

verus! {

/// What the transport reports of a request that did not end in a usable
/// response.
#[derive(Clone, Copy, Debug, PartialEq, Eq)]
pub struct TransportError {
    /// The request ran into its time limit.
    pub timeout: bool,
    /// No connection could be made.
    pub connect: bool,
    /// The status of the response, where one arrived.
    pub status: Option<u16>,
}

/// Why one segment did not reach the disk.
#[derive(Clone, Copy, Debug, PartialEq, Eq)]
pub enum ChunkError {
    /// The request for the key or for the segment failed.
    Fetch(TransportError),
    /// The key's URI is neither an absolute URL nor a reference that the base
    /// URL can resolve.
    KeyUri,
    /// The initialization vector is not hexadecimal.
    IvDecode,
    /// The body could not be decrypted.
    Decrypt(DecryptError),
    /// The segment could not be written.
    Io,
    /// The task that ran the segment ended without an outcome.
    TaskFailed,
}

/// What is said of a failed request.
pub open spec fn transport_text(t: TransportError) -> Seq<char> {
    if t.timeout {
        "request timed out"@
    } else if t.connect {
        "connection failed"@
    } else {
        match t.status {
            Some(status) => "server answered "@ + decimal_digits(status as nat),
            None => "request failed"@,
        }
    }
}

/// What is said of a segment's failure.
pub open spec fn description(cause: ChunkError) -> Seq<char> {
    match cause {
        ChunkError::Fetch(t) => transport_text(t),
        ChunkError::KeyUri => "key URI cannot be resolved"@,
        ChunkError::IvDecode => "initialization vector is not hexadecimal"@,
        ChunkError::Decrypt(DecryptError::UnalignedInput) => "ciphertext is not made of whole blocks"@,
        ChunkError::Decrypt(DecryptError::BadPadding) => "padding is malformed"@,
        ChunkError::Io => "segment could not be written"@,
        ChunkError::TaskFailed => "task ended without an outcome"@,
    }
}

impl ChunkError {
    /// Says in words why the segment failed.
    pub fn describe(&self) -> (r: String)
        ensures
            r@ == description(*self),
    {
        match self {
            ChunkError::Fetch(t) => {
                if t.timeout {
                    "request timed out".to_owned()
                } else if t.connect {
                    "connection failed".to_owned()
                } else {
                    match t.status {
                        Some(status) => {
                            let mut text = "server answered ".to_owned();
                            text.append(decimal(status as usize).as_str());
                            text
                        },
                        None => "request failed".to_owned(),
                    }
                }
            },
            ChunkError::KeyUri => "key URI cannot be resolved".to_owned(),
            ChunkError::IvDecode => "initialization vector is not hexadecimal".to_owned(),
            ChunkError::Decrypt(DecryptError::UnalignedInput) => 
                "ciphertext is not made of whole blocks".to_owned(),
            ChunkError::Decrypt(DecryptError::BadPadding) => "padding is malformed".to_owned(),
            ChunkError::Io => "segment could not be written".to_owned(),
            ChunkError::TaskFailed => "task ended without an outcome".to_owned(),
        }
    }
}

/// Status codes from 500 to 599.
pub open spec fn is_server_error(status: u16) -> bool {
    500 <= status < 600
}

/// Status codes from 400 to 499.
pub open spec fn is_client_error(status: u16) -> bool {
    400 <= status < 500
}

/// A failure worth another attempt: the connection failed, the request timed
/// out, the server answered 5xx, or it answered 429.
pub open spec fn retryable(error: ChunkError) -> bool {
    match error {
        ChunkError::Fetch(t) => t.timeout || t.connect || match t.status {
            Some(status) => is_server_error(status) || status == 429,
            None => false,
        },
        _ => false,
    }
}

/// Tells whether `error` is worth another attempt.
pub fn is_retryable_error(error: &ChunkError) -> (r: bool)
    ensures
        r == retryable(*error),
{
    match error {
        ChunkError::Fetch(t) => {
            if t.timeout || t.connect {
                return true;
            }
            match t.status {
                Some(status) => (500 <= status && status < 600) || status == 429,
                None => false,
            }
        },
        _ => false,
    }
}

} // verus!
