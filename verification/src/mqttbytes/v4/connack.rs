//! The ConnAck packet: the broker's answer to a Connect.

use crate::mqttbytes::{read_u8, spec_read_u8, Error, FixedHeader};
use vstd::prelude::*;

verus! {

/// The return code of a ConnAck, numbered 0 to 5 on the wire.
#[derive(Debug, Clone, Copy, PartialEq, Eq, Structural)]
pub enum ConnectReturnCode {
    Success,
    RefusedProtocolVersion,
    BadClientId,
    ServiceUnavailable,
    BadUserNamePassword,
    NotAuthorized,
}

/// The broker's answer to a Connect.
#[derive(Debug, Clone, Copy, PartialEq, Eq, Structural)]
pub struct ConnAck {
    pub session_present: bool,
    pub code: ConnectReturnCode,
}

/// The return code with wire value `num`.
pub open spec fn spec_connect_return(num: u8) -> Result<ConnectReturnCode, Error> {
    if num == 0 {
        Ok(ConnectReturnCode::Success)
    } else if num == 1 {
        Ok(ConnectReturnCode::RefusedProtocolVersion)
    } else if num == 2 {
        Ok(ConnectReturnCode::BadClientId)
    } else if num == 3 {
        Ok(ConnectReturnCode::ServiceUnavailable)
    } else if num == 4 {
        Ok(ConnectReturnCode::BadUserNamePassword)
    } else if num == 5 {
        Ok(ConnectReturnCode::NotAuthorized)
    } else {
        Err(Error::InvalidConnectReturnCode(num))
    }
}

/// The ConnAck packet in the frame `s`: a flags byte whose low bit tells
/// whether a session is present, then the return code.
pub open spec fn spec_connack(h: FixedHeader, s: Seq<u8>) -> Result<ConnAck, Error> {
    match spec_read_u8(s, h.fixed_header_len as int) {
        Err(e) => Err(e),
        Ok((flags, p1)) => match spec_read_u8(s, p1) {
            Err(e) => Err(e),
            Ok((code, _)) => match spec_connect_return(code) {
                Err(e) => Err(e),
                Ok(c) => Ok(ConnAck { session_present: flags % 2 == 1, code: c }),
            },
        },
    }
}

/// The return code with wire value `num`.
pub fn connect_return(num: u8) -> (r: Result<ConnectReturnCode, Error>)
    ensures
        r == spec_connect_return(num),
{
    match num {
        0 => Ok(ConnectReturnCode::Success),
        1 => Ok(ConnectReturnCode::RefusedProtocolVersion),
        2 => Ok(ConnectReturnCode::BadClientId),
        3 => Ok(ConnectReturnCode::ServiceUnavailable),
        4 => Ok(ConnectReturnCode::BadUserNamePassword),
        5 => Ok(ConnectReturnCode::NotAuthorized),
        _ => Err(Error::InvalidConnectReturnCode(num)),
    }
}

impl ConnAck {
    pub fn new(code: ConnectReturnCode, session_present: bool) -> (r: ConnAck)
        ensures
            r == (ConnAck { session_present, code }),
    {
        ConnAck { session_present, code }
    }

    /// Parses a ConnAck packet from its whole frame.
    pub fn assemble(fixed_header: FixedHeader, frame: &[u8]) -> (r: Result<ConnAck, Error>)
        requires
            fixed_header.fixed_header_len <= frame@.len(),
        ensures
            r == spec_connack(fixed_header, frame@),
    {
        let (flags, p1) = match read_u8(frame, fixed_header.fixed_header_len) {
            Ok(v) => v,
            Err(e) => return Err(e),
        };
        let (return_code, _) = match read_u8(frame, p1) {
            Ok(v) => v,
            Err(e) => return Err(e),
        };
        let session_present = flags % 2 == 1;
        match connect_return(return_code) {
            Ok(code) => Ok(ConnAck { session_present, code }),
            Err(e) => Err(e),
        }
    }
}

} // verus!
