//! The SubAck packet: the broker's answer to a Subscribe, one return code
//! per filter.

use crate::mqttbytes::{
    read_u16, read_u8, spec_read_u16, spec_read_u8, Error, FixedHeader, QoS,
};
use vstd::prelude::*;

verus! {

/// The answer to one filter of a subscription: the quality of service
/// granted (codes 0 to 2), or failure (code 128).
#[derive(Debug, Clone, Copy, PartialEq, Eq, Structural)]
pub enum SubscribeReasonCode {
    Success(QoS),
    Failure,
}

/// The broker's answer to a Subscribe.
#[derive(Debug, Clone, PartialEq, Eq)]
pub struct SubAck {
    pub pkid: u16,
    pub return_codes: Vec<SubscribeReasonCode>,
}

/// What a `SubAck` holds, as mathematical values.
pub struct SubAckV {
    pub pkid: u16,
    pub return_codes: Seq<SubscribeReasonCode>,
}

impl View for SubAck {
    type V = SubAckV;

    open spec fn view(&self) -> SubAckV {
        SubAckV { pkid: self.pkid, return_codes: self.return_codes@ }
    }
}

/// The return code with wire value `code`.
pub open spec fn spec_reason(code: u8) -> Result<SubscribeReasonCode, Error> {
    if code == 0 {
        Ok(SubscribeReasonCode::Success(QoS::AtMostOnce))
    } else if code == 1 {
        Ok(SubscribeReasonCode::Success(QoS::AtLeastOnce))
    } else if code == 2 {
        Ok(SubscribeReasonCode::Success(QoS::ExactlyOnce))
    } else if code == 128 {
        Ok(SubscribeReasonCode::Failure)
    } else {
        Err(Error::InvalidSubscribeReasonCode(code))
    }
}

/// The return codes from position `p` to the end of `s`, one byte each.
pub open spec fn spec_return_codes(s: Seq<u8>, p: int) -> Result<Seq<SubscribeReasonCode>, Error>
    decreases s.len() - p,
{
    if p >= s.len() {
        Ok(Seq::empty())
    } else {
        match spec_read_u8(s, p) {
            Err(e) => Err(e),
            Ok((code, p1)) => match spec_reason(code) {
                Err(e) => Err(e),
                Ok(c) => match spec_return_codes(s, p1) {
                    Err(e) => Err(e),
                    Ok(rest) => Ok(seq![c] + rest),
                },
            },
        }
    }
}

/// The SubAck packet in the frame `s`: a packet identifier, then at least
/// one return code.
pub open spec fn spec_suback(h: FixedHeader, s: Seq<u8>) -> Result<SubAckV, Error> {
    match spec_read_u16(s, h.fixed_header_len as int) {
        Err(e) => Err(e),
        Ok((pkid, p1)) => if p1 >= s.len() {
            Err(Error::MalformedPacket)
        } else {
            match spec_return_codes(s, p1) {
                Err(e) => Err(e),
                Ok(codes) => Ok(SubAckV { pkid, return_codes: codes }),
            }
        },
    }
}

/// `done` followed by the result `rest`.
pub open spec fn prepend_codes(
    done: Seq<SubscribeReasonCode>,
    rest: Result<Seq<SubscribeReasonCode>, Error>,
) -> Result<Seq<SubscribeReasonCode>, Error> {
    match rest {
        Err(e) => Err(e),
        Ok(r) => Ok(done + r),
    }
}

/// The return code with wire value `code`.
pub fn reason(code: u8) -> (r: Result<SubscribeReasonCode, Error>)
    ensures
        r == spec_reason(code),
{
    match code {
        0 => Ok(SubscribeReasonCode::Success(QoS::AtMostOnce)),
        1 => Ok(SubscribeReasonCode::Success(QoS::AtLeastOnce)),
        2 => Ok(SubscribeReasonCode::Success(QoS::ExactlyOnce)),
        128 => Ok(SubscribeReasonCode::Failure),
        _ => Err(Error::InvalidSubscribeReasonCode(code)),
    }
}

impl SubAck {
    pub fn new(pkid: u16, return_codes: Vec<SubscribeReasonCode>) -> (r: SubAck)
        ensures
            r@ == (SubAckV { pkid, return_codes: return_codes@ }),
    {
        SubAck { pkid, return_codes }
    }

    /// Parses a SubAck packet from its whole frame.
    pub fn assemble(fixed_header: FixedHeader, frame: &[u8]) -> (r: Result<SubAck, Error>)
        requires
            fixed_header.fixed_header_len <= frame@.len(),
        ensures
            match r {
                Ok(p) => spec_suback(fixed_header, frame@) == Ok::<SubAckV, Error>(p@),
                Err(e) => spec_suback(fixed_header, frame@) == Err::<SubAckV, Error>(e),
            },
    {
        let (pkid, start) = match read_u16(frame, fixed_header.fixed_header_len) {
            Ok(v) => v,
            Err(e) => return Err(e),
        };
        if start >= frame.len() {
            return Err(Error::MalformedPacket);
        }
        let mut pos: usize = start;
        let mut return_codes: Vec<SubscribeReasonCode> = Vec::new();
        while pos < frame.len()
            invariant
                start <= pos <= frame@.len(),
                start < frame@.len(),
                spec_read_u16(frame@, fixed_header.fixed_header_len as int) == Ok::<(u16, int), Error>(
                    (pkid, start as int),
                ),
                spec_return_codes(frame@, start as int) == prepend_codes(
                    return_codes@,
                    spec_return_codes(frame@, pos as int),
                ),
            decreases frame@.len() - pos,
        {
            let ghost before = return_codes@;
            let (code, p1) = match read_u8(frame, pos) {
                Ok(v) => v,
                Err(e) => return Err(e),
            };
            let c = match reason(code) {
                Ok(c) => c,
                Err(e) => return Err(e),
            };
            return_codes.push(c);
            proof {
                match spec_return_codes(frame@, p1 as int) {
                    Ok(rest) => {
                        assert(before + (seq![c] + rest) =~= return_codes@ + rest);
                    },
                    Err(_) => {},
                }
            }
            pos = p1;
        }
        assert(return_codes@ + Seq::<SubscribeReasonCode>::empty() =~= return_codes@);
        Ok(SubAck { pkid, return_codes })
    }
}

} // verus!
