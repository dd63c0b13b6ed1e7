//! The packets that carry a packet identifier alone: PubAck, PubRec, PubRel,
//! PubComp and UnsubAck.

use crate::mqttbytes::{read_u16, spec_read_u16, Error, FixedHeader};
use vstd::prelude::*;

verus! {

/// The packet identifier at the start of the variable header of the frame
/// `s`, whose fixed header is `h`. Whatever follows it is not read.
pub open spec fn spec_pkid(h: FixedHeader, s: Seq<u8>) -> Result<u16, Error> {
    match spec_read_u16(s, h.fixed_header_len as int) {
        Err(e) => Err(e),
        Ok((pkid, _)) => Ok(pkid),
    }
}

/// The packet identifier of an UnsubAck frame, whose remaining length must
/// be exactly 2.
pub open spec fn spec_unsuback_pkid(h: FixedHeader, s: Seq<u8>) -> Result<u16, Error> {
    if h.remaining_len != 2 {
        Err(Error::PayloadSizeIncorrect)
    } else {
        spec_pkid(h, s)
    }
}

/// Reads the packet identifier that follows the fixed header.
pub fn read_pkid(fixed_header: FixedHeader, frame: &[u8]) -> (r: Result<u16, Error>)
    ensures
        r == spec_pkid(fixed_header, frame@),
{
    match read_u16(frame, fixed_header.fixed_header_len) {
        Ok((pkid, _)) => Ok(pkid),
        Err(e) => Err(e),
    }
}

/// Acknowledgement of a publication at "at least once".
#[derive(Debug, Clone, Copy, PartialEq, Eq, Structural)]
pub struct PubAck {
    pub pkid: u16,
}

/// First reply to a publication at "exactly once".
#[derive(Debug, Clone, Copy, PartialEq, Eq, Structural)]
pub struct PubRec {
    pub pkid: u16,
}

/// Release of a publication at "exactly once".
#[derive(Debug, Clone, Copy, PartialEq, Eq, Structural)]
pub struct PubRel {
    pub pkid: u16,
}

/// Completion of a publication at "exactly once".
#[derive(Debug, Clone, Copy, PartialEq, Eq, Structural)]
pub struct PubComp {
    pub pkid: u16,
}

/// Acknowledgement of an unsubscription.
#[derive(Debug, Clone, Copy, PartialEq, Eq, Structural)]
pub struct UnsubAck {
    pub pkid: u16,
}

impl PubAck {
    pub fn new(pkid: u16) -> (r: PubAck)
        ensures
            r == (PubAck { pkid }),
    {
        PubAck { pkid }
    }

    /// Parses a PubAck packet from its whole frame.
    pub fn assemble(fixed_header: FixedHeader, frame: &[u8]) -> (r: Result<PubAck, Error>)
        requires
            fixed_header.fixed_header_len <= frame@.len(),
        ensures
            match r {
                Ok(p) => spec_pkid(fixed_header, frame@) == Ok::<u16, Error>(p.pkid),
                Err(e) => spec_pkid(fixed_header, frame@) == Err::<u16, Error>(e),
            },
    {
        match read_pkid(fixed_header, frame) {
            Ok(pkid) => Ok(PubAck { pkid }),
            Err(e) => Err(e),
        }
    }
}

impl PubRec {
    pub fn new(pkid: u16) -> (r: PubRec)
        ensures
            r == (PubRec { pkid }),
    {
        PubRec { pkid }
    }

    /// Parses a PubRec packet from its whole frame.
    pub fn assemble(fixed_header: FixedHeader, frame: &[u8]) -> (r: Result<PubRec, Error>)
        requires
            fixed_header.fixed_header_len <= frame@.len(),
        ensures
            match r {
                Ok(p) => spec_pkid(fixed_header, frame@) == Ok::<u16, Error>(p.pkid),
                Err(e) => spec_pkid(fixed_header, frame@) == Err::<u16, Error>(e),
            },
    {
        match read_pkid(fixed_header, frame) {
            Ok(pkid) => Ok(PubRec { pkid }),
            Err(e) => Err(e),
        }
    }
}

impl PubRel {
    pub fn new(pkid: u16) -> (r: PubRel)
        ensures
            r == (PubRel { pkid }),
    {
        PubRel { pkid }
    }

    /// Parses a PubRel packet from its whole frame.
    pub fn assemble(fixed_header: FixedHeader, frame: &[u8]) -> (r: Result<PubRel, Error>)
        requires
            fixed_header.fixed_header_len <= frame@.len(),
        ensures
            match r {
                Ok(p) => spec_pkid(fixed_header, frame@) == Ok::<u16, Error>(p.pkid),
                Err(e) => spec_pkid(fixed_header, frame@) == Err::<u16, Error>(e),
            },
    {
        match read_pkid(fixed_header, frame) {
            Ok(pkid) => Ok(PubRel { pkid }),
            Err(e) => Err(e),
        }
    }
}

impl PubComp {
    pub fn new(pkid: u16) -> (r: PubComp)
        ensures
            r == (PubComp { pkid }),
    {
        PubComp { pkid }
    }

    /// Parses a PubComp packet from its whole frame.
    pub fn assemble(fixed_header: FixedHeader, frame: &[u8]) -> (r: Result<PubComp, Error>)
        requires
            fixed_header.fixed_header_len <= frame@.len(),
        ensures
            match r {
                Ok(p) => spec_pkid(fixed_header, frame@) == Ok::<u16, Error>(p.pkid),
                Err(e) => spec_pkid(fixed_header, frame@) == Err::<u16, Error>(e),
            },
    {
        match read_pkid(fixed_header, frame) {
            Ok(pkid) => Ok(PubComp { pkid }),
            Err(e) => Err(e),
        }
    }
}

impl UnsubAck {
    pub fn new(pkid: u16) -> (r: UnsubAck)
        ensures
            r == (UnsubAck { pkid }),
    {
        UnsubAck { pkid }
    }

    /// Parses an UnsubAck packet from its whole frame.
    pub fn assemble(fixed_header: FixedHeader, frame: &[u8]) -> (r: Result<UnsubAck, Error>)
        requires
            fixed_header.fixed_header_len <= frame@.len(),
        ensures
            match r {
                Ok(p) => spec_unsuback_pkid(fixed_header, frame@) == Ok::<u16, Error>(p.pkid),
                Err(e) => spec_unsuback_pkid(fixed_header, frame@) == Err::<u16, Error>(e),
            },
    {
        if fixed_header.remaining_len != 2 {
            return Err(Error::PayloadSizeIncorrect);
        }
        match read_pkid(fixed_header, frame) {
            Ok(pkid) => Ok(UnsubAck { pkid }),
            Err(e) => Err(e),
        }
    }
}

} // verus!
