//! The Subscribe packet: topic filters, each with the quality of service the
//! client asks for.

use crate::mqttbytes::{
    qos, read_mqtt_string, read_u16, read_u8, spec_qos, spec_read_mqtt_string, spec_read_u16,
    spec_read_u8, Error, FixedHeader, QoS,
};
use vstd::prelude::*;

verus! {

/// A topic filter and the quality of service asked for it.
#[derive(Debug, Clone, PartialEq, Eq)]
pub struct SubscribeFilter {
    pub path: String,
    pub qos: QoS,
}

/// What a `SubscribeFilter` holds, as mathematical values.
pub struct SubscribeFilterV {
    pub path: Seq<char>,
    pub qos: QoS,
}

impl View for SubscribeFilter {
    type V = SubscribeFilterV;

    open spec fn view(&self) -> SubscribeFilterV {
        SubscribeFilterV { path: self.path@, qos: self.qos }
    }
}

/// A subscription to one or more topic filters.
#[derive(Debug, Clone, PartialEq, Eq)]
pub struct Subscribe {
    pub pkid: u16,
    pub filters: Vec<SubscribeFilter>,
}

/// What a `Subscribe` holds, as mathematical values.
pub struct SubscribeV {
    pub pkid: u16,
    pub filters: Seq<SubscribeFilterV>,
}

/// The views of a sequence of filters.
pub open spec fn filters_view(filters: Seq<SubscribeFilter>) -> Seq<SubscribeFilterV> {
    filters.map_values(|f: SubscribeFilter| f@)
}

impl View for Subscribe {
    type V = SubscribeV;

    open spec fn view(&self) -> SubscribeV {
        SubscribeV { pkid: self.pkid, filters: filters_view(self.filters@) }
    }
}

/// The filters from position `p` to the end of `s`: each a string and an
/// options byte whose low two bits are the quality of service.
pub open spec fn spec_filters(s: Seq<u8>, p: int) -> Result<Seq<SubscribeFilterV>, Error>
    decreases s.len() - p,
{
    if p >= s.len() {
        Ok(Seq::empty())
    } else {
        match spec_read_mqtt_string(s, p) {
            Err(e) => Err(e),
            Ok((path, p1)) => match spec_read_u8(s, p1) {
                Err(e) => Err(e),
                Ok((options, p2)) => match spec_qos(options % 4) {
                    Err(e) => Err(e),
                    Ok(q) => match spec_filters(s, p2) {
                        Err(e) => Err(e),
                        Ok(rest) => Ok(seq![SubscribeFilterV { path, qos: q }] + rest),
                    },
                },
            },
        }
    }
}

/// The Subscribe packet in the frame `s`: a packet identifier, then at
/// least one filter.
pub open spec fn spec_subscribe(h: FixedHeader, s: Seq<u8>) -> Result<SubscribeV, Error> {
    match spec_read_u16(s, h.fixed_header_len as int) {
        Err(e) => Err(e),
        Ok((pkid, p1)) => match spec_filters(s, p1) {
            Err(e) => Err(e),
            Ok(filters) => if filters.len() == 0 {
                Err(Error::EmptySubscription)
            } else {
                Ok(SubscribeV { pkid, filters })
            },
        },
    }
}

/// `done` followed by the result `rest`.
pub open spec fn prepend_filters(
    done: Seq<SubscribeFilterV>,
    rest: Result<Seq<SubscribeFilterV>, Error>,
) -> Result<Seq<SubscribeFilterV>, Error> {
    match rest {
        Err(e) => Err(e),
        Ok(r) => Ok(done + r),
    }
}

impl SubscribeFilter {
    pub fn new(path: String, qos: QoS) -> (r: SubscribeFilter)
        ensures
            r@ == (SubscribeFilterV { path: path@, qos }),
    {
        SubscribeFilter { path, qos }
    }
}

impl Subscribe {
    /// A subscription to one filter, with packet identifier 0.
    pub fn new(path: String, qos: QoS) -> (r: Subscribe)
        ensures
            r@ == (SubscribeV { pkid: 0, filters: seq![SubscribeFilterV { path: path@, qos }] }),
    {
        let filter = SubscribeFilter { path, qos };
        let mut filters: Vec<SubscribeFilter> = Vec::new();
        filters.push(filter);
        assert(filters_view(filters@) =~= seq![filter@]);
        Subscribe { pkid: 0, filters }
    }

    /// A subscription to the given filters, with packet identifier 0; there
    /// must be at least one.
    pub fn new_many(filters: Vec<SubscribeFilter>) -> (r: Result<Subscribe, Error>)
        ensures
            filters@.len() == 0 ==> r == Err::<Subscribe, Error>(Error::EmptySubscription),
            filters@.len() > 0 ==> r is Ok && r->Ok_0@ == (SubscribeV {
                pkid: 0,
                filters: filters_view(filters@),
            }),
    {
        if filters.len() == 0 {
            Err(Error::EmptySubscription)
        } else {
            Ok(Subscribe { pkid: 0, filters })
        }
    }

    /// Parses a Subscribe packet from its whole frame.
    pub fn assemble(fixed_header: FixedHeader, frame: &[u8]) -> (r: Result<Subscribe, Error>)
        requires
            fixed_header.fixed_header_len <= frame@.len(),
        ensures
            match r {
                Ok(p) => spec_subscribe(fixed_header, frame@) == Ok::<SubscribeV, Error>(p@),
                Err(e) => spec_subscribe(fixed_header, frame@) == Err::<SubscribeV, Error>(e),
            },
    {
        let (pkid, start) = match read_u16(frame, fixed_header.fixed_header_len) {
            Ok(v) => v,
            Err(e) => return Err(e),
        };
        let mut pos: usize = start;
        let mut filters: Vec<SubscribeFilter> = Vec::new();
        while pos < frame.len()
            invariant
                start <= pos <= frame@.len(),
                spec_read_u16(frame@, fixed_header.fixed_header_len as int) == Ok::<(u16, int), Error>(
                    (pkid, start as int),
                ),
                spec_filters(frame@, start as int) == prepend_filters(
                    filters_view(filters@),
                    spec_filters(frame@, pos as int),
                ),
            decreases frame@.len() - pos,
        {
            let ghost before = filters_view(filters@);
            let (path, p1) = match read_mqtt_string(frame, pos) {
                Ok(v) => v,
                Err(e) => return Err(e),
            };
            let (options, p2) = match read_u8(frame, p1) {
                Ok(v) => v,
                Err(e) => return Err(e),
            };
            let q = match qos(options % 4) {
                Ok(q) => q,
                Err(e) => return Err(e),
            };
            let filter = SubscribeFilter { path, qos: q };
            filters.push(filter);
            assert(filters_view(filters@) =~= before + seq![filter@]);
            assert(before + seq![filter@] + Seq::<SubscribeFilterV>::empty() =~= before
                + seq![filter@]);
            proof {
                match spec_filters(frame@, p2 as int) {
                    Ok(rest) => {
                        assert(before + (seq![filter@] + rest) =~= before + seq![filter@]
                            + rest);
                    },
                    Err(_) => {},
                }
            }
            pos = p2;
        }
        assert(filters_view(filters@) + Seq::<SubscribeFilterV>::empty() =~= filters_view(
            filters@,
        ));
        if filters.len() == 0 {
            return Err(Error::EmptySubscription);
        }
        Ok(Subscribe { pkid, filters })
    }
}

} // verus!
