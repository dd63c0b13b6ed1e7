//! The Unsubscribe packet: topic filters to drop.

use crate::mqttbytes::{
    read_mqtt_string, read_u16, spec_read_mqtt_string, spec_read_u16, Error, FixedHeader,
};
use vstd::prelude::*;

verus! {

/// An unsubscription from one or more topic filters.
#[derive(Debug, Clone, PartialEq, Eq)]
pub struct Unsubscribe {
    pub pkid: u16,
    pub topics: Vec<String>,
}

/// What an `Unsubscribe` holds, as mathematical values.
pub struct UnsubscribeV {
    pub pkid: u16,
    pub topics: Seq<Seq<char>>,
}

/// The views of a sequence of strings.
pub open spec fn strings_view(topics: Seq<String>) -> Seq<Seq<char>> {
    topics.map_values(|t: String| t@)
}

impl View for Unsubscribe {
    type V = UnsubscribeV;

    open spec fn view(&self) -> UnsubscribeV {
        UnsubscribeV { pkid: self.pkid, topics: strings_view(self.topics@) }
    }
}

/// The topic filters from position `p` to the end of `s`.
pub open spec fn spec_topics(s: Seq<u8>, p: int) -> Result<Seq<Seq<char>>, Error>
    decreases s.len() - p,
{
    if p >= s.len() {
        Ok(Seq::empty())
    } else {
        match spec_read_mqtt_string(s, p) {
            Err(e) => Err(e),
            Ok((topic, p1)) => match spec_topics(s, p1) {
                Err(e) => Err(e),
                Ok(rest) => Ok(seq![topic] + rest),
            },
        }
    }
}

/// The Unsubscribe packet in the frame `s`: a packet identifier, then the
/// topic filters up to the end of the frame.
pub open spec fn spec_unsubscribe(h: FixedHeader, s: Seq<u8>) -> Result<UnsubscribeV, Error> {
    match spec_read_u16(s, h.fixed_header_len as int) {
        Err(e) => Err(e),
        Ok((pkid, p1)) => match spec_topics(s, p1) {
            Err(e) => Err(e),
            Ok(topics) => Ok(UnsubscribeV { pkid, topics }),
        },
    }
}

/// `done` followed by the result `rest`.
pub open spec fn prepend_topics(done: Seq<Seq<char>>, rest: Result<Seq<Seq<char>>, Error>) -> Result<
    Seq<Seq<char>>,
    Error,
> {
    match rest {
        Err(e) => Err(e),
        Ok(r) => Ok(done + r),
    }
}

impl Unsubscribe {
    /// An unsubscription from one topic filter, with packet identifier 0.
    pub fn new(topic: String) -> (r: Unsubscribe)
        ensures
            r@ == (UnsubscribeV { pkid: 0, topics: seq![topic@] }),
    {
        let mut topics: Vec<String> = Vec::new();
        topics.push(topic);
        assert(strings_view(topics@) =~= seq![topic@]);
        Unsubscribe { pkid: 0, topics }
    }

    /// Parses an Unsubscribe packet from its whole frame.
    pub fn assemble(fixed_header: FixedHeader, frame: &[u8]) -> (r: Result<Unsubscribe, Error>)
        requires
            fixed_header.fixed_header_len <= frame@.len(),
        ensures
            match r {
                Ok(p) => spec_unsubscribe(fixed_header, frame@) == Ok::<UnsubscribeV, Error>(p@),
                Err(e) => spec_unsubscribe(fixed_header, frame@) == Err::<UnsubscribeV, Error>(e),
            },
    {
        let (pkid, start) = match read_u16(frame, fixed_header.fixed_header_len) {
            Ok(v) => v,
            Err(e) => return Err(e),
        };
        let mut pos: usize = start;
        let mut topics: Vec<String> = Vec::new();
        while pos < frame.len()
            invariant
                start <= pos <= frame@.len(),
                spec_read_u16(frame@, fixed_header.fixed_header_len as int) == Ok::<(u16, int), Error>(
                    (pkid, start as int),
                ),
                spec_topics(frame@, start as int) == prepend_topics(
                    strings_view(topics@),
                    spec_topics(frame@, pos as int),
                ),
            decreases frame@.len() - pos,
        {
            let ghost before = strings_view(topics@);
            let (topic, p1) = match read_mqtt_string(frame, pos) {
                Ok(v) => v,
                Err(e) => return Err(e),
            };
            let ghost t = topic@;
            topics.push(topic);
            assert(strings_view(topics@) =~= before + seq![t]);
            proof {
                match spec_topics(frame@, p1 as int) {
                    Ok(rest) => {
                        assert(before + (seq![t] + rest) =~= before + seq![t] + rest);
                    },
                    Err(_) => {},
                }
            }
            pos = p1;
        }
        assert(strings_view(topics@) + Seq::<Seq<char>>::empty() =~= strings_view(topics@));
        Ok(Unsubscribe { pkid, topics })
    }
}

} // verus!
