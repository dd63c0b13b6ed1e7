//! The requests that an MQTT 3.1.1 client hands to its event loop, and how
//! the client builds them.

use crate::mqttbytes::v4::ack::{PubAck, PubComp, PubRec, PubRel, UnsubAck};
use crate::mqttbytes::v4::publish::{Publish, PublishV};
use crate::mqttbytes::v4::suback::{SubAck, SubAckV};
use crate::mqttbytes::v4::subscribe::{
    filters_view, Subscribe, SubscribeFilter, SubscribeFilterV, SubscribeV,
};
use crate::mqttbytes::v4::unsubscribe::{Unsubscribe, UnsubscribeV};
use crate::mqttbytes::{Error, QoS};
use vstd::prelude::*;

verus! {

/// Requests by the client to the event loop. Requests are handled one by
/// one.
#[derive(Clone, Debug, PartialEq, Eq)]
pub enum Request {
    Publish(Publish),
    PubAck(PubAck),
    PubRec(PubRec),
    PubComp(PubComp),
    PubRel(PubRel),
    PingReq,
    PingResp,
    Subscribe(Subscribe),
    SubAck(SubAck),
    Unsubscribe(Unsubscribe),
    UnsubAck(UnsubAck),
    Disconnect,
}

/// What a `Request` holds, as mathematical values.
pub enum RequestV {
    Publish(PublishV),
    PubAck(PubAck),
    PubRec(PubRec),
    PubComp(PubComp),
    PubRel(PubRel),
    PingReq,
    PingResp,
    Subscribe(SubscribeV),
    SubAck(SubAckV),
    Unsubscribe(UnsubscribeV),
    UnsubAck(UnsubAck),
    Disconnect,
}

impl View for Request {
    type V = RequestV;

    open spec fn view(&self) -> RequestV {
        match self {
            Request::Publish(p) => RequestV::Publish(p@),
            Request::PubAck(p) => RequestV::PubAck(*p),
            Request::PubRec(p) => RequestV::PubRec(*p),
            Request::PubComp(p) => RequestV::PubComp(*p),
            Request::PubRel(p) => RequestV::PubRel(*p),
            Request::PingReq => RequestV::PingReq,
            Request::PingResp => RequestV::PingResp,
            Request::Subscribe(p) => RequestV::Subscribe(p@),
            Request::SubAck(p) => RequestV::SubAck(p@),
            Request::Unsubscribe(p) => RequestV::Unsubscribe(p@),
            Request::UnsubAck(p) => RequestV::UnsubAck(*p),
            Request::Disconnect => RequestV::Disconnect,
        }
    }
}

/// The acknowledgement owed for a publication received at quality of
/// service `qos` with packet identifier `pkid`: none at "at most once", a
/// PubAck at "at least once", a PubRec at "exactly once".
pub open spec fn spec_ack_req(qos: QoS, pkid: u16) -> Option<Request> {
    match qos {
        QoS::AtMostOnce => None,
        QoS::AtLeastOnce => Some(Request::PubAck(PubAck { pkid })),
        QoS::ExactlyOnce => Some(Request::PubRec(PubRec { pkid })),
    }
}

/// The acknowledgement that the client owes for `publish`, if any.
pub fn get_ack_req(publish: &Publish) -> (r: Option<Request>)
    ensures
        r == spec_ack_req(publish.qos, publish.pkid),
{
    let ack = match publish.qos {
        QoS::AtMostOnce => return None,
        QoS::AtLeastOnce => Request::PubAck(PubAck::new(publish.pkid)),
        QoS::ExactlyOnce => Request::PubRec(PubRec::new(publish.pkid)),
    };
    Some(ack)
}

impl Request {
    /// The request to publish `payload` on `topic`: a Publish packet with
    /// the given quality of service and retain flag, no `dup` flag and
    /// packet identifier 0 (the event loop gives it one).
    pub fn publish(topic: String, qos: QoS, retain: bool, payload: Vec<u8>) -> (r: Request)
        ensures
            r@ == RequestV::Publish(
                PublishV { dup: false, qos, retain, topic: topic@, pkid: 0, payload: payload@ },
            ),
    {
        let mut publish = Publish::new(topic, qos, payload);
        publish.retain = retain;
        Request::Publish(publish)
    }

    /// The request to subscribe to one topic filter.
    pub fn subscribe(topic: String, qos: QoS) -> (r: Request)
        ensures
            r@ == RequestV::Subscribe(
                SubscribeV { pkid: 0, filters: seq![SubscribeFilterV { path: topic@, qos }] },
            ),
    {
        Request::Subscribe(Subscribe::new(topic, qos))
    }

    /// The request to subscribe to several topic filters; there must be at
    /// least one.
    pub fn subscribe_many(filters: Vec<SubscribeFilter>) -> (r: Result<Request, Error>)
        ensures
            filters@.len() == 0 ==> r == Err::<Request, Error>(Error::EmptySubscription),
            filters@.len() > 0 ==> r is Ok && r->Ok_0@ == RequestV::Subscribe(
                SubscribeV { pkid: 0, filters: filters_view(filters@) },
            ),
    {
        match Subscribe::new_many(filters) {
            Ok(subscribe) => Ok(Request::Subscribe(subscribe)),
            Err(e) => Err(e),
        }
    }

    /// The request to unsubscribe from one topic filter.
    pub fn unsubscribe(topic: String) -> (r: Request)
        ensures
            r@ == RequestV::Unsubscribe(UnsubscribeV { pkid: 0, topics: seq![topic@] }),
    {
        Request::Unsubscribe(Unsubscribe::new(topic))
    }
}

} // verus!
