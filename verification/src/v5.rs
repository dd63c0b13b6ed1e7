//! The requests that an MQTT 5 client hands to its event loop, with the
//! packets they carry.

use crate::mqttbytes::QoS;
use vstd::prelude::*;

verus! {

/// A publication of `payload` on `topic`.
#[derive(Clone, Debug, PartialEq, Eq)]
pub struct Publish {
    pub dup: bool,
    pub qos: QoS,
    pub retain: bool,
    pub topic: String,
    pub pkid: u16,
    pub payload: Vec<u8>,
}

/// Reason codes of a PubAck.
#[derive(Clone, Copy, Debug, PartialEq, Eq, Structural)]
pub enum PubAckReason {
    Success,
    NoMatchingSubscribers,
    UnspecifiedError,
    ImplementationSpecificError,
    NotAuthorized,
    TopicNameInvalid,
    PacketIdentifierInUse,
    QuotaExceeded,
    PayloadFormatInvalid,
}

/// Acknowledgement of a publication at "at least once".
#[derive(Clone, Copy, Debug, PartialEq, Eq, Structural)]
pub struct PubAck {
    pub pkid: u16,
    pub reason: PubAckReason,
}

/// Reason codes of a PubRec.
#[derive(Clone, Copy, Debug, PartialEq, Eq, Structural)]
pub enum PubRecReason {
    Success,
    NoMatchingSubscribers,
    UnspecifiedError,
    ImplementationSpecificError,
    NotAuthorized,
    TopicNameInvalid,
    PacketIdentifierInUse,
    QuotaExceeded,
    PayloadFormatInvalid,
}

/// First reply to a publication at "exactly once".
#[derive(Clone, Copy, Debug, PartialEq, Eq, Structural)]
pub struct PubRec {
    pub pkid: u16,
    pub reason: PubRecReason,
}

/// Reason codes of a PubRel.
#[derive(Clone, Copy, Debug, PartialEq, Eq, Structural)]
pub enum PubRelReason {
    Success,
    PacketIdentifierNotFound,
}

/// Release of a publication at "exactly once".
#[derive(Clone, Copy, Debug, PartialEq, Eq, Structural)]
pub struct PubRel {
    pub pkid: u16,
    pub reason: PubRelReason,
}

/// Reason codes of a PubComp.
#[derive(Clone, Copy, Debug, PartialEq, Eq, Structural)]
pub enum PubCompReason {
    Success,
    PacketIdentifierNotFound,
}

/// Completion of a publication at "exactly once".
#[derive(Clone, Copy, Debug, PartialEq, Eq, Structural)]
pub struct PubComp {
    pub pkid: u16,
    pub reason: PubCompReason,
}

/// When the broker forwards retained messages on a subscription.
#[derive(Clone, Copy, Debug, PartialEq, Eq, Structural)]
pub enum RetainForwardRule {
    OnEverySubscribe,
    OnNewSubscribe,
    Never,
}

/// A topic filter and its subscription options.
#[derive(Clone, Debug, PartialEq, Eq)]
pub struct Filter {
    pub path: String,
    pub qos: QoS,
    pub nolocal: bool,
    pub preserve_retain: bool,
    pub retain_forward_rule: RetainForwardRule,
}

/// A subscription to one or more topic filters.
#[derive(Clone, Debug, PartialEq, Eq)]
pub struct Subscribe {
    pub pkid: u16,
    pub filters: Vec<Filter>,
}

/// The answer to one filter of a subscription.
#[derive(Clone, Copy, Debug, PartialEq, Eq, Structural)]
pub enum SubscribeReasonCode {
    QoS0,
    QoS1,
    QoS2,
    Unspecified,
    ImplementationSpecific,
    NotAuthorized,
    TopicFilterInvalid,
    PkidInUse,
    QuotaExceeded,
    SharedSubscriptionsNotSupported,
    SubscriptionIdNotSupported,
    WildcardSubscriptionsNotSupported,
}

/// The broker's answer to a Subscribe.
#[derive(Clone, Debug, PartialEq, Eq)]
pub struct SubAck {
    pub pkid: u16,
    pub return_codes: Vec<SubscribeReasonCode>,
}

/// An unsubscription from one or more topic filters.
#[derive(Clone, Debug, PartialEq, Eq)]
pub struct Unsubscribe {
    pub pkid: u16,
    pub filters: Vec<String>,
}

/// The answer to one filter of an unsubscription.
#[derive(Clone, Copy, Debug, PartialEq, Eq, Structural)]
pub enum UnsubAckReason {
    Success,
    NoSubscriptionExisted,
    UnspecifiedError,
    ImplementationSpecificError,
    NotAuthorized,
    TopicFilterInvalid,
    PacketIdentifierInUse,
}

/// The broker's answer to an Unsubscribe.
#[derive(Clone, Debug, PartialEq, Eq)]
pub struct UnsubAck {
    pub pkid: u16,
    pub reasons: Vec<UnsubAckReason>,
}

impl PubAck {
    /// A successful acknowledgement of packet `pkid`.
    pub fn new(pkid: u16) -> (r: PubAck)
        ensures
            r == (PubAck { pkid, reason: PubAckReason::Success }),
    {
        PubAck { pkid, reason: PubAckReason::Success }
    }
}

impl PubRec {
    /// A successful first reply to packet `pkid`.
    pub fn new(pkid: u16) -> (r: PubRec)
        ensures
            r == (PubRec { pkid, reason: PubRecReason::Success }),
    {
        PubRec { pkid, reason: PubRecReason::Success }
    }
}

/// Requests by the client to the event loop. Requests are handled one by
/// one.
#[derive(Clone, Debug, PartialEq, Eq)]
pub enum Request {
    Publish(Publish),
    PubAck(PubAck),
    PubRec(PubRec),
    PubComp(PubComp),
    PubRel(PubRel),
    PingReq,
    PingResp,
    Subscribe(Subscribe),
    SubAck(SubAck),
    Unsubscribe(Unsubscribe),
    UnsubAck(UnsubAck),
    Disconnect,
}

/// The acknowledgement owed for a publication received at quality of
/// service `qos` with packet identifier `pkid`: none at "at most once", a
/// successful PubAck at "at least once", a successful PubRec at "exactly
/// once".
pub open spec fn spec_ack_req(qos: QoS, pkid: u16) -> Option<Request> {
    match qos {
        QoS::AtMostOnce => None,
        QoS::AtLeastOnce => Some(Request::PubAck(PubAck { pkid, reason: PubAckReason::Success })),
        QoS::ExactlyOnce => Some(Request::PubRec(PubRec { pkid, reason: PubRecReason::Success })),
    }
}

/// The acknowledgement that the client owes for a publication received at
/// quality of service `qos` with packet identifier `pkid`, if any.
pub fn get_ack_req(qos: QoS, pkid: u16) -> (r: Option<Request>)
    ensures
        r == spec_ack_req(qos, pkid),
{
    let ack = match qos {
        QoS::AtMostOnce => return None,
        QoS::AtLeastOnce => Request::PubAck(PubAck::new(pkid)),
        QoS::ExactlyOnce => Request::PubRec(PubRec::new(pkid)),
    };
    Some(ack)
}

} // verus!
