//! The Connect packet: the first packet a client sends.

use crate::mqttbytes::{
    qos, read_mqtt_bytes, read_mqtt_string, read_u16, read_u8, spec_qos, spec_read_mqtt_bytes,
    spec_read_mqtt_string, spec_read_u16, spec_read_u8, Error, FixedHeader, Protocol, QoS,
};
use vstd::prelude::*;

verus! {

/// The message that the broker publishes when the client goes away.
#[derive(Debug, Clone, PartialEq, Eq)]
pub struct LastWill {
    pub topic: String,
    pub message: Vec<u8>,
    pub qos: QoS,
    pub retain: bool,
}

/// What a `LastWill` holds, as mathematical values.
pub struct LastWillV {
    pub topic: Seq<char>,
    pub message: Seq<u8>,
    pub qos: QoS,
    pub retain: bool,
}

impl View for LastWill {
    type V = LastWillV;

    open spec fn view(&self) -> LastWillV {
        LastWillV {
            topic: self.topic@,
            message: self.message@,
            qos: self.qos,
            retain: self.retain,
        }
    }
}

/// The credentials of a client.
#[derive(Debug, Clone, PartialEq, Eq)]
pub struct Login {
    pub username: String,
    pub password: String,
}

/// What a `Login` holds, as mathematical values.
pub struct LoginV {
    pub username: Seq<char>,
    pub password: Seq<char>,
}

impl View for Login {
    type V = LoginV;

    open spec fn view(&self) -> LoginV {
        LoginV { username: self.username@, password: self.password@ }
    }
}

/// A request to connect.
#[derive(Debug, Clone, PartialEq, Eq)]
pub struct Connect {
    pub protocol: Protocol,
    pub keep_alive: u16,
    pub client_id: String,
    pub clean_session: bool,
    pub last_will: Option<LastWill>,
    pub login: Option<Login>,
}

/// What a `Connect` holds, as mathematical values.
pub struct ConnectV {
    pub protocol: Protocol,
    pub keep_alive: u16,
    pub client_id: Seq<char>,
    pub clean_session: bool,
    pub last_will: Option<LastWillV>,
    pub login: Option<LoginV>,
}

impl View for Connect {
    type V = ConnectV;

    open spec fn view(&self) -> ConnectV {
        ConnectV {
            protocol: self.protocol,
            keep_alive: self.keep_alive,
            client_id: self.client_id@,
            clean_session: self.clean_session,
            last_will: match self.last_will {
                Some(w) => Some(w@),
                None => None,
            },
            login: match self.login {
                Some(l) => Some(l@),
                None => None,
            },
        }
    }
}

/// The protocol name that a Connect must carry.
pub open spec fn mqtt_name() -> Seq<char> {
    seq!['M', 'Q', 'T', 'T']
}

/// The last will at position `p` of `s`, present when bit 2 of the connect
/// flags is set: a topic, a message, and the quality of service (bits 3-4)
/// and retain flag (bit 5) from the flags. Without a will, bits 3 to 5 must
/// be clear.
pub open spec fn spec_last_will(flags: u8, s: Seq<u8>, p: int) -> Result<
    (Option<LastWillV>, int),
    Error,
> {
    if (flags / 4) % 2 == 0 {
        if (flags / 8) % 8 != 0 {
            Err(Error::IncorrectPacketFormat)
        } else {
            Ok((None, p))
        }
    } else {
        match spec_read_mqtt_string(s, p) {
            Err(e) => Err(e),
            Ok((topic, p1)) => match spec_read_mqtt_bytes(s, p1) {
                Err(e) => Err(e),
                Ok((message, p2)) => match spec_qos((flags / 8) % 4) {
                    Err(e) => Err(e),
                    Ok(q) => Ok(
                        (
                            Some(
                                LastWillV {
                                    topic,
                                    message,
                                    qos: q,
                                    retain: (flags / 32) % 2 == 1,
                                },
                            ),
                            p2,
                        ),
                    ),
                },
            },
        }
    }
}

/// A string at position `p` of `s` when `present`, else the empty string.
pub open spec fn spec_optional_string(present: bool, s: Seq<u8>, p: int) -> Result<
    (Seq<char>, int),
    Error,
> {
    if present {
        spec_read_mqtt_string(s, p)
    } else {
        Ok((Seq::empty(), p))
    }
}

/// The login at position `p` of `s`: a user name when bit 7 of the connect
/// flags is set, then a password when bit 6 is; none when both are empty.
pub open spec fn spec_login(flags: u8, s: Seq<u8>, p: int) -> Result<Option<LoginV>, Error> {
    match spec_optional_string((flags / 128) % 2 == 1, s, p) {
        Err(e) => Err(e),
        Ok((username, p1)) => match spec_optional_string((flags / 64) % 2 == 1, s, p1) {
            Err(e) => Err(e),
            Ok((password, _)) => if username.len() == 0 && password.len() == 0 {
                Ok(None)
            } else {
                Ok(Some(LoginV { username, password }))
            },
        },
    }
}

/// The Connect packet in the frame `s`: the protocol name "MQTT", the
/// protocol level (4 or 5), the connect flags (bit 1: clean session), the
/// keep alive, the client identifier, the last will and the login.
pub open spec fn spec_connect(h: FixedHeader, s: Seq<u8>) -> Result<ConnectV, Error> {
    match spec_read_mqtt_string(s, h.fixed_header_len as int) {
        Err(e) => Err(e),
        Ok((name, p1)) => match spec_read_u8(s, p1) {
            Err(e) => Err(e),
            Ok((level, p2)) => if name != mqtt_name() {
                Err(Error::InvalidProtocol)
            } else if level != 4 && level != 5 {
                Err(Error::InvalidProtocolLevel(level))
            } else {
                match spec_read_u8(s, p2) {
                    Err(e) => Err(e),
                    Ok((flags, p3)) => match spec_read_u16(s, p3) {
                        Err(e) => Err(e),
                        Ok((keep_alive, p4)) => match spec_read_mqtt_string(s, p4) {
                            Err(e) => Err(e),
                            Ok((client_id, p5)) => match spec_last_will(flags, s, p5) {
                                Err(e) => Err(e),
                                Ok((last_will, p6)) => match spec_login(flags, s, p6) {
                                    Err(e) => Err(e),
                                    Ok(login) => Ok(
                                        ConnectV {
                                            protocol: if level == 4 {
                                                Protocol::V4
                                            } else {
                                                Protocol::V5
                                            },
                                            keep_alive,
                                            client_id,
                                            clean_session: (flags / 2) % 2 == 1,
                                            last_will,
                                            login,
                                        },
                                    ),
                                },
                            },
                        },
                    },
                }
            },
        },
    }
}

impl LastWill {
    /// Reads the last will that the connect flags announce.
    pub fn read(connect_flags: u8, frame: &[u8], p: usize) -> (r: Result<
        (Option<LastWill>, usize),
        Error,
    >)
        ensures
            match r {
                Ok((w, q)) => spec_last_will(connect_flags, frame@, p as int) == Ok::<
                    (Option<LastWillV>, int),
                    Error,
                >(
                    (
                        match w {
                            Some(w) => Some(w@),
                            None => None,
                        },
                        q as int,
                    ),
                ),
                Err(e) => spec_last_will(connect_flags, frame@, p as int) == Err::<
                    (Option<LastWillV>, int),
                    Error,
                >(e),
            },
    {
        if (connect_flags / 4) % 2 == 0 {
            if (connect_flags / 8) % 8 != 0 {
                return Err(Error::IncorrectPacketFormat);
            }
            return Ok((None, p));
        }
        let (topic, p1) = match read_mqtt_string(frame, p) {
            Ok(v) => v,
            Err(e) => return Err(e),
        };
        let (message, p2) = match read_mqtt_bytes(frame, p1) {
            Ok(v) => v,
            Err(e) => return Err(e),
        };
        let q = match qos((connect_flags / 8) % 4) {
            Ok(q) => q,
            Err(e) => return Err(e),
        };
        let retain = (connect_flags / 32) % 2 == 1;
        Ok((Some(LastWill { topic, message, qos: q, retain }), p2))
    }
}

/// Reads a string at position `p` of `frame` when `present`; otherwise
/// gives the empty string.
pub fn read_optional_string(present: bool, frame: &[u8], p: usize) -> (r: Result<
    (String, usize),
    Error,
>)
    ensures
        match r {
            Ok((v, q)) => spec_optional_string(present, frame@, p as int) == Ok::<
                (Seq<char>, int),
                Error,
            >((v@, q as int)),
            Err(e) => spec_optional_string(present, frame@, p as int) == Err::<
                (Seq<char>, int),
                Error,
            >(e),
        },
{
    if present {
        read_mqtt_string(frame, p)
    } else {
        Ok((String::new(), p))
    }
}

impl Login {
    /// Reads the user name and password that the connect flags announce.
    pub fn read(connect_flags: u8, frame: &[u8], p: usize) -> (r: Result<Option<Login>, Error>)
        ensures
            match r {
                Ok(l) => spec_login(connect_flags, frame@, p as int) == Ok::<
                    Option<LoginV>,
                    Error,
                >(
                    match l {
                        Some(l) => Some(l@),
                        None => None,
                    },
                ),
                Err(e) => spec_login(connect_flags, frame@, p as int) == Err::<
                    Option<LoginV>,
                    Error,
                >(e),
            },
    {
        let (username, p1) = match read_optional_string(
            (connect_flags / 128) % 2 == 1,
            frame,
            p,
        ) {
            Ok(v) => v,
            Err(e) => return Err(e),
        };
        let (password, _) = match read_optional_string((connect_flags / 64) % 2 == 1, frame, p1) {
            Ok(v) => v,
            Err(e) => return Err(e),
        };
        if username.as_str().is_empty() && password.as_str().is_empty() {
            Ok(None)
        } else {
            Ok(Some(Login { username, password }))
        }
    }
}

impl Connect {
    /// A request to connect as `client_id`, with protocol level 4, a keep
    /// alive of 10 seconds, a clean session, no last will and no login.
    pub fn new(client_id: String) -> (r: Connect)
        ensures
            r@ == (ConnectV {
                protocol: Protocol::V4,
                keep_alive: 10,
                client_id: client_id@,
                clean_session: true,
                last_will: None,
                login: None,
            }),
    {
        Connect {
            protocol: Protocol::V4,
            keep_alive: 10,
            client_id,
            clean_session: true,
            last_will: None,
            login: None,
        }
    }

    /// Parses a Connect packet from its whole frame.
    pub fn assemble(fixed_header: FixedHeader, frame: &[u8]) -> (r: Result<Connect, Error>)
        requires
            fixed_header.fixed_header_len <= frame@.len(),
        ensures
            match r {
                Ok(c) => spec_connect(fixed_header, frame@) == Ok::<ConnectV, Error>(c@),
                Err(e) => spec_connect(fixed_header, frame@) == Err::<ConnectV, Error>(e),
            },
    {
        let (protocol_name, p1) = match read_mqtt_string(frame, fixed_header.fixed_header_len) {
            Ok(v) => v,
            Err(e) => return Err(e),
        };
        let (protocol_level, p2) = match read_u8(frame, p1) {
            Ok(v) => v,
            Err(e) => return Err(e),
        };
        let expected = "MQTT".to_owned();
        proof {
            reveal_strlit("MQTT");
            assert(expected@ =~= mqtt_name());
        }
        if !(protocol_name == expected) {
            return Err(Error::InvalidProtocol);
        }
        let protocol = match protocol_level {
            4 => Protocol::V4,
            5 => Protocol::V5,
            num => return Err(Error::InvalidProtocolLevel(num)),
        };
        let (connect_flags, p3) = match read_u8(frame, p2) {
            Ok(v) => v,
            Err(e) => return Err(e),
        };
        let clean_session = (connect_flags / 2) % 2 == 1;
        let (keep_alive, p4) = match read_u16(frame, p3) {
            Ok(v) => v,
            Err(e) => return Err(e),
        };
        let (client_id, p5) = match read_mqtt_string(frame, p4) {
            Ok(v) => v,
            Err(e) => return Err(e),
        };
        let (last_will, p6) = match LastWill::read(connect_flags, frame, p5) {
            Ok(v) => v,
            Err(e) => return Err(e),
        };
        let login = match Login::read(connect_flags, frame, p6) {
            Ok(v) => v,
            Err(e) => return Err(e),
        };
        Ok(Connect { protocol, keep_alive, client_id, clean_session, last_will, login })
    }
}

} // verus!
