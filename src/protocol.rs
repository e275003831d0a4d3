//! Reading inbound messages (greeting, responses, events), the capability
//! negotiation of QMP and the sync handshake of the guest agent.
use vstd::prelude::*;
use crate::json::{Json, str_eq};
use crate::wire::{Response, Timestamp, is_response, error_parts};

verus! {

/// An asynchronous event: its name, its data and when it happened.
#[derive(Debug)]
pub struct QmpEvent {
    pub name: String,
    pub data: Json,
    pub timestamp: Timestamp,
}

/// An inbound QMP message.
#[derive(Debug)]
pub enum QmpMessage {
    Event(QmpEvent),
    Response(Response),
}

/// Whether a message reads as an event.
pub open spec fn is_event(j: Json) -> bool {
    &&& j.spec_field("event"@) matches Some(Json::Str(_))
    &&& j.spec_field("timestamp"@) matches Some(t)
    &&& t.spec_field("seconds"@) matches Some(Json::UInt(_))
    &&& t.spec_field("microseconds"@) matches Some(Json::UInt(_))
}

impl QmpMessage {
    /// Reads a QMP message: an event where it has the event shape, else a
    /// response; `None` for anything else.
    pub fn from_json(j: Json) -> (r: Option<QmpMessage>)
        ensures
            r matches Some(QmpMessage::Event(e)) ==> is_event(j)
                && (j.spec_field("event"@) matches Some(Json::Str(n)) && n@ == e.name@)
                && j.spec_field("timestamp"@).unwrap().spec_field("seconds"@) == Some(Json::UInt(e.timestamp.spec_seconds()))
                && j.spec_field("timestamp"@).unwrap().spec_field("microseconds"@)
                    == Some(Json::UInt(e.timestamp.spec_microseconds()))
                && (j.spec_field("data"@) matches Some(d) ==> e.data == d)
                && (j.spec_field("data"@) is None ==> (e.data matches Json::Object(f) && f@.len() == 0)),
            r matches Some(QmpMessage::Response(_)) ==> !is_event(j) && is_response(j),
            r is None <==> !is_event(j) && !is_response(j),
    {
        let ev = match (j.field("event"), j.field("timestamp")) {
            (Some(Json::Str(n)), Some(t)) => match Timestamp::from_json(t) {
                Some(ts) => Some((n.clone(), ts)),
                None => None,
            },
            _ => None,
        };
        match ev {
            Some((name, timestamp)) => {
                let data = take_data(j);
                Some(QmpMessage::Event(QmpEvent { name, data, timestamp }))
            },
            None => match Response::from_json(j) {
                Some(r) => Some(QmpMessage::Response(r)),
                None => None,
            },
        }
    }
}

impl QmpMessage {
    /// The response, where a response was expected; an event there is an
    /// error, handed back.
    pub fn into_response(self) -> (r: Result<Response, QmpEvent>)
        ensures
            self matches QmpMessage::Response(res) ==> r == Ok::<Response, QmpEvent>(res),
            self matches QmpMessage::Event(e) ==> r == Err::<Response, QmpEvent>(e),
    {
        match self {
            QmpMessage::Response(res) => Ok(res),
            QmpMessage::Event(e) => Err(e),
        }
    }
}

/// The `data` member of an event; an empty object when it has none.
fn take_data(j: Json) -> (r: Json)
    ensures
        j.spec_field("data"@) matches Some(d) ==> r == d,
        j.spec_field("data"@) is None ==> (r matches Json::Object(f) && f@.len() == 0),
{
    match j {
        Json::Object(fields) => {
            let mut fields = fields;
            match take_entry(&mut fields, "data") {
                Some(d) => d,
                None => Json::Object(Vec::new()),
            }
        },
        _ => Json::Object(Vec::new()),
    }
}

/// A capability that the server offers in its greeting.
#[derive(Debug)]
pub enum QmpCapability {
    OutOfBand,
    Unknown(Json),
}

/// A capability that the client may enable.
#[derive(Clone, Copy, Debug, PartialEq, Eq, Structural)]
pub enum QMPCapability {
    Oob,
}

/// The `QMP` member of the greeting.
#[derive(Debug)]
pub struct QMP {
    pub version: Json,
    pub capabilities: Vec<QmpCapability>,
}

/// The greeting that a QMP server sends once, first.
#[derive(Debug)]
pub struct QapiCapabilities {
    pub QMP: QMP,
}

/// How many entries are the out-of-band capability.
pub open spec fn oob_count(caps: Seq<QmpCapability>) -> nat
    decreases caps.len(),
{
    if caps.len() == 0 {
        0
    } else {
        oob_count(caps.drop_last()) + if caps.last() is OutOfBand { 1nat } else { 0nat }
    }
}

pub open spec fn offers_oob(caps: Seq<QmpCapability>) -> bool {
    exists|i: int| 0 <= i < caps.len() && caps[i] is OutOfBand
}

impl QapiCapabilities {
    /// Reads `{ "QMP": { "version": .., "capabilities": [..] } }`; the
    /// string `"oob"` in the list is the out-of-band capability.
    pub fn from_json(j: Json) -> (r: Option<QapiCapabilities>)
        ensures
            r is Some <==> (j.spec_field("QMP"@) matches Some(q) && q is Object
                && q.spec_field("capabilities"@) matches Some(Json::Array(_))),
            r matches Some(c) ==> match j.spec_field("QMP"@).unwrap().spec_field("capabilities"@) {
                Some(Json::Array(a)) => c.QMP.capabilities@.len() == a@.len()
                    && forall|i: int| 0 <= i < a@.len() ==> ((#[trigger] c.QMP.capabilities@[i]) is OutOfBand
                        <==> (a@[i] matches Json::Str(s) && s@ == "oob"@)),
                _ => false,
            },
    {
        let mut fields = match j {
            Json::Object(f) => f,
            _ => {
                return None;
            },
        };
        let mut qmp = match take_entry(&mut fields, "QMP") {
            Some(Json::Object(f)) => f,
            _ => {
                return None;
            },
        };
        let caps = match take_entry(&mut qmp, "capabilities") {
            Some(Json::Array(a)) => a,
            _ => {
                return None;
            },
        };
        let version = match take_entry(&mut qmp, "version") {
            Some(v) => v,
            None => Json::Null,
        };
        let ghost ca = caps@;
        let total = caps.len();
        let mut caps = caps;
        let mut out: Vec<QmpCapability> = Vec::new();
        let mut i: usize = 0;
        proof {
            reveal_strlit("oob");
        }
        while caps.len() > 0
            invariant
                i + caps@.len() == ca.len(),
                ca.len() == total,
                caps@ == ca.skip(i as int),
                out@.len() == i,
                forall|k: int| 0 <= k < i ==> ((#[trigger] out@[k]) is OutOfBand
                    <==> (ca[k] matches Json::Str(s) && s@ == "oob"@)),
            decreases caps@.len(),
        {
            let c = caps.remove(0);
            assert(c == ca[i as int]);
            assert(caps@ =~= ca.skip(i + 1));
            let is_oob = match &c {
                Json::Str(s) => str_eq(s.as_str(), "oob"),
                _ => false,
            };
            if is_oob {
                out.push(QmpCapability::OutOfBand);
            } else {
                out.push(QmpCapability::Unknown(c));
            }
            i = i + 1;
        }
        Some(QapiCapabilities { QMP: QMP { version, capabilities: out } })
    }

    /// Whether the server offers out-of-band execution.
    pub fn supports_oob(&self) -> (r: bool)
        ensures
            r == offers_oob(self.QMP.capabilities@),
    {
        let mut i: usize = 0;
        while i < self.QMP.capabilities.len()
            invariant
                i <= self.QMP.capabilities@.len(),
                forall|k: int| 0 <= k < i ==> !(self.QMP.capabilities@[k] is OutOfBand),
            decreases self.QMP.capabilities@.len() - i,
        {
            match &self.QMP.capabilities[i] {
                QmpCapability::OutOfBand => {
                    return true;
                },
                QmpCapability::Unknown(_) => {},
            }
            i = i + 1;
        }
        false
    }

    /// The capabilities the client knows, in the order offered: one `Oob`
    /// for each out-of-band entry of the greeting.
    pub fn capabilities(&self) -> (r: Vec<QMPCapability>)
        ensures
            r@.len() > 0 <==> offers_oob(self.QMP.capabilities@),
            r@.len() == oob_count(self.QMP.capabilities@),
            forall|i: int| 0 <= i < r@.len() ==> r@[i] == QMPCapability::Oob,
    {
        let mut out: Vec<QMPCapability> = Vec::new();
        let mut i: usize = 0;
        while i < self.QMP.capabilities.len()
            invariant
                i <= self.QMP.capabilities@.len(),
                out@.len() > 0 <==> exists|k: int| 0 <= k < i && self.QMP.capabilities@[k] is OutOfBand,
                out@.len() == oob_count(self.QMP.capabilities@.take(i as int)),
                forall|k: int| 0 <= k < out@.len() ==> out@[k] == QMPCapability::Oob,
            decreases self.QMP.capabilities@.len() - i,
        {
            assert(self.QMP.capabilities@.take(i + 1).drop_last() =~= self.QMP.capabilities@.take(i as int));
            match &self.QMP.capabilities[i] {
                QmpCapability::OutOfBand => out.push(QMPCapability::Oob),
                QmpCapability::Unknown(_) => {},
            }
            i = i + 1;
        }
        assert(self.QMP.capabilities@.take(i as int) =~= self.QMP.capabilities@);
        out
    }
}

/// Moves out the value of the first entry keyed `key`.
fn take_entry(fields: &mut Vec<(String, Json)>, key: &str) -> (r: Option<Json>)
    ensures
        r == crate::json::first_field(old(fields)@, key@),
{
    let ghost orig = fields@;
    let mut i: usize = 0;
    assert(orig.skip(0) =~= orig);
    while i < fields.len()
        invariant
            i <= fields@.len(),
            fields@ == orig,
            orig == old(fields)@,
            crate::json::first_field(orig, key@) == crate::json::first_field(orig.skip(i as int), key@),
        decreases fields@.len() - i,
    {
        assert(orig.skip(i as int).drop_first() =~= orig.skip(i + 1));
        if str_eq(fields[i].0.as_str(), key) {
            assert(orig.skip(i as int)[0] == orig[i as int]);
            let (_, v) = fields.remove(i);
            return Some(v);
        }
        i = i + 1;
    }
    assert(orig.skip(i as int).len() == 0);
    None
}

/// The arguments of `qmp_capabilities`: `{ "enable": [..] }` with each
/// capability's wire name.
pub fn negotiation_arguments(caps: &Vec<QMPCapability>) -> (r: Json)
    ensures
        r.spec_field("enable"@) matches Some(Json::Array(a)) && a@.len() == caps@.len()
            && forall|i: int| 0 <= i < a@.len() ==> (#[trigger] a@[i] matches Json::Str(s) && s@ == "oob"@),
{
    let mut names: Vec<Json> = Vec::new();
    let mut i: usize = 0;
    while i < caps.len()
        invariant
            i <= caps@.len(),
            names@.len() == i,
            forall|k: int| 0 <= k < i ==> (#[trigger] names@[k] matches Json::Str(s) && s@ == "oob"@),
        decreases caps@.len() - i,
    {
        names.push(Json::Str(String::from_str("oob")));
        i = i + 1;
    }
    let mut fields: Vec<(String, Json)> = Vec::new();
    fields.push((String::from_str("enable"), Json::Array(names)));
    proof {
        reveal_with_fuel(crate::json::first_field, 2);
    }
    Json::Object(fields)
}

/// Why the guest agent handshake failed.
#[derive(Debug)]
pub enum SyncError {
    /// The agent answered with another value than the one sent.
    InvalidData,
    /// The agent reported an error.
    Protocol(crate::wire::Error),
}

/// The arguments of `guest-sync`: `{ "id": value }`.
pub fn sync_arguments(value: u32) -> (r: Json)
    ensures
        r.spec_field("id"@) == Some(Json::UInt(value as u64)),
{
    let mut fields: Vec<(String, Json)> = Vec::new();
    fields.push((String::from_str("id"), Json::UInt(value as u64)));
    proof {
        reveal_with_fuel(crate::json::first_field, 2);
    }
    Json::Object(fields)
}

/// Checks the agent's answer to `guest-sync`: the handshake holds exactly
/// when the answer is the value sent.
pub fn check_sync(sent: u32, reply: Result<Json, crate::wire::Error>) -> (r: Result<(), SyncError>)
    ensures
        reply matches Ok(Json::UInt(n)) && n == sent ==> r is Ok,
        reply is Ok && !(reply matches Ok(Json::UInt(n)) && n == sent) ==> r matches Err(SyncError::InvalidData),
        reply is Err ==> r matches Err(SyncError::Protocol(_)),
{
    match reply {
        Ok(Json::UInt(n)) => {
            if n == sent as u64 {
                Ok(())
            } else {
                Err(SyncError::InvalidData)
            }
        },
        Ok(_) => Err(SyncError::InvalidData),
        Err(e) => Err(SyncError::Protocol(e)),
    }
}

} // verus!
