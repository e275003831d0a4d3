//! The decisions of the duplex protocol engine: id allocation, the registry
//! of pending commands, demultiplexing of responses, the write lock that
//! serialises commands when out-of-band execution is off, and termination.
//!
//! The engine holds no I/O. Its caller performs each action it returns and
//! hands back each event: a response's id, an event, the end of the stream.
use vstd::prelude::*;
use crate::json::Json;

verus! {

/// A registered command: the id it was sent with, the caller's ticket, and
/// whether the caller still waits for it.
#[derive(Clone, Copy, Debug, PartialEq, Eq, Structural)]
pub struct Slot {
    pub id: u32,
    pub ticket: u64,
    pub live: bool,
}

/// What the engine decides when a caller wants to send a command.
#[derive(Clone, Copy, Debug, PartialEq, Eq, Structural)]
pub enum SendDecision {
    /// Send the command with this id (present only when out-of-band is on);
    /// the caller's response will be handed to `ticket`.
    Send { id: Option<u32>, ticket: u64 },
    /// Out-of-band is off and another command waits for its response: wait
    /// for the write lock.
    Busy,
    /// The engine has stopped: the command fails with an unexpected end of
    /// stream.
    Stopped,
    /// The id is still registered for a command that has not been answered.
    DuplicateId,
}

/// A violation of the protocol by the server; fatal for the stream.
#[derive(Clone, Copy, Debug, PartialEq, Eq, Structural)]
pub enum ProtocolError {
    /// Out-of-band is on and the response has no unsigned integer id that
    /// fits in 32 bits.
    MissingId,
    /// Out-of-band is off and the response has an id.
    UnexpectedId,
    /// No pending command has the response's id.
    UnknownId,
}

/// What to do with an event.
#[derive(Clone, Copy, Debug, PartialEq, Eq, Structural)]
pub enum EventAction {
    /// Hand it to the event consumer.
    Deliver,
    /// No consumer is attached: drop it.
    Discard,
}

/// The state of the engine.
pub struct EngineView {
    pub oob: bool,
    pub counter: u32,
    pub slots: Seq<Slot>,
    pub locked: bool,
    pub stopped: bool,
    pub abandoned: bool,
    pub next_ticket: u64,
}

/// Where the engine is in its life.
#[derive(Clone, Copy, Debug, PartialEq, Eq, Structural)]
pub enum Lifecycle {
    /// Commands can be executed and events arrive.
    Running,
    /// The service handle is gone; the driver still delivers events.
    Draining,
    /// The driver ended; nothing more happens.
    Stopped,
}

pub open spec fn lifecycle(s: EngineView) -> Lifecycle {
    if s.stopped { Lifecycle::Stopped } else if s.abandoned { Lifecycle::Draining } else { Lifecycle::Running }
}

/// The service handle is dropped: the engine drains.
pub open spec fn abandon_step(s: EngineView) -> EngineView {
    EngineView { abandoned: true, ..s }
}

pub open spec fn wrap_inc(n: u64) -> u64 {
    if n == u64::MAX { 0 } else { (n + 1) as u64 }
}

/// The next correlation id: 32 bits, wrapping.
pub open spec fn wrap_inc32(n: u32) -> u32 {
    if n == u32::MAX { 0 } else { (n + 1) as u32 }
}

/// The index of the slot registered under `id`, or -1.
pub open spec fn slot_index(slots: Seq<Slot>, id: u32) -> int
    decreases slots.len(),
{
    if slots.len() == 0 {
        -1
    } else if slots.last().id == id {
        slots.len() - 1
    } else {
        slot_index(slots.drop_last(), id)
    }
}

pub open spec fn registered(slots: Seq<Slot>, id: u32) -> bool {
    exists|i: int| 0 <= i < slots.len() && slots[i].id == id
}

/// The tickets of the callers still waiting, in order of registration.
pub open spec fn live_tickets(slots: Seq<Slot>) -> Seq<u64>
    decreases slots.len(),
{
    if slots.len() == 0 {
        Seq::empty()
    } else if slots.last().live {
        live_tickets(slots.drop_last()).push(slots.last().ticket)
    } else {
        live_tickets(slots.drop_last())
    }
}

/// The invariant of the engine: ids are registered at most once, and
/// without out-of-band execution at most one command is registered, exactly
/// while the write lock is held.
pub open spec fn engine_wf(s: EngineView) -> bool {
    &&& forall|i: int, j: int| 0 <= i < j < s.slots.len() ==> s.slots[i].id != s.slots[j].id
    &&& !s.oob ==> (s.slots.len() <= 1 && (s.slots.len() == 1 <==> s.locked))
    &&& !s.oob ==> forall|i: int| 0 <= i < s.slots.len() ==> s.slots[i].id == 0
    &&& s.oob ==> !s.locked
    &&& s.stopped ==> s.slots.len() == 0 && !s.locked
}

/// A caller asks to send a command.
pub open spec fn send_step(s: EngineView) -> (EngineView, SendDecision) {
    if s.stopped {
        (s, SendDecision::Stopped)
    } else if !s.oob && s.locked {
        (s, SendDecision::Busy)
    } else {
        let id: u32 = if s.oob { s.counter } else { 0 };
        if registered(s.slots, id) {
            (s, SendDecision::DuplicateId)
        } else {
            (EngineView {
                counter: if s.oob { wrap_inc32(s.counter) } else { s.counter },
                slots: s.slots.push(Slot { id, ticket: s.next_ticket, live: true }),
                locked: !s.oob,
                next_ticket: wrap_inc(s.next_ticket),
                ..s
            }, SendDecision::Send { id: if s.oob { Some(id) } else { None }, ticket: s.next_ticket })
        }
    }
}

/// The id that a response is matched by: an unsigned number that fits in 32
/// bits exactly when out-of-band execution is on; `0` when it is off.
pub open spec fn spec_response_id(id: Option<Json>, oob: bool) -> Result<u32, ProtocolError> {
    match (id, oob) {
        (Some(Json::UInt(n)), true) => if n <= u32::MAX as u64 { Ok(n as u32) } else { Err(ProtocolError::MissingId) },
        (None, false) => Ok(0),
        (_, true) => Err(ProtocolError::MissingId),
        (Some(_), false) => Err(ProtocolError::UnexpectedId),
    }
}

/// A response arrives: its slot is removed, and its ticket is handed back
/// where the caller still waits. The write lock is released when
/// out-of-band execution is off.
pub open spec fn response_step(s: EngineView, id: Option<Json>) -> (EngineView, Result<Option<u64>, ProtocolError>) {
    match spec_response_id(id, s.oob) {
        Err(e) => (s, Err(e)),
        Ok(rid) => {
            let k = slot_index(s.slots, rid);
            if k < 0 {
                (s, Err(ProtocolError::UnknownId))
            } else {
                let slot = s.slots[k];
                (EngineView { slots: s.slots.remove(k), locked: false, ..s },
                    Ok(if slot.live { Some(slot.ticket) } else { None }))
            }
        },
    }
}

/// A caller stops waiting: its slot stays registered until the response
/// arrives, and is then dropped.
pub open spec fn cancel_step(s: EngineView, ticket: u64) -> EngineView {
    EngineView {
        slots: s.slots.map_values(|sl: Slot| if sl.ticket == ticket { Slot { live: false, ..sl } } else { sl }),
        ..s
    }
}

/// The stream ends or the driver is dropped: every waiting caller fails,
/// and no command can be sent any more.
pub open spec fn shutdown_step(s: EngineView) -> (EngineView, Seq<u64>) {
    (EngineView { slots: Seq::empty(), locked: false, stopped: true, ..s }, live_tickets(s.slots))
}

proof fn lemma_slot_index(slots: Seq<Slot>, id: u32)
    ensures
        -1 <= slot_index(slots, id) < slots.len(),
        slot_index(slots, id) >= 0 ==> slots[slot_index(slots, id)].id == id,
        slot_index(slots, id) < 0 <==> !registered(slots, id),
    decreases slots.len(),
{
    if slots.len() > 0 {
        lemma_slot_index(slots.drop_last(), id);
        if slots.last().id != id {
            if registered(slots, id) {
                let i = choose|i: int| 0 <= i < slots.len() && slots[i].id == id;
                assert(slots.drop_last()[i] == slots[i]);
            }
            if registered(slots.drop_last(), id) {
                let i = choose|i: int| 0 <= i < slots.drop_last().len() && slots.drop_last()[i].id == id;
                assert(slots.drop_last()[i] == slots[i]);
            }
        }
    }
}

/// Sending preserves the invariant.
pub proof fn send_keeps_wf(s: EngineView)
    requires
        engine_wf(s),
    ensures
        engine_wf(send_step(s).0),
{
    let (t, d) = send_step(s);
    if d is Send {
        let id: u32 = if s.oob { s.counter } else { 0 };
        assert forall|i: int, j: int| 0 <= i < j < t.slots.len() implies t.slots[i].id != t.slots[j].id by {
            if j == t.slots.len() - 1 {
                assert(t.slots[j].id == id);
                assert(t.slots[i] == s.slots[i]);
            } else {
                assert(t.slots[i] == s.slots[i]);
                assert(t.slots[j] == s.slots[j]);
            }
        }
    }
}

/// Each response, cancellation and shutdown preserves the invariant.
pub proof fn steps_keep_wf(s: EngineView, id: Option<Json>, ticket: u64)
    requires
        engine_wf(s),
    ensures
        engine_wf(response_step(s, id).0),
        engine_wf(cancel_step(s, ticket)),
        engine_wf(shutdown_step(s).0),
{
    match spec_response_id(id, s.oob) {
        Ok(rid) => {
            lemma_slot_index(s.slots, rid);
            let k = slot_index(s.slots, rid);
            if k >= 0 {
                let t = response_step(s, id).0;
                assert forall|i: int, j: int| 0 <= i < j < t.slots.len() implies t.slots[i].id != t.slots[j].id by {
                    let a = if i < k { i } else { i + 1 };
                    let b = if j < k { j } else { j + 1 };
                    assert(t.slots[i] == s.slots[a]);
                    assert(t.slots[j] == s.slots[b]);
                }
                if !s.oob {
                    assert(t.slots.len() == 0);
                }
            }
        },
        Err(_) => {},
    }
    let c = cancel_step(s, ticket);
    assert forall|i: int, j: int| 0 <= i < j < c.slots.len() implies c.slots[i].id != c.slots[j].id by {
        assert(c.slots[i].id == s.slots[i].id);
        assert(c.slots[j].id == s.slots[j].id);
    }
}

/// Out-of-band multiplexing: two commands sent one after the other get
/// different ids, and each response reaches the command whose id it carries,
/// whatever the order in which the server answers.
pub proof fn oob_responses_reach_their_commands(s0: EngineView)
    requires
        engine_wf(s0),
        s0.oob,
        !s0.stopped,
        s0.slots.len() == 0,
        s0.next_ticket < u64::MAX,
        s0.counter < u32::MAX,
    ensures
        ({
            let (s1, d1) = send_step(s0);
            let (s2, d2) = send_step(s1);
            let (s3, r2) = response_step(s2, Some(Json::UInt(d2->Send_id.unwrap() as u64)));
            let (s4, r1) = response_step(s3, Some(Json::UInt(d1->Send_id.unwrap() as u64)));
            &&& d1 is Send && d2 is Send
            &&& d1->Send_id != d2->Send_id
            &&& d1->Send_ticket != d2->Send_ticket
            &&& r2 == Ok::<Option<u64>, ProtocolError>(Some(d2->Send_ticket))
            &&& r1 == Ok::<Option<u64>, ProtocolError>(Some(d1->Send_ticket))
            &&& s4.slots.len() == 0
        }),
{
    let (s1, d1) = send_step(s0);
    assert(!registered(s0.slots, s0.counter));
    assert(s1.slots.len() == 1);
    let (s2, d2) = send_step(s1);
    assert(!registered(s1.slots, s1.counter)) by {
        assert(s1.slots[0].id == s0.counter);
    }
    let id1 = s0.counter;
    let id2 = s1.counter;
    reveal_with_fuel(slot_index, 3);
    let (s3, r2) = response_step(s2, Some(Json::UInt(id2 as u64)));
    assert(s3.slots =~= seq![Slot { id: id1, ticket: s0.next_ticket, live: true }]);
    let (s4, r1) = response_step(s3, Some(Json::UInt(id1 as u64)));
    assert(s4.slots.len() == 0);
}

/// Without out-of-band execution, once a command is sent no other command
/// can be sent until a response arrives, and that response reaches the
/// command that was sent.
pub proof fn in_band_commands_wait_for_responses(s0: EngineView)
    requires
        engine_wf(s0),
        !s0.oob,
        !s0.stopped,
        !s0.locked,
    ensures
        ({
            let (s1, d1) = send_step(s0);
            let (s2, d2) = send_step(s1);
            let (s3, r) = response_step(s1, None);
            let (s4, d4) = send_step(s3);
            &&& d1 matches SendDecision::Send { id: None, ticket } && ticket == s0.next_ticket
            &&& d2 == SendDecision::Busy && s2 == s1
            &&& r == Ok::<Option<u64>, ProtocolError>(Some(s0.next_ticket))
            &&& d4 is Send
        }),
{
    assert(s0.slots.len() == 0);
    assert(!registered(s0.slots, 0));
    let (s1, d1) = send_step(s0);
    reveal_with_fuel(slot_index, 2);
    let (s3, r) = response_step(s1, None);
    assert(s3.slots.len() == 0);
    assert(!registered(s3.slots, 0));
}

/// A response reaches the waiting caller registered under its id and
/// leaves every other pending command registered and the engine running.
/// The engine takes no step for an event (`on_event` reads it only), so this
/// holds however many events arrived between the send and the response.
pub proof fn response_reaches_its_slot(s: EngineView, k: int)
    requires
        engine_wf(s),
        0 <= k < s.slots.len(),
        s.slots[k].live,
    ensures
        ({
            let rid = if s.oob { Some(Json::UInt(s.slots[k].id as u64)) } else { None };
            let (t, r) = response_step(s, rid);
            &&& r == Ok::<Option<u64>, ProtocolError>(Some(s.slots[k].ticket))
            &&& t.slots == s.slots.remove(k)
            &&& t.stopped == s.stopped
            &&& forall|j: int| 0 <= j < s.slots.len() && j != k ==> t.slots.contains(#[trigger] s.slots[j])
        }),
{
    let id = s.slots[k].id;
    lemma_slot_index(s.slots, id);
    let i = slot_index(s.slots, id);
    assert(i == k) by {
        if i != k {
            assert(s.slots[i].id == s.slots[k].id);
        }
    }
    let t = s.slots.remove(k);
    assert forall|j: int| 0 <= j < s.slots.len() && j != k implies t.contains(#[trigger] s.slots[j]) by {
        if j < k {
            assert(t[j] == s.slots[j]);
        } else {
            assert(t[j - 1] == s.slots[j]);
        }
    }
}

pub open spec fn event_action(has_consumer: bool) -> EventAction {
    if has_consumer { EventAction::Deliver } else { EventAction::Discard }
}

/// A cancelled command's response is dropped without disturbing the
/// registry, and the next command is sent.
pub proof fn cancelled_command_is_dropped(s0: EngineView)
    requires
        engine_wf(s0),
        !s0.stopped,
        s0.slots.len() == 0,
        s0.oob ==> s0.counter < u32::MAX,
        s0.next_ticket < u64::MAX,
    ensures
        ({
            let (s1, d1) = send_step(s0);
            let s2 = cancel_step(s1, d1->Send_ticket);
            let rid = if s0.oob { Some(Json::UInt(s0.counter as u64)) } else { None };
            let (s3, r) = response_step(s2, rid);
            let (s4, d4) = send_step(s3);
            &&& d1 is Send
            &&& r == Ok::<Option<u64>, ProtocolError>(None)
            &&& s3.slots.len() == 0
            &&& d4 is Send
            &&& d4->Send_ticket != d1->Send_ticket
        }),
{
    assert(!registered(s0.slots, if s0.oob { s0.counter } else { 0 }));
    let (s1, d1) = send_step(s0);
    let s2 = cancel_step(s1, d1->Send_ticket);
    assert(s2.slots.len() == 1);
    assert(s2.slots[0].live == false);
    reveal_with_fuel(slot_index, 2);
    let rid = if s0.oob { Some(Json::UInt(s0.counter as u64)) } else { None };
    let (s3, r) = response_step(s2, rid);
    assert(s3.slots.len() == 0);
    let id4: u32 = if s3.oob { s3.counter } else { 0 };
    assert(!registered(s3.slots, id4));
}

/// Shutdown fails every caller still waiting, and nothing can be sent
/// after it. Dropping the service makes a running engine drain, and the end
/// of the driver stops it from any state.
pub proof fn shutdown_fails_every_waiting_command(s: EngineView)
    ensures
        shutdown_step(s).1 == live_tickets(s.slots),
        shutdown_step(s).0.slots.len() == 0,
        send_step(shutdown_step(s).0).1 == SendDecision::Stopped,
        lifecycle(shutdown_step(s).0) == Lifecycle::Stopped,
        lifecycle(s) == Lifecycle::Running ==> lifecycle(abandon_step(s)) == Lifecycle::Draining,
        lifecycle(s) == Lifecycle::Draining ==> lifecycle(shutdown_step(s).0) == Lifecycle::Stopped,
{
}

/// The engine of one connection.
pub struct Engine {
    oob: bool,
    counter: u32,
    slots: Vec<Slot>,
    locked: bool,
    stopped: bool,
    abandoned: bool,
    next_ticket: u64,
}

impl Engine {
    pub closed spec fn view(&self) -> EngineView {
        EngineView {
            oob: self.oob,
            counter: self.counter,
            slots: self.slots@,
            locked: self.locked,
            stopped: self.stopped,
            abandoned: self.abandoned,
            next_ticket: self.next_ticket,
        }
    }

    /// A running engine; `supports_oob` is fixed for its whole life.
    pub fn new(supports_oob: bool) -> (r: Engine)
        ensures
            r.view().oob == supports_oob,
            r.view().slots.len() == 0,
            !r.view().locked,
            !r.view().stopped,
            !r.view().abandoned,
            r.view().counter == 0,
            r.view().next_ticket == 0,
            engine_wf(r.view()),
    {
        Engine {
            oob: supports_oob,
            counter: 0,
            slots: Vec::new(),
            locked: false,
            stopped: false,
            abandoned: false,
            next_ticket: 0,
        }
    }

    /// Whether out-of-band execution was negotiated.
    pub fn supports_oob(&self) -> (r: bool)
        ensures
            r == self.view().oob,
    {
        self.oob
    }

    /// Whether the engine has stopped.
    pub fn is_stopped(&self) -> (r: bool)
        ensures
            r == self.view().stopped,
    {
        self.stopped
    }

    fn find(&self, id: u32) -> (r: Option<usize>)
        ensures
            r matches Some(k) ==> k == slot_index(self.slots@, id),
            r is None ==> slot_index(self.slots@, id) == -1,
    {
        let mut i = self.slots.len();
        assert(self.slots@.take(i as int) =~= self.slots@);
        while i > 0
            invariant
                i <= self.slots@.len(),
                slot_index(self.slots@, id) == slot_index(self.slots@.take(i as int), id),
            decreases i,
        {
            assert(self.slots@.take(i as int).drop_last() =~= self.slots@.take(i - 1));
            if self.slots[i - 1].id == id {
                return Some(i - 1);
            }
            i = i - 1;
        }
        None
    }

    /// A caller asks to send a command; the decision says whether to send
    /// it and with which id, to wait, or to fail.
    pub fn begin_execute(&mut self) -> (r: SendDecision)
        ensures
            (final(self).view(), r) == send_step(old(self).view()),
    {
        proof {
            lemma_slot_index(self.slots@, if self.oob { self.counter } else { 0 });
        }
        if self.stopped {
            return SendDecision::Stopped;
        }
        if !self.oob && self.locked {
            return SendDecision::Busy;
        }
        let id: u32 = if self.oob { self.counter } else { 0 };
        if self.find(id).is_some() {
            return SendDecision::DuplicateId;
        }
        let ticket = self.next_ticket;
        self.slots.push(Slot { id, ticket, live: true });
        if self.oob {
            self.counter = if self.counter == u32::MAX { 0 } else { self.counter + 1 };
        }
        self.locked = !self.oob;
        self.next_ticket = if ticket == u64::MAX { 0 } else { ticket + 1 };
        SendDecision::Send { id: if self.oob { Some(id) } else { None }, ticket }
    }

    /// A response with this id arrived: the ticket of the caller to hand it
    /// to, `None` when that caller stopped waiting, or the protocol error.
    pub fn on_response(&mut self, id: Option<&Json>) -> (r: Result<Option<u64>, ProtocolError>)
        ensures
            (final(self).view(), r) == response_step(old(self).view(), match id { Some(j) => Some(*j), None => None }),
    {
        let rid = match response_id(id, self.oob) {
            Ok(n) => n,
            Err(e) => {
                return Err(e);
            },
        };
        proof {
            lemma_slot_index(self.slots@, rid);
        }
        match self.find(rid) {
            None => Err(ProtocolError::UnknownId),
            Some(k) => {
                let slot = self.slots.remove(k);
                self.locked = false;
                Ok(if slot.live { Some(slot.ticket) } else { None })
            },
        }
    }

    /// The caller holding `ticket` stopped waiting.
    pub fn cancel(&mut self, ticket: u64)
        ensures
            final(self).view() == cancel_step(old(self).view(), ticket),
    {
        let ghost before = self.slots@;
        let mut i: usize = 0;
        while i < self.slots.len()
            invariant
                i <= self.slots@.len(),
                self.slots@.len() == before.len(),
                before == old(self).slots@,
                self.oob == old(self).oob,
                self.counter == old(self).counter,
                self.locked == old(self).locked,
                self.stopped == old(self).stopped,
                self.abandoned == old(self).abandoned,
                self.next_ticket == old(self).next_ticket,
                forall|k: int| 0 <= k < i ==> self.slots@[k] == (if before[k].ticket == ticket {
                    Slot { live: false, ..before[k] } } else { before[k] }),
                forall|k: int| i <= k < before.len() ==> self.slots@[k] == before[k],
            decreases self.slots@.len() - i,
        {
            let s = self.slots[i];
            if s.ticket == ticket {
                self.slots.set(i, Slot { id: s.id, ticket: s.ticket, live: false });
            }
            i = i + 1;
        }
        assert(self.slots@ =~= before.map_values(|sl: Slot| if sl.ticket == ticket { Slot { live: false, ..sl } } else { sl }));
    }

    /// The stream ended, or the driver went away: the tickets of every
    /// caller still waiting, each of which fails with an unexpected end of
    /// stream.
    pub fn shutdown(&mut self) -> (r: Vec<u64>)
        ensures
            (final(self).view(), r@) == shutdown_step(old(self).view()),
    {
        let mut out: Vec<u64> = Vec::new();
        let mut i: usize = 0;
        while i < self.slots.len()
            invariant
                i <= self.slots@.len(),
                out@ == live_tickets(self.slots@.take(i as int)),
            decreases self.slots@.len() - i,
        {
            assert(self.slots@.take(i + 1).drop_last() =~= self.slots@.take(i as int));
            if self.slots[i].live {
                out.push(self.slots[i].ticket);
            }
            i = i + 1;
        }
        assert(self.slots@.take(i as int) =~= self.slots@);
        self.slots = Vec::new();
        self.locked = false;
        self.stopped = true;
        out
    }

    /// The service handle was dropped: the driver goes on delivering events
    /// until it ends.
    pub fn abandon(&mut self)
        ensures
            final(self).view() == abandon_step(old(self).view()),
    {
        self.abandoned = true;
    }

    /// Where the engine is in its life.
    pub fn lifecycle(&self) -> (r: Lifecycle)
        ensures
            r == lifecycle(self.view()),
    {
        if self.stopped {
            Lifecycle::Stopped
        } else if self.abandoned {
            Lifecycle::Draining
        } else {
            Lifecycle::Running
        }
    }

    /// What to do with an event.
    pub fn on_event(&self, has_consumer: bool) -> (r: EventAction)
        ensures
            r == event_action(has_consumer),
    {
        if has_consumer { EventAction::Deliver } else { EventAction::Discard }
    }
}

/// The id by which a response is matched: with out-of-band execution an
/// unsigned integer id that fits in 32 bits is required, without it no id may be present.
pub fn response_id(id: Option<&Json>, supports_oob: bool) -> (r: Result<u32, ProtocolError>)
    ensures
        r == spec_response_id(match id { Some(j) => Some(*j), None => None }, supports_oob),
{
    match (id, supports_oob) {
        (Some(Json::UInt(n)), true) => if *n <= u32::MAX as u64 { Ok(*n as u32) } else { Err(ProtocolError::MissingId) },
        (None, false) => Ok(0),
        (_, true) => Err(ProtocolError::MissingId),
        (Some(_), false) => Err(ProtocolError::UnexpectedId),
    }
}

} // verus!
