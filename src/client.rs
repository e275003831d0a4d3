//! The state of the blocking clients. The caller reads and writes lines;
//! these types hold what the protocol needs between them.
use vstd::prelude::*;
use crate::json::Json;
use crate::protocol::{QmpEvent, QmpMessage, SyncError, check_sync, sync_arguments};
use crate::wire::{Error, Response, envelope_json};

verus! {

/// A stream and the buffer that lines are read into.
pub struct Qapi<S> {
    pub stream: S,
    pub buffer: String,
}

impl<S> Qapi<S> {
    pub fn new(s: S) -> (r: Qapi<S>)
        ensures
            r.stream == s,
            r.buffer@.len() == 0,
    {
        Qapi { stream: s, buffer: String::new() }
    }
}

/// A reading half and a writing half used as one stream.
pub struct Stream<R, W> {
    r: R,
    w: W,
}

impl<R, W> Stream<R, W> {
    pub closed spec fn spec_read(&self) -> R {
        self.r
    }

    pub closed spec fn spec_write(&self) -> W {
        self.w
    }

    pub fn new(r: R, w: W) -> (s: Stream<R, W>)
        ensures
            s.spec_read() == r,
            s.spec_write() == w,
    {
        Stream { r, w }
    }

    pub fn into_inner(self) -> (p: (R, W))
        ensures
            p == (self.spec_read(), self.spec_write()),
    {
        (self.r, self.w)
    }

    pub fn get_ref_read(&self) -> (r: &R)
        ensures
            *r == self.spec_read(),
    {
        &self.r
    }

    pub fn get_mut_read(&mut self) -> (r: &mut R)
        ensures
            *r == old(self).spec_read(),
            final(self).spec_read() == *final(r),
            final(self).spec_write() == old(self).spec_write(),
    {
        &mut self.r
    }

    pub fn get_ref_write(&self) -> (r: &W)
        ensures
            *r == self.spec_write(),
    {
        &self.w
    }

    pub fn get_mut_write(&mut self) -> (r: &mut W)
        ensures
            *r == old(self).spec_write(),
            final(self).spec_write() == *final(r),
            final(self).spec_read() == old(self).spec_read(),
    {
        &mut self.w
    }
}

/// What to make of the next line while waiting for a response.
#[derive(Debug)]
pub enum ReadOutcome {
    /// The response to the command: its value or the server's error.
    Done(Result<Json, Error>),
    /// An event, kept for later; read on.
    Queued,
}

/// A blocking QMP client: the stream, and the events read while waiting
/// for responses.
pub struct Qmp<S> {
    inner: Qapi<S>,
    event_queue: Vec<QmpEvent>,
}

impl<S> Qmp<S> {
    pub closed spec fn spec_stream(&self) -> S {
        self.inner.stream
    }

    pub closed spec fn spec_events(&self) -> Seq<QmpEvent> {
        self.event_queue@
    }

    pub fn new(stream: S) -> (r: Qmp<S>)
        ensures
            r.spec_stream() == stream,
            r.spec_events().len() == 0,
    {
        Qmp { inner: Qapi::new(stream), event_queue: Vec::new() }
    }

    pub fn into_inner(self) -> (r: S)
        ensures
            r == self.spec_stream(),
    {
        self.inner.stream
    }

    pub fn inner(&self) -> (r: &S)
        ensures
            *r == self.spec_stream(),
    {
        &self.inner.stream
    }

    pub fn inner_mut(&mut self) -> (r: &mut S)
        ensures
            *r == old(self).spec_stream(),
            final(self).spec_stream() == *final(r),
            final(self).spec_events() == old(self).spec_events(),
    {
        &mut self.inner.stream
    }

    /// Takes the events read so far, oldest first.
    pub fn events(&mut self) -> (r: Vec<QmpEvent>)
        ensures
            r@ == old(self).spec_events(),
            final(self).spec_events().len() == 0,
            final(self).spec_stream() == old(self).spec_stream(),
    {
        let mut v: Vec<QmpEvent> = Vec::new();
        std::mem::swap(&mut v, &mut self.event_queue);
        v
    }

    /// Takes one message read while waiting for a response: an event is
    /// queued, a response ends the wait.
    pub fn on_message(&mut self, msg: QmpMessage) -> (r: ReadOutcome)
        ensures
            final(self).spec_stream() == old(self).spec_stream(),
            msg matches QmpMessage::Event(e) ==> r is Queued && final(self).spec_events() == old(self).spec_events().push(e),
            msg matches QmpMessage::Response(Response::Return { ret, .. })
                ==> r == ReadOutcome::Done(Ok(ret)) && final(self).spec_events() == old(self).spec_events(),
            msg matches QmpMessage::Response(Response::Failure(e))
                ==> r == ReadOutcome::Done(Err(e)) && final(self).spec_events() == old(self).spec_events(),
    {
        match msg {
            QmpMessage::Event(e) => {
                self.event_queue.push(e);
                ReadOutcome::Queued
            },
            QmpMessage::Response(res) => ReadOutcome::Done(res.result()),
        }
    }

    /// The envelope of the empty capabilities negotiation.
    pub fn handshake_command(&self) -> (r: Json)
        ensures
            r.spec_field("execute"@) matches Some(Json::Str(n)) && n@ == "qmp_capabilities"@,
    {
        envelope_json(String::from_str("qmp_capabilities"), Json::Object(Vec::new()), None, false)
    }
}

/// A blocking guest agent client.
pub struct Qga<S> {
    inner: Qapi<S>,
}

impl<S> Qga<S> {
    pub closed spec fn spec_stream(&self) -> S {
        self.inner.stream
    }

    pub fn new(stream: S) -> (r: Qga<S>)
        ensures
            r.spec_stream() == stream,
    {
        Qga { inner: Qapi::new(stream) }
    }

    pub fn into_inner(self) -> (r: S)
        ensures
            r == self.spec_stream(),
    {
        self.inner.stream
    }

    pub fn inner(&self) -> (r: &S)
        ensures
            *r == self.spec_stream(),
    {
        &self.inner.stream
    }

    pub fn inner_mut(&mut self) -> (r: &mut S)
        ensures
            *r == old(self).spec_stream(),
            final(self).spec_stream() == *final(r),
    {
        &mut self.inner.stream
    }

    /// The `guest-sync` envelope that opens the handshake with `value`.
    pub fn handshake_command(&self, value: u32) -> (r: Json)
        ensures
            r.spec_field("execute"@) matches Some(Json::Str(n)) && n@ == "guest-sync"@,
            r.spec_field("arguments"@) matches Some(a) && a.spec_field("id"@) == Some(Json::UInt(value as u64)),
            r.spec_field("id"@) is None,
    {
        envelope_json(String::from_str("guest-sync"), sync_arguments(value), None, false)
    }

    /// Completes the handshake from the agent's answer to `guest-sync` with
    /// `value`: it holds exactly when the answer is that value.
    pub fn handshake(&self, value: u32, reply: Result<Json, Error>) -> (r: Result<(), SyncError>)
        ensures
            reply matches Ok(Json::UInt(n)) && n == value ==> r is Ok,
            reply is Ok && !(reply matches Ok(Json::UInt(n)) && n == value) ==> r matches Err(SyncError::InvalidData),
            reply is Err ==> r matches Err(SyncError::Protocol(_)),
    {
        check_sync(value, reply)
    }
}

} // verus!
