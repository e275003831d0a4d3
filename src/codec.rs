//! Newline-delimited JSON framing on a byte buffer.
use vstd::prelude::*;
use crate::json::{Json, json_parse, json_text, json_to_vec, parse_json};

verus! {

pub const LF: u8 = 10;

/// The index of the first line feed at or after `from`, if there is one.
pub open spec fn first_lf(b: Seq<u8>, from: int) -> Option<int>
    decreases b.len() - from,
{
    if from < 0 || from >= b.len() {
        None
    } else if b[from] == LF {
        Some(from)
    } else {
        first_lf(b, from + 1)
    }
}

/// A byte string without line feeds.
pub open spec fn no_lf(b: Seq<u8>) -> bool {
    forall|i: int| 0 <= i < b.len() ==> b[i] != LF
}

proof fn lemma_first_lf(b: Seq<u8>, from: int)
    requires
        0 <= from,
    ensures
        first_lf(b, from) matches Some(k) ==> from <= k < b.len() && b[k] == LF
            && forall|m: int| from <= m < k ==> b[m] != LF,
        first_lf(b, from) is None ==> forall|m: int| from <= m < b.len() ==> b[m] != LF,
    decreases b.len() - from,
{
    if from < b.len() && b[from] != LF {
        lemma_first_lf(b, from + 1);
    }
}

proof fn lemma_first_lf_at(b: Seq<u8>, from: int, k: int)
    requires
        0 <= from <= k,
        k <= b.len(),
        forall|m: int| from <= m < k ==> b[m] != LF,
    ensures
        first_lf(b, from) == first_lf(b, k),
    decreases k - from,
{
    if from < k {
        lemma_first_lf_at(b, from + 1, k);
    }
}

/// Relies on memchr::memchr: the index of the first occurrence of the byte.
#[verifier::external_body]
fn find_byte(needle: u8, haystack: &[u8]) -> (r: Option<usize>)
    ensures
        r matches Some(k) ==> k < haystack@.len() && haystack@[k as int] == needle
            && forall|m: int| 0 <= m < k ==> haystack@[m] != needle,
        r is None ==> forall|m: int| 0 <= m < haystack@.len() ==> haystack@[m] != needle,
{
    memchr::memchr(needle, haystack)
}

/// Why a frame could not be read.
#[derive(Clone, Copy, Debug, PartialEq, Eq, Structural)]
pub enum FramingError {
    /// A frame holds no JSON text.
    InvalidJson,
}

/// Splits newline-delimited JSON off a byte buffer. It remembers how far it
/// has already looked for a line feed so that bytes are not scanned twice.
pub struct JsonLinesCodec {
    next_index: usize,
}

impl JsonLinesCodec {
    pub closed spec fn spec_next_index(&self) -> nat {
        self.next_index as nat
    }

    /// The codec is consistent with `buf` when no line feed lies before the
    /// position it would look from.
    pub open spec fn wf(&self, buf: Seq<u8>) -> bool {
        &&& self.spec_next_index() <= buf.len()
        &&& forall|m: int| 0 <= m < self.spec_next_index() ==> buf[m] != LF
    }

    pub fn new() -> (r: JsonLinesCodec)
        ensures
            r.spec_next_index() == 0,
    {
        JsonLinesCodec { next_index: 0 }
    }

    /// Splits off the first line of `buf`, line feed included, and resets
    /// the scan position; without a line feed it keeps `buf` and remembers
    /// that all of it has been scanned.
    pub fn decode_frame(&mut self, buf: &mut Vec<u8>) -> (r: Option<Vec<u8>>)
        requires
            old(self).wf(old(buf)@),
        ensures
            final(self).wf(final(buf)@),
            r matches Some(line) ==> ({
                let k = first_lf(old(buf)@, 0).unwrap();
                &&& first_lf(old(buf)@, 0) is Some
                &&& line@ == old(buf)@.take(k + 1)
                &&& final(buf)@ == old(buf)@.skip(k + 1)
                &&& final(self).spec_next_index() == 0
            }),
            r is None ==> first_lf(old(buf)@, 0) is None && final(buf)@ == old(buf)@
                && final(self).spec_next_index() == final(buf)@.len(),
    {
        let ghost b = buf@;
        proof {
            lemma_first_lf_at(b, 0, self.next_index as int);
            lemma_first_lf(b, self.next_index as int);
        }
        let from = self.next_index;
        let tail = vstd::slice::slice_subrange(buf.as_slice(), from, buf.len());
        match find_byte(LF, tail) {
            Some(offset) => {
                let index = offset + from;
                proof {
                    assert forall|m: int| from <= m < index implies b[m] != LF by {
                        assert(b[m] == tail@[m - from]);
                    }
                    lemma_first_lf_at(b, from as int, index as int);
                    assert(tail@[offset as int] == b[index as int]);
                }
                self.next_index = 0;
                let mut line = buf.split_off(index + 1);
                std::mem::swap(&mut line, buf);
                Some(line)
            },
            None => {
                proof {
                    assert forall|m: int| from <= m < b.len() implies b[m] != LF by {
                        assert(b[m] == tail@[m - from]);
                    }
                    lemma_first_lf_at(b, from as int, b.len() as int);
                }
                self.next_index = buf.len();
                None
            },
        }
    }

    /// The next framed JSON value of `buf`, if a whole line is there.
    pub fn decode(&mut self, buf: &mut Vec<u8>) -> (r: Result<Option<Json>, FramingError>)
        requires
            old(self).wf(old(buf)@),
        ensures
            final(self).wf(final(buf)@),
            first_lf(old(buf)@, 0) is None ==> r == Ok::<Option<Json>, FramingError>(None) && final(buf)@ == old(buf)@,
            first_lf(old(buf)@, 0) matches Some(k) ==> ({
                let parsed = json_parse(old(buf)@.take(k + 1));
                &&& final(buf)@ == old(buf)@.skip(k + 1)
                &&& parsed matches Some(v) ==> r == Ok::<Option<Json>, FramingError>(Some(v))
                &&& parsed is None ==> r == Err::<Option<Json>, FramingError>(FramingError::InvalidJson)
            }),
    {
        match self.decode_frame(buf) {
            Some(line) => match parse_json(line.as_slice()) {
                Some(v) => Ok(Some(v)),
                None => Err(FramingError::InvalidJson),
            },
            None => Ok(None),
        }
    }

    /// At the end of the stream: the bytes left over, read as one last value.
    pub fn decode_eof(&mut self, buf: &mut Vec<u8>) -> (r: Result<Option<Json>, FramingError>)
        ensures
            final(buf)@.len() == 0,
            final(self).spec_next_index() == 0,
            old(buf)@.len() == 0 ==> r == Ok::<Option<Json>, FramingError>(None),
            old(buf)@.len() > 0 && json_parse(old(buf)@) is Some
                ==> r == Ok::<Option<Json>, FramingError>(json_parse(old(buf)@)),
            old(buf)@.len() > 0 && json_parse(old(buf)@) is None
                ==> r == Err::<Option<Json>, FramingError>(FramingError::InvalidJson),
    {
        self.next_index = 0;
        if buf.len() == 0 {
            return Ok(None);
        }
        let mut rest: Vec<u8> = Vec::new();
        std::mem::swap(&mut rest, buf);
        match parse_json(rest.as_slice()) {
            Some(v) => Ok(Some(v)),
            None => Err(FramingError::InvalidJson),
        }
    }
}

/// The frame of a value: its JSON text and a line feed.
pub open spec fn frame(v: Json) -> Seq<u8> {
    json_text(v).push(LF)
}

/// Appends the frame of `item` to `buf`.
pub fn encode(item: &Json, buf: &mut Vec<u8>)
    ensures
        final(buf)@ == old(buf)@ + frame(*item),
        no_lf(json_text(*item)),
{
    let mut text = json_to_vec(item);
    buf.append(&mut text);
    buf.push(LF);
}

/// Frames laid end to end.
pub open spec fn frames(texts: Seq<Seq<u8>>) -> Seq<u8>
    decreases texts.len(),
{
    if texts.len() == 0 {
        Seq::empty()
    } else {
        texts[0].push(LF) + frames(texts.drop_first())
    }
}

/// What repeated splitting at the first line feed yields: every complete
/// line, line feed included.
pub open spec fn split_frames(b: Seq<u8>) -> Seq<Seq<u8>>
    decreases b.len(),
{
    match first_lf(b, 0) {
        Some(k) => if 0 <= k < b.len() {
            seq![b.take(k + 1)] + split_frames(b.skip(k + 1))
        } else {
            Seq::empty()
        },
        None => Seq::empty(),
    }
}

/// Texts without line feeds, framed and laid end to end, split back into
/// exactly those texts, each with its line feed, in order. The JSON texts
/// that `encode` writes hold no line feed, so a stream of encoded values
/// decodes frame by frame into the same texts.
pub proof fn framing_round_trip(texts: Seq<Seq<u8>>)
    requires
        forall|i: int| 0 <= i < texts.len() ==> no_lf(#[trigger] texts[i]),
    ensures
        split_frames(frames(texts)) == texts.map_values(|t: Seq<u8>| t.push(LF)),
    decreases texts.len(),
{
    if texts.len() == 0 {
        assert(frames(texts).len() == 0);
        lemma_first_lf(frames(texts), 0);
        assert(split_frames(frames(texts)) =~= Seq::<Seq<u8>>::empty());
        assert(texts.map_values(|t: Seq<u8>| t.push(LF)) =~= Seq::<Seq<u8>>::empty());
    } else {
        let t = texts[0];
        let rest = texts.drop_first();
        assert forall|i: int| 0 <= i < rest.len() implies no_lf(#[trigger] rest[i]) by {
            assert(rest[i] == texts[i + 1]);
        }
        framing_round_trip(rest);
        let b = frames(texts);
        assert(no_lf(t));
        assert(b == t.push(LF) + frames(rest));
        assert forall|m: int| 0 <= m < t.len() implies b[m] != LF by {
            assert(b[m] == t[m]);
        }
        assert(b[t.len() as int] == LF);
        lemma_first_lf_at(b, 0, t.len() as int);
        assert(first_lf(b, t.len() as int) == Some(t.len() as int));
        assert(b.take(t.len() as int + 1) =~= t.push(LF));
        assert(b.skip(t.len() as int + 1) =~= frames(rest));
        assert(texts.map_values(|t: Seq<u8>| t.push(LF)) =~= seq![t.push(LF)] + rest.map_values(|t: Seq<u8>| t.push(LF)));
    }
}

/// Decoding a buffer of frames one call at a time: with frames left, the
/// first line feed ends the first frame, so `decode` reads exactly that
/// frame and leaves the buffer holding the rest of the frames; with none
/// left, `decode` finds no line and answers `Ok(None)`.
pub proof fn decode_calls_take_frames_in_order(texts: Seq<Seq<u8>>)
    requires
        forall|i: int| 0 <= i < texts.len() ==> no_lf(#[trigger] texts[i]),
    ensures
        texts.len() == 0 ==> first_lf(frames(texts), 0) is None,
        texts.len() > 0 ==> {
            let b = frames(texts);
            let k = texts[0].len() as int;
            &&& first_lf(b, 0) == Some(k)
            &&& b.take(k + 1) == texts[0].push(LF)
            &&& b.skip(k + 1) == frames(texts.drop_first())
        },
{
    if texts.len() == 0 {
        assert(frames(texts).len() == 0);
    } else {
        let t = texts[0];
        let rest = texts.drop_first();
        let b = frames(texts);
        assert(no_lf(t));
        assert(b == t.push(LF) + frames(rest));
        assert forall|m: int| 0 <= m < t.len() implies b[m] != LF by {
            assert(b[m] == t[m]);
        }
        assert(b[t.len() as int] == LF);
        lemma_first_lf_at(b, 0, t.len() as int);
        assert(b.take(t.len() as int + 1) =~= t.push(LF));
        assert(b.skip(t.len() as int + 1) =~= frames(rest));
    }
}

/// Every value encoded into a buffer comes back out of `decode` as the
/// result of reading exactly its own frame: framing neither splits nor joins
/// encoded values. (`encode` shows, for each value it writes, that its text
/// holds no line feed.)
pub proof fn encoded_values_frame_apart(vs: Seq<Json>)
    requires
        forall|i: int| 0 <= i < vs.len() ==> no_lf(json_text(#[trigger] vs[i])),
    ensures
        split_frames(frames(vs.map_values(|v: Json| json_text(v))))
            == vs.map_values(|v: Json| frame(v)),
{
    let texts = vs.map_values(|v: Json| json_text(v));
    assert forall|i: int| 0 <= i < texts.len() implies no_lf(#[trigger] texts[i]) by {
        assert(texts[i] == json_text(vs[i]));
    }
    framing_round_trip(texts);
    assert(texts.map_values(|t: Seq<u8>| t.push(LF)) =~= vs.map_values(|v: Json| frame(v)));
}

} // verus!
