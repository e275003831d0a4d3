//! Guest agent types that carry logic of their own.
use vstd::prelude::*;
use crate::codegen::{spec_decimal, decimal};
use crate::json::{Json, str_eq};
use crate::decode::absent;
use crate::wire::{Command, Enum};

verus! {

/// A command of the guest agent.
pub trait QgaCommand: Command {}

/// A command of QMP.
pub trait QmpCommand: Command {}

/// How the guest shuts down.
#[derive(Clone, Copy, Debug, PartialEq, Eq, Structural)]
pub enum GuestShutdownMode {
    Halt,
    Powerdown,
    Reboot,
}

impl Enum for GuestShutdownMode {
    open spec fn spec_name(&self) -> Seq<char> {
        match self {
            GuestShutdownMode::Halt => "halt"@,
            GuestShutdownMode::Powerdown => "powerdown"@,
            GuestShutdownMode::Reboot => "reboot"@,
        }
    }

    open spec fn spec_from_name(s: Seq<char>) -> Option<GuestShutdownMode> {
        if s == "halt"@ {
            Some(GuestShutdownMode::Halt)
        } else if s == "powerdown"@ {
            Some(GuestShutdownMode::Powerdown)
        } else if s == "reboot"@ {
            Some(GuestShutdownMode::Reboot)
        } else {
            None
        }
    }

    fn discriminant(&self) -> usize {
        match self {
            GuestShutdownMode::Halt => 0,
            GuestShutdownMode::Powerdown => 1,
            GuestShutdownMode::Reboot => 2,
        }
    }

    fn name(&self) -> (r: &'static str) {
        match self {
            GuestShutdownMode::Halt => "halt",
            GuestShutdownMode::Powerdown => "powerdown",
            GuestShutdownMode::Reboot => "reboot",
        }
    }

    fn from_name(s: &str) -> (r: Option<GuestShutdownMode>) {
        if str_eq(s, "halt") {
            Some(GuestShutdownMode::Halt)
        } else if str_eq(s, "powerdown") {
            Some(GuestShutdownMode::Powerdown)
        } else if str_eq(s, "reboot") {
            Some(GuestShutdownMode::Reboot)
        } else {
            None
        }
    }

    proof fn lemma_round_trip(v: GuestShutdownMode) {
        reveal_strlit("halt");
        reveal_strlit("powerdown");
        reveal_strlit("reboot");
        assert("halt"@.len() == 4 && "powerdown"@.len() == 9 && "reboot"@.len() == 6);
    }

    proof fn lemma_from_name(s: Seq<char>) {
    }
}

/// The status of a process that `guest-exec` started.
#[derive(Debug)]
pub struct GuestExecStatus {
    pub exited: bool,
    pub exitcode: Option<i64>,
    pub signal: Option<i64>,
    pub out_data: Option<Vec<u8>>,
    pub err_data: Option<Vec<u8>>,
    pub out_truncated: Option<bool>,
    pub err_truncated: Option<bool>,
}

/// Relies on std::str::from_utf8: it accepts exactly the valid UTF-8 byte
/// strings, and their text is what they encode.
#[verifier::external_body]
fn utf8_text(b: &[u8]) -> (r: Option<String>)
    ensures
        r is Some <==> vstd::utf8::valid_utf8(b@),
        r matches Some(s) ==> s@ == vstd::utf8::decode_utf8(b@),
{
    std::str::from_utf8(b).ok().map(|s| s.to_string())
}

/// What the standard base64 engine decodes a text to; `None` where the
/// text is no valid base64.
pub uninterp spec fn base64_decoded(s: Seq<char>) -> Option<Seq<u8>>;

/// Relies on base64's `Engine::decode` with the STANDARD engine: whether
/// the text decodes, and to which bytes, depends on the text alone.
#[verifier::external_body]
fn decode_base64(s: &str) -> (r: Option<Vec<u8>>)
    ensures
        r matches Some(v) ==> base64_decoded(s@) == Some(v@),
        r is None ==> base64_decoded(s@) is None,
{
    base64::Engine::decode(&base64::prelude::BASE64_STANDARD, s).ok()
}

/// An optional integer entry: missing or `null` is `Some(None)`, an integer
/// that fits `i64` is `Some(Some(n))`, anything else `None`.
pub open spec fn opt_int(v: Option<Json>) -> Option<Option<i64>> {
    if absent(v) {
        Some(None)
    } else {
        match v.unwrap() {
            Json::UInt(u) => if u <= i64::MAX as u64 { Some(Some(u as i64)) } else { None },
            Json::Int(i) => Some(Some(i)),
            _ => None,
        }
    }
}

/// An optional boolean entry, in the same way.
pub open spec fn opt_flag(v: Option<Json>) -> Option<Option<bool>> {
    if absent(v) {
        Some(None)
    } else {
        match v.unwrap() {
            Json::Bool(b) => Some(Some(b)),
            _ => None,
        }
    }
}

/// An optional base64 entry: its decoded bytes.
pub open spec fn opt_bytes(v: Option<Json>) -> Option<Option<Seq<u8>>> {
    if absent(v) {
        Some(None)
    } else {
        match v.unwrap() {
            Json::Str(s) => match base64_decoded(s@) {
                Some(b) => Some(Some(b)),
                None => None,
            },
            _ => None,
        }
    }
}

pub open spec fn bytes_view(v: Option<Vec<u8>>) -> Option<Seq<u8>> {
    match v {
        Some(b) => Some(b@),
        None => None,
    }
}

fn int_entry(v: Option<&Json>) -> (r: Option<Option<i64>>)
    ensures
        r == opt_int(crate::decode::opt_val(v)),
{
    match v {
        None => Some(None),
        Some(Json::Null) => Some(None),
        Some(Json::UInt(u)) => if *u <= i64::MAX as u64 { Some(Some(*u as i64)) } else { None },
        Some(Json::Int(i)) => Some(Some(*i)),
        Some(_) => None,
    }
}

fn flag_entry(v: Option<&Json>) -> (r: Option<Option<bool>>)
    ensures
        r == opt_flag(crate::decode::opt_val(v)),
{
    match v {
        None => Some(None),
        Some(Json::Null) => Some(None),
        Some(Json::Bool(b)) => Some(Some(*b)),
        Some(_) => None,
    }
}

fn bytes_entry(v: Option<&Json>) -> (r: Option<Option<Vec<u8>>>)
    ensures
        r is Some <==> opt_bytes(crate::decode::opt_val(v)) is Some,
        r matches Some(b) ==> opt_bytes(crate::decode::opt_val(v)) == Some(bytes_view(b)),
{
    match v {
        None => Some(None),
        Some(Json::Null) => Some(None),
        Some(Json::Str(s)) => match decode_base64(s.as_str()) {
            Some(b) => Some(Some(b)),
            None => None,
        },
        Some(_) => None,
    }
}

/// An integer in decimal, with a leading `-` when negative.
pub open spec fn spec_signed(n: int) -> Seq<char> {
    if n < 0 { "-"@ + spec_decimal((-n) as nat) } else { spec_decimal(n as nat) }
}

/// `n` in decimal.
pub fn signed_decimal(n: i64) -> (r: String)
    ensures
        r@ == spec_signed(n as int),
{
    if n < 0 {
        let m: u64 = if n == i64::MIN { 0x8000_0000_0000_0000u64 } else { (-n) as u64 };
        let mut r = String::from_str("-");
        r.append(decimal(m).as_str());
        r
    } else {
        decimal(n as u64)
    }
}

impl GuestExecStatus {
    /// Reads the reply of `guest-exec-status`: `exited` is required, the
    /// exit code and signal are integers, the captured output is base64,
    /// and every other entry may be missing.
    pub fn from_json(j: &Json) -> (r: Option<GuestExecStatus>)
        ensures
            r is Some <==> (j.spec_field("exited"@) matches Some(Json::Bool(_))
                && opt_int(j.spec_field("exitcode"@)) is Some && opt_int(j.spec_field("signal"@)) is Some
                && opt_bytes(j.spec_field("out-data"@)) is Some && opt_bytes(j.spec_field("err-data"@)) is Some
                && opt_flag(j.spec_field("out-truncated"@)) is Some && opt_flag(j.spec_field("err-truncated"@)) is Some),
            r matches Some(st) ==> {
                &&& j.spec_field("exited"@) == Some(Json::Bool(st.exited))
                &&& opt_int(j.spec_field("exitcode"@)) == Some(st.exitcode)
                &&& opt_int(j.spec_field("signal"@)) == Some(st.signal)
                &&& opt_bytes(j.spec_field("out-data"@)) == Some(bytes_view(st.out_data))
                &&& opt_bytes(j.spec_field("err-data"@)) == Some(bytes_view(st.err_data))
                &&& opt_flag(j.spec_field("out-truncated"@)) == Some(st.out_truncated)
                &&& opt_flag(j.spec_field("err-truncated"@)) == Some(st.err_truncated)
            },
    {
        let exited = match j.field("exited") {
            Some(Json::Bool(b)) => *b,
            _ => {
                return None;
            },
        };
        let exitcode = int_entry(j.field("exitcode"))?;
        let signal = int_entry(j.field("signal"))?;
        let out_data = bytes_entry(j.field("out-data"))?;
        let err_data = bytes_entry(j.field("err-data"))?;
        let out_truncated = flag_entry(j.field("out-truncated"))?;
        let err_truncated = flag_entry(j.field("err-truncated"))?;
        Some(GuestExecStatus { exited, exitcode, signal, out_data, err_data, out_truncated, err_truncated })
    }

    /// A finished process succeeded when it exited with code 0 and no
    /// signal; a running process counts as a success.
    pub open spec fn failed(&self) -> bool {
        self.exited && (self.exitcode != Some(0i64) || self.signal is Some)
    }

    /// `Err` with the status when the process failed, else `Ok` with it.
    pub fn result(self) -> (r: Result<GuestExecStatus, GuestExecStatus>)
        ensures
            self.failed() ==> r == Err::<GuestExecStatus, GuestExecStatus>(self),
            !self.failed() ==> r == Ok::<GuestExecStatus, GuestExecStatus>(self),
    {
        if self.exited {
            let bad = match self.exitcode {
                Some(c) => c != 0,
                None => true,
            };
            if bad || self.signal.is_some() {
                Err(self)
            } else {
                Ok(self)
            }
        } else {
            Ok(self)
        }
    }

    pub open spec fn spec_message(&self) -> Seq<char> {
        let err: Seq<char> = match self.err_data {
            Some(d) => if vstd::utf8::valid_utf8(d@) { ": "@ + vstd::utf8::decode_utf8(d@) } else { Seq::empty() },
            None => Seq::empty(),
        };
        let sig: Seq<char> = match self.signal {
            Some(s) => " (terminated by signal "@ + spec_signed(s as int) + ")"@,
            None => Seq::empty(),
        };
        match self.exitcode {
            Some(code) => "guest process exited with code "@ + spec_signed(code as int) + sig + err,
            None => if self.exited {
                "guest process exited"@ + sig + err
            } else {
                "guest process is still running"@
            },
        }
    }

    /// A sentence that says how the process ended, with its error output
    /// where that is text.
    pub fn message(&self) -> (r: String)
        ensures
            r@ == self.spec_message(),
    {
        let mut err = String::new();
        if let Some(d) = &self.err_data {
            if let Some(text) = utf8_text(d.as_slice()) {
                err.append(": ");
                err.append(text.as_str());
            }
        }
        let mut sig = String::new();
        if let Some(s) = self.signal {
            sig.append(" (terminated by signal ");
            sig.append(signed_decimal(s).as_str());
            sig.append(")");
        }
        let mut out = String::new();
        if let Some(code) = self.exitcode {
            out.append("guest process exited with code ");
            out.append(signed_decimal(code).as_str());
            out.append(sig.as_str());
            out.append(err.as_str());
        } else if self.exited {
            out.append("guest process exited");
            out.append(sig.as_str());
            out.append(err.as_str());
        } else {
            out.append("guest process is still running");
        }
        out
    }
}

} // verus!
