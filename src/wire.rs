//! The messages of the QMP and guest agent protocols: command envelopes,
//! responses, errors, events and timestamps.
use vstd::prelude::*;
use crate::json::{Json, str_eq};

verus! {

/// An enumeration whose values have distinct wire names.
pub trait Enum: Sized {
    /// The wire name of a value.
    spec fn spec_name(&self) -> Seq<char>;

    /// The value of a wire name, where one has it.
    spec fn spec_from_name(s: Seq<char>) -> Option<Self>;

    /// The position of the value in the declaration.
    fn discriminant(&self) -> usize;

    fn name(&self) -> (r: &'static str)
        ensures
            r@ == self.spec_name();

    fn from_name(s: &str) -> (r: Option<Self>)
        ensures
            r == Self::spec_from_name(s@);

    /// Reading a value's own name gives the value back.
    proof fn lemma_round_trip(v: Self)
        ensures
            Self::spec_from_name(v.spec_name()) == Some(v);

    /// A name that reads as a value is that value's name.
    proof fn lemma_from_name(s: Seq<char>)
        ensures
            Self::spec_from_name(s) matches Some(v) ==> v.spec_name() == s;
}

/// Every value reads back from its own name, no two values share a name,
/// and a name reads only as the value that has it.
pub proof fn enum_names_round_trip<E: Enum>(a: E, b: E, s: Seq<char>)
    ensures
        E::spec_from_name(a.spec_name()) == Some(a),
        a.spec_name() == b.spec_name() ==> a == b,
        E::spec_from_name(s) matches Some(v) ==> v.spec_name() == s,
{
    E::lemma_round_trip(a);
    E::lemma_round_trip(b);
    E::lemma_from_name(s);
}

/// The class of an error that the server reports.
#[derive(Clone, Copy, Debug, PartialEq, Eq, Structural, Hash)]
pub enum ErrorClass {
    /// An error that needs no class of its own; most errors have this one.
    GenericError,
    /// The requested command has not been found.
    CommandNotFound,
    /// A device has failed to become active.
    DeviceNotActive,
    /// The requested device has not been found.
    DeviceNotFound,
    /// A KVM capability that the operation needs is missing.
    KVMMissingCap,
}

impl Enum for ErrorClass {
    open spec fn spec_name(&self) -> Seq<char> {
        match self {
            ErrorClass::GenericError => "GenericError"@,
            ErrorClass::CommandNotFound => "CommandNotFound"@,
            ErrorClass::DeviceNotActive => "DeviceNotActive"@,
            ErrorClass::DeviceNotFound => "DeviceNotFound"@,
            ErrorClass::KVMMissingCap => "KVMMissingCap"@,
        }
    }

    open spec fn spec_from_name(s: Seq<char>) -> Option<ErrorClass> {
        if s == "GenericError"@ {
            Some(ErrorClass::GenericError)
        } else if s == "CommandNotFound"@ {
            Some(ErrorClass::CommandNotFound)
        } else if s == "DeviceNotActive"@ {
            Some(ErrorClass::DeviceNotActive)
        } else if s == "DeviceNotFound"@ {
            Some(ErrorClass::DeviceNotFound)
        } else if s == "KVMMissingCap"@ {
            Some(ErrorClass::KVMMissingCap)
        } else {
            None
        }
    }

    fn discriminant(&self) -> usize {
        match self {
            ErrorClass::GenericError => 0,
            ErrorClass::CommandNotFound => 1,
            ErrorClass::DeviceNotActive => 2,
            ErrorClass::DeviceNotFound => 3,
            ErrorClass::KVMMissingCap => 4,
        }
    }

    fn name(&self) -> (r: &'static str) {
        match self {
            ErrorClass::GenericError => "GenericError",
            ErrorClass::CommandNotFound => "CommandNotFound",
            ErrorClass::DeviceNotActive => "DeviceNotActive",
            ErrorClass::DeviceNotFound => "DeviceNotFound",
            ErrorClass::KVMMissingCap => "KVMMissingCap",
        }
    }

    fn from_name(s: &str) -> (r: Option<ErrorClass>) {
        if str_eq(s, "GenericError") {
            Some(ErrorClass::GenericError)
        } else if str_eq(s, "CommandNotFound") {
            Some(ErrorClass::CommandNotFound)
        } else if str_eq(s, "DeviceNotActive") {
            Some(ErrorClass::DeviceNotActive)
        } else if str_eq(s, "DeviceNotFound") {
            Some(ErrorClass::DeviceNotFound)
        } else if str_eq(s, "KVMMissingCap") {
            Some(ErrorClass::KVMMissingCap)
        } else {
            None
        }
    }

    proof fn lemma_round_trip(v: ErrorClass) {
        reveal_strlit("GenericError");
        reveal_strlit("CommandNotFound");
        reveal_strlit("DeviceNotActive");
        reveal_strlit("DeviceNotFound");
        reveal_strlit("KVMMissingCap");
        assert("GenericError"@.len() == 12);
        assert("CommandNotFound"@[0] == 'C');
        assert("DeviceNotActive"@[0] == 'D');
        assert("DeviceNotFound"@.len() == 14);
        assert("DeviceNotActive"@.len() == 15);
        assert("KVMMissingCap"@.len() == 13);
        assert("CommandNotFound"@ != "DeviceNotActive"@);
        assert("GenericError"@ != "CommandNotFound"@);
        assert("GenericError"@ != "DeviceNotActive"@);
        assert("GenericError"@ != "DeviceNotFound"@);
        assert("CommandNotFound"@ != "DeviceNotFound"@);
        assert("DeviceNotActive"@ != "DeviceNotFound"@);
    }

    proof fn lemma_from_name(s: Seq<char>) {
    }
}

/// The kind of I/O error that stands for an error class where the error
/// is surfaced as an I/O error.
#[derive(Clone, Copy, Debug, PartialEq, Eq, Structural)]
pub enum IoKind {
    Other,
    InvalidInput,
    NotFound,
}

impl ErrorClass {
    /// `CommandNotFound` is invalid input, `DeviceNotFound` is not found,
    /// every other class is another error.
    pub fn io_kind(&self) -> (r: IoKind)
        ensures
            *self == ErrorClass::CommandNotFound ==> r == IoKind::InvalidInput,
            *self == ErrorClass::DeviceNotFound ==> r == IoKind::NotFound,
            *self != ErrorClass::CommandNotFound && *self != ErrorClass::DeviceNotFound ==> r == IoKind::Other,
    {
        match self {
            ErrorClass::GenericError => IoKind::Other,
            ErrorClass::CommandNotFound => IoKind::InvalidInput,
            ErrorClass::DeviceNotActive => IoKind::Other,
            ErrorClass::DeviceNotFound => IoKind::NotFound,
            ErrorClass::KVMMissingCap => IoKind::Other,
        }
    }
}

/// An event type: the wire name it is sent under.
pub trait Event {
    fn event_name(&self) -> &'static str;
}

/// An error that the server reported for a command.
#[derive(Debug)]
pub struct Error {
    pub class: ErrorClass,
    pub desc: String,
    pub id: Option<Json>,
}

/// The `error` member of an error response.
#[derive(Debug)]
pub struct ErrorValue {
    pub class: ErrorClass,
    pub desc: String,
}

/// The `error` member of an error response, borrowed for writing.
#[derive(Debug)]
pub struct ErrorValueSer<'a> {
    pub class: &'a ErrorClass,
    pub desc: &'a str,
}

/// The empty return value.
#[derive(Clone, Copy, Debug)]
pub struct Empty {}

/// A type that callers cannot build: it stands where no id or value is sent.
#[derive(Debug)]
pub struct Never {
    sealed: (),
}

/// Seconds and microseconds since the epoch.
#[derive(Clone, Copy, Debug, PartialEq, Eq, Structural)]
pub struct Timestamp {
    seconds: u64,
    microseconds: u64,
}

impl Timestamp {
    pub fn new(seconds: u64, microseconds: u64) -> (r: Timestamp)
        ensures
            r.spec_seconds() == seconds,
            r.spec_microseconds() == microseconds,
    {
        Timestamp { seconds, microseconds }
    }

    pub closed spec fn spec_seconds(&self) -> u64 {
        self.seconds
    }

    pub closed spec fn spec_microseconds(&self) -> u64 {
        self.microseconds
    }

    pub fn seconds(&self) -> (r: u64)
        ensures
            r == self.spec_seconds(),
    {
        self.seconds
    }

    pub fn microseconds(&self) -> (r: u64)
        ensures
            r == self.spec_microseconds(),
    {
        self.microseconds
    }

    /// `{ "seconds": u64, "microseconds": u64 }`.
    pub fn from_json(j: &Json) -> (r: Option<Timestamp>)
        ensures
            r is Some <==> (j.spec_field("seconds"@) matches Some(Json::UInt(_))
                && j.spec_field("microseconds"@) matches Some(Json::UInt(_))),
            r matches Some(t) ==> j.spec_field("seconds"@) == Some(Json::UInt(t.spec_seconds()))
                && j.spec_field("microseconds"@) == Some(Json::UInt(t.spec_microseconds())),
    {
        match (j.field("seconds"), j.field("microseconds")) {
            (Some(Json::UInt(s)), Some(Json::UInt(us))) => Some(Timestamp { seconds: *s, microseconds: *us }),
            _ => None,
        }
    }
}

/// A response as it arrives: a return value or an error, each with the
/// correlating id where the request carried one.
#[derive(Debug)]
pub enum Response {
    Return { ret: Json, id: Option<Json> },
    Failure(Error),
}

/// The class and description of an `error` member.
pub open spec fn error_parts(e: Json) -> Option<(ErrorClass, Seq<char>)> {
    match (e.spec_field("class"@), e.spec_field("desc"@)) {
        (Some(Json::Str(c)), Some(Json::Str(d))) => match ErrorClass::spec_from_name(c@) {
            Some(class) => Some((class, d@)),
            None => None,
        },
        _ => None,
    }
}

/// Whether a message reads as an error response.
pub open spec fn is_error_response(j: Json) -> bool {
    j.spec_field("error"@) is Some && error_parts(j.spec_field("error"@).unwrap()) is Some
}

/// Whether a message reads as a response.
pub open spec fn is_response(j: Json) -> bool {
    is_error_response(j) || j.spec_field("return"@) is Some
}

impl Error {
    /// The error response `{ "error": { "class": .., "desc": .. }, "id"?: .. }`.
    pub fn to_json(self) -> (r: Json)
        ensures
            r.spec_field("error"@) matches Some(e) && error_parts(e) == Some((self.class, self.desc@)),
            r.spec_field("id"@) == self.id,
    {
        let mut inner: Vec<(String, Json)> = Vec::new();
        inner.push((String::from_str("class"), Json::Str(String::from_str(self.class.name()))));
        inner.push((String::from_str("desc"), Json::Str(self.desc)));
        let mut fields: Vec<(String, Json)> = Vec::new();
        let ghost e = Json::Object(inner);
        fields.push((String::from_str("error"), Json::Object(inner)));
        let has_id = self.id.is_some();
        if let Some(id) = self.id {
            fields.push((String::from_str("id"), id));
        }
        proof {
            reveal_with_fuel(crate::json::first_field, 3);
            reveal_strlit("class");
            reveal_strlit("desc");
            reveal_strlit("error");
            reveal_strlit("id");
            assert("class"@.len() == 5 && "desc"@.len() == 4 && "error"@.len() == 5 && "id"@.len() == 2);
            ErrorClass::lemma_round_trip(self.class);
            let f = fields@;
            let ie = e->Object_0@;
            assert(ie.drop_first()[0] == ie[1]);
            if has_id {
                assert(f.drop_first()[0] == f[1]);
                assert(f.drop_first().drop_first().len() == 0);
            } else {
                assert(f.drop_first().len() == 0);
            }
        }
        Json::Object(fields)
    }
}

impl Response {
    /// Reads a response: an `error` member with a known class and a
    /// description makes an error; otherwise a `return` member makes a
    /// return value. `None` for anything else.
    pub fn from_json(j: Json) -> (r: Option<Response>)
        ensures
            r is Some <==> is_response(j),
            r matches Some(Response::Failure(e)) ==> is_error_response(j)
                && error_parts(j.spec_field("error"@).unwrap()) == Some((e.class, e.desc@))
                && e.id == j.spec_field("id"@),
            r matches Some(Response::Return { ret, id }) ==> !is_error_response(j)
                && j.spec_field("return"@) == Some(ret) && id == j.spec_field("id"@),
    {
        let mut fields = match j {
            Json::Object(f) => f,
            _ => {
                return None;
            },
        };
        let err = match whole_field(&fields, "error") {
            Some(e) => error_value(e),
            None => None,
        };
        let is_err = err.is_some();
        let has_ret = whole_field(&fields, "return").is_some();
        if !is_err && !has_ret {
            return None;
        }
        proof {
            reveal_strlit("id");
            reveal_strlit("return");
            reveal_strlit("error");
        }
        assert("id"@.len() == 2 && "return"@.len() == 6);
        let id = take_field(&mut fields, "id");
        match err {
            Some(ev) => Some(Response::Failure(Error { class: ev.class, desc: ev.desc, id })),
            None => {
                let ret = take_field(&mut fields, "return");
                match ret {
                    Some(v) => Some(Response::Return { ret: v, id }),
                    None => None,
                }
            },
        }
    }

    /// The return value, or the error.
    pub fn result(self) -> (r: Result<Json, Error>)
        ensures
            self matches Response::Return { ret, .. } ==> r == Ok::<Json, Error>(ret),
            self matches Response::Failure(e) ==> r == Err::<Json, Error>(e),
    {
        match self {
            Response::Return { ret, .. } => Ok(ret),
            Response::Failure(e) => Err(e),
        }
    }

    pub open spec fn spec_id(&self) -> Option<Json> {
        match self {
            Response::Return { id, .. } => *id,
            Response::Failure(e) => e.id,
        }
    }

    /// The correlating id, where the response carries one.
    pub fn id(&self) -> (r: Option<&Json>)
        ensures
            r matches Some(j) ==> self.spec_id() == Some(*j),
            r is None <==> self.spec_id() is None,
    {
        match self {
            Response::Return { id, .. } => id.as_ref(),
            Response::Failure(e) => e.id.as_ref(),
        }
    }
}

fn whole_field<'a>(fields: &'a Vec<(String, Json)>, key: &str) -> (r: Option<&'a Json>)
    ensures
        r is None <==> crate::json::first_field(fields@, key@) is None,
        r matches Some(v) ==> crate::json::first_field(fields@, key@) == Some(*v),
{
    let mut i: usize = 0;
    assert(fields@.skip(0) =~= fields@);
    while i < fields.len()
        invariant
            i <= fields@.len(),
            crate::json::first_field(fields@, key@) == crate::json::first_field(fields@.skip(i as int), key@),
        decreases fields@.len() - i,
    {
        assert(fields@.skip(i as int).drop_first() =~= fields@.skip(i + 1));
        if str_eq(fields[i].0.as_str(), key) {
            return Some(&fields[i].1);
        }
        i = i + 1;
    }
    assert(fields@.skip(i as int).len() == 0);
    None
}

/// Moves out the value of the first entry keyed `key`, leaving `null`.
fn take_field(fields: &mut Vec<(String, Json)>, key: &str) -> (r: Option<Json>)
    ensures
        r == crate::json::first_field(old(fields)@, key@),
        final(fields)@.len() == old(fields)@.len(),
        forall|k: int| 0 <= k < old(fields)@.len() ==> (#[trigger] final(fields)@[k]).0 == old(fields)@[k].0,
        forall|other: Seq<char>| other != key@ ==> crate::json::first_field(final(fields)@, other)
            == crate::json::first_field(old(fields)@, other),
{
    let ghost orig = fields@;
    let mut i: usize = 0;
    assert(orig.skip(0) =~= orig);
    while i < fields.len()
        invariant
            i <= fields@.len(),
            fields@ == orig,
            orig == old(fields)@,
            crate::json::first_field(orig, key@) == crate::json::first_field(orig.skip(i as int), key@),
            forall|k: int| 0 <= k < i ==> (#[trigger] orig[k]).0@ != key@,
        decreases fields@.len() - i,
    {
        assert(orig.skip(i as int).drop_first() =~= orig.skip(i + 1));
        if str_eq(fields[i].0.as_str(), key) {
            let (k0, v) = fields.remove(i);
            fields.insert(i, (k0, Json::Null));
            proof {
                assert(fields@ =~= orig.update(i as int, (orig[i as int].0, Json::Null)));
                assert(orig.skip(i as int)[0] == orig[i as int]);
                lemma_first_field_replace(orig, fields@, i as int, key@);
            }
            return Some(v);
        }
        i = i + 1;
    }
    assert(orig.skip(i as int).len() == 0);
    None
}

proof fn lemma_first_field_replace(a: Seq<(String, Json)>, b: Seq<(String, Json)>, i: int, key: Seq<char>)
    requires
        0 <= i < a.len(),
        a.len() == b.len(),
        a[i].0@ == key,
        forall|k: int| 0 <= k < a.len() ==> (#[trigger] b[k]).0 == a[k].0,
        forall|k: int| 0 <= k < a.len() && k != i ==> b[k] == a[k],
        forall|k: int| 0 <= k < i ==> (#[trigger] a[k]).0@ != key,
    ensures
        forall|other: Seq<char>| other != key ==> crate::json::first_field(b, other) == crate::json::first_field(a, other),
    decreases a.len(),
{
    assert forall|other: Seq<char>| other != key implies crate::json::first_field(b, other) == crate::json::first_field(a, other) by {
        lemma_first_field_same(a, b, i, key, other);
    }
}

proof fn lemma_first_field_same(a: Seq<(String, Json)>, b: Seq<(String, Json)>, i: int, key: Seq<char>, other: Seq<char>)
    requires
        0 <= i < a.len(),
        a.len() == b.len(),
        a[i].0@ == key,
        other != key,
        forall|k: int| 0 <= k < a.len() ==> (#[trigger] b[k]).0 == a[k].0,
        forall|k: int| 0 <= k < a.len() && k != i ==> b[k] == a[k],
    ensures
        crate::json::first_field(b, other) == crate::json::first_field(a, other),
    decreases a.len(),
{
    if a.len() > 0 {
        if i > 0 {
            assert forall|k: int| 0 <= k < a.drop_first().len() implies (#[trigger] b.drop_first()[k]).0 == a.drop_first()[k].0 by {
                assert(b.drop_first()[k] == b[k + 1]);
                assert(a.drop_first()[k] == a[k + 1]);
            }
            assert forall|k: int| 0 <= k < a.drop_first().len() && k != i - 1 implies b.drop_first()[k] == a.drop_first()[k] by {
                assert(b.drop_first()[k] == b[k + 1]);
                assert(a.drop_first()[k] == a[k + 1]);
            }
            lemma_first_field_same(a.drop_first(), b.drop_first(), i - 1, key, other);
        } else {
            assert(b[0].0 == a[0].0);
            assert(b.drop_first() =~= a.drop_first());
        }
    }
}

/// The `error` member's class and description.
fn error_value(e: &Json) -> (r: Option<ErrorValue>)
    ensures
        r is Some <==> error_parts(*e) is Some,
        r matches Some(v) ==> error_parts(*e) == Some((v.class, v.desc@)),
{
    match (e.field("class"), e.field("desc")) {
        (Some(Json::Str(c)), Some(Json::Str(d))) => match ErrorClass::from_name(c.as_str()) {
            Some(class) => Some(ErrorValue { class, desc: d.clone() }),
            None => None,
        },
        _ => None,
    }
}

/// A command that can be sent: its wire name, whether it may run out of
/// band, and its arguments as JSON.
pub trait Command {
    fn name(&self) -> String;

    fn allow_oob(&self) -> bool;

    fn arguments(&self) -> Json;
}

/// A command with its optional correlating id.
pub struct Execute<C, I> {
    pub arguments: C,
    pub id: Option<I>,
}

impl<C, I> Execute<C, I> {
    pub fn new(arguments: C, id: Option<I>) -> (r: Self)
        ensures
            r.arguments == arguments,
            r.id == id,
    {
        Execute { arguments, id }
    }

    pub fn with_command(arguments: C) -> (r: Self)
        ensures
            r.arguments == arguments,
            r.id is None,
    {
        Execute { arguments, id: None }
    }

    pub fn with_id(arguments: C, id: I) -> (r: Self)
        ensures
            r.arguments == arguments,
            r.id == Some(id),
    {
        Execute { arguments, id: Some(id) }
    }
}

/// A command sent out of band, which always carries an id.
pub struct ExecuteOob<C, I> {
    pub arguments: C,
    pub id: I,
}

impl<C, I> ExecuteOob<C, I> {
    pub fn new(arguments: C, id: I) -> (r: Self)
        ensures
            r.arguments == arguments,
            r.id == id,
    {
        ExecuteOob { arguments, id }
    }
}

/// The JSON envelope of a command: `execute` (or `exec-oob` when `oob`)
/// names it, `arguments` holds its arguments, and `id` is present exactly
/// when an id is given.
pub fn envelope_json(name: String, arguments: Json, id: Option<u32>, oob: bool) -> (r: Json)
    ensures
        r.spec_field((if oob { "exec-oob"@ } else { "execute"@ })) == Some(Json::Str(name)),
        r.spec_field("arguments"@) == Some(arguments),
        id matches Some(n) ==> r.spec_field("id"@) == Some(Json::UInt(n as u64)),
        id is None ==> r.spec_field("id"@) is None,
{
    let key = if oob { String::from_str("exec-oob") } else { String::from_str("execute") };
    let mut fields: Vec<(String, Json)> = Vec::new();
    fields.push((key, Json::Str(name)));
    fields.push((String::from_str("arguments"), arguments));
    if let Some(n) = id {
        fields.push((String::from_str("id"), Json::UInt(n as u64)));
    }
    proof {
        reveal_strlit("exec-oob");
        reveal_strlit("execute");
        reveal_strlit("arguments");
        reveal_strlit("id");
        reveal_with_fuel(crate::json::first_field, 4);
        let f = fields@;
        assert("arguments"@.len() == 9);
        assert("execute"@.len() == 7);
        assert("exec-oob"@.len() == 8);
        assert("id"@.len() == 2);
        assert(f.drop_first()[0] == f[1]);
        if id is Some {
            assert(f.drop_first().drop_first()[0] == f[2]);
            assert(f.drop_first().drop_first().drop_first().len() == 0);
        } else {
            assert(f.drop_first().drop_first().len() == 0);
        }
    }
    Json::Object(fields)
}

impl<C: Command> Execute<C, u32> {
    /// The envelope of this command, with `exec-oob` in place of `execute`
    /// when `oob` is set: the command's wire name, its arguments, and the id
    /// exactly when one is set. The name and the arguments are what the
    /// command's `Command` impl answers.
    pub fn to_json(&self, oob: bool) -> (r: Json)
        ensures
            r.spec_field((if oob { "exec-oob"@ } else { "execute"@ })) matches Some(Json::Str(_)),
            r.spec_field("arguments"@) is Some,
            self.id matches Some(n) ==> r.spec_field("id"@) == Some(Json::UInt(n as u64)),
            self.id is None ==> r.spec_field("id"@) is None,
    {
        let name = self.arguments.name();
        let arguments = self.arguments.arguments();
        envelope_json(name, arguments, self.id, oob)
    }
}

} // verus!
