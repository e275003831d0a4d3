//! Preparing QAPI schema text for JSON decoding, and cutting it into the
//! top-level values that it concatenates without separators.
use vstd::prelude::*;
use crate::json::{Json, json_parse, parse_json};
use crate::decode::{decl_ok, declares};
use crate::schema::{ParseError, Spec};

verus! {

/// Relies on str::chars: the characters of the string, in order.
#[verifier::external_body]
pub(crate) fn chars_of(s: &str) -> (r: Vec<char>)
    ensures
        r@ == s@,
{
    s.chars().collect()
}

/// Relies on FromIterator<char> for String: the string of these characters.
#[verifier::external_body]
pub(crate) fn string_of(v: &[char]) -> (r: String)
    ensures
        r@ == v@,
{
    v.iter().collect()
}

/// The UTF-8 encoding of the characters.
fn utf8_of(v: &[char]) -> (r: Vec<u8>)
    ensures
        r@ == vstd::utf8::encode_utf8(v@),
{
    let s = string_of(v);
    vstd::slice::slice_to_vec(s.as_str().as_bytes())
}

/// The characters with the Unicode White_Space property, which
/// `char::is_whitespace` tests for.
pub open spec fn white_space(c: char) -> bool {
    ('\u{9}' <= c && c <= '\u{d}') || c == ' ' || c == '\u{85}' || c == '\u{a0}' || c == '\u{1680}'
        || ('\u{2000}' <= c && c <= '\u{200a}') || c == '\u{2028}' || c == '\u{2029}' || c == '\u{202f}'
        || c == '\u{205f}' || c == '\u{3000}'
}

/// Whether `c` is white space.
pub(crate) fn is_whitespace(c: char) -> (r: bool)
    ensures
        r == white_space(c),
{
    ('\u{9}' <= c && c <= '\u{d}') || c == ' ' || c == '\u{85}' || c == '\u{a0}' || c == '\u{1680}'
        || ('\u{2000}' <= c && c <= '\u{200a}') || c == '\u{2028}' || c == '\u{2029}' || c == '\u{202f}'
        || c == '\u{205f}' || c == '\u{3000}'
}

/// The index of the first character of `line` that is not white space.
pub open spec fn first_solid(line: Seq<char>) -> int
    decreases line.len(),
{
    if line.len() == 0 {
        0
    } else if white_space(line[0]) {
        1 + first_solid(line.drop_first())
    } else {
        0
    }
}

/// A line survives when, leaving white space aside, it is not empty and does
/// not start with `#`.
pub open spec fn kept(line: Seq<char>) -> bool {
    first_solid(line) < line.len() && line[first_solid(line)] != '#'
}

/// A single quote becomes a double quote.
pub open spec fn requote(c: char) -> char {
    if c == '\'' { '"' } else { c }
}

/// The index of the first `#`, or the length when there is none.
pub open spec fn comment_start(line: Seq<char>) -> int
    decreases line.len(),
{
    if line.len() == 0 {
        0
    } else if line[0] == '#' {
        0
    } else {
        1 + comment_start(line.drop_first())
    }
}

/// A line without its line-ending carriage return.
pub open spec fn unterminated(line: Seq<char>) -> Seq<char> {
    if line.len() > 0 && line[line.len() - 1] == '\r' { line.drop_last() } else { line }
}

/// What a kept line becomes: quotes turned to double quotes, and cut at the
/// first `#`.
pub open spec fn cleaned(line: Seq<char>) -> Seq<char> {
    let l = unterminated(line).map_values(|c: char| requote(c));
    l.take(comment_start(l))
}

/// The index of the first line feed, or the length when there is none.
pub open spec fn line_end(s: Seq<char>) -> int
    decreases s.len(),
{
    if s.len() == 0 {
        0
    } else if s[0] == '\n' {
        0
    } else {
        1 + line_end(s.drop_first())
    }
}

/// Each kept line of `s`, cleaned and followed by a line feed.
pub open spec fn cleaned_lines(s: Seq<char>) -> Seq<char>
    decreases s.len(),
{
    if s.len() == 0 {
        Seq::empty()
    } else {
        let e = line_end(s);
        if 0 <= e < s.len() {
            let line = s.take(e);
            (if kept(line) { cleaned(line).push('\n') } else { Seq::empty() }) + cleaned_lines(s.skip(e + 1))
        } else {
            if kept(s) { cleaned(s).push('\n') } else { Seq::empty() }
        }
    }
}

/// The kept lines, cleaned and joined by line feeds.
pub open spec fn stripped(s: Seq<char>) -> Seq<char> {
    let b = cleaned_lines(s);
    if b.len() > 0 { b.drop_last() } else { b }
}

proof fn lemma_first_solid_at(line: Seq<char>, k: int)
    requires
        0 <= k <= line.len(),
        forall|m: int| 0 <= m < k ==> white_space(#[trigger] line[m]),
        k == line.len() || !white_space(line[k]),
    ensures
        first_solid(line) == k,
    decreases line.len(),
{
    if k > 0 {
        assert forall|m: int| 0 <= m < k - 1 implies white_space(#[trigger] line.drop_first()[m]) by {
            assert(line.drop_first()[m] == line[m + 1]);
        }
        if k - 1 < line.drop_first().len() {
            assert(line.drop_first()[k - 1] == line[k]);
        }
        lemma_first_solid_at(line.drop_first(), k - 1);
    }
}

proof fn lemma_index_of(s: Seq<char>, c: char, k: int)
    requires
        0 <= k <= s.len(),
        forall|m: int| 0 <= m < k ==> #[trigger] s[m] != c,
        k == s.len() || s[k] == c,
    ensures
        c == '#' ==> comment_start(s) == k,
        c == '\n' ==> line_end(s) == k,
    decreases s.len(),
{
    if k > 0 {
        assert forall|m: int| 0 <= m < k - 1 implies #[trigger] s.drop_first()[m] != c by {
            assert(s.drop_first()[m] == s[m + 1]);
        }
        if k - 1 < s.drop_first().len() {
            assert(s.drop_first()[k - 1] == s[k]);
        }
        lemma_index_of(s.drop_first(), c, k - 1);
    }
}

/// Whether the line `s[start..end]` survives.
fn line_kept(s: &Vec<char>, start: usize, end: usize) -> (r: bool)
    requires
        start <= end <= s@.len(),
    ensures
        r == kept(s@.subrange(start as int, end as int)),
{
    let ghost line = s@.subrange(start as int, end as int);
    let mut k: usize = start;
    while k < end && is_whitespace(s[k])
        invariant
            start <= k <= end,
            end <= s@.len(),
            line == s@.subrange(start as int, end as int),
            forall|m: int| 0 <= m < k - start ==> white_space(#[trigger] line[m]),
        decreases end - k,
    {
        k = k + 1;
    }
    proof {
        lemma_first_solid_at(line, k - start);
    }
    k < end && s[k] != '#'
}

/// Appends the cleaned form of the line `s[start..end]` and a line feed.
fn push_cleaned(s: &Vec<char>, start: usize, end: usize, out: &mut Vec<char>)
    requires
        start <= end <= s@.len(),
    ensures
        final(out)@ == old(out)@ + cleaned(s@.subrange(start as int, end as int)).push('\n'),
{
    let ghost line = s@.subrange(start as int, end as int);
    let ghost l = unterminated(line).map_values(|c: char| requote(c));
    let mut stop = end;
    if stop > start && s[stop - 1] == '\r' {
        stop = stop - 1;
    }
    assert(unterminated(line) =~= s@.subrange(start as int, stop as int));
    let ghost before = out@;
    let mut k: usize = start;
    while k < stop && requote_char(s[k]) != '#'
        invariant
            start <= k <= stop,
            stop <= end <= s@.len(),
            l == s@.subrange(start as int, stop as int).map_values(|c: char| requote(c)),
            out@ == before + l.take(k - start),
            forall|m: int| 0 <= m < k - start ==> #[trigger] l[m] != '#',
        decreases stop - k,
    {
        assert(l.take(k - start + 1) =~= l.take(k - start).push(l[k - start]));
        out.push(requote_char(s[k]));
        k = k + 1;
    }
    proof {
        lemma_index_of(l, '#', k - start);
    }
    out.push('\n');
}

fn requote_char(c: char) -> (r: char)
    ensures
        r == requote(c),
{
    if c == '\'' { '"' } else { c }
}

/// A schema source text and the position up to which it has been read.
pub struct Parser {
    data: Vec<char>,
    pos: usize,
    eof: bool,
}

impl Parser {
    pub closed spec fn spec_data(&self) -> Seq<char> {
        self.data@
    }

    pub closed spec fn spec_pos(&self) -> nat {
        self.pos as nat
    }

    pub closed spec fn spec_eof(&self) -> bool {
        self.eof
    }

    /// The reader can go on: its text fits the scanner, and its position
    /// lies within the text.
    pub open spec fn wf(&self) -> bool {
        self.spec_data().len() < 0x1000_0000_0000 && self.spec_pos() <= self.spec_data().len()
    }

    /// A reader at the start of `s`.
    pub fn from_string(s: String) -> (r: Parser)
        ensures
            r.spec_data() == s@,
            r.spec_pos() == 0,
            !r.spec_eof(),
    {
        Parser { data: chars_of(s.as_str()), pos: 0, eof: false }
    }

    /// Whether the text is small enough for the reader.
    pub fn fits(&self) -> (r: bool)
        ensures
            r == (self.spec_data().len() < 0x1000_0000_0000),
    {
        (self.data.len() as u64) < 0x1000_0000_0000u64
    }

    /// Drops blank lines and lines that start with `#`, cuts every other line
    /// at its first `#` after turning single quotes into double quotes, and
    /// joins what is left with line feeds.
    pub fn strip_comments(s: &str) -> (r: String)
        ensures
            r@ == stripped(s@),
    {
        let v = chars_of(s);
        let n = v.len();
        let mut out: Vec<char> = Vec::new();
        let mut i: usize = 0;
        assert(v@.skip(0) =~= v@);
        while i < n
            invariant
                n == v@.len(),
                i <= n,
                out@ + cleaned_lines(v@.skip(i as int)) == cleaned_lines(v@),
            decreases n - i,
        {
            let mut e = i;
            while e < n && v[e] != '\n'
                invariant
                    i <= e <= n,
                    n == v@.len(),
                    forall|m: int| i <= m < e ==> v@[m] != '\n',
                decreases n - e,
            {
                e = e + 1;
            }
            let ghost rest = v@.skip(i as int);
            proof {
                assert forall|m: int| 0 <= m < e - i implies #[trigger] rest[m] != '\n' by {
                    assert(rest[m] == v@[i + m]);
                }
                lemma_index_of(rest, '\n', e - i);
                assert(rest.take(e - i) =~= v@.subrange(i as int, e as int));
                if e < n {
                    assert(rest.skip(e - i + 1) =~= v@.skip(e + 1));
                }
            }
            let before = out.len();
            if line_kept(&v, i, e) {
                push_cleaned(&v, i, e, &mut out);
            }
            proof {
                if e == n {
                    assert(rest.take(e - i) =~= rest);
                }
            }
            if e < n {
                i = e + 1;
            } else {
                i = n;
                assert(out@ + cleaned_lines(v@.skip(i as int)) == cleaned_lines(v@)) by {
                    assert(v@.skip(i as int) =~= Seq::<char>::empty());
                }
            }
        }
        assert(v@.skip(n as int) =~= Seq::<char>::empty());
        assert(out@ == cleaned_lines(v@));
        if out.len() > 0 {
            out.pop();
        }
        string_of(out.as_slice())
    }
}

/// Where a scan of JSON text stands: the nesting depth of brackets and
/// braces, whether it is inside a string, and whether the last character
/// inside a string was a backslash.
pub struct ScanState {
    pub depth: int,
    pub in_str: bool,
    pub esc: bool,
}

pub open spec fn step(st: ScanState, c: char) -> ScanState {
    if st.in_str {
        if st.esc {
            ScanState { esc: false, ..st }
        } else if c == '\\' {
            ScanState { esc: true, ..st }
        } else if c == '"' {
            ScanState { in_str: false, ..st }
        } else {
            st
        }
    } else if c == '"' {
        ScanState { in_str: true, ..st }
    } else if c == '{' || c == '[' {
        ScanState { depth: st.depth + 1, ..st }
    } else if c == '}' || c == ']' {
        ScanState { depth: st.depth - 1, ..st }
    } else {
        st
    }
}

/// The state after scanning `s[start..k]` from outside any value.
pub open spec fn scan(s: Seq<char>, start: int, k: int) -> ScanState
    decreases k - start,
{
    if k <= start {
        ScanState { depth: 0, in_str: false, esc: false }
    } else {
        step(scan(s, start, k - 1), s[k - 1])
    }
}

/// Whether every top-level value of `s` from `pos` on is JSON text that
/// reads as a declaration.
pub open spec fn all_declarations(s: Seq<char>, pos: int) -> bool
    decreases s.len() - pos,
{
    let start = skip_space(s, pos);
    if pos < 0 || start >= s.len() {
        true
    } else {
        let end = value_end(s, start);
        let parsed = json_parse(vstd::utf8::encode_utf8(s.subrange(start, end)));
        parsed is Some && decl_ok(parsed.unwrap()) && (pos < end <= s.len() ==> all_declarations(s, end))
    }
}

/// A bracketed value that starts at `start` ends at `end` when the scan first
/// comes back to depth zero there.
pub open spec fn closes_at(s: Seq<char>, start: int, end: int) -> bool {
    &&& start < end <= s.len()
    &&& scan(s, start, end).depth == 0
    &&& forall|m: int| start < m < end ==> #[trigger] scan(s, start, m).depth != 0
}

/// The first position at or after `i` that is not white space.
pub open spec fn skip_space(s: Seq<char>, i: int) -> int
    decreases s.len() - i,
{
    if i < s.len() && white_space(s[i]) { skip_space(s, i + 1) } else { i }
}

/// Where the value that starts at `start` ends: where its brackets close, or
/// the end of the text when it is not bracketed or does not close.
pub open spec fn value_end(s: Seq<char>, start: int) -> int {
    if start < s.len() && (s[start] == '{' || s[start] == '[') && exists|e: int| closes_at(s, start, e) {
        choose|e: int| closes_at(s, start, e)
    } else {
        s.len() as int
    }
}

proof fn lemma_closes_unique(s: Seq<char>, start: int, a: int, b: int)
    requires
        closes_at(s, start, a),
        closes_at(s, start, b),
    ensures
        a == b,
{
    if a < b {
        assert(scan(s, start, a).depth != 0);
    } else if b < a {
        assert(scan(s, start, b).depth != 0);
    }
}

impl Parser {
    fn scan_step(c: char, depth: i64, in_str: bool, esc: bool) -> (r: (i64, bool, bool))
        requires
            -0x1000_0000_0000 < depth < 0x1000_0000_0000,
        ensures
            ({
                let st = step(ScanState { depth: depth as int, in_str, esc }, c);
                st == ScanState { depth: r.0 as int, in_str: r.1, esc: r.2 }
            }),
    {
        if in_str {
            if esc {
                (depth, true, false)
            } else if c == '\\' {
                (depth, true, true)
            } else if c == '"' {
                (depth, false, esc)
            } else {
                (depth, in_str, esc)
            }
        } else if c == '"' {
            (depth, true, esc)
        } else if c == '{' || c == '[' {
            (depth + 1, in_str, esc)
        } else if c == '}' || c == ']' {
            (depth - 1, in_str, esc)
        } else {
            (depth, in_str, esc)
        }
    }

    /// Where the value that starts at `start` ends.
    fn find_end(&self, start: usize) -> (r: usize)
        requires
            start < self.data@.len(),
            self.data@.len() < 0x1000_0000_0000,
        ensures
            r == value_end(self.data@, start as int),
    {
        let n = self.data.len();
        let c0 = self.data[start];
        if c0 != '{' && c0 != '[' {
            return n;
        }
        let mut depth: i64 = 0;
        let mut in_str = false;
        let mut esc = false;
        let mut k: usize = start;
        while k < n
            invariant
                n == self.data@.len(),
                n < 0x1000_0000_0000,
                start <= k <= n,
                self.data@[start as int] == '{' || self.data@[start as int] == '[',
                scan(self.data@, start as int, k as int) == (ScanState { depth: depth as int, in_str, esc }),
                -(k - start) <= depth <= k - start,
                forall|m: int| start < m <= k ==> #[trigger] scan(self.data@, start as int, m).depth != 0,
            decreases n - k,
        {
            let r = Parser::scan_step(self.data[k], depth, in_str, esc);
            depth = r.0;
            in_str = r.1;
            esc = r.2;
            k = k + 1;
            if depth == 0 {
                assert(closes_at(self.data@, start as int, k as int));
                proof {
                    assert forall|e: int| closes_at(self.data@, start as int, e) implies e == k by {
                        lemma_closes_unique(self.data@, start as int, e, k as int);
                    }
                }
                return k;
            }
        }
        assert forall|e: int| !closes_at(self.data@, start as int, e) by {
            if closes_at(self.data@, start as int, e) {
                assert(scan(self.data@, start as int, e).depth != 0);
            }
        }
        n
    }

    /// The next top-level JSON value of the text: `None` once only white
    /// space is left, else the value that runs from the next character that
    /// is not white space to where its brackets close (or to the end of the
    /// text), or `InvalidJson` where that stretch is no JSON. After an error
    /// the reader stops.
    pub fn next_value(&mut self) -> (r: Option<Result<Json, ParseError>>)
        requires
            old(self).spec_data().len() < 0x1000_0000_0000,
            old(self).spec_pos() <= old(self).spec_data().len(),
        ensures
            final(self).spec_data() == old(self).spec_data(),
            final(self).spec_pos() <= final(self).spec_data().len(),
            final(self).spec_pos() >= old(self).spec_pos(),
            old(self).spec_eof() ==> r is None,
            !old(self).spec_eof() ==> ({
                let s = old(self).spec_data();
                let start = skip_space(s, old(self).spec_pos() as int);
                let end = value_end(s, start);
                let parsed = json_parse(vstd::utf8::encode_utf8(s.subrange(start, end)));
                &&& (r is None <==> start >= s.len())
                &&& start < s.len() ==> final(self).spec_pos() == end
                &&& start < s.len() ==> final(self).spec_pos() > old(self).spec_pos()
                &&& start < s.len() && parsed is Some ==> r == Some(Ok::<Json, ParseError>(parsed.unwrap()))
                &&& start < s.len() && parsed is None ==> r == Some(Err::<Json, ParseError>(ParseError::InvalidJson))
                        && final(self).spec_eof()
                &&& r matches Some(Ok(_)) ==> !final(self).spec_eof()
            }),
    {
        if self.eof {
            return None;
        }
        let n = self.data.len();
        let mut start = self.pos;
        while start < n && is_whitespace(self.data[start])
            invariant
                n == self.data@.len(),
                old(self).spec_pos() <= start <= n,
                skip_space(self.data@, old(self).spec_pos() as int) == skip_space(self.data@, start as int),
            decreases n - start,
        {
            start = start + 1;
        }
        if start >= n {
            self.pos = n;
            self.eof = true;
            return None;
        }
        let end = self.find_end(start);
        proof {
            let s = self.data@;
            if (s[start as int] == '{' || s[start as int] == '[') && exists|e: int| closes_at(s, start as int, e) {
                let e = choose|e: int| closes_at(s, start as int, e);
                assert(closes_at(s, start as int, e));
            }
        }
        let bytes = utf8_of(slice_subrange(self.data.as_slice(), start, end));
        self.pos = end;
        match parse_json(bytes.as_slice()) {
            Some(j) => Some(Ok(j)),
            None => {
                self.eof = true;
                Some(Err(ParseError::InvalidJson))
            },
        }
    }

    /// The next declaration of the text, read from the next top-level value.
    pub fn next(&mut self) -> (r: Option<Result<Spec, ParseError>>)
        requires
            old(self).spec_data().len() < 0x1000_0000_0000,
            old(self).spec_pos() <= old(self).spec_data().len(),
        ensures
            final(self).spec_data() == old(self).spec_data(),
            final(self).spec_pos() <= final(self).spec_data().len(),
            final(self).spec_pos() >= old(self).spec_pos(),
            old(self).spec_eof() ==> r is None,
            !old(self).spec_eof() ==> ({
                let s = old(self).spec_data();
                let start = skip_space(s, old(self).spec_pos() as int);
                let parsed = json_parse(vstd::utf8::encode_utf8(s.subrange(start, value_end(s, start))));
                &&& (r is None <==> start >= s.len())
                &&& r is Some ==> final(self).spec_pos() > old(self).spec_pos()
                &&& start < s.len() && parsed is None ==> r == Some(Err::<Spec, ParseError>(ParseError::InvalidJson))
                &&& start < s.len() && parsed is Some ==> (r matches Some(x) && (x is Ok <==> decl_ok(parsed.unwrap())))
                &&& start < s.len() ==> final(self).spec_pos() == value_end(s, start)
                &&& r matches Some(Ok(_)) ==> !final(self).spec_eof()
                &&& r matches Some(Ok(d)) ==> parsed is Some && declares(parsed.unwrap(), d)
            }),
    {
        match self.next_value() {
            None => None,
            Some(Err(e)) => Some(Err(e)),
            Some(Ok(j)) => Some(Spec::from_json(&j)),
        }
    }
}

/// `v[start..end]`.
fn slice_subrange(v: &[char], start: usize, end: usize) -> (r: &[char])
    requires
        start <= end <= v@.len(),
    ensures
        r@ == v@.subrange(start as int, end as int),
{
    vstd::slice::slice_subrange(v, start, end)
}

} // verus!
