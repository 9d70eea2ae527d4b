//! Formatters turning a task's results and raw bytes into a log record.
//!
//! A [`LogFormatter`] chooses the output type: raw bytes, a structured
//! [`LogRecord`], or a JSON string. Each formatter also declares an idle
//! output, the sentinel broadcast when the scanner drains its queue, and
//! recognises it by equality.

use crate::scanner::results::{ResultMap, ResultPairs};
use crate::utils::text::{push_char, str_eq};
use vstd::prelude::*;
use vstd::utf8::encode_utf8;

verus! {

/// What `String::from_utf8_lossy` decodes a byte sequence to.
pub uninterp spec fn utf8_lossy(bytes: Seq<u8>) -> Seq<char>;

/// Relies on `String::from_utf8_lossy`: the result is a function of the
/// bytes alone, and valid UTF-8 decodes back to the characters that
/// encoded it.
#[verifier::external_body]
pub fn lossy_string(raw_data: &[u8]) -> (r: String)
    ensures
        r@ == utf8_lossy(raw_data@),
        forall|s: Seq<char>| raw_data@ == encode_utf8(s) ==> r@ == s,
{
    String::from_utf8_lossy(raw_data).into_owned()
}

/// The abstract value of a structured log record.
pub struct LogRecordView {
    pub actions_results: ResultPairs,
    pub data: Seq<char>,
}

/// The result-map part of a structured log record.
#[derive(Clone)]
pub struct LogHeader {
    pub actions_results: ResultMap,
}

/// A structured scanner log entry: the result map of the task's actions,
/// and the raw bytes rendered as text.
#[derive(Clone)]
pub struct LogRecord {
    pub header_response: LogHeader,
    pub data: String,
}

impl View for LogRecord {
    type V = LogRecordView;

    open spec fn view(&self) -> LogRecordView {
        LogRecordView {
            actions_results: self.header_response.actions_results@,
            data: self.data@,
        }
    }
}

impl LogRecord {
    /// Whether two records hold the same results and the same text.
    pub fn same_record(&self, other: &LogRecord) -> (r: bool)
        ensures
            r == (self@ == other@),
    {
        let maps_equal = self.header_response.actions_results.same_entries(
            &other.header_response.actions_results,
        );
        if maps_equal && str_eq(self.data.as_str(), other.data.as_str()) {
            proof {
                assert(self@ == other@);
            }
            true
        } else {
            false
        }
    }
}

/// A strategy for formatting scan results.
///
/// `format` turns one task's result map and raw bytes into the output
/// type; `idle_output` is the sentinel published when the scanner runs
/// dry; `is_idle_signal` holds exactly of values equal to the sentinel.
pub trait LogFormatter: Sized {
    type Output: View;

    /// The value `format` returns, as a function of the results and the
    /// bytes.
    spec fn format_view(&self, results: ResultPairs, raw: Seq<u8>) -> <Self::Output as View>::V;

    /// The idle sentinel's value.
    spec fn idle_view(&self) -> <Self::Output as View>::V;

    /// Formats action results and raw network data into the output type.
    fn format(&self, actions_results: ResultMap, raw_data: &[u8]) -> (r: Self::Output)
        ensures
            r@ == self.format_view(actions_results@, raw_data@),
    ;

    /// Returns the formatter's representation of an idle event.
    fn idle_output(&self) -> (r: Self::Output)
        ensures
            r@ == self.idle_view(),
    ;

    /// Whether `output` is the idle sentinel: true exactly of values
    /// equal to `idle_output()`.
    fn is_idle_signal(&self, output: &Self::Output) -> (r: bool)
        ensures
            r == (output@ == self.idle_view()),
    ;
}

/// Formatter that returns scan results as the raw bytes themselves.
pub struct RawFormatter;

/// The idle sentinel of the raw formatter, as bytes.
pub open spec fn raw_idle_bytes() -> Seq<u8> {
    seq![0x5Fu8, 0x5F, 0x5F, 0x49, 0x44, 0x4C, 0x45, 0x5F, 0x5F, 0x5F]
}

impl LogFormatter for RawFormatter {
    type Output = Vec<u8>;

    open spec fn format_view(&self, results: ResultPairs, raw: Seq<u8>) -> Seq<u8> {
        raw
    }

    open spec fn idle_view(&self) -> Seq<u8> {
        raw_idle_bytes()
    }

    fn format(&self, actions_results: ResultMap, raw_data: &[u8]) -> (r: Vec<u8>) {
        vstd::slice::slice_to_vec(raw_data)
    }

    fn idle_output(&self) -> (r: Vec<u8>) {
        let mut out: Vec<u8> = Vec::new();
        out.push(0x5F);
        out.push(0x5F);
        out.push(0x5F);
        out.push(0x49);
        out.push(0x44);
        out.push(0x4C);
        out.push(0x45);
        out.push(0x5F);
        out.push(0x5F);
        out.push(0x5F);
        proof {
            assert(out@ =~= raw_idle_bytes());
        }
        out
    }

    fn is_idle_signal(&self, output: &Vec<u8>) -> (r: bool) {
        let idle = self.idle_output();
        if output.len() != idle.len() {
            proof {
                assert(output@ != raw_idle_bytes());
            }
            return false;
        }
        let n = output.len();
        let mut i: usize = 0;
        while i < n
            invariant
                i <= n,
                n == output@.len(),
                n == idle@.len(),
                idle@ == raw_idle_bytes(),
                forall|j: int| 0 <= j < i ==> output@[j] == idle@[j],
            decreases n - i,
        {
            if output[i] != idle[i] {
                return false;
            }
            i = i + 1;
        }
        proof {
            assert(output@ =~= raw_idle_bytes());
        }
        true
    }
}

impl Default for RawFormatter {
    fn default() -> (r: Self)
        ensures
            r == RawFormatter,
    {
        RawFormatter
    }
}

/// Formatter that produces structured [`LogRecord`] values.
pub struct StructuredFormatter;

/// The structured idle sentinel: an empty result map and the text
/// `idle`.
pub open spec fn structured_idle_view() -> LogRecordView {
    LogRecordView { actions_results: Seq::empty(), data: "idle"@ }
}

impl LogFormatter for StructuredFormatter {
    type Output = LogRecord;

    open spec fn format_view(&self, results: ResultPairs, raw: Seq<u8>) -> LogRecordView {
        LogRecordView { actions_results: results, data: utf8_lossy(raw) }
    }

    open spec fn idle_view(&self) -> LogRecordView {
        structured_idle_view()
    }

    fn format(&self, actions_results: ResultMap, raw_data: &[u8]) -> (r: LogRecord) {
        LogRecord {
            header_response: LogHeader { actions_results },
            data: lossy_string(raw_data),
        }
    }

    fn idle_output(&self) -> (r: LogRecord) {
        let r = LogRecord {
            header_response: LogHeader { actions_results: ResultMap::new() },
            data: String::from_str("idle"),
        };
        proof {
            assert(r@.actions_results =~= Seq::<(Seq<char>, Seq<char>)>::empty());
        }
        r
    }

    fn is_idle_signal(&self, output: &LogRecord) -> (r: bool) {
        let empty_map = output.header_response.actions_results.len() == 0;
        if empty_map && str_eq(output.data.as_str(), "idle") {
            proof {
                assert(output@.actions_results =~= Seq::<(Seq<char>, Seq<char>)>::empty());
            }
            true
        } else {
            false
        }
    }
}

impl Default for StructuredFormatter {
    fn default() -> (r: Self)
        ensures
            r == StructuredFormatter,
    {
        StructuredFormatter
    }
}

/// Formatter that serialises structured records into JSON text.
pub struct JsonFormatter;

/// The lower-case hexadecimal digit for `d`.
pub open spec fn hex_digit_char(d: int) -> char
    recommends
        0 <= d < 16,
{
    if d == 0 {
        '0'
    } else if d == 1 {
        '1'
    } else if d == 2 {
        '2'
    } else if d == 3 {
        '3'
    } else if d == 4 {
        '4'
    } else if d == 5 {
        '5'
    } else if d == 6 {
        '6'
    } else if d == 7 {
        '7'
    } else if d == 8 {
        '8'
    } else if d == 9 {
        '9'
    } else if d == 10 {
        'a'
    } else if d == 11 {
        'b'
    } else if d == 12 {
        'c'
    } else if d == 13 {
        'd'
    } else if d == 14 {
        'e'
    } else {
        'f'
    }
}

/// How one character is written inside a JSON string: quote and
/// backslash escaped, the named control characters short-escaped, other
/// control characters as a four-digit escape, everything else as itself.
pub open spec fn json_escape_char(c: char) -> Seq<char> {
    if c == '"' {
        seq!['\\', '"']
    } else if c == '\\' {
        seq!['\\', '\\']
    } else if c == '\u{8}' {
        seq!['\\', 'b']
    } else if c == '\t' {
        seq!['\\', 't']
    } else if c == '\n' {
        seq!['\\', 'n']
    } else if c == '\u{c}' {
        seq!['\\', 'f']
    } else if c == '\r' {
        seq!['\\', 'r']
    } else if (c as u32) < 0x20 {
        seq![
            '\\',
            'u',
            '0',
            '0',
            hex_digit_char((c as u32 / 16) as int),
            hex_digit_char((c as u32 % 16) as int),
        ]
    } else {
        seq![c]
    }
}

/// A whole text written inside a JSON string.
pub open spec fn json_escape(s: Seq<char>) -> Seq<char>
    decreases s.len(),
{
    if s.len() == 0 {
        Seq::empty()
    } else {
        json_escape(s.drop_last()) + json_escape_char(s.last())
    }
}

/// One result entry as a JSON member: `"key":"value"`.
pub open spec fn json_pair(p: (Seq<char>, Seq<char>)) -> Seq<char> {
    seq!['"'] + json_escape(p.0) + seq!['"', ':', '"'] + json_escape(p.1) + seq!['"']
}

/// The result entries as JSON members separated by commas.
pub open spec fn json_pairs(ps: ResultPairs) -> Seq<char>
    decreases ps.len(),
{
    if ps.len() == 0 {
        Seq::empty()
    } else if ps.len() == 1 {
        json_pair(ps[0])
    } else {
        json_pairs(ps.drop_last()) + seq![','] + json_pair(ps.last())
    }
}

/// A whole record as JSON: the result map under
/// `header_response.actions_results`, the rendered bytes under `data`.
pub open spec fn json_record_of(ps: ResultPairs, data: Seq<char>) -> Seq<char> {
    "{\"header_response\":{\"actions_results\":{"@ + json_pairs(ps) + "}},\"data\":\""@
        + json_escape(data) + "\"}"@
}

/// The JSON idle sentinel.
pub open spec fn json_idle_text() -> Seq<char> {
    "{\"type\":\"idle\"}"@
}

/// Appends the escaped form of one character.
fn push_escaped(out: &mut String, c: char)
    ensures
        final(out)@ == old(out)@ + json_escape_char(c),
{
    let cu = c as u32;
    if c == '"' {
        push_char(out, '\\');
        push_char(out, '"');
        assert(final(out)@ =~= old(out)@ + json_escape_char(c));
    } else if c == '\\' {
        push_char(out, '\\');
        push_char(out, '\\');
        assert(final(out)@ =~= old(out)@ + json_escape_char(c));
    } else if c == '\u{8}' {
        push_char(out, '\\');
        push_char(out, 'b');
        assert(final(out)@ =~= old(out)@ + json_escape_char(c));
    } else if c == '\t' {
        push_char(out, '\\');
        push_char(out, 't');
        assert(final(out)@ =~= old(out)@ + json_escape_char(c));
    } else if c == '\n' {
        push_char(out, '\\');
        push_char(out, 'n');
        assert(final(out)@ =~= old(out)@ + json_escape_char(c));
    } else if c == '\u{c}' {
        push_char(out, '\\');
        push_char(out, 'f');
        assert(final(out)@ =~= old(out)@ + json_escape_char(c));
    } else if c == '\r' {
        push_char(out, '\\');
        push_char(out, 'r');
        assert(final(out)@ =~= old(out)@ + json_escape_char(c));
    } else if cu < 0x20 {
        push_char(out, '\\');
        push_char(out, 'u');
        push_char(out, '0');
        push_char(out, '0');
        push_char(out, hex_digit(cu / 16));
        push_char(out, hex_digit(cu % 16));
        assert(final(out)@ =~= old(out)@ + json_escape_char(c));
    } else {
        push_char(out, c);
        assert(final(out)@ =~= old(out)@ + json_escape_char(c));
    }
}

/// The lower-case hexadecimal digit for `d`.
fn hex_digit(d: u32) -> (r: char)
    requires
        d < 16,
    ensures
        r == hex_digit_char(d as int),
{
    if d == 0 {
        '0'
    } else if d == 1 {
        '1'
    } else if d == 2 {
        '2'
    } else if d == 3 {
        '3'
    } else if d == 4 {
        '4'
    } else if d == 5 {
        '5'
    } else if d == 6 {
        '6'
    } else if d == 7 {
        '7'
    } else if d == 8 {
        '8'
    } else if d == 9 {
        '9'
    } else if d == 10 {
        'a'
    } else if d == 11 {
        'b'
    } else if d == 12 {
        'c'
    } else if d == 13 {
        'd'
    } else if d == 14 {
        'e'
    } else {
        'f'
    }
}

/// Appends a whole text in its escaped JSON form.
fn push_json_escaped(out: &mut String, s: &str)
    ensures
        final(out)@ == old(out)@ + json_escape(s@),
{
    let n = s.unicode_len();
    let mut i: usize = 0;
    while i < n
        invariant
            i <= n,
            n == s@.len(),
            out@ == old(out)@ + json_escape(s@.take(i as int)),
        decreases n - i,
    {
        let c = s.get_char(i);
        push_escaped(out, c);
        proof {
            assert(s@.take(i + 1).drop_last() =~= s@.take(i as int));
            assert(s@.take(i + 1).last() == s@[i as int]);
        }
        i = i + 1;
    }
    proof {
        assert(s@.take(n as int) =~= s@);
    }
}

impl LogFormatter for JsonFormatter {
    type Output = String;

    open spec fn format_view(&self, results: ResultPairs, raw: Seq<u8>) -> Seq<char> {
        json_record_of(results, utf8_lossy(raw))
    }

    open spec fn idle_view(&self) -> Seq<char> {
        json_idle_text()
    }

    fn format(&self, actions_results: ResultMap, raw_data: &[u8]) -> (r: String) {
        let mut out = String::from_str("{\"header_response\":{\"actions_results\":{");
        let entries = actions_results.entries();
        let n = entries.len();
        let ghost ps = actions_results@;
        let mut i: usize = 0;
        while i < n
            invariant
                i <= n,
                n == entries@.len(),
                ps == entries@.map_values(
                    |p: (String, String)| crate::scanner::results::pair_view(p),
                ),
                out@ == "{\"header_response\":{\"actions_results\":{"@ + json_pairs(
                    ps.take(i as int),
                ),
            decreases n - i,
        {
            if i > 0 {
                push_char(&mut out, ',');
            }
            push_char(&mut out, '"');
            push_json_escaped(&mut out, entries[i].0.as_str());
            push_char(&mut out, '"');
            push_char(&mut out, ':');
            push_char(&mut out, '"');
            push_json_escaped(&mut out, entries[i].1.as_str());
            push_char(&mut out, '"');
            proof {
                assert(ps[i as int] == crate::scanner::results::pair_view(entries@[i as int]));
                assert(ps.take(i + 1).drop_last() =~= ps.take(i as int));
                assert(ps.take(i + 1).last() == ps[i as int]);
                if i > 0 {
                    assert(ps.take(i + 1).len() > 1);
                }
                assert(out@ =~= "{\"header_response\":{\"actions_results\":{"@ + json_pairs(
                    ps.take(i + 1),
                ));
            }
            i = i + 1;
        }
        proof {
            assert(ps.take(n as int) =~= ps);
        }
        out.append("}},\"data\":\"");
        let data = lossy_string(raw_data);
        push_json_escaped(&mut out, data.as_str());
        out.append("\"}");
        proof {
            assert(out@ =~= json_record_of(ps, utf8_lossy(raw_data@)));
        }
        out
    }

    fn idle_output(&self) -> (r: String) {
        String::from_str("{\"type\":\"idle\"}")
    }

    fn is_idle_signal(&self, output: &String) -> (r: bool) {
        str_eq(output.as_str(), "{\"type\":\"idle\"}")
    }
}

impl Default for JsonFormatter {
    fn default() -> (r: Self)
        ensures
            r == JsonFormatter,
    {
        JsonFormatter
    }
}

} // verus!
