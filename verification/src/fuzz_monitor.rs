//! Checking single buffers of a trace: each record is a system call name
//! and its buffer, and only buffers of ten bytes or more are measured.
use vstd::prelude::*;
use crate::command::texts;
use crate::record::{TraceError, json_data_text, json_data_field, json_array_data_texts, json_array_data};
use crate::text::{splitn_on, splitn_vec, chars_of, string_of, utf8_len, utf8_len_at_least};

verus! {

/// The system call and the buffer of a record text: the text before the
/// first space and the text after it.
pub open spec fn call_parts(data: Seq<char>) -> Option<(Seq<char>, Seq<char>)> {
    let p = splitn_on(data, ' ', 2);
    if p.len() == 2 {
        Some((p[0], p[1]))
    } else {
        None
    }
}

/// Splits a record text into its system call and its buffer.
pub fn split_call(data: &str) -> (r: Option<(String, String)>)
    ensures
        match r {
            Some((a, b)) => call_parts(data@) == Some((a@, b@)),
            None => call_parts(data@) is None,
        },
{
    let v = chars_of(data);
    let mut parts = splitn_vec(&v, ' ', 2);
    if parts.len() != 2 {
        return None;
    }
    let buf = parts.pop().unwrap();
    let call = parts.pop().unwrap();
    Some((string_of(&call), string_of(&buf)))
}

/// Whether a buffer is long enough to be measured: ten bytes or more;
/// shorter ones count as encrypted.
pub fn needs_entropy_check(buf: &str) -> (b: bool)
    ensures
        b == (utf8_len(buf@) >= 10),
{
    let v = chars_of(buf);
    utf8_len_at_least(&v, 10)
}

/// One record of a trace: the system call, its buffer, and whether the
/// buffer is to be measured.
pub struct BufferCheck {
    pub syscall: String,
    pub buf: String,
    pub measure: bool,
}

/// What one trace line gives: its `data` text (kept with its quotes) split
/// into call and buffer.
pub open spec fn fuzz_line(line: Seq<char>) -> Result<(Seq<char>, Seq<char>), TraceError> {
    match json_data_text(line) {
        None => Err(TraceError::InvalidJson),
        Some(d) => match call_parts(d) {
            None => Err(TraceError::ShortRecord),
            Some(p) => Ok(p),
        },
    }
}

/// The records of a trace that could be read, and the error of the first
/// line that could not, if any (the lines after it are not read).
pub struct BufferPlan {
    pub checks: Vec<BufferCheck>,
    pub error: Option<TraceError>,
}

/// `checks` holds what the lines `1..` of `lines` give, in order, up to the
/// first line that is not a record, whose error is `error`.
pub open spec fn buffer_plan_matches(
    lines: Seq<Seq<char>>,
    checks: Seq<BufferCheck>,
    error: Option<TraceError>,
) -> bool {
    &&& forall|k: int|
        0 <= k < checks.len() ==> k + 1 < lines.len() && fuzz_line(#[trigger] lines[k + 1]) == Ok::<
            (Seq<char>, Seq<char>),
            TraceError,
        >((checks[k].syscall@, checks[k].buf@)) && checks[k].measure == (utf8_len(
            checks[k].buf@,
        ) >= 10)
    &&& match error {
        None => lines.len() == 0 || checks.len() == lines.len() - 1,
        Some(e) => checks.len() + 1 < lines.len() && fuzz_line(lines[checks.len() + 1int]) == Err::<
            (Seq<char>, Seq<char>),
            TraceError,
        >(e),
    }
}

/// Reads the lines of a finished trace after its header: the records and
/// which buffers to measure, in order, up to the first line that is not a
/// record.
pub fn analyse(lines: &Vec<String>) -> (r: BufferPlan)
    ensures
        buffer_plan_matches(crate::command::texts(lines@), r.checks@, r.error),
{
    let ghost all = crate::command::texts(lines@);
    let mut out: Vec<BufferCheck> = Vec::new();
    if lines.len() == 0 {
        return BufferPlan { checks: out, error: None };
    }
    let mut i: usize = 1;
    while i < lines.len()
        invariant
            1 <= i <= lines@.len(),
            all == crate::command::texts(lines@),
            out@.len() == i - 1,
            forall|k: int|
                0 <= k < out@.len() ==> k + 1 < all.len() && fuzz_line(#[trigger] all[k + 1]) == Ok::<
                    (Seq<char>, Seq<char>),
                    TraceError,
                >((out@[k].syscall@, out@[k].buf@)) && out@[k].measure == (utf8_len(
                    out@[k].buf@,
                ) >= 10),
        decreases lines@.len() - i,
    {
        assert(all[i as int] == lines@[i as int]@);
        let data = json_data_field(lines[i].as_str());
        match data {
            None => {
                return BufferPlan { checks: out, error: Some(TraceError::InvalidJson) };
            },
            Some(d) => match split_call(d.as_str()) {
                None => {
                    return BufferPlan { checks: out, error: Some(TraceError::ShortRecord) };
                },
                Some((syscall, buf)) => {
                    let measure = needs_entropy_check(buf.as_str());
                    out.push(BufferCheck { syscall, buf, measure });
                },
            },
        }
        i = i + 1;
    }
    BufferPlan { checks: out, error: None }
}

/// The lines joined by a comma and a line break each.
pub open spec fn joined(lines: Seq<Seq<char>>) -> Seq<char>
    decreases lines.len(),
{
    if lines.len() == 0 {
        Seq::empty()
    } else if lines.len() == 1 {
        lines[0]
    } else {
        joined(lines.drop_last()) + ",\n"@ + lines.last()
    }
}

/// The trace lines written as one JSON array: an opening bracket line, the
/// lines separated by commas, and a closing bracket line.
pub open spec fn framed(lines: Seq<Seq<char>>) -> Seq<char> {
    "[\n"@ + joined(lines) + "\n]\n"@
}

/// Rewrites the trace lines, one JSON value each, as one JSON array; a
/// trace without lines has none to frame.
pub fn rewrite_file(lines: &Vec<String>) -> (r: Option<String>)
    ensures
        lines@.len() == 0 ==> r is None,
        lines@.len() > 0 ==> (r matches Some(s) && s@ == framed(texts(lines@))),
{
    if lines.len() == 0 {
        return None;
    }
    let ghost all = texts(lines@);
    let mut body = chars_of(lines[0].as_str());
    assert(all.take(1).len() == 1);
    let mut i: usize = 1;
    while i < lines.len()
        invariant
            1 <= i <= lines@.len(),
            all == texts(lines@),
            body@ == joined(all.take(i as int)),
        decreases lines@.len() - i,
    {
        let sep = chars_of(",\n");
        body.extend_from_slice(sep.as_slice());
        let next = chars_of(lines[i].as_str());
        body.extend_from_slice(next.as_slice());
        assert(all.take(i + 1).drop_last() == all.take(i as int));
        assert(all.take(i + 1).last() == lines@[i as int]@);
        i = i + 1;
    }
    assert(all.take(i as int) == all);
    let mut out = chars_of("[\n");
    out.extend_from_slice(body.as_slice());
    let close = chars_of("\n]\n");
    out.extend_from_slice(close.as_slice());
    Some(string_of(&out))
}

/// The line that records an unencrypted buffer: the call, two spaces, the
/// buffer, and a line break.
pub open spec fn context_line(call: Seq<char>, buf: Seq<char>) -> Seq<char> {
    call + "  "@ + buf + seq!['\n']
}

/// The line that records an unencrypted buffer.
pub fn encrypt_context(call: &str, buf: &str) -> (r: String)
    ensures
        r@ == context_line(call@, buf@),
{
    let mut v = chars_of(call);
    let two = chars_of("  ");
    v.extend_from_slice(two.as_slice());
    let b = chars_of(buf);
    v.extend_from_slice(b.as_slice());
    v.push('\n');
    string_of(&v)
}

/// The `data` texts of an array of trace values can all be sampled: the
/// array is not empty, and each text after the first holds a space.
pub open spec fn samples_ok(data: Seq<Seq<char>>) -> bool {
    &&& data.len() > 0
    &&& forall|k: int| 1 <= k < data.len() ==> (#[trigger] call_parts(data[k])) is Some
}

/// `v` holds the system call and buffer of each text of `data` after the
/// first, in order.
pub open spec fn samples_match(data: Seq<Seq<char>>, v: Seq<(String, String)>) -> bool {
    &&& v.len() == data.len() - 1
    &&& forall|k: int| 0 <= k < v.len() ==> call_parts(#[trigger] data[k + 1]) == Some((v[k].0@, v[k].1@))
}

/// The samples of an array of trace values: the `data` texts of the values
/// after the first (which is the probe header), each split into call and
/// buffer. The analysis stops on an empty array or on a text without a
/// space, so there is none.
pub fn output_analysis(data: &Vec<String>) -> (r: Vec<(String, String)>)
    requires
        samples_ok(texts(data@)),
    ensures
        samples_match(texts(data@), r@),
{
    let ghost d = texts(data@);
    let mut out: Vec<(String, String)> = Vec::new();
    let mut i: usize = 1;
    while i < data.len()
        invariant
            1 <= i <= data@.len(),
            d == texts(data@),
            samples_ok(d),
            out@.len() == i - 1,
            forall|k: int|
                0 <= k < out@.len() ==> call_parts(#[trigger] d[k + 1]) == Some((out@[k].0@, out@[k].1@)),
        decreases data@.len() - i,
    {
        assert(d[i as int] == data@[i as int]@);
        assert(call_parts(d[i as int]) is Some);
        match split_call(data[i].as_str()) {
            Some(p) => out.push(p),
            None => {},
        }
        i = i + 1;
    }
    out
}

/// The samples of the JSON array `text` of trace values, when it is an
/// array whose values can all be sampled.
pub fn output_analysis_text(text: &str) -> (r: Option<Vec<(String, String)>>)
    ensures
        match json_array_data_texts(text@) {
            None => r is None,
            Some(d) => (r is Some <==> samples_ok(d)) && (r matches Some(v) ==> samples_match(d, v@)),
        },
{
    let data = match json_array_data(text) {
        None => return None,
        Some(d) => d,
    };
    let ghost d = texts(data@);
    assert(d =~= data.deep_view());
    if data.len() == 0 {
        return None;
    }
    let mut i: usize = 1;
    while i < data.len()
        invariant
            1 <= i <= data@.len(),
            d == texts(data@),
            json_array_data_texts(text@) == Some(d),
            forall|k: int| 1 <= k < i ==> (#[trigger] call_parts(d[k])) is Some,
        decreases data@.len() - i,
    {
        assert(d[i as int] == data@[i as int]@);
        if split_call(data[i].as_str()).is_none() {
            assert(!samples_ok(d)) by {
                assert(call_parts(d[i as int]) is None);
            }
            return None;
        }
        i = i + 1;
    }
    Some(output_analysis(&data))
}

} // verus!
