//! Traced system-call records: the JSON line bpftrace prints, the `data`
//! text inside it, and the four space-separated fields of that text.
use vstd::prelude::*;
use crate::text::{chars_of, splitn_on, splitn_vec, lemma_splitn_on_len};

verus! {

/// Why a trace line could not be processed.
#[derive(Clone, Copy, Debug, PartialEq, Eq, Structural)]
pub enum TraceError {
    /// The line is not JSON.
    InvalidJson,
    /// The `data` text is too short to lose its enclosing quotes, or does not
    /// end in an ASCII character.
    ShortData,
    /// The record has fewer fields than the analysis reads.
    ShortRecord,
    /// The length field is not a number of the expected type.
    InvalidLength,
    /// A byte offset into a path falls inside a character.
    NotCharBoundary,
    /// A counter would leave the range it is written in.
    CounterOverflow,
}

/// The compact JSON text of the `data` member of the JSON value that `line`
/// holds (`null` when the member is missing), or `None` when `line` is not
/// JSON.
pub uninterp spec fn json_data_text(line: Seq<char>) -> Option<Seq<char>>;

/// Trusted: `serde_json::from_str::<serde_json::Value>` on the line, then
/// indexing the value with `"data"` and writing it with `to_string`.
/// The contract names the result (`json_data_text`) and states nothing more
/// of it: what the JSON text of a value is stays with serde_json.
#[verifier::external_body]
pub(crate) fn json_data_field(line: &str) -> (r: Option<String>)
    ensures
        r.deep_view() == json_data_text(line@),
{
    match serde_json::from_str::<serde_json::Value>(line) {
        Ok(v) => Some(v["data"].to_string()),
        Err(_) => None,
    }
}

/// The compact JSON texts of the `data` members of the elements of the JSON
/// array that `text` holds (`null` for an element without one), or `None`
/// when `text` is not JSON or not an array.
pub uninterp spec fn json_array_data_texts(text: Seq<char>) -> Option<Seq<Seq<char>>>;

/// Trusted: `serde_json::from_str::<serde_json::Value>` on the text; for an
/// array, each element indexed with `"data"` and written with `to_string`,
/// in order. The contract names the result (`json_array_data_texts`) and
/// states nothing more of it.
#[verifier::external_body]
pub(crate) fn json_array_data(text: &str) -> (r: Option<Vec<String>>)
    ensures
        r.deep_view() == json_array_data_texts(text@),
{
    match serde_json::from_str::<serde_json::Value>(text) {
        Ok(serde_json::Value::Array(a)) => Some(a.iter().map(|v| v["data"].to_string()).collect()),
        _ => None,
    }
}

/// The text between the first and the last character of `d`: present when
/// `d` has at least two characters and its last one is ASCII, as dropping
/// them with `String::remove` at the first and at the last byte requires.
pub open spec fn strip_outer_spec(d: Seq<char>) -> Option<Seq<char>> {
    if d.len() >= 2 && (d.last() as u32) < 128 {
        Some(d.subrange(1, d.len() - 1))
    } else {
        None
    }
}

/// The `data` text of a line whose JSON reading is `d`, without its
/// enclosing quotes.
pub open spec fn decoded_data(d: Option<Seq<char>>) -> Result<Seq<char>, TraceError> {
    match d {
        None => Err(TraceError::InvalidJson),
        Some(text) => match strip_outer_spec(text) {
            None => Err(TraceError::ShortData),
            Some(inner) => Ok(inner),
        },
    }
}

/// Drops the first and the last character of `d`.
pub fn strip_outer(d: &Vec<char>) -> (r: Option<Vec<char>>)
    ensures
        match r {
            Some(v) => strip_outer_spec(d@) == Some(v@),
            None => strip_outer_spec(d@) is None,
        },
{
    let n = d.len();
    if n < 2 || (d[n - 1] as u32) >= 128 {
        return None;
    }
    let mut r: Vec<char> = Vec::new();
    let mut i: usize = 1;
    while i < n - 1
        invariant
            n == d@.len(),
            1 <= i <= n - 1,
            r@ == d@.subrange(1, i as int),
        decreases n - 1 - i,
    {
        r.push(d[i]);
        assert(d@.subrange(1, i + 1) == d@.subrange(1, i as int).push(d@[i as int]));
        i = i + 1;
    }
    Some(r)
}

/// Decodes the `data` text that the JSON reading `d` of a line gives.
pub fn decode_data(d: Option<String>) -> (r: Result<Vec<char>, TraceError>)
    ensures
        match (r, decoded_data(d.deep_view())) {
            (Ok(v), Ok(s)) => v@ == s,
            (Err(e), Err(f)) => e == f,
            _ => false,
        },
{
    match d {
        None => Err(TraceError::InvalidJson),
        Some(text) => {
            let v = chars_of(text.as_str());
            match strip_outer(&v) {
                None => Err(TraceError::ShortData),
                Some(inner) => Ok(inner),
            }
        },
    }
}

/// Whether two texts are equal.
pub fn same_text(a: &Vec<char>, b: &Vec<char>) -> (r: bool)
    ensures
        r == (a@ == b@),
{
    if a.len() != b.len() {
        return false;
    }
    let mut i: usize = 0;
    while i < a.len()
        invariant
            a@.len() == b@.len(),
            i <= a@.len(),
            forall|k: int| 0 <= k < i ==> a@[k] == b@[k],
        decreases a@.len() - i,
    {
        if a[i] != b[i] {
            return false;
        }
        i = i + 1;
    }
    assert(a@ =~= b@);
    true
}

/// Whether the text `a` is the literal `w`.
pub fn is_word(a: &Vec<char>, w: &str) -> (r: bool)
    ensures
        r == (a@ == w@),
{
    let wv = chars_of(w);
    same_text(a, &wv)
}

/// `dir`, a slash, and `name`.
pub open spec fn join_path(dir: Seq<char>, name: Seq<char>) -> Seq<char> {
    dir + seq!['/'] + name
}

/// The text `dir`, a slash, and `name`.
pub fn join_path_vec(dir: &str, name: &Vec<char>) -> (r: Vec<char>)
    ensures
        r@ == join_path(dir@, name@),
{
    let mut r = chars_of(dir);
    r.push('/');
    r.extend_from_slice(name.as_slice());
    r
}

/// The four fields of a record text, present when it has at least three
/// spaces: the first three spaces separate, the last field keeps the rest.
pub open spec fn record_fields(data: Seq<char>) -> Option<Seq<Seq<char>>> {
    let p = splitn_on(data, ' ', 4);
    if p.len() == 4 {
        Some(p)
    } else {
        None
    }
}

/// The fields of a record as texts.
pub struct RecordFields {
    pub syscall: Vec<char>,
    pub arg1: Vec<char>,
    pub arg2: Vec<char>,
    pub arg3: Vec<char>,
}

/// Splits a record text into its four fields.
pub fn split_record(data: &Vec<char>) -> (r: Option<RecordFields>)
    ensures
        match r {
            Some(f) => record_fields(data@) == Some(seq![f.syscall@, f.arg1@, f.arg2@, f.arg3@]),
            None => record_fields(data@) is None,
        },
{
    let mut parts = splitn_vec(data, ' ', 4);
    if parts.len() != 4 {
        return None;
    }
    let ghost p = splitn_on(data@, ' ', 4);
    let arg3 = parts.pop().unwrap();
    let arg2 = parts.pop().unwrap();
    let arg1 = parts.pop().unwrap();
    let syscall = parts.pop().unwrap();
    assert(p =~= seq![syscall@, arg1@, arg2@, arg3@]);
    Some(RecordFields { syscall, arg1, arg2, arg3 })
}

/// A text without `sep` splits into itself.
pub proof fn lemma_splitn_no_sep(x: Seq<char>, sep: char, n: nat)
    requires
        n >= 1,
        !x.contains(sep),
    ensures
        splitn_on(x, sep, n) == seq![x],
    decreases x.len(),
{
    if x.len() > 0 {
        assert(!x.drop_last().contains(sep)) by {
            if x.drop_last().contains(sep) {
                let i = choose|i: int| 0 <= i < x.drop_last().len() && x.drop_last()[i] == sep;
                assert(x[i] == sep);
            }
        }
        lemma_splitn_no_sep(x.drop_last(), sep, n);
        assert(x.last() != sep);
        assert(x.drop_last().push(x.last()) == x);
        assert(seq![x.drop_last()].update(0, x.drop_last().push(x.last())) =~= seq![x]);
    } else {
        assert(x =~= Seq::<char>::empty());
    }
}

/// A leading field followed by `sep` splits off as the first piece.
pub proof fn lemma_splitn_head(x: Seq<char>, y: Seq<char>, sep: char, n: nat)
    requires
        n >= 2,
        !x.contains(sep),
    ensures
        splitn_on(x + seq![sep] + y, sep, n) == seq![x] + splitn_on(y, sep, (n - 1) as nat),
    decreases y.len(),
{
    let whole = x + seq![sep] + y;
    if y.len() == 0 {
        assert(whole.drop_last() == x);
        lemma_splitn_no_sep(x, sep, n);
        assert(splitn_on(y, sep, (n - 1) as nat) == seq![Seq::<char>::empty()]);
        assert(seq![x].push(Seq::<char>::empty()) == seq![x] + seq![Seq::<char>::empty()]);
    } else {
        let y0 = y.drop_last();
        assert(whole.drop_last() == x + seq![sep] + y0);
        lemma_splitn_head(x, y0, sep, n);
        lemma_splitn_on_len(y0, sep, (n - 1) as nat);
        let q = splitn_on(y0, sep, (n - 1) as nat);
        let p = seq![x] + q;
        assert(whole.last() == y.last());
        if y.last() == sep && q.len() < n - 1 {
            assert(p.push(Seq::<char>::empty()) == seq![x] + q.push(Seq::<char>::empty()));
        } else {
            assert(p.update(p.len() - 1, p.last().push(y.last())) == seq![x] + q.update(
                q.len() - 1,
                q.last().push(y.last()),
            ));
        }
    }
}

/// A record written as its four fields separated by spaces, the first three
/// without spaces, reads back as those fields.
pub proof fn law_record_fields_read_back(sc: Seq<char>, a1: Seq<char>, a2: Seq<char>, a3: Seq<char>)
    requires
        !sc.contains(' '),
        !a1.contains(' '),
        !a2.contains(' '),
    ensures
        record_fields(sc + seq![' '] + a1 + seq![' '] + a2 + seq![' '] + a3) == Some(
            seq![sc, a1, a2, a3],
        ),
{
    let t3 = a2 + seq![' '] + a3;
    let t2 = a1 + seq![' '] + t3;
    let t1 = sc + seq![' '] + t2;
    assert(sc + seq![' '] + a1 + seq![' '] + a2 + seq![' '] + a3 == t1);
    lemma_splitn_head(sc, t2, ' ', 4);
    lemma_splitn_head(a1, t3, ' ', 3);
    lemma_splitn_head(a2, a3, ' ', 2);
    lemma_splitn_on_len(a3, ' ', 1);
    assert(splitn_on(a3, ' ', 1) == seq![a3]) by {
        lemma_splitn_one(a3, ' ');
    }
    assert(splitn_on(t1, ' ', 4) == seq![sc, a1, a2, a3]);
}

/// With a limit of one piece, nothing splits.
pub proof fn lemma_splitn_one(x: Seq<char>, sep: char)
    ensures
        splitn_on(x, sep, 1) == seq![x],
    decreases x.len(),
{
    if x.len() > 0 {
        lemma_splitn_one(x.drop_last(), sep);
        assert(x.drop_last().push(x.last()) == x);
        assert(seq![x.drop_last()].update(0, x.drop_last().push(x.last())) =~= seq![x]);
    } else {
        assert(x =~= Seq::<char>::empty());
    }
}

} // verus!
