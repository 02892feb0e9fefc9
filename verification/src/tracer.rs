//! Starting bpftrace with output to a file: the trace script is the source
//! script with the traced program's name put into its filter by `sed`.
use vstd::prelude::*;
use crate::command::{owned_texts, texts};
use crate::text::{chars_of, string_of};

verus! {

/// The `sed` expression that puts `target` into the empty filter of the
/// source script.
pub open spec fn sed_filter_spec(target: Seq<char>) -> Seq<char> {
    "s/comm==\"\"/comm==\""@ + target + "\"/g"@
}

/// The `sed` expression for the traced program `target`.
pub fn sed_filter(target: &str) -> (r: String)
    ensures
        r@ == sed_filter_spec(target@),
{
    let mut v = chars_of("s/comm==\"\"/comm==\"");
    let t = chars_of(target);
    v.extend_from_slice(t.as_slice());
    let tail = chars_of("\"/g");
    v.extend_from_slice(tail.as_slice());
    string_of(&v)
}

/// The arguments of the `sed` run that writes the trace script.
pub fn sed_args(target: &str) -> (r: Vec<String>)
    ensures
        texts(r@) == seq![sed_filter_spec(target@), "source_files/trace_source.bt"@],
{
    let mut v: Vec<String> = Vec::new();
    v.push(sed_filter(target));
    v.push("source_files/trace_source.bt".to_owned());
    assert(texts(v@) =~= seq![sed_filter_spec(target@), "source_files/trace_source.bt"@]);
    v
}

/// The arguments bpftrace runs the written script with.
pub fn trace_args() -> (r: Vec<String>)
    ensures
        texts(r@) == seq!["-f"@, "json"@, "-o"@, "files/output.json"@, "files/trace.bt"@],
{
    owned_texts(&["-f", "json", "-o", "files/output.json", "files/trace.bt"])
}

/// The arguments bpftrace runs the test script with.
pub fn test_trace_args() -> (r: Vec<String>)
    ensures
        texts(r@) == seq!["-f"@, "json"@, "-o"@, "files/output.json"@, "source_files/test_trace.bt"@],
{
    owned_texts(&["-f", "json", "-o", "files/output.json", "source_files/test_trace.bt"])
}

} // verus!
