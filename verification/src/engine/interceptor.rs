//! Starting bpftrace on the traced program: the trace script is the
//! template with the program's name put into its filter.
use vstd::prelude::*;
use crate::command::{owned_texts, texts};
use crate::text::{replace_all, chars_of, replace_all_vec, string_of};
use super::TraceMode;

verus! {

/// The filter that the template's probes start with.
pub open spec fn filter_text() -> Seq<char> {
    "comm==\""@
}

/// A line of the trace script: the template line with the traced program's
/// name put after each filter.
pub open spec fn script_line(line: Seq<char>, target: Seq<char>) -> Seq<char> {
    replace_all(line, filter_text(), filter_text() + target)
}

/// Puts the name of the traced program into a line of the script template.
pub fn create_script_line(line: &str, target: &str) -> (r: String)
    ensures
        r@ == script_line(line@, target@),
{
    let l = chars_of(line);
    let pattern = chars_of("comm==\"");
    let mut replacement = chars_of("comm==\"");
    let t = chars_of(target);
    replacement.extend_from_slice(t.as_slice());
    assert(pattern@ == filter_text());
    assert(replacement@ == filter_text() + target@);
    let out = replace_all_vec(&l, &pattern, &replacement);
    assert(out@ == script_line(line@, target@));
    string_of(&out)
}

/// The file the trace script is written to.
pub open spec fn script_path() -> Seq<char> {
    "build/trace.bt"@
}

/// Where the script is written.
pub fn script_output_path() -> (r: String)
    ensures
        r@ == script_path(),
{
    "build/trace.bt".to_owned()
}

/// The arguments bpftrace runs with: JSON output, and the test script in
/// test mode or the written script otherwise. An application can only be
/// traced by name: tracing stops on an empty name in application mode.
pub fn trace_args(target: &str, mode: TraceMode) -> (r: Vec<String>)
    requires
        !(target@.len() == 0 && mode == TraceMode::Application),
    ensures
        texts(r@) == (if mode == TraceMode::Test {
            seq!["-f"@, "json"@, "source_files/trace_test.bt"@]
        } else {
            seq!["-f"@, "json"@, script_path()]
        }),
{
    match mode {
        TraceMode::Test => owned_texts(&["-f", "json", "source_files/trace_test.bt"]),
        _ => owned_texts(&["-f", "json", "build/trace.bt"]),
    }
}

/// A template line without the filter is copied unchanged.
pub proof fn law_script_line_without_filter(line: Seq<char>, target: Seq<char>)
    requires
        !crate::text::has_substring(line, filter_text()),
    ensures
        script_line(line, target) == line,
{
    crate::text::lemma_replace_all_absent(line, filter_text(), filter_text() + target);
}

} // verus!
