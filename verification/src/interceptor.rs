//! Starting bpftrace for a test run or on a named application.
use vstd::prelude::*;
use crate::command::{owned_texts, texts};

verus! {

/// What is traced.
#[derive(Clone, Copy, Debug, PartialEq, Eq, Structural)]
pub enum TraceMode {
    Test,
    Application,
}

/// The file the trace script is written to.
pub fn script_output_path() -> (r: String)
    ensures
        r@ == "files/trace.bt"@,
{
    "files/trace.bt".to_owned()
}

/// The arguments bpftrace runs with: the test script with output to a
/// file, or the written script with output to the pipe.
pub fn trace_args(mode: TraceMode) -> (r: Vec<String>)
    ensures
        mode == TraceMode::Test ==> texts(r@) == seq![
            "-f"@,
            "json"@,
            "-o"@,
            "files/output.json"@,
            "source_files/test_trace.bt"@,
        ],
        mode == TraceMode::Application ==> texts(r@) == seq!["-f"@, "json"@, "files/trace.bt"@],
{
    match mode {
        TraceMode::Test => owned_texts(&["-f", "json", "-o", "files/output.json", "source_files/test_trace.bt"]),
        TraceMode::Application => owned_texts(&["-f", "json", "files/trace.bt"]),
    }
}

} // verus!
