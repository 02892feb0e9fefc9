//! The tracing engine: follows a traced program and decides which files to
//! analyse, in test, threshold and application mode.
use vstd::prelude::*;

pub mod application;
pub mod threshold;
pub mod trigger;
pub mod interceptor;

use crate::command::CommandSpec;
use crate::action::{ActionView, TraceAction};
use crate::fd_table::FdTable;
use crate::record::TraceError;
use application::{application_line, application_line_ok};
use threshold::{threshold_line, threshold_line_ok};

verus! {

/// What the engine traces for.
#[derive(Clone, Copy, Debug, PartialEq, Eq, Structural)]
pub enum TraceMode {
    Test,
    Threshold,
    Application,
}

/// The values that `ent` reports for a file, in the order of its output.
#[derive(Clone, Copy, Debug, PartialEq, Eq, Structural)]
pub enum ValueType {
    FileBytes,
    Entropy,
    ChiSquare,
    Mean,
    MontecarloPi,
    SerialCorrelation,
}

/// How many values `ent` reports.
pub const VALUE_COUNT: usize = 6;

impl ValueType {
    /// The position of the value among those `ent` reports.
    pub open spec fn position(self) -> nat {
        match self {
            ValueType::FileBytes => 0,
            ValueType::Entropy => 1,
            ValueType::ChiSquare => 2,
            ValueType::Mean => 3,
            ValueType::MontecarloPi => 4,
            ValueType::SerialCorrelation => 5,
        }
    }

    /// The position of the value among those `ent` reports.
    pub fn index(self) -> (i: usize)
        ensures
            i == self.position(),
            i < VALUE_COUNT,
    {
        match self {
            ValueType::FileBytes => 0,
            ValueType::Entropy => 1,
            ValueType::ChiSquare => 2,
            ValueType::Mean => 3,
            ValueType::MontecarloPi => 4,
            ValueType::SerialCorrelation => 5,
        }
    }
}

/// The value that decides whether a traced file is encrypted.
pub fn judge_method() -> (v: ValueType)
    ensures
        v == ValueType::SerialCorrelation,
{
    ValueType::SerialCorrelation
}

/// Whether the engine announces the list of files that might not be
/// encrypted before it reads the trace: when it judges files, not when it
/// collects threshold data.
pub fn announces_unencrypted(mode: TraceMode) -> (b: bool)
    ensures
        b == (mode == TraceMode::Application || mode == TraceMode::Test),
{
    match mode {
        TraceMode::Threshold => false,
        _ => true,
    }
}

/// The engine reading one trace: its mode, whether the original data has
/// been measured, and the files each analysis has open.
pub struct Engine {
    pub mode: TraceMode,
    pub once: bool,
    pub application_files: FdTable<String>,
    pub threshold_files: FdTable<String>,
}

/// What one trace line calls for: first measuring the original data
/// (threshold mode, first line only), then the action of the line.
pub struct ExecStep {
    pub run_ent_org: bool,
    pub action: TraceAction,
}

/// The engine in `mode` reads the trace line without stopping.
pub open spec fn engine_line_ok(mode: TraceMode, line: Seq<char>) -> bool {
    if mode == TraceMode::Threshold {
        threshold_line_ok(line)
    } else {
        application_line_ok(line)
    }
}

/// Whether the engine in `mode` reads the trace line without stopping.
pub fn line_readable(mode: TraceMode, line: &str) -> (b: bool)
    ensures
        b == engine_line_ok(mode, line@),
{
    match mode {
        TraceMode::Threshold => threshold::threshold_readable(line),
        _ => application::analysis_readable(line),
    }
}

impl Engine {
    /// An engine in `mode` that has read nothing.
    pub fn new(mode: TraceMode) -> (e: Self)
        ensures
            e.mode == mode,
            !e.once,
            e.application_files@ == Map::<Seq<char>, Seq<char>>::empty(),
            e.threshold_files@ == Map::<Seq<char>, Seq<char>>::empty(),
    {
        Engine {
            mode,
            once: false,
            application_files: FdTable::new(),
            threshold_files: FdTable::new(),
        }
    }

    /// Reads one line of the trace. In threshold mode the original data is
    /// measured before the first line, and lines go to the threshold
    /// analysis; otherwise they go to the application analysis. The engine
    /// stops on a line it cannot read, so the line must be one it reads.
    pub fn exec_line(&mut self, line: &str) -> (s: ExecStep)
        requires
            engine_line_ok(old(self).mode, line@),
        ensures
            final(self).mode == old(self).mode,
            old(self).mode == TraceMode::Threshold ==> {
                &&& s.run_ent_org == !old(self).once
                &&& final(self).once
                &&& final(self).application_files@ == old(self).application_files@
                &&& threshold_line(old(self).threshold_files@, line@) == Ok::<
                    (Map<Seq<char>, Seq<char>>, ActionView),
                    TraceError,
                >((final(self).threshold_files@, s.action@))
            },
            old(self).mode != TraceMode::Threshold ==> {
                &&& !s.run_ent_org
                &&& final(self).once == old(self).once
                &&& final(self).threshold_files@ == old(self).threshold_files@
                &&& application_line(old(self).application_files@, line@) == Ok::<
                    (Map<Seq<char>, Seq<char>>, ActionView),
                    TraceError,
                >((final(self).application_files@, s.action@))
            },
    {
        match self.mode {
            TraceMode::Threshold => {
                let first = !self.once;
                self.once = true;
                let action = threshold::threshold_analysis(line, &mut self.threshold_files);
                ExecStep { run_ent_org: first, action }
            },
            _ => {
                let action = application::analysis(line, &mut self.application_files);
                ExecStep { run_ent_org: false, action }
            },
        }
    }
}

/// The commands that start the generator program for `mode`: those that
/// `trigger::run_trigger` gives for the image `generator`.
pub fn trigger(mode: TraceMode) -> (r: Vec<CommandSpec>)
    requires
        mode != TraceMode::Application,
    ensures
        r@.map_values(|c: CommandSpec| trigger::command_view(c)) == trigger::trigger_commands("generator"@, mode),
        r@.len() == 2,
        r@[0].program_text() == "docker"@,
        r@[0].arg_texts() == seq!["build"@, "-t"@, "generator"@, "."@],
        r@[0].dir_text() == Some(
            if mode == TraceMode::Test {
                "source_files/test"@
            } else {
                "source_files/th"@
            },
        ),
        r@[1].program_text() == "docker"@,
        r@[1].arg_texts() == seq![
            "run"@,
            "-d"@,
            "--rm"@,
            "--device=/dev/sgx_enclave"@,
            "--privileged"@,
            "--network=host"@,
            "generator"@,
        ],
        r@[1].dir_text() is None,
{
    let image_name = "generator".to_owned();
    trigger::run_trigger(image_name, mode)
}

} // verus!
