//! Judging the buffers of each traced file against a chosen `ent` value
//! and threshold: the descriptor of each opened file leads to its buffer
//! file, and closing it calls for the evaluation.
use vstd::prelude::*;
use crate::action::{LineReading, read_trace, ActionView, TraceAction, step_matches, after_header, TracePlan, plan_matches, action_views};
use crate::command::texts;
use crate::fd_table::FdTable;
use crate::monitor::out_dir;
use crate::record::{
    TraceError, decoded_data, record_fields, join_path, decode_data, split_record,
    RecordFields, is_word, join_path_vec,
};
use crate::text::{replace_char, string_of, replace_char_vec, chars_of};

verus! {

/// The buffer file of the traced path `name`: the system call, an
/// underscore, and the path with its slashes turned into underscores.
pub open spec fn evaluated_file(name: Seq<char>) -> Seq<char> {
    join_path(out_dir(), "open"@ + "_"@ + replace_char(name, '/', '_'))
}

/// One record `f` applied to the table `t` of traced path and buffer file
/// per descriptor. An opened file is keyed by the returned descriptor.
pub open spec fn encryption_record_step(
    t: Map<Seq<char>, (Seq<char>, Seq<char>)>,
    f: Seq<Seq<char>>,
) -> (Map<Seq<char>, (Seq<char>, Seq<char>)>, ActionView) {
    let sc = f[0];
    let fd = f[1];
    let ret = f[2];
    let arg = f[3];
    if sc == "open"@ {
        (t.insert(ret, (arg, evaluated_file(arg))), ActionView::Record)
    } else if sc == "close"@ {
        if t.contains_key(fd) {
            (t.remove(fd), ActionView::Evaluate { name: t[fd].0, path: t[fd].1 })
        } else {
            (t, ActionView::Record)
        }
    } else if t.contains_key(fd) {
        (t, ActionView::Append { path: t[fd].1, data: arg })
    } else {
        (t, ActionView::Record)
    }
}

/// A line whose JSON reading is `d` applied to `t`; every line must be a
/// full record.
pub open spec fn encryption_step(t: Map<Seq<char>, (Seq<char>, Seq<char>)>, d: Option<Seq<char>>) -> Result<
    (Map<Seq<char>, (Seq<char>, Seq<char>)>, ActionView),
    TraceError,
> {
    match decoded_data(d) {
        Err(e) => Err(e),
        Ok(data) => match record_fields(data) {
            None => Err(TraceError::ShortRecord),
            Some(f) => Ok(encryption_record_step(t, f)),
        },
    }
}

/// Applies one record to the table.
fn encryption_record(f: &RecordFields, opened: &mut FdTable<(String, String)>) -> (a: TraceAction)
    ensures
        (final(opened)@, a@) == encryption_record_step(
            old(opened)@,
            seq![f.syscall@, f.arg1@, f.arg2@, f.arg3@],
        ),
{
    let ghost fs = seq![f.syscall@, f.arg1@, f.arg2@, f.arg3@];
    assert(fs[0] == f.syscall@ && fs[1] == f.arg1@ && fs[2] == f.arg2@ && fs[3] == f.arg3@);
    if is_word(&f.syscall, "open") {
        let mut file = chars_of("open_");
        let escaped = replace_char_vec(&f.arg3, '/', '_');
        file.extend_from_slice(escaped.as_slice());
        let path = join_path_vec("outfiles", &file);
        proof {
            reveal_strlit("open_");
            reveal_strlit("open");
            reveal_strlit("_");
            assert("open_"@ =~= "open"@ + "_"@);
        }
        assert(path@ == evaluated_file(f.arg3@));
        opened.insert(string_of(&f.arg2), (string_of(&f.arg3), string_of(&path)));
        TraceAction::Record
    } else if is_word(&f.syscall, "close") {
        match opened.remove(&string_of(&f.arg1)) {
            Some(paths) => {
                assert(opened@ == old(opened)@.remove(f.arg1@));
                TraceAction::Evaluate { name: paths.0, path: paths.1 }
            },
            None => {
                assert(opened@ == old(opened)@);
                TraceAction::Record
            },
        }
    } else {
        match opened.get(&string_of(&f.arg1)) {
            Some(paths) => {
                assert(opened@ == old(opened)@);
                TraceAction::Append { path: paths.1.clone(), data: string_of(&f.arg3) }
            },
            None => {
                assert(opened@ == old(opened)@);
                TraceAction::Record
            },
        }
    }
}

/// Applies the line whose JSON reading is `data` to the table.
pub fn encryption_data(data: Option<String>, opened: &mut FdTable<(String, String)>) -> (r: Result<
    TraceAction,
    TraceError,
>)
    ensures
        step_matches(r, old(opened)@, final(opened)@, encryption_step(old(opened)@, data.deep_view())),
{
    let text = match decode_data(data) {
        Err(e) => return Err(e),
        Ok(t) => t,
    };
    match split_record(&text) {
        None => Err(TraceError::ShortRecord),
        Some(f) => Ok(encryption_record(&f, opened)),
    }
}

/// The evaluation of the files of a trace.
pub struct Evaluation;

impl LineReading for Evaluation {
    type Entry = (String, String);

    open spec fn step(t: Map<Seq<char>, (Seq<char>, Seq<char>)>, d: Option<Seq<char>>) -> Result<(Map<Seq<char>, (Seq<char>, Seq<char>)>, ActionView), TraceError> {
        encryption_step(t, d)
    }

    fn apply(data: Option<String>, table: &mut FdTable<(String, String)>) -> (r: Result<TraceAction, TraceError>) {
        encryption_data(data, table)
    }
}

/// Reads a finished trace, whose first line is the probe header: the
/// actions that write each buffer into the file of its descriptor and
/// evaluate a file when its descriptor closes, in trace order; or the error
/// of the first malformed line.
pub fn encryption_analysis(lines: &Vec<String>) -> (r: TracePlan)
    ensures
        plan_matches(
            |t: Map<Seq<char>, (Seq<char>, Seq<char>)>, d: Option<Seq<char>>| encryption_step(t, d),
            Map::empty(),
            after_header(texts(lines@)),
            action_views(r.actions@),
            r.error,
        ),
{
    let r = read_trace::<Evaluation>(lines);
    assert((|t: Map<Seq<char>, (Seq<char>, Seq<char>)>, d: Option<Seq<char>>| Evaluation::step(t, d)) =~= (|t: Map<Seq<char>, (Seq<char>, Seq<char>)>, d: Option<Seq<char>>| encryption_step(t, d)));
    r
}

/// The `ent` value a file is judged by.
#[derive(Clone, Copy, Debug, PartialEq, Eq, Structural)]
pub enum Metric {
    Mean,
    Entropy,
    ChiSquare,
    MonteCarlo,
    SerialCorrelation,
}

impl Metric {
    /// The column of the value in a line of `ent -t` output.
    pub open spec fn column_spec(self) -> nat {
        match self {
            Metric::Mean => 4,
            Metric::Entropy => 2,
            Metric::ChiSquare => 3,
            Metric::MonteCarlo => 5,
            Metric::SerialCorrelation => 6,
        }
    }

    /// The column of the value in a line of `ent -t` output, whose header
    /// reads `0,File-bytes,Entropy,Chi-square,Mean,Monte-Carlo-Pi,Serial-Correlation`.
    pub fn column(self) -> (c: usize)
        ensures
            c == self.column_spec(),
            self == Metric::Entropy ==> c == 2,
            self == Metric::ChiSquare ==> c == 3,
            self == Metric::Mean ==> c == 4,
            self == Metric::MonteCarlo ==> c == 5,
            self == Metric::SerialCorrelation ==> c == 6,
    {
        match self {
            Metric::Mean => 4,
            Metric::Entropy => 2,
            Metric::ChiSquare => 3,
            Metric::MonteCarlo => 5,
            Metric::SerialCorrelation => 6,
        }
    }
}

/// The fields of the header line of `ent -t` output.
pub open spec fn ent_header() -> Seq<Seq<char>> {
    seq!["0"@, "File-bytes"@, "Entropy"@, "Chi-square"@, "Mean"@, "Monte-Carlo-Pi"@, "Serial-Correlation"@]
}

/// Each metric is read from the column that the `ent -t` header names after
/// it, and no two metrics share a column.
pub proof fn law_metric_columns(m1: Metric, m2: Metric)
    ensures
        m1 != m2 ==> m1.column_spec() != m2.column_spec(),
        m1.column_spec() < ent_header().len(),
        ent_header()[m1.column_spec() as int] == match m1 {
            Metric::Mean => "Mean"@,
            Metric::Entropy => "Entropy"@,
            Metric::ChiSquare => "Chi-square"@,
            Metric::MonteCarlo => "Monte-Carlo-Pi"@,
            Metric::SerialCorrelation => "Serial-Correlation"@,
        },
{
}

/// How a value must relate to the threshold for the file to count as
/// encrypted.
#[derive(Clone, Copy, Debug, PartialEq, Eq, Structural)]
pub enum Comparison {
    Greater,
    NotEqual,
    Less,
}

/// The metric a method name stands for.
pub open spec fn metric_named(method: Seq<char>) -> Option<Metric> {
    if method == "MEAN"@ {
        Some(Metric::Mean)
    } else if method == "ENTROPY"@ {
        Some(Metric::Entropy)
    } else if method == "CHI_SQUARE"@ {
        Some(Metric::ChiSquare)
    } else if method == "MONTE_CARLO"@ {
        Some(Metric::MonteCarlo)
    } else if method == "SERIAL_CORRELATION"@ {
        Some(Metric::SerialCorrelation)
    } else {
        None
    }
}

/// The comparison a comparison name stands for.
pub open spec fn comparison_named(compare: Seq<char>) -> Option<Comparison> {
    if compare == "G"@ {
        Some(Comparison::Greater)
    } else if compare == "NE"@ {
        Some(Comparison::NotEqual)
    } else if compare == "L"@ {
        Some(Comparison::Less)
    } else {
        None
    }
}

/// The metric the method name stands for, if it names one (names are
/// matched exactly, case included).
pub fn metric_of(method: &str) -> (r: Option<Metric>)
    ensures
        r == metric_named(method@),
{
    let m = chars_of(method);
    if is_word(&m, "MEAN") {
        Some(Metric::Mean)
    } else if is_word(&m, "ENTROPY") {
        Some(Metric::Entropy)
    } else if is_word(&m, "CHI_SQUARE") {
        Some(Metric::ChiSquare)
    } else if is_word(&m, "MONTE_CARLO") {
        Some(Metric::MonteCarlo)
    } else if is_word(&m, "SERIAL_CORRELATION") {
        Some(Metric::SerialCorrelation)
    } else {
        None
    }
}

/// The comparison the comparison name stands for, if it names one.
pub fn comparison_of(compare: &str) -> (r: Option<Comparison>)
    ensures
        r == comparison_named(compare@),
{
    let c = chars_of(compare);
    if is_word(&c, "G") {
        Some(Comparison::Greater)
    } else if is_word(&c, "NE") {
        Some(Comparison::NotEqual)
    } else if is_word(&c, "L") {
        Some(Comparison::Less)
    } else {
        None
    }
}

/// Which value an evaluation reads and how it compares it, from the names
/// the user gave. The evaluation stops on a method or comparison name it
/// does not know, so both must name one.
pub fn evaluation_plan(method: &str, compare: &str) -> (r: (Metric, Comparison))
    requires
        metric_named(method@) is Some,
        comparison_named(compare@) is Some,
    ensures
        r == (metric_named(method@)->0, comparison_named(compare@)->0),
{
    let metric = metric_of(method).unwrap();
    let comparison = comparison_of(compare).unwrap();
    (metric, comparison)
}

/// An opened file is evaluated under its own path when its descriptor (the
/// one the open returned) closes, after every buffer written on that
/// descriptor went to its buffer file.
pub proof fn law_open_write_evaluate(
    t: Map<Seq<char>, (Seq<char>, Seq<char>)>,
    caller_fd: Seq<char>,
    fd: Seq<char>,
    name: Seq<char>,
    call: Seq<char>,
    len: Seq<char>,
    data: Seq<char>,
    ret: Seq<char>,
    rest: Seq<char>,
)
    requires
        call != "open"@ && call != "close"@,
    ensures
        ({
            let t1 = t.insert(fd, (name, evaluated_file(name)));
            &&& encryption_record_step(t, seq!["open"@, caller_fd, fd, name]) == (
                t1,
                ActionView::Record,
            )
            &&& encryption_record_step(t1, seq![call, fd, len, data]) == (
                t1,
                ActionView::Append { path: evaluated_file(name), data },
            )
            &&& encryption_record_step(t1, seq!["close"@, fd, ret, rest]) == (
                t1.remove(fd),
                ActionView::Evaluate { name, path: evaluated_file(name) },
            )
        }),
{
    let f_open = seq!["open"@, caller_fd, fd, name];
    assert(f_open[0] == "open"@ && f_open[2] == fd && f_open[3] == name);
    let f_write = seq![call, fd, len, data];
    assert(f_write[0] == call && f_write[1] == fd && f_write[3] == data);
    let f_close = seq!["close"@, fd, ret, rest];
    assert(f_close[0] == "close"@ && f_close[1] == fd);
    assert("close"@ != "open"@) by {
        reveal_strlit("close");
        reveal_strlit("open");
        assert("close"@[1] != "open"@[1]);
    }
}

/// The buffers of a file opened for evaluation go to `outfiles/open_`
/// followed by its path with slashes turned into underscores, keyed by the
/// descriptor the open returned; its close asks to evaluate that file under
/// the traced path.
pub proof fn law_evaluated_file_named(
    t: Map<Seq<char>, (Seq<char>, Seq<char>)>,
    caller_fd: Seq<char>,
    fd: Seq<char>,
    name: Seq<char>,
    call: Seq<char>,
    len: Seq<char>,
    data: Seq<char>,
    ret: Seq<char>,
    rest: Seq<char>,
)
    requires
        call != "open"@ && call != "close"@,
    ensures
        ({
            let file = "outfiles/open_"@ + replace_char(name, '/', '_');
            let t1 = t.insert(fd, (name, file));
            &&& encryption_record_step(t, seq!["open"@, caller_fd, fd, name]) == (t1, ActionView::Record)
            &&& encryption_record_step(t1, seq![call, fd, len, data]) == (
                t1,
                ActionView::Append { path: file, data },
            )
            &&& encryption_record_step(t1, seq!["close"@, fd, ret, rest]) == (
                t1.remove(fd),
                ActionView::Evaluate { name, path: file },
            )
        }),
{
    reveal_strlit("outfiles/open_");
    reveal_strlit("outfiles");
    reveal_strlit("open");
    reveal_strlit("_");
    assert("outfiles/open_"@ + replace_char(name, '/', '_') =~= evaluated_file(name));
    law_open_write_evaluate(t, caller_fd, fd, name, call, len, data, ret, rest);
}

} // verus!
