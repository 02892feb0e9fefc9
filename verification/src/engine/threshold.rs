//! Collecting entropy data for the thresholds: the buffers of each traced
//! file go to a file named after it, and each measurement goes to an output
//! file chosen by a counter.
use vstd::prelude::*;
use crate::action::{ActionView, TraceAction};
use crate::fd_table::FdTable;
use crate::record::{
    TraceError, decoded_data, record_fields, join_path, json_data_text, json_data_field,
    decode_data, split_record, RecordFields, is_word, join_path_vec,
};
use crate::text::{
    after_last, has_substring, parse_u32_spec, string_of, parse_u32_vec, str_contains,
    after_last_vec, decimal, decimal_vec, chars_of, digits_value, lemma_decimal_reads_back,
};
use super::application::tmp_dir;

verus! {

/// One record `f` (system call, descriptor, length, data) applied to the
/// descriptor table `t`: opened files are named by their last path
/// component.
pub open spec fn threshold_record_step(t: Map<Seq<char>, Seq<char>>, f: Seq<Seq<char>>) -> Result<
    (Map<Seq<char>, Seq<char>>, ActionView),
    TraceError,
> {
    let sc = f[0];
    let fd = f[1];
    let len = f[2];
    let arg = f[3];
    if sc == "open"@ || sc == "openat"@ {
        if arg.len() != 0 {
            Ok((t.insert(fd, join_path(tmp_dir(), after_last(arg, '/'))), ActionView::Record))
        } else {
            Ok((t, ActionView::Record))
        }
    } else if sc == "close"@ {
        if t.contains_key(fd) {
            Ok((t.remove(fd), ActionView::Close { path: t[fd] }))
        } else {
            Ok((t, ActionView::Record))
        }
    } else {
        match parse_u32_spec(len) {
            None => Err(TraceError::InvalidLength),
            Some(n) => if t.contains_key(fd) && n != 0 {
                Ok((t, ActionView::Append { path: t[fd], data: arg }))
            } else {
                Ok((t, ActionView::Record))
            },
        }
    }
}

/// A line whose JSON reading is `d` applied to the descriptor table `t`.
pub open spec fn threshold_step(t: Map<Seq<char>, Seq<char>>, d: Option<Seq<char>>) -> Result<
    (Map<Seq<char>, Seq<char>>, ActionView),
    TraceError,
> {
    match decoded_data(d) {
        Err(e) => Err(e),
        Ok(data) => match record_fields(data) {
            None => Ok((t, ActionView::Report)),
            Some(f) => threshold_record_step(t, f),
        },
    }
}

/// One line of the trace applied to the descriptor table `t`: a probe
/// header changes nothing, any other line is read as a JSON record.
pub open spec fn threshold_line(t: Map<Seq<char>, Seq<char>>, line: Seq<char>) -> Result<
    (Map<Seq<char>, Seq<char>>, ActionView),
    TraceError,
> {
    if has_substring(line, "probes"@) {
        Ok((t, ActionView::Ignore))
    } else {
        threshold_step(t, json_data_text(line))
    }
}

/// The analysis reads the record `f` without stopping: it opens or closes
/// a descriptor, or its length field is a 32-bit unsigned number.
pub open spec fn threshold_record_ok(f: Seq<Seq<char>>) -> bool {
    f[0] == "open"@ || f[0] == "openat"@ || f[0] == "close"@ || parse_u32_spec(f[2]) is Some
}

/// The analysis reads the line whose JSON reading is `d` without stopping:
/// it is JSON, its `data` text loses its quotes, and a full record in it
/// can be read.
pub open spec fn threshold_data_ok(d: Option<Seq<char>>) -> bool {
    match decoded_data(d) {
        Err(_) => false,
        Ok(data) => match record_fields(data) {
            None => true,
            Some(f) => threshold_record_ok(f),
        },
    }
}

/// The analysis reads the trace line without stopping: a probe header, or
/// a line whose JSON reading it can read.
pub open spec fn threshold_line_ok(line: Seq<char>) -> bool {
    has_substring(line, "probes"@) || threshold_data_ok(json_data_text(line))
}

/// Applies one record to the table of opened files.
fn threshold_record(f: &RecordFields, opened: &mut FdTable<String>) -> (a: TraceAction)
    requires
        threshold_record_ok(seq![f.syscall@, f.arg1@, f.arg2@, f.arg3@]),
    ensures
        threshold_record_step(old(opened)@, seq![f.syscall@, f.arg1@, f.arg2@, f.arg3@]) == Ok::<
            (Map<Seq<char>, Seq<char>>, ActionView),
            TraceError,
        >((final(opened)@, a@)),
{
    let ghost fs = seq![f.syscall@, f.arg1@, f.arg2@, f.arg3@];
    assert(fs[0] == f.syscall@ && fs[1] == f.arg1@ && fs[2] == f.arg2@ && fs[3] == f.arg3@);
    if is_word(&f.syscall, "open") || is_word(&f.syscall, "openat") {
        if f.arg3.len() != 0 {
            let name = after_last_vec(&f.arg3, '/');
            let path = join_path_vec("build/tmp_files", &name);
            opened.insert(string_of(&f.arg1), string_of(&path));
            assert(opened@ == old(opened)@.insert(f.arg1@, join_path(tmp_dir(), after_last(f.arg3@, '/'))));
        }
        TraceAction::Record
    } else if is_word(&f.syscall, "close") {
        match opened.remove(&string_of(&f.arg1)) {
            Some(path) => {
                assert(opened@ == old(opened)@.remove(f.arg1@));
                TraceAction::Close { path }
            },
            None => {
                assert(opened@ == old(opened)@);
                TraceAction::Record
            },
        }
    } else {
        let n = parse_u32_vec(&f.arg2).unwrap();
        match opened.get(&string_of(&f.arg1)) {
            Some(path) => if n != 0 {
                assert(opened@ == old(opened)@);
                TraceAction::Append { path: path.clone(), data: string_of(&f.arg3) }
            } else {
                TraceAction::Record
            },
            None => TraceAction::Record,
        }
    }
}

/// Applies the line whose JSON reading is `data` to the table of opened
/// files; a record with too few fields is reported.
pub fn threshold_analysis_data(data: Option<String>, opened: &mut FdTable<String>) -> (a: TraceAction)
    requires
        threshold_data_ok(data.deep_view()),
    ensures
        threshold_step(old(opened)@, data.deep_view()) == Ok::<
            (Map<Seq<char>, Seq<char>>, ActionView),
            TraceError,
        >((final(opened)@, a@)),
{
    let text = decode_data(data).unwrap();
    match split_record(&text) {
        None => TraceAction::Report,
        Some(f) => threshold_record(&f, opened),
    }
}

/// Applies one line of the trace of the threshold program to the table of
/// opened files: probe headers are ignored, other lines are read as JSON
/// records. The analysis stops on a line it cannot read (a failed call's
/// negative length among them), so the line must be one it reads.
pub fn threshold_analysis(line: &str, opened: &mut FdTable<String>) -> (a: TraceAction)
    requires
        threshold_line_ok(line@),
    ensures
        threshold_line(old(opened)@, line@) == Ok::<
            (Map<Seq<char>, Seq<char>>, ActionView),
            TraceError,
        >((final(opened)@, a@)),
{
    if str_contains(line, "probes") {
        return TraceAction::Ignore;
    }
    let data = json_data_field(line);
    threshold_analysis_data(data, opened)
}

/// Whether the threshold analysis reads the trace line without stopping.
pub fn threshold_readable(line: &str) -> (b: bool)
    ensures
        b == threshold_line_ok(line@),
{
    if str_contains(line, "probes") {
        return true;
    }
    let text = match decode_data(json_data_field(line)) {
        Err(_) => return false,
        Ok(t) => t,
    };
    match split_record(&text) {
        None => true,
        Some(f) => {
            let ghost fs = seq![f.syscall@, f.arg1@, f.arg2@, f.arg3@];
            assert(fs[0] == f.syscall@ && fs[2] == f.arg2@);
            is_word(&f.syscall, "open") || is_word(&f.syscall, "openat") || is_word(&f.syscall, "close")
                || parse_u32_vec(&f.arg2).is_some()
        },
    }
}

/// The directory of the measurement files.
pub open spec fn output_dir() -> Seq<char> {
    "build/threshold_output"@
}

/// The file a measurement goes to: the current encrypted file, numbered by
/// the counter, or the file of the original data.
pub open spec fn output_path(encrypt: bool, n: nat) -> Seq<char> {
    if encrypt {
        output_dir() + "/encrypted_"@ + decimal(n)
    } else {
        output_dir() + "/original"@
    }
}

/// A measurement line is written unless it concerns one of the files that
/// the runtime itself opens.
pub open spec fn keeps_measurement(line: Seq<char>) -> bool {
    &&& !has_substring(line, "fspf"@)
    &&& !has_substring(line, "sgx-musl.conf"@)
    &&& !has_substring(line, "mmap_min_addr"@)
    &&& !has_substring(line, "mounts"@)
    &&& !has_substring(line, "os-release"@)
}

/// A measurement of the protected file system's own file starts a new
/// encrypted output file.
pub open spec fn advances_counter(line: Seq<char>) -> bool {
    has_substring(line, "fspf"@)
}

/// Where a measurement line goes and whether it is written there.
pub struct OutputDecision {
    pub path: String,
    pub write: bool,
}

/// The counter of encrypted output files.
pub struct OutputRecorder {
    counter: u32,
}

impl OutputRecorder {
    #[verifier::type_invariant]
    spec fn counter_fits(self) -> bool {
        self.counter <= i32::MAX
    }

    /// The number of the current encrypted output file.
    pub closed spec fn count(&self) -> nat {
        self.counter as nat
    }

    /// A counter at zero.
    pub fn new() -> (r: Self)
        ensures
            r.count() == 0,
    {
        OutputRecorder { counter: 0 }
    }

    /// Decides where the serialized measurement `line` of a file goes
    /// (`encrypt`: the file came from the traced program) and whether it is
    /// written, and advances the counter after a measurement of the
    /// protected file system's file. The counter is a 32-bit signed number:
    /// when it would pass its maximum, nothing is decided.
    pub fn output_to_files(&mut self, encrypt: bool, line: &str) -> (r: Result<OutputDecision, TraceError>)
        ensures
            advances_counter(line@) && old(self).count() == i32::MAX as nat ==> r == Err::<
                OutputDecision,
                TraceError,
            >(TraceError::CounterOverflow) && final(self).count() == old(self).count(),
            !(advances_counter(line@) && old(self).count() == i32::MAX as nat) ==> (r matches Ok(d)
                && d.path@ == output_path(encrypt, old(self).count()) && d.write == keeps_measurement(
                line@,
            ) && final(self).count() == old(self).count() + (if advances_counter(line@) {
                1nat
            } else {
                0nat
            })),
    {
        proof {
            use_type_invariant(&*self);
        }
        let advance = str_contains(line, "fspf");
        if advance && self.counter == 0x7fff_ffff {
            return Err(TraceError::CounterOverflow);
        }
        let path = if encrypt {
            let mut p = chars_of("build/threshold_output/encrypted_");
            let digits = decimal_vec(self.counter);
            p.extend_from_slice(digits.as_slice());
            proof {
                reveal_strlit("build/threshold_output/encrypted_");
                reveal_strlit("build/threshold_output");
                reveal_strlit("/encrypted_");
                assert("build/threshold_output/encrypted_"@ =~= "build/threshold_output"@ + "/encrypted_"@);
            }
            p
        } else {
            proof {
                reveal_strlit("build/threshold_output/original");
                reveal_strlit("build/threshold_output");
                reveal_strlit("/original");
                assert("build/threshold_output/original"@ =~= "build/threshold_output"@ + "/original"@);
            }
            chars_of("build/threshold_output/original")
        };
        let write = !str_contains(line, "fspf") && !str_contains(line, "sgx-musl.conf")
            && !str_contains(line, "mmap_min_addr") && !str_contains(line, "mounts")
            && !str_contains(line, "os-release");
        if advance {
            self.counter = self.counter + 1;
        }
        Ok(OutputDecision { path: string_of(&path), write })
    }
}

/// Different counters give different encrypted output files, so no two
/// runs of the protected program share one.
pub proof fn law_encrypted_outputs_distinct(n: nat, m: nat)
    requires
        n != m,
    ensures
        output_path(true, n) != output_path(true, m),
{
    let prefix = output_dir() + "/encrypted_"@;
    if output_path(true, n) == output_path(true, m) {
        assert((prefix + decimal(n)).skip(prefix.len() as int) =~= decimal(n));
        assert((prefix + decimal(m)).skip(prefix.len() as int) =~= decimal(m));
        lemma_decimal_reads_back(n);
        lemma_decimal_reads_back(m);
        assert(digits_value(decimal(n)) == digits_value(decimal(m)));
    }
}

/// A file opened with `open` or with `openat` is followed the same way: the
/// descriptor stands for `build/tmp_files/` followed by the last component
/// of the path; every call on it that moved bytes appends its buffer to
/// that file, and its close hands that file over to be measured.
pub proof fn law_threshold_file_followed(
    sc: Seq<char>,
    t: Map<Seq<char>, Seq<char>>,
    fd: Seq<char>,
    ret: Seq<char>,
    path: Seq<char>,
    call: Seq<char>,
    len: Seq<char>,
    data: Seq<char>,
    rest: Seq<char>,
)
    requires
        sc == "open"@ || sc == "openat"@,
        path.len() != 0,
        call != "open"@ && call != "openat"@ && call != "close"@,
        parse_u32_spec(len) matches Some(n) && n != 0,
    ensures
        ({
            let file = "build/tmp_files/"@ + after_last(path, '/');
            let t1 = t.insert(fd, file);
            &&& threshold_record_step(t, seq![sc, fd, ret, path]) == Ok::<
                (Map<Seq<char>, Seq<char>>, ActionView),
                TraceError,
            >((t1, ActionView::Record))
            &&& threshold_record_step(t1, seq![call, fd, len, data]) == Ok::<
                (Map<Seq<char>, Seq<char>>, ActionView),
                TraceError,
            >((t1, ActionView::Append { path: file, data }))
            &&& threshold_record_step(t1, seq!["close"@, fd, ret, rest]) == Ok::<
                (Map<Seq<char>, Seq<char>>, ActionView),
                TraceError,
            >((t1.remove(fd), ActionView::Close { path: file }))
        }),
{
    reveal_strlit("open");
    reveal_strlit("openat");
    reveal_strlit("close");
    assert("close"@[0] != "open"@[0] && "close"@[0] != "openat"@[0]);
    reveal_strlit("build/tmp_files/");
    reveal_strlit("build/tmp_files");
    assert("build/tmp_files/"@ + after_last(path, '/') =~= join_path(tmp_dir(), after_last(path, '/')));
    let f_open = seq![sc, fd, ret, path];
    assert(f_open[0] == sc && f_open[1] == fd && f_open[3] == path);
    let f_call = seq![call, fd, len, data];
    assert(f_call[0] == call && f_call[1] == fd && f_call[2] == len && f_call[3] == data);
    let f_close = seq!["close"@, fd, ret, rest];
    assert(f_close[0] == "close"@ && f_close[1] == fd);
}

/// The measurement of any of the files the runtime opens itself (the
/// protected file system's `fspf` file, `sgx-musl.conf`, `mmap_min_addr`,
/// `mounts`, `os-release`) is left out of the threshold data; a measurement
/// that names none of them is kept.
pub proof fn law_runtime_files_left_out(line: Seq<char>)
    ensures
        has_substring(line, "fspf"@) ==> !keeps_measurement(line),
        has_substring(line, "sgx-musl.conf"@) ==> !keeps_measurement(line),
        has_substring(line, "mmap_min_addr"@) ==> !keeps_measurement(line),
        has_substring(line, "mounts"@) ==> !keeps_measurement(line),
        has_substring(line, "os-release"@) ==> !keeps_measurement(line),
        !has_substring(line, "fspf"@) && !has_substring(line, "sgx-musl.conf"@) && !has_substring(
            line,
            "mmap_min_addr"@,
        ) && !has_substring(line, "mounts"@) && !has_substring(line, "os-release"@)
            ==> keeps_measurement(line),
{
}

} // verus!
