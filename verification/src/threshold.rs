//! Sorting the trace of the threshold program: only the files under the
//! test data directory are followed, each into a file named after its path
//! below that directory.
use vstd::prelude::*;
use crate::action::{LineReading, read_trace, ActionView, TraceAction, step_matches, after_header, TracePlan, plan_matches, action_views};
use crate::command::texts;
use crate::fd_table::FdTable;
use crate::monitor::out_dir;
use crate::record::{
    TraceError, decoded_data, record_fields, join_path,
    decode_data, split_record, RecordFields, is_word, join_path_vec,
};
use crate::text::{
    has_substring, skip_bytes, parse_u32_spec, string_of, chars_of, contains_vec, skip_bytes_vec,
    parse_u32_vec, after_last, after_last_vec,
};

verus! {

/// The directory of the test data inside the traced container.
pub open spec fn test_files_marker() -> Seq<char> {
    "data/test_files/"@
}

/// One record `f` applied to the descriptor table `t`. A path that
/// contains the test data directory is named by what follows the first
/// sixteen bytes (the length of that directory's name); a descriptor is
/// followed only when that name is not empty.
pub open spec fn separate_th_record_step(t: Map<Seq<char>, Seq<char>>, f: Seq<Seq<char>>) -> Result<
    (Map<Seq<char>, Seq<char>>, ActionView),
    TraceError,
> {
    let sc = f[0];
    let fd = f[1];
    let len = f[2];
    let arg = f[3];
    if sc == "open"@ || sc == "openat"@ {
        if has_substring(arg, test_files_marker()) {
            match skip_bytes(arg, 16) {
                None => Err(TraceError::NotCharBoundary),
                Some(name) => if name.len() == 0 {
                    Ok((t, ActionView::Record))
                } else {
                    Ok((t.insert(fd, name), ActionView::Record))
                },
            }
        } else {
            Ok((t, ActionView::Record))
        }
    } else if sc == "close"@ {
        Ok((t.remove(fd), ActionView::Record))
    } else {
        match parse_u32_spec(len) {
            None => Err(TraceError::InvalidLength),
            Some(n) => if t.contains_key(fd) && n != 0 {
                Ok((t, ActionView::Append { path: join_path(out_dir(), t[fd]), data: arg }))
            } else {
                Ok((t, ActionView::Record))
            },
        }
    }
}

/// A line whose JSON reading is `d` applied to `t`; every line must be a
/// full record.
pub open spec fn separate_th_step(t: Map<Seq<char>, Seq<char>>, d: Option<Seq<char>>) -> Result<
    (Map<Seq<char>, Seq<char>>, ActionView),
    TraceError,
> {
    match decoded_data(d) {
        Err(e) => Err(e),
        Ok(data) => match record_fields(data) {
            None => Err(TraceError::ShortRecord),
            Some(f) => separate_th_record_step(t, f),
        },
    }
}

/// Applies one record to the table of opened files.
fn separate_th_record(f: &RecordFields, opened: &mut FdTable<String>) -> (r: Result<TraceAction, TraceError>)
    ensures
        step_matches(
            r,
            old(opened)@,
            final(opened)@,
            separate_th_record_step(old(opened)@, seq![f.syscall@, f.arg1@, f.arg2@, f.arg3@]),
        ),
{
    let ghost fs = seq![f.syscall@, f.arg1@, f.arg2@, f.arg3@];
    assert(fs[0] == f.syscall@ && fs[1] == f.arg1@ && fs[2] == f.arg2@ && fs[3] == f.arg3@);
    if is_word(&f.syscall, "open") || is_word(&f.syscall, "openat") {
        let marker = chars_of("data/test_files/");
        if contains_vec(&f.arg3, &marker) {
            match skip_bytes_vec(&f.arg3, 16) {
                None => {
                    assert(opened@ == old(opened)@);
                    Err(TraceError::NotCharBoundary)
                },
                Some(name) => {
                    if name.len() != 0 {
                        opened.insert(string_of(&f.arg1), string_of(&name));
                        assert(opened@ == old(opened)@.insert(f.arg1@, name@));
                    } else {
                        assert(opened@ == old(opened)@);
                    }
                    Ok(TraceAction::Record)
                },
            }
        } else {
            assert(opened@ == old(opened)@);
            Ok(TraceAction::Record)
        }
    } else if is_word(&f.syscall, "close") {
        opened.remove(&string_of(&f.arg1));
        assert(opened@ == old(opened)@.remove(f.arg1@));
        Ok(TraceAction::Record)
    } else {
        match parse_u32_vec(&f.arg2) {
            None => {
                assert(opened@ == old(opened)@);
                Err(TraceError::InvalidLength)
            },
            Some(n) => {
                match opened.get(&string_of(&f.arg1)) {
                    Some(name) => if n != 0 {
                        assert(opened@ == old(opened)@);
                        let name_chars = chars_of(name.as_str());
                        let path = join_path_vec("outfiles", &name_chars);
                        Ok(TraceAction::Append { path: string_of(&path), data: string_of(&f.arg3) })
                    } else {
                        assert(opened@ == old(opened)@);
                        Ok(TraceAction::Record)
                    },
                    None => {
                        assert(opened@ == old(opened)@);
                        Ok(TraceAction::Record)
                    },
                }
            },
        }
    }
}

/// Applies the line whose JSON reading is `data` to the table.
pub fn separate_th_data(data: Option<String>, opened: &mut FdTable<String>) -> (r: Result<
    TraceAction,
    TraceError,
>)
    ensures
        step_matches(r, old(opened)@, final(opened)@, separate_th_step(old(opened)@, data.deep_view())),
{
    let text = match decode_data(data) {
        Err(e) => return Err(e),
        Ok(t) => t,
    };
    match split_record(&text) {
        None => Err(TraceError::ShortRecord),
        Some(f) => separate_th_record(&f, opened),
    }
}

/// The collection of the test data files of a trace.
pub struct TestFileSeparation;

impl LineReading for TestFileSeparation {
    type Entry = String;

    open spec fn step(t: Map<Seq<char>, Seq<char>>, d: Option<Seq<char>>) -> Result<(Map<Seq<char>, Seq<char>>, ActionView), TraceError> {
        separate_th_step(t, d)
    }

    fn apply(data: Option<String>, table: &mut FdTable<String>) -> (r: Result<TraceAction, TraceError>) {
        separate_th_data(data, table)
    }
}

/// Sorts the lines of a finished trace of the threshold program, whose first
/// line is the probe header: the actions that write each buffer of a test
/// file into its file, in trace order, or the error of the first line that
/// fails.
pub fn syscall_separate_th(lines: &Vec<String>) -> (r: TracePlan)
    ensures
        plan_matches(
            |t: Map<Seq<char>, Seq<char>>, d: Option<Seq<char>>| separate_th_step(t, d),
            Map::empty(),
            after_header(texts(lines@)),
            action_views(r.actions@),
            r.error,
        ),
{
    let r = read_trace::<TestFileSeparation>(lines);
    assert((|t: Map<Seq<char>, Seq<char>>, d: Option<Seq<char>>| TestFileSeparation::step(t, d)) =~= (|t: Map<Seq<char>, Seq<char>>, d: Option<Seq<char>>| separate_th_step(t, d)));
    r
}

/// After a test data file is opened on a descriptor, every call on that
/// descriptor that moved bytes appends its buffer to the file named after
/// it, and one that moved none appends nothing; once the descriptor is
/// closed, no call on it appends anything.
pub proof fn law_test_file_buffers_collected(
    t: Map<Seq<char>, Seq<char>>,
    fd: Seq<char>,
    ret: Seq<char>,
    path: Seq<char>,
    call: Seq<char>,
    len: Seq<char>,
    data: Seq<char>,
    close_ret: Seq<char>,
    rest: Seq<char>,
)
    requires
        has_substring(path, test_files_marker()),
        skip_bytes(path, 16) matches Some(name) && name.len() > 0,
        call != "open"@ && call != "openat"@ && call != "close"@,
        parse_u32_spec(len) is Some,
    ensures
        ({
            let name = skip_bytes(path, 16)->0;
            let t1 = t.insert(fd, name);
            let n = parse_u32_spec(len)->0;
            &&& separate_th_record_step(t, seq!["open"@, fd, ret, path]) == Ok::<
                (Map<Seq<char>, Seq<char>>, ActionView),
                TraceError,
            >((t1, ActionView::Record))
            &&& separate_th_record_step(t1, seq![call, fd, len, data]) == Ok::<
                (Map<Seq<char>, Seq<char>>, ActionView),
                TraceError,
            >(
                (
                    t1,
                    if n != 0 {
                        ActionView::Append { path: join_path(out_dir(), name), data }
                    } else {
                        ActionView::Record
                    },
                ),
            )
            &&& separate_th_record_step(t1, seq!["close"@, fd, close_ret, rest]) == Ok::<
                (Map<Seq<char>, Seq<char>>, ActionView),
                TraceError,
            >((t1.remove(fd), ActionView::Record))
            &&& separate_th_record_step(t1.remove(fd), seq![call, fd, len, data]) == Ok::<
                (Map<Seq<char>, Seq<char>>, ActionView),
                TraceError,
            >((t1.remove(fd), ActionView::Record))
        }),
{
    let f_open = seq!["open"@, fd, ret, path];
    assert(f_open[0] == "open"@ && f_open[1] == fd && f_open[3] == path);
    let f_call = seq![call, fd, len, data];
    assert(f_call[0] == call && f_call[1] == fd && f_call[2] == len && f_call[3] == data);
    let f_close = seq!["close"@, fd, close_ret, rest];
    assert(f_close[0] == "close"@ && f_close[1] == fd);
    assert("close"@ != "open"@ && "close"@ != "openat"@) by {
        reveal_strlit("close");
        reveal_strlit("open");
        reveal_strlit("openat");
        assert("close"@[0] != "open"@[0]);
        assert("close"@[0] != "openat"@[0]);
    }
}

/// The name a measured file is listed under: its last path component.
pub fn file_name(path: &str) -> (r: String)
    ensures
        r@ == after_last(path@, '/'),
{
    let v = chars_of(path);
    string_of(&after_last_vec(&v, '/'))
}

/// Only files under the test data directory are followed: an `open` or
/// `openat` of a path that does not contain `data/test_files/` leaves the
/// table as it is, so no buffer on that descriptor is collected.
pub proof fn law_other_files_not_followed(
    sc: Seq<char>,
    t: Map<Seq<char>, Seq<char>>,
    fd: Seq<char>,
    ret: Seq<char>,
    path: Seq<char>,
)
    requires
        sc == "open"@ || sc == "openat"@,
        !has_substring(path, "data/test_files/"@),
    ensures
        separate_th_record_step(t, seq![sc, fd, ret, path]) == Ok::<
            (Map<Seq<char>, Seq<char>>, ActionView),
            TraceError,
        >((t, ActionView::Record)),
{
    let f = seq![sc, fd, ret, path];
    assert(f[0] == sc && f[3] == path);
}

/// A test data file opened with `open` or with `openat` is followed the same
/// way: its buffers of calls that moved bytes go to `outfiles/` followed by
/// what comes after the first sixteen bytes of its path (the length of
/// `data/test_files/`), until its descriptor is closed.
pub proof fn law_test_file_followed(
    sc: Seq<char>,
    t: Map<Seq<char>, Seq<char>>,
    fd: Seq<char>,
    ret: Seq<char>,
    path: Seq<char>,
    call: Seq<char>,
    len: Seq<char>,
    data: Seq<char>,
    rest: Seq<char>,
)
    requires
        sc == "open"@ || sc == "openat"@,
        has_substring(path, "data/test_files/"@),
        skip_bytes(path, 16) matches Some(name) && name.len() > 0,
        call != "open"@ && call != "openat"@ && call != "close"@,
        parse_u32_spec(len) matches Some(n) && n != 0,
    ensures
        ({
            let name = skip_bytes(path, 16)->0;
            let t1 = t.insert(fd, name);
            &&& separate_th_record_step(t, seq![sc, fd, ret, path]) == Ok::<
                (Map<Seq<char>, Seq<char>>, ActionView),
                TraceError,
            >((t1, ActionView::Record))
            &&& separate_th_record_step(t1, seq![call, fd, len, data]) == Ok::<
                (Map<Seq<char>, Seq<char>>, ActionView),
                TraceError,
            >((t1, ActionView::Append { path: "outfiles/"@ + name, data }))
            &&& separate_th_record_step(t1, seq!["close"@, fd, rest, rest]) == Ok::<
                (Map<Seq<char>, Seq<char>>, ActionView),
                TraceError,
            >((t1.remove(fd), ActionView::Record))
            &&& separate_th_record_step(t1.remove(fd), seq![call, fd, len, data]) == Ok::<
                (Map<Seq<char>, Seq<char>>, ActionView),
                TraceError,
            >((t1.remove(fd), ActionView::Record))
        }),
{
    let name = skip_bytes(path, 16)->0;
    reveal_strlit("outfiles/");
    reveal_strlit("outfiles");
    assert("outfiles/"@ + name =~= join_path(out_dir(), name));
    let f_open = seq![sc, fd, ret, path];
    assert(f_open[0] == sc && f_open[1] == fd && f_open[3] == path);
    let f_call = seq![call, fd, len, data];
    assert(f_call[0] == call && f_call[1] == fd && f_call[2] == len && f_call[3] == data);
    let f_close = seq!["close"@, fd, rest, rest];
    assert(f_close[0] == "close"@ && f_close[1] == fd);
    assert("close"@ != "open"@ && "close"@ != "openat"@) by {
        reveal_strlit("close");
        reveal_strlit("open");
        reveal_strlit("openat");
        assert("close"@[0] != "open"@[0]);
        assert("close"@[0] != "openat"@[0]);
    }
}

} // verus!
