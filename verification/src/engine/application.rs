//! Following a traced application: which files it opens, what it writes to
//! them, and which file to judge when it closes one.
use vstd::prelude::*;
use crate::action::{ActionView, TraceAction};
use crate::fd_table::FdTable;
use crate::record::{
    TraceError, decoded_data, record_fields, join_path, json_data_text, json_data_field,
    decode_data, split_record, RecordFields, is_word, join_path_vec,
};
use crate::text::{
    replace_char, after_last, has_substring, parse_i32_spec, string_of, replace_char_vec,
    parse_i32_vec, str_contains, chars_of, after_last_vec,
};
use super::TraceMode;

verus! {

/// The directory that holds the buffers of each traced file.
pub open spec fn tmp_dir() -> Seq<char> {
    "build/tmp_files"@
}

/// The file that stands for the traced path `name`: its slashes become
/// backslashes so that it is one file of the buffer directory.
pub open spec fn buffer_file(name: Seq<char>) -> Seq<char> {
    join_path(tmp_dir(), replace_char(name, '/', '\\'))
}

/// One record `f` (system call, descriptor, length, data) applied to the
/// descriptor table `t`.
pub open spec fn application_record_step(t: Map<Seq<char>, Seq<char>>, f: Seq<Seq<char>>) -> Result<
    (Map<Seq<char>, Seq<char>>, ActionView),
    TraceError,
> {
    let sc = f[0];
    let fd = f[1];
    let len = f[2];
    let arg = f[3];
    if sc == "open"@ || sc == "openat"@ {
        if arg.len() != 0 {
            Ok((t.insert(fd, buffer_file(arg)), ActionView::Record))
        } else {
            Ok((t, ActionView::Record))
        }
    } else if sc == "accept4"@ || sc == "accept"@ || sc == "connect"@ {
        if arg.len() != 0 {
            Ok((t.insert(fd, join_path(tmp_dir(), arg)), ActionView::Record))
        } else {
            Ok((t, ActionView::Record))
        }
    } else if sc == "close"@ {
        if t.contains_key(fd) {
            Ok((t.remove(fd), ActionView::Close { path: t[fd] }))
        } else {
            Ok((t, ActionView::Record))
        }
    } else {
        match parse_i32_spec(len) {
            None => Err(TraceError::InvalidLength),
            Some(n) => if t.contains_key(fd) && n != 0 {
                Ok((t, ActionView::Append { path: t[fd], data: arg }))
            } else {
                Ok((t, ActionView::Record))
            },
        }
    }
}

/// A line whose JSON reading is `d` applied to the descriptor table `t`.
pub open spec fn application_step(t: Map<Seq<char>, Seq<char>>, d: Option<Seq<char>>) -> Result<
    (Map<Seq<char>, Seq<char>>, ActionView),
    TraceError,
> {
    match decoded_data(d) {
        Err(e) => Err(e),
        Ok(data) => match record_fields(data) {
            None => Ok((t, ActionView::Report)),
            Some(f) => application_record_step(t, f),
        },
    }
}

/// One line of the trace applied to the descriptor table `t`: a probe
/// header changes nothing, any other line is read as a JSON record.
pub open spec fn application_line(t: Map<Seq<char>, Seq<char>>, line: Seq<char>) -> Result<
    (Map<Seq<char>, Seq<char>>, ActionView),
    TraceError,
> {
    if has_substring(line, "probes"@) {
        Ok((t, ActionView::Ignore))
    } else {
        application_step(t, json_data_text(line))
    }
}

/// The calls whose record opens, accepts, connects or closes a
/// descriptor; any other call's length field is read as a number.
pub open spec fn application_table_call(sc: Seq<char>) -> bool {
    sc == "open"@ || sc == "openat"@ || sc == "accept4"@ || sc == "accept"@ || sc == "connect"@
        || sc == "close"@
}

/// The analysis reads the record `f` without stopping: its call changes
/// the table, or its length field is a 32-bit signed number.
pub open spec fn application_record_ok(f: Seq<Seq<char>>) -> bool {
    application_table_call(f[0]) || parse_i32_spec(f[2]) is Some
}

/// The analysis reads the line whose JSON reading is `d` without stopping:
/// it is JSON, its `data` text loses its quotes, and a full record in it
/// can be read.
pub open spec fn application_data_ok(d: Option<Seq<char>>) -> bool {
    match decoded_data(d) {
        Err(_) => false,
        Ok(data) => match record_fields(data) {
            None => true,
            Some(f) => application_record_ok(f),
        },
    }
}

/// The analysis reads the trace line without stopping: a probe header, or
/// a line whose JSON reading it can read.
pub open spec fn application_line_ok(line: Seq<char>) -> bool {
    has_substring(line, "probes"@) || application_data_ok(json_data_text(line))
}

/// Applies one record to the table of opened files.
fn application_record(f: &RecordFields, opened: &mut FdTable<String>) -> (a: TraceAction)
    requires
        application_record_ok(seq![f.syscall@, f.arg1@, f.arg2@, f.arg3@]),
    ensures
        application_record_step(old(opened)@, seq![f.syscall@, f.arg1@, f.arg2@, f.arg3@]) == Ok::<
            (Map<Seq<char>, Seq<char>>, ActionView),
            TraceError,
        >((final(opened)@, a@)),
{
    let ghost fs = seq![f.syscall@, f.arg1@, f.arg2@, f.arg3@];
    assert(fs[0] == f.syscall@ && fs[1] == f.arg1@ && fs[2] == f.arg2@ && fs[3] == f.arg3@);
    if is_word(&f.syscall, "open") || is_word(&f.syscall, "openat") {
        if f.arg3.len() != 0 {
            let escaped = replace_char_vec(&f.arg3, '/', '\\');
            let path = join_path_vec("build/tmp_files", &escaped);
            opened.insert(string_of(&f.arg1), string_of(&path));
            assert(opened@ == old(opened)@.insert(f.arg1@, buffer_file(f.arg3@)));
        }
        TraceAction::Record
    } else if is_word(&f.syscall, "accept4") || is_word(&f.syscall, "accept") || is_word(
        &f.syscall,
        "connect",
    ) {
        if f.arg3.len() != 0 {
            let path = join_path_vec("build/tmp_files", &f.arg3);
            opened.insert(string_of(&f.arg1), string_of(&path));
        }
        TraceAction::Record
    } else if is_word(&f.syscall, "close") {
        match opened.remove(&string_of(&f.arg1)) {
            Some(path) => {
                assert(opened@ == old(opened)@.remove(f.arg1@));
                TraceAction::Close { path }
            },
            None => {
                assert(opened@ == old(opened)@);
                TraceAction::Record
            },
        }
    } else {
        let n = parse_i32_vec(&f.arg2).unwrap();
        match opened.get(&string_of(&f.arg1)) {
            Some(path) => if n != 0 {
                assert(opened@ == old(opened)@);
                TraceAction::Append { path: path.clone(), data: string_of(&f.arg3) }
            } else {
                TraceAction::Record
            },
            None => TraceAction::Record,
        }
    }
}

/// Applies the line whose JSON reading is `data` to the table of opened
/// files; a record with too few fields is reported.
pub fn analysis_data(data: Option<String>, opened: &mut FdTable<String>) -> (a: TraceAction)
    requires
        application_data_ok(data.deep_view()),
    ensures
        application_step(old(opened)@, data.deep_view()) == Ok::<
            (Map<Seq<char>, Seq<char>>, ActionView),
            TraceError,
        >((final(opened)@, a@)),
{
    let text = decode_data(data).unwrap();
    match split_record(&text) {
        None => TraceAction::Report,
        Some(f) => application_record(&f, opened),
    }
}

/// Applies one line of the trace of an application to the table of opened
/// files: probe headers are ignored, other lines are read as JSON records.
/// The analysis stops on a line it cannot read, so the line must be one it
/// reads.
pub fn analysis(line: &str, opened: &mut FdTable<String>) -> (a: TraceAction)
    requires
        application_line_ok(line@),
    ensures
        application_line(old(opened)@, line@) == Ok::<
            (Map<Seq<char>, Seq<char>>, ActionView),
            TraceError,
        >((final(opened)@, a@)),
{
    if str_contains(line, "probes") {
        return TraceAction::Ignore;
    }
    let data = json_data_field(line);
    analysis_data(data, opened)
}

/// Whether the analysis reads the trace line without stopping.
pub fn analysis_readable(line: &str) -> (b: bool)
    ensures
        b == application_line_ok(line@),
{
    if str_contains(line, "probes") {
        return true;
    }
    let text = match decode_data(json_data_field(line)) {
        Err(_) => return false,
        Ok(t) => t,
    };
    match split_record(&text) {
        None => true,
        Some(f) => {
            let ghost fs = seq![f.syscall@, f.arg1@, f.arg2@, f.arg3@];
            assert(fs[0] == f.syscall@ && fs[2] == f.arg2@);
            is_word(&f.syscall, "open") || is_word(&f.syscall, "openat") || is_word(&f.syscall, "accept4")
                || is_word(&f.syscall, "accept") || is_word(&f.syscall, "connect") || is_word(
                &f.syscall,
                "close",
            ) || parse_i32_vec(&f.arg2).is_some()
        },
    }
}

/// The name under which a judged buffer file is reported: its last path
/// component with backslashes turned back into slashes.
pub open spec fn judge_name_spec(trace_file: Seq<char>) -> Seq<char> {
    replace_char(after_last(trace_file, '/'), '\\', '/')
}

/// The name under which the buffer file `trace_file` is reported.
pub fn judge_name(trace_file: &str) -> (r: String)
    ensures
        r@ == judge_name_spec(trace_file@),
{
    let v = chars_of(trace_file);
    let last = after_last_vec(&v, '/');
    string_of(&replace_char_vec(&last, '\\', '/'))
}

/// Whether a file found encrypted is reported too: only when testing.
pub fn judge_reports_encrypted(mode: TraceMode) -> (b: bool)
    ensures
        b == (mode == TraceMode::Test),
{
    match mode {
        TraceMode::Test => true,
        _ => false,
    }
}

/// The file that a traced path is buffered in is reported under that path
/// again, as long as the path has no backslash.
pub proof fn law_buffer_file_reported_as_path(name: Seq<char>)
    requires
        !name.contains('\\'),
    ensures
        judge_name_spec(buffer_file(name)) == name,
{
    let esc = replace_char(name, '/', '\\');
    crate::text::lemma_after_last_of_join(tmp_dir(), esc, '/');
    assert(replace_char(esc, '\\', '/') =~= name) by {
        assert forall|i: int| 0 <= i < name.len() implies replace_char(esc, '\\', '/')[i] == name[i] by {
            if name[i] == '/' {
            } else {
                assert(name[i] != '\\') by {
                    if name[i] == '\\' {
                        assert(name.contains('\\'));
                    }
                }
            }
        }
    }
}

/// The life of a traced file: after the open of `name` on `fd`, a buffer
/// of non-zero length written on `fd` goes to the buffer file of `name`;
/// the close of `fd` hands that file over for judging and forgets `fd`, so
/// a second close calls for nothing.
pub proof fn law_open_write_close(
    t: Map<Seq<char>, Seq<char>>,
    fd: Seq<char>,
    ret: Seq<char>,
    name: Seq<char>,
    call: Seq<char>,
    len: Seq<char>,
    data: Seq<char>,
    rest: Seq<char>,
)
    requires
        name.len() != 0,
        call != "open"@ && call != "openat"@ && call != "accept4"@ && call != "accept"@
            && call != "connect"@ && call != "close"@,
        parse_i32_spec(len) matches Some(n) && n != 0,
    ensures
        ({
            let t1 = t.insert(fd, buffer_file(name));
            &&& application_record_step(t, seq!["open"@, fd, ret, name]) == Ok::<
                (Map<Seq<char>, Seq<char>>, ActionView),
                TraceError,
            >((t1, ActionView::Record))
            &&& application_record_step(t1, seq![call, fd, len, data]) == Ok::<
                (Map<Seq<char>, Seq<char>>, ActionView),
                TraceError,
            >((t1, ActionView::Append { path: buffer_file(name), data }))
            &&& application_record_step(t1, seq!["close"@, fd, ret, rest]) == Ok::<
                (Map<Seq<char>, Seq<char>>, ActionView),
                TraceError,
            >((t1.remove(fd), ActionView::Close { path: buffer_file(name) }))
            &&& application_record_step(t1.remove(fd), seq!["close"@, fd, ret, rest]) == Ok::<
                (Map<Seq<char>, Seq<char>>, ActionView),
                TraceError,
            >((t1.remove(fd), ActionView::Record))
        }),
{
    let t1 = t.insert(fd, buffer_file(name));
    let f_open = seq!["open"@, fd, ret, name];
    assert(f_open[0] == "open"@ && f_open[1] == fd && f_open[3] == name);
    let f_write = seq![call, fd, len, data];
    assert(f_write[0] == call && f_write[1] == fd && f_write[2] == len && f_write[3] == data);
    let f_close = seq!["close"@, fd, ret, rest];
    assert(f_close[0] == "close"@ && f_close[1] == fd);
    assert("close"@ != "open"@ && "close"@ != "openat"@ && "close"@ != "accept4"@ && "close"@
        != "accept"@ && "close"@ != "connect"@) by {
        reveal_strlit("close");
        reveal_strlit("open");
        reveal_strlit("openat");
        reveal_strlit("accept4");
        reveal_strlit("accept");
        reveal_strlit("connect");
        assert("close"@[1] != "open"@[1]);
        assert("close"@.len() != "openat"@.len());
        assert("close"@.len() != "accept4"@.len());
        assert("close"@[0] != "accept"@[0]);
        assert("close"@[0] == "connect"@[0] && "close"@.len() != "connect"@.len());
    }
    assert(!t1.remove(fd).contains_key(fd));
}

/// The six call names that change the table are six different texts.
proof fn lemma_table_calls_distinct()
    ensures
        "open"@ != "openat"@,
        "open"@ != "accept4"@,
        "open"@ != "accept"@,
        "open"@ != "connect"@,
        "open"@ != "close"@,
        "openat"@ != "accept4"@,
        "openat"@ != "accept"@,
        "openat"@ != "connect"@,
        "openat"@ != "close"@,
        "accept4"@ != "accept"@,
        "accept4"@ != "connect"@,
        "accept4"@ != "close"@,
        "accept"@ != "connect"@,
        "accept"@ != "close"@,
        "connect"@ != "close"@,
{
    reveal_strlit("open");
    reveal_strlit("openat");
    reveal_strlit("accept4");
    reveal_strlit("accept");
    reveal_strlit("connect");
    reveal_strlit("close");
    assert("open"@.len() != "openat"@.len());
    assert("open"@[0] != "accept4"@[0]);
    assert("open"@[0] != "accept"@[0]);
    assert("open"@[0] != "connect"@[0]);
    assert("open"@[0] != "close"@[0]);
    assert("openat"@[0] != "accept4"@[0]);
    assert("openat"@[0] != "accept"@[0]);
    assert("openat"@[0] != "connect"@[0]);
    assert("openat"@[0] != "close"@[0]);
    assert("accept4"@.len() != "accept"@.len());
    assert("accept4"@[0] != "connect"@[0]);
    assert("accept4"@[0] != "close"@[0]);
    assert("accept"@[0] != "connect"@[0]);
    assert("accept"@[0] != "close"@[0]);
    assert("connect"@.len() != "close"@.len());
}

/// A file opened with `open` or with `openat` is followed the same way:
/// the descriptor stands for `build/tmp_files/` followed by the path with
/// its slashes turned into backslashes; every call on it that moved bytes
/// appends its buffer to that file, and its close hands that file over for
/// judging.
pub proof fn law_opened_file_followed(
    sc: Seq<char>,
    t: Map<Seq<char>, Seq<char>>,
    fd: Seq<char>,
    ret: Seq<char>,
    path: Seq<char>,
    call: Seq<char>,
    len: Seq<char>,
    data: Seq<char>,
    rest: Seq<char>,
)
    requires
        sc == "open"@ || sc == "openat"@,
        path.len() != 0,
        !application_table_call(call),
        parse_i32_spec(len) matches Some(n) && n != 0,
    ensures
        ({
            let file = "build/tmp_files/"@ + replace_char(path, '/', '\\');
            let t1 = t.insert(fd, file);
            &&& application_record_step(t, seq![sc, fd, ret, path]) == Ok::<
                (Map<Seq<char>, Seq<char>>, ActionView),
                TraceError,
            >((t1, ActionView::Record))
            &&& application_record_step(t1, seq![call, fd, len, data]) == Ok::<
                (Map<Seq<char>, Seq<char>>, ActionView),
                TraceError,
            >((t1, ActionView::Append { path: file, data }))
            &&& application_record_step(t1, seq!["close"@, fd, ret, rest]) == Ok::<
                (Map<Seq<char>, Seq<char>>, ActionView),
                TraceError,
            >((t1.remove(fd), ActionView::Close { path: file }))
        }),
{
    lemma_table_calls_distinct();
    reveal_strlit("build/tmp_files/");
    reveal_strlit("build/tmp_files");
    assert("build/tmp_files/"@ + replace_char(path, '/', '\\') =~= buffer_file(path));
    let f_open = seq![sc, fd, ret, path];
    assert(f_open[0] == sc && f_open[1] == fd && f_open[3] == path);
    let f_call = seq![call, fd, len, data];
    assert(f_call[0] == call && f_call[1] == fd && f_call[2] == len && f_call[3] == data);
    let f_close = seq!["close"@, fd, ret, rest];
    assert(f_close[0] == "close"@ && f_close[1] == fd);
}

/// A socket from `accept4`, `accept` or `connect` with a non-empty address
/// is followed like a file: the descriptor stands for `build/tmp_files/`
/// followed by the address; every call on it that moved bytes appends its
/// buffer to that file, and its close hands that file over for judging.
pub proof fn law_socket_followed(
    sc: Seq<char>,
    t: Map<Seq<char>, Seq<char>>,
    fd: Seq<char>,
    ret: Seq<char>,
    addr: Seq<char>,
    call: Seq<char>,
    len: Seq<char>,
    data: Seq<char>,
    rest: Seq<char>,
)
    requires
        sc == "accept4"@ || sc == "accept"@ || sc == "connect"@,
        addr.len() != 0,
        !application_table_call(call),
        parse_i32_spec(len) matches Some(n) && n != 0,
    ensures
        ({
            let file = "build/tmp_files/"@ + addr;
            let t1 = t.insert(fd, file);
            &&& application_record_step(t, seq![sc, fd, ret, addr]) == Ok::<
                (Map<Seq<char>, Seq<char>>, ActionView),
                TraceError,
            >((t1, ActionView::Record))
            &&& application_record_step(t1, seq![call, fd, len, data]) == Ok::<
                (Map<Seq<char>, Seq<char>>, ActionView),
                TraceError,
            >((t1, ActionView::Append { path: file, data }))
            &&& application_record_step(t1, seq!["close"@, fd, ret, rest]) == Ok::<
                (Map<Seq<char>, Seq<char>>, ActionView),
                TraceError,
            >((t1.remove(fd), ActionView::Close { path: file }))
        }),
{
    lemma_table_calls_distinct();
    reveal_strlit("build/tmp_files/");
    reveal_strlit("build/tmp_files");
    assert("build/tmp_files/"@ + addr =~= join_path(tmp_dir(), addr));
    let f_open = seq![sc, fd, ret, addr];
    assert(f_open[0] == sc && f_open[1] == fd && f_open[3] == addr);
    let f_call = seq![call, fd, len, data];
    assert(f_call[0] == call && f_call[1] == fd && f_call[2] == len && f_call[3] == data);
    let f_close = seq!["close"@, fd, ret, rest];
    assert(f_close[0] == "close"@ && f_close[1] == fd);
}

} // verus!
