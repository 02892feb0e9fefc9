//! Sorting a finished trace by file: every buffer written to an opened file
//! or accepted socket is appended to a file of its own, which `ent` then
//! measures.
use vstd::prelude::*;
use crate::action::{LineReading, read_trace, ActionView, TraceAction, after_header, TracePlan, plan_matches, action_views};
use crate::command::texts;
use crate::fd_table::FdTable;
use crate::record::{
    TraceError, decoded_data, record_fields, join_path,
    decode_data, split_record, RecordFields, is_word, join_path_vec,
};
use crate::text::{
    replace_char, after_last, string_of, replace_char_vec, chars_of, after_last_vec,
    lemma_after_last_of_join,
};

verus! {

/// The directory the buffers are sorted into.
pub open spec fn out_dir() -> Seq<char> {
    "outfiles"@
}

/// The file of the traced path `name` (slashes become backslashes).
pub open spec fn sorted_file(name: Seq<char>) -> Seq<char> {
    join_path(out_dir(), replace_char(name, '/', '\\'))
}

/// One record `f` applied to the descriptor table `t`. An accepted socket
/// is keyed by the returned descriptor.
pub open spec fn separate_record_step(t: Map<Seq<char>, Seq<char>>, f: Seq<Seq<char>>) -> (
    Map<Seq<char>, Seq<char>>,
    ActionView,
) {
    let sc = f[0];
    let fd = f[1];
    let ret = f[2];
    let arg = f[3];
    if sc == "open"@ {
        (t.insert(fd, sorted_file(arg)), ActionView::Record)
    } else if sc == "accept4"@ {
        (
            t.insert(ret, join_path(out_dir(), "accept4_"@ + replace_char(arg, '/', '\\'))),
            ActionView::Record,
        )
    } else if sc == "close"@ {
        (t.remove(fd), ActionView::Record)
    } else if t.contains_key(fd) {
        (t, ActionView::Append { path: t[fd], data: arg })
    } else {
        (t, ActionView::Record)
    }
}

/// A line whose JSON reading is `d` applied to `t`; every line must be a
/// full record.
pub open spec fn separate_step(t: Map<Seq<char>, Seq<char>>, d: Option<Seq<char>>) -> Result<
    (Map<Seq<char>, Seq<char>>, ActionView),
    TraceError,
> {
    match decoded_data(d) {
        Err(e) => Err(e),
        Ok(data) => match record_fields(data) {
            None => Err(TraceError::ShortRecord),
            Some(f) => Ok(separate_record_step(t, f)),
        },
    }
}

/// Applies one record to the table of opened files.
fn separate_record(f: &RecordFields, used_fd: &mut FdTable<String>) -> (a: TraceAction)
    ensures
        (final(used_fd)@, a@) == separate_record_step(
            old(used_fd)@,
            seq![f.syscall@, f.arg1@, f.arg2@, f.arg3@],
        ),
{
    let ghost fs = seq![f.syscall@, f.arg1@, f.arg2@, f.arg3@];
    assert(fs[0] == f.syscall@ && fs[1] == f.arg1@ && fs[2] == f.arg2@ && fs[3] == f.arg3@);
    if is_word(&f.syscall, "open") {
        let escaped = replace_char_vec(&f.arg3, '/', '\\');
        let path = join_path_vec("outfiles", &escaped);
        used_fd.insert(string_of(&f.arg1), string_of(&path));
        TraceAction::Record
    } else if is_word(&f.syscall, "accept4") {
        let mut name = chars_of("accept4_");
        let escaped = replace_char_vec(&f.arg3, '/', '\\');
        name.extend_from_slice(escaped.as_slice());
        let path = join_path_vec("outfiles", &name);
        used_fd.insert(string_of(&f.arg2), string_of(&path));
        assert(path@ == join_path(out_dir(), "accept4_"@ + replace_char(f.arg3@, '/', '\\')));
        TraceAction::Record
    } else if is_word(&f.syscall, "close") {
        used_fd.remove(&string_of(&f.arg1));
        assert(used_fd@ == old(used_fd)@.remove(f.arg1@));
        TraceAction::Record
    } else {
        match used_fd.get(&string_of(&f.arg1)) {
            Some(path) => {
                assert(used_fd@ == old(used_fd)@);
                TraceAction::Append { path: path.clone(), data: string_of(&f.arg3) }
            },
            None => {
                assert(used_fd@ == old(used_fd)@);
                TraceAction::Record
            },
        }
    }
}

/// Applies the line whose JSON reading is `data` to the table.
pub fn separate_data(data: Option<String>, used_fd: &mut FdTable<String>) -> (r: Result<
    TraceAction,
    TraceError,
>)
    ensures
        crate::action::step_matches(
            r,
            old(used_fd)@,
            final(used_fd)@,
            separate_step(old(used_fd)@, data.deep_view()),
        ),
{
    let text = match decode_data(data) {
        Err(e) => return Err(e),
        Ok(t) => t,
    };
    match split_record(&text) {
        None => Err(TraceError::ShortRecord),
        Some(f) => Ok(separate_record(&f, used_fd)),
    }
}

/// The sorting of a trace by descriptor.
pub struct Separation;

impl LineReading for Separation {
    type Entry = String;

    open spec fn step(t: Map<Seq<char>, Seq<char>>, d: Option<Seq<char>>) -> Result<(Map<Seq<char>, Seq<char>>, ActionView), TraceError> {
        separate_step(t, d)
    }

    fn apply(data: Option<String>, table: &mut FdTable<String>) -> (r: Result<TraceAction, TraceError>) {
        separate_data(data, table)
    }
}

/// Sorts the lines of a finished trace, whose first line is the probe
/// header: the actions that write each buffer into the file of its
/// descriptor, in trace order, or the error of the first malformed line.
pub fn analyse(lines: &Vec<String>) -> (r: TracePlan)
    ensures
        plan_matches(
            |t: Map<Seq<char>, Seq<char>>, d: Option<Seq<char>>| separate_step(t, d),
            Map::empty(),
            after_header(texts(lines@)),
            action_views(r.actions@),
            r.error,
        ),
{
    let r = read_trace::<Separation>(lines);
    assert((|t: Map<Seq<char>, Seq<char>>, d: Option<Seq<char>>| Separation::step(t, d)) =~= (|t: Map<Seq<char>, Seq<char>>, d: Option<Seq<char>>| separate_step(t, d)));
    r
}


/// The line under which an unencrypted buffer file is reported: its name
/// with backslashes turned back into slashes.
pub open spec fn report_entry_spec(path: Seq<char>) -> Seq<char> {
    replace_char(after_last(path, '/'), '\\', '/') + seq!['\n']
}

/// The line that reports the buffer file `path` as unencrypted.
pub fn report_entry(path: &str) -> (r: String)
    ensures
        r@ == report_entry_spec(path@),
{
    let v = chars_of(path);
    let last = after_last_vec(&v, '/');
    let mut line = replace_char_vec(&last, '\\', '/');
    line.push('\n');
    string_of(&line)
}

/// After a path is opened on a descriptor that the table does not know,
/// every buffer of another call on that descriptor goes to the path's file;
/// once the descriptor is closed, such buffers go nowhere.
pub proof fn law_open_write_close_sorted(
    t: Map<Seq<char>, Seq<char>>,
    fd: Seq<char>,
    ret: Seq<char>,
    name: Seq<char>,
    call: Seq<char>,
    len: Seq<char>,
    data: Seq<char>,
    close_ret: Seq<char>,
    rest: Seq<char>,
)
    requires
        !t.contains_key(fd),
        call != "open"@ && call != "accept4"@ && call != "close"@,
    ensures
        ({
            let t1 = t.insert(fd, sorted_file(name));
            &&& separate_record_step(t, seq!["open"@, fd, ret, name]) == (t1, ActionView::Record)
            &&& separate_record_step(t1, seq![call, fd, len, data]) == (
                t1,
                ActionView::Append { path: sorted_file(name), data },
            )
            &&& separate_record_step(t1, seq!["close"@, fd, close_ret, rest]) == (t, ActionView::Record)
            &&& separate_record_step(t, seq![call, fd, len, data]) == (t, ActionView::Record)
        }),
{
    let t1 = t.insert(fd, sorted_file(name));
    let f_open = seq!["open"@, fd, ret, name];
    assert(f_open[0] == "open"@ && f_open[1] == fd && f_open[3] == name);
    let f_write = seq![call, fd, len, data];
    assert(f_write[0] == call && f_write[1] == fd && f_write[3] == data);
    let f_close = seq!["close"@, fd, close_ret, rest];
    assert(f_close[0] == "close"@ && f_close[1] == fd);
    assert("close"@ != "open"@ && "close"@ != "accept4"@) by {
        reveal_strlit("close");
        reveal_strlit("open");
        reveal_strlit("accept4");
        assert("close"@[0] != "open"@[0]);
        assert("close"@[0] != "accept4"@[0]);
    }
    assert(t1.remove(fd) =~= t);
}

/// A file sorted under the traced path `name` is reported as that path,
/// as long as the path has no backslash.
pub proof fn law_sorted_file_reported_as_path(name: Seq<char>)
    requires
        !name.contains('\\'),
    ensures
        report_entry_spec(sorted_file(name)) == name + seq!['\n'],
{
    let esc = replace_char(name, '/', '\\');
    lemma_after_last_of_join(out_dir(), esc, '/');
    assert(replace_char(esc, '\\', '/') =~= name) by {
        assert forall|i: int| 0 <= i < name.len() implies replace_char(esc, '\\', '/')[i] == name[i] by {
            if name[i] != '/' {
                assert(name[i] != '\\') by {
                    if name[i] == '\\' {
                        assert(name.contains('\\'));
                    }
                }
            }
        }
    }
}

/// The buffers of each traced file and accepted socket go to a file of
/// their own under `outfiles/`: an opened path is keyed by its descriptor
/// and named by the path with slashes turned into backslashes; an accepted
/// socket is keyed by the descriptor `accept4` returned and named
/// `accept4_` followed by its address, likewise escaped. Every later call
/// on that descriptor appends its buffer there.
pub proof fn law_sorted_names(
    t: Map<Seq<char>, Seq<char>>,
    fd: Seq<char>,
    ret: Seq<char>,
    name: Seq<char>,
    call: Seq<char>,
    len: Seq<char>,
    data: Seq<char>,
)
    requires
        call != "open"@ && call != "accept4"@ && call != "close"@,
    ensures
        ({
            let file = "outfiles/"@ + replace_char(name, '/', '\\');
            let t1 = t.insert(fd, file);
            &&& separate_record_step(t, seq!["open"@, fd, ret, name]) == (t1, ActionView::Record)
            &&& separate_record_step(t1, seq![call, fd, len, data]) == (
                t1,
                ActionView::Append { path: file, data },
            )
        }),
        ({
            let sock = "outfiles/accept4_"@ + replace_char(name, '/', '\\');
            let t2 = t.insert(ret, sock);
            &&& separate_record_step(t, seq!["accept4"@, fd, ret, name]) == (t2, ActionView::Record)
            &&& separate_record_step(t2, seq![call, ret, len, data]) == (
                t2,
                ActionView::Append { path: sock, data },
            )
        }),
{
    reveal_strlit("outfiles/");
    reveal_strlit("outfiles");
    reveal_strlit("outfiles/accept4_");
    reveal_strlit("accept4_");
    reveal_strlit("open");
    reveal_strlit("accept4");
    assert("open"@[0] != "accept4"@[0]);
    assert("outfiles/"@ + replace_char(name, '/', '\\') =~= sorted_file(name));
    assert("outfiles/accept4_"@ + replace_char(name, '/', '\\') =~= join_path(
        out_dir(),
        "accept4_"@ + replace_char(name, '/', '\\'),
    ));
    let f_open = seq!["open"@, fd, ret, name];
    assert(f_open[0] == "open"@ && f_open[1] == fd && f_open[3] == name);
    let f_acc = seq!["accept4"@, fd, ret, name];
    assert(f_acc[0] == "accept4"@ && f_acc[2] == ret && f_acc[3] == name);
    let f_call = seq![call, fd, len, data];
    assert(f_call[0] == call && f_call[1] == fd && f_call[3] == data);
    let f_call2 = seq![call, ret, len, data];
    assert(f_call2[0] == call && f_call2[1] == ret && f_call2[3] == data);
}

} // verus!
