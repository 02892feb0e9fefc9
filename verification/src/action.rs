//! What the analysis asks its caller to do with the file system after a
//! trace line: the library decides, the caller performs.
use vstd::prelude::*;
use crate::command::texts;
use crate::fd_table::FdTable;
use crate::record::{TraceError, json_data_field};

verus! {

/// The action a processed trace line calls for.
#[derive(Debug, PartialEq, Eq)]
pub enum TraceAction {
    /// Nothing: the line is not a record.
    Ignore,
    /// Report the line: it has too few fields.
    Report,
    /// The record was taken into account; no file is touched.
    Record,
    /// Append `data` to the file at `path`, creating it when missing.
    Append { path: String, data: String },
    /// The descriptor of the file at `path` was closed: analyse that file.
    Close { path: String },
    /// The descriptor of the traced file `name`, whose buffers went to
    /// `path`, was closed: evaluate that file.
    Evaluate { name: String, path: String },
}

/// A `TraceAction` with its texts as character sequences.
pub enum ActionView {
    Ignore,
    Report,
    Record,
    Append { path: Seq<char>, data: Seq<char> },
    Close { path: Seq<char> },
    Evaluate { name: Seq<char>, path: Seq<char> },
}

impl View for TraceAction {
    type V = ActionView;

    open spec fn view(&self) -> ActionView {
        match self {
            TraceAction::Ignore => ActionView::Ignore,
            TraceAction::Report => ActionView::Report,
            TraceAction::Record => ActionView::Record,
            TraceAction::Append { path, data } => ActionView::Append { path: path@, data: data@ },
            TraceAction::Close { path } => ActionView::Close { path: path@ },
            TraceAction::Evaluate { name, path } => ActionView::Evaluate { name: name@, path: path@ },
        }
    }
}

/// The result `r` of a step, which took the table from `before` to `after`,
/// is the one `expected` describes; a failed step leaves the table as it was.
pub open spec fn step_matches<T>(
    r: Result<TraceAction, TraceError>,
    before: T,
    after: T,
    expected: Result<(T, ActionView), TraceError>,
) -> bool {
    match (r, expected) {
        (Ok(a), Ok((t, v))) => a@ == v && after == t,
        (Err(e), Err(f)) => e == f && after == before,
        _ => false,
    }
}

/// The state and the actions after the lines `lines`, each read as JSON
/// and applied with `step`, starting from `t`; or the error of the first
/// line that fails.
pub open spec fn run_lines<T>(
    step: spec_fn(T, Option<Seq<char>>) -> Result<(T, ActionView), TraceError>,
    t: T,
    lines: Seq<Seq<char>>,
) -> Result<(T, Seq<ActionView>), TraceError>
    decreases lines.len(),
{
    if lines.len() == 0 {
        Ok((t, Seq::empty()))
    } else {
        match run_lines(step, t, lines.drop_last()) {
            Err(e) => Err(e),
            Ok((t1, acts)) => match step(t1, crate::record::json_data_text(lines.last())) {
                Err(e) => Err(e),
                Ok((t2, a)) => Ok((t2, acts.push(a))),
            },
        }
    }
}

/// The lines after the first one, which is the probe header.
pub open spec fn after_header(lines: Seq<Seq<char>>) -> Seq<Seq<char>> {
    if lines.len() == 0 {
        lines
    } else {
        lines.skip(1)
    }
}

/// What reading a whole trace calls for: the actions of the lines that
/// could be read, in order, and the error of the first line that could
/// not, if any (the lines after it are not read).
pub struct TracePlan {
    pub actions: Vec<TraceAction>,
    pub error: Option<TraceError>,
}

/// The actions of a plan as views.
pub open spec fn action_views(v: Seq<TraceAction>) -> Seq<ActionView> {
    v.map_values(|a: TraceAction| a@)
}

/// `actions` and `error` are what reading `lines` with `step` from `t`
/// gives: all actions when every line can be read; otherwise the actions
/// of the lines before the first one that fails, and its error.
pub open spec fn plan_matches<T>(
    step: spec_fn(T, Option<Seq<char>>) -> Result<(T, ActionView), TraceError>,
    t: T,
    lines: Seq<Seq<char>>,
    actions: Seq<ActionView>,
    error: Option<TraceError>,
) -> bool {
    match error {
        None => run_lines(step, t, lines) is Ok && run_lines(step, t, lines)->Ok_0.1 == actions,
        Some(e) => exists|k: int|
            0 <= k < lines.len() && #[trigger] run_lines(step, t, lines.take(k)) is Ok && run_lines(
                step,
                t,
                lines.take(k),
            )->Ok_0.1 == actions && run_lines(step, t, lines.take(k + 1)) == Err::<
                (T, Seq<ActionView>),
                TraceError,
            >(e),
    }
}

/// A reading of a trace that follows descriptors in a table of `Entry`
/// values, one JSON line at a time.
pub trait LineReading {
    type Entry: View;

    /// The line whose JSON reading is `d` applied to the table `t`.
    spec fn step(t: Map<Seq<char>, <Self::Entry as View>::V>, d: Option<Seq<char>>) -> Result<
        (Map<Seq<char>, <Self::Entry as View>::V>, ActionView),
        TraceError,
    >;

    /// Applies the line whose JSON reading is `data` to the table.
    fn apply(data: Option<String>, table: &mut FdTable<Self::Entry>) -> (r: Result<TraceAction, TraceError>)
        ensures
            step_matches(r, old(table)@, final(table)@, Self::step(old(table)@, data.deep_view())),
    ;
}

/// Reads a finished trace, whose first line is the probe header, with the
/// reading `R` from an empty table: the actions of its lines in order, up to
/// the first line that fails, and that line's error.
pub fn read_trace<R: LineReading>(lines: &Vec<String>) -> (r: TracePlan)
    ensures
        plan_matches(
            |t: Map<Seq<char>, <R::Entry as View>::V>, d: Option<Seq<char>>| R::step(t, d),
            Map::empty(),
            after_header(texts(lines@)),
            action_views(r.actions@),
            r.error,
        ),
{
    let ghost step = |t: Map<Seq<char>, <R::Entry as View>::V>, d: Option<Seq<char>>| R::step(t, d);
    let ghost all = texts(lines@);
    let ghost body = after_header(all);
    let mut table: FdTable<R::Entry> = FdTable::new();
    let mut actions: Vec<TraceAction> = Vec::new();
    if lines.len() == 0 {
        assert(body.len() == 0);
        assert(action_views(actions@) =~= Seq::<ActionView>::empty());
        return TracePlan { actions, error: None };
    }
    let mut i: usize = 1;
    assert(body.take(0) =~= Seq::<Seq<char>>::empty());
    assert(action_views(actions@) =~= Seq::<ActionView>::empty());
    while i < lines.len()
        invariant
            1 <= i <= lines@.len(),
            step == (|t: Map<Seq<char>, <R::Entry as View>::V>, d: Option<Seq<char>>| R::step(t, d)),
            all == texts(lines@),
            body == all.skip(1),
            run_lines(step, Map::empty(), body.take(i - 1)) == Ok::<
                (Map<Seq<char>, <R::Entry as View>::V>, Seq<ActionView>),
                TraceError,
            >((table@, action_views(actions@))),
        decreases lines@.len() - i,
    {
        let ghost prefix = body.take(i - 1);
        let ghost next = body.take(i as int);
        assert(next.drop_last() == prefix);
        assert(next.last() == lines@[i as int]@);
        let data = json_data_field(lines[i].as_str());
        match R::apply(data, &mut table) {
            Err(e) => {
                assert(next == body.take((i - 1) + 1));
                return TracePlan { actions, error: Some(e) };
            },
            Ok(a) => {
                let ghost before = actions@;
                actions.push(a);
                assert(action_views(actions@) =~= action_views(before).push(a@));
            },
        }
        i = i + 1;
    }
    assert(body.take(i - 1) == body);
    TracePlan { actions, error: None }
}

} // verus!
