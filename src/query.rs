use vstd::prelude::*;

use crate::error::SysProbeError;
use crate::field_map::FieldMap;

verus! {

/// The query text that selects `fields` (a comma-separated list) from `class_name`.
pub fn query_text(class_name: &str, fields: &str) -> (r: String)
    ensures
        r@ == "SELECT "@ + fields@ + " FROM "@ + class_name@,
{
    let mut r = String::from_str("SELECT ");
    r.append(fields);
    r.append(" FROM ");
    r.append(class_name);
    r
}

/// What a query run records for a field whose value could not be fetched.
#[derive(Debug, Clone, Copy, PartialEq, Eq, Structural)]
pub enum FieldFailurePolicy {
    /// Record the field with empty text, as a null value is recorded.
    RecordEmpty,
    /// Leave the field out of the row.
    Omit,
    /// Stop the run with a `FieldFetchError` naming the field.
    Abort,
}

/// The outcome of fetching one field of a row, already formatted as text.
#[derive(Debug)]
pub enum FieldValue {
    Text(String),
    /// The field is present and null, or of a type without a value.
    Null,
    /// Fetching or formatting the field failed.
    Failed,
}

/// What the service reported to a query run.
#[derive(Debug)]
pub enum QueryEvent {
    /// Fetching the next row returned no row: the result set is over.
    RowsEnded,
    /// A row arrived; these are the names of its non-system fields.
    RowArrived(Vec<String>),
    /// The field that the run asked for was fetched.
    FieldFetched(FieldValue),
}

/// What a query run asks its driver to do next.
#[derive(Debug)]
pub enum QueryAction {
    /// Fetch the next row, waiting as long as it takes.
    FetchRow,
    /// Fetch and format the field of that name of the current row.
    FetchField(String),
    /// All rows are in; take them with `into_rows`.
    Finished,
    /// The run stopped with this error.
    Abort(SysProbeError),
}

#[derive(Debug, Clone, Copy, PartialEq, Eq, Structural)]
pub enum QueryPhase {
    AwaitingRow,
    AwaitingField,
    Finished,
    Aborted,
}

/// The text recorded for a fetched field, or `None` when the field is left out.
pub open spec fn recorded_text(v: FieldValue, policy: FieldFailurePolicy) -> Option<Seq<char>> {
    match v {
        FieldValue::Text(t) => Some(t@),
        FieldValue::Null => Some(Seq::empty()),
        FieldValue::Failed => if policy == FieldFailurePolicy::Omit {
            None
        } else {
            Some(Seq::empty())
        },
    }
}

/// The decisions of one query execution: which row or field to fetch next, and how
/// each field's outcome enters the rows collected so far.
pub struct QueryRun {
    policy: FieldFailurePolicy,
    phase: QueryPhase,
    rows: Vec<FieldMap>,
    row: FieldMap,
    names: Vec<String>,
    next: usize,
}

impl QueryRun {
    pub closed spec fn wf(&self) -> bool {
        &&& forall|i: int| 0 <= i < self.rows@.len() ==> (#[trigger] self.rows@[i]).wf()
        &&& self.row.wf()
        &&& self.next <= self.names@.len()
        &&& self.phase == QueryPhase::AwaitingField ==> self.next < self.names@.len()
    }

    pub closed spec fn spec_phase(&self) -> QueryPhase {
        self.phase
    }

    pub closed spec fn spec_policy(&self) -> FieldFailurePolicy {
        self.policy
    }

    /// The rows completed so far.
    pub closed spec fn spec_rows(&self) -> Seq<Map<Seq<char>, Seq<char>>> {
        self.rows@.map_values(|m: FieldMap| m@)
    }

    /// The fields of the current row recorded so far.
    pub closed spec fn spec_row(&self) -> Map<Seq<char>, Seq<char>> {
        self.row@
    }

    /// The names of the current row's fields not fetched yet.
    pub closed spec fn spec_pending(&self) -> Seq<Seq<char>> {
        self.names@.subrange(self.next as int, self.names@.len() as int).map_values(
            |s: String| s@,
        )
    }

    /// A run that has not fetched anything; its driver fetches the first row.
    pub fn new(policy: FieldFailurePolicy) -> (r: QueryRun)
        ensures
            r.wf(),
            r.spec_policy() == policy,
            r.spec_phase() == QueryPhase::AwaitingRow,
            r.spec_rows() == Seq::<Map<Seq<char>, Seq<char>>>::empty(),
    {
        let r = QueryRun {
            policy,
            phase: QueryPhase::AwaitingRow,
            rows: Vec::new(),
            row: FieldMap::new(),
            names: Vec::new(),
            next: 0,
        };
        assert(r.spec_rows() =~= Seq::empty());
        r
    }

    pub fn phase(&self) -> (r: QueryPhase)
        ensures
            r == self.spec_phase(),
    {
        self.phase
    }

    /// True when `event` is one that a run in phase `phase` expects.
    pub open spec fn expects(phase: QueryPhase, event: QueryEvent) -> bool {
        ||| phase == QueryPhase::AwaitingRow && event is RowsEnded
        ||| phase == QueryPhase::AwaitingRow && event is RowArrived
        ||| phase == QueryPhase::AwaitingField && event is FieldFetched
    }

    /// Takes in what the service reported and says what to do next. A row's fields are
    /// asked for one by one, in the order the row names them; a row is complete when
    /// its last field is in. Field values enter the row as `recorded_text` says, and a
    /// failed fetch under `FieldFailurePolicy::Abort` stops the run. An event that the
    /// phase does not expect stops the run too.
    pub fn step(&mut self, event: QueryEvent) -> (r: QueryAction)
        requires
            old(self).wf(),
        ensures
            final(self).wf(),
            final(self).spec_policy() == old(self).spec_policy(),
            (old(self).spec_phase() == QueryPhase::AwaitingRow && event is RowsEnded) ==> {
                &&& final(self).spec_phase() == QueryPhase::Finished
                &&& final(self).spec_rows() == old(self).spec_rows()
                &&& r is Finished
            },
            (old(self).spec_phase() == QueryPhase::AwaitingRow && event is RowArrived) ==> ({
                let names = event->RowArrived_0@.map_values(|s: String| s@);
                if names.len() == 0 {
                    &&& final(self).spec_phase() == QueryPhase::AwaitingRow
                    &&& final(self).spec_rows() == old(self).spec_rows().push(
                        Map::<Seq<char>, Seq<char>>::empty(),
                    )
                    &&& r is FetchRow
                } else {
                    &&& final(self).spec_phase() == QueryPhase::AwaitingField
                    &&& final(self).spec_rows() == old(self).spec_rows()
                    &&& final(self).spec_row() == Map::<Seq<char>, Seq<char>>::empty()
                    &&& final(self).spec_pending() == names
                    &&& r matches QueryAction::FetchField(n) && n@ == names[0]
                }
            }),
            (old(self).spec_phase() == QueryPhase::AwaitingField && event is FieldFetched) ==> ({
                let v = event->FieldFetched_0;
                let name = old(self).spec_pending()[0];
                let policy = old(self).spec_policy();
                if v is Failed && policy == FieldFailurePolicy::Abort {
                    &&& final(self).spec_phase() == QueryPhase::Aborted
                    &&& final(self).spec_rows() == old(self).spec_rows()
                    &&& r matches QueryAction::Abort(SysProbeError::FieldFetchError(n)) && n@ == name
                } else {
                    let row = match recorded_text(v, policy) {
                        Some(t) => old(self).spec_row().insert(name, t),
                        None => old(self).spec_row(),
                    };
                    if old(self).spec_pending().len() == 1 {
                        &&& final(self).spec_phase() == QueryPhase::AwaitingRow
                        &&& final(self).spec_rows() == old(self).spec_rows().push(row)
                        &&& r is FetchRow
                    } else {
                        &&& final(self).spec_phase() == QueryPhase::AwaitingField
                        &&& final(self).spec_rows() == old(self).spec_rows()
                        &&& final(self).spec_row() == row
                        &&& final(self).spec_pending() == old(self).spec_pending().drop_first()
                        &&& r matches QueryAction::FetchField(n) && n@ == old(
                            self,
                        ).spec_pending()[1]
                    }
                }
            }),
            !Self::expects(old(self).spec_phase(), event) ==> {
                &&& final(self).spec_phase() == QueryPhase::Aborted
                &&& final(self).spec_rows() == old(self).spec_rows()
                &&& r matches QueryAction::Abort(SysProbeError::UnexpectedQueryEvent)
            },
    {
        let ghost old_rows = self.spec_rows();
        match event {
            QueryEvent::RowsEnded => {
                if self.phase == QueryPhase::AwaitingRow {
                    self.phase = QueryPhase::Finished;
                    QueryAction::Finished
                } else {
                    self.phase = QueryPhase::Aborted;
                    QueryAction::Abort(SysProbeError::UnexpectedQueryEvent)
                }
            },
            QueryEvent::RowArrived(names) => {
                if self.phase != QueryPhase::AwaitingRow {
                    self.phase = QueryPhase::Aborted;
                    QueryAction::Abort(SysProbeError::UnexpectedQueryEvent)
                } else if names.len() == 0 {
                    self.rows.push(FieldMap::new());
                    assert(self.spec_rows() =~= old_rows.push(Map::<Seq<char>, Seq<char>>::empty()));
                    QueryAction::FetchRow
                } else {
                    let first = names[0].clone();
                    self.row = FieldMap::new();
                    self.names = names;
                    self.next = 0;
                    self.phase = QueryPhase::AwaitingField;
                    assert(self.spec_pending() =~= self.names@.map_values(|s: String| s@));
                    QueryAction::FetchField(first)
                }
            },
            QueryEvent::FieldFetched(v) => {
                if self.phase != QueryPhase::AwaitingField {
                    self.phase = QueryPhase::Aborted;
                    return QueryAction::Abort(SysProbeError::UnexpectedQueryEvent);
                }
                let ghost pending = self.spec_pending();
                let count = self.names.len();
                let k = self.next;
                let name = self.names[k].clone();
                assert(name@ == pending[0]);
                match v {
                    FieldValue::Text(t) => self.row.insert(name, t),
                    FieldValue::Null => self.row.insert(name, String::new()),
                    FieldValue::Failed => match self.policy {
                        FieldFailurePolicy::RecordEmpty => self.row.insert(name, String::new()),
                        FieldFailurePolicy::Omit => {},
                        FieldFailurePolicy::Abort => {
                            self.phase = QueryPhase::Aborted;
                            return QueryAction::Abort(SysProbeError::FieldFetchError(name));
                        },
                    },
                }
                self.next = k + 1;
                if self.next == count {
                    let mut done = FieldMap::new();
                    core::mem::swap(&mut done, &mut self.row);
                    self.rows.push(done);
                    self.phase = QueryPhase::AwaitingRow;
                    assert(self.spec_rows() =~= old_rows.push(done@));
                    QueryAction::FetchRow
                } else {
                    assert(self.spec_pending() =~= pending.drop_first());
                    QueryAction::FetchField(self.names[self.next].clone())
                }
            },
        }
    }

    /// The completed rows, in the order they arrived.
    pub fn into_rows(self) -> (r: Vec<FieldMap>)
        requires
            self.wf(),
        ensures
            r@.len() == self.spec_rows().len(),
            forall|i: int| 0 <= i < r@.len() ==> (#[trigger] r@[i])@ == self.spec_rows()[i],
            forall|i: int| 0 <= i < r@.len() ==> (#[trigger] r@[i]).wf(),
    {
        self.rows
    }
}

} // verus!
