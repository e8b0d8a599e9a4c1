//! The figures of the statistics page.

use crate::error::Error;
use vstd::prelude::*;

verus! {

/// One line of a table: a label and a count.
pub type Row = (String, i64);

/// Which table a store query fills.
#[derive(Clone, Copy, Debug, PartialEq, Eq, Structural)]
pub enum StatsKey {
    /// How many artifacts were imported on each date.
    ImportDates,
    /// How many tasks are waiting, by kind.
    PendingTasks,
}

/// The tables of the statistics page. A table is absent until its query
/// has come back.
#[derive(Clone, Debug, PartialEq, Eq)]
pub struct StatsData {
    pub import_dates: Option<Vec<Row>>,
    pub pending_tasks: Option<Vec<Row>>,
    /// The sum over `import_dates`. Absent with that table, and where the
    /// sum does not fit the count's type.
    pub total_artifacts: Option<i64>,
}

/// The sum of the counts of `rows`.
pub open spec fn spec_sum(rows: Seq<Row>) -> int
    decreases rows.len(),
{
    if rows.len() == 0 {
        0
    } else {
        spec_sum(rows.drop_last()) + rows.last().1
    }
}

/// Whether the sum of every leading part of `rows` fits an `i64`.
pub open spec fn sums_fit(rows: Seq<Row>) -> bool {
    forall|k: int|
        0 <= k <= rows.len() ==> i64::MIN <= #[trigger] spec_sum(rows.take(k)) <= i64::MAX
}

/// The sum of the counts of `rows`, as long as adding them up one after
/// the other never leaves the range of `i64`.
pub fn total(rows: &Vec<Row>) -> (sum: Option<i64>)
    ensures
        sum is Some <==> sums_fit(rows@),
        sum matches Some(s) ==> s == spec_sum(rows@),
{
    let mut sum: i64 = 0;
    let mut i: usize = 0;
    assert(rows@.take(0).len() == 0);
    while i < rows.len()
        invariant
            i <= rows.len(),
            sum == spec_sum(rows@.take(i as int)),
            forall|k: int|
                0 <= k <= i ==> i64::MIN <= #[trigger] spec_sum(rows@.take(k)) <= i64::MAX,
        decreases rows.len() - i,
    {
        let ghost next = rows@.take(i + 1);
        assert(next.drop_last() == rows@.take(i as int));
        assert(next.last() == rows@[i as int]);
        match sum.checked_add(rows[i].1) {
            Some(s) => {
                sum = s;
            },
            None => {
                assert(!(i64::MIN <= spec_sum(rows@.take(i + 1)) <= i64::MAX));
                return None;
            },
        }
        i += 1;
    }
    assert(rows@.take(rows@.len() as int) == rows@);
    Some(sum)
}

/// The total of `rows`, where it can be had.
pub open spec fn spec_total(rows: Seq<Row>) -> Option<i64> {
    if sums_fit(rows) {
        Some(spec_sum(rows) as i64)
    } else {
        None
    }
}

/// The tables after the answer `rows` to the query for `key`: the answer
/// takes the place of the table, and import dates bring their total.
pub open spec fn spec_record(data: StatsData, key: StatsKey, rows: Vec<Row>) -> StatsData {
    match key {
        StatsKey::ImportDates => StatsData {
            import_dates: Some(rows),
            pending_tasks: data.pending_tasks,
            total_artifacts: spec_total(rows@),
        },
        StatsKey::PendingTasks => StatsData {
            import_dates: data.import_dates,
            pending_tasks: Some(rows),
            total_artifacts: data.total_artifacts,
        },
    }
}

impl StatsData {
    /// No table yet.
    pub fn new() -> (data: StatsData)
        ensures
            data.import_dates is None,
            data.pending_tasks is None,
            data.total_artifacts is None,
    {
        StatsData { import_dates: None, pending_tasks: None, total_artifacts: None }
    }

    /// Takes in the answer to the query for `key`. A query that failed
    /// fails the page.
    pub fn record(self, key: StatsKey, answer: Result<Vec<Row>, Error>) -> (out: Result<
        StatsData,
        Error,
    >)
        ensures
            match answer {
                Ok(rows) => out == Ok::<StatsData, Error>(spec_record(self, key, rows)),
                Err(e) => out == Err::<StatsData, Error>(e),
            },
    {
        match answer {
            Err(e) => Err(e),
            Ok(rows) => match key {
                StatsKey::ImportDates => {
                    let sum = total(&rows);
                    Ok(
                        StatsData {
                            import_dates: Some(rows),
                            pending_tasks: self.pending_tasks,
                            total_artifacts: sum,
                        },
                    )
                },
                StatsKey::PendingTasks => Ok(
                    StatsData {
                        import_dates: self.import_dates,
                        pending_tasks: Some(rows),
                        total_artifacts: self.total_artifacts,
                    },
                ),
            },
        }
    }
}

} // verus!
