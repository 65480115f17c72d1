//! What an insertion's requests do to a table, over a model of a
//! transactional database: rows become visible only through a commit.
use vstd::prelude::*;

use crate::db::{
    binds_at, bound_row, enter_row, opening, request_of, row_binds, step, BoundView,
    InsertErrorView, OutcomeView, PhaseView, RequestView, Scope, Stage,
};
use crate::json::{cell_conforms, columns_are_typed, rows_conform, validation, JsonDataView};

verus! {

/// A table as a transactional database keeps it: the rows that everyone
/// sees, and the rows that the open transaction has written, if one is open.
pub struct Ledger {
    pub committed: Seq<Seq<BoundView>>,
    pub pending: Option<Seq<Seq<BoundView>>>,
}

/// A request that failed changes nothing, except that a failed commit or
/// rollback closes the transaction without its rows. A request that
/// succeeded does what it names: `Begin` opens a transaction without rows,
/// `Execute` adds a row to it, `Commit` appends its rows to the visible ones
/// and `Rollback` drops them.
pub open spec fn perform(ledger: Ledger, request: RequestView, outcome: OutcomeView) -> Ledger {
    match request {
        RequestView::Begin => match outcome {
            OutcomeView::Succeeded => Ledger { pending: Some(Seq::empty()), ..ledger },
            OutcomeView::Failed(_) => ledger,
        },
        RequestView::Execute { statement, arguments } => match (outcome, ledger.pending) {
            (OutcomeView::Succeeded, Some(rows)) => Ledger {
                pending: Some(rows.push(arguments)),
                ..ledger
            },
            _ => ledger,
        },
        RequestView::Commit => match (outcome, ledger.pending) {
            (OutcomeView::Succeeded, Some(rows)) => Ledger {
                committed: ledger.committed + rows,
                pending: None,
            },
            _ => Ledger { pending: None, ..ledger },
        },
        RequestView::Rollback => Ledger { pending: None, ..ledger },
        RequestView::Stop => ledger,
    }
}

/// An insertion driven through a sequence of answers: each answer is given to
/// the request under way, which is performed on the ledger with that answer.
pub open spec fn run(
    data: JsonDataView,
    scope: Scope,
    phase: PhaseView,
    ledger: Ledger,
    outcomes: Seq<OutcomeView>,
) -> (PhaseView, Ledger)
    decreases outcomes.len(),
{
    if outcomes.len() == 0 {
        (phase, ledger)
    } else {
        run(
            data,
            scope,
            step(data, scope, phase, outcomes[0]),
            perform(ledger, request_of(data, phase), outcomes[0]),
            outcomes.skip(1),
        )
    }
}

/// The bound values of the first `n` rows, in row order.
pub open spec fn bound_rows(data: JsonDataView, n: int) -> Seq<Seq<BoundView>> {
    Seq::new(n as nat, |r: int| bound_row(data.table_columns, data.table_rows[r]))
}

/// Every row of the description binds.
pub open spec fn all_rows_bind(data: JsonDataView) -> bool {
    forall|r: int|
        0 <= r < data.table_rows.len() ==> row_binds(
            data.table_columns,
            #[trigger] data.table_rows[r],
        )
}

/// `n` answers, each of them a success.
pub open spec fn successes(n: int) -> Seq<OutcomeView> {
    Seq::new(n as nat, |i: int| OutcomeView::Succeeded)
}

/// The insertion has ended in success.
pub open spec fn ended_well(phase: PhaseView) -> bool {
    phase matches PhaseView::Finished(Ok(_))
}

/// How phase and ledger hang together while an insertion runs on a table
/// whose visible rows were `base` when it opened.
pub open spec fn consistent(
    data: JsonDataView,
    base: Seq<Seq<BoundView>>,
    phase: PhaseView,
    ledger: Ledger,
) -> bool {
    match phase {
        PhaseView::Beginning => ledger.committed == base && ledger.pending.is_none(),
        PhaseView::Executing(i) => {
            &&& 0 <= i < data.table_rows.len()
            &&& ledger.committed == base
            &&& ledger.pending == Some(bound_rows(data, i))
            &&& forall|r: int|
                0 <= r <= i ==> row_binds(data.table_columns, #[trigger] data.table_rows[r])
        },
        PhaseView::Committing => {
            &&& ledger.committed == base
            &&& ledger.pending == Some(bound_rows(data, data.table_rows.len() as int))
            &&& all_rows_bind(data)
        },
        PhaseView::RollingBack(_) => ledger.committed == base,
        PhaseView::Finished(Ok(_)) => {
            &&& ledger.committed == base + bound_rows(data, data.table_rows.len() as int)
            &&& ledger.pending.is_none()
            &&& all_rows_bind(data)
        },
        PhaseView::Finished(Err(_)) => ledger.committed == base && ledger.pending.is_none(),
    }
}

proof fn lemma_enter_row(data: JsonDataView, base: Seq<Seq<BoundView>>, ledger: Ledger, i: int)
    requires
        0 <= i <= data.table_rows.len(),
        ledger.committed == base,
        ledger.pending == Some(bound_rows(data, i)),
        forall|r: int| 0 <= r < i ==> row_binds(data.table_columns, #[trigger] data.table_rows[r]),
    ensures
        consistent(data, base, enter_row(data, Scope::Transaction, i), ledger),
{
}

proof fn lemma_step(
    data: JsonDataView,
    base: Seq<Seq<BoundView>>,
    phase: PhaseView,
    ledger: Ledger,
    outcome: OutcomeView,
)
    requires
        consistent(data, base, phase, ledger),
    ensures
        consistent(
            data,
            base,
            step(data, Scope::Transaction, phase, outcome),
            perform(ledger, request_of(data, phase), outcome),
        ),
{
    let after = perform(ledger, request_of(data, phase), outcome);
    match phase {
        PhaseView::Beginning => {
            if outcome is Succeeded {
                assert(bound_rows(data, 0) =~= Seq::<Seq<BoundView>>::empty());
                lemma_enter_row(data, base, after, 0);
            }
        },
        PhaseView::Executing(i) => {
            if outcome is Succeeded {
                assert(bound_rows(data, i).push(bound_row(data.table_columns, data.table_rows[i]))
                    =~= bound_rows(data, i + 1));
                lemma_enter_row(data, base, after, i + 1);
            }
        },
        _ => {},
    }
}

proof fn lemma_run(
    data: JsonDataView,
    base: Seq<Seq<BoundView>>,
    phase: PhaseView,
    ledger: Ledger,
    outcomes: Seq<OutcomeView>,
)
    requires
        consistent(data, base, phase, ledger),
    ensures
        consistent(
            data,
            base,
            run(data, Scope::Transaction, phase, ledger, outcomes).0,
            run(data, Scope::Transaction, phase, ledger, outcomes).1,
        ),
    decreases outcomes.len(),
{
    if outcomes.len() > 0 {
        lemma_step(data, base, phase, ledger, outcomes[0]);
        lemma_run(
            data,
            base,
            step(data, Scope::Transaction, phase, outcomes[0]),
            perform(ledger, request_of(data, phase), outcomes[0]),
            outcomes.skip(1),
        );
    }
}

proof fn lemma_ended_stays(
    data: JsonDataView,
    scope: Scope,
    result: Result<(), InsertErrorView>,
    ledger: Ledger,
    outcomes: Seq<OutcomeView>,
)
    ensures
        run(data, scope, PhaseView::Finished(result), ledger, outcomes) == (
            PhaseView::Finished(result),
            ledger,
        ),
    decreases outcomes.len(),
{
    if outcomes.len() > 0 {
        lemma_ended_stays(data, scope, result, ledger, outcomes.skip(1));
    }
}

/// An insertion is atomic. Whatever the database answers, and however far
/// the insertion has come, the visible rows are those from before it opened;
/// only an insertion that has ended in success has added rows, and then it
/// has added every row of the description, in order, each with the values it
/// binds. An insertion that ended in failure has left no row, and none that
/// has ended has left a transaction open.
pub proof fn insertion_is_atomic(data: JsonDataView, ledger: Ledger, outcomes: Seq<OutcomeView>)
    requires
        ledger.pending.is_none(),
    ensures
        ({
            let (phase, after) = run(data, Scope::Transaction, opening(data), ledger, outcomes);
            &&& ended_well(phase) ==> {
                &&& after.committed == ledger.committed + bound_rows(
                    data,
                    data.table_rows.len() as int,
                )
                &&& validation(data).is_ok()
                &&& all_rows_bind(data)
            }
            &&& !ended_well(phase) ==> after.committed == ledger.committed
            &&& phase is Finished ==> after.pending.is_none()
        }),
{
    match validation(data) {
        Ok(_) => {
            lemma_run(data, ledger.committed, opening(data), ledger, outcomes);
        },
        Err(e) => {
            lemma_ended_stays(
                data,
                Scope::Transaction,
                Err(InsertErrorView::Schema(e)),
                ledger,
                outcomes,
            );
        },
    }
}

/// The index of the row at which an insertion failed, where it failed at a
/// row.
pub open spec fn failed_row(error: InsertErrorView) -> Option<usize> {
    match error {
        InsertErrorView::Bind(e) => Some(e.row),
        InsertErrorView::Execution { row, message } => Some(row),
        _ => None,
    }
}

/// How phase and ledger hang together while rows are executed in a
/// transaction that held the rows `held` when they were taken up: the
/// visible rows are untouched, and the transaction holds, behind `held`,
/// the rows executed so far.
pub open spec fn carried(
    data: JsonDataView,
    base: Seq<Seq<BoundView>>,
    held: Seq<Seq<BoundView>>,
    phase: PhaseView,
    ledger: Ledger,
) -> bool {
    &&& ledger.committed == base
    &&& match phase {
        PhaseView::Executing(i) => {
            &&& 0 <= i < data.table_rows.len()
            &&& ledger.pending == Some(held + bound_rows(data, i))
            &&& forall|r: int|
                0 <= r <= i ==> row_binds(data.table_columns, #[trigger] data.table_rows[r])
        },
        PhaseView::Finished(Ok(_)) => {
            &&& ledger.pending == Some(held + bound_rows(data, data.table_rows.len() as int))
            &&& all_rows_bind(data)
        },
        PhaseView::Finished(Err(e)) => {
            &&& failed_row(e) matches Some(row)
            &&& row < data.table_rows.len()
            &&& ledger.pending == Some(held + bound_rows(data, row as int))
        },
        _ => false,
    }
}

proof fn lemma_take_up_row(
    data: JsonDataView,
    base: Seq<Seq<BoundView>>,
    held: Seq<Seq<BoundView>>,
    ledger: Ledger,
    i: int,
)
    requires
        0 <= i <= data.table_rows.len(),
        ledger.committed == base,
        ledger.pending == Some(held + bound_rows(data, i)),
        forall|r: int| 0 <= r < i ==> row_binds(data.table_columns, #[trigger] data.table_rows[r]),
        data.table_rows.len() <= usize::MAX,
    ensures
        carried(data, base, held, enter_row(data, Scope::Rows, i), ledger),
{
}

proof fn lemma_carried_step(
    data: JsonDataView,
    base: Seq<Seq<BoundView>>,
    held: Seq<Seq<BoundView>>,
    phase: PhaseView,
    ledger: Ledger,
    outcome: OutcomeView,
)
    requires
        carried(data, base, held, phase, ledger),
        data.table_rows.len() <= usize::MAX,
    ensures
        carried(
            data,
            base,
            held,
            step(data, Scope::Rows, phase, outcome),
            perform(ledger, request_of(data, phase), outcome),
        ),
{
    let after = perform(ledger, request_of(data, phase), outcome);
    match phase {
        PhaseView::Executing(i) => {
            if outcome is Succeeded {
                assert((held + bound_rows(data, i)).push(
                    bound_row(data.table_columns, data.table_rows[i]),
                ) =~= held + bound_rows(data, i + 1));
                lemma_take_up_row(data, base, held, after, i + 1);
            }
        },
        _ => {},
    }
}

proof fn lemma_carried_run(
    data: JsonDataView,
    base: Seq<Seq<BoundView>>,
    held: Seq<Seq<BoundView>>,
    phase: PhaseView,
    ledger: Ledger,
    outcomes: Seq<OutcomeView>,
)
    requires
        carried(data, base, held, phase, ledger),
        data.table_rows.len() <= usize::MAX,
    ensures
        carried(
            data,
            base,
            held,
            run(data, Scope::Rows, phase, ledger, outcomes).0,
            run(data, Scope::Rows, phase, ledger, outcomes).1,
        ),
    decreases outcomes.len(),
{
    if outcomes.len() > 0 {
        lemma_carried_step(data, base, held, phase, ledger, outcomes[0]);
        lemma_carried_run(
            data,
            base,
            held,
            step(data, Scope::Rows, phase, outcomes[0]),
            perform(ledger, request_of(data, phase), outcomes[0]),
            outcomes.skip(1),
        );
    }
}

/// Rows taken up inside a transaction that was begun beforehand leave the
/// transaction to the caller. Whatever the database answers, and however
/// far the insertion has come, it has asked only for rows to be executed:
/// it never stands at a begin, a commit or a rollback. The visible rows
/// are those from before, the transaction is still open, and it holds what
/// it held before followed by the rows executed so far, in order: every
/// row of the description once the insertion has ended in success, and the
/// rows before the failed one once it has ended in failure. The description
/// has no more rows than a machine word counts.
pub proof fn taken_up_rows_stay_pending(
    data: JsonDataView,
    ledger: Ledger,
    outcomes: Seq<OutcomeView>,
)
    requires
        ledger.pending.is_some(),
        data.table_rows.len() <= usize::MAX,
    ensures
        ({
            let held = ledger.pending.unwrap();
            let (phase, after) = run(
                data,
                Scope::Rows,
                enter_row(data, Scope::Rows, 0),
                ledger,
                outcomes,
            );
            &&& phase is Executing || phase is Finished
            &&& request_of(data, phase) is Execute || request_of(data, phase) is Stop
            &&& after.committed == ledger.committed
            &&& carried(data, ledger.committed, held, phase, after)
            &&& ended_well(phase) ==> {
                &&& after.pending == Some(held + bound_rows(data, data.table_rows.len() as int))
                &&& all_rows_bind(data)
            }
            &&& phase matches PhaseView::Executing(i) ==> after.pending == Some(
                held + bound_rows(data, i),
            )
            &&& phase matches PhaseView::Finished(Err(e)) ==> {
                &&& failed_row(e) matches Some(row)
                &&& after.pending == Some(held + bound_rows(data, row as int))
            }
        }),
{
    let held = ledger.pending.unwrap();
    assert(held + bound_rows(data, 0) =~= held);
    lemma_take_up_row(data, ledger.committed, held, ledger, 0);
    lemma_carried_run(
        data,
        ledger.committed,
        held,
        enter_row(data, Scope::Rows, 0),
        ledger,
        outcomes,
    );
}

proof fn lemma_successes_reach(
    data: JsonDataView,
    ledger: Ledger,
    i: int,
    m: int,
    tail: Seq<OutcomeView>,
)
    requires
        0 <= i <= m < data.table_rows.len(),
        ledger.pending == Some(bound_rows(data, i)),
        forall|r: int| i <= r <= m ==> row_binds(data.table_columns, #[trigger] data.table_rows[r]),
    ensures
        run(data, Scope::Transaction, enter_row(data, Scope::Transaction, i), ledger, successes(m - i) + tail) == run(
            data,
            Scope::Transaction,
            PhaseView::Executing(m),
            Ledger { pending: Some(bound_rows(data, m)), ..ledger },
            tail,
        ),
    decreases m - i,
{
    let outcomes = successes(m - i) + tail;
    assert(row_binds(data.table_columns, data.table_rows[i]));
    assert(enter_row(data, Scope::Transaction, i) == PhaseView::Executing(i));
    if i == m {
        assert(outcomes =~= tail);
    } else {
        let next = perform(ledger, request_of(data, enter_row(data, Scope::Transaction, i)), outcomes[0]);
        assert(bound_rows(data, i).push(bound_row(data.table_columns, data.table_rows[i]))
            =~= bound_rows(data, i + 1));
        assert(outcomes.skip(1) =~= successes(m - (i + 1)) + tail);
        lemma_successes_reach(data, next, i + 1, m, tail);
    }
}

proof fn lemma_successes_finish(data: JsonDataView, ledger: Ledger, i: int)
    requires
        0 <= i <= data.table_rows.len(),
        ledger.pending == Some(bound_rows(data, i)),
        all_rows_bind(data),
    ensures
        run(data, Scope::Transaction, enter_row(data, Scope::Transaction, i), ledger, successes(data.table_rows.len() - i + 1)) == (
            PhaseView::Finished(Ok(())),
            Ledger {
                committed: ledger.committed + bound_rows(data, data.table_rows.len() as int),
                pending: None,
            },
        ),
    decreases data.table_rows.len() - i,
{
    let outcomes = successes(data.table_rows.len() - i + 1);
    let phase = enter_row(data, Scope::Transaction, i);
    let next = perform(ledger, request_of(data, phase), outcomes[0]);
    if i == data.table_rows.len() {
        assert(outcomes.skip(1).len() == 0);
        assert(run(data, Scope::Transaction, step(data, Scope::Transaction, phase, outcomes[0]), next, outcomes.skip(1)) == (
            step(data, Scope::Transaction, phase, outcomes[0]),
            next,
        ));
    } else {
        assert(row_binds(data.table_columns, data.table_rows[i]));
        assert(bound_rows(data, i).push(bound_row(data.table_columns, data.table_rows[i]))
            =~= bound_rows(data, i + 1));
        assert(outcomes.skip(1) =~= successes(data.table_rows.len() - (i + 1) + 1));
        lemma_successes_finish(data, next, i + 1);
    }
}

/// Where the description is valid, every row binds and the database
/// answers every request with success, the insertion ends in success after
/// one `Begin`, one `Execute` per row and one `Commit`, and the table then
/// shows its former rows followed by every row of the description.
pub proof fn successes_persist_every_row(data: JsonDataView, ledger: Ledger)
    requires
        validation(data).is_ok(),
        all_rows_bind(data),
        ledger.pending.is_none(),
    ensures
        run(data, Scope::Transaction, opening(data), ledger, successes(data.table_rows.len() as int + 2)) == (
            PhaseView::Finished(Ok(())),
            Ledger {
                committed: ledger.committed + bound_rows(data, data.table_rows.len() as int),
                pending: None,
            },
        ),
{
    let outcomes = successes(data.table_rows.len() as int + 2);
    let begun = perform(ledger, request_of(data, opening(data)), outcomes[0]);
    assert(bound_rows(data, 0) =~= Seq::<Seq<BoundView>>::empty());
    assert(outcomes.skip(1) =~= successes(data.table_rows.len() - 0 + 1));
    lemma_successes_finish(data, begun, 0);
}

/// Running the same valid insertion twice, with every request answered by
/// success, leaves every row of the description in the table twice: the
/// rows of the first run, whole and in order, followed by those of the
/// second.
pub proof fn rerun_doubles_rows(data: JsonDataView, ledger: Ledger)
    requires
        validation(data).is_ok(),
        all_rows_bind(data),
        ledger.pending.is_none(),
    ensures
        ({
            let answers = successes(data.table_rows.len() as int + 2);
            let rows = bound_rows(data, data.table_rows.len() as int);
            let (first, between) = run(data, Scope::Transaction, opening(data), ledger, answers);
            let (second, after) = run(data, Scope::Transaction, opening(data), between, answers);
            &&& ended_well(first)
            &&& ended_well(second)
            &&& between.committed == ledger.committed + rows
            &&& after.committed == ledger.committed + rows + rows
            &&& after.pending.is_none()
        }),
{
    successes_persist_every_row(data, ledger);
    let answers = successes(data.table_rows.len() as int + 2);
    let (first, between) = run(data, Scope::Transaction, opening(data), ledger, answers);
    successes_persist_every_row(data, between);
}

/// The error with which an insertion ends once a rollback was answered.
pub open spec fn after_rollback(cause: InsertErrorView, rollback: OutcomeView) -> InsertErrorView {
    match rollback {
        OutcomeView::Succeeded => cause,
        OutcomeView::Failed(message) => InsertErrorView::Transaction {
            stage: Stage::Rollback,
            message,
        },
    }
}

/// Where the statement fails for the row at index `m` after it succeeded for
/// every row before, the next request is a rollback, and once that is
/// answered the insertion has ended in failure and the table shows exactly
/// the rows from before: none of the rows before `m` either.
pub proof fn failed_row_leaves_no_row(
    data: JsonDataView,
    ledger: Ledger,
    m: int,
    message: Seq<char>,
    rollback: OutcomeView,
)
    requires
        validation(data).is_ok(),
        ledger.pending.is_none(),
        0 <= m < data.table_rows.len(),
        forall|r: int| 0 <= r <= m ==> row_binds(data.table_columns, #[trigger] data.table_rows[r]),
    ensures
        ({
            let failed = successes(m + 1).push(OutcomeView::Failed(message));
            let cause = InsertErrorView::Execution { row: m as usize, message };
            &&& run(data, Scope::Transaction, opening(data), ledger, failed).0 == PhaseView::RollingBack(cause)
            &&& request_of(data, run(data, Scope::Transaction, opening(data), ledger, failed).0)
                == RequestView::Rollback
            &&& run(data, Scope::Transaction, opening(data), ledger, failed.push(rollback)) == (
                PhaseView::Finished(Err(after_rollback(cause, rollback))),
                Ledger { committed: ledger.committed, pending: None },
            )
        }),
{
    let failure = OutcomeView::Failed(message);
    let short = seq![failure];
    let long = seq![failure, rollback];
    let failed = successes(m + 1).push(failure);
    let begun = perform(ledger, request_of(data, opening(data)), OutcomeView::Succeeded);
    let reached = Ledger { pending: Some(bound_rows(data, m)), ..begun };
    assert(bound_rows(data, 0) =~= Seq::<Seq<BoundView>>::empty());
    assert(failed.skip(1) =~= successes(m - 0) + short);
    assert(failed.push(rollback).skip(1) =~= successes(m - 0) + long);
    lemma_successes_reach(data, begun, 0, m, short);
    lemma_successes_reach(data, begun, 0, m, long);
    let rolling = step(data, Scope::Transaction, PhaseView::Executing(m), failure);
    let unchanged = perform(reached, request_of(data, PhaseView::Executing(m)), failure);
    assert(short.skip(1).len() == 0);
    assert(run(data, Scope::Transaction, PhaseView::Executing(m), reached, short) == run(
        data,
        Scope::Transaction,
        rolling,
        unchanged,
        short.skip(1),
    ));
    assert(long.skip(1) =~= seq![rollback]);
    assert(seq![rollback].skip(1).len() == 0);
    assert(run(data, Scope::Transaction, PhaseView::Executing(m), reached, long) == run(
        data,
        Scope::Transaction,
        rolling,
        unchanged,
        seq![rollback],
    ));
    assert(run(data, Scope::Transaction, rolling, unchanged, seq![rollback]) == run(
        data,
        Scope::Transaction,
        step(data, Scope::Transaction, rolling, rollback),
        perform(unchanged, request_of(data, rolling), rollback),
        seq![rollback].skip(1),
    ));
}

/// Synthetic rows bind: where every column declares a recognised type,
/// every row made of synthetic cells binds, and the description passes
/// validation.
pub proof fn synthetic_rows_bind(data: JsonDataView)
    requires
        rows_conform(data),
        columns_are_typed(data.table_columns),
    ensures
        all_rows_bind(data),
        validation(data).is_ok(),
{
    assert forall|r: int| 0 <= r < data.table_rows.len() implies row_binds(
        data.table_columns,
        #[trigger] data.table_rows[r],
    ) by {
        let row = data.table_rows[r];
        assert forall|c: int| 0 <= c < row.len() implies binds_at(data.table_columns, row, c) by {
            assert(cell_conforms(data.table_columns[c].data_type, data.table_rows[r][c]));
        }
    }
}

/// A synthetic seed for columns of recognised types ends in success where
/// the database answers every request with success, and the table then
/// shows its former rows followed by every synthetic row.
pub proof fn synthetic_seed_persists(data: JsonDataView, ledger: Ledger)
    requires
        rows_conform(data),
        columns_are_typed(data.table_columns),
        ledger.pending.is_none(),
    ensures
        run(
            data,
            Scope::Transaction,
            opening(data),
            ledger,
            successes(data.table_rows.len() as int + 2),
        ) == (
            PhaseView::Finished(Ok(())),
            Ledger {
                committed: ledger.committed + bound_rows(data, data.table_rows.len() as int),
                pending: None,
            },
        ),
{
    synthetic_rows_bind(data);
    successes_persist_every_row(data, ledger);
}

} // verus!
