//! Resolution of ambiguous cells, as a table builder performs it.
use vstd::prelude::*;
use crate::config::Config;
use crate::conflict::{
    Action, ConflictError, ConflictFailure, ConflictKind, ConflictReport, ParseTable, Resolution,
    ResolvedConflict, TableCell, resolution_view, table_view,
};
use crate::grammar::lookahead_value;

verus! {

/// Whether the `i`-th reduction of `cell` is allowed on the cell's lookahead.
pub open spec fn allowed<T, N, A, C: Config<T, N, A>>(config: &C, cell: &TableCell<T, N, A>, i: usize) -> bool {
    config.reduces_on(cell.reduces@[i as int], cell.lookahead)
}

/// The priority of the `i`-th reduction of `cell` on the cell's lookahead.
pub open spec fn priority_at<T, N, A, C: Config<T, N, A>>(config: &C, cell: &TableCell<T, N, A>, i: usize) -> i32 {
    config.priority(cell.reduces@[i as int], cell.lookahead)
}

/// The indices, in increasing order, of the first `n` reductions of `cell`
/// that are allowed on its lookahead.
pub open spec fn allowed_upto<T, N, A, C: Config<T, N, A>>(config: &C, cell: &TableCell<T, N, A>, n: nat) -> Seq<usize>
    decreases n,
{
    if n == 0 {
        Seq::empty()
    } else {
        let rest = allowed_upto(config, cell, (n - 1) as nat);
        if allowed(config, cell, (n - 1) as usize) {
            rest.push((n - 1) as usize)
        } else {
            rest
        }
    }
}

/// The reductions of `cell` that survive filtering by `reduce_on`.
pub open spec fn survivors<T, N, A, C: Config<T, N, A>>(config: &C, cell: &TableCell<T, N, A>) -> Seq<usize> {
    allowed_upto(config, cell, cell.reduces@.len())
}

proof fn lemma_allowed_upto_bounds<T, N, A, C: Config<T, N, A>>(config: &C, cell: &TableCell<T, N, A>, n: nat)
    ensures
        allowed_upto(config, cell, n).len() <= n,
        forall|j: int| 0 <= j < allowed_upto(config, cell, n).len() ==> #[trigger] allowed_upto(config, cell, n)[j] < n,
    decreases n,
{
    if n > 0 {
        lemma_allowed_upto_bounds(config, cell, (n - 1) as nat);
    }
}

/// Returns the indices of the reductions of `cell` that `config` allows on
/// the cell's lookahead.
fn surviving_reductions<T, N, A, C: Config<T, N, A>>(config: &C, cell: &TableCell<T, N, A>) -> (r: Vec<usize>)
    ensures
        r@ == survivors(config, cell),
{
    let lookahead = cell.lookahead.as_ref();
    let mut r: Vec<usize> = Vec::new();
    let mut i: usize = 0;
    while i < cell.reduces.len()
        invariant
            i <= cell.reduces@.len(),
            r@ == allowed_upto(config, cell, i as nat),
            lookahead_value(lookahead) == cell.lookahead,
        decreases cell.reduces@.len() - i,
    {
        if config.reduce_on(&cell.reduces[i], lookahead) {
            r.push(i);
        }
        i = i + 1;
    }
    r
}

/// The highest priority among the reductions `idx` of `cell`
/// (`i32::MIN` for none).
pub open spec fn max_priority<T, N, A, C: Config<T, N, A>>(config: &C, cell: &TableCell<T, N, A>, idx: Seq<usize>) -> i32
    decreases idx.len(),
{
    if idx.len() == 0 {
        i32::MIN
    } else {
        let m = max_priority(config, cell, idx.drop_last());
        let p = priority_at(config, cell, idx.last());
        if p > m {
            p
        } else {
            m
        }
    }
}

/// The reductions among `idx` whose priority is the highest.
pub open spec fn top_priority<T, N, A, C: Config<T, N, A>>(config: &C, cell: &TableCell<T, N, A>, idx: Seq<usize>) -> Seq<usize> {
    idx.filter(|i: usize| priority_at(config, cell, i) == max_priority(config, cell, idx))
}

/// Returns the candidates of highest priority, in their order.
fn highest_priority<T, N, A, C: Config<T, N, A>>(config: &C, cell: &TableCell<T, N, A>, candidates: &Vec<usize>) -> (r: Vec<usize>)
    requires
        forall|j: int| 0 <= j < candidates@.len() ==> #[trigger] candidates@[j] < cell.reduces@.len(),
    ensures
        r@ == top_priority(config, cell, candidates@),
{
    let lookahead = cell.lookahead.as_ref();
    let mut m: i32 = i32::MIN;
    let mut i: usize = 0;
    while i < candidates.len()
        invariant
            i <= candidates@.len(),
            forall|j: int| 0 <= j < candidates@.len() ==> #[trigger] candidates@[j] < cell.reduces@.len(),
            m == max_priority(config, cell, candidates@.subrange(0, i as int)),
            lookahead_value(lookahead) == cell.lookahead,
        decreases candidates@.len() - i,
    {
        let p = config.priority_of(&cell.reduces[candidates[i]], lookahead);
        assert(candidates@.subrange(0, i + 1).drop_last() == candidates@.subrange(0, i as int));
        if p > m {
            m = p;
        }
        i = i + 1;
    }
    assert(candidates@.subrange(0, candidates@.len() as int) == candidates@);
    let ghost pred = |k: usize| priority_at(config, cell, k) == max_priority(config, cell, candidates@);
    let mut r: Vec<usize> = Vec::new();
    let mut i: usize = 0;
    while i < candidates.len()
        invariant
            i <= candidates@.len(),
            forall|j: int| 0 <= j < candidates@.len() ==> #[trigger] candidates@[j] < cell.reduces@.len(),
            m == max_priority(config, cell, candidates@),
            pred == (|k: usize| priority_at(config, cell, k) == max_priority(config, cell, candidates@)),
            r@ == candidates@.subrange(0, i as int).filter(pred),
            lookahead_value(lookahead) == cell.lookahead,
        decreases candidates@.len() - i,
    {
        let p = config.priority_of(&cell.reduces[candidates[i]], lookahead);
        proof {
            reveal(Seq::filter);
            assert(candidates@.subrange(0, i + 1).drop_last() == candidates@.subrange(0, i as int));
        }
        if p == m {
            r.push(candidates[i]);
        }
        i = i + 1;
    }
    r
}

/// Holds of every index but `w`.
pub open spec fn other_than(w: usize) -> spec_fn(usize) -> bool {
    |i: usize| i != w
}

/// Returns `candidates` without the entries equal to `w`.
fn all_but(candidates: &Vec<usize>, w: usize) -> (r: Vec<usize>)
    ensures
        r@ == candidates@.filter(other_than(w)),
{
    let ghost pred = other_than(w);
    let mut r: Vec<usize> = Vec::new();
    let mut i: usize = 0;
    while i < candidates.len()
        invariant
            i <= candidates@.len(),
            pred == other_than(w),
            r@ == candidates@.subrange(0, i as int).filter(pred),
        decreases candidates@.len() - i,
    {
        proof {
            reveal(Seq::filter);
            assert(candidates@.subrange(0, i + 1).drop_last() == candidates@.subrange(0, i as int));
        }
        if candidates[i] != w {
            r.push(candidates[i]);
        }
        i = i + 1;
    }
    assert(candidates@.subrange(0, candidates@.len() as int) == candidates@);
    r
}

/// The report of a conflict resolved at `cell`, if reports are wanted.
pub open spec fn report_for<T, N, A, C: Config<T, N, A>>(
    config: &C,
    cell: &TableCell<T, N, A>,
    kind: ConflictKind,
    winner: Action,
    discarded: Seq<usize>,
) -> Option<ConflictReport<T>> {
    if config.reports_resolved() {
        Some(ConflictReport { kind, state: cell.state, lookahead: cell.lookahead, winner, discarded })
    } else {
        None
    }
}

/// How `config` resolves `cell`: the action and report, or the failure.
///
/// Reductions that `reduce_on` refuses are dropped first. A single
/// remaining action is applied without report. A shift beside reductions
/// wins only where the configuration favors shifts. Among two or more
/// reductions a unique highest priority wins; a tie at the highest
/// priority is an error. Nothing at all is a dead cell.
pub open spec fn outcome<T, N, A, C: Config<T, N, A>>(config: &C, cell: &TableCell<T, N, A>) -> Result<
    (Action, Option<ConflictReport<T>>),
    ConflictFailure<T>,
> {
    let s = survivors(config, cell);
    match cell.shift {
        Some(target) => {
            if s.len() == 0 {
                Ok((Action::Shift(target), None))
            } else if config.favors_shift() {
                Ok(
                    (
                        Action::Shift(target),
                        report_for(config, cell, ConflictKind::ShiftReduce, Action::Shift(target), s),
                    ),
                )
            } else {
                Err(ConflictFailure::ShiftReduce { state: cell.state, lookahead: cell.lookahead, productions: s })
            }
        },
        None => {
            if s.len() == 0 {
                Err(ConflictFailure::DeadCell { state: cell.state, lookahead: cell.lookahead })
            } else if s.len() == 1 {
                Ok((Action::Reduce(s[0]), None))
            } else {
                let top = top_priority(config, cell, s);
                if top.len() == 1 {
                    Ok(
                        (
                            Action::Reduce(top[0]),
                            report_for(
                                config,
                                cell,
                                ConflictKind::ReduceReduce,
                                Action::Reduce(top[0]),
                                s.filter(other_than(top[0])),
                            ),
                        ),
                    )
                } else {
                    Err(
                        ConflictFailure::ReduceReduce {
                            state: cell.state,
                            lookahead: cell.lookahead,
                            productions: top,
                        },
                    )
                }
            }
        },
    }
}

/// Resolves one ambiguous cell under `config`.
///
/// The report is built only when the configuration asks for reports.
pub fn resolve_cell<'a, T, N, A, C: Config<T, N, A>>(config: &C, cell: &'a TableCell<T, N, A>) -> (r: Result<
    Resolution<'a, T>,
    ConflictError<'a, T>,
>)
    ensures
        resolution_view(r) == outcome(config, cell),
{
    let lookahead = cell.lookahead.as_ref();
    assert(lookahead_value(lookahead) == cell.lookahead);
    let survivors = surviving_reductions(config, cell);
    proof {
        lemma_allowed_upto_bounds(config, cell, cell.reduces@.len());
    }
    match cell.shift {
        Some(target) => {
            if survivors.len() == 0 {
                Ok(Resolution { action: Action::Shift(target), report: None })
            } else if config.resolve_shift_reduse_conflict_in_favor_of_shift() {
                let report = if config.warn_on_resolved_conflicts() {
                    Some(
                        ResolvedConflict {
                            kind: ConflictKind::ShiftReduce,
                            state: cell.state,
                            lookahead,
                            winner: Action::Shift(target),
                            discarded: survivors,
                        },
                    )
                } else {
                    None
                };
                Ok(Resolution { action: Action::Shift(target), report })
            } else {
                Err(
                    ConflictError::UnresolvedShiftReduceConflict {
                        state: cell.state,
                        lookahead,
                        productions: survivors,
                    },
                )
            }
        },
        None => {
            if survivors.len() == 0 {
                Err(ConflictError::DeadTableCell { state: cell.state, lookahead })
            } else if survivors.len() == 1 {
                Ok(Resolution { action: Action::Reduce(survivors[0]), report: None })
            } else {
                let top = highest_priority(config, cell, &survivors);
                if top.len() == 1 {
                    let winner = top[0];
                    let report = if config.warn_on_resolved_conflicts() {
                        let discarded = all_but(&survivors, winner);
                        Some(
                            ResolvedConflict {
                                kind: ConflictKind::ReduceReduce,
                                state: cell.state,
                                lookahead,
                                winner: Action::Reduce(winner),
                                discarded,
                            },
                        )
                    } else {
                        None
                    };
                    Ok(Resolution { action: Action::Reduce(winner), report })
                } else {
                    Err(
                        ConflictError::UnresolvedReduceReduceConflict {
                            state: cell.state,
                            lookahead,
                            productions: top,
                        },
                    )
                }
            }
        },
    }
}

/// The table that `config` builds from `cells`: the actions and reports of
/// the cells in order, or the failure of the first cell that fails.
pub open spec fn table_outcome<T, N, A, C: Config<T, N, A>>(config: &C, cells: Seq<TableCell<T, N, A>>) -> Result<
    (Seq<Action>, Seq<ConflictReport<T>>),
    ConflictFailure<T>,
>
    decreases cells.len(),
{
    if cells.len() == 0 {
        Ok((Seq::empty(), Seq::empty()))
    } else {
        match table_outcome(config, cells.drop_last()) {
            Err(e) => Err(e),
            Ok((actions, reports)) => match outcome(config, &cells.last()) {
                Err(e) => Err(e),
                Ok((action, report)) => Ok(
                    (
                        actions.push(action),
                        match report {
                            Some(c) => reports.push(c),
                            None => reports,
                        },
                    ),
                ),
            },
        }
    }
}

/// Once a prefix of the cells fails, every longer prefix fails the same way.
proof fn lemma_failure_persists<T, N, A, C: Config<T, N, A>>(config: &C, cells: Seq<TableCell<T, N, A>>, k: int, n: int)
    requires
        0 <= k <= n <= cells.len(),
        table_outcome(config, cells.subrange(0, k)) is Err,
    ensures
        table_outcome(config, cells.subrange(0, n)) == table_outcome(config, cells.subrange(0, k)),
    decreases n - k,
{
    if n > k {
        lemma_failure_persists(config, cells, k, n - 1);
        assert(cells.subrange(0, n).drop_last() == cells.subrange(0, n - 1));
    }
}

/// Resolves every cell of a construction pass under `config`, in order.
///
/// The pass stops at the first cell that cannot be resolved and returns
/// its error; otherwise it returns one action per cell and the reports of
/// the resolved conflicts.
pub fn build_table<'a, T, N, A, C: Config<T, N, A>>(config: &C, cells: &'a Vec<TableCell<T, N, A>>) -> (r: Result<
    ParseTable<'a, T>,
    ConflictError<'a, T>,
>)
    ensures
        table_view(r) == table_outcome(config, cells@),
{
    let mut actions: Vec<Action> = Vec::new();
    let mut reports: Vec<ResolvedConflict<'a, T>> = Vec::new();
    let mut i: usize = 0;
    assert(reports@.map_values(|c: ResolvedConflict<'a, T>| c@) =~= Seq::empty());
    assert(cells@.subrange(0, 0) =~= Seq::empty());
    while i < cells.len()
        invariant
            i <= cells@.len(),
            table_outcome(config, cells@.subrange(0, i as int)) == Ok::<
                (Seq<Action>, Seq<ConflictReport<T>>),
                ConflictFailure<T>,
            >((actions@, reports@.map_values(|c: ResolvedConflict<'a, T>| c@))),
        decreases cells@.len() - i,
    {
        assert(cells@.subrange(0, i + 1).drop_last() == cells@.subrange(0, i as int));
        assert(cells@.subrange(0, i + 1).last() == cells@[i as int]);
        match resolve_cell(config, &cells[i]) {
            Err(e) => {
                proof {
                    lemma_failure_persists(config, cells@, i + 1, cells@.len() as int);
                    assert(cells@.subrange(0, cells@.len() as int) == cells@);
                }
                return Err(e);
            },
            Ok(res) => {
                actions.push(res.action);
                match res.report {
                    Some(c) => {
                        let ghost prev = reports@.map_values(|c: ResolvedConflict<'a, T>| c@);
                        let ghost cv = c@;
                        reports.push(c);
                        assert(reports@.map_values(|c: ResolvedConflict<'a, T>| c@) =~= prev.push(cv));
                    },
                    None => {},
                }
            },
        }
        i = i + 1;
    }
    assert(cells@.subrange(0, cells@.len() as int) == cells@);
    Ok(ParseTable { actions, reports })
}

} // verus!
