//! Properties of the resolution that hold for every grammar.
use vstd::prelude::*;
use crate::config::{Config, DefaultConfig};
use crate::conflict::{Action, ConflictFailure, ConflictKind, ConflictReport, ParseTable, ConflictError, TableCell, table_view};
use crate::grammar::Rhs;
use crate::resolve::{allowed, allowed_upto, max_priority, outcome, priority_at, survivors, table_outcome, top_priority};

verus! {

/// The default configuration allows every reduction and gives each the
/// priority 0, whatever the production and the lookahead.
pub proof fn lemma_default_answers<T, N, A>(config: &DefaultConfig<T, N, A>, rhs: Rhs<T, N, A>, lookahead: Option<T>)
    ensures
        config.reduces_on(rhs, lookahead),
        config.priority(rhs, lookahead) == 0,
        !config.favors_shift(),
        !config.reports_resolved(),
{
}

/// A single shift/reduce conflict: without a preference for shifts the
/// pass fails naming the cell's state and lookahead; with one the shift is
/// applied and exactly one shift/reduce report names the state and
/// lookahead, or none where no reports are wanted.
pub proof fn lemma_single_shift_reduce<T, N, A, C: Config<T, N, A>>(config: &C, cell: TableCell<T, N, A>)
    requires
        cell.shift is Some,
        cell.reduces@.len() == 1,
        allowed(config, &cell, 0),
    ensures
        !config.favors_shift() ==> table_outcome(config, seq![cell]) == Err::<
            (Seq<Action>, Seq<ConflictReport<T>>),
            ConflictFailure<T>,
        >(ConflictFailure::ShiftReduce { state: cell.state, lookahead: cell.lookahead, productions: seq![0usize] }),
        config.favors_shift() ==> table_outcome(config, seq![cell]) is Ok,
        config.favors_shift() ==> table_outcome(config, seq![cell])->Ok_0.0 == seq![Action::Shift(cell.shift->0)],
        config.favors_shift() && config.reports_resolved() ==> table_outcome(config, seq![cell])->Ok_0.1 == seq![
            ConflictReport {
                kind: ConflictKind::ShiftReduce,
                state: cell.state,
                lookahead: cell.lookahead,
                winner: Action::Shift(cell.shift->0),
                discarded: seq![0usize],
            },
        ],
        config.favors_shift() && !config.reports_resolved() ==> table_outcome(config, seq![cell])->Ok_0.1.len() == 0,
{
    reveal_with_fuel(table_outcome, 2);
    assert(seq![cell].drop_last() =~= Seq::<TableCell<T, N, A>>::empty());
    assert(seq![cell].last() == cell);
    assert(allowed_upto(config, &cell, 0) =~= Seq::<usize>::empty());
    assert(survivors(config, &cell) =~= seq![0usize]);
}

/// The candidates of a cell with two allowed reductions and no shift.
proof fn lemma_two_reductions<T, N, A, C: Config<T, N, A>>(config: &C, cell: TableCell<T, N, A>)
    requires
        cell.shift is None,
        cell.reduces@.len() == 2,
        allowed(config, &cell, 0),
        allowed(config, &cell, 1),
    ensures
        survivors(config, &cell) == seq![0usize, 1usize],
        max_priority(config, &cell, seq![0usize, 1usize]) == if priority_at(config, &cell, 1) > priority_at(
            config,
            &cell,
            0,
        ) {
            priority_at(config, &cell, 1)
        } else {
            priority_at(config, &cell, 0)
        },
        table_outcome(config, seq![cell]) == match outcome(config, &cell) {
            Err(e) => Err(e),
            Ok((a, r)) => Ok::<(Seq<Action>, Seq<ConflictReport<T>>), ConflictFailure<T>>(
                (
                    seq![a],
                    match r {
                        Some(c) => seq![c],
                        None => Seq::empty(),
                    },
                ),
            ),
        },
{
    reveal_with_fuel(table_outcome, 2);
    reveal_with_fuel(max_priority, 3);
    assert(seq![cell].drop_last() =~= Seq::<TableCell<T, N, A>>::empty());
    assert(seq![cell].last() == cell);
    assert(allowed_upto(config, &cell, 0) =~= Seq::<usize>::empty());
    assert(allowed_upto(config, &cell, 1) =~= seq![0usize]);
    assert(survivors(config, &cell) =~= seq![0usize, 1usize]);
    assert(seq![0usize, 1usize].drop_last() =~= seq![0usize]);
    assert(seq![0usize].drop_last() =~= Seq::<usize>::empty());
    match outcome(config, &cell) {
        Err(e) => {},
        Ok((a, r)) => {
            match r {
                Some(c) => {
                    assert(Seq::<ConflictReport<T>>::empty().push(c) =~= seq![c]);
                },
                None => {},
            }
            assert(Seq::<Action>::empty().push(a) =~= seq![a]);
        },
    }
}

/// Two allowed reductions, no shift, the first of strictly higher
/// priority: the pass reduces by the first, and the only report, where
/// reports are wanted, is a reduce/reduce one with the first as winner and
/// the second as the sole discarded candidate.
pub proof fn lemma_higher_priority_wins<T, N, A, C: Config<T, N, A>>(config: &C, cell: TableCell<T, N, A>)
    requires
        cell.shift is None,
        cell.reduces@.len() == 2,
        allowed(config, &cell, 0),
        allowed(config, &cell, 1),
        priority_at(config, &cell, 0) > priority_at(config, &cell, 1),
    ensures
        table_outcome(config, seq![cell]) is Ok,
        table_outcome(config, seq![cell])->Ok_0.0 == seq![Action::Reduce(0)],
        config.reports_resolved() ==> table_outcome(config, seq![cell])->Ok_0.1 == seq![
            ConflictReport {
                kind: ConflictKind::ReduceReduce,
                state: cell.state,
                lookahead: cell.lookahead,
                winner: Action::Reduce(0),
                discarded: seq![1usize],
            },
        ],
        !config.reports_resolved() ==> table_outcome(config, seq![cell])->Ok_0.1.len() == 0,
{
    lemma_two_reductions(config, cell);
    reveal_with_fuel(Seq::filter, 3);
    let s = seq![0usize, 1usize];
    assert(s.drop_last() =~= seq![0usize]);
    assert(seq![0usize].drop_last() =~= Seq::<usize>::empty());
    assert(top_priority(config, &cell, s) =~= seq![0usize]);
    assert(s.filter(crate::resolve::other_than(0)) =~= seq![1usize]);
}

/// Two allowed reductions, no shift, of equal priority: the pass fails
/// with a reduce/reduce error naming the cell's state, its lookahead and
/// both reductions.
pub proof fn lemma_equal_priority_fails<T, N, A, C: Config<T, N, A>>(config: &C, cell: TableCell<T, N, A>)
    requires
        cell.shift is None,
        cell.reduces@.len() == 2,
        allowed(config, &cell, 0),
        allowed(config, &cell, 1),
        priority_at(config, &cell, 0) == priority_at(config, &cell, 1),
    ensures
        table_outcome(config, seq![cell]) == Err::<(Seq<Action>, Seq<ConflictReport<T>>), ConflictFailure<T>>(
            ConflictFailure::ReduceReduce {
                state: cell.state,
                lookahead: cell.lookahead,
                productions: seq![0usize, 1usize],
            },
        ),
{
    lemma_two_reductions(config, cell);
    reveal_with_fuel(Seq::filter, 3);
    let s = seq![0usize, 1usize];
    assert(s.drop_last() =~= seq![0usize]);
    assert(seq![0usize].drop_last() =~= Seq::<usize>::empty());
    assert(top_priority(config, &cell, s) =~= s);
}

proof fn lemma_allowed_upto_agree<T, N, A, C1: Config<T, N, A>, C2: Config<T, N, A>>(
    c1: &C1,
    c2: &C2,
    cell: TableCell<T, N, A>,
    n: nat,
)
    requires
        forall|r: Rhs<T, N, A>| #[trigger] c1.reduces_on(r, cell.lookahead) == c2.reduces_on(r, cell.lookahead),
    ensures
        allowed_upto(c1, &cell, n) == allowed_upto(c2, &cell, n),
    decreases n,
{
    if n > 0 {
        lemma_allowed_upto_agree(c1, c2, cell, (n - 1) as nat);
        assert(c1.reduces_on(cell.reduces@[n - 1], cell.lookahead) == c2.reduces_on(cell.reduces@[n - 1], cell.lookahead));
    }
}

proof fn lemma_max_priority_agree<T, N, A, C1: Config<T, N, A>, C2: Config<T, N, A>>(
    c1: &C1,
    c2: &C2,
    cell: TableCell<T, N, A>,
    idx: Seq<usize>,
)
    requires
        forall|r: Rhs<T, N, A>| #[trigger] c1.priority(r, cell.lookahead) == c2.priority(r, cell.lookahead),
    ensures
        max_priority(c1, &cell, idx) == max_priority(c2, &cell, idx),
    decreases idx.len(),
{
    if idx.len() > 0 {
        lemma_max_priority_agree(c1, c2, cell, idx.drop_last());
        let r = cell.reduces@[idx.last() as int];
        assert(c1.priority(r, cell.lookahead) == c2.priority(r, cell.lookahead));
    }
}

/// Two configurations that give the same answers on a cell's lookahead
/// resolve that cell the same way.
proof fn lemma_same_answers_same_outcome<T, N, A, C1: Config<T, N, A>, C2: Config<T, N, A>>(
    c1: &C1,
    c2: &C2,
    cell: TableCell<T, N, A>,
)
    requires
        c1.favors_shift() == c2.favors_shift(),
        c1.reports_resolved() == c2.reports_resolved(),
        forall|r: Rhs<T, N, A>| #[trigger] c1.reduces_on(r, cell.lookahead) == c2.reduces_on(r, cell.lookahead),
        forall|r: Rhs<T, N, A>| #[trigger] c1.priority(r, cell.lookahead) == c2.priority(r, cell.lookahead),
    ensures
        outcome(c1, &cell) == outcome(c2, &cell),
{
    lemma_allowed_upto_agree(c1, c2, cell, cell.reduces@.len());
    let s = survivors(c1, &cell);
    lemma_max_priority_agree(c1, c2, cell, s);
    let p1 = |i: usize| priority_at(c1, &cell, i) == max_priority(c1, &cell, s);
    let p2 = |i: usize| priority_at(c2, &cell, i) == max_priority(c2, &cell, s);
    assert forall|i: usize| #[trigger] p1(i) == p2(i) by {
        assert(c1.priority(cell.reduces@[i as int], cell.lookahead) == c2.priority(cell.reduces@[i as int], cell.lookahead));
    }
    assert(p1 =~= p2);
    assert(top_priority(c1, &cell, s) == top_priority(c2, &cell, s));
}

proof fn lemma_refused_not_allowed<T, N, A, C: Config<T, N, A>>(config: &C, cell: TableCell<T, N, A>, i: usize, n: nat)
    requires
        !allowed(config, &cell, i),
    ensures
        !allowed_upto(config, &cell, n).contains(i),
    decreases n,
{
    if n > 0 {
        lemma_refused_not_allowed(config, cell, i, (n - 1) as nat);
        let rest = allowed_upto(config, &cell, (n - 1) as nat);
        if allowed(config, &cell, (n - 1) as usize) {
            assert(!rest.contains(i));
            assert(rest.push((n - 1) as usize)[rest.len() as int] == (n - 1) as usize);
            assert forall|j: int| 0 <= j < rest.len() + 1 implies #[trigger] rest.push((n - 1) as usize)[j] != i by {
                if j < rest.len() {
                    assert(rest.push((n - 1) as usize)[j] == rest[j]);
                }
            }
        }
    }
}

/// A veto on one lookahead is scoped to that lookahead. Let `vetoing`
/// answer as `plain` does except that `reduce_on` may refuse reductions on
/// the lookahead `vetoed` (the `else` token of a dangling else). Then on
/// every other lookahead `vetoing` resolves each cell exactly as `plain`
/// does; on `vetoed` itself a refused reduction is no candidate at all.
pub proof fn lemma_veto_is_per_lookahead<T, N, A, C1: Config<T, N, A>, C2: Config<T, N, A>>(
    vetoing: &C1,
    plain: &C2,
    vetoed: Option<T>,
    cell: TableCell<T, N, A>,
)
    requires
        vetoing.favors_shift() == plain.favors_shift(),
        vetoing.reports_resolved() == plain.reports_resolved(),
        forall|r: Rhs<T, N, A>, la: Option<T>|
            la != vetoed ==> #[trigger] vetoing.reduces_on(r, la) == plain.reduces_on(r, la),
        forall|r: Rhs<T, N, A>, la: Option<T>| #[trigger] vetoing.priority(r, la) == plain.priority(r, la),
    ensures
        cell.lookahead != vetoed ==> outcome(vetoing, &cell) == outcome(plain, &cell),
        cell.lookahead == vetoed ==> forall|i: usize|
            i < cell.reduces@.len() && !vetoing.reduces_on(cell.reduces@[i as int], vetoed)
                ==> !(#[trigger] survivors(vetoing, &cell).contains(i)),
{
    if cell.lookahead != vetoed {
        assert forall|r: Rhs<T, N, A>| #[trigger] vetoing.reduces_on(r, cell.lookahead) == plain.reduces_on(r, cell.lookahead) by {}
        assert forall|r: Rhs<T, N, A>| #[trigger] vetoing.priority(r, cell.lookahead) == plain.priority(r, cell.lookahead) by {}
        lemma_same_answers_same_outcome(vetoing, plain, cell);
    } else {
        assert forall|i: usize|
            i < cell.reduces@.len() && !vetoing.reduces_on(cell.reduces@[i as int], vetoed)
                implies !(#[trigger] survivors(vetoing, &cell).contains(i)) by {
            lemma_refused_not_allowed(vetoing, cell, i, cell.reduces@.len());
        }
    }
}

/// Construction is deterministic: two passes of the default configuration
/// over the same cells give the same table or the same failure, and
/// neither produces a report.
pub proof fn lemma_default_construction_deterministic<'a, T, N, A>(
    config: &DefaultConfig<T, N, A>,
    cells: Seq<TableCell<T, N, A>>,
    first: Result<ParseTable<'a, T>, ConflictError<'a, T>>,
    second: Result<ParseTable<'a, T>, ConflictError<'a, T>>,
)
    requires
        table_view(first) == table_outcome(config, cells),
        table_view(second) == table_outcome(config, cells),
    ensures
        table_view(first) == table_view(second),
        table_view(first) is Ok ==> table_view(first)->Ok_0.1.len() == 0,
{
    lemma_default_reports_nothing(config, cells);
}

proof fn lemma_default_reports_nothing<T, N, A>(config: &DefaultConfig<T, N, A>, cells: Seq<TableCell<T, N, A>>)
    ensures
        table_outcome(config, cells) is Ok ==> table_outcome(config, cells)->Ok_0.1.len() == 0,
    decreases cells.len(),
{
    if cells.len() > 0 {
        lemma_default_reports_nothing(config, cells.drop_last());
    }
}

proof fn lemma_default_allows_all<T, N, A>(config: &DefaultConfig<T, N, A>, cell: TableCell<T, N, A>, n: nat)
    ensures
        allowed_upto(config, &cell, n).len() == n,
    decreases n,
{
    if n > 0 {
        lemma_default_allows_all(config, cell, (n - 1) as nat);
    }
}

proof fn lemma_filter_keeps_all(idx: Seq<usize>, pred: spec_fn(usize) -> bool)
    requires
        forall|i: usize| #[trigger] pred(i),
    ensures
        idx.filter(pred).len() == idx.len(),
    decreases idx.len(),
{
    reveal(Seq::filter);
    if idx.len() > 0 {
        lemma_filter_keeps_all(idx.drop_last(), pred);
    }
}

/// The default configuration accepts exactly the unambiguous cells: a cell
/// is resolved if and only if it holds a lone shift or a lone reduction.
pub proof fn lemma_default_is_strict<T, N, A>(config: &DefaultConfig<T, N, A>, cell: TableCell<T, N, A>)
    ensures
        outcome(config, &cell) is Ok <==> (cell.shift is Some && cell.reduces@.len() == 0) || (cell.shift is None
            && cell.reduces@.len() == 1),
{
    lemma_default_allows_all(config, cell, cell.reduces@.len());
    let s = survivors(config, &cell);
    let m = max_priority(config, &cell, s);
    let pred = |i: usize| priority_at(config, &cell, i) == m;
    if s.len() > 0 {
        lemma_default_max_is_zero(config, cell, s);
        lemma_filter_keeps_all(s, pred);
    }
}

proof fn lemma_default_max_is_zero<T, N, A>(config: &DefaultConfig<T, N, A>, cell: TableCell<T, N, A>, idx: Seq<usize>)
    requires
        idx.len() > 0,
    ensures
        max_priority(config, &cell, idx) == 0,
    decreases idx.len(),
{
    reveal_with_fuel(max_priority, 2);
    if idx.len() > 1 {
        lemma_default_max_is_zero(config, cell, idx.drop_last());
    }
}

} // verus!
