use lr_policy::{
    build_table, default_favor_shift, default_priority_of, default_reduce_on,
    default_warn_on_resolved_conflicts, resolve_cell, Action, Config, ConflictError, ConflictKind,
    DefaultConfig, Rhs, Symbol, TableCell,
};

type Prod = Rhs<char, &'static str, u32>;
type Cell = TableCell<char, &'static str, u32>;

/// A policy for the tests: productions are told apart by their action id.
struct Policy {
    favor: bool,
    warn: bool,
    /// (action id, lookahead) pairs on which the reduction is refused.
    vetoes: Vec<(u32, Option<char>)>,
    /// (action id, priority) pairs; absent ids have priority 0.
    priorities: Vec<(u32, i32)>,
}

impl Policy {
    fn plain() -> Self {
        Policy { favor: false, warn: false, vetoes: vec![], priorities: vec![] }
    }
}

impl Config<char, &'static str, u32> for Policy {
    fn favors_shift(&self) -> bool {
        self.favor
    }

    fn reports_resolved(&self) -> bool {
        self.warn
    }

    fn reduces_on(&self, rhs: Prod, lookahead: Option<char>) -> bool {
        self.reduce_on(&rhs, lookahead.as_ref())
    }

    fn priority(&self, rhs: Prod, lookahead: Option<char>) -> i32 {
        self.priority_of(&rhs, lookahead.as_ref())
    }

    fn resolve_shift_reduse_conflict_in_favor_of_shift(&self) -> bool {
        self.favor
    }

    fn warn_on_resolved_conflicts(&self) -> bool {
        self.warn
    }

    fn reduce_on(&self, rhs: &Prod, lookahead: Option<&char>) -> bool {
        !self.vetoes.iter().any(|(id, la)| *id == rhs.action && la.as_ref() == lookahead)
    }

    fn priority_of(&self, rhs: &Prod, _lookahead: Option<&char>) -> i32 {
        self.priorities.iter().find(|(id, _)| *id == rhs.action).map(|(_, p)| *p).unwrap_or(0)
    }
}

fn prod(lhs: &'static str, symbols: &str, action: u32) -> Prod {
    let syms = symbols
        .chars()
        .map(|c| if c.is_uppercase() { Symbol::Nonterminal(lhs) } else { Symbol::Terminal(c) })
        .collect();
    Rhs::new(lhs, syms, action)
}

fn cell(state: usize, lookahead: Option<char>, shift: Option<usize>, reduces: Vec<Prod>) -> Cell {
    TableCell::new(state, lookahead, shift, reduces)
}

#[test]
fn default_config_answers() {
    let config: DefaultConfig<char, &'static str, u32> = DefaultConfig::new();
    let r1 = prod("E", "E+E", 1);
    let r2 = prod("S", "", 2);
    for la in [None, Some('a'), Some('+')] {
        assert!(config.reduce_on(&r1, la.as_ref()));
        assert!(config.reduce_on(&r2, la.as_ref()));
        assert_eq!(config.priority_of(&r1, la.as_ref()), 0);
        assert_eq!(config.priority_of(&r2, la.as_ref()), 0);
    }
    assert!(!config.resolve_shift_reduse_conflict_in_favor_of_shift());
    assert!(!config.warn_on_resolved_conflicts());
    let other: DefaultConfig<char, &'static str, u32> = Default::default();
    assert!(other.reduce_on(&r1, Some(&'x')));
    assert_eq!(other.priority_of(&r2, None), 0);
}

#[test]
fn default_free_functions() {
    let r = prod("E", "a", 7);
    assert!(!default_favor_shift());
    assert!(!default_warn_on_resolved_conflicts());
    assert!(default_reduce_on(&r, Some(&'a')));
    assert!(default_reduce_on(&r, None));
    assert_eq!(default_priority_of(&r, Some(&'a')), 0);
}

#[test]
fn shift_reduce_fails_without_preference() {
    let cells = vec![cell(4, Some('t'), Some(9), vec![prod("E", "E+E", 1)])];
    let config = Policy::plain();
    match build_table(&config, &cells) {
        Err(ConflictError::UnresolvedShiftReduceConflict { state, lookahead, productions }) => {
            assert_eq!(state, 4);
            assert_eq!(lookahead, Some(&'t'));
            assert_eq!(productions, vec![0]);
        }
        other => panic!("unexpected {:?}", other),
    }
}

#[test]
fn shift_reduce_favors_shift_with_hook() {
    let cells = vec![cell(4, Some('t'), Some(9), vec![prod("E", "E+E", 1)])];
    let config = Policy { favor: true, warn: true, ..Policy::plain() };
    let table = build_table(&config, &cells).unwrap();
    assert_eq!(table.actions, vec![Action::Shift(9)]);
    assert_eq!(table.reports.len(), 1);
    let report = &table.reports[0];
    assert_eq!(report.kind, ConflictKind::ShiftReduce);
    assert_eq!(report.state, 4);
    assert_eq!(report.lookahead, Some(&'t'));
    assert_eq!(report.winner, Action::Shift(9));
    assert_eq!(report.discarded, vec![0]);
}

#[test]
fn shift_reduce_favors_shift_without_hook() {
    let cells = vec![cell(4, Some('t'), Some(9), vec![prod("E", "E+E", 1)])];
    let config = Policy { favor: true, ..Policy::plain() };
    let table = build_table(&config, &cells).unwrap();
    assert_eq!(table.actions, vec![Action::Shift(9)]);
    assert!(table.reports.is_empty());
}

#[test]
fn higher_priority_reduction_wins() {
    let cells = vec![cell(2, Some('t'), None, vec![prod("A", "x", 1), prod("B", "x", 2)])];
    let config = Policy { warn: true, priorities: vec![(1, 5), (2, 3)], ..Policy::plain() };
    let table = build_table(&config, &cells).unwrap();
    assert_eq!(table.actions, vec![Action::Reduce(0)]);
    assert_eq!(table.reports.len(), 1);
    let report = &table.reports[0];
    assert_eq!(report.kind, ConflictKind::ReduceReduce);
    assert_eq!(report.state, 2);
    assert_eq!(report.lookahead, Some(&'t'));
    assert_eq!(report.winner, Action::Reduce(0));
    assert_eq!(report.discarded, vec![1]);
}

#[test]
fn higher_priority_second_candidate_wins_silently() {
    let cells = vec![cell(2, None, None, vec![prod("A", "x", 1), prod("B", "x", 2)])];
    let config = Policy { priorities: vec![(1, 3), (2, 5)], ..Policy::plain() };
    let table = build_table(&config, &cells).unwrap();
    assert_eq!(table.actions, vec![Action::Reduce(1)]);
    assert!(table.reports.is_empty());
}

#[test]
fn equal_priority_fails() {
    let cells = vec![cell(2, Some('t'), None, vec![prod("A", "x", 1), prod("B", "x", 2)])];
    let config = Policy { warn: true, priorities: vec![(1, 4), (2, 4)], ..Policy::plain() };
    match build_table(&config, &cells) {
        Err(ConflictError::UnresolvedReduceReduceConflict { state, lookahead, productions }) => {
            assert_eq!(state, 2);
            assert_eq!(lookahead, Some(&'t'));
            assert_eq!(productions, vec![0, 1]);
        }
        other => panic!("unexpected {:?}", other),
    }
}

#[test]
fn tie_names_only_the_top_candidates() {
    let c = cell(3, Some('z'), None, vec![prod("A", "x", 1), prod("B", "x", 2), prod("C", "x", 3)]);
    let config = Policy { priorities: vec![(1, 7), (2, 1), (3, 7)], ..Policy::plain() };
    match resolve_cell(&config, &c) {
        Err(ConflictError::UnresolvedReduceReduceConflict { productions, .. }) => {
            assert_eq!(productions, vec![0, 2]);
        }
        other => panic!("unexpected {:?}", other),
    }
}

#[test]
fn three_way_conflict_discards_all_others() {
    let c = cell(3, Some('z'), None, vec![prod("A", "x", 1), prod("B", "x", 2), prod("C", "x", 3)]);
    let config = Policy { warn: true, priorities: vec![(1, -2), (2, 8), (3, 7)], ..Policy::plain() };
    let res = resolve_cell(&config, &c).unwrap();
    assert_eq!(res.action, Action::Reduce(1));
    let report = res.report.unwrap();
    assert_eq!(report.kind, ConflictKind::ReduceReduce);
    assert_eq!(report.discarded, vec![0, 2]);
}

#[test]
fn dangling_else_veto_is_per_lookahead() {
    let cells = vec![
        cell(6, Some('e'), Some(8), vec![prod("S", "iEtS", 1)]),
        cell(6, Some(';'), None, vec![prod("S", "iEtS", 1)]),
        cell(6, None, None, vec![prod("S", "iEtS", 1)]),
    ];
    let config = Policy { vetoes: vec![(1, Some('e'))], ..Policy::plain() };
    let table = build_table(&config, &cells).unwrap();
    assert_eq!(table.actions, vec![Action::Shift(8), Action::Reduce(0), Action::Reduce(0)]);
    assert!(table.reports.is_empty());
    // Without the veto the `else` cell is a shift/reduce conflict.
    assert!(matches!(
        build_table(&Policy::plain(), &cells),
        Err(ConflictError::UnresolvedShiftReduceConflict { state: 6, .. })
    ));
}

#[test]
fn veto_leaves_only_shift() {
    let c = cell(1, Some('e'), Some(5), vec![prod("S", "a", 1), prod("S", "b", 2)]);
    let config = Policy { vetoes: vec![(1, Some('e')), (2, Some('e'))], ..Policy::plain() };
    let res = resolve_cell(&config, &c).unwrap();
    assert_eq!(res.action, Action::Shift(5));
    assert!(res.report.is_none());
}

#[test]
fn dead_cell_when_everything_is_vetoed() {
    let c = cell(5, Some('q'), None, vec![prod("S", "a", 1)]);
    let config = Policy { vetoes: vec![(1, Some('q'))], ..Policy::plain() };
    match resolve_cell(&config, &c) {
        Err(ConflictError::DeadTableCell { state, lookahead }) => {
            assert_eq!(state, 5);
            assert_eq!(lookahead, Some(&'q'));
        }
        other => panic!("unexpected {:?}", other),
    }
}

#[test]
fn dead_cell_with_no_candidates() {
    let c = cell(0, None, None, vec![]);
    let config: DefaultConfig<char, &'static str, u32> = DefaultConfig::new();
    assert!(matches!(
        resolve_cell(&config, &c),
        Err(ConflictError::DeadTableCell { state: 0, lookahead: None })
    ));
}

#[test]
fn single_candidates_are_applied_without_report() {
    let cells = vec![
        cell(0, Some('a'), Some(3), vec![]),
        cell(1, None, None, vec![prod("S", "a", 1)]),
    ];
    let config = Policy { favor: true, warn: true, ..Policy::plain() };
    let table = build_table(&config, &cells).unwrap();
    assert_eq!(table.actions, vec![Action::Shift(3), Action::Reduce(0)]);
    assert!(table.reports.is_empty());
}

#[test]
fn vetoed_candidate_is_not_discarded_in_report() {
    let c = cell(7, Some('x'), Some(2), vec![prod("A", "a", 1), prod("B", "b", 2)]);
    let config = Policy { favor: true, warn: true, vetoes: vec![(1, Some('x'))], ..Policy::plain() };
    let res = resolve_cell(&config, &c).unwrap();
    assert_eq!(res.action, Action::Shift(2));
    assert_eq!(res.report.unwrap().discarded, vec![1]);
}

#[test]
fn pass_stops_at_first_failing_cell() {
    let cells = vec![
        cell(0, Some('a'), Some(1), vec![]),
        cell(1, Some('b'), None, vec![]),
        cell(2, Some('c'), Some(4), vec![prod("S", "a", 1)]),
    ];
    match build_table(&Policy::plain(), &cells) {
        Err(ConflictError::DeadTableCell { state, lookahead }) => {
            assert_eq!(state, 1);
            assert_eq!(lookahead, Some(&'b'));
        }
        other => panic!("unexpected {:?}", other),
    }
}

#[test]
fn reports_follow_cell_order() {
    let cells = vec![
        cell(0, Some('a'), Some(1), vec![prod("S", "a", 1)]),
        cell(1, Some('b'), None, vec![prod("S", "a", 1)]),
        cell(2, Some('c'), None, vec![prod("A", "a", 1), prod("B", "a", 2)]),
    ];
    let config = Policy { favor: true, warn: true, priorities: vec![(2, 1)], ..Policy::plain() };
    let table = build_table(&config, &cells).unwrap();
    assert_eq!(table.actions, vec![Action::Shift(1), Action::Reduce(0), Action::Reduce(1)]);
    assert_eq!(table.reports.len(), 2);
    assert_eq!(table.reports[0].state, 0);
    assert_eq!(table.reports[0].kind, ConflictKind::ShiftReduce);
    assert_eq!(table.reports[1].state, 2);
    assert_eq!(table.reports[1].kind, ConflictKind::ReduceReduce);
    assert_eq!(table.reports[1].discarded, vec![0]);
}

#[test]
fn default_construction_is_deterministic() {
    let cells = vec![
        cell(0, Some('a'), Some(1), vec![]),
        cell(1, None, None, vec![prod("S", "a", 1)]),
        cell(2, Some('b'), None, vec![prod("S", "b", 2)]),
    ];
    let config: DefaultConfig<char, &'static str, u32> = DefaultConfig::new();
    let first = build_table(&config, &cells).unwrap();
    let second = build_table(&config, &cells).unwrap();
    assert_eq!(first.actions, second.actions);
    assert_eq!(first.actions, vec![Action::Shift(1), Action::Reduce(0), Action::Reduce(0)]);
    assert!(first.reports.is_empty());
    assert!(second.reports.is_empty());
}

#[test]
fn default_config_rejects_any_conflict() {
    let config: DefaultConfig<char, &'static str, u32> = DefaultConfig::new();
    let sr = vec![cell(0, Some('a'), Some(1), vec![prod("S", "a", 1)])];
    assert!(matches!(
        build_table(&config, &sr),
        Err(ConflictError::UnresolvedShiftReduceConflict { .. })
    ));
    let rr = vec![cell(0, Some('a'), None, vec![prod("S", "a", 1), prod("T", "a", 2)])];
    match build_table(&config, &rr) {
        Err(ConflictError::UnresolvedReduceReduceConflict { productions, .. }) => {
            assert_eq!(productions, vec![0, 1]);
        }
        other => panic!("unexpected {:?}", other),
    }
}
