//! Ambiguous table cells and what their resolution produces.
use vstd::prelude::*;
use crate::grammar::{Rhs, lookahead_value};

verus! {

/// An action of the parse table. `Reduce(i)` reduces by the `i`-th
/// reduction candidate of the cell it stands in; `Shift(s)` shifts and
/// goes to state `s`.
#[derive(PartialEq, Eq, Structural, Clone, Copy, Debug)]
pub enum Action {
    Shift(usize),
    Reduce(usize),
}

/// The kind of a resolved conflict.
#[derive(PartialEq, Eq, Structural, Clone, Copy, Debug)]
pub enum ConflictKind {
    /// One shift against one or more reductions.
    ShiftReduce,
    /// Two or more reductions, no shift.
    ReduceReduce,
}

/// A (state, lookahead) cell of the action table together with every action
/// that the automaton found viable there: at most one shift and any number
/// of reductions.
pub struct TableCell<T, N, A> {
    pub state: usize,
    /// The lookahead terminal, `None` for the end of input.
    pub lookahead: Option<T>,
    /// The state a shift goes to, if shifting is viable.
    pub shift: Option<usize>,
    /// The productions that could be reduced.
    pub reduces: Vec<Rhs<T, N, A>>,
}

impl<T, N, A> TableCell<T, N, A> {
    /// Builds a cell from its state, lookahead and candidate actions.
    pub fn new(state: usize, lookahead: Option<T>, shift: Option<usize>, reduces: Vec<Rhs<T, N, A>>) -> (r: Self)
        ensures
            r.state == state,
            r.lookahead == lookahead,
            r.shift == shift,
            r.reduces@ == reduces@,
    {
        TableCell { state, lookahead, shift, reduces }
    }
}

/// A resolved conflict as a value: what a report holds.
pub struct ConflictReport<T> {
    pub kind: ConflictKind,
    pub state: usize,
    pub lookahead: Option<T>,
    pub winner: Action,
    pub discarded: Seq<usize>,
}

/// The report of one resolved conflict: its kind, where it occurred, the
/// action that won and the reductions (as indices into the cell's
/// candidates) that were discarded.
#[derive(Debug)]
pub struct ResolvedConflict<'a, T> {
    pub kind: ConflictKind,
    pub state: usize,
    pub lookahead: Option<&'a T>,
    pub winner: Action,
    pub discarded: Vec<usize>,
}

impl<'a, T> View for ResolvedConflict<'a, T> {
    type V = ConflictReport<T>;

    open spec fn view(&self) -> ConflictReport<T> {
        ConflictReport {
            kind: self.kind,
            state: self.state,
            lookahead: lookahead_value(self.lookahead),
            winner: self.winner,
            discarded: self.discarded@,
        }
    }
}

/// A failed resolution as a value: what an error holds.
pub enum ConflictFailure<T> {
    ShiftReduce { state: usize, lookahead: Option<T>, productions: Seq<usize> },
    ReduceReduce { state: usize, lookahead: Option<T>, productions: Seq<usize> },
    DeadCell { state: usize, lookahead: Option<T> },
}

/// Why table generation failed at a cell. Productions are given as indices
/// into the cell's reduction candidates.
#[derive(Debug)]
pub enum ConflictError<'a, T> {
    /// A shift/reduce conflict survived filtering and the configuration
    /// does not favor the shift; `productions` are the surviving reductions.
    UnresolvedShiftReduceConflict { state: usize, lookahead: Option<&'a T>, productions: Vec<usize> },
    /// Two or more reductions tie at the highest priority; `productions`
    /// are the tied ones.
    UnresolvedReduceReduceConflict { state: usize, lookahead: Option<&'a T>, productions: Vec<usize> },
    /// No reduction survived filtering and no shift exists.
    DeadTableCell { state: usize, lookahead: Option<&'a T> },
}

impl<'a, T> View for ConflictError<'a, T> {
    type V = ConflictFailure<T>;

    open spec fn view(&self) -> ConflictFailure<T> {
        match self {
            ConflictError::UnresolvedShiftReduceConflict { state, lookahead, productions } =>
                ConflictFailure::ShiftReduce {
                    state: *state,
                    lookahead: lookahead_value(*lookahead),
                    productions: productions@,
                },
            ConflictError::UnresolvedReduceReduceConflict { state, lookahead, productions } =>
                ConflictFailure::ReduceReduce {
                    state: *state,
                    lookahead: lookahead_value(*lookahead),
                    productions: productions@,
                },
            ConflictError::DeadTableCell { state, lookahead } =>
                ConflictFailure::DeadCell { state: *state, lookahead: lookahead_value(*lookahead) },
        }
    }
}

/// The outcome of resolving one cell: the action to put in the table and,
/// where a conflict was resolved and reports are wanted, its report.
#[derive(Debug)]
pub struct Resolution<'a, T> {
    pub action: Action,
    pub report: Option<ResolvedConflict<'a, T>>,
}

/// The outcome of a construction pass: one action per cell, in the order
/// of the cells, and the reports of the resolved conflicts, in the same
/// order.
#[derive(Debug)]
pub struct ParseTable<'a, T> {
    pub actions: Vec<Action>,
    pub reports: Vec<ResolvedConflict<'a, T>>,
}

impl<'a, T> View for Resolution<'a, T> {
    type V = (Action, Option<ConflictReport<T>>);

    open spec fn view(&self) -> (Action, Option<ConflictReport<T>>) {
        (
            self.action,
            match self.report {
                Some(c) => Some(c@),
                None => None,
            },
        )
    }
}

impl<'a, T> View for ParseTable<'a, T> {
    type V = (Seq<Action>, Seq<ConflictReport<T>>);

    open spec fn view(&self) -> (Seq<Action>, Seq<ConflictReport<T>>) {
        (self.actions@, self.reports@.map_values(|c: ResolvedConflict<'a, T>| c@))
    }
}

/// The value of a cell's resolution, success or failure.
pub open spec fn resolution_view<'a, T>(r: Result<Resolution<'a, T>, ConflictError<'a, T>>) -> Result<
    (Action, Option<ConflictReport<T>>),
    ConflictFailure<T>,
> {
    match r {
        Ok(res) => Ok(res@),
        Err(e) => Err(e@),
    }
}

/// The value of a construction pass, success or failure.
pub open spec fn table_view<'a, T>(r: Result<ParseTable<'a, T>, ConflictError<'a, T>>) -> Result<
    (Seq<Action>, Seq<ConflictReport<T>>),
    ConflictFailure<T>,
> {
    match r {
        Ok(t) => Ok(t@),
        Err(e) => Err(e@),
    }
}

} // verus!
