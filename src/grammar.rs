//! Productions as the policy sees them.
use vstd::prelude::*;

verus! {

/// A grammar symbol: a terminal or a nonterminal.
pub enum Symbol<T, N> {
    Terminal(T),
    Nonterminal(N),
}

/// The right-hand side of one production, tagged with the nonterminal it
/// produces and the semantic action attached to it.
pub struct Rhs<T, N, A> {
    pub lhs: N,
    pub symbols: Vec<Symbol<T, N>>,
    pub action: A,
}

impl<T, N, A> Rhs<T, N, A> {
    /// Builds a production `lhs -> symbols` with the given action.
    pub fn new(lhs: N, symbols: Vec<Symbol<T, N>>, action: A) -> (r: Self)
        ensures
            r.lhs == lhs,
            r.symbols@ == symbols@,
            r.action == action,
    {
        Rhs { lhs, symbols, action }
    }
}

/// The terminal that a borrowed lookahead stands for (`None` is the end of input).
pub open spec fn lookahead_value<T>(lookahead: Option<&T>) -> Option<T> {
    match lookahead {
        Some(t) => Some(*t),
        None => None,
    }
}

} // verus!
