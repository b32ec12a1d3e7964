//! The policy that a table builder consults at each ambiguous cell.
use vstd::prelude::*;
use crate::grammar::{Rhs, lookahead_value};

verus! {

/// The configuration of parse-table generation.
///
/// Each query is a pure function of its arguments: the spec functions
/// below fix the answer of every query for a given configuration, so that
/// repeated construction runs over one grammar give the same table. An
/// implementation states its answers through them and its methods return
/// exactly those answers.
///
/// Resolved conflicts are not pushed to a callback: where
/// `warn_on_resolved_conflicts` is true, resolution hands the reports back
/// with the table, in the order of the cells, for the caller to emit.
pub trait Config<T, N, A> {
    /// Whether a shift/reduce conflict that survives filtering is resolved
    /// in favor of the shift (`false`: it is an error).
    spec fn favors_shift(&self) -> bool;

    /// Whether resolved conflicts are to be reported.
    spec fn reports_resolved(&self) -> bool;

    /// Whether the reduction by `rhs` is allowed on `lookahead`.
    spec fn reduces_on(&self, rhs: Rhs<T, N, A>, lookahead: Option<T>) -> bool;

    /// The priority of the reduction by `rhs` on `lookahead`.
    spec fn priority(&self, rhs: Rhs<T, N, A>, lookahead: Option<T>) -> i32;

    /// Returns true if a shift/reduce conflict is resolved in favor of the
    /// shift, as Bison and Yacc do. With false, such a conflict makes table
    /// generation fail, so that only pure LALR(1) grammars are accepted.
    fn resolve_shift_reduse_conflict_in_favor_of_shift(&self) -> (r: bool)
        ensures
            r == self.favors_shift(),
    ;

    /// Returns true if a report is to be produced for each reduce/reduce or
    /// shift/reduce conflict that is resolved. With false, no report is
    /// built at all.
    fn warn_on_resolved_conflicts(&self) -> (r: bool)
        ensures
            r == self.reports_resolved(),
    ;

    /// Whether the reduction by `rhs` is considered on `lookahead` (`None`
    /// for the end of input). Returning false for one lookahead removes the
    /// reduction for that lookahead only; the dangling-else ambiguity, for
    /// one, is settled by forbidding a reduction on the `else` token.
    fn reduce_on(&self, rhs: &Rhs<T, N, A>, lookahead: Option<&T>) -> (r: bool)
        ensures
            r == self.reduces_on(*rhs, lookahead_value(lookahead)),
    ;

    /// The priority of the reduction by `rhs` on `lookahead`. Among the
    /// reductions of a reduce/reduce conflict the one of highest priority is
    /// used.
    fn priority_of(&self, rhs: &Rhs<T, N, A>, lookahead: Option<&T>) -> (r: i32)
        ensures
            r == self.priority(*rhs, lookahead_value(lookahead)),
    ;
}

/// The default answer to `resolve_shift_reduse_conflict_in_favor_of_shift`:
/// shift/reduce conflicts are errors.
pub fn default_favor_shift() -> (r: bool)
    ensures
        r == false,
{
    false
}

/// The default answer to `warn_on_resolved_conflicts`: nothing is reported.
pub fn default_warn_on_resolved_conflicts() -> (r: bool)
    ensures
        r == false,
{
    false
}

/// The default answer to `reduce_on`: every reduction is considered.
pub fn default_reduce_on<T, N, A>(rhs: &Rhs<T, N, A>, lookahead: Option<&T>) -> (r: bool)
    ensures
        r == true,
{
    true
}

/// The default answer to `priority_of`: every reduction has priority 0.
pub fn default_priority_of<T, N, A>(rhs: &Rhs<T, N, A>, lookahead: Option<&T>) -> (r: i32)
    ensures
        r == 0,
{
    0
}

/// The default configuration: strict LALR(1), no reduction suppressed,
/// equal priorities, nothing reported. It holds no state.
pub struct DefaultConfig<T, N, A> {
    _phantom: core::marker::PhantomData<(T, N, A)>,
}

impl<T, N, A> DefaultConfig<T, N, A> {
    /// Creates the default configuration.
    pub fn new() -> (r: Self)
        ensures
            !r.favors_shift(),
            !r.reports_resolved(),
            forall|rhs: Rhs<T, N, A>, lookahead: Option<T>| #[trigger] r.reduces_on(rhs, lookahead),
            forall|rhs: Rhs<T, N, A>, lookahead: Option<T>| #[trigger] r.priority(rhs, lookahead) == 0,
    {
        DefaultConfig { _phantom: core::marker::PhantomData }
    }
}

impl<T, N, A> Default for DefaultConfig<T, N, A> {
    fn default() -> (r: Self)
        ensures
            !r.favors_shift(),
            !r.reports_resolved(),
            forall|rhs: Rhs<T, N, A>, lookahead: Option<T>| #[trigger] r.reduces_on(rhs, lookahead),
            forall|rhs: Rhs<T, N, A>, lookahead: Option<T>| #[trigger] r.priority(rhs, lookahead) == 0,
    {
        DefaultConfig::new()
    }
}

impl<T, N, A> Config<T, N, A> for DefaultConfig<T, N, A> {
    open spec fn favors_shift(&self) -> bool {
        false
    }

    open spec fn reports_resolved(&self) -> bool {
        false
    }

    open spec fn reduces_on(&self, rhs: Rhs<T, N, A>, lookahead: Option<T>) -> bool {
        true
    }

    open spec fn priority(&self, rhs: Rhs<T, N, A>, lookahead: Option<T>) -> i32 {
        0
    }

    fn resolve_shift_reduse_conflict_in_favor_of_shift(&self) -> (r: bool)
        ensures
            !r,
    {
        default_favor_shift()
    }

    fn warn_on_resolved_conflicts(&self) -> (r: bool)
        ensures
            !r,
    {
        default_warn_on_resolved_conflicts()
    }

    fn reduce_on(&self, rhs: &Rhs<T, N, A>, lookahead: Option<&T>) -> (r: bool)
        ensures
            r,
    {
        default_reduce_on(rhs, lookahead)
    }

    fn priority_of(&self, rhs: &Rhs<T, N, A>, lookahead: Option<&T>) -> (r: i32)
        ensures
            r == 0,
    {
        default_priority_of(rhs, lookahead)
    }
}

} // verus!
