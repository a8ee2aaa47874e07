//! Tunable constants. Every threshold the analysis uses lives here, with a default; all are
//! overridable via `[tool.ventouse.weights]` config (`crate::config`).

use vstd::prelude::*;

verus! {

/// Which reading convention the declare-order warning enforces — the one conventional axis.
#[derive(Clone, Copy, Debug, PartialEq, Eq, Structural)]
pub enum DeclOrder {
    /// Callees ABOVE callers — define before use (the default).
    BottomUp,
    /// Callers ABOVE callees — stepdown / overview-first.
    TopDown,
}

/// All tunable analysis constants.
#[derive(Clone, Copy, Debug, PartialEq, Eq, Structural)]
pub struct Weights {
    /// Per scope-debt unit (an excess nesting level, or an unrelated wedged definition).
    pub scope_level: u32,
    /// Reading convention for the declare-order warning.
    pub order: DeclOrder,
    /// `ExtractShared`: referenced by at least this many DISTINCT others.
    pub shared_callers: usize,
    /// `ExtractShared`: ... or this many references in total from at least two others.
    pub shared_uses: u32,
    /// `CrowdedScope`: independent locals carrying at least this much scope-debt.
    pub crowded_scope: u32,
    /// `ReorderBinding`: at least this many use-side wedges.
    pub reorder_wedges: u32,
    /// `NarrowToBlock`: used at least this many levels deeper than declared.
    pub narrow_levels: u32,
    /// Accessor pinning: a class-member leaf used by at least this many distinct siblings.
    pub accessor_fanin: usize,
}

/// The default weights, as a spec value.
pub open spec fn default_weights() -> Weights {
    Weights {
        scope_level: 10,
        order: DeclOrder::BottomUp,
        shared_callers: 4,
        shared_uses: 8,
        crowded_scope: 100,
        reorder_wedges: 3,
        narrow_levels: 1,
        accessor_fanin: 3,
    }
}

impl Default for Weights {
    fn default() -> (w: Weights)
        ensures
            w == default_weights(),
    {
        Weights {
            scope_level: 10,
            order: DeclOrder::BottomUp,
            shared_callers: 4,
            shared_uses: 8,
            crowded_scope: 100,
            reorder_wedges: 3,
            narrow_levels: 1,
            accessor_fanin: 3,
        }
    }
}

} // verus!
