//! The language-agnostic analysis core: build a scope graph, derive the definition graph, then
//! score locality — scope-debt (`placement` + binding levels/wedges) and declare-order
//! (`declorder`). Produces a render-agnostic `Vec<Finding>`; `render` handles display.

pub mod analyze;
pub mod analyze_laws;
pub mod declorder;
pub mod defgraph;
pub mod finding;
pub mod flags;
pub mod model;
pub mod placement;
pub mod raw;
pub mod scopegraph;
pub mod scopelang;
pub mod score;
pub mod wedge;

pub use finding::{Category, Finding, Severity};
pub use model::{EntityKind, Reason};
pub use score::{DeclOrder, Weights};
