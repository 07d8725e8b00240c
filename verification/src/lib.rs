//! Width- and sign-aware rewrite rules over bit-vector arithmetic.
//!
//! Every arithmetic operator of the pattern language carries the bit-width of
//! its result and the bit-width and signedness of each operand. A rewrite rule
//! pairs a left-hand pattern with a right-hand pattern whose widths are derived
//! from the match, and may be guarded by a side condition over the matched
//! widths. The rules are meant to be handed to an equality-saturation engine.
//!
//! - [`width`]: the least widths that rule out overflow.
//! - [`pattern`]: the nodes of the pattern language and patterns as lists of
//!   nodes; [`tree`]: the trees that they stand for.
//! - [`syntax`]: from text to patterns.
//! - [`consistency`]: the check that operand widths are threaded through.
//! - [`condition`]: side conditions and the values they are evaluated on.
//! - [`rewrites`]: rules; [`catalog`]: the rules that are shipped.
//! - [`export`]: rules as the engine takes them; [`matches`]: what a rule
//!   makes of the matches that a search found.

pub mod catalog;
pub mod condition;
pub mod consistency;
pub mod export;
pub mod matches;
pub mod pattern;
pub mod rewrites;
pub mod syntax;
pub mod tree;
pub mod width;

pub use catalog::{
    create_egg_rewrites, create_rewrites, export_all, rewrites_from, rule_sources, CatalogError,
    RuleSource,
};
pub use condition::{Assignment, Binding, Guard, Substitution};
pub use consistency::{check_width_consistency, get_output_width_id, WidthMismatch};
pub use export::{Condition, Rewrite};
pub use matches::{ArithMatch, SearchMatches};
pub use pattern::{BinOp, Node, Pattern, PatternError, PatternNode, Sign, Slots, Var};
pub use rewrites::{
    substitution_to_assignment, vars_in_pattern, ArithRewrite, RewriteError, Side,
};
pub use width::{
    add_no_ov, eval_width_left_shift, eval_width_max_plus_1, lsh_no_ov, mul_no_ov, WidthInt,
};
