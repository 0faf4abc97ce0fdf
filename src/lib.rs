//! Robots exclusion protocol: scanning `robots.txt` bytes into directives,
//! resolving the user-agent group that applies to a crawler, compiling path
//! patterns and deciding whether a path may be fetched.
use vstd::prelude::*;

mod agent;
mod builder;
mod delay;
mod directive;
mod expression;
mod glob;
mod laws;
mod lexer;
mod path;
mod robots;
mod rule;
mod rules;
mod text;

pub use agent::{agent_bytes, try_agent, UserAgent};
pub use builder::{Factory, Section};
pub use delay::{try_delay, Delay};
pub use directive::{Directive, DirectiveKind};
pub use expression::Expression;
pub use glob::{build_source, collapse_stars, glob_match};
pub use laws::{
    lemma_allowed_by_permutation, lemma_delay_is_minimum, lemma_oversized_input,
    lemma_parse_deterministic, lemma_resolved_is_longest, lemma_robots_txt_allowed, lemma_robots_txt_always_allowed,
};
pub use lexer::{b_consume_newline, b_not_line_ending, b_not_line_ending_or_comment, into_directives};
pub use path::{normalize_bytes, normalize_path};
pub use robots::{
    find_agent, pick_agent, prepare, try_rule, try_sitemaps, AccessResult, Robots, BYTES_LIMIT,
};
pub use rule::{Rule, Wildcard, WildcardError, EXPRESSION_SIZE_LIMIT};
pub use rules::{lemma_first_match_decides, Rules};

verus! {

} // verus!
