//! Stacked pull requests on top of jj and GitHub.

use vstd::prelude::*;

pub mod adopting;
pub mod answers;
pub mod api;
pub mod asking;
pub mod basing;
pub mod behind;
pub mod bodies;
pub mod bookmarks;
pub mod branches;
pub mod cache;
pub mod candidates;
pub mod chaining;
pub mod cleanup;
pub mod commands;
pub mod commenting;
pub mod comments;
pub mod config;
pub mod consent;
pub mod context;
pub mod dry;
pub mod empty_merge;
pub mod error;
pub mod failing;
pub mod freezing;
pub mod frozen;
pub mod gathering;
pub mod get;
pub mod heading;
pub mod heads;
pub mod judging;
pub mod landing;
pub mod logging;
pub mod merge;
pub mod merging;
pub mod model;
pub mod needing;
pub mod noting;
pub mod output;
pub mod outside;
pub mod paths;
pub mod planning;
pub mod plans;
pub mod polling;
pub mod pr;
pub mod publishing;
pub mod quiet;
pub mod reading;
pub mod ready;
pub mod rebase;
pub mod record;
pub mod repair;
pub mod repo;
pub mod reporting;
pub mod revsets;
pub mod rows;
pub mod running;
pub mod settings;
pub mod settling;
pub mod shell;
pub mod stack;
pub mod stacking;
pub mod status;
pub mod submit;
pub mod sweeping;
pub mod sync;
pub mod syncing;
pub mod targeting;
pub mod text;
pub mod trunk;
pub mod ui;
pub mod unfreeze;
pub mod wording;
pub mod words;

use text::{cat3, trimmed, trimmed_end_char};

verus! {

/// The revset that scopes a view to every stack off trunk.
///
/// `mutable()` covers every commit that is not merged yet, whether submit has given it a bookmark or
/// not, so that sibling stacks stay visible. The rest adds what it cannot reach: trunk itself, the
/// working copy with its descendants, and every local submit head or frozen bookmark.
pub open spec fn tracked_stacks(branch_prefix: Seq<char>) -> Seq<char> {
    "trunk() | @:: | mutable() | trunk()..(@ | bookmarks(glob:'"@ + text::trim_end_char(
        branch_prefix,
        '/',
    ) + "/*') | bookmarks(glob:'forklift/frozen/*'))"@
}

pub fn tracked_stacks_revset(branch_prefix: &str) -> (r: String)
    ensures
        r@ == tracked_stacks(branch_prefix@),
{
    cat3(
        "trunk() | @:: | mutable() | trunk()..(@ | bookmarks(glob:'",
        &trimmed_end_char(branch_prefix, '/'),
        "/*') | bookmarks(glob:'forklift/frozen/*'))",
    )
}

/// An optional text, trimmed; a blank one counts as none.
pub fn empty_string_to_none(value: Option<String>) -> (r: Option<String>)
    ensures
        r.deep_view() == match value.deep_view() {
            Some(s) => if text::is_blank(s) {
                None
            } else {
                Some(text::trim(s))
            },
            None => None,
        },
{
    match value {
        Some(s) => {
            let inner = trimmed(&s);
            if inner.as_str().is_empty() {
                None
            } else {
                Some(inner)
            }
        },
        None => None,
    }
}

} // verus!
