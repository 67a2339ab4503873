use vstd::prelude::*;

pub mod text;
pub mod git;
pub mod pr_diff;
pub mod cli;
pub mod keybinds;
pub mod auth;
pub mod app;
pub mod issues;
pub mod github;
pub mod linked;
pub mod metadata;
pub mod repo_index;
pub mod discovery;
pub mod config;
pub mod worker;
pub mod picker;
pub mod issue_list;
pub mod issue_detail;
pub mod repo_list;
pub mod editor;
pub mod review_threads;
pub mod review;
pub mod actions;
pub mod mouse;
pub mod input;
pub mod pending;
pub mod screens;
pub mod markdown;
pub mod events;
pub mod dispatch;
pub mod payload;

verus! {

} // verus!
