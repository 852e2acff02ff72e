//! Template application: decide, file by file, how a template tree lands in
//! a destination project.
//!
//! The library computes and decides; it touches no file. `apply` holds the
//! apply engine, `walk` the walk over a template tree, `ignore` the ignore
//! policy and `merge` the content merges.
//! Around them stand what feeds the engine: `config` reads the
//! configuration, `resolve` says where a template's directory lies,
//! `licensing` renders license texts, and `cli` holds what the command line
//! decides. `text`, `chars`, `relpath`, `glob` and `namemap` are the tools
//! that the others share.

pub mod apply;
pub mod chars;
pub mod cli;
pub mod config;
pub mod glob;
pub mod ignore;
pub mod licensing;
pub mod merge;
pub mod namemap;
pub mod relpath;
pub mod resolve;
pub mod text;
pub mod walk;

pub use apply::{
    ApplyError, ApplyOptions, ApplyReport, ExistingFileAction, ExistingFileDecider,
    ExistingFileDecisionContext, FixedAction, Outcome, SkipExisting,
};
