//! Task-lifecycle orchestration for an external coding agent.
//!
//! The library takes small units of work through a fixed pipeline: triage,
//! consultation where the triage was not enough, implementation in a sandbox
//! of its own, rebase, tests and review, with a bounded number of retries
//! and a pause whenever only a human can help. It decides; it never acts.
//! Whoever uses it runs the agent, git and the tests, and tells the library
//! how each of them went.
//!
//! The state store and the stage machine:
//! [`status`], [`tracker`], [`execute`], [`pipeline`], [`batch`], [`run`].
//!
//! The clarification channel:
//! [`clarification`], [`readback`], [`channel`], [`pending`].
//!
//! The sandbox and the commands around it:
//! [`worktree`], [`git`], [`sweep`].
//!
//! The agent and what it is told:
//! [`runner`], [`model`], [`triage`], [`prompt`], [`parent_prompt`].
//!
//! Tasks and configuration:
//! [`task`], [`intent`], [`work`], [`fetch`], [`config`], [`error`].
//!
//! Text:
//! [`text`], [`lines`], [`joined`], [`decimal`].

pub mod batch;
pub mod channel;
pub mod clarification;
pub mod config;
pub mod decimal;
pub mod error;
pub mod execute;
pub mod fetch;
pub mod git;
pub mod intent;
pub mod joined;
pub mod lines;
pub mod model;
pub mod parent_prompt;
pub mod pending;
pub mod pipeline;
pub mod prompt;
pub mod readback;
pub mod run;
pub mod runner;
pub mod status;
pub mod sweep;
pub mod task;
pub mod text;
pub mod tracker;
pub mod triage;
pub mod work;
pub mod worktree;
