//! Repository-state detection for a shell prompt: finds the control
//! directories above a working directory and describes the branch and any
//! operation in progress.
pub mod git;
pub mod stat;
pub mod text;
pub mod utility;
