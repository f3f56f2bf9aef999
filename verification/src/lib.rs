//! Verified core of the unix-side diagnostics: crash reports and cycle-counter timing.
//!
//! * [`line`] formats one report line into a fixed buffer, without allocating.
//! * [`signal`] names the fatal signals and plans the installation of the handler.
//! * [`text`] holds the lines of a crash report.
//! * [`context`] finds the registers of the faulting thread.
//! * [`image`] tells our own images by their paths.
//! * [`scan`] bounds the walks over a stack.
//! * [`step`] is the dialogue between a report and the code that carries it out.
//! * [`handler`] is the report itself, one action at a time.
//! * [`trace`] states and proves what whole reports look like.
//! * [`printed`] states and proves what a reader finds in them.
//! * [`calls`] states and proves what calls of the functions give.
//! * [`tsc`] calibrates the cycle counter and converts durations to cycles.

pub mod calls;
pub mod context;
pub mod handler;
pub mod image;
pub mod line;
pub mod printed;
pub mod scan;
pub mod signal;
pub mod step;
pub mod text;
pub mod trace;
pub mod tsc;
