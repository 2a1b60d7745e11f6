//! Regression bisection over the integration commits of a compiler toolchain: resolving the
//! ordered commit range, planning the download and extraction of each candidate sysroot,
//! and the least-satisfying binary search that drives the run.
use vstd::prelude::*;

pub mod bisect;
pub mod commit;
pub mod history;
pub mod host;
pub mod sysroot;
pub mod text;

verus! {

} // verus!
