//! Audit of installed packages that ship ELF binary artifacts.
//!
//! The pipeline enumerates packages, classifies each package's installed
//! files by their leading bytes, optionally attaches the package's average
//! historical build duration, and renders a duration-sorted report together
//! with reinstall command lines bucketed into three duration tiers.

pub mod classify;
pub mod plan;
pub mod record;
pub mod report;
pub mod text;
pub mod tool;
