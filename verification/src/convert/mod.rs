//! Conversion infrastructure shared by all formats: warnings, options and the
//! strict gate.

pub mod warnings;
pub mod options;
pub mod gate;
pub mod severity_laws;
pub mod sampling;

pub use crate::convert::gate::strict_gate;
pub use crate::convert::options::{ConvertOptions, ConvertOptionsV, OrphanToolCalls};
pub use crate::convert::warnings::{ConversionDirection, ConversionWarning, ConversionWarningV, WarningCode, WarningSeverity};
