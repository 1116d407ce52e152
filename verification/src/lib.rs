//! Verified core of a PCB CAM toolkit.
//!
//! * Readers: Gerber (RS-274X) streams with aperture macros and attributes,
//!   Excellon and PcbWizard drill files, G-code programs, HPGL plotter files,
//!   raster images, calibration tables.
//! * Writers: Gerber regions, Excellon drill programs, G-code in many
//!   dialects (and HPGL), GRBL laser programs; the files written read back
//!   as what was written.
//! * The G-code text editor, the plugin catalogue and small front-end
//!   decisions.
//!
//! Numbers are kept exactly: as the literal texts read, as exact decimals,
//! or as `f64` bit patterns handed over by the caller.
use vstd::prelude::*;

pub mod text;
pub mod numeric;
pub mod gcode_editor;
pub mod attributes;
pub mod plugins;
pub mod gcode;
pub mod gcode_reader;
pub mod hpgl;
pub mod raster;
pub mod gui;
pub mod gerber;
pub mod gerber_macros;
pub mod excellon;
pub mod pcbwizard;
pub mod drill_writer;
pub mod drill_round_trip;
pub mod gerber_writer;
pub mod gerber_round_trip;
pub mod calib_csv;
pub mod gcode_round_trip;
pub mod laser;
pub mod hpgl_round_trip;

verus! {
} // verus!
