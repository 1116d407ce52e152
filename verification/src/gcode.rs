//! G-code dialects ("preprocessors"): the program text each supported
//! controller flavour emits for the abstract motions of a CNC job.
//!
//! A job is a sequence of motions (program start, rapid lift, rapid XY
//! positioning, plunge, cutting move, program end). Each [`Dialect`] turns
//! every motion into one or more lines of text. The numeric words of the job
//! (tool diameter, depths, feeds, spindle speed, coordinates) are handed in
//! already rendered as text ([`JobWords`] and the coordinate arguments), so
//! that the choice of words, comments and program structure, which is what
//! distinguishes the dialects, is stated here exactly.
//!
//! Dialects are found by case-insensitive name through [`by_name`] and the
//! per-family registries ([`by_name_extra`], [`by_name_more`], ...).
use crate::text::{ascii_lower_spec, chars_of, eq_text, push_char, push_str, to_ascii_lower};
use vstd::prelude::*;

verus! {

/// Units a job is expressed in (drives `G20`/`G21`).
#[derive(Clone, Copy, Debug, PartialEq, Eq, Structural)]
pub enum Units {
    Inch,
    Mm,
}

/// The units word: `G21` for millimetres, `G20` for inches.
pub open spec fn units_word_spec(u: Units) -> Seq<char> {
    match u {
        Units::Mm => "G21"@,
        Units::Inch => "G20"@,
    }
}

/// Emit the units word (`G21` for millimetres, `G20` for inches).
pub fn units_word(units: Units) -> (r: &'static str)
    ensures
        r@ == units_word_spec(units),
{
    match units {
        Units::Mm => "G21",
        Units::Inch => "G20",
    }
}

/// The numeric words of a job, rendered as they appear in the program.
pub struct JobWords {
    /// Units of the job.
    pub units: Units,
    /// Tool diameter, four decimals.
    pub tool_diameter: String,
    /// Depth of cut (negative), four decimals.
    pub cut_z: String,
    /// Clearance height for rapids, four decimals.
    pub travel_z: String,
    /// XY feed rate, no decimals.
    pub feed_xy: String,
    /// Z feed rate, no decimals.
    pub feed_z: String,
    /// Spindle speed (laser power, dispense rate), no decimals.
    pub spindle: String,
    /// Spindle speed scaled to the 0..=255 fan PWM range (fan-pin lasers).
    pub fan_power: String,
}

/// The character content of [`JobWords`].
pub struct JobWordsView {
    pub units: Units,
    pub tool_diameter: Seq<char>,
    pub cut_z: Seq<char>,
    pub travel_z: Seq<char>,
    pub feed_xy: Seq<char>,
    pub feed_z: Seq<char>,
    pub spindle: Seq<char>,
    pub fan_power: Seq<char>,
}

impl View for JobWords {
    type V = JobWordsView;

    open spec fn view(&self) -> JobWordsView {
        JobWordsView {
            units: self.units,
            tool_diameter: self.tool_diameter@,
            cut_z: self.cut_z@,
            travel_z: self.travel_z@,
            feed_xy: self.feed_xy@,
            feed_z: self.feed_z@,
            spindle: self.spindle@,
            fan_power: self.fan_power@,
        }
    }
}

/// Every G-code (and plotter) dialect the library can emit.
#[derive(Clone, Copy, Debug, PartialEq, Eq, Structural)]
pub enum Dialect {
    Grbl,
    Marlin,
    GenericDefault,
    GrblNoM6,
    GrblLaser,
    RolandMDX,
    Isel,
    Repetier,
    Berta,
    LinuxCnc,
    Mach3,
    ToolchangeProbe,
    Smoothie,
    TinyG,
    Emc2,
    GrblDynamicLaser,
    SolderPaste,
    ToolchangeManual,
    Paste1,
    PasteGrbl,
    PasteMarlin,
    GrblLaserAirAssist,
    MarlinLaserFan,
    MarlinLaserSpindle,
    GrblLaserEleksDrd,
    IselIcp,
    LineXyz,
    GrblLaserZ,
    MarlinLaserZ,
    DefaultLaser,
    Nccad9,
    RolandMdx540,
    CheckPoints,
    Hpgl,
}

/// The display name of a dialect.
pub open spec fn dialect_name(d: Dialect) -> Seq<char> {
    match d {
        Dialect::Grbl => "GRBL"@,
        Dialect::Marlin => "Marlin"@,
        Dialect::GenericDefault => "Default"@,
        Dialect::GrblNoM6 => "GRBL (no M6)"@,
        Dialect::GrblLaser => "GRBL Laser"@,
        Dialect::RolandMDX => "Roland MDX"@,
        Dialect::Isel => "ISEL"@,
        Dialect::Repetier => "Repetier"@,
        Dialect::Berta => "Berta"@,
        Dialect::LinuxCnc => "LinuxCNC"@,
        Dialect::Mach3 => "Mach3"@,
        Dialect::ToolchangeProbe => "Toolchange Probe"@,
        Dialect::Smoothie => "Smoothie"@,
        Dialect::TinyG => "TinyG"@,
        Dialect::Emc2 => "EMC2"@,
        Dialect::GrblDynamicLaser => "GRBL Dynamic Laser (M4)"@,
        Dialect::SolderPaste => "Solder Paste"@,
        Dialect::ToolchangeManual => "Manual Toolchange"@,
        Dialect::Paste1 => "Paste 1"@,
        Dialect::PasteGrbl => "Paste GRBL"@,
        Dialect::PasteMarlin => "Paste Marlin"@,
        Dialect::GrblLaserAirAssist => "GRBL Laser (Air Assist)"@,
        Dialect::MarlinLaserFan => "Marlin Laser (FAN pin)"@,
        Dialect::MarlinLaserSpindle => "Marlin Laser (spindle)"@,
        Dialect::GrblLaserEleksDrd => "GRBL Laser Eleks (drill ring)"@,
        Dialect::IselIcp => "ISEL ICP CNC"@,
        Dialect::LineXyz => "Line XYZ"@,
        Dialect::GrblLaserZ => "GRBL Laser (Z)"@,
        Dialect::MarlinLaserZ => "Marlin Laser (Z)"@,
        Dialect::DefaultLaser => "Default Laser"@,
        Dialect::Nccad9 => "nccad9"@,
        Dialect::RolandMdx540 => "Roland MDX-540"@,
        Dialect::CheckPoints => "Check Points"@,
        Dialect::Hpgl => "HPGL"@,
    }
}

/// `base` followed by the text that `header` emits for dialect `d`: program start.
pub open spec fn header_text(base: Seq<char>, d: Dialect, w: JobWordsView) -> Seq<char> {
    match d {
        Dialect::Grbl => base + ("(FlatCAM-RS GRBL preprocessor)"@).push('\n') + ("(tool dia: "@ + w.tool_diameter + ")"@).push('\n') + ("G90"@).push('\n') + (units_word_spec(w.units)).push('\n') + ("M03 S"@ + w.spindle).push('\n') + ("G00 Z"@ + w.travel_z).push('\n'),
        Dialect::Marlin => base + ("; FlatCAM-RS Marlin preprocessor"@).push('\n') + ("G90"@).push('\n') + (units_word_spec(w.units)).push('\n') + ("M3 S"@ + w.spindle).push('\n') + ("G0 Z"@ + w.travel_z).push('\n'),
        Dialect::GenericDefault => base + ("(FlatCAM-RS Default/MACH3 preprocessor)"@).push('\n') + ("(tool dia: "@ + w.tool_diameter + ")"@).push('\n') + ("G90"@).push('\n') + (units_word_spec(w.units)).push('\n') + ("(TOOLCHANGE)"@).push('\n') + ("M06 T1"@).push('\n') + ("M03 S"@ + w.spindle).push('\n') + ("G00 Z"@ + w.travel_z).push('\n'),
        Dialect::GrblNoM6 => base + ("(FlatCAM-RS GRBL no-M6 preprocessor)"@).push('\n') + ("(tool dia: "@ + w.tool_diameter + ")"@).push('\n') + ("(single tool: no M6 toolchange emitted)"@).push('\n') + ("G90"@).push('\n') + (units_word_spec(w.units)).push('\n') + ("M03 S"@ + w.spindle).push('\n') + ("G00 Z"@ + w.travel_z).push('\n'),
        Dialect::GrblLaser => base + ("(FlatCAM-RS GRBL Laser preprocessor)"@).push('\n') + ("(spindle_rpm reused as laser power S-value)"@).push('\n') + ("G90"@).push('\n') + (units_word_spec(w.units)).push('\n') + ("M05"@).push('\n'),
        Dialect::RolandMDX => base + ("; FlatCAM-RS Roland MDX preprocessor (approximation)"@).push('\n') + ("; tool dia: "@ + w.tool_diameter).push('\n') + ("G90"@).push('\n') + (units_word_spec(w.units)).push('\n') + ("M03 S"@ + w.spindle).push('\n') + ("G00 Z"@ + w.travel_z).push('\n'),
        Dialect::Isel => base + ("(FlatCAM-RS ISEL preprocessor)"@).push('\n') + ("(tool dia: "@ + w.tool_diameter + ")"@).push('\n') + ("G90"@).push('\n') + (units_word_spec(w.units)).push('\n') + ("M03 S"@ + w.spindle).push('\n') + ("G00 Z"@ + w.travel_z).push('\n'),
        Dialect::Repetier => base + ("; FlatCAM-RS Repetier preprocessor"@).push('\n') + ("; tool dia: "@ + w.tool_diameter).push('\n') + ("G90"@).push('\n') + (units_word_spec(w.units)).push('\n') + ("M03 S"@ + w.spindle).push('\n') + ("G00 Z"@ + w.travel_z).push('\n'),
        Dialect::Berta => base + ("(FlatCAM-RS Berta preprocessor)"@).push('\n') + ("(tool dia: "@ + w.tool_diameter + ")"@).push('\n') + ("G90"@).push('\n') + (units_word_spec(w.units)).push('\n') + ("M03 S"@ + w.spindle).push('\n') + ("G00 Z"@ + w.travel_z).push('\n'),
        Dialect::LinuxCnc => base + ("(FlatCAM-RS LinuxCNC preprocessor)"@).push('\n') + ("(tool dia: "@ + w.tool_diameter + ")"@).push('\n') + ("G90"@).push('\n') + (units_word_spec(w.units)).push('\n') + ("M03 S"@ + w.spindle).push('\n') + ("G00 Z"@ + w.travel_z).push('\n'),
        Dialect::Mach3 => base + ("(FlatCAM-RS Mach3 preprocessor)"@).push('\n') + ("(tool dia: "@ + w.tool_diameter + ")"@).push('\n') + ("G90"@).push('\n') + (units_word_spec(w.units)).push('\n') + ("M03 S"@ + w.spindle).push('\n') + ("G00 Z"@ + w.travel_z).push('\n'),
        Dialect::ToolchangeProbe => base + ("(FlatCAM-RS Toolchange-Probe preprocessor)"@).push('\n') + ("(tool dia: "@ + w.tool_diameter + ")"@).push('\n') + ("G90"@).push('\n') + (units_word_spec(w.units)).push('\n') + ("(TOOLCHANGE: probe Z to touch plate)"@).push('\n') + ("G38.2 Z"@ + w.cut_z + " F"@ + w.feed_z).push('\n') + ("M03 S"@ + w.spindle).push('\n') + ("G00 Z"@ + w.travel_z).push('\n'),
        Dialect::Smoothie => base + ("; FlatCAM-RS Smoothieware preprocessor"@).push('\n') + ("; tool dia: "@ + w.tool_diameter).push('\n') + ("G90"@).push('\n') + (units_word_spec(w.units)).push('\n') + ("M03 S"@ + w.spindle).push('\n') + ("G00 Z"@ + w.travel_z).push('\n'),
        Dialect::TinyG => base + ("(FlatCAM-RS TinyG preprocessor)"@).push('\n') + ("(tool dia: "@ + w.tool_diameter + ")"@).push('\n') + ("G90"@).push('\n') + (units_word_spec(w.units)).push('\n') + ("M03 S"@ + w.spindle).push('\n') + ("G00 Z"@ + w.travel_z).push('\n'),
        Dialect::Emc2 => base + ("(FlatCAM-RS LinuxCNC/EMC2 preprocessor)"@).push('\n') + ("(tool dia: "@ + w.tool_diameter + ")"@).push('\n') + ("G90"@).push('\n') + (units_word_spec(w.units)).push('\n') + ("M03 S"@ + w.spindle).push('\n') + ("G00 Z"@ + w.travel_z).push('\n'),
        Dialect::GrblDynamicLaser => base + ("(FlatCAM-RS GRBL Dynamic Laser preprocessor)"@).push('\n') + ("(M4 dynamic laser power; spindle_rpm reused as S-value)"@).push('\n') + ("G90"@).push('\n') + (units_word_spec(w.units)).push('\n') + ("M05"@).push('\n'),
        Dialect::SolderPaste => base + ("(FlatCAM-RS Solder Paste dispenser preprocessor)"@).push('\n') + ("(models a paste extruder: M3 S=dispense ON, M5=OFF)"@).push('\n') + ("(nozzle dia: "@ + w.tool_diameter + ")"@).push('\n') + ("G90"@).push('\n') + (units_word_spec(w.units)).push('\n') + ("M5"@).push('\n') + ("G00 Z"@ + w.travel_z).push('\n'),
        Dialect::ToolchangeManual => base + ("(FlatCAM-RS Manual Toolchange preprocessor)"@).push('\n') + ("(tool dia: "@ + w.tool_diameter + ")"@).push('\n') + ("G90"@).push('\n') + (units_word_spec(w.units)).push('\n') + ("M6"@).push('\n') + ("(MSG, change tool)"@).push('\n') + ("M0"@).push('\n') + ("M03 S"@ + w.spindle).push('\n') + ("G00 Z"@ + w.travel_z).push('\n'),
        Dialect::Paste1 => base + ("(FlatCAM-RS Paste_1 solder-paste preprocessor)"@).push('\n') + ("(MACH3-like: M03 S=dispense ON, M05=OFF)"@).push('\n') + ("(nozzle dia: "@ + w.tool_diameter + ")"@).push('\n') + ("G90"@).push('\n') + (units_word_spec(w.units)).push('\n') + ("M05"@).push('\n') + ("G00 Z"@ + w.travel_z).push('\n'),
        Dialect::PasteGrbl => base + ("(FlatCAM-RS Paste_GRBL solder-paste preprocessor)"@).push('\n') + ("(GRBL-like: M03 S=dispense ON, M05=OFF)"@).push('\n') + ("(nozzle dia: "@ + w.tool_diameter + ")"@).push('\n') + ("G90"@).push('\n') + (units_word_spec(w.units)).push('\n') + ("M05"@).push('\n') + ("G00 Z"@ + w.travel_z).push('\n'),
        Dialect::PasteMarlin => base + ("; FlatCAM-RS Paste_Marlin solder-paste preprocessor"@).push('\n') + ("; Marlin-like: M3 S=dispense ON, M5=OFF"@).push('\n') + ("; nozzle dia: "@ + w.tool_diameter).push('\n') + ("G90"@).push('\n') + (units_word_spec(w.units)).push('\n') + ("M5"@).push('\n') + ("G0 Z"@ + w.travel_z).push('\n'),
        Dialect::GrblLaserAirAssist => base + ("(FlatCAM-RS GRBL Laser air-assist preprocessor)"@).push('\n') + ("(laser: M3 S=beam ON power, M5=OFF; no Z)"@).push('\n') + ("G90"@).push('\n') + (units_word_spec(w.units)).push('\n') + ("M5"@).push('\n') + ("M8"@).push('\n'),
        Dialect::MarlinLaserFan => base + ("; FlatCAM-RS Marlin Laser (FAN-pin) preprocessor"@).push('\n') + ("; laser driven via the fan PWM pin: M106 S0..255, M107=off; no Z"@).push('\n') + ("G90"@).push('\n') + (units_word_spec(w.units)).push('\n') + ("M106 S0"@).push('\n'),
        Dialect::MarlinLaserSpindle => base + ("; FlatCAM-RS Marlin Laser (spindle) preprocessor"@).push('\n') + ("; laser via spindle output: M3 S=power, M5=off; no Z"@).push('\n') + ("G90"@).push('\n') + (units_word_spec(w.units)).push('\n') + ("M5"@).push('\n'),
        Dialect::GrblLaserEleksDrd => base + ("(FlatCAM-RS grbl_laser_eleks_drd preprocessor)"@).push('\n') + ("(EleksMaker GRBL laser, no Z: drill points -> G2 centring rings)"@).push('\n') + (units_word_spec(w.units)).push('\n') + ("G90"@).push('\n') + ("M03 S0"@).push('\n'),
        Dialect::IselIcp => base + ("; FlatCAM-RS ISEL_ICP_CNC preprocessor"@).push('\n') + ("; tool dia: "@ + w.tool_diameter).push('\n') + ("G90"@).push('\n') + (units_word_spec(w.units)).push('\n') + ("M03 S"@ + w.spindle).push('\n') + ("G00 Z"@ + w.travel_z).push('\n'),
        Dialect::LineXyz => base + ("(FlatCAM-RS Line_xyz preprocessor)"@).push('\n') + ("(combined X Y Z per motion line)"@).push('\n') + ("G90"@).push('\n') + (units_word_spec(w.units)).push('\n') + ("M03 S"@ + w.spindle).push('\n') + ("G00 X0.0000 Y0.0000 Z"@ + w.travel_z).push('\n'),
        Dialect::GrblLaserZ => base + ("(FlatCAM-RS GRBL_laser_z preprocessor)"@).push('\n') + ("(laser with retained Z focus moves)"@).push('\n') + ("G90"@).push('\n') + (units_word_spec(w.units)).push('\n') + ("M05"@).push('\n') + ("G00 Z"@ + w.travel_z).push('\n'),
        Dialect::MarlinLaserZ => base + ("; FlatCAM-RS Marlin_laser_z preprocessor"@).push('\n') + ("; laser with retained Z focus moves: M3 S=power, M5=off"@).push('\n') + ("G90"@).push('\n') + (units_word_spec(w.units)).push('\n') + ("M5"@).push('\n') + ("G0 Z"@ + w.travel_z).push('\n'),
        Dialect::DefaultLaser => base + ("(FlatCAM-RS default_laser preprocessor)"@).push('\n') + ("(MACH3-compatible laser: M3/M5 beam toggle, XY only)"@).push('\n') + ("G90"@).push('\n') + (units_word_spec(w.units)).push('\n') + ("M05"@).push('\n'),
        Dialect::Nccad9 => base + ("(FlatCAM-RS NCCAD9 preprocessor)"@).push('\n') + ("(tool dia: "@ + w.tool_diameter + ")"@).push('\n') + ("G90"@).push('\n') + (units_word_spec(w.units)).push('\n') + ("M03 S"@ + w.spindle).push('\n') + ("G00 Z"@ + w.travel_z).push('\n'),
        Dialect::RolandMdx540 => base + ("; FlatCAM-RS Roland_MDX_540 preprocessor"@).push('\n') + ("; tool dia: "@ + w.tool_diameter).push('\n') + (";;^IN;!MC1;"@).push('\n') + ("!RC"@ + w.spindle + ";"@).push('\n') + ("G90"@).push('\n') + (units_word_spec(w.units)).push('\n') + ("G00 Z"@ + w.travel_z).push('\n'),
        Dialect::CheckPoints => base + ("(FlatCAM-RS Check_points diagnostic preprocessor)"@).push('\n') + ("(no cutting: move to each point and pause with M0)"@).push('\n') + ("G90"@).push('\n') + (units_word_spec(w.units)).push('\n') + ("G00 Z"@ + w.travel_z).push('\n'),
        Dialect::Hpgl => base + ("IN;"@).push('\n') + ("SP1;"@).push('\n') + ("PU;"@).push('\n'),
    }
}

/// `base` followed by the text that `footer` emits for dialect `d`: program end.
pub open spec fn footer_text(base: Seq<char>, d: Dialect, w: JobWordsView) -> Seq<char> {
    match d {
        Dialect::Grbl => base + ("G00 Z"@ + w.travel_z).push('\n') + ("M05"@).push('\n') + ("G00 X0.0000 Y0.0000"@).push('\n') + ("M30"@).push('\n'),
        Dialect::Marlin => base + ("M5"@).push('\n') + ("M2"@).push('\n'),
        Dialect::GenericDefault => base + ("G00 Z"@ + w.travel_z).push('\n') + ("M05"@).push('\n') + ("G00 X0.0000 Y0.0000"@).push('\n') + ("M30"@).push('\n'),
        Dialect::GrblNoM6 => base + ("G00 Z"@ + w.travel_z).push('\n') + ("M05"@).push('\n') + ("G00 X0.0000 Y0.0000"@).push('\n') + ("M30"@).push('\n'),
        Dialect::GrblLaser => base + ("M05"@).push('\n') + ("M02"@).push('\n'),
        Dialect::RolandMDX => base + ("G00 Z"@ + w.travel_z).push('\n') + ("M05"@).push('\n') + ("M02"@).push('\n'),
        Dialect::Isel => base + ("G00 Z"@ + w.travel_z).push('\n') + ("M05"@).push('\n') + ("G00 X0.0000 Y0.0000"@).push('\n') + ("M30"@).push('\n'),
        Dialect::Repetier => base + ("G00 Z"@ + w.travel_z).push('\n') + ("M05"@).push('\n') + ("G00 X0.0000 Y0.0000"@).push('\n') + ("M2"@).push('\n'),
        Dialect::Berta => base + ("G00 Z"@ + w.travel_z).push('\n') + ("M05"@).push('\n') + ("G00 X0.0000 Y0.0000"@).push('\n') + ("M2"@).push('\n'),
        Dialect::LinuxCnc => base + ("G00 Z"@ + w.travel_z).push('\n') + ("M05"@).push('\n') + ("G00 X0.0000 Y0.0000"@).push('\n') + ("M2"@).push('\n'),
        Dialect::Mach3 => base + ("G00 Z"@ + w.travel_z).push('\n') + ("M05"@).push('\n') + ("G00 X0.0000 Y0.0000"@).push('\n') + ("M30"@).push('\n'),
        Dialect::ToolchangeProbe => base + ("G00 Z"@ + w.travel_z).push('\n') + ("M05"@).push('\n') + ("G00 X0.0000 Y0.0000"@).push('\n') + ("M30"@).push('\n'),
        Dialect::Smoothie => base + ("G00 Z"@ + w.travel_z).push('\n') + ("M05"@).push('\n') + ("G00 X0.0000 Y0.0000"@).push('\n') + ("M30"@).push('\n'),
        Dialect::TinyG => base + ("G00 Z"@ + w.travel_z).push('\n') + ("M05"@).push('\n') + ("G00 X0.0000 Y0.0000"@).push('\n') + ("M30"@).push('\n'),
        Dialect::Emc2 => base + ("G00 Z"@ + w.travel_z).push('\n') + ("M05"@).push('\n') + ("G00 X0.0000 Y0.0000"@).push('\n') + ("M30"@).push('\n'),
        Dialect::GrblDynamicLaser => base + ("M05"@).push('\n') + ("M02"@).push('\n'),
        Dialect::SolderPaste => base + ("G00 Z"@ + w.travel_z).push('\n') + ("M5"@).push('\n') + ("G00 X0.0000 Y0.0000"@).push('\n') + ("M30"@).push('\n'),
        Dialect::ToolchangeManual => base + ("G00 Z"@ + w.travel_z).push('\n') + ("M05"@).push('\n') + ("G00 X0.0000 Y0.0000"@).push('\n') + ("M30"@).push('\n'),
        Dialect::Paste1 => base + ("G00 Z"@ + w.travel_z).push('\n') + ("M05"@).push('\n') + ("G00 X0.0000 Y0.0000"@).push('\n') + ("M30"@).push('\n'),
        Dialect::PasteGrbl => base + ("G00 Z"@ + w.travel_z).push('\n') + ("M05"@).push('\n') + ("G00 X0.0000 Y0.0000"@).push('\n') + ("M02"@).push('\n'),
        Dialect::PasteMarlin => base + ("G0 Z"@ + w.travel_z).push('\n') + ("M5"@).push('\n') + ("G0 X0.0000 Y0.0000"@).push('\n') + ("M2"@).push('\n'),
        Dialect::GrblLaserAirAssist => base + ("M5"@).push('\n') + ("M9"@).push('\n') + ("G00 X0.0000 Y0.0000"@).push('\n') + ("M30"@).push('\n'),
        Dialect::MarlinLaserFan => base + ("M107"@).push('\n') + ("M2"@).push('\n'),
        Dialect::MarlinLaserSpindle => base + ("M5"@).push('\n') + ("M2"@).push('\n'),
        Dialect::GrblLaserEleksDrd => base + ("M05"@).push('\n') + ("G00 X0.0000 Y0.0000"@).push('\n') + ("M30"@).push('\n'),
        Dialect::IselIcp => base + ("G00 Z"@ + w.travel_z).push('\n') + ("M05"@).push('\n') + ("G00 X0.0000 Y0.0000"@).push('\n') + ("M30"@).push('\n'),
        Dialect::LineXyz => base + ("G00 X0.0000 Y0.0000 Z"@ + w.travel_z).push('\n') + ("M05"@).push('\n') + ("M30"@).push('\n'),
        Dialect::GrblLaserZ => base + ("G00 Z"@ + w.travel_z).push('\n') + ("M05"@).push('\n') + ("M02"@).push('\n'),
        Dialect::MarlinLaserZ => base + ("G0 Z"@ + w.travel_z).push('\n') + ("M5"@).push('\n') + ("M2"@).push('\n'),
        Dialect::DefaultLaser => base + ("M05"@).push('\n') + ("G00 X0.0000 Y0.0000"@).push('\n') + ("M30"@).push('\n'),
        Dialect::Nccad9 => base + ("G00 Z"@ + w.travel_z).push('\n') + ("M05"@).push('\n') + ("G00 X0.0000 Y0.0000"@).push('\n') + ("M30"@).push('\n'),
        Dialect::RolandMdx540 => base + ("G00 Z"@ + w.travel_z).push('\n') + ("!MC0;;;^IN;"@).push('\n') + ("M02"@).push('\n'),
        Dialect::CheckPoints => base + ("G00 Z"@ + w.travel_z).push('\n') + ("G00 X0.0000 Y0.0000"@).push('\n') + ("M30"@).push('\n'),
        Dialect::Hpgl => base + ("PU;"@).push('\n') + ("PA0,0;"@).push('\n') + ("SP0;"@).push('\n'),
    }
}

/// `base` followed by the text that `rapid_z` emits for dialect `d`: a rapid z move (a lift) to `z`.
pub open spec fn rapid_z_text(base: Seq<char>, d: Dialect, z: Seq<char>) -> Seq<char> {
    match d {
        Dialect::Grbl => base + ("G00 Z"@ + z).push('\n'),
        Dialect::Marlin => base + ("G0 Z"@ + z).push('\n'),
        Dialect::GenericDefault => base + ("G00 Z"@ + z).push('\n'),
        Dialect::GrblNoM6 => base + ("G00 Z"@ + z).push('\n'),
        Dialect::GrblLaser => base + ("M05"@).push('\n'),
        Dialect::RolandMDX => base + ("G00 Z"@ + z).push('\n'),
        Dialect::Isel => base + ("G00 Z"@ + z).push('\n'),
        Dialect::Repetier => base + ("G00 Z"@ + z).push('\n'),
        Dialect::Berta => base + ("G00 Z"@ + z).push('\n'),
        Dialect::LinuxCnc => base + ("G00 Z"@ + z).push('\n'),
        Dialect::Mach3 => base + ("G00 Z"@ + z).push('\n'),
        Dialect::ToolchangeProbe => base + ("G00 Z"@ + z).push('\n'),
        Dialect::Smoothie => base + ("G00 Z"@ + z).push('\n'),
        Dialect::TinyG => base + ("G00 Z"@ + z).push('\n'),
        Dialect::Emc2 => base + ("G00 Z"@ + z).push('\n'),
        Dialect::GrblDynamicLaser => base + ("M05"@).push('\n'),
        Dialect::SolderPaste => base + ("M5"@).push('\n') + ("G00 Z"@ + z).push('\n'),
        Dialect::ToolchangeManual => base + ("G00 Z"@ + z).push('\n'),
        Dialect::Paste1 => base + ("M05"@).push('\n') + ("G00 Z"@ + z).push('\n'),
        Dialect::PasteGrbl => base + ("M05"@).push('\n') + ("G00 Z"@ + z).push('\n'),
        Dialect::PasteMarlin => base + ("M5"@).push('\n') + ("G0 Z"@ + z).push('\n'),
        Dialect::GrblLaserAirAssist => base + ("M5"@).push('\n'),
        Dialect::MarlinLaserFan => base + ("M107"@).push('\n'),
        Dialect::MarlinLaserSpindle => base + ("M5"@).push('\n'),
        Dialect::GrblLaserEleksDrd => base + ("M05"@).push('\n'),
        Dialect::IselIcp => base + ("G00 Z"@ + z).push('\n'),
        Dialect::LineXyz => base + ("G00 X0.0000 Y0.0000 Z"@ + z).push('\n'),
        Dialect::GrblLaserZ => base + ("M05"@).push('\n') + ("G00 Z"@ + z).push('\n'),
        Dialect::MarlinLaserZ => base + ("M5"@).push('\n') + ("G0 Z"@ + z).push('\n'),
        Dialect::DefaultLaser => base + ("M05"@).push('\n'),
        Dialect::Nccad9 => base + ("G00 Z"@ + z).push('\n'),
        Dialect::RolandMdx540 => base + ("G00 Z"@ + z).push('\n'),
        Dialect::CheckPoints => base + ("G00 Z"@ + z).push('\n'),
        Dialect::Hpgl => base + ("PU;"@).push('\n'),
    }
}

/// `base` followed by the text that `rapid_xy` emits for dialect `d`: a rapid positioning move to `(x, y)`.
pub open spec fn rapid_xy_text(base: Seq<char>, d: Dialect, x: Seq<char>, y: Seq<char>) -> Seq<char> {
    match d {
        Dialect::Grbl => base + ("G00 X"@ + x + " Y"@ + y).push('\n'),
        Dialect::Marlin => base + ("G0 X"@ + x + " Y"@ + y).push('\n'),
        Dialect::GenericDefault => base + ("G00 X"@ + x + " Y"@ + y).push('\n'),
        Dialect::GrblNoM6 => base + ("G00 X"@ + x + " Y"@ + y).push('\n'),
        Dialect::GrblLaser => base + ("G00 X"@ + x + " Y"@ + y).push('\n'),
        Dialect::RolandMDX => base + ("G00 X"@ + x + " Y"@ + y).push('\n'),
        Dialect::Isel => base + ("G00 X"@ + x + " Y"@ + y).push('\n'),
        Dialect::Repetier => base + ("G00 X"@ + x + " Y"@ + y).push('\n'),
        Dialect::Berta => base + ("G00 X"@ + x + " Y"@ + y).push('\n'),
        Dialect::LinuxCnc => base + ("G00 X"@ + x + " Y"@ + y).push('\n'),
        Dialect::Mach3 => base + ("G00 X"@ + x + " Y"@ + y).push('\n'),
        Dialect::ToolchangeProbe => base + ("G00 X"@ + x + " Y"@ + y).push('\n'),
        Dialect::Smoothie => base + ("G00 X"@ + x + " Y"@ + y).push('\n'),
        Dialect::TinyG => base + ("G00 X"@ + x + " Y"@ + y).push('\n'),
        Dialect::Emc2 => base + ("G00 X"@ + x + " Y"@ + y).push('\n'),
        Dialect::GrblDynamicLaser => base + ("G00 X"@ + x + " Y"@ + y).push('\n'),
        Dialect::SolderPaste => base + ("G00 X"@ + x + " Y"@ + y).push('\n'),
        Dialect::ToolchangeManual => base + ("G00 X"@ + x + " Y"@ + y).push('\n'),
        Dialect::Paste1 => base + ("G00 X"@ + x + " Y"@ + y).push('\n'),
        Dialect::PasteGrbl => base + ("G00 X"@ + x + " Y"@ + y).push('\n'),
        Dialect::PasteMarlin => base + ("G0 X"@ + x + " Y"@ + y).push('\n'),
        Dialect::GrblLaserAirAssist => base + ("G00 X"@ + x + " Y"@ + y).push('\n'),
        Dialect::MarlinLaserFan => base + ("G0 X"@ + x + " Y"@ + y).push('\n'),
        Dialect::MarlinLaserSpindle => base + ("G0 X"@ + x + " Y"@ + y).push('\n'),
        Dialect::GrblLaserEleksDrd => base + ("G00 X"@ + x + " Y"@ + y).push('\n'),
        Dialect::IselIcp => base + ("G00 X"@ + x + " Y"@ + y).push('\n'),
        Dialect::LineXyz => base + ("G00 X"@ + x + " Y"@ + y + " Z0.0000"@).push('\n'),
        Dialect::GrblLaserZ => base + ("G00 X"@ + x + " Y"@ + y).push('\n'),
        Dialect::MarlinLaserZ => base + ("G0 X"@ + x + " Y"@ + y).push('\n'),
        Dialect::DefaultLaser => base + ("G00 X"@ + x + " Y"@ + y).push('\n'),
        Dialect::Nccad9 => base + ("G00 X"@ + x + " Y"@ + y).push('\n'),
        Dialect::RolandMdx540 => base + ("G00 X"@ + x + " Y"@ + y).push('\n'),
        Dialect::CheckPoints => base + ("G00 X"@ + x + " Y"@ + y).push('\n'),
        Dialect::Hpgl => base + ("PA"@ + x + ","@ + y + ";"@).push('\n'),
    }
}

/// `base` followed by the text that `plunge` emits for dialect `d`: a plunge to depth `z` (lasers: beam on; pens: pen down).
pub open spec fn plunge_text(base: Seq<char>, d: Dialect, z: Seq<char>, w: JobWordsView) -> Seq<char> {
    match d {
        Dialect::Grbl => base + ("G01 Z"@ + z + " F"@ + w.feed_z).push('\n'),
        Dialect::Marlin => base + ("G1 Z"@ + z + " F"@ + w.feed_z).push('\n'),
        Dialect::GenericDefault => base + ("G01 Z"@ + z + " F"@ + w.feed_z).push('\n'),
        Dialect::GrblNoM6 => base + ("G01 Z"@ + z + " F"@ + w.feed_z).push('\n'),
        Dialect::GrblLaser => base + ("M03 S"@ + w.spindle).push('\n'),
        Dialect::RolandMDX => base + ("G01 Z"@ + z + " F"@ + w.feed_z).push('\n'),
        Dialect::Isel => base + ("G01 Z"@ + z + " F"@ + w.feed_z).push('\n'),
        Dialect::Repetier => base + ("G01 Z"@ + z + " F"@ + w.feed_z).push('\n'),
        Dialect::Berta => base + ("G01 Z"@ + z + " F"@ + w.feed_z).push('\n'),
        Dialect::LinuxCnc => base + ("G01 Z"@ + z + " F"@ + w.feed_z).push('\n'),
        Dialect::Mach3 => base + ("G01 Z"@ + z + " F"@ + w.feed_z).push('\n'),
        Dialect::ToolchangeProbe => base + ("G01 Z"@ + z + " F"@ + w.feed_z).push('\n'),
        Dialect::Smoothie => base + ("G01 Z"@ + z + " F"@ + w.feed_z).push('\n'),
        Dialect::TinyG => base + ("G01 Z"@ + z + " F"@ + w.feed_z).push('\n'),
        Dialect::Emc2 => base + ("G01 Z"@ + z + " F"@ + w.feed_z).push('\n'),
        Dialect::GrblDynamicLaser => base + ("M04 S"@ + w.spindle).push('\n'),
        Dialect::SolderPaste => base + ("G01 Z"@ + z + " F"@ + w.feed_z).push('\n') + ("M3 S"@ + w.spindle).push('\n'),
        Dialect::ToolchangeManual => base + ("G01 Z"@ + z + " F"@ + w.feed_z).push('\n'),
        Dialect::Paste1 => base + ("G01 Z"@ + z + " F"@ + w.feed_z).push('\n') + ("M03 S"@ + w.spindle).push('\n'),
        Dialect::PasteGrbl => base + ("G01 Z"@ + z + " F"@ + w.feed_z).push('\n') + ("M03 S"@ + w.spindle).push('\n'),
        Dialect::PasteMarlin => base + ("G1 Z"@ + z + " F"@ + w.feed_z).push('\n') + ("M3 S"@ + w.spindle).push('\n'),
        Dialect::GrblLaserAirAssist => base + ("M3 S"@ + w.spindle).push('\n'),
        Dialect::MarlinLaserFan => base + ("M106 S"@ + w.fan_power).push('\n'),
        Dialect::MarlinLaserSpindle => base + ("M3 S"@ + w.spindle).push('\n'),
        Dialect::GrblLaserEleksDrd => base + ("(eleks_drd: centring ring r0.2000 about current point)"@).push('\n') + ("G91"@).push('\n') + ("M05"@).push('\n') + ("G00 X0.2000 Y0.0000"@).push('\n') + ("M03 S"@ + w.spindle).push('\n') + ("G02 X0.0000 Y0.0000 I-0.2000 J0.0000 F"@ + w.feed_xy).push('\n') + ("M05"@).push('\n') + ("G00 X-0.2000 Y0.0000"@).push('\n') + ("G90"@).push('\n'),
        Dialect::IselIcp => base + ("G01 Z"@ + z + " F"@ + w.feed_z).push('\n'),
        Dialect::LineXyz => base + ("G01 X0.0000 Y0.0000 Z"@ + z + " F"@ + w.feed_z).push('\n'),
        Dialect::GrblLaserZ => base + ("G01 Z"@ + z + " F"@ + w.feed_z).push('\n') + ("M03 S"@ + w.spindle).push('\n'),
        Dialect::MarlinLaserZ => base + ("G1 Z"@ + z + " F"@ + w.feed_z).push('\n') + ("M3 S"@ + w.spindle).push('\n'),
        Dialect::DefaultLaser => base + ("M03 S"@ + w.spindle).push('\n'),
        Dialect::Nccad9 => base + ("G01 Z"@ + z + " F"@ + w.feed_z).push('\n'),
        Dialect::RolandMdx540 => base + ("G01 Z"@ + z + " F"@ + w.feed_z).push('\n'),
        Dialect::CheckPoints => base + ("(MSG, check point)"@).push('\n') + ("M0"@).push('\n'),
        Dialect::Hpgl => base + ("PD;"@).push('\n'),
    }
}

/// Whether the dialect moves the tool down in Z to start cutting (every
/// milling, paste and Z-axis laser dialect), rather than switching a beam on,
/// lowering a pen or pausing.
pub open spec fn plunges_in_z(d: Dialect) -> bool {
    match d {
        Dialect::GrblLaser => false,
        Dialect::GrblDynamicLaser => false,
        Dialect::GrblLaserAirAssist => false,
        Dialect::MarlinLaserFan => false,
        Dialect::MarlinLaserSpindle => false,
        Dialect::GrblLaserEleksDrd => false,
        Dialect::DefaultLaser => false,
        Dialect::CheckPoints => false,
        Dialect::Hpgl => false,
        _ => true,
    }
}

/// `a` starts with the line of a feed move down to `z` at feed `f`, in one
/// of the forms the dialects write: `G01 Z<z> F<f>`, `G1 Z<z> F<f>`, or with
/// the origin repeated, `G01 X0.0000 Y0.0000 Z<z> F<f>`.
pub open spec fn starts_with_feed_plunge(a: Seq<char>, z: Seq<char>, f: Seq<char>) -> bool {
    ||| crate::text::starts_with_spec(a, ("G01 Z"@ + z + " F"@ + f).push('\n'))
    ||| crate::text::starts_with_spec(a, ("G1 Z"@ + z + " F"@ + f).push('\n'))
    ||| crate::text::starts_with_spec(a, ("G01 X0.0000 Y0.0000 Z"@ + z + " F"@ + f).push('\n'))
}

/// No dialect plunges with a rapid move: a plunge appends to the program, and
/// what it appends starts either with a feed move (`G01`/`G1`) down to the
/// depth at the plunge feed, or with a line that is no motion at all (a
/// spindle, beam or fan command, a pen down, a comment or a pause). Every
/// dialect that moves the tool in Z starts with that feed move.
pub proof fn law_plunge_is_a_feed_move(base: Seq<char>, d: Dialect, z: Seq<char>, w: JobWordsView)
    ensures
        plunge_text(base, d, z, w).take(base.len() as int) == base,
        ({
            let a = plunge_text(base, d, z, w).skip(base.len() as int);
            &&& starts_with_feed_plunge(a, z, w.feed_z) || (a.len() > 0 && a[0] != 'G')
            &&& plunges_in_z(d) ==> starts_with_feed_plunge(a, z, w.feed_z)
        }),
{
    let t = plunge_text(base, d, z, w);
    let a = t.skip(base.len() as int);
    assert(t.take(base.len() as int) =~= base);
    assert(t =~= base + a);
    match d {
        Dialect::Grbl => {
            let l = ("G01 Z"@ + z + " F"@ + w.feed_z).push('\n');
            assert(a.subrange(0, l.len() as int) =~= l);
        },
        Dialect::Marlin => {
            let l = ("G1 Z"@ + z + " F"@ + w.feed_z).push('\n');
            assert(a.subrange(0, l.len() as int) =~= l);
        },
        Dialect::GenericDefault => {
            let l = ("G01 Z"@ + z + " F"@ + w.feed_z).push('\n');
            assert(a.subrange(0, l.len() as int) =~= l);
        },
        Dialect::GrblNoM6 => {
            let l = ("G01 Z"@ + z + " F"@ + w.feed_z).push('\n');
            assert(a.subrange(0, l.len() as int) =~= l);
        },
        Dialect::GrblLaser => {
            reveal_strlit("M03 S");
            assert(a[0] == 'M');
        },
        Dialect::RolandMDX => {
            let l = ("G01 Z"@ + z + " F"@ + w.feed_z).push('\n');
            assert(a.subrange(0, l.len() as int) =~= l);
        },
        Dialect::Isel => {
            let l = ("G01 Z"@ + z + " F"@ + w.feed_z).push('\n');
            assert(a.subrange(0, l.len() as int) =~= l);
        },
        Dialect::Repetier => {
            let l = ("G01 Z"@ + z + " F"@ + w.feed_z).push('\n');
            assert(a.subrange(0, l.len() as int) =~= l);
        },
        Dialect::Berta => {
            let l = ("G01 Z"@ + z + " F"@ + w.feed_z).push('\n');
            assert(a.subrange(0, l.len() as int) =~= l);
        },
        Dialect::LinuxCnc => {
            let l = ("G01 Z"@ + z + " F"@ + w.feed_z).push('\n');
            assert(a.subrange(0, l.len() as int) =~= l);
        },
        Dialect::Mach3 => {
            let l = ("G01 Z"@ + z + " F"@ + w.feed_z).push('\n');
            assert(a.subrange(0, l.len() as int) =~= l);
        },
        Dialect::ToolchangeProbe => {
            let l = ("G01 Z"@ + z + " F"@ + w.feed_z).push('\n');
            assert(a.subrange(0, l.len() as int) =~= l);
        },
        Dialect::Smoothie => {
            let l = ("G01 Z"@ + z + " F"@ + w.feed_z).push('\n');
            assert(a.subrange(0, l.len() as int) =~= l);
        },
        Dialect::TinyG => {
            let l = ("G01 Z"@ + z + " F"@ + w.feed_z).push('\n');
            assert(a.subrange(0, l.len() as int) =~= l);
        },
        Dialect::Emc2 => {
            let l = ("G01 Z"@ + z + " F"@ + w.feed_z).push('\n');
            assert(a.subrange(0, l.len() as int) =~= l);
        },
        Dialect::GrblDynamicLaser => {
            reveal_strlit("M04 S");
            assert(a[0] == 'M');
        },
        Dialect::SolderPaste => {
            let l = ("G01 Z"@ + z + " F"@ + w.feed_z).push('\n');
            assert(a.subrange(0, l.len() as int) =~= l);
        },
        Dialect::ToolchangeManual => {
            let l = ("G01 Z"@ + z + " F"@ + w.feed_z).push('\n');
            assert(a.subrange(0, l.len() as int) =~= l);
        },
        Dialect::Paste1 => {
            let l = ("G01 Z"@ + z + " F"@ + w.feed_z).push('\n');
            assert(a.subrange(0, l.len() as int) =~= l);
        },
        Dialect::PasteGrbl => {
            let l = ("G01 Z"@ + z + " F"@ + w.feed_z).push('\n');
            assert(a.subrange(0, l.len() as int) =~= l);
        },
        Dialect::PasteMarlin => {
            let l = ("G1 Z"@ + z + " F"@ + w.feed_z).push('\n');
            assert(a.subrange(0, l.len() as int) =~= l);
        },
        Dialect::GrblLaserAirAssist => {
            reveal_strlit("M3 S");
            assert(a[0] == 'M');
        },
        Dialect::MarlinLaserFan => {
            reveal_strlit("M106 S");
            assert(a[0] == 'M');
        },
        Dialect::MarlinLaserSpindle => {
            reveal_strlit("M3 S");
            assert(a[0] == 'M');
        },
        Dialect::GrblLaserEleksDrd => {
            reveal_strlit("(eleks_drd: centring ring r0.2000 about current point)");
            assert(a[0] == '(');
        },
        Dialect::IselIcp => {
            let l = ("G01 Z"@ + z + " F"@ + w.feed_z).push('\n');
            assert(a.subrange(0, l.len() as int) =~= l);
        },
        Dialect::LineXyz => {
            let l = ("G01 X0.0000 Y0.0000 Z"@ + z + " F"@ + w.feed_z).push('\n');
            assert(a.subrange(0, l.len() as int) =~= l);
        },
        Dialect::GrblLaserZ => {
            let l = ("G01 Z"@ + z + " F"@ + w.feed_z).push('\n');
            assert(a.subrange(0, l.len() as int) =~= l);
        },
        Dialect::MarlinLaserZ => {
            let l = ("G1 Z"@ + z + " F"@ + w.feed_z).push('\n');
            assert(a.subrange(0, l.len() as int) =~= l);
        },
        Dialect::DefaultLaser => {
            reveal_strlit("M03 S");
            assert(a[0] == 'M');
        },
        Dialect::Nccad9 => {
            let l = ("G01 Z"@ + z + " F"@ + w.feed_z).push('\n');
            assert(a.subrange(0, l.len() as int) =~= l);
        },
        Dialect::RolandMdx540 => {
            let l = ("G01 Z"@ + z + " F"@ + w.feed_z).push('\n');
            assert(a.subrange(0, l.len() as int) =~= l);
        },
        Dialect::CheckPoints => {
            reveal_strlit("(MSG, check point)");
            assert(a[0] == '(');
        },
        Dialect::Hpgl => {
            reveal_strlit("PD;");
            assert(a[0] == 'P');
        },
    }
}

/// `base` followed by the text that `linear` emits for dialect `d`: a cutting move to `(x, y)`.
pub open spec fn linear_text(base: Seq<char>, d: Dialect, x: Seq<char>, y: Seq<char>, w: JobWordsView) -> Seq<char> {
    match d {
        Dialect::Grbl => base + ("G01 X"@ + x + " Y"@ + y + " F"@ + w.feed_xy).push('\n'),
        Dialect::Marlin => base + ("G1 X"@ + x + " Y"@ + y + " F"@ + w.feed_xy).push('\n'),
        Dialect::GenericDefault => base + ("G01 X"@ + x + " Y"@ + y + " F"@ + w.feed_xy).push('\n'),
        Dialect::GrblNoM6 => base + ("G01 X"@ + x + " Y"@ + y + " F"@ + w.feed_xy).push('\n'),
        Dialect::GrblLaser => base + ("G01 X"@ + x + " Y"@ + y + " F"@ + w.feed_xy).push('\n'),
        Dialect::RolandMDX => base + ("G01 X"@ + x + " Y"@ + y + " F"@ + w.feed_xy).push('\n'),
        Dialect::Isel => base + ("G01 X"@ + x + " Y"@ + y + " F"@ + w.feed_xy).push('\n'),
        Dialect::Repetier => base + ("G01 X"@ + x + " Y"@ + y + " F"@ + w.feed_xy).push('\n'),
        Dialect::Berta => base + ("G01 X"@ + x + " Y"@ + y + " F"@ + w.feed_xy).push('\n'),
        Dialect::LinuxCnc => base + ("G01 X"@ + x + " Y"@ + y + " F"@ + w.feed_xy).push('\n'),
        Dialect::Mach3 => base + ("G01 X"@ + x + " Y"@ + y + " F"@ + w.feed_xy).push('\n'),
        Dialect::ToolchangeProbe => base + ("G01 X"@ + x + " Y"@ + y + " F"@ + w.feed_xy).push('\n'),
        Dialect::Smoothie => base + ("G01 X"@ + x + " Y"@ + y + " F"@ + w.feed_xy).push('\n'),
        Dialect::TinyG => base + ("G01 X"@ + x + " Y"@ + y + " F"@ + w.feed_xy).push('\n'),
        Dialect::Emc2 => base + ("G01 X"@ + x + " Y"@ + y + " F"@ + w.feed_xy).push('\n'),
        Dialect::GrblDynamicLaser => base + ("G01 X"@ + x + " Y"@ + y + " F"@ + w.feed_xy).push('\n'),
        Dialect::SolderPaste => base + ("G01 X"@ + x + " Y"@ + y + " F"@ + w.feed_xy).push('\n'),
        Dialect::ToolchangeManual => base + ("G01 X"@ + x + " Y"@ + y + " F"@ + w.feed_xy).push('\n'),
        Dialect::Paste1 => base + ("G01 X"@ + x + " Y"@ + y + " F"@ + w.feed_xy).push('\n'),
        Dialect::PasteGrbl => base + ("G01 X"@ + x + " Y"@ + y + " F"@ + w.feed_xy).push('\n'),
        Dialect::PasteMarlin => base + ("G1 X"@ + x + " Y"@ + y + " F"@ + w.feed_xy).push('\n'),
        Dialect::GrblLaserAirAssist => base + ("G1 X"@ + x + " Y"@ + y + " F"@ + w.feed_xy).push('\n'),
        Dialect::MarlinLaserFan => base + ("G1 X"@ + x + " Y"@ + y + " F"@ + w.feed_xy).push('\n'),
        Dialect::MarlinLaserSpindle => base + ("G1 X"@ + x + " Y"@ + y + " F"@ + w.feed_xy).push('\n'),
        Dialect::GrblLaserEleksDrd => base + ("G01 X"@ + x + " Y"@ + y + " F"@ + w.feed_xy).push('\n'),
        Dialect::IselIcp => base + ("G01 X"@ + x + " Y"@ + y + " F"@ + w.feed_xy).push('\n'),
        Dialect::LineXyz => base + ("G01 X"@ + x + " Y"@ + y + " Z"@ + w.cut_z + " F"@ + w.feed_xy).push('\n'),
        Dialect::GrblLaserZ => base + ("G01 X"@ + x + " Y"@ + y + " F"@ + w.feed_xy).push('\n'),
        Dialect::MarlinLaserZ => base + ("G1 X"@ + x + " Y"@ + y + " F"@ + w.feed_xy).push('\n'),
        Dialect::DefaultLaser => base + ("G01 X"@ + x + " Y"@ + y + " F"@ + w.feed_xy).push('\n'),
        Dialect::Nccad9 => base + ("G01 X"@ + x + " Y"@ + y + " F"@ + w.feed_xy).push('\n'),
        Dialect::RolandMdx540 => base + ("G01 X"@ + x + " Y"@ + y + " F"@ + w.feed_xy).push('\n'),
        Dialect::CheckPoints => base + ("G00 X"@ + x + " Y"@ + y).push('\n'),
        Dialect::Hpgl => base + ("PA"@ + x + ","@ + y + ";"@).push('\n'),
    }
}

/// Appends one line made of 1 piece(s) and a line feed.
fn line1(g: &mut String, p0: &str)
    ensures
        final(g)@ == old(g)@ + (p0@).push('\n'),
{
    push_str(g, p0);
    push_char(g, '\n');
    assert(g@ =~= old(g)@ + (p0@).push('\n'));
}

/// Appends one line made of 2 piece(s) and a line feed.
fn line2(g: &mut String, p0: &str, p1: &str)
    ensures
        final(g)@ == old(g)@ + (p0@ + p1@).push('\n'),
{
    push_str(g, p0);
    push_str(g, p1);
    push_char(g, '\n');
    assert(g@ =~= old(g)@ + (p0@ + p1@).push('\n'));
}

/// Appends one line made of 3 piece(s) and a line feed.
fn line3(g: &mut String, p0: &str, p1: &str, p2: &str)
    ensures
        final(g)@ == old(g)@ + (p0@ + p1@ + p2@).push('\n'),
{
    push_str(g, p0);
    push_str(g, p1);
    push_str(g, p2);
    push_char(g, '\n');
    assert(g@ =~= old(g)@ + (p0@ + p1@ + p2@).push('\n'));
}

/// Appends one line made of 4 piece(s) and a line feed.
fn line4(g: &mut String, p0: &str, p1: &str, p2: &str, p3: &str)
    ensures
        final(g)@ == old(g)@ + (p0@ + p1@ + p2@ + p3@).push('\n'),
{
    push_str(g, p0);
    push_str(g, p1);
    push_str(g, p2);
    push_str(g, p3);
    push_char(g, '\n');
    assert(g@ =~= old(g)@ + (p0@ + p1@ + p2@ + p3@).push('\n'));
}

/// Appends one line made of 5 piece(s) and a line feed.
fn line5(g: &mut String, p0: &str, p1: &str, p2: &str, p3: &str, p4: &str)
    ensures
        final(g)@ == old(g)@ + (p0@ + p1@ + p2@ + p3@ + p4@).push('\n'),
{
    push_str(g, p0);
    push_str(g, p1);
    push_str(g, p2);
    push_str(g, p3);
    push_str(g, p4);
    push_char(g, '\n');
    assert(g@ =~= old(g)@ + (p0@ + p1@ + p2@ + p3@ + p4@).push('\n'));
}

/// Appends one line made of 6 piece(s) and a line feed.
fn line6(g: &mut String, p0: &str, p1: &str, p2: &str, p3: &str, p4: &str, p5: &str)
    ensures
        final(g)@ == old(g)@ + (p0@ + p1@ + p2@ + p3@ + p4@ + p5@).push('\n'),
{
    push_str(g, p0);
    push_str(g, p1);
    push_str(g, p2);
    push_str(g, p3);
    push_str(g, p4);
    push_str(g, p5);
    push_char(g, '\n');
    assert(g@ =~= old(g)@ + (p0@ + p1@ + p2@ + p3@ + p4@ + p5@).push('\n'));
}

/// Appends one line made of 7 piece(s) and a line feed.
fn line7(g: &mut String, p0: &str, p1: &str, p2: &str, p3: &str, p4: &str, p5: &str, p6: &str)
    ensures
        final(g)@ == old(g)@ + (p0@ + p1@ + p2@ + p3@ + p4@ + p5@ + p6@).push('\n'),
{
    push_str(g, p0);
    push_str(g, p1);
    push_str(g, p2);
    push_str(g, p3);
    push_str(g, p4);
    push_str(g, p5);
    push_str(g, p6);
    push_char(g, '\n');
    assert(g@ =~= old(g)@ + (p0@ + p1@ + p2@ + p3@ + p4@ + p5@ + p6@).push('\n'));
}

/// Appends one line made of 8 piece(s) and a line feed.
fn line8(g: &mut String, p0: &str, p1: &str, p2: &str, p3: &str, p4: &str, p5: &str, p6: &str, p7: &str)
    ensures
        final(g)@ == old(g)@ + (p0@ + p1@ + p2@ + p3@ + p4@ + p5@ + p6@ + p7@).push('\n'),
{
    push_str(g, p0);
    push_str(g, p1);
    push_str(g, p2);
    push_str(g, p3);
    push_str(g, p4);
    push_str(g, p5);
    push_str(g, p6);
    push_str(g, p7);
    push_char(g, '\n');
    assert(g@ =~= old(g)@ + (p0@ + p1@ + p2@ + p3@ + p4@ + p5@ + p6@ + p7@).push('\n'));
}

impl Dialect {
    /// The dialect's display name.
    pub fn name(self) -> (r: &'static str)
        ensures
            r@ == dialect_name(self),
    {
        match self {
            Dialect::Grbl => "GRBL",
            Dialect::Marlin => "Marlin",
            Dialect::GenericDefault => "Default",
            Dialect::GrblNoM6 => "GRBL (no M6)",
            Dialect::GrblLaser => "GRBL Laser",
            Dialect::RolandMDX => "Roland MDX",
            Dialect::Isel => "ISEL",
            Dialect::Repetier => "Repetier",
            Dialect::Berta => "Berta",
            Dialect::LinuxCnc => "LinuxCNC",
            Dialect::Mach3 => "Mach3",
            Dialect::ToolchangeProbe => "Toolchange Probe",
            Dialect::Smoothie => "Smoothie",
            Dialect::TinyG => "TinyG",
            Dialect::Emc2 => "EMC2",
            Dialect::GrblDynamicLaser => "GRBL Dynamic Laser (M4)",
            Dialect::SolderPaste => "Solder Paste",
            Dialect::ToolchangeManual => "Manual Toolchange",
            Dialect::Paste1 => "Paste 1",
            Dialect::PasteGrbl => "Paste GRBL",
            Dialect::PasteMarlin => "Paste Marlin",
            Dialect::GrblLaserAirAssist => "GRBL Laser (Air Assist)",
            Dialect::MarlinLaserFan => "Marlin Laser (FAN pin)",
            Dialect::MarlinLaserSpindle => "Marlin Laser (spindle)",
            Dialect::GrblLaserEleksDrd => "GRBL Laser Eleks (drill ring)",
            Dialect::IselIcp => "ISEL ICP CNC",
            Dialect::LineXyz => "Line XYZ",
            Dialect::GrblLaserZ => "GRBL Laser (Z)",
            Dialect::MarlinLaserZ => "Marlin Laser (Z)",
            Dialect::DefaultLaser => "Default Laser",
            Dialect::Nccad9 => "nccad9",
            Dialect::RolandMdx540 => "Roland MDX-540",
            Dialect::CheckPoints => "Check Points",
            Dialect::Hpgl => "HPGL",
        }
    }

    /// Emit the program start.
    pub fn header(self, g: &mut String, w: &JobWords)
        ensures
            final(g)@ == header_text(old(g)@, self, w@),
    {
        match self {
            Dialect::Grbl => {
                line1(g, "(FlatCAM-RS GRBL preprocessor)");
                line3(g, "(tool dia: ", w.tool_diameter.as_str(), ")");
                line1(g, "G90");
                line1(g, units_word(w.units));
                line2(g, "M03 S", w.spindle.as_str());
                line2(g, "G00 Z", w.travel_z.as_str());
            },
            Dialect::Marlin => {
                line1(g, "; FlatCAM-RS Marlin preprocessor");
                line1(g, "G90");
                line1(g, units_word(w.units));
                line2(g, "M3 S", w.spindle.as_str());
                line2(g, "G0 Z", w.travel_z.as_str());
            },
            Dialect::GenericDefault => {
                line1(g, "(FlatCAM-RS Default/MACH3 preprocessor)");
                line3(g, "(tool dia: ", w.tool_diameter.as_str(), ")");
                line1(g, "G90");
                line1(g, units_word(w.units));
                line1(g, "(TOOLCHANGE)");
                line1(g, "M06 T1");
                line2(g, "M03 S", w.spindle.as_str());
                line2(g, "G00 Z", w.travel_z.as_str());
            },
            Dialect::GrblNoM6 => {
                line1(g, "(FlatCAM-RS GRBL no-M6 preprocessor)");
                line3(g, "(tool dia: ", w.tool_diameter.as_str(), ")");
                line1(g, "(single tool: no M6 toolchange emitted)");
                line1(g, "G90");
                line1(g, units_word(w.units));
                line2(g, "M03 S", w.spindle.as_str());
                line2(g, "G00 Z", w.travel_z.as_str());
            },
            Dialect::GrblLaser => {
                line1(g, "(FlatCAM-RS GRBL Laser preprocessor)");
                line1(g, "(spindle_rpm reused as laser power S-value)");
                line1(g, "G90");
                line1(g, units_word(w.units));
                line1(g, "M05");
            },
            Dialect::RolandMDX => {
                line1(g, "; FlatCAM-RS Roland MDX preprocessor (approximation)");
                line2(g, "; tool dia: ", w.tool_diameter.as_str());
                line1(g, "G90");
                line1(g, units_word(w.units));
                line2(g, "M03 S", w.spindle.as_str());
                line2(g, "G00 Z", w.travel_z.as_str());
            },
            Dialect::Isel => {
                line1(g, "(FlatCAM-RS ISEL preprocessor)");
                line3(g, "(tool dia: ", w.tool_diameter.as_str(), ")");
                line1(g, "G90");
                line1(g, units_word(w.units));
                line2(g, "M03 S", w.spindle.as_str());
                line2(g, "G00 Z", w.travel_z.as_str());
            },
            Dialect::Repetier => {
                line1(g, "; FlatCAM-RS Repetier preprocessor");
                line2(g, "; tool dia: ", w.tool_diameter.as_str());
                line1(g, "G90");
                line1(g, units_word(w.units));
                line2(g, "M03 S", w.spindle.as_str());
                line2(g, "G00 Z", w.travel_z.as_str());
            },
            Dialect::Berta => {
                line1(g, "(FlatCAM-RS Berta preprocessor)");
                line3(g, "(tool dia: ", w.tool_diameter.as_str(), ")");
                line1(g, "G90");
                line1(g, units_word(w.units));
                line2(g, "M03 S", w.spindle.as_str());
                line2(g, "G00 Z", w.travel_z.as_str());
            },
            Dialect::LinuxCnc => {
                line1(g, "(FlatCAM-RS LinuxCNC preprocessor)");
                line3(g, "(tool dia: ", w.tool_diameter.as_str(), ")");
                line1(g, "G90");
                line1(g, units_word(w.units));
                line2(g, "M03 S", w.spindle.as_str());
                line2(g, "G00 Z", w.travel_z.as_str());
            },
            Dialect::Mach3 => {
                line1(g, "(FlatCAM-RS Mach3 preprocessor)");
                line3(g, "(tool dia: ", w.tool_diameter.as_str(), ")");
                line1(g, "G90");
                line1(g, units_word(w.units));
                line2(g, "M03 S", w.spindle.as_str());
                line2(g, "G00 Z", w.travel_z.as_str());
            },
            Dialect::ToolchangeProbe => {
                line1(g, "(FlatCAM-RS Toolchange-Probe preprocessor)");
                line3(g, "(tool dia: ", w.tool_diameter.as_str(), ")");
                line1(g, "G90");
                line1(g, units_word(w.units));
                line1(g, "(TOOLCHANGE: probe Z to touch plate)");
                line4(g, "G38.2 Z", w.cut_z.as_str(), " F", w.feed_z.as_str());
                line2(g, "M03 S", w.spindle.as_str());
                line2(g, "G00 Z", w.travel_z.as_str());
            },
            Dialect::Smoothie => {
                line1(g, "; FlatCAM-RS Smoothieware preprocessor");
                line2(g, "; tool dia: ", w.tool_diameter.as_str());
                line1(g, "G90");
                line1(g, units_word(w.units));
                line2(g, "M03 S", w.spindle.as_str());
                line2(g, "G00 Z", w.travel_z.as_str());
            },
            Dialect::TinyG => {
                line1(g, "(FlatCAM-RS TinyG preprocessor)");
                line3(g, "(tool dia: ", w.tool_diameter.as_str(), ")");
                line1(g, "G90");
                line1(g, units_word(w.units));
                line2(g, "M03 S", w.spindle.as_str());
                line2(g, "G00 Z", w.travel_z.as_str());
            },
            Dialect::Emc2 => {
                line1(g, "(FlatCAM-RS LinuxCNC/EMC2 preprocessor)");
                line3(g, "(tool dia: ", w.tool_diameter.as_str(), ")");
                line1(g, "G90");
                line1(g, units_word(w.units));
                line2(g, "M03 S", w.spindle.as_str());
                line2(g, "G00 Z", w.travel_z.as_str());
            },
            Dialect::GrblDynamicLaser => {
                line1(g, "(FlatCAM-RS GRBL Dynamic Laser preprocessor)");
                line1(g, "(M4 dynamic laser power; spindle_rpm reused as S-value)");
                line1(g, "G90");
                line1(g, units_word(w.units));
                line1(g, "M05");
            },
            Dialect::SolderPaste => {
                line1(g, "(FlatCAM-RS Solder Paste dispenser preprocessor)");
                line1(g, "(models a paste extruder: M3 S=dispense ON, M5=OFF)");
                line3(g, "(nozzle dia: ", w.tool_diameter.as_str(), ")");
                line1(g, "G90");
                line1(g, units_word(w.units));
                line1(g, "M5");
                line2(g, "G00 Z", w.travel_z.as_str());
            },
            Dialect::ToolchangeManual => {
                line1(g, "(FlatCAM-RS Manual Toolchange preprocessor)");
                line3(g, "(tool dia: ", w.tool_diameter.as_str(), ")");
                line1(g, "G90");
                line1(g, units_word(w.units));
                line1(g, "M6");
                line1(g, "(MSG, change tool)");
                line1(g, "M0");
                line2(g, "M03 S", w.spindle.as_str());
                line2(g, "G00 Z", w.travel_z.as_str());
            },
            Dialect::Paste1 => {
                line1(g, "(FlatCAM-RS Paste_1 solder-paste preprocessor)");
                line1(g, "(MACH3-like: M03 S=dispense ON, M05=OFF)");
                line3(g, "(nozzle dia: ", w.tool_diameter.as_str(), ")");
                line1(g, "G90");
                line1(g, units_word(w.units));
                line1(g, "M05");
                line2(g, "G00 Z", w.travel_z.as_str());
            },
            Dialect::PasteGrbl => {
                line1(g, "(FlatCAM-RS Paste_GRBL solder-paste preprocessor)");
                line1(g, "(GRBL-like: M03 S=dispense ON, M05=OFF)");
                line3(g, "(nozzle dia: ", w.tool_diameter.as_str(), ")");
                line1(g, "G90");
                line1(g, units_word(w.units));
                line1(g, "M05");
                line2(g, "G00 Z", w.travel_z.as_str());
            },
            Dialect::PasteMarlin => {
                line1(g, "; FlatCAM-RS Paste_Marlin solder-paste preprocessor");
                line1(g, "; Marlin-like: M3 S=dispense ON, M5=OFF");
                line2(g, "; nozzle dia: ", w.tool_diameter.as_str());
                line1(g, "G90");
                line1(g, units_word(w.units));
                line1(g, "M5");
                line2(g, "G0 Z", w.travel_z.as_str());
            },
            Dialect::GrblLaserAirAssist => {
                line1(g, "(FlatCAM-RS GRBL Laser air-assist preprocessor)");
                line1(g, "(laser: M3 S=beam ON power, M5=OFF; no Z)");
                line1(g, "G90");
                line1(g, units_word(w.units));
                line1(g, "M5");
                line1(g, "M8");
            },
            Dialect::MarlinLaserFan => {
                line1(g, "; FlatCAM-RS Marlin Laser (FAN-pin) preprocessor");
                line1(g, "; laser driven via the fan PWM pin: M106 S0..255, M107=off; no Z");
                line1(g, "G90");
                line1(g, units_word(w.units));
                line1(g, "M106 S0");
            },
            Dialect::MarlinLaserSpindle => {
                line1(g, "; FlatCAM-RS Marlin Laser (spindle) preprocessor");
                line1(g, "; laser via spindle output: M3 S=power, M5=off; no Z");
                line1(g, "G90");
                line1(g, units_word(w.units));
                line1(g, "M5");
            },
            Dialect::GrblLaserEleksDrd => {
                line1(g, "(FlatCAM-RS grbl_laser_eleks_drd preprocessor)");
                line1(g, "(EleksMaker GRBL laser, no Z: drill points -> G2 centring rings)");
                line1(g, units_word(w.units));
                line1(g, "G90");
                line1(g, "M03 S0");
            },
            Dialect::IselIcp => {
                line1(g, "; FlatCAM-RS ISEL_ICP_CNC preprocessor");
                line2(g, "; tool dia: ", w.tool_diameter.as_str());
                line1(g, "G90");
                line1(g, units_word(w.units));
                line2(g, "M03 S", w.spindle.as_str());
                line2(g, "G00 Z", w.travel_z.as_str());
            },
            Dialect::LineXyz => {
                line1(g, "(FlatCAM-RS Line_xyz preprocessor)");
                line1(g, "(combined X Y Z per motion line)");
                line1(g, "G90");
                line1(g, units_word(w.units));
                line2(g, "M03 S", w.spindle.as_str());
                line2(g, "G00 X0.0000 Y0.0000 Z", w.travel_z.as_str());
            },
            Dialect::GrblLaserZ => {
                line1(g, "(FlatCAM-RS GRBL_laser_z preprocessor)");
                line1(g, "(laser with retained Z focus moves)");
                line1(g, "G90");
                line1(g, units_word(w.units));
                line1(g, "M05");
                line2(g, "G00 Z", w.travel_z.as_str());
            },
            Dialect::MarlinLaserZ => {
                line1(g, "; FlatCAM-RS Marlin_laser_z preprocessor");
                line1(g, "; laser with retained Z focus moves: M3 S=power, M5=off");
                line1(g, "G90");
                line1(g, units_word(w.units));
                line1(g, "M5");
                line2(g, "G0 Z", w.travel_z.as_str());
            },
            Dialect::DefaultLaser => {
                line1(g, "(FlatCAM-RS default_laser preprocessor)");
                line1(g, "(MACH3-compatible laser: M3/M5 beam toggle, XY only)");
                line1(g, "G90");
                line1(g, units_word(w.units));
                line1(g, "M05");
            },
            Dialect::Nccad9 => {
                line1(g, "(FlatCAM-RS NCCAD9 preprocessor)");
                line3(g, "(tool dia: ", w.tool_diameter.as_str(), ")");
                line1(g, "G90");
                line1(g, units_word(w.units));
                line2(g, "M03 S", w.spindle.as_str());
                line2(g, "G00 Z", w.travel_z.as_str());
            },
            Dialect::RolandMdx540 => {
                line1(g, "; FlatCAM-RS Roland_MDX_540 preprocessor");
                line2(g, "; tool dia: ", w.tool_diameter.as_str());
                line1(g, ";;^IN;!MC1;");
                line3(g, "!RC", w.spindle.as_str(), ";");
                line1(g, "G90");
                line1(g, units_word(w.units));
                line2(g, "G00 Z", w.travel_z.as_str());
            },
            Dialect::CheckPoints => {
                line1(g, "(FlatCAM-RS Check_points diagnostic preprocessor)");
                line1(g, "(no cutting: move to each point and pause with M0)");
                line1(g, "G90");
                line1(g, units_word(w.units));
                line2(g, "G00 Z", w.travel_z.as_str());
            },
            Dialect::Hpgl => {
                line1(g, "IN;");
                line1(g, "SP1;");
                line1(g, "PU;");
            },
        }
    }

    /// Emit the program end.
    pub fn footer(self, g: &mut String, w: &JobWords)
        ensures
            final(g)@ == footer_text(old(g)@, self, w@),
    {
        match self {
            Dialect::Grbl => {
                line2(g, "G00 Z", w.travel_z.as_str());
                line1(g, "M05");
                line1(g, "G00 X0.0000 Y0.0000");
                line1(g, "M30");
            },
            Dialect::Marlin => {
                line1(g, "M5");
                line1(g, "M2");
            },
            Dialect::GenericDefault => {
                line2(g, "G00 Z", w.travel_z.as_str());
                line1(g, "M05");
                line1(g, "G00 X0.0000 Y0.0000");
                line1(g, "M30");
            },
            Dialect::GrblNoM6 => {
                line2(g, "G00 Z", w.travel_z.as_str());
                line1(g, "M05");
                line1(g, "G00 X0.0000 Y0.0000");
                line1(g, "M30");
            },
            Dialect::GrblLaser => {
                line1(g, "M05");
                line1(g, "M02");
            },
            Dialect::RolandMDX => {
                line2(g, "G00 Z", w.travel_z.as_str());
                line1(g, "M05");
                line1(g, "M02");
            },
            Dialect::Isel => {
                line2(g, "G00 Z", w.travel_z.as_str());
                line1(g, "M05");
                line1(g, "G00 X0.0000 Y0.0000");
                line1(g, "M30");
            },
            Dialect::Repetier => {
                line2(g, "G00 Z", w.travel_z.as_str());
                line1(g, "M05");
                line1(g, "G00 X0.0000 Y0.0000");
                line1(g, "M2");
            },
            Dialect::Berta => {
                line2(g, "G00 Z", w.travel_z.as_str());
                line1(g, "M05");
                line1(g, "G00 X0.0000 Y0.0000");
                line1(g, "M2");
            },
            Dialect::LinuxCnc => {
                line2(g, "G00 Z", w.travel_z.as_str());
                line1(g, "M05");
                line1(g, "G00 X0.0000 Y0.0000");
                line1(g, "M2");
            },
            Dialect::Mach3 => {
                line2(g, "G00 Z", w.travel_z.as_str());
                line1(g, "M05");
                line1(g, "G00 X0.0000 Y0.0000");
                line1(g, "M30");
            },
            Dialect::ToolchangeProbe => {
                line2(g, "G00 Z", w.travel_z.as_str());
                line1(g, "M05");
                line1(g, "G00 X0.0000 Y0.0000");
                line1(g, "M30");
            },
            Dialect::Smoothie => {
                line2(g, "G00 Z", w.travel_z.as_str());
                line1(g, "M05");
                line1(g, "G00 X0.0000 Y0.0000");
                line1(g, "M30");
            },
            Dialect::TinyG => {
                line2(g, "G00 Z", w.travel_z.as_str());
                line1(g, "M05");
                line1(g, "G00 X0.0000 Y0.0000");
                line1(g, "M30");
            },
            Dialect::Emc2 => {
                line2(g, "G00 Z", w.travel_z.as_str());
                line1(g, "M05");
                line1(g, "G00 X0.0000 Y0.0000");
                line1(g, "M30");
            },
            Dialect::GrblDynamicLaser => {
                line1(g, "M05");
                line1(g, "M02");
            },
            Dialect::SolderPaste => {
                line2(g, "G00 Z", w.travel_z.as_str());
                line1(g, "M5");
                line1(g, "G00 X0.0000 Y0.0000");
                line1(g, "M30");
            },
            Dialect::ToolchangeManual => {
                line2(g, "G00 Z", w.travel_z.as_str());
                line1(g, "M05");
                line1(g, "G00 X0.0000 Y0.0000");
                line1(g, "M30");
            },
            Dialect::Paste1 => {
                line2(g, "G00 Z", w.travel_z.as_str());
                line1(g, "M05");
                line1(g, "G00 X0.0000 Y0.0000");
                line1(g, "M30");
            },
            Dialect::PasteGrbl => {
                line2(g, "G00 Z", w.travel_z.as_str());
                line1(g, "M05");
                line1(g, "G00 X0.0000 Y0.0000");
                line1(g, "M02");
            },
            Dialect::PasteMarlin => {
                line2(g, "G0 Z", w.travel_z.as_str());
                line1(g, "M5");
                line1(g, "G0 X0.0000 Y0.0000");
                line1(g, "M2");
            },
            Dialect::GrblLaserAirAssist => {
                line1(g, "M5");
                line1(g, "M9");
                line1(g, "G00 X0.0000 Y0.0000");
                line1(g, "M30");
            },
            Dialect::MarlinLaserFan => {
                line1(g, "M107");
                line1(g, "M2");
            },
            Dialect::MarlinLaserSpindle => {
                line1(g, "M5");
                line1(g, "M2");
            },
            Dialect::GrblLaserEleksDrd => {
                line1(g, "M05");
                line1(g, "G00 X0.0000 Y0.0000");
                line1(g, "M30");
            },
            Dialect::IselIcp => {
                line2(g, "G00 Z", w.travel_z.as_str());
                line1(g, "M05");
                line1(g, "G00 X0.0000 Y0.0000");
                line1(g, "M30");
            },
            Dialect::LineXyz => {
                line2(g, "G00 X0.0000 Y0.0000 Z", w.travel_z.as_str());
                line1(g, "M05");
                line1(g, "M30");
            },
            Dialect::GrblLaserZ => {
                line2(g, "G00 Z", w.travel_z.as_str());
                line1(g, "M05");
                line1(g, "M02");
            },
            Dialect::MarlinLaserZ => {
                line2(g, "G0 Z", w.travel_z.as_str());
                line1(g, "M5");
                line1(g, "M2");
            },
            Dialect::DefaultLaser => {
                line1(g, "M05");
                line1(g, "G00 X0.0000 Y0.0000");
                line1(g, "M30");
            },
            Dialect::Nccad9 => {
                line2(g, "G00 Z", w.travel_z.as_str());
                line1(g, "M05");
                line1(g, "G00 X0.0000 Y0.0000");
                line1(g, "M30");
            },
            Dialect::RolandMdx540 => {
                line2(g, "G00 Z", w.travel_z.as_str());
                line1(g, "!MC0;;;^IN;");
                line1(g, "M02");
            },
            Dialect::CheckPoints => {
                line2(g, "G00 Z", w.travel_z.as_str());
                line1(g, "G00 X0.0000 Y0.0000");
                line1(g, "M30");
            },
            Dialect::Hpgl => {
                line1(g, "PU;");
                line1(g, "PA0,0;");
                line1(g, "SP0;");
            },
        }
    }

    /// Emit a rapid lift to `z`.
    pub fn rapid_z(self, g: &mut String, z: &str)
        ensures
            final(g)@ == rapid_z_text(old(g)@, self, z@),
    {
        match self {
            Dialect::Grbl => {
                line2(g, "G00 Z", z);
            },
            Dialect::Marlin => {
                line2(g, "G0 Z", z);
            },
            Dialect::GenericDefault => {
                line2(g, "G00 Z", z);
            },
            Dialect::GrblNoM6 => {
                line2(g, "G00 Z", z);
            },
            Dialect::GrblLaser => {
                line1(g, "M05");
            },
            Dialect::RolandMDX => {
                line2(g, "G00 Z", z);
            },
            Dialect::Isel => {
                line2(g, "G00 Z", z);
            },
            Dialect::Repetier => {
                line2(g, "G00 Z", z);
            },
            Dialect::Berta => {
                line2(g, "G00 Z", z);
            },
            Dialect::LinuxCnc => {
                line2(g, "G00 Z", z);
            },
            Dialect::Mach3 => {
                line2(g, "G00 Z", z);
            },
            Dialect::ToolchangeProbe => {
                line2(g, "G00 Z", z);
            },
            Dialect::Smoothie => {
                line2(g, "G00 Z", z);
            },
            Dialect::TinyG => {
                line2(g, "G00 Z", z);
            },
            Dialect::Emc2 => {
                line2(g, "G00 Z", z);
            },
            Dialect::GrblDynamicLaser => {
                line1(g, "M05");
            },
            Dialect::SolderPaste => {
                line1(g, "M5");
                line2(g, "G00 Z", z);
            },
            Dialect::ToolchangeManual => {
                line2(g, "G00 Z", z);
            },
            Dialect::Paste1 => {
                line1(g, "M05");
                line2(g, "G00 Z", z);
            },
            Dialect::PasteGrbl => {
                line1(g, "M05");
                line2(g, "G00 Z", z);
            },
            Dialect::PasteMarlin => {
                line1(g, "M5");
                line2(g, "G0 Z", z);
            },
            Dialect::GrblLaserAirAssist => {
                line1(g, "M5");
            },
            Dialect::MarlinLaserFan => {
                line1(g, "M107");
            },
            Dialect::MarlinLaserSpindle => {
                line1(g, "M5");
            },
            Dialect::GrblLaserEleksDrd => {
                line1(g, "M05");
            },
            Dialect::IselIcp => {
                line2(g, "G00 Z", z);
            },
            Dialect::LineXyz => {
                line2(g, "G00 X0.0000 Y0.0000 Z", z);
            },
            Dialect::GrblLaserZ => {
                line1(g, "M05");
                line2(g, "G00 Z", z);
            },
            Dialect::MarlinLaserZ => {
                line1(g, "M5");
                line2(g, "G0 Z", z);
            },
            Dialect::DefaultLaser => {
                line1(g, "M05");
            },
            Dialect::Nccad9 => {
                line2(g, "G00 Z", z);
            },
            Dialect::RolandMdx540 => {
                line2(g, "G00 Z", z);
            },
            Dialect::CheckPoints => {
                line2(g, "G00 Z", z);
            },
            Dialect::Hpgl => {
                line1(g, "PU;");
            },
        }
    }

    /// Emit a rapid positioning move to `(x, y)`.
    pub fn rapid_xy(self, g: &mut String, x: &str, y: &str)
        ensures
            final(g)@ == rapid_xy_text(old(g)@, self, x@, y@),
    {
        match self {
            Dialect::Grbl => {
                line4(g, "G00 X", x, " Y", y);
            },
            Dialect::Marlin => {
                line4(g, "G0 X", x, " Y", y);
            },
            Dialect::GenericDefault => {
                line4(g, "G00 X", x, " Y", y);
            },
            Dialect::GrblNoM6 => {
                line4(g, "G00 X", x, " Y", y);
            },
            Dialect::GrblLaser => {
                line4(g, "G00 X", x, " Y", y);
            },
            Dialect::RolandMDX => {
                line4(g, "G00 X", x, " Y", y);
            },
            Dialect::Isel => {
                line4(g, "G00 X", x, " Y", y);
            },
            Dialect::Repetier => {
                line4(g, "G00 X", x, " Y", y);
            },
            Dialect::Berta => {
                line4(g, "G00 X", x, " Y", y);
            },
            Dialect::LinuxCnc => {
                line4(g, "G00 X", x, " Y", y);
            },
            Dialect::Mach3 => {
                line4(g, "G00 X", x, " Y", y);
            },
            Dialect::ToolchangeProbe => {
                line4(g, "G00 X", x, " Y", y);
            },
            Dialect::Smoothie => {
                line4(g, "G00 X", x, " Y", y);
            },
            Dialect::TinyG => {
                line4(g, "G00 X", x, " Y", y);
            },
            Dialect::Emc2 => {
                line4(g, "G00 X", x, " Y", y);
            },
            Dialect::GrblDynamicLaser => {
                line4(g, "G00 X", x, " Y", y);
            },
            Dialect::SolderPaste => {
                line4(g, "G00 X", x, " Y", y);
            },
            Dialect::ToolchangeManual => {
                line4(g, "G00 X", x, " Y", y);
            },
            Dialect::Paste1 => {
                line4(g, "G00 X", x, " Y", y);
            },
            Dialect::PasteGrbl => {
                line4(g, "G00 X", x, " Y", y);
            },
            Dialect::PasteMarlin => {
                line4(g, "G0 X", x, " Y", y);
            },
            Dialect::GrblLaserAirAssist => {
                line4(g, "G00 X", x, " Y", y);
            },
            Dialect::MarlinLaserFan => {
                line4(g, "G0 X", x, " Y", y);
            },
            Dialect::MarlinLaserSpindle => {
                line4(g, "G0 X", x, " Y", y);
            },
            Dialect::GrblLaserEleksDrd => {
                line4(g, "G00 X", x, " Y", y);
            },
            Dialect::IselIcp => {
                line4(g, "G00 X", x, " Y", y);
            },
            Dialect::LineXyz => {
                line5(g, "G00 X", x, " Y", y, " Z0.0000");
            },
            Dialect::GrblLaserZ => {
                line4(g, "G00 X", x, " Y", y);
            },
            Dialect::MarlinLaserZ => {
                line4(g, "G0 X", x, " Y", y);
            },
            Dialect::DefaultLaser => {
                line4(g, "G00 X", x, " Y", y);
            },
            Dialect::Nccad9 => {
                line4(g, "G00 X", x, " Y", y);
            },
            Dialect::RolandMdx540 => {
                line4(g, "G00 X", x, " Y", y);
            },
            Dialect::CheckPoints => {
                line4(g, "G00 X", x, " Y", y);
            },
            Dialect::Hpgl => {
                line5(g, "PA", x, ",", y, ";");
            },
        }
    }

    /// Emit a plunge to depth `z`.
    pub fn plunge(self, g: &mut String, z: &str, w: &JobWords)
        ensures
            final(g)@ == plunge_text(old(g)@, self, z@, w@),
    {
        match self {
            Dialect::Grbl => {
                line4(g, "G01 Z", z, " F", w.feed_z.as_str());
            },
            Dialect::Marlin => {
                line4(g, "G1 Z", z, " F", w.feed_z.as_str());
            },
            Dialect::GenericDefault => {
                line4(g, "G01 Z", z, " F", w.feed_z.as_str());
            },
            Dialect::GrblNoM6 => {
                line4(g, "G01 Z", z, " F", w.feed_z.as_str());
            },
            Dialect::GrblLaser => {
                line2(g, "M03 S", w.spindle.as_str());
            },
            Dialect::RolandMDX => {
                line4(g, "G01 Z", z, " F", w.feed_z.as_str());
            },
            Dialect::Isel => {
                line4(g, "G01 Z", z, " F", w.feed_z.as_str());
            },
            Dialect::Repetier => {
                line4(g, "G01 Z", z, " F", w.feed_z.as_str());
            },
            Dialect::Berta => {
                line4(g, "G01 Z", z, " F", w.feed_z.as_str());
            },
            Dialect::LinuxCnc => {
                line4(g, "G01 Z", z, " F", w.feed_z.as_str());
            },
            Dialect::Mach3 => {
                line4(g, "G01 Z", z, " F", w.feed_z.as_str());
            },
            Dialect::ToolchangeProbe => {
                line4(g, "G01 Z", z, " F", w.feed_z.as_str());
            },
            Dialect::Smoothie => {
                line4(g, "G01 Z", z, " F", w.feed_z.as_str());
            },
            Dialect::TinyG => {
                line4(g, "G01 Z", z, " F", w.feed_z.as_str());
            },
            Dialect::Emc2 => {
                line4(g, "G01 Z", z, " F", w.feed_z.as_str());
            },
            Dialect::GrblDynamicLaser => {
                line2(g, "M04 S", w.spindle.as_str());
            },
            Dialect::SolderPaste => {
                line4(g, "G01 Z", z, " F", w.feed_z.as_str());
                line2(g, "M3 S", w.spindle.as_str());
            },
            Dialect::ToolchangeManual => {
                line4(g, "G01 Z", z, " F", w.feed_z.as_str());
            },
            Dialect::Paste1 => {
                line4(g, "G01 Z", z, " F", w.feed_z.as_str());
                line2(g, "M03 S", w.spindle.as_str());
            },
            Dialect::PasteGrbl => {
                line4(g, "G01 Z", z, " F", w.feed_z.as_str());
                line2(g, "M03 S", w.spindle.as_str());
            },
            Dialect::PasteMarlin => {
                line4(g, "G1 Z", z, " F", w.feed_z.as_str());
                line2(g, "M3 S", w.spindle.as_str());
            },
            Dialect::GrblLaserAirAssist => {
                line2(g, "M3 S", w.spindle.as_str());
            },
            Dialect::MarlinLaserFan => {
                line2(g, "M106 S", w.fan_power.as_str());
            },
            Dialect::MarlinLaserSpindle => {
                line2(g, "M3 S", w.spindle.as_str());
            },
            Dialect::GrblLaserEleksDrd => {
                line1(g, "(eleks_drd: centring ring r0.2000 about current point)");
                line1(g, "G91");
                line1(g, "M05");
                line1(g, "G00 X0.2000 Y0.0000");
                line2(g, "M03 S", w.spindle.as_str());
                line2(g, "G02 X0.0000 Y0.0000 I-0.2000 J0.0000 F", w.feed_xy.as_str());
                line1(g, "M05");
                line1(g, "G00 X-0.2000 Y0.0000");
                line1(g, "G90");
            },
            Dialect::IselIcp => {
                line4(g, "G01 Z", z, " F", w.feed_z.as_str());
            },
            Dialect::LineXyz => {
                line4(g, "G01 X0.0000 Y0.0000 Z", z, " F", w.feed_z.as_str());
            },
            Dialect::GrblLaserZ => {
                line4(g, "G01 Z", z, " F", w.feed_z.as_str());
                line2(g, "M03 S", w.spindle.as_str());
            },
            Dialect::MarlinLaserZ => {
                line4(g, "G1 Z", z, " F", w.feed_z.as_str());
                line2(g, "M3 S", w.spindle.as_str());
            },
            Dialect::DefaultLaser => {
                line2(g, "M03 S", w.spindle.as_str());
            },
            Dialect::Nccad9 => {
                line4(g, "G01 Z", z, " F", w.feed_z.as_str());
            },
            Dialect::RolandMdx540 => {
                line4(g, "G01 Z", z, " F", w.feed_z.as_str());
            },
            Dialect::CheckPoints => {
                line1(g, "(MSG, check point)");
                line1(g, "M0");
            },
            Dialect::Hpgl => {
                line1(g, "PD;");
            },
        }
    }

    /// Emit a cutting move to `(x, y)`.
    pub fn linear(self, g: &mut String, x: &str, y: &str, w: &JobWords)
        ensures
            final(g)@ == linear_text(old(g)@, self, x@, y@, w@),
    {
        match self {
            Dialect::Grbl => {
                line6(g, "G01 X", x, " Y", y, " F", w.feed_xy.as_str());
            },
            Dialect::Marlin => {
                line6(g, "G1 X", x, " Y", y, " F", w.feed_xy.as_str());
            },
            Dialect::GenericDefault => {
                line6(g, "G01 X", x, " Y", y, " F", w.feed_xy.as_str());
            },
            Dialect::GrblNoM6 => {
                line6(g, "G01 X", x, " Y", y, " F", w.feed_xy.as_str());
            },
            Dialect::GrblLaser => {
                line6(g, "G01 X", x, " Y", y, " F", w.feed_xy.as_str());
            },
            Dialect::RolandMDX => {
                line6(g, "G01 X", x, " Y", y, " F", w.feed_xy.as_str());
            },
            Dialect::Isel => {
                line6(g, "G01 X", x, " Y", y, " F", w.feed_xy.as_str());
            },
            Dialect::Repetier => {
                line6(g, "G01 X", x, " Y", y, " F", w.feed_xy.as_str());
            },
            Dialect::Berta => {
                line6(g, "G01 X", x, " Y", y, " F", w.feed_xy.as_str());
            },
            Dialect::LinuxCnc => {
                line6(g, "G01 X", x, " Y", y, " F", w.feed_xy.as_str());
            },
            Dialect::Mach3 => {
                line6(g, "G01 X", x, " Y", y, " F", w.feed_xy.as_str());
            },
            Dialect::ToolchangeProbe => {
                line6(g, "G01 X", x, " Y", y, " F", w.feed_xy.as_str());
            },
            Dialect::Smoothie => {
                line6(g, "G01 X", x, " Y", y, " F", w.feed_xy.as_str());
            },
            Dialect::TinyG => {
                line6(g, "G01 X", x, " Y", y, " F", w.feed_xy.as_str());
            },
            Dialect::Emc2 => {
                line6(g, "G01 X", x, " Y", y, " F", w.feed_xy.as_str());
            },
            Dialect::GrblDynamicLaser => {
                line6(g, "G01 X", x, " Y", y, " F", w.feed_xy.as_str());
            },
            Dialect::SolderPaste => {
                line6(g, "G01 X", x, " Y", y, " F", w.feed_xy.as_str());
            },
            Dialect::ToolchangeManual => {
                line6(g, "G01 X", x, " Y", y, " F", w.feed_xy.as_str());
            },
            Dialect::Paste1 => {
                line6(g, "G01 X", x, " Y", y, " F", w.feed_xy.as_str());
            },
            Dialect::PasteGrbl => {
                line6(g, "G01 X", x, " Y", y, " F", w.feed_xy.as_str());
            },
            Dialect::PasteMarlin => {
                line6(g, "G1 X", x, " Y", y, " F", w.feed_xy.as_str());
            },
            Dialect::GrblLaserAirAssist => {
                line6(g, "G1 X", x, " Y", y, " F", w.feed_xy.as_str());
            },
            Dialect::MarlinLaserFan => {
                line6(g, "G1 X", x, " Y", y, " F", w.feed_xy.as_str());
            },
            Dialect::MarlinLaserSpindle => {
                line6(g, "G1 X", x, " Y", y, " F", w.feed_xy.as_str());
            },
            Dialect::GrblLaserEleksDrd => {
                line6(g, "G01 X", x, " Y", y, " F", w.feed_xy.as_str());
            },
            Dialect::IselIcp => {
                line6(g, "G01 X", x, " Y", y, " F", w.feed_xy.as_str());
            },
            Dialect::LineXyz => {
                line8(g, "G01 X", x, " Y", y, " Z", w.cut_z.as_str(), " F", w.feed_xy.as_str());
            },
            Dialect::GrblLaserZ => {
                line6(g, "G01 X", x, " Y", y, " F", w.feed_xy.as_str());
            },
            Dialect::MarlinLaserZ => {
                line6(g, "G1 X", x, " Y", y, " F", w.feed_xy.as_str());
            },
            Dialect::DefaultLaser => {
                line6(g, "G01 X", x, " Y", y, " F", w.feed_xy.as_str());
            },
            Dialect::Nccad9 => {
                line6(g, "G01 X", x, " Y", y, " F", w.feed_xy.as_str());
            },
            Dialect::RolandMdx540 => {
                line6(g, "G01 X", x, " Y", y, " F", w.feed_xy.as_str());
            },
            Dialect::CheckPoints => {
                line4(g, "G00 X", x, " Y", y);
            },
            Dialect::Hpgl => {
                line5(g, "PA", x, ",", y, ";");
            },
        }
    }

}

/// The dialect the `dialects` registry files under the lower-cased key `k`.
pub open spec fn dialects_key(k: Seq<char>) -> Option<Dialect> {
    if k == "grbl"@ {
        Some(Dialect::Grbl)
    } else if k == "marlin"@ {
        Some(Dialect::Marlin)
    } else if k == "default"@ {
        Some(Dialect::GenericDefault)
    } else if k == "generic"@ {
        Some(Dialect::GenericDefault)
    } else if k == "grbl_no_m6"@ {
        Some(Dialect::GrblNoM6)
    } else if k == "grbl_laser"@ {
        Some(Dialect::GrblLaser)
    } else if k == "laser"@ {
        Some(Dialect::GrblLaser)
    } else if k == "roland"@ {
        Some(Dialect::RolandMDX)
    } else if k == "roland_mdx"@ {
        Some(Dialect::RolandMDX)
    } else {
        None
    }
}

fn dialects_lookup(k: &[char]) -> (r: Option<Dialect>)
    ensures
        r == dialects_key(k@),
{
    if eq_text(k, "grbl") {
        return Some(Dialect::Grbl);
    }
    if eq_text(k, "marlin") {
        return Some(Dialect::Marlin);
    }
    if eq_text(k, "default") {
        return Some(Dialect::GenericDefault);
    }
    if eq_text(k, "generic") {
        return Some(Dialect::GenericDefault);
    }
    if eq_text(k, "grbl_no_m6") {
        return Some(Dialect::GrblNoM6);
    }
    if eq_text(k, "grbl_laser") {
        return Some(Dialect::GrblLaser);
    }
    if eq_text(k, "laser") {
        return Some(Dialect::GrblLaser);
    }
    if eq_text(k, "roland") {
        return Some(Dialect::RolandMDX);
    }
    if eq_text(k, "roland_mdx") {
        return Some(Dialect::RolandMDX);
    }
    None
}

/// The dialect the `extra` registry files under the lower-cased key `k`.
pub open spec fn extra_key(k: Seq<char>) -> Option<Dialect> {
    if k == "isel"@ {
        Some(Dialect::Isel)
    } else if k == "repetier"@ {
        Some(Dialect::Repetier)
    } else if k == "berta"@ {
        Some(Dialect::Berta)
    } else if k == "linuxcnc"@ {
        Some(Dialect::LinuxCnc)
    } else if k == "mach3"@ {
        Some(Dialect::Mach3)
    } else if k == "toolchange_probe"@ {
        Some(Dialect::ToolchangeProbe)
    } else {
        None
    }
}

fn extra_lookup(k: &[char]) -> (r: Option<Dialect>)
    ensures
        r == extra_key(k@),
{
    if eq_text(k, "isel") {
        return Some(Dialect::Isel);
    }
    if eq_text(k, "repetier") {
        return Some(Dialect::Repetier);
    }
    if eq_text(k, "berta") {
        return Some(Dialect::Berta);
    }
    if eq_text(k, "linuxcnc") {
        return Some(Dialect::LinuxCnc);
    }
    if eq_text(k, "mach3") {
        return Some(Dialect::Mach3);
    }
    if eq_text(k, "toolchange_probe") {
        return Some(Dialect::ToolchangeProbe);
    }
    None
}

/// The dialect the `more` registry files under the lower-cased key `k`.
pub open spec fn more_key(k: Seq<char>) -> Option<Dialect> {
    if k == "smoothie"@ {
        Some(Dialect::Smoothie)
    } else if k == "tinyg"@ {
        Some(Dialect::TinyG)
    } else if k == "emc2"@ {
        Some(Dialect::Emc2)
    } else if k == "grbl_m4"@ {
        Some(Dialect::GrblDynamicLaser)
    } else {
        None
    }
}

fn more_lookup(k: &[char]) -> (r: Option<Dialect>)
    ensures
        r == more_key(k@),
{
    if eq_text(k, "smoothie") {
        return Some(Dialect::Smoothie);
    }
    if eq_text(k, "tinyg") {
        return Some(Dialect::TinyG);
    }
    if eq_text(k, "emc2") {
        return Some(Dialect::Emc2);
    }
    if eq_text(k, "grbl_m4") {
        return Some(Dialect::GrblDynamicLaser);
    }
    None
}

/// The dialect the `paste` registry files under the lower-cased key `k`.
pub open spec fn paste_key(k: Seq<char>) -> Option<Dialect> {
    if k == "solderpaste"@ {
        Some(Dialect::SolderPaste)
    } else if k == "paste"@ {
        Some(Dialect::SolderPaste)
    } else if k == "toolchange_manual"@ {
        Some(Dialect::ToolchangeManual)
    } else if k == "manual"@ {
        Some(Dialect::ToolchangeManual)
    } else {
        None
    }
}

fn paste_lookup(k: &[char]) -> (r: Option<Dialect>)
    ensures
        r == paste_key(k@),
{
    if eq_text(k, "solderpaste") {
        return Some(Dialect::SolderPaste);
    }
    if eq_text(k, "paste") {
        return Some(Dialect::SolderPaste);
    }
    if eq_text(k, "toolchange_manual") {
        return Some(Dialect::ToolchangeManual);
    }
    if eq_text(k, "manual") {
        return Some(Dialect::ToolchangeManual);
    }
    None
}

/// The dialect the `paste2` registry files under the lower-cased key `k`.
pub open spec fn paste2_key(k: Seq<char>) -> Option<Dialect> {
    if k == "paste_1"@ {
        Some(Dialect::Paste1)
    } else if k == "paste1"@ {
        Some(Dialect::Paste1)
    } else if k == "paste_grbl"@ {
        Some(Dialect::PasteGrbl)
    } else if k == "paste_marlin"@ {
        Some(Dialect::PasteMarlin)
    } else {
        None
    }
}

fn paste2_lookup(k: &[char]) -> (r: Option<Dialect>)
    ensures
        r == paste2_key(k@),
{
    if eq_text(k, "paste_1") {
        return Some(Dialect::Paste1);
    }
    if eq_text(k, "paste1") {
        return Some(Dialect::Paste1);
    }
    if eq_text(k, "paste_grbl") {
        return Some(Dialect::PasteGrbl);
    }
    if eq_text(k, "paste_marlin") {
        return Some(Dialect::PasteMarlin);
    }
    None
}

/// The dialect the `laser2` registry files under the lower-cased key `k`.
pub open spec fn laser2_key(k: Seq<char>) -> Option<Dialect> {
    if k == "grbl_laser_air"@ {
        Some(Dialect::GrblLaserAirAssist)
    } else if k == "laser_air"@ {
        Some(Dialect::GrblLaserAirAssist)
    } else if k == "marlin_laser_fan"@ {
        Some(Dialect::MarlinLaserFan)
    } else if k == "marlin_laser_spindle"@ {
        Some(Dialect::MarlinLaserSpindle)
    } else {
        None
    }
}

fn laser2_lookup(k: &[char]) -> (r: Option<Dialect>)
    ensures
        r == laser2_key(k@),
{
    if eq_text(k, "grbl_laser_air") {
        return Some(Dialect::GrblLaserAirAssist);
    }
    if eq_text(k, "laser_air") {
        return Some(Dialect::GrblLaserAirAssist);
    }
    if eq_text(k, "marlin_laser_fan") {
        return Some(Dialect::MarlinLaserFan);
    }
    if eq_text(k, "marlin_laser_spindle") {
        return Some(Dialect::MarlinLaserSpindle);
    }
    None
}

/// The dialect the `eleks` registry files under the lower-cased key `k`.
pub open spec fn eleks_key(k: Seq<char>) -> Option<Dialect> {
    if k == "grbl_laser_eleks_drd"@ {
        Some(Dialect::GrblLaserEleksDrd)
    } else if k == "eleks_drd"@ {
        Some(Dialect::GrblLaserEleksDrd)
    } else if k == "grbl_laser_eleks"@ {
        Some(Dialect::GrblLaserEleksDrd)
    } else {
        None
    }
}

fn eleks_lookup(k: &[char]) -> (r: Option<Dialect>)
    ensures
        r == eleks_key(k@),
{
    if eq_text(k, "grbl_laser_eleks_drd") {
        return Some(Dialect::GrblLaserEleksDrd);
    }
    if eq_text(k, "eleks_drd") {
        return Some(Dialect::GrblLaserEleksDrd);
    }
    if eq_text(k, "grbl_laser_eleks") {
        return Some(Dialect::GrblLaserEleksDrd);
    }
    None
}

/// The dialect the `parity` registry files under the lower-cased key `k`.
pub open spec fn parity_key(k: Seq<char>) -> Option<Dialect> {
    if k == "isel_icp_cnc"@ {
        Some(Dialect::IselIcp)
    } else if k == "isel_icp"@ {
        Some(Dialect::IselIcp)
    } else if k == "line_xyz"@ {
        Some(Dialect::LineXyz)
    } else if k == "linexyz"@ {
        Some(Dialect::LineXyz)
    } else if k == "grbl_laser_z"@ {
        Some(Dialect::GrblLaserZ)
    } else if k == "marlin_laser_z"@ {
        Some(Dialect::MarlinLaserZ)
    } else if k == "default_laser"@ {
        Some(Dialect::DefaultLaser)
    } else if k == "nccad9"@ {
        Some(Dialect::Nccad9)
    } else if k == "roland_mdx_540"@ {
        Some(Dialect::RolandMdx540)
    } else if k == "roland_540"@ {
        Some(Dialect::RolandMdx540)
    } else if k == "check_points"@ {
        Some(Dialect::CheckPoints)
    } else if k == "checkpoints"@ {
        Some(Dialect::CheckPoints)
    } else if k == "hpgl"@ {
        Some(Dialect::Hpgl)
    } else {
        None
    }
}

fn parity_lookup(k: &[char]) -> (r: Option<Dialect>)
    ensures
        r == parity_key(k@),
{
    if eq_text(k, "isel_icp_cnc") {
        return Some(Dialect::IselIcp);
    }
    if eq_text(k, "isel_icp") {
        return Some(Dialect::IselIcp);
    }
    if eq_text(k, "line_xyz") {
        return Some(Dialect::LineXyz);
    }
    if eq_text(k, "linexyz") {
        return Some(Dialect::LineXyz);
    }
    if eq_text(k, "grbl_laser_z") {
        return Some(Dialect::GrblLaserZ);
    }
    if eq_text(k, "marlin_laser_z") {
        return Some(Dialect::MarlinLaserZ);
    }
    if eq_text(k, "default_laser") {
        return Some(Dialect::DefaultLaser);
    }
    if eq_text(k, "nccad9") {
        return Some(Dialect::Nccad9);
    }
    if eq_text(k, "roland_mdx_540") {
        return Some(Dialect::RolandMdx540);
    }
    if eq_text(k, "roland_540") {
        return Some(Dialect::RolandMdx540);
    }
    if eq_text(k, "check_points") {
        return Some(Dialect::CheckPoints);
    }
    if eq_text(k, "checkpoints") {
        return Some(Dialect::CheckPoints);
    }
    if eq_text(k, "hpgl") {
        return Some(Dialect::Hpgl);
    }
    None
}

/// Look up a dialect of the `extra` registry by case-insensitive name.
/// Returns `None` if unknown.
pub fn by_name_extra(name: &str) -> (r: Option<Dialect>)
    ensures
        r == extra_key(ascii_lower_spec(name@)),
{
    let k = to_ascii_lower(chars_of(name).as_slice());
    extra_lookup(k.as_slice())
}

/// Look up a dialect of the `more` registry by case-insensitive name.
/// Returns `None` if unknown.
pub fn by_name_more(name: &str) -> (r: Option<Dialect>)
    ensures
        r == more_key(ascii_lower_spec(name@)),
{
    let k = to_ascii_lower(chars_of(name).as_slice());
    more_lookup(k.as_slice())
}

/// Look up a dialect of the `paste` registry by case-insensitive name.
/// Returns `None` if unknown.
pub fn by_name_paste(name: &str) -> (r: Option<Dialect>)
    ensures
        r == paste_key(ascii_lower_spec(name@)),
{
    let k = to_ascii_lower(chars_of(name).as_slice());
    paste_lookup(k.as_slice())
}

/// Look up a dialect of the `paste2` registry by case-insensitive name.
/// Returns `None` if unknown.
pub fn by_name_paste2(name: &str) -> (r: Option<Dialect>)
    ensures
        r == paste2_key(ascii_lower_spec(name@)),
{
    let k = to_ascii_lower(chars_of(name).as_slice());
    paste2_lookup(k.as_slice())
}

/// Look up a dialect of the `laser2` registry by case-insensitive name.
/// Returns `None` if unknown.
pub fn by_name_laser2(name: &str) -> (r: Option<Dialect>)
    ensures
        r == laser2_key(ascii_lower_spec(name@)),
{
    let k = to_ascii_lower(chars_of(name).as_slice());
    laser2_lookup(k.as_slice())
}

/// Look up a dialect of the `eleks` registry by case-insensitive name.
/// Returns `None` if unknown.
pub fn by_name_eleks(name: &str) -> (r: Option<Dialect>)
    ensures
        r == eleks_key(ascii_lower_spec(name@)),
{
    let k = to_ascii_lower(chars_of(name).as_slice());
    eleks_lookup(k.as_slice())
}

/// Look up a dialect of the `parity` registry by case-insensitive name.
/// Returns `None` if unknown.
pub fn by_name_parity(name: &str) -> (r: Option<Dialect>)
    ensures
        r == parity_key(ascii_lower_spec(name@)),
{
    let k = to_ascii_lower(chars_of(name).as_slice());
    parity_lookup(k.as_slice())
}

/// The dialect any registry files under the lower-cased key `k`.
pub open spec fn dialect_key(k: Seq<char>) -> Option<Dialect> {
    if dialects_key(k) is Some {
        dialects_key(k)
    } else if extra_key(k) is Some {
        extra_key(k)
    } else if more_key(k) is Some {
        more_key(k)
    } else if paste_key(k) is Some {
        paste_key(k)
    } else if eleks_key(k) is Some {
        eleks_key(k)
    } else if laser2_key(k) is Some {
        laser2_key(k)
    } else if paste2_key(k) is Some {
        paste2_key(k)
    } else {
        parity_key(k)
    }
}

/// Two names that differ at most in the case of ASCII letters.
pub open spec fn same_but_case(a: Seq<char>, b: Seq<char>) -> bool {
    a.len() == b.len() && forall|i: int| 0 <= i < a.len() ==> crate::text::ascii_lower(#[trigger] a[i])
        == crate::text::ascii_lower(b[i])
}

/// Lookup by name ignores ASCII case: two names that differ only in case
/// find the same dialect (or none), across all registries and in each one.
pub proof fn law_lookup_ignores_case(a: Seq<char>, b: Seq<char>)
    requires
        same_but_case(a, b),
    ensures
        dialect_key(ascii_lower_spec(a)) == dialect_key(ascii_lower_spec(b)),
        extra_key(ascii_lower_spec(a)) == extra_key(ascii_lower_spec(b)),
        more_key(ascii_lower_spec(a)) == more_key(ascii_lower_spec(b)),
        paste_key(ascii_lower_spec(a)) == paste_key(ascii_lower_spec(b)),
        paste2_key(ascii_lower_spec(a)) == paste2_key(ascii_lower_spec(b)),
        laser2_key(ascii_lower_spec(a)) == laser2_key(ascii_lower_spec(b)),
        eleks_key(ascii_lower_spec(a)) == eleks_key(ascii_lower_spec(b)),
        parity_key(ascii_lower_spec(a)) == parity_key(ascii_lower_spec(b)),
{
    assert(ascii_lower_spec(a) =~= ascii_lower_spec(b));
}

/// Look up a dialect by case-insensitive name, across all registries.
/// Returns `None` if unknown.
pub fn by_name(name: &str) -> (r: Option<Dialect>)
    ensures
        r == dialect_key(ascii_lower_spec(name@)),
{
    let kv = to_ascii_lower(chars_of(name).as_slice());
    let k = kv.as_slice();
    if let Some(d) = dialects_lookup(k) {
        return Some(d);
    }
    if let Some(d) = extra_lookup(k) {
        return Some(d);
    }
    if let Some(d) = more_lookup(k) {
        return Some(d);
    }
    if let Some(d) = paste_lookup(k) {
        return Some(d);
    }
    if let Some(d) = eleks_lookup(k) {
        return Some(d);
    }
    if let Some(d) = laser2_lookup(k) {
        return Some(d);
    }
    if let Some(d) = paste2_lookup(k) {
        return Some(d);
    }
    parity_lookup(k)
}

/// The `GRBL` dialect.
pub struct Grbl;

impl Grbl {
    /// The dialect's display name.
    pub fn name(&self) -> (r: &'static str)
        ensures
            r@ == dialect_name(Dialect::Grbl),
    {
        "GRBL"
    }

    /// The emitter for this dialect.
    pub fn dialect(&self) -> (r: Dialect)
        ensures
            r == Dialect::Grbl,
    {
        Dialect::Grbl
    }
}

/// The `Marlin` dialect.
pub struct Marlin;

impl Marlin {
    /// The dialect's display name.
    pub fn name(&self) -> (r: &'static str)
        ensures
            r@ == dialect_name(Dialect::Marlin),
    {
        "Marlin"
    }

    /// The emitter for this dialect.
    pub fn dialect(&self) -> (r: Dialect)
        ensures
            r == Dialect::Marlin,
    {
        Dialect::Marlin
    }
}

/// The `Default` dialect.
pub struct GenericDefault;

impl GenericDefault {
    /// The dialect's display name.
    pub fn name(&self) -> (r: &'static str)
        ensures
            r@ == dialect_name(Dialect::GenericDefault),
    {
        "Default"
    }

    /// The emitter for this dialect.
    pub fn dialect(&self) -> (r: Dialect)
        ensures
            r == Dialect::GenericDefault,
    {
        Dialect::GenericDefault
    }
}

/// The `GRBL (no M6)` dialect.
pub struct GrblNoM6;

impl GrblNoM6 {
    /// The dialect's display name.
    pub fn name(&self) -> (r: &'static str)
        ensures
            r@ == dialect_name(Dialect::GrblNoM6),
    {
        "GRBL (no M6)"
    }

    /// The emitter for this dialect.
    pub fn dialect(&self) -> (r: Dialect)
        ensures
            r == Dialect::GrblNoM6,
    {
        Dialect::GrblNoM6
    }
}

/// The `GRBL Laser` dialect.
pub struct GrblLaser;

impl GrblLaser {
    /// The dialect's display name.
    pub fn name(&self) -> (r: &'static str)
        ensures
            r@ == dialect_name(Dialect::GrblLaser),
    {
        "GRBL Laser"
    }

    /// The emitter for this dialect.
    pub fn dialect(&self) -> (r: Dialect)
        ensures
            r == Dialect::GrblLaser,
    {
        Dialect::GrblLaser
    }
}

/// The `Roland MDX` dialect.
pub struct RolandMDX;

impl RolandMDX {
    /// The dialect's display name.
    pub fn name(&self) -> (r: &'static str)
        ensures
            r@ == dialect_name(Dialect::RolandMDX),
    {
        "Roland MDX"
    }

    /// The emitter for this dialect.
    pub fn dialect(&self) -> (r: Dialect)
        ensures
            r == Dialect::RolandMDX,
    {
        Dialect::RolandMDX
    }
}

/// The `ISEL` dialect.
pub struct Isel;

impl Isel {
    /// The dialect's display name.
    pub fn name(&self) -> (r: &'static str)
        ensures
            r@ == dialect_name(Dialect::Isel),
    {
        "ISEL"
    }

    /// The emitter for this dialect.
    pub fn dialect(&self) -> (r: Dialect)
        ensures
            r == Dialect::Isel,
    {
        Dialect::Isel
    }
}

/// The `Repetier` dialect.
pub struct Repetier;

impl Repetier {
    /// The dialect's display name.
    pub fn name(&self) -> (r: &'static str)
        ensures
            r@ == dialect_name(Dialect::Repetier),
    {
        "Repetier"
    }

    /// The emitter for this dialect.
    pub fn dialect(&self) -> (r: Dialect)
        ensures
            r == Dialect::Repetier,
    {
        Dialect::Repetier
    }
}

/// The `Berta` dialect.
pub struct Berta;

impl Berta {
    /// The dialect's display name.
    pub fn name(&self) -> (r: &'static str)
        ensures
            r@ == dialect_name(Dialect::Berta),
    {
        "Berta"
    }

    /// The emitter for this dialect.
    pub fn dialect(&self) -> (r: Dialect)
        ensures
            r == Dialect::Berta,
    {
        Dialect::Berta
    }
}

/// The `LinuxCNC` dialect.
pub struct LinuxCnc;

impl LinuxCnc {
    /// The dialect's display name.
    pub fn name(&self) -> (r: &'static str)
        ensures
            r@ == dialect_name(Dialect::LinuxCnc),
    {
        "LinuxCNC"
    }

    /// The emitter for this dialect.
    pub fn dialect(&self) -> (r: Dialect)
        ensures
            r == Dialect::LinuxCnc,
    {
        Dialect::LinuxCnc
    }
}

/// The `Mach3` dialect.
pub struct Mach3;

impl Mach3 {
    /// The dialect's display name.
    pub fn name(&self) -> (r: &'static str)
        ensures
            r@ == dialect_name(Dialect::Mach3),
    {
        "Mach3"
    }

    /// The emitter for this dialect.
    pub fn dialect(&self) -> (r: Dialect)
        ensures
            r == Dialect::Mach3,
    {
        Dialect::Mach3
    }
}

/// The `Toolchange Probe` dialect.
pub struct ToolchangeProbe;

impl ToolchangeProbe {
    /// The dialect's display name.
    pub fn name(&self) -> (r: &'static str)
        ensures
            r@ == dialect_name(Dialect::ToolchangeProbe),
    {
        "Toolchange Probe"
    }

    /// The emitter for this dialect.
    pub fn dialect(&self) -> (r: Dialect)
        ensures
            r == Dialect::ToolchangeProbe,
    {
        Dialect::ToolchangeProbe
    }
}

/// The `Smoothie` dialect.
pub struct Smoothie;

impl Smoothie {
    /// The dialect's display name.
    pub fn name(&self) -> (r: &'static str)
        ensures
            r@ == dialect_name(Dialect::Smoothie),
    {
        "Smoothie"
    }

    /// The emitter for this dialect.
    pub fn dialect(&self) -> (r: Dialect)
        ensures
            r == Dialect::Smoothie,
    {
        Dialect::Smoothie
    }
}

/// The `TinyG` dialect.
pub struct TinyG;

impl TinyG {
    /// The dialect's display name.
    pub fn name(&self) -> (r: &'static str)
        ensures
            r@ == dialect_name(Dialect::TinyG),
    {
        "TinyG"
    }

    /// The emitter for this dialect.
    pub fn dialect(&self) -> (r: Dialect)
        ensures
            r == Dialect::TinyG,
    {
        Dialect::TinyG
    }
}

/// The `EMC2` dialect.
pub struct Emc2;

impl Emc2 {
    /// The dialect's display name.
    pub fn name(&self) -> (r: &'static str)
        ensures
            r@ == dialect_name(Dialect::Emc2),
    {
        "EMC2"
    }

    /// The emitter for this dialect.
    pub fn dialect(&self) -> (r: Dialect)
        ensures
            r == Dialect::Emc2,
    {
        Dialect::Emc2
    }
}

/// The `GRBL Dynamic Laser (M4)` dialect.
pub struct GrblDynamicLaser;

impl GrblDynamicLaser {
    /// The dialect's display name.
    pub fn name(&self) -> (r: &'static str)
        ensures
            r@ == dialect_name(Dialect::GrblDynamicLaser),
    {
        "GRBL Dynamic Laser (M4)"
    }

    /// The emitter for this dialect.
    pub fn dialect(&self) -> (r: Dialect)
        ensures
            r == Dialect::GrblDynamicLaser,
    {
        Dialect::GrblDynamicLaser
    }
}

/// The `Solder Paste` dialect.
pub struct SolderPaste;

impl SolderPaste {
    /// The dialect's display name.
    pub fn name(&self) -> (r: &'static str)
        ensures
            r@ == dialect_name(Dialect::SolderPaste),
    {
        "Solder Paste"
    }

    /// The emitter for this dialect.
    pub fn dialect(&self) -> (r: Dialect)
        ensures
            r == Dialect::SolderPaste,
    {
        Dialect::SolderPaste
    }
}

/// The `Manual Toolchange` dialect.
pub struct ToolchangeManual;

impl ToolchangeManual {
    /// The dialect's display name.
    pub fn name(&self) -> (r: &'static str)
        ensures
            r@ == dialect_name(Dialect::ToolchangeManual),
    {
        "Manual Toolchange"
    }

    /// The emitter for this dialect.
    pub fn dialect(&self) -> (r: Dialect)
        ensures
            r == Dialect::ToolchangeManual,
    {
        Dialect::ToolchangeManual
    }
}

/// The `Paste 1` dialect.
pub struct Paste1;

impl Paste1 {
    /// The dialect's display name.
    pub fn name(&self) -> (r: &'static str)
        ensures
            r@ == dialect_name(Dialect::Paste1),
    {
        "Paste 1"
    }

    /// The emitter for this dialect.
    pub fn dialect(&self) -> (r: Dialect)
        ensures
            r == Dialect::Paste1,
    {
        Dialect::Paste1
    }
}

/// The `Paste GRBL` dialect.
pub struct PasteGrbl;

impl PasteGrbl {
    /// The dialect's display name.
    pub fn name(&self) -> (r: &'static str)
        ensures
            r@ == dialect_name(Dialect::PasteGrbl),
    {
        "Paste GRBL"
    }

    /// The emitter for this dialect.
    pub fn dialect(&self) -> (r: Dialect)
        ensures
            r == Dialect::PasteGrbl,
    {
        Dialect::PasteGrbl
    }
}

/// The `Paste Marlin` dialect.
pub struct PasteMarlin;

impl PasteMarlin {
    /// The dialect's display name.
    pub fn name(&self) -> (r: &'static str)
        ensures
            r@ == dialect_name(Dialect::PasteMarlin),
    {
        "Paste Marlin"
    }

    /// The emitter for this dialect.
    pub fn dialect(&self) -> (r: Dialect)
        ensures
            r == Dialect::PasteMarlin,
    {
        Dialect::PasteMarlin
    }
}

/// The `GRBL Laser (Air Assist)` dialect.
pub struct GrblLaserAirAssist;

impl GrblLaserAirAssist {
    /// The dialect's display name.
    pub fn name(&self) -> (r: &'static str)
        ensures
            r@ == dialect_name(Dialect::GrblLaserAirAssist),
    {
        "GRBL Laser (Air Assist)"
    }

    /// The emitter for this dialect.
    pub fn dialect(&self) -> (r: Dialect)
        ensures
            r == Dialect::GrblLaserAirAssist,
    {
        Dialect::GrblLaserAirAssist
    }
}

/// The `Marlin Laser (FAN pin)` dialect.
pub struct MarlinLaserFan;

impl MarlinLaserFan {
    /// The dialect's display name.
    pub fn name(&self) -> (r: &'static str)
        ensures
            r@ == dialect_name(Dialect::MarlinLaserFan),
    {
        "Marlin Laser (FAN pin)"
    }

    /// The emitter for this dialect.
    pub fn dialect(&self) -> (r: Dialect)
        ensures
            r == Dialect::MarlinLaserFan,
    {
        Dialect::MarlinLaserFan
    }
}

/// The `Marlin Laser (spindle)` dialect.
pub struct MarlinLaserSpindle;

impl MarlinLaserSpindle {
    /// The dialect's display name.
    pub fn name(&self) -> (r: &'static str)
        ensures
            r@ == dialect_name(Dialect::MarlinLaserSpindle),
    {
        "Marlin Laser (spindle)"
    }

    /// The emitter for this dialect.
    pub fn dialect(&self) -> (r: Dialect)
        ensures
            r == Dialect::MarlinLaserSpindle,
    {
        Dialect::MarlinLaserSpindle
    }
}

/// The `GRBL Laser Eleks (drill ring)` dialect.
pub struct GrblLaserEleksDrd;

impl GrblLaserEleksDrd {
    /// The dialect's display name.
    pub fn name(&self) -> (r: &'static str)
        ensures
            r@ == dialect_name(Dialect::GrblLaserEleksDrd),
    {
        "GRBL Laser Eleks (drill ring)"
    }

    /// The emitter for this dialect.
    pub fn dialect(&self) -> (r: Dialect)
        ensures
            r == Dialect::GrblLaserEleksDrd,
    {
        Dialect::GrblLaserEleksDrd
    }
}

/// The `ISEL ICP CNC` dialect.
pub struct IselIcp;

impl IselIcp {
    /// The dialect's display name.
    pub fn name(&self) -> (r: &'static str)
        ensures
            r@ == dialect_name(Dialect::IselIcp),
    {
        "ISEL ICP CNC"
    }

    /// The emitter for this dialect.
    pub fn dialect(&self) -> (r: Dialect)
        ensures
            r == Dialect::IselIcp,
    {
        Dialect::IselIcp
    }
}

/// The `Line XYZ` dialect.
pub struct LineXyz;

impl LineXyz {
    /// The dialect's display name.
    pub fn name(&self) -> (r: &'static str)
        ensures
            r@ == dialect_name(Dialect::LineXyz),
    {
        "Line XYZ"
    }

    /// The emitter for this dialect.
    pub fn dialect(&self) -> (r: Dialect)
        ensures
            r == Dialect::LineXyz,
    {
        Dialect::LineXyz
    }
}

/// The `GRBL Laser (Z)` dialect.
pub struct GrblLaserZ;

impl GrblLaserZ {
    /// The dialect's display name.
    pub fn name(&self) -> (r: &'static str)
        ensures
            r@ == dialect_name(Dialect::GrblLaserZ),
    {
        "GRBL Laser (Z)"
    }

    /// The emitter for this dialect.
    pub fn dialect(&self) -> (r: Dialect)
        ensures
            r == Dialect::GrblLaserZ,
    {
        Dialect::GrblLaserZ
    }
}

/// The `Marlin Laser (Z)` dialect.
pub struct MarlinLaserZ;

impl MarlinLaserZ {
    /// The dialect's display name.
    pub fn name(&self) -> (r: &'static str)
        ensures
            r@ == dialect_name(Dialect::MarlinLaserZ),
    {
        "Marlin Laser (Z)"
    }

    /// The emitter for this dialect.
    pub fn dialect(&self) -> (r: Dialect)
        ensures
            r == Dialect::MarlinLaserZ,
    {
        Dialect::MarlinLaserZ
    }
}

/// The `Default Laser` dialect.
pub struct DefaultLaser;

impl DefaultLaser {
    /// The dialect's display name.
    pub fn name(&self) -> (r: &'static str)
        ensures
            r@ == dialect_name(Dialect::DefaultLaser),
    {
        "Default Laser"
    }

    /// The emitter for this dialect.
    pub fn dialect(&self) -> (r: Dialect)
        ensures
            r == Dialect::DefaultLaser,
    {
        Dialect::DefaultLaser
    }
}

/// The `nccad9` dialect.
pub struct Nccad9;

impl Nccad9 {
    /// The dialect's display name.
    pub fn name(&self) -> (r: &'static str)
        ensures
            r@ == dialect_name(Dialect::Nccad9),
    {
        "nccad9"
    }

    /// The emitter for this dialect.
    pub fn dialect(&self) -> (r: Dialect)
        ensures
            r == Dialect::Nccad9,
    {
        Dialect::Nccad9
    }
}

/// The `Roland MDX-540` dialect.
pub struct RolandMdx540;

impl RolandMdx540 {
    /// The dialect's display name.
    pub fn name(&self) -> (r: &'static str)
        ensures
            r@ == dialect_name(Dialect::RolandMdx540),
    {
        "Roland MDX-540"
    }

    /// The emitter for this dialect.
    pub fn dialect(&self) -> (r: Dialect)
        ensures
            r == Dialect::RolandMdx540,
    {
        Dialect::RolandMdx540
    }
}

/// The `Check Points` dialect.
pub struct CheckPoints;

impl CheckPoints {
    /// The dialect's display name.
    pub fn name(&self) -> (r: &'static str)
        ensures
            r@ == dialect_name(Dialect::CheckPoints),
    {
        "Check Points"
    }

    /// The emitter for this dialect.
    pub fn dialect(&self) -> (r: Dialect)
        ensures
            r == Dialect::CheckPoints,
    {
        Dialect::CheckPoints
    }
}

/// The `HPGL` dialect.
pub struct Hpgl;

impl Hpgl {
    /// The dialect's display name.
    pub fn name(&self) -> (r: &'static str)
        ensures
            r@ == dialect_name(Dialect::Hpgl),
    {
        "HPGL"
    }

    /// The emitter for this dialect.
    pub fn dialect(&self) -> (r: Dialect)
        ensures
            r == Dialect::Hpgl,
    {
        Dialect::Hpgl
    }
}

// ---------------------------------------------------------------------------
// Whole programs
// ---------------------------------------------------------------------------

/// A point with its two coordinates rendered as text.
pub type PointText = (Seq<char>, Seq<char>);

/// The text of a list of rendered points.
pub open spec fn points_view(v: Seq<(String, String)>) -> Seq<PointText> {
    v.map_values(|p: (String, String)| (p.0@, p.1@))
}

/// The text of a list of rendered paths.
pub open spec fn paths_view(v: Seq<Vec<(String, String)>>) -> Seq<Seq<PointText>> {
    v.map_values(|p: Vec<(String, String)>| points_view(p@))
}

/// The text of a list of rendered depths.
pub open spec fn words_view(v: Seq<String>) -> Seq<Seq<char>> {
    v.map_values(|z: String| z@)
}

/// What a job does, with every coordinate rendered as text.
pub enum JobMotions {
    /// Milling: follow each polyline at depth (one pass per depth).
    Mill { paths: Vec<Vec<(String, String)>> },
    /// Drilling: plunge at each point.
    Drill { points: Vec<(String, String)> },
}

/// `base` followed by cutting moves to each of `pts`.
pub open spec fn linears_text(base: Seq<char>, d: Dialect, pts: Seq<PointText>, w: JobWordsView) -> Seq<
    char,
>
    decreases pts.len(),
{
    if pts.len() == 0 {
        base
    } else {
        linear_text(linears_text(base, d, pts.drop_last(), w), d, pts.last().0, pts.last().1, w)
    }
}

/// `base` followed by one milling pass of `path` at depth `z`: lift, position
/// over the first point, plunge, then cut to each following point.
pub open spec fn pass_text(base: Seq<char>, d: Dialect, path: Seq<PointText>, z: Seq<char>, w: JobWordsView) -> Seq<char> {
    linears_text(
        plunge_text(
            rapid_xy_text(rapid_z_text(base, d, w.travel_z), d, path[0].0, path[0].1),
            d,
            z,
            w,
        ),
        d,
        path.drop_first(),
        w,
    )
}

/// `base` followed by one pass of `path` per depth, in order.
pub open spec fn passes_text(base: Seq<char>, d: Dialect, path: Seq<PointText>, depths: Seq<Seq<char>>, w: JobWordsView) -> Seq<char>
    decreases depths.len(),
{
    if depths.len() == 0 {
        base
    } else {
        pass_text(passes_text(base, d, path, depths.drop_last(), w), d, path, depths.last(), w)
    }
}

/// `base` followed by the milling of the first `paths.len()` paths: paths with
/// fewer than two points are skipped; each other path gets all its passes and
/// a final lift.
pub open spec fn mill_text(base: Seq<char>, d: Dialect, paths: Seq<Seq<PointText>>, depths: Seq<Seq<char>>, w: JobWordsView) -> Seq<char>
    decreases paths.len(),
{
    if paths.len() == 0 {
        base
    } else {
        let before = mill_text(base, d, paths.drop_last(), depths, w);
        if paths.last().len() < 2 {
            before
        } else {
            rapid_z_text(passes_text(before, d, paths.last(), depths, w), d, w.travel_z)
        }
    }
}

/// `base` followed by the drilling of each point: lift, position, plunge to
/// the cut depth, lift.
pub open spec fn drill_text(base: Seq<char>, d: Dialect, points: Seq<PointText>, w: JobWordsView) -> Seq<char>
    decreases points.len(),
{
    if points.len() == 0 {
        base
    } else {
        let p = points.last();
        rapid_z_text(
            plunge_text(
                rapid_xy_text(
                    rapid_z_text(drill_text(base, d, points.drop_last(), w), d, w.travel_z),
                    d,
                    p.0,
                    p.1,
                ),
                d,
                w.cut_z,
                w,
            ),
            d,
            w.travel_z,
        )
    }
}

// ---------------------------------------------------------------------------
// Dialects as a trait: what a user implements to add one
// ---------------------------------------------------------------------------

/// A G-code dialect: how each kind of program line is written. Each method
/// writes into `g`; the matching spec function says what `g` holds
/// afterwards, given what it held before. Implement it to add a dialect: an
/// implementation gives each spec function its meaning and is held to it.
/// Every [`Dialect`] implements it, and so do [`Grbl`] and [`Marlin`].
pub trait Preprocessor {
    /// The display name.
    spec fn name_out(&self) -> Seq<char>;

    /// `base` after the program start.
    spec fn header_out(&self, base: Seq<char>, w: JobWordsView) -> Seq<char>;

    /// `base` after the program end.
    spec fn footer_out(&self, base: Seq<char>, w: JobWordsView) -> Seq<char>;

    /// `base` after a rapid lift to `z`.
    spec fn rapid_z_out(&self, base: Seq<char>, z: Seq<char>) -> Seq<char>;

    /// `base` after a rapid move to `(x, y)`.
    spec fn rapid_xy_out(&self, base: Seq<char>, x: Seq<char>, y: Seq<char>) -> Seq<char>;

    /// `base` after a plunge to `z`.
    spec fn plunge_out(&self, base: Seq<char>, z: Seq<char>, w: JobWordsView) -> Seq<char>;

    /// `base` after a cutting move to `(x, y)`.
    spec fn linear_out(&self, base: Seq<char>, x: Seq<char>, y: Seq<char>, w: JobWordsView) -> Seq<char>;

    fn name(&self) -> (r: &str)
        ensures
            r@ == self.name_out(),
    ;

    fn header(&self, g: &mut String, w: &JobWords)
        ensures
            final(g)@ == self.header_out(old(g)@, w@),
    ;

    fn footer(&self, g: &mut String, w: &JobWords)
        ensures
            final(g)@ == self.footer_out(old(g)@, w@),
    ;

    fn rapid_z(&self, g: &mut String, z: &str)
        ensures
            final(g)@ == self.rapid_z_out(old(g)@, z@),
    ;

    fn rapid_xy(&self, g: &mut String, x: &str, y: &str)
        ensures
            final(g)@ == self.rapid_xy_out(old(g)@, x@, y@),
    ;

    fn plunge(&self, g: &mut String, z: &str, w: &JobWords)
        ensures
            final(g)@ == self.plunge_out(old(g)@, z@, w@),
    ;

    fn linear(&self, g: &mut String, x: &str, y: &str, w: &JobWords)
        ensures
            final(g)@ == self.linear_out(old(g)@, x@, y@, w@),
    ;
}

impl Preprocessor for Dialect {
    open spec fn name_out(&self) -> Seq<char> {
        dialect_name(*self)
    }

    open spec fn header_out(&self, base: Seq<char>, w: JobWordsView) -> Seq<char> {
        header_text(base, *self, w)
    }

    open spec fn footer_out(&self, base: Seq<char>, w: JobWordsView) -> Seq<char> {
        footer_text(base, *self, w)
    }

    open spec fn rapid_z_out(&self, base: Seq<char>, z: Seq<char>) -> Seq<char> {
        rapid_z_text(base, *self, z)
    }

    open spec fn rapid_xy_out(&self, base: Seq<char>, x: Seq<char>, y: Seq<char>) -> Seq<char> {
        rapid_xy_text(base, *self, x, y)
    }

    open spec fn plunge_out(&self, base: Seq<char>, z: Seq<char>, w: JobWordsView) -> Seq<char> {
        plunge_text(base, *self, z, w)
    }

    open spec fn linear_out(&self, base: Seq<char>, x: Seq<char>, y: Seq<char>, w: JobWordsView) -> Seq<char> {
        linear_text(base, *self, x, y, w)
    }

    fn name(&self) -> (r: &str) {
        Dialect::name(*self)
    }

    fn header(&self, g: &mut String, w: &JobWords) {
        Dialect::header(*self, g, w);
    }

    fn footer(&self, g: &mut String, w: &JobWords) {
        Dialect::footer(*self, g, w);
    }

    fn rapid_z(&self, g: &mut String, z: &str) {
        Dialect::rapid_z(*self, g, z);
    }

    fn rapid_xy(&self, g: &mut String, x: &str, y: &str) {
        Dialect::rapid_xy(*self, g, x, y);
    }

    fn plunge(&self, g: &mut String, z: &str, w: &JobWords) {
        Dialect::plunge(*self, g, z, w);
    }

    fn linear(&self, g: &mut String, x: &str, y: &str, w: &JobWords) {
        Dialect::linear(*self, g, x, y, w);
    }
}

/// The GRBL router dialect, as a preprocessor.
impl Preprocessor for Grbl {
    open spec fn name_out(&self) -> Seq<char> {
        dialect_name(Dialect::Grbl)
    }

    open spec fn header_out(&self, base: Seq<char>, w: JobWordsView) -> Seq<char> {
        header_text(base, Dialect::Grbl, w)
    }

    open spec fn footer_out(&self, base: Seq<char>, w: JobWordsView) -> Seq<char> {
        footer_text(base, Dialect::Grbl, w)
    }

    open spec fn rapid_z_out(&self, base: Seq<char>, z: Seq<char>) -> Seq<char> {
        rapid_z_text(base, Dialect::Grbl, z)
    }

    open spec fn rapid_xy_out(&self, base: Seq<char>, x: Seq<char>, y: Seq<char>) -> Seq<char> {
        rapid_xy_text(base, Dialect::Grbl, x, y)
    }

    open spec fn plunge_out(&self, base: Seq<char>, z: Seq<char>, w: JobWordsView) -> Seq<char> {
        plunge_text(base, Dialect::Grbl, z, w)
    }

    open spec fn linear_out(&self, base: Seq<char>, x: Seq<char>, y: Seq<char>, w: JobWordsView) -> Seq<char> {
        linear_text(base, Dialect::Grbl, x, y, w)
    }

    fn name(&self) -> (r: &str) {
        Dialect::name(Dialect::Grbl)
    }

    fn header(&self, g: &mut String, w: &JobWords) {
        Dialect::header(Dialect::Grbl, g, w);
    }

    fn footer(&self, g: &mut String, w: &JobWords) {
        Dialect::footer(Dialect::Grbl, g, w);
    }

    fn rapid_z(&self, g: &mut String, z: &str) {
        Dialect::rapid_z(Dialect::Grbl, g, z);
    }

    fn rapid_xy(&self, g: &mut String, x: &str, y: &str) {
        Dialect::rapid_xy(Dialect::Grbl, g, x, y);
    }

    fn plunge(&self, g: &mut String, z: &str, w: &JobWords) {
        Dialect::plunge(Dialect::Grbl, g, z, w);
    }

    fn linear(&self, g: &mut String, x: &str, y: &str, w: &JobWords) {
        Dialect::linear(Dialect::Grbl, g, x, y, w);
    }
}

/// The Marlin dialect, as a preprocessor.
impl Preprocessor for Marlin {
    open spec fn name_out(&self) -> Seq<char> {
        dialect_name(Dialect::Marlin)
    }

    open spec fn header_out(&self, base: Seq<char>, w: JobWordsView) -> Seq<char> {
        header_text(base, Dialect::Marlin, w)
    }

    open spec fn footer_out(&self, base: Seq<char>, w: JobWordsView) -> Seq<char> {
        footer_text(base, Dialect::Marlin, w)
    }

    open spec fn rapid_z_out(&self, base: Seq<char>, z: Seq<char>) -> Seq<char> {
        rapid_z_text(base, Dialect::Marlin, z)
    }

    open spec fn rapid_xy_out(&self, base: Seq<char>, x: Seq<char>, y: Seq<char>) -> Seq<char> {
        rapid_xy_text(base, Dialect::Marlin, x, y)
    }

    open spec fn plunge_out(&self, base: Seq<char>, z: Seq<char>, w: JobWordsView) -> Seq<char> {
        plunge_text(base, Dialect::Marlin, z, w)
    }

    open spec fn linear_out(&self, base: Seq<char>, x: Seq<char>, y: Seq<char>, w: JobWordsView) -> Seq<char> {
        linear_text(base, Dialect::Marlin, x, y, w)
    }

    fn name(&self) -> (r: &str) {
        Dialect::name(Dialect::Marlin)
    }

    fn header(&self, g: &mut String, w: &JobWords) {
        Dialect::header(Dialect::Marlin, g, w);
    }

    fn footer(&self, g: &mut String, w: &JobWords) {
        Dialect::footer(Dialect::Marlin, g, w);
    }

    fn rapid_z(&self, g: &mut String, z: &str) {
        Dialect::rapid_z(Dialect::Marlin, g, z);
    }

    fn rapid_xy(&self, g: &mut String, x: &str, y: &str) {
        Dialect::rapid_xy(Dialect::Marlin, g, x, y);
    }

    fn plunge(&self, g: &mut String, z: &str, w: &JobWords) {
        Dialect::plunge(Dialect::Marlin, g, z, w);
    }

    fn linear(&self, g: &mut String, x: &str, y: &str, w: &JobWords) {
        Dialect::linear(Dialect::Marlin, g, x, y, w);
    }
}

/// `base` followed by cutting moves to each of `pts`, written by `pp`.
pub open spec fn linears_with<P: Preprocessor>(base: Seq<char>, pp: P, pts: Seq<PointText>, w: JobWordsView) -> Seq<char>
    decreases pts.len(),
{
    if pts.len() == 0 {
        base
    } else {
        pp.linear_out(linears_with(base, pp, pts.drop_last(), w), pts.last().0, pts.last().1, w)
    }
}

/// `base` followed by one milling pass of `path` at depth `z`, written by
/// `pp`: lift, position over the first point, plunge, cut to each following
/// point.
pub open spec fn pass_with<P: Preprocessor>(base: Seq<char>, pp: P, path: Seq<PointText>, z: Seq<char>, w: JobWordsView) -> Seq<char> {
    linears_with(
        pp.plunge_out(pp.rapid_xy_out(pp.rapid_z_out(base, w.travel_z), path[0].0, path[0].1), z, w),
        pp,
        path.drop_first(),
        w,
    )
}

/// `base` followed by one pass of `path` per depth, in order, written by `pp`.
pub open spec fn passes_with<P: Preprocessor>(base: Seq<char>, pp: P, path: Seq<PointText>, depths: Seq<Seq<char>>, w: JobWordsView) -> Seq<char>
    decreases depths.len(),
{
    if depths.len() == 0 {
        base
    } else {
        pass_with(passes_with(base, pp, path, depths.drop_last(), w), pp, path, depths.last(), w)
    }
}

/// `base` followed by the milling of `paths`, written by `pp`: paths with
/// fewer than two points are skipped; each other path gets all its passes
/// and a final lift.
pub open spec fn mill_with<P: Preprocessor>(base: Seq<char>, pp: P, paths: Seq<Seq<PointText>>, depths: Seq<Seq<char>>, w: JobWordsView) -> Seq<char>
    decreases paths.len(),
{
    if paths.len() == 0 {
        base
    } else {
        let before = mill_with(base, pp, paths.drop_last(), depths, w);
        if paths.last().len() < 2 {
            before
        } else {
            pp.rapid_z_out(passes_with(before, pp, paths.last(), depths, w), w.travel_z)
        }
    }
}

/// `base` followed by the drilling of each point, written by `pp`: lift,
/// position, plunge to the cut depth, lift.
pub open spec fn drill_with<P: Preprocessor>(base: Seq<char>, pp: P, points: Seq<PointText>, w: JobWordsView) -> Seq<char>
    decreases points.len(),
{
    if points.len() == 0 {
        base
    } else {
        let p = points.last();
        pp.rapid_z_out(
            pp.plunge_out(
                pp.rapid_xy_out(pp.rapid_z_out(drill_with(base, pp, points.drop_last(), w), w.travel_z), p.0, p.1),
                w.cut_z,
                w,
            ),
            w.travel_z,
        )
    }
}

fn emit_linears<P: Preprocessor>(pp: &P, g: &mut String, path: &Vec<(String, String)>, from: usize, w: &JobWords)
    requires
        from <= path@.len(),
    ensures
        final(g)@ == linears_with(old(g)@, *pp, points_view(path@).skip(from as int), w@),
{
    let ghost pv = points_view(path@);
    let ghost base = g@;
    let mut i = from;
    assert(pv.skip(from as int).take(0) =~= Seq::<PointText>::empty());
    while i < path.len()
        invariant
            from <= i <= path@.len(),
            pv == points_view(path@),
            g@ == linears_with(base, *pp, pv.skip(from as int).take(i - from), w@),
        decreases path@.len() - i,
    {
        let p = &path[i];
        pp.linear(g, p.0.as_str(), p.1.as_str(), w);
        i = i + 1;
        assert(pv.skip(from as int).take(i - from).drop_last() =~= pv.skip(from as int).take(
            i - 1 - from,
        ));
        assert(pv.skip(from as int).take(i - from).last() == pv[i - 1]);
    }
    assert(pv.skip(from as int).take(path@.len() - from) =~= pv.skip(from as int));
}

fn emit_mill<P: Preprocessor>(pp: &P, g: &mut String, paths: &Vec<Vec<(String, String)>>, depths: &Vec<String>, w: &JobWords)
    ensures
        final(g)@ == mill_with(old(g)@, *pp, paths_view(paths@), words_view(depths@), w@),
{
    let ghost pv = paths_view(paths@);
    let ghost dv = words_view(depths@);
    let ghost base = g@;
    let mut k: usize = 0;
    while k < paths.len()
        invariant
            k <= paths@.len(),
            pv == paths_view(paths@),
            dv == words_view(depths@),
            g@ == mill_with(base, *pp, pv.take(k as int), dv, w@),
        decreases paths@.len() - k,
    {
        let path = &paths[k];
        assert(pv.take(k + 1).drop_last() =~= pv.take(k as int));
        assert(pv.take(k + 1).last() == points_view(path@));
        if path.len() >= 2 {
            let ghost start = g@;
            let mut j: usize = 0;
            while j < depths.len()
                invariant
                    j <= depths@.len(),
                    path@.len() >= 2,
                    dv == words_view(depths@),
                    g@ == passes_with(start, *pp, points_view(path@), dv.take(j as int), w@),
                decreases depths@.len() - j,
            {
                pp.rapid_z(g, w.travel_z.as_str());
                let p0 = &path[0];
                pp.rapid_xy(g, p0.0.as_str(), p0.1.as_str());
                pp.plunge(g, depths[j].as_str(), w);
                emit_linears(pp, g, path, 1, w);
                assert(points_view(path@).skip(1) =~= points_view(path@).drop_first());
                j = j + 1;
                assert(dv.take(j as int).drop_last() =~= dv.take(j - 1));
            }
            assert(dv.take(depths@.len() as int) =~= dv);
            pp.rapid_z(g, w.travel_z.as_str());
        }
        k = k + 1;
    }
    assert(pv.take(paths@.len() as int) =~= pv);
}

fn emit_drill<P: Preprocessor>(pp: &P, g: &mut String, points: &Vec<(String, String)>, w: &JobWords)
    ensures
        final(g)@ == drill_with(old(g)@, *pp, points_view(points@), w@),
{
    let ghost pv = points_view(points@);
    let ghost base = g@;
    let mut k: usize = 0;
    while k < points.len()
        invariant
            k <= points@.len(),
            pv == points_view(points@),
            g@ == drill_with(base, *pp, pv.take(k as int), w@),
        decreases points@.len() - k,
    {
        let p = &points[k];
        pp.rapid_z(g, w.travel_z.as_str());
        pp.rapid_xy(g, p.0.as_str(), p.1.as_str());
        pp.plunge(g, w.cut_z.as_str(), w);
        pp.rapid_z(g, w.travel_z.as_str());
        k = k + 1;
        assert(pv.take(k as int).drop_last() =~= pv.take(k - 1));
    }
    assert(pv.take(points@.len() as int) =~= pv);
}

/// The program text of a whole job written by any preprocessor `pp`: program
/// start, then for milling every path of at least two points, once per entry
/// of `depths` (lift, position, plunge, cut along), followed by a lift; for
/// drilling every point (lift, position, plunge to the cut depth, lift); then
/// program end.
pub fn emit_job_with<P: Preprocessor>(pp: &P, w: &JobWords, motions: &JobMotions, depths: &Vec<String>) -> (r: String)
    ensures
        r@ == match motions {
            JobMotions::Mill { paths } => pp.footer_out(
                mill_with(pp.header_out(Seq::empty(), w@), *pp, paths_view(paths@), words_view(depths@), w@),
                w@,
            ),
            JobMotions::Drill { points } => pp.footer_out(
                drill_with(pp.header_out(Seq::empty(), w@), *pp, points_view(points@), w@),
                w@,
            ),
        },
{
    let mut g = String::new();
    pp.header(&mut g, w);
    match motions {
        JobMotions::Mill { paths } => emit_mill(pp, &mut g, paths, depths, w),
        JobMotions::Drill { points } => emit_drill(pp, &mut g, points, w),
    }
    pp.footer(&mut g, w);
    g
}

proof fn lemma_linears_with_dialect(base: Seq<char>, d: Dialect, pts: Seq<PointText>, w: JobWordsView)
    ensures
        linears_with(base, d, pts, w) == linears_text(base, d, pts, w),
    decreases pts.len(),
{
    if pts.len() > 0 {
        lemma_linears_with_dialect(base, d, pts.drop_last(), w);
    }
}

proof fn lemma_passes_with_dialect(base: Seq<char>, d: Dialect, path: Seq<PointText>, depths: Seq<Seq<char>>, w: JobWordsView)
    ensures
        passes_with(base, d, path, depths, w) == passes_text(base, d, path, depths, w),
    decreases depths.len(),
{
    if depths.len() > 0 {
        lemma_passes_with_dialect(base, d, path, depths.drop_last(), w);
        let b = passes_text(base, d, path, depths.drop_last(), w);
        let z = depths.last();
        lemma_linears_with_dialect(
            plunge_text(rapid_xy_text(rapid_z_text(b, d, w.travel_z), d, path[0].0, path[0].1), d, z, w),
            d,
            path.drop_first(),
            w,
        );
    }
}

proof fn lemma_mill_with_dialect(base: Seq<char>, d: Dialect, paths: Seq<Seq<PointText>>, depths: Seq<Seq<char>>, w: JobWordsView)
    ensures
        mill_with(base, d, paths, depths, w) == mill_text(base, d, paths, depths, w),
    decreases paths.len(),
{
    if paths.len() > 0 {
        lemma_mill_with_dialect(base, d, paths.drop_last(), depths, w);
        lemma_passes_with_dialect(mill_text(base, d, paths.drop_last(), depths, w), d, paths.last(), depths, w);
    }
}

proof fn lemma_drill_with_dialect(base: Seq<char>, d: Dialect, points: Seq<PointText>, w: JobWordsView)
    ensures
        drill_with(base, d, points, w) == drill_text(base, d, points, w),
    decreases points.len(),
{
    if points.len() > 0 {
        lemma_drill_with_dialect(base, d, points.drop_last(), w);
    }
}

/// A built-in dialect writes the same program whether it is called by its own
/// emitter or through the [`Preprocessor`] trait.
pub proof fn law_dialect_as_preprocessor(
    d: Dialect,
    w: JobWordsView,
    paths: Seq<Seq<PointText>>,
    points: Seq<PointText>,
    depths: Seq<Seq<char>>,
)
    ensures
        d.footer_out(mill_with(d.header_out(Seq::empty(), w), d, paths, depths, w), w)
            == footer_text(mill_text(header_text(Seq::empty(), d, w), d, paths, depths, w), d, w),
        d.footer_out(drill_with(d.header_out(Seq::empty(), w), d, points, w), w)
            == footer_text(drill_text(header_text(Seq::empty(), d, w), d, points, w), d, w),
{
    lemma_mill_with_dialect(header_text(Seq::empty(), d, w), d, paths, depths, w);
    lemma_drill_with_dialect(header_text(Seq::empty(), d, w), d, points, w);
}

/// The program text of a whole job in dialect `d`: program start, then for
/// milling every path of at least two points, once per entry of `depths`
/// (lift, position, plunge, cut along), followed by a lift; for drilling every
/// point (lift, position, plunge to the cut depth, lift); then program end.
pub fn emit_job(d: Dialect, w: &JobWords, motions: &JobMotions, depths: &Vec<String>) -> (r: String)
    ensures
        r@ == match motions {
            JobMotions::Mill { paths } => footer_text(
                mill_text(header_text(Seq::empty(), d, w@), d, paths_view(paths@), words_view(depths@), w@),
                d,
                w@,
            ),
            JobMotions::Drill { points } => footer_text(
                drill_text(header_text(Seq::empty(), d, w@), d, points_view(points@), w@),
                d,
                w@,
            ),
        },
{
    let r = emit_job_with(&d, w, motions, depths);
    proof {
        match motions {
            JobMotions::Mill { paths } => {
                law_dialect_as_preprocessor(d, w@, paths_view(paths@), Seq::empty(), words_view(depths@));
            },
            JobMotions::Drill { points } => {
                law_dialect_as_preprocessor(d, w@, Seq::empty(), points_view(points@), words_view(depths@));
            },
        }
    }
    r
}

} // verus!
