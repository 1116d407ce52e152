//! The catalogue of CAM plugins offered in the Plugins menu: every tool, its
//! user-facing label, its menu category, its icon name, whether it is a
//! placeholder that cannot yet run from a single selected region, and its
//! numeric parameters.
use vstd::prelude::*;

verus! {

/// Every stock CAM tool surfaced in the Plugins menu.
#[derive(Clone, Copy, PartialEq, Eq, Debug, Structural)]
pub enum PluginKind {
    TwoSided,
    Panelize,
    Film,
    Align,
    Subtract,
    ExtractDrills,
    Punch,
    Invert,
    Etch,
    Thieving,
    CopperFill,
    Fiducials,
    Corners,
    Markers,
    Follow,
    SolderPaste,
    Milling,
    NccTool,
    PaintTool,
    CutoutTool,
    Optimal,
    Distance,
    RulesCheck,
    Report,
    Calculators,
    Levelling,
    QrCode,
    Teardrops,
    Bridges,
    Dogbone,
    ScaleFit,
}

/// Menu order: grouped by category (Fabrication, Modify, Analysis, CAM,
/// Utility).
pub open spec fn menu_order() -> Seq<PluginKind> {
    seq![
        PluginKind::TwoSided,
        PluginKind::Panelize,
        PluginKind::Film,
        PluginKind::Align,
        PluginKind::Fiducials,
        PluginKind::Corners,
        PluginKind::Markers,
        PluginKind::Subtract,
        PluginKind::Invert,
        PluginKind::Etch,
        PluginKind::Thieving,
        PluginKind::CopperFill,
        PluginKind::Teardrops,
        PluginKind::Bridges,
        PluginKind::Dogbone,
        PluginKind::ScaleFit,
        PluginKind::Optimal,
        PluginKind::Distance,
        PluginKind::RulesCheck,
        PluginKind::Report,
        PluginKind::Follow,
        PluginKind::SolderPaste,
        PluginKind::Milling,
        PluginKind::NccTool,
        PluginKind::PaintTool,
        PluginKind::CutoutTool,
        PluginKind::ExtractDrills,
        PluginKind::Punch,
        PluginKind::Calculators,
        PluginKind::Levelling,
        PluginKind::QrCode,
    ]
}

/// The user-facing label of a plugin.
pub open spec fn label_of(k: PluginKind) -> Seq<char> {
    match k {
        PluginKind::TwoSided => "2-Sided"@,
        PluginKind::Panelize => "Panelize"@,
        PluginKind::Film => "Film"@,
        PluginKind::Align => "Align Objects"@,
        PluginKind::Subtract => "Subtract"@,
        PluginKind::ExtractDrills => "Extract Drills"@,
        PluginKind::Punch => "Punch Gerber"@,
        PluginKind::Invert => "Invert Gerber"@,
        PluginKind::Etch => "Etch Compensation"@,
        PluginKind::Thieving => "Copper Thieving"@,
        PluginKind::CopperFill => "Copper Fill"@,
        PluginKind::Fiducials => "Fiducials"@,
        PluginKind::Corners => "Corner Markers"@,
        PluginKind::Markers => "Markers"@,
        PluginKind::Follow => "Follow"@,
        PluginKind::SolderPaste => "Solder Paste"@,
        PluginKind::Milling => "Milling"@,
        PluginKind::NccTool => "NCC"@,
        PluginKind::PaintTool => "Paint"@,
        PluginKind::CutoutTool => "Cutout"@,
        PluginKind::Optimal => "Optimal"@,
        PluginKind::Distance => "Distance"@,
        PluginKind::RulesCheck => "Rules Check"@,
        PluginKind::Report => "Report"@,
        PluginKind::Calculators => "Calculators"@,
        PluginKind::Levelling => "Levelling"@,
        PluginKind::QrCode => "QR Code"@,
        PluginKind::Teardrops => "Teardrops"@,
        PluginKind::Bridges => "Bridges"@,
        PluginKind::Dogbone => "Dogbone"@,
        PluginKind::ScaleFit => "Scale to Fit"@,
    }
}

/// The menu group of a plugin.
pub open spec fn category_of(k: PluginKind) -> Seq<char> {
    match k {
        PluginKind::TwoSided | PluginKind::Panelize | PluginKind::Film | PluginKind::Align
        | PluginKind::Fiducials | PluginKind::Corners | PluginKind::Markers => "Fabrication"@,
        PluginKind::Subtract | PluginKind::Invert | PluginKind::Etch | PluginKind::Thieving
        | PluginKind::CopperFill | PluginKind::Teardrops | PluginKind::Bridges
        | PluginKind::Dogbone | PluginKind::ScaleFit => "Modify"@,
        PluginKind::Follow | PluginKind::SolderPaste | PluginKind::Milling | PluginKind::NccTool
        | PluginKind::PaintTool | PluginKind::CutoutTool | PluginKind::ExtractDrills
        | PluginKind::Punch => "CAM"@,
        PluginKind::Optimal | PluginKind::Distance | PluginKind::RulesCheck
        | PluginKind::Report => "Analysis"@,
        PluginKind::Calculators | PluginKind::Levelling | PluginKind::QrCode => "Utility"@,
    }
}

/// The icon glyph name of a plugin.
pub open spec fn icon_of(k: PluginKind) -> Seq<char> {
    match k {
        PluginKind::TwoSided => "twosided"@,
        PluginKind::Panelize => "panel"@,
        PluginKind::Film => "film"@,
        PluginKind::Align => "align"@,
        PluginKind::Subtract => "subtract"@,
        PluginKind::ExtractDrills => "extractdrills"@,
        PluginKind::Punch => "punch"@,
        PluginKind::Invert => "invert"@,
        PluginKind::Etch => "mirror"@,
        PluginKind::Thieving => "thieving"@,
        PluginKind::CopperFill => "copperfill"@,
        PluginKind::Fiducials => "fiducials"@,
        PluginKind::Corners => "corners"@,
        PluginKind::Markers => "markers"@,
        PluginKind::Follow => "follow"@,
        PluginKind::SolderPaste => "solderpaste"@,
        PluginKind::Milling => "milling"@,
        PluginKind::NccTool => "ncc"@,
        PluginKind::PaintTool => "paint"@,
        PluginKind::CutoutTool => "cutout"@,
        PluginKind::Optimal => "optimal"@,
        PluginKind::Distance => "distance"@,
        PluginKind::RulesCheck => "rulescheck"@,
        PluginKind::Report => "report"@,
        PluginKind::Calculators => "calculators"@,
        PluginKind::Levelling => "levelling"@,
        PluginKind::QrCode => "qrcode"@,
        PluginKind::Teardrops => "teardrops"@,
        PluginKind::Bridges => "bridges"@,
        PluginKind::Dogbone => "cutout"@,
        PluginKind::ScaleFit => "scalefit"@,
    }
}

/// Plugins listed for parity that cannot yet run from a single selected
/// region.
pub open spec fn is_stub_kind(k: PluginKind) -> bool {
    match k {
        PluginKind::Film | PluginKind::Align | PluginKind::Subtract | PluginKind::ExtractDrills
        | PluginKind::Punch | PluginKind::Markers | PluginKind::Levelling
        | PluginKind::QrCode => true,
        _ => false,
    }
}

impl PluginKind {
    /// Every variant, in menu order.
    pub fn all() -> (r: Vec<PluginKind>)
        ensures
            r@ == menu_order(),
    {
        let r = vec![
            PluginKind::TwoSided,
            PluginKind::Panelize,
            PluginKind::Film,
            PluginKind::Align,
            PluginKind::Fiducials,
            PluginKind::Corners,
            PluginKind::Markers,
            PluginKind::Subtract,
            PluginKind::Invert,
            PluginKind::Etch,
            PluginKind::Thieving,
            PluginKind::CopperFill,
            PluginKind::Teardrops,
            PluginKind::Bridges,
            PluginKind::Dogbone,
            PluginKind::ScaleFit,
            PluginKind::Optimal,
            PluginKind::Distance,
            PluginKind::RulesCheck,
            PluginKind::Report,
            PluginKind::Follow,
            PluginKind::SolderPaste,
            PluginKind::Milling,
            PluginKind::NccTool,
            PluginKind::PaintTool,
            PluginKind::CutoutTool,
            PluginKind::ExtractDrills,
            PluginKind::Punch,
            PluginKind::Calculators,
            PluginKind::Levelling,
            PluginKind::QrCode,
        ];
        assert(r@ =~= menu_order());
        r
    }

    /// Short user-facing label.
    pub fn label(self) -> (r: &'static str)
        ensures
            r@ == label_of(self),
    {
        match self {
            PluginKind::TwoSided => "2-Sided",
            PluginKind::Panelize => "Panelize",
            PluginKind::Film => "Film",
            PluginKind::Align => "Align Objects",
            PluginKind::Subtract => "Subtract",
            PluginKind::ExtractDrills => "Extract Drills",
            PluginKind::Punch => "Punch Gerber",
            PluginKind::Invert => "Invert Gerber",
            PluginKind::Etch => "Etch Compensation",
            PluginKind::Thieving => "Copper Thieving",
            PluginKind::CopperFill => "Copper Fill",
            PluginKind::Fiducials => "Fiducials",
            PluginKind::Corners => "Corner Markers",
            PluginKind::Markers => "Markers",
            PluginKind::Follow => "Follow",
            PluginKind::SolderPaste => "Solder Paste",
            PluginKind::Milling => "Milling",
            PluginKind::NccTool => "NCC",
            PluginKind::PaintTool => "Paint",
            PluginKind::CutoutTool => "Cutout",
            PluginKind::Optimal => "Optimal",
            PluginKind::Distance => "Distance",
            PluginKind::RulesCheck => "Rules Check",
            PluginKind::Report => "Report",
            PluginKind::Calculators => "Calculators",
            PluginKind::Levelling => "Levelling",
            PluginKind::QrCode => "QR Code",
            PluginKind::Teardrops => "Teardrops",
            PluginKind::Bridges => "Bridges",
            PluginKind::Dogbone => "Dogbone",
            PluginKind::ScaleFit => "Scale to Fit",
        }
    }

    /// Menu group.
    pub fn category(self) -> (r: &'static str)
        ensures
            r@ == category_of(self),
    {
        match self {
            PluginKind::TwoSided | PluginKind::Panelize | PluginKind::Film | PluginKind::Align
            | PluginKind::Fiducials | PluginKind::Corners | PluginKind::Markers => "Fabrication",
            PluginKind::Subtract | PluginKind::Invert | PluginKind::Etch | PluginKind::Thieving
            | PluginKind::CopperFill | PluginKind::Teardrops | PluginKind::Bridges
            | PluginKind::Dogbone | PluginKind::ScaleFit => "Modify",
            PluginKind::Follow | PluginKind::SolderPaste | PluginKind::Milling
            | PluginKind::NccTool | PluginKind::PaintTool | PluginKind::CutoutTool
            | PluginKind::ExtractDrills | PluginKind::Punch => "CAM",
            PluginKind::Optimal | PluginKind::Distance | PluginKind::RulesCheck
            | PluginKind::Report => "Analysis",
            PluginKind::Calculators | PluginKind::Levelling | PluginKind::QrCode => "Utility",
        }
    }

    /// An icon glyph name.
    pub fn icon(self) -> (r: &'static str)
        ensures
            r@ == icon_of(self),
    {
        match self {
            PluginKind::TwoSided => "twosided",
            PluginKind::Panelize => "panel",
            PluginKind::Film => "film",
            PluginKind::Align => "align",
            PluginKind::Subtract => "subtract",
            PluginKind::ExtractDrills => "extractdrills",
            PluginKind::Punch => "punch",
            PluginKind::Invert => "invert",
            PluginKind::Etch => "mirror",
            PluginKind::Thieving => "thieving",
            PluginKind::CopperFill => "copperfill",
            PluginKind::Fiducials => "fiducials",
            PluginKind::Corners => "corners",
            PluginKind::Markers => "markers",
            PluginKind::Follow => "follow",
            PluginKind::SolderPaste => "solderpaste",
            PluginKind::Milling => "milling",
            PluginKind::NccTool => "ncc",
            PluginKind::PaintTool => "paint",
            PluginKind::CutoutTool => "cutout",
            PluginKind::Optimal => "optimal",
            PluginKind::Distance => "distance",
            PluginKind::RulesCheck => "rulescheck",
            PluginKind::Report => "report",
            PluginKind::Calculators => "calculators",
            PluginKind::Levelling => "levelling",
            PluginKind::QrCode => "qrcode",
            PluginKind::Teardrops => "teardrops",
            PluginKind::Bridges => "bridges",
            PluginKind::Dogbone => "cutout",
            PluginKind::ScaleFit => "scalefit",
        }
    }

    /// True for plugins that are listed for parity but not yet functional from a
    /// single selected region. The GUI greys these out in the Plugins menu.
    pub fn is_stub(self) -> (r: bool)
        ensures
            r == is_stub_kind(self),
    {
        match self {
            PluginKind::Film | PluginKind::Align | PluginKind::Subtract
            | PluginKind::ExtractDrills | PluginKind::Punch | PluginKind::Markers
            | PluginKind::Levelling | PluginKind::QrCode => true,
            _ => false,
        }
    }
}

/// A numeric parameter of a plugin: its name, its default value and its
/// range, in thousandths of the unit the plugin reads it in.
#[derive(Clone, Copy, Debug)]
pub struct ParamSpec {
    pub name: &'static str,
    pub default: i32,
    pub min: i32,
    pub max: i32,
}

impl View for ParamSpec {
    type V = (Seq<char>, int, int, int);

    open spec fn view(&self) -> (Seq<char>, int, int, int) {
        (self.name@, self.default as int, self.min as int, self.max as int)
    }
}

/// The numeric parameters of each plugin, in the order its run reads them:
/// name, default, least and greatest value, in thousandths.
pub open spec fn params_of(k: PluginKind) -> Seq<(Seq<char>, int, int, int)> {
    match k {
        PluginKind::TwoSided => seq![("mirror axis x"@, 0, -1000000, 1000000)],
        PluginKind::Panelize => seq![("columns"@, 2000, 1000, 50000), ("rows"@, 2000, 1000, 50000), ("gap"@, 1000, 0, 100000)],
        PluginKind::Invert => seq![("margin"@, 1000, 0, 100000)],
        PluginKind::Etch => seq![("bias"@, 50, -1000, 1000)],
        PluginKind::Thieving => seq![("dot diameter"@, 1000, 100, 10000), ("spacing"@, 2000, 500, 20000), ("clearance"@, 500, 0, 10000), ("margin"@, 1000, 0, 50000)],
        PluginKind::CopperFill => seq![("clearance"@, 500, 0, 10000), ("margin"@, 1000, 0, 50000)],
        PluginKind::Fiducials => seq![("diameter"@, 1000, 100, 10000), ("margin"@, 2000, 0, 50000)],
        PluginKind::Corners => seq![("diameter"@, 1000, 100, 10000), ("margin"@, 2000, 0, 50000)],
        PluginKind::SolderPaste => seq![("nozzle diameter"@, 300, 50, 5000), ("margin"@, 0, 0, 5000)],
        PluginKind::Milling => seq![("tool diameter"@, 800, 50, 10000), ("outside (1) / inside (0)"@, 1000, 0, 1000)],
        PluginKind::RulesCheck => seq![("min clearance"@, 200, 0, 10000)],
        PluginKind::Teardrops => seq![("pad radius"@, 1000, 100, 10000), ("trace width"@, 500, 50, 5000)],
        PluginKind::Bridges => seq![("gaps"@, 4000, 0, 32000), ("gap length"@, 2000, 100, 20000)],
        PluginKind::Dogbone => seq![("tool radius"@, 500, 0, 5000)],
        PluginKind::ScaleFit => seq![("target width"@, 100000, 1000, 1000000), ("target height"@, 100000, 1000, 1000000)],
        PluginKind::PaintTool => seq![("tool diameter"@, 500, 50, 10000), ("overlap"@, 200, 0, 950), ("margin"@, 0, 0, 50000)],
        PluginKind::NccTool => seq![("tool diameter"@, 500, 50, 10000), ("overlap"@, 400, 0, 950), ("margin"@, 1000, 0, 50000)],
        PluginKind::CutoutTool => seq![("tool diameter"@, 1000, 50, 10000), ("gap size"@, 2000, 100, 20000), ("gaps"@, 4000, 0, 32000), ("outside (1) / on-line (0)"@, 1000, 0, 1000)],
        PluginKind::Calculators => seq![("v-bit tip diameter"@, 200, 0, 5000), ("v-bit angle (deg)"@, 30000, 1000, 179000), ("cut depth"@, 50, 0, 5000)],
        PluginKind::Follow | PluginKind::Optimal | PluginKind::Distance | PluginKind::Report | PluginKind::Film | PluginKind::Align | PluginKind::Subtract | PluginKind::ExtractDrills | PluginKind::Punch | PluginKind::Markers | PluginKind::Levelling | PluginKind::QrCode => Seq::empty(),
    }
}

impl PluginKind {
    /// The plugin's numeric parameters (see [`params_of`]).
    pub fn params(self) -> (r: Vec<ParamSpec>)
        ensures
            r@.map_values(|p: ParamSpec| p@) == params_of(self),
    {
        let v: Vec<ParamSpec> = match self {
            PluginKind::TwoSided => vec![ParamSpec { name: "mirror axis x", default: 0, min: -1000000, max: 1000000 }],
            PluginKind::Panelize => vec![ParamSpec { name: "columns", default: 2000, min: 1000, max: 50000 }, ParamSpec { name: "rows", default: 2000, min: 1000, max: 50000 }, ParamSpec { name: "gap", default: 1000, min: 0, max: 100000 }],
            PluginKind::Invert => vec![ParamSpec { name: "margin", default: 1000, min: 0, max: 100000 }],
            PluginKind::Etch => vec![ParamSpec { name: "bias", default: 50, min: -1000, max: 1000 }],
            PluginKind::Thieving => vec![ParamSpec { name: "dot diameter", default: 1000, min: 100, max: 10000 }, ParamSpec { name: "spacing", default: 2000, min: 500, max: 20000 }, ParamSpec { name: "clearance", default: 500, min: 0, max: 10000 }, ParamSpec { name: "margin", default: 1000, min: 0, max: 50000 }],
            PluginKind::CopperFill => vec![ParamSpec { name: "clearance", default: 500, min: 0, max: 10000 }, ParamSpec { name: "margin", default: 1000, min: 0, max: 50000 }],
            PluginKind::Fiducials => vec![ParamSpec { name: "diameter", default: 1000, min: 100, max: 10000 }, ParamSpec { name: "margin", default: 2000, min: 0, max: 50000 }],
            PluginKind::Corners => vec![ParamSpec { name: "diameter", default: 1000, min: 100, max: 10000 }, ParamSpec { name: "margin", default: 2000, min: 0, max: 50000 }],
            PluginKind::SolderPaste => vec![ParamSpec { name: "nozzle diameter", default: 300, min: 50, max: 5000 }, ParamSpec { name: "margin", default: 0, min: 0, max: 5000 }],
            PluginKind::Milling => vec![ParamSpec { name: "tool diameter", default: 800, min: 50, max: 10000 }, ParamSpec { name: "outside (1) / inside (0)", default: 1000, min: 0, max: 1000 }],
            PluginKind::RulesCheck => vec![ParamSpec { name: "min clearance", default: 200, min: 0, max: 10000 }],
            PluginKind::Teardrops => vec![ParamSpec { name: "pad radius", default: 1000, min: 100, max: 10000 }, ParamSpec { name: "trace width", default: 500, min: 50, max: 5000 }],
            PluginKind::Bridges => vec![ParamSpec { name: "gaps", default: 4000, min: 0, max: 32000 }, ParamSpec { name: "gap length", default: 2000, min: 100, max: 20000 }],
            PluginKind::Dogbone => vec![ParamSpec { name: "tool radius", default: 500, min: 0, max: 5000 }],
            PluginKind::ScaleFit => vec![ParamSpec { name: "target width", default: 100000, min: 1000, max: 1000000 }, ParamSpec { name: "target height", default: 100000, min: 1000, max: 1000000 }],
            PluginKind::PaintTool => vec![ParamSpec { name: "tool diameter", default: 500, min: 50, max: 10000 }, ParamSpec { name: "overlap", default: 200, min: 0, max: 950 }, ParamSpec { name: "margin", default: 0, min: 0, max: 50000 }],
            PluginKind::NccTool => vec![ParamSpec { name: "tool diameter", default: 500, min: 50, max: 10000 }, ParamSpec { name: "overlap", default: 400, min: 0, max: 950 }, ParamSpec { name: "margin", default: 1000, min: 0, max: 50000 }],
            PluginKind::CutoutTool => vec![ParamSpec { name: "tool diameter", default: 1000, min: 50, max: 10000 }, ParamSpec { name: "gap size", default: 2000, min: 100, max: 20000 }, ParamSpec { name: "gaps", default: 4000, min: 0, max: 32000 }, ParamSpec { name: "outside (1) / on-line (0)", default: 1000, min: 0, max: 1000 }],
            PluginKind::Calculators => vec![ParamSpec { name: "v-bit tip diameter", default: 200, min: 0, max: 5000 }, ParamSpec { name: "v-bit angle (deg)", default: 30000, min: 1000, max: 179000 }, ParamSpec { name: "cut depth", default: 50, min: 0, max: 5000 }],
            PluginKind::Follow | PluginKind::Optimal | PluginKind::Distance | PluginKind::Report | PluginKind::Film | PluginKind::Align | PluginKind::Subtract | PluginKind::ExtractDrills | PluginKind::Punch | PluginKind::Markers | PluginKind::Levelling | PluginKind::QrCode => Vec::new(),
        };
        assert(v@.map_values(|p: ParamSpec| p@) =~= params_of(self));
        v
    }
}

/// Every parameter's default lies within its range.
pub proof fn law_param_defaults_in_range(k: PluginKind)
    ensures
        forall|i: int|
            0 <= i < params_of(k).len() ==> (#[trigger] params_of(k)[i]).2 <= params_of(k)[i].1 <= params_of(k)[i].3,
{
}

/// The menu lists every plugin exactly once.
pub proof fn law_menu_lists_every_plugin_once(k: PluginKind)
    ensures
        menu_order().contains(k),
        forall|i: int, j: int|
            0 <= i < j < menu_order().len() ==> menu_order()[i] != menu_order()[j],
{
    let m = menu_order();
    assert(m.len() == 31);
    match k {
        PluginKind::TwoSided => assert(m[0] == k),
        PluginKind::Panelize => assert(m[1] == k),
        PluginKind::Film => assert(m[2] == k),
        PluginKind::Align => assert(m[3] == k),
        PluginKind::Fiducials => assert(m[4] == k),
        PluginKind::Corners => assert(m[5] == k),
        PluginKind::Markers => assert(m[6] == k),
        PluginKind::Subtract => assert(m[7] == k),
        PluginKind::Invert => assert(m[8] == k),
        PluginKind::Etch => assert(m[9] == k),
        PluginKind::Thieving => assert(m[10] == k),
        PluginKind::CopperFill => assert(m[11] == k),
        PluginKind::Teardrops => assert(m[12] == k),
        PluginKind::Bridges => assert(m[13] == k),
        PluginKind::Dogbone => assert(m[14] == k),
        PluginKind::ScaleFit => assert(m[15] == k),
        PluginKind::Optimal => assert(m[16] == k),
        PluginKind::Distance => assert(m[17] == k),
        PluginKind::RulesCheck => assert(m[18] == k),
        PluginKind::Report => assert(m[19] == k),
        PluginKind::Follow => assert(m[20] == k),
        PluginKind::SolderPaste => assert(m[21] == k),
        PluginKind::Milling => assert(m[22] == k),
        PluginKind::NccTool => assert(m[23] == k),
        PluginKind::PaintTool => assert(m[24] == k),
        PluginKind::CutoutTool => assert(m[25] == k),
        PluginKind::ExtractDrills => assert(m[26] == k),
        PluginKind::Punch => assert(m[27] == k),
        PluginKind::Calculators => assert(m[28] == k),
        PluginKind::Levelling => assert(m[29] == k),
        PluginKind::QrCode => assert(m[30] == k),
    }
    assert forall|i: int, j: int| 0 <= i < j < m.len() implies m[i] != m[j] by {
        assert(m[i] == menu_order()[i]);
    }
}

/// The category names in menu order, indexed by group number: Fabrication,
/// Modify, Analysis, CAM, Utility.
pub open spec fn menu_group_name(g: int) -> Seq<char> {
    if g == 0 {
        "Fabrication"@
    } else if g == 1 {
        "Modify"@
    } else if g == 2 {
        "Analysis"@
    } else if g == 3 {
        "CAM"@
    } else {
        "Utility"@
    }
}

/// The group number of menu position `i`.
pub open spec fn menu_group_at(i: int) -> int {
    if i < 7 {
        0
    } else if i < 16 {
        1
    } else if i < 20 {
        2
    } else if i < 28 {
        3
    } else {
        4
    }
}

proof fn lemma_group_names_distinct(a: int, b: int)
    requires
        0 <= a <= 4,
        0 <= b <= 4,
        a != b,
    ensures
        menu_group_name(a) != menu_group_name(b),
{
    reveal_strlit("Fabrication");
    reveal_strlit("Modify");
    reveal_strlit("CAM");
    reveal_strlit("Analysis");
    reveal_strlit("Utility");
    assert(menu_group_name(a).len() != menu_group_name(b).len());
}

/// The menu is grouped: all plugins of a category stand next to each other
/// (no category reappears after another one started), and the groups come in
/// the order Fabrication, Modify, Analysis, CAM, Utility.
pub proof fn law_menu_grouped_by_category()
    ensures
        forall|i: int|
            0 <= i < menu_order().len() ==> category_of(#[trigger] menu_order()[i])
                == menu_group_name(menu_group_at(i)),
        forall|i: int, j: int|
            0 <= i <= j < menu_order().len() ==> menu_group_at(i) <= menu_group_at(j),
        forall|i: int, j: int, k: int|
            #![trigger menu_order()[i], menu_order()[j], menu_order()[k]]
            0 <= i < j < k < menu_order().len() && category_of(menu_order()[i]) == category_of(
                menu_order()[k],
            ) ==> category_of(menu_order()[j]) == category_of(menu_order()[i]),
{
    let m = menu_order();
    assert forall|i: int| 0 <= i < m.len() implies #[trigger] category_of(m[i]) == menu_group_name(
        menu_group_at(i),
    ) by {
        if i == 0 { assert(category_of(m[0]) == menu_group_name(0)); }
        else if i == 1 { assert(category_of(m[1]) == menu_group_name(0)); }
        else if i == 2 { assert(category_of(m[2]) == menu_group_name(0)); }
        else if i == 3 { assert(category_of(m[3]) == menu_group_name(0)); }
        else if i == 4 { assert(category_of(m[4]) == menu_group_name(0)); }
        else if i == 5 { assert(category_of(m[5]) == menu_group_name(0)); }
        else if i == 6 { assert(category_of(m[6]) == menu_group_name(0)); }
        else if i == 7 { assert(category_of(m[7]) == menu_group_name(1)); }
        else if i == 8 { assert(category_of(m[8]) == menu_group_name(1)); }
        else if i == 9 { assert(category_of(m[9]) == menu_group_name(1)); }
        else if i == 10 { assert(category_of(m[10]) == menu_group_name(1)); }
        else if i == 11 { assert(category_of(m[11]) == menu_group_name(1)); }
        else if i == 12 { assert(category_of(m[12]) == menu_group_name(1)); }
        else if i == 13 { assert(category_of(m[13]) == menu_group_name(1)); }
        else if i == 14 { assert(category_of(m[14]) == menu_group_name(1)); }
        else if i == 15 { assert(category_of(m[15]) == menu_group_name(1)); }
        else if i == 16 { assert(category_of(m[16]) == menu_group_name(2)); }
        else if i == 17 { assert(category_of(m[17]) == menu_group_name(2)); }
        else if i == 18 { assert(category_of(m[18]) == menu_group_name(2)); }
        else if i == 19 { assert(category_of(m[19]) == menu_group_name(2)); }
        else if i == 20 { assert(category_of(m[20]) == menu_group_name(3)); }
        else if i == 21 { assert(category_of(m[21]) == menu_group_name(3)); }
        else if i == 22 { assert(category_of(m[22]) == menu_group_name(3)); }
        else if i == 23 { assert(category_of(m[23]) == menu_group_name(3)); }
        else if i == 24 { assert(category_of(m[24]) == menu_group_name(3)); }
        else if i == 25 { assert(category_of(m[25]) == menu_group_name(3)); }
        else if i == 26 { assert(category_of(m[26]) == menu_group_name(3)); }
        else if i == 27 { assert(category_of(m[27]) == menu_group_name(3)); }
        else if i == 28 { assert(category_of(m[28]) == menu_group_name(4)); }
        else if i == 29 { assert(category_of(m[29]) == menu_group_name(4)); }
        else { assert(category_of(m[30]) == menu_group_name(4)); }
    }
    assert forall|i: int, j: int, k: int|
        #![trigger m[i], m[j], m[k]]
        0 <= i < j < k < m.len() && category_of(m[i]) == category_of(m[k]) implies category_of(
        m[j]) == category_of(m[i]) by {
        assert(category_of(m[i]) == menu_group_name(menu_group_at(i)));
        assert(category_of(m[k]) == menu_group_name(menu_group_at(k)));
        assert(category_of(m[j]) == menu_group_name(menu_group_at(j)));
        if menu_group_at(i) != menu_group_at(k) {
            lemma_group_names_distinct(menu_group_at(i), menu_group_at(k));
        }
    }
}

} // verus!
