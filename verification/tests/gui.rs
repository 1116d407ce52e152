use flatcam::gui::{feed_suffix, length_suffix, map_units, PrefsAction, PrefsTab, Theme};
use flatcam::plugins::PluginKind;

#[test]
fn default_action_is_none() {
    assert_eq!(PrefsAction::default(), PrefsAction::NoAction);
}

#[test]
fn suffixes_track_units() {
    assert_eq!(length_suffix("mm"), " mm");
    assert_eq!(feed_suffix("mm"), " mm/min");
    assert_eq!(length_suffix("in"), " in");
    assert_eq!(feed_suffix("in"), " in/min");
}

#[test]
fn default_theme_is_light() {
    assert_eq!(Theme::default(), Theme::Light);
}

#[test]
fn tabs_in_order_with_titles() {
    let titles: Vec<&str> = PrefsTab::all().into_iter().map(|t| t.title()).collect();
    assert_eq!(titles, vec!["General", "CAM Defaults", "Isolation"]);
    assert_eq!(PrefsTab::default(), PrefsTab::General);
}

#[test]
fn gerber_units_map_to_gcode_units() {
    assert_eq!(map_units(flatcam::gerber::Units::Mm), flatcam::gcode::Units::Mm);
    assert_eq!(map_units(flatcam::gerber::Units::Inch), flatcam::gcode::Units::Inch);
}

#[test]
fn all_is_nonempty_and_labelled() {
    let all = PluginKind::all();
    assert!(!all.is_empty(), "plugin list must not be empty");
    for &k in &all {
        assert!(!k.label().is_empty(), "{k:?} has an empty label");
        assert!(!k.category().is_empty(), "{k:?} has an empty category");
        assert!(!k.icon().is_empty(), "{k:?} has an empty icon name");
        for spec in k.params() {
            assert!(spec.min <= spec.max, "{k:?} param {} has min > max", spec.name);
        }
    }
}

#[test]
fn cam_tools_are_not_stubs() {
    assert!(!PluginKind::PaintTool.is_stub(), "PaintTool should no longer be a stub");
    assert!(!PluginKind::NccTool.is_stub(), "NccTool should no longer be a stub");
    assert!(!PluginKind::CutoutTool.is_stub(), "CutoutTool should no longer be a stub");
    assert!(!PluginKind::Calculators.is_stub(), "Calculators should no longer be a stub");
}

#[test]
fn qr_code_is_a_stub() {
    assert!(PluginKind::QrCode.is_stub(), "QrCode is a stub");
    assert!(PluginKind::QrCode.params().is_empty());
}

#[test]
fn plugin_params_exact() {
    let p = PluginKind::CutoutTool.params();
    let got: Vec<(&str, i32, i32, i32)> = p.iter().map(|s| (s.name, s.default, s.min, s.max)).collect();
    assert_eq!(
        got,
        vec![
            ("tool diameter", 1000, 50, 10000),
            ("gap size", 2000, 100, 20000),
            ("gaps", 4000, 0, 32000),
            ("outside (1) / on-line (0)", 1000, 0, 1000),
        ]
    );
    let e = PluginKind::Etch.params();
    assert_eq!((e[0].name, e[0].default, e[0].min, e[0].max), ("bias", 50, -1000, 1000));
}

#[test]
fn plugin_defaults_within_range() {
    for k in PluginKind::all() {
        for s in k.params() {
            assert!(s.min <= s.default && s.default <= s.max, "{k:?} {}", s.name);
        }
    }
}

#[test]
fn palettes_are_distinct() {
    let light = Theme::Light.palette();
    let dark = Theme::Dark.palette();
    assert_ne!(light.plot_bg, dark.plot_bg);
    assert_ne!(light.margin_bg, dark.margin_bg);
    assert_ne!(light.cursor, dark.cursor);
}

#[test]
fn palette_colours_exact() {
    let light = Theme::Light.palette();
    assert_eq!(light.plot_bg, flatcam::gui::Rgba { r: 252, g: 252, b: 252, a: 255 });
    assert_eq!(light.axis, flatcam::gui::Rgba { r: 224, g: 122, b: 122, a: 255 });
    let dark = Theme::Dark.palette();
    assert_eq!(dark.cursor, flatcam::gui::Rgba { r: 255, g: 80, b: 80, a: 255 });
    assert_eq!(dark.ruler_text, flatcam::gui::Rgba { r: 150, g: 150, b: 150, a: 255 });
}

#[test]
fn plugin_menu_categories_in_documented_order() {
    let mut blocks: Vec<&str> = Vec::new();
    for k in PluginKind::all() {
        let c = k.category();
        if blocks.last() != Some(&c) {
            blocks.push(c);
        }
    }
    assert_eq!(blocks, vec!["Fabrication", "Modify", "Analysis", "CAM", "Utility"]);
}
