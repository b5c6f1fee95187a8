use crabfetch::displays::{
    display_backend, get_displays, parse_kscreen_doctor, parse_rate, parse_wlr_randr,
    parse_xrandr, DisplayBackend, DisplayInfo,
};

#[test]
fn xrandr_connected_display_and_mode() {
    let out = "Screen 0: minimum 320 x 200, current 1920 x 1080, maximum 16384 x 16384\n\
HDMI-1 connected 1920x1080+0+0 (normal left inverted right x axis y axis) 527mm x 296mm\n   \
1920x1080     60.00*+  50.00    59.94\n   \
1280x720      60.00    50.00\n";
    let ds = parse_xrandr(out);
    assert_eq!(ds.len(), 1);
    assert_eq!(ds[0].name(), "HDMI-1");
    assert_eq!(ds[0].width(), 1920);
    assert_eq!(ds[0].height(), 1080);
    assert_eq!(ds[0].refresh_rate(), 60);
}

#[test]
fn xrandr_rounds_and_handles_two_displays() {
    let out = "DP-1 connected 2560x1440+0+0 (normal)\n   2560x1440 143.97*+\nDP-2 connected 1920x1080+2560+0 (normal)\n   1920x1080 59.50*\n";
    let ds = parse_xrandr(out);
    assert_eq!(ds.len(), 2);
    assert_eq!(ds[0].refresh_rate(), 144);
    assert_eq!(ds[1].name(), "DP-2");
    assert_eq!(ds[1].refresh_rate(), 60);
}

#[test]
fn xrandr_geometry_anywhere_and_disconnected_outputs() {
    let out = "Screen 0: minimum 320 x 200, current 1920 x 1080, maximum 16384 x 16384\n\
eDP-1 connected primary 1920x1080+0+0 (normal left inverted right x axis y axis) 344mm x 194mm\n   \
1920x1080     59.94*+\n\
HDMI-1 disconnected (normal left inverted right x axis y axis)\n   \
1280x720      60.00*\n\
DP-1 connected 2560x1440+1920+0 (normal left inverted right x axis y axis) 597mm x 336mm\n   \
2560x1440     bad*\n";
    let ds = parse_xrandr(out);
    assert_eq!(ds.len(), 2);
    assert_eq!(ds[0].name(), "eDP-1");
    assert_eq!(ds[0].width(), 1920);
    assert_eq!(ds[0].height(), 1080);
    assert_eq!(ds[0].refresh_rate(), 60);
    assert_eq!(ds[1].name(), "DP-1");
    assert_eq!(ds[1].width(), 2560);
    assert_eq!(ds[1].refresh_rate(), 0);
    assert_eq!(parse_xrandr("").len(), 0);
    assert_eq!(parse_xrandr("   800x600 60.0*\n").len(), 0);
}

#[test]
fn rates() {
    let r = |s: &str| parse_rate(&s.chars().collect());
    assert_eq!(r("60.00"), Some(60));
    assert_eq!(r("59.94"), Some(60));
    assert_eq!(r("59.4"), Some(59));
    assert_eq!(r("75"), Some(75));
    assert_eq!(r("-1.5"), Some(0));
    assert_eq!(r("abc"), None);
    assert_eq!(r("."), None);
}

#[test]
fn wlr_randr_current_mode() {
    let out = r#"[{"name":"DP-1","enabled":true,"modes":[
        {"width":1920,"height":1080,"refresh":60.0,"preferred":true,"current":false},
        {"width":2560,"height":1440,"refresh":164.802,"preferred":false,"current":true}]}]"#;
    let ds = parse_wlr_randr(out).unwrap();
    assert_eq!(ds.len(), 1);
    assert_eq!(ds[0].name(), "DP-1");
    assert_eq!(ds[0].width(), 2560);
    assert_eq!(ds[0].height(), 1440);
    assert_eq!(ds[0].refresh_rate(), 165);
    assert!(parse_wlr_randr("{}").is_none());
    assert!(parse_wlr_randr("not json").is_none());
}

#[test]
fn kscreen_doctor_outputs() {
    let out = r#"{"outputs":[
        {"name":"HDMI-A-1","enabled":false,"currentModeId":"1","modes":[]},
        {"name":"DP-1","enabled":true,"currentModeId":"2","modes":[
            {"id":"1","size":{"width":1920,"height":1080},"refreshRate":60.0},
            {"id":"2","size":{"width":3840,"height":2160},"refreshRate":59.997}]}]}"#;
    let ds = parse_kscreen_doctor(out).unwrap();
    assert_eq!(ds.len(), 1);
    assert_eq!(ds[0].name(), "DP-1");
    assert_eq!(ds[0].width(), 3840);
    assert_eq!(ds[0].height(), 2160);
    assert_eq!(ds[0].refresh_rate(), 60);
    assert!(parse_kscreen_doctor(r#"{"outputs":[{"name":"X"}]}"#).is_none());
}

#[test]
fn backend_choice() {
    assert!(display_backend(Some("KDE"), Some("x11")) == Some(DisplayBackend::KScreenDoctor));
    assert!(display_backend(Some("GNOME"), Some("x11")) == Some(DisplayBackend::XRandr));
    assert!(display_backend(None, Some("wayland")) == Some(DisplayBackend::WlrRandr));
    assert!(display_backend(None, Some("tty")).is_none());
    assert!(display_backend(None, None).is_none());
}

#[test]
fn displays_or_nothing() {
    assert!(get_displays(DisplayBackend::WlrRandr, "garbage").is_none());
    assert!(get_displays(DisplayBackend::KScreenDoctor, "[]").is_none());
    assert_eq!(get_displays(DisplayBackend::XRandr, "").unwrap().len(), 0);
    let ds = get_displays(DisplayBackend::XRandr, "A connected 800x600+0+0\n 800x600 30.0*\n").unwrap();
    assert_eq!(ds[0].to_string(), "A 800x600 @ 30hz");
    assert_eq!(ds[0].format("{name}: {width}x{height}@{refresh_rate}"), "A: 800x600@30");
    let d = DisplayInfo::new();
    assert_eq!(d.format("{name}|{width}"), "|0");
}
