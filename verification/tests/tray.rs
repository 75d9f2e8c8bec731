use nothing_core::tray::{icon_theme_path_candidates, percent, tray_icon, NXL_RED};
use nothing_core::{BatteryState, ChargeLevel, TrayAction, TrayItem};
use std::sync::mpsc;

#[test]
fn appimage_icon_theme_path_precedes_the_system_path() {
    let candidates =
        icon_theme_path_candidates(Some("/tmp/AppDir"), Some("/usr/bin/nothing-linux"));
    assert_eq!(
        candidates,
        vec![
            String::from("/tmp/AppDir/usr/share/icons"),
            String::from("/usr/share/icons"),
        ]
    );
}

#[test]
fn executables_outside_a_bin_directory_have_no_theme_path() {
    assert!(icon_theme_path_candidates(None, Some("/opt/nothing/nothing-linux")).is_empty());
    assert_eq!(
        icon_theme_path_candidates(None, Some("/home/u/.local/bin/nothing-linux")),
        vec![String::from("/home/u/.local/share/icons")]
    );
    assert!(icon_theme_path_candidates(None, None).is_empty());
}

#[test]
fn tray_fallback_is_a_full_argb_icon() {
    let icon = tray_icon();
    assert_eq!((icon.width, icon.height), (64, 64));
    assert_eq!(icon.data.len(), 64 * 64 * 4);
    assert_eq!(&icon.data[..4], &[0xff, NXL_RED[0], NXL_RED[1], NXL_RED[2]]);
    let centre = ((32 * 64 + 32) * 4)..((32 * 64 + 32) * 4 + 4);
    assert_eq!(&icon.data[centre], &[0xff, 0xff, 0xff, 0xff]);
}

#[test]
fn battery_line_shows_each_level() {
    let (sender, receiver) = mpsc::channel();
    let mut item = TrayItem::new(sender);
    assert_eq!(item.battery(), "Not connected");
    item.set_battery(&BatteryState {
        left: Some(ChargeLevel { percent: 80, charging: false }),
        right: Some(ChargeLevel { percent: 7, charging: true }),
        case: None,
    });
    assert_eq!(item.battery(), "L 80% · R 7% · C —");
    assert_eq!(item.title(), "Nothing Linux — L 80% · R 7% · C —");
    item.request(TrayAction::AncOn);
    assert!(matches!(receiver.recv(), Ok(TrayAction::AncOn)));
    assert_eq!(percent(Some(ChargeLevel { percent: 100, charging: false })), "100%");
}
