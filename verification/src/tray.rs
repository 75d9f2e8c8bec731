//! The status-notifier tray item: its text, icon and actions.
use crate::paths::{file_name_of, join_path, parent_path, path_file_name, path_join, path_parent};
use crate::text::{decimal, push_decimal, push_str};
use crate::types::{BatteryState, ChargeLevel};
use std::sync::mpsc::Sender;
use vstd::prelude::*;

verus! {

#[verifier::external_type_specification]
#[verifier::external_body]
#[verifier::reject_recursive_types(T)]
pub struct ExSender<T>(Sender<T>);

/// What the user picked in the tray menu.
#[derive(Debug, Clone, Copy, PartialEq, Eq, Structural)]
pub enum TrayAction {
    Open,
    AncOff,
    AncTransparency,
    AncOn,
    Quit,
}

pub const TRAY_ID: &'static str = "io_github_nothinglinux_NothingLinux";

pub const TRAY_ICON_NAME: &'static str = "io.github.nothinglinux.nothinglinux";

pub const NOT_CONNECTED: &'static str = "Not connected";

/// A charge level as shown in the tray: "80%", or "—" when unknown.
pub open spec fn percent_text(level: Option<ChargeLevel>) -> Seq<char> {
    match level {
        Some(l) => decimal(l.percent as nat) + "%"@,
        None => "—"@,
    }
}

/// "L 80% · R 60% · C —".
pub open spec fn battery_summary(b: BatteryState) -> Seq<char> {
    "L "@ + percent_text(b.left) + " · R "@ + percent_text(b.right) + " · C "@ + percent_text(
        b.case,
    )
}

/// A charge level as shown in the tray.
pub fn percent(level: Option<ChargeLevel>) -> (r: String)
    ensures
        r@ == percent_text(level),
{
    let mut r = String::new();
    match level {
        Some(l) => {
            push_decimal(&mut r, l.percent as u64);
            push_str(&mut r, "%");
        },
        None => push_str(&mut r, "—"),
    }
    r
}

/// The tray item: the battery summary it shows and where menu picks go.
pub struct TrayItem {
    battery: String,
    actions: Sender<TrayAction>,
}

/// Sends a menu pick to the application. Nothing is stated: the send fails
/// when the receiving end is gone, and the pick is then dropped.
#[verifier::external_body]
fn send_action(actions: &Sender<TrayAction>, action: TrayAction) {
    let _ = actions.send(action);
}

impl TrayItem {
    /// A tray item for a device that is not connected yet.
    pub fn new(actions: Sender<TrayAction>) -> (t: TrayItem)
        ensures
            t.battery_text() == NOT_CONNECTED@,
            t.action_channel() == actions,
    {
        TrayItem { battery: String::from_str(NOT_CONNECTED), actions }
    }

    /// The battery line the tray shows.
    pub closed spec fn battery_text(&self) -> Seq<char> {
        self.battery@
    }

    /// Where menu picks are sent.
    pub closed spec fn action_channel(&self) -> Sender<TrayAction> {
        self.actions
    }

    pub fn battery(&self) -> (r: String)
        ensures
            r@ == self.battery_text(),
    {
        self.battery.clone()
    }

    /// Shows the battery levels of both earbuds and the case.
    pub fn set_battery(&mut self, battery: &BatteryState)
        ensures
            final(self).battery_text() == battery_summary(*battery),
            final(self).action_channel() == old(self).action_channel(),
    {
        let mut text = String::new();
        push_str(&mut text, "L ");
        let left = percent(battery.left);
        push_str(&mut text, left.as_str());
        push_str(&mut text, " · R ");
        let right = percent(battery.right);
        push_str(&mut text, right.as_str());
        push_str(&mut text, " · C ");
        let case = percent(battery.case);
        push_str(&mut text, case.as_str());
        self.battery = text;
    }

    /// The tray title: "Nothing Linux — " and the battery line.
    pub fn title(&self) -> (r: String)
        ensures
            r@ == "Nothing Linux — "@ + self.battery_text(),
    {
        let mut r = String::from_str("Nothing Linux — ");
        push_str(&mut r, self.battery.as_str());
        r
    }

    /// Hands a menu pick to the application through `action_channel()`.
    pub fn request(&self, action: TrayAction) {
        send_action(&self.actions, action);
    }
}

/// `/usr` when `executable` lies in a directory named `bin`.
pub open spec fn usr_dir_of(executable: Option<Seq<char>>) -> Option<Seq<char>> {
    match executable {
        Some(e) => match path_parent(e) {
            Some(bin) => if path_file_name(bin) == Some("bin"@) {
                path_parent(bin)
            } else {
                None
            },
            None => None,
        },
        None => None,
    }
}

/// Icon theme directories to try: the AppImage's own first, then the one
/// next to the installed executable.
pub open spec fn icon_candidates(app_dir: Option<Seq<char>>, executable: Option<Seq<char>>) -> Seq<
    Seq<char>,
> {
    let first = match app_dir {
        Some(a) => seq![path_join(a, "usr/share/icons"@)],
        None => Seq::empty(),
    };
    match usr_dir_of(executable) {
        Some(usr) => first.push(path_join(usr, "share/icons"@)),
        None => first,
    }
}

pub open spec fn opt_text(s: Option<&str>) -> Option<Seq<char>> {
    match s {
        Some(t) => Some(t@),
        None => None,
    }
}

fn usr_dir(executable: Option<&str>) -> (r: Option<String>)
    ensures
        match r {
            Some(u) => usr_dir_of(opt_text(executable)) == Some(u@),
            None => usr_dir_of(opt_text(executable)) is None,
        },
{
    match executable {
        Some(e) => match parent_path(e) {
            Some(bin) => match file_name_of(bin.as_str()) {
                Some(name) => {
                    proof {
                        reveal_strlit("bin");
                    }
                    if crate::paths::same_text(name.as_str(), "bin") {
                        parent_path(bin.as_str())
                    } else {
                        None
                    }
                },
                None => None,
            },
            None => None,
        },
        None => None,
    }
}

/// Where the tray icon theme may be: under `$APPDIR` for an AppImage, and
/// under the `usr` directory of an executable installed in a `bin` directory.
pub fn icon_theme_path_candidates(app_dir: Option<&str>, executable: Option<&str>) -> (r: Vec<String>)
    ensures
        r.deep_view() == icon_candidates(opt_text(app_dir), opt_text(executable)),
{
    let mut candidates: Vec<String> = Vec::new();
    if let Some(a) = app_dir {
        let p = join_path(a, "usr/share/icons");
        candidates.push(p);
    }
    let ghost first = candidates.deep_view();
    assert(first =~= match opt_text(app_dir) {
        Some(a) => seq![path_join(a, "usr/share/icons"@)],
        None => Seq::empty(),
    });
    if let Some(usr) = usr_dir(executable) {
        let p = join_path(usr.as_str(), "share/icons");
        candidates.push(p);
        assert(candidates.deep_view() =~= first.push(p@));
    }
    candidates
}

// -------------------------------------------------------------- fallback icon

/// Nothing red.
pub const NXL_RED: [u8; 3] = [0xe6, 0x1a, 0x1f];

pub const ICON_SIZE: usize = 64;

/// Pixel `(x, y)` of the fallback icon belongs to the white "N".
pub open spec fn in_letter(x: int, y: int) -> bool {
    let diagonal_x = 18 + (if y > 14 { y - 14 } else { 0 }) * 25 / 36;
    ||| 15 <= x <= 22
    ||| 42 <= x <= 49
    ||| (14 <= y <= 50 && -3 <= x - diagonal_x <= 3)
}

/// Byte `k` (alpha, red, green, blue) of pixel `(x, y)`.
pub open spec fn icon_byte(x: int, y: int, k: int) -> u8 {
    if k == 0 || in_letter(x, y) {
        0xff
    } else {
        NXL_RED[k - 1]
    }
}

/// The whole icon, row by row, four ARGB bytes per pixel.
pub open spec fn icon_bytes() -> Seq<u8> {
    Seq::new(64 * 64 * 4, |i: int| icon_byte((i / 4) % 64, i / 256, i % 4))
}

/// An ARGB32 image.
#[derive(Debug, Clone)]
pub struct TrayIcon {
    pub width: i32,
    pub height: i32,
    pub data: Vec<u8>,
}

fn letter(x: usize, y: usize) -> (r: bool)
    requires
        x < 64,
        y < 64,
    ensures
        r == in_letter(x as int, y as int),
{
    let below = if y > 14 { y - 14 } else { 0 };
    let diagonal_x = 18 + below * 25 / 36;
    let near = if x >= diagonal_x { x - diagonal_x <= 3 } else { diagonal_x - x <= 3 };
    (15 <= x && x <= 22) || (42 <= x && x <= 49) || (14 <= y && y <= 50 && near)
}

/// The fallback tray icon: a white "N" on Nothing red, 64 by 64 pixels.
pub fn tray_icon() -> (icon: TrayIcon)
    ensures
        icon.width == 64,
        icon.height == 64,
        icon.data@ == icon_bytes(),
{
    let mut data: Vec<u8> = Vec::new();
    let mut y: usize = 0;
    while y < ICON_SIZE
        invariant
            y <= 64,
            data@.len() == y * 256,
            data@ == icon_bytes().take(y * 256),
        decreases 64 - y,
    {
        let mut x: usize = 0;
        while x < ICON_SIZE
            invariant
                y < 64,
                x <= 64,
                data@.len() == y * 256 + x * 4,
                data@ == icon_bytes().take(y * 256 + x * 4),
            decreases 64 - x,
        {
            let white = letter(x, y);
            let ghost at = y * 256 + x * 4;
            let ghost before = data@;
            if white {
                data.push(0xff);
                data.push(0xff);
                data.push(0xff);
                data.push(0xff);
            } else {
                data.push(0xff);
                data.push(NXL_RED[0]);
                data.push(NXL_RED[1]);
                data.push(NXL_RED[2]);
            }
            assert forall|k: int| 0 <= k < 4 implies #[trigger] data@[at + k] == icon_bytes()[at + k] by {
                assert((at + k) / 4 == y * 64 + x);
                assert((at + k) % 4 == k);
                assert(((at + k) / 4) % 64 == x);
                assert((at + k) / 256 == y);
            }
            assert(data@ =~= icon_bytes().take(at + 4)) by {
                assert forall|i: int| 0 <= i < at + 4 implies data@[i] == icon_bytes()[i] by {
                    if i >= at {
                        assert(data@[at + (i - at)] == icon_bytes()[at + (i - at)]);
                    } else {
                        assert(data@[i] == before[i]);
                    }
                }
            }
            x = x + 1;
        }
        y = y + 1;
    }
    assert(icon_bytes().take(64 * 256 as int) =~= icon_bytes());
    TrayIcon { width: 64, height: 64, data }
}

} // verus!
