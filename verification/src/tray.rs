use vstd::prelude::*;
use crate::config::{Config, TYPE_FULL, TYPE_HALF};
use crate::text::{contains_text, holds_text, same_text};

verus! {

/// Menu item: quit.
pub const IDR_EXIT: usize = 10;

/// Menu item: open the project's home page.
pub const IDR_HOME: usize = 20;

/// Menu item: start with the system (toggle).
pub const IDR_STARTUP: usize = 30;

/// Menu item: open the wallpaper downloader.
pub const IDR_DOWNLOAD: usize = 40;

/// Menu item: refresh every 10 minutes.
pub const IDR_FQ_10: usize = 110;

/// Menu item: refresh every 20 minutes.
pub const IDR_FQ_20: usize = 111;

/// Menu item: refresh every 30 minutes.
pub const IDR_FQ_30: usize = 112;

/// Menu item: refresh every hour.
pub const IDR_FQ_60: usize = 113;

/// Menu item: show the whole earth.
pub const IDR_TP_FULL: usize = 210;

/// Menu item: show the upper half of the earth.
pub const IDR_TP_HALF: usize = 211;

/// Which picture to fetch and set.
#[derive(Clone, Copy, Debug, PartialEq, Eq, Structural)]
pub enum Wallpaper {
    Full,
    Half,
}

/// What the tray program does after the user picked a menu item.
#[derive(Clone, Copy, Debug, PartialEq, Eq, Structural)]
pub struct MenuEffects {
    /// Close the window and quit.
    pub close: bool,
    /// Open the downloader window.
    pub open_downloader: bool,
    /// Open the home page in the browser.
    pub open_home_page: bool,
    /// Register or unregister the program for start-up.
    pub toggle_startup: bool,
    /// Fetch and set this picture now.
    pub download: Option<Wallpaper>,
    /// Restart the refresh timer with this many minutes.
    pub restart_timer: Option<i32>,
    /// Write the configuration to the settings file.
    pub save_config: bool,
    /// Put the check mark on this display item.
    pub mark: Option<Wallpaper>,
    /// Open the menu again (nothing was picked).
    pub reopen_menu: bool,
}

/// No effect at all.
pub open spec fn no_effects() -> MenuEffects {
    MenuEffects {
        close: false,
        open_downloader: false,
        open_home_page: false,
        toggle_startup: false,
        download: None,
        restart_timer: None,
        save_config: false,
        mark: None,
        reopen_menu: false,
    }
}

/// The new configuration and the effects of picking menu item `command`.
pub open spec fn menu_outcome(conf: Config, command: usize) -> (Config, MenuEffects) {
    if command == IDR_EXIT {
        (conf, MenuEffects { close: true, ..no_effects() })
    } else if command == IDR_DOWNLOAD {
        (conf, MenuEffects { open_downloader: true, ..no_effects() })
    } else if command == IDR_HOME {
        (conf, MenuEffects { open_home_page: true, ..no_effects() })
    } else if command == IDR_STARTUP {
        (conf, MenuEffects { toggle_startup: true, ..no_effects() })
    } else if command == IDR_TP_FULL {
        if conf.show_type != TYPE_FULL {
            (
                Config { freq: conf.freq, show_type: TYPE_FULL },
                MenuEffects {
                    download: Some(Wallpaper::Full),
                    save_config: true,
                    mark: Some(Wallpaper::Full),
                    ..no_effects()
                },
            )
        } else {
            (conf, no_effects())
        }
    } else if command == IDR_TP_HALF {
        if conf.show_type != TYPE_HALF {
            (
                Config { freq: conf.freq, show_type: TYPE_HALF },
                MenuEffects {
                    download: Some(Wallpaper::Half),
                    save_config: true,
                    mark: Some(Wallpaper::Half),
                    ..no_effects()
                },
            )
        } else {
            (conf, no_effects())
        }
    } else if command == IDR_FQ_10 {
        (
            Config { freq: 10, show_type: conf.show_type },
            MenuEffects { restart_timer: Some(10), save_config: true, ..no_effects() },
        )
    } else if command == IDR_FQ_20 {
        (
            Config { freq: 20, show_type: conf.show_type },
            MenuEffects { restart_timer: Some(20), save_config: true, ..no_effects() },
        )
    } else if command == IDR_FQ_30 {
        (
            Config { freq: 30, show_type: conf.show_type },
            MenuEffects { restart_timer: Some(30), save_config: true, ..no_effects() },
        )
    } else if command == IDR_FQ_60 {
        (
            Config { freq: 60, show_type: conf.show_type },
            MenuEffects { restart_timer: Some(60), save_config: true, ..no_effects() },
        )
    } else if command == 0 {
        (conf, MenuEffects { reopen_menu: true, ..no_effects() })
    } else {
        (conf, no_effects())
    }
}

fn effects() -> (e: MenuEffects)
    ensures
        e == no_effects(),
{
    MenuEffects {
        close: false,
        open_downloader: false,
        open_home_page: false,
        toggle_startup: false,
        download: None,
        restart_timer: None,
        save_config: false,
        mark: None,
        reopen_menu: false,
    }
}

/// Decides what picking menu item `command` does, updating the configuration.
/// Each interval item records the interval it is labelled with and restarts
/// the timer with it, so the stored setting and the running timer agree:
/// the 20-minute item records 20 minutes.
pub fn pick_menu_item(conf: &mut Config, command: usize) -> (e: MenuEffects)
    ensures
        (*final(conf), e) == menu_outcome(*old(conf), command),
{
    let mut e = effects();
    if command == IDR_EXIT {
        e.close = true;
    } else if command == IDR_DOWNLOAD {
        e.open_downloader = true;
    } else if command == IDR_HOME {
        e.open_home_page = true;
    } else if command == IDR_STARTUP {
        e.toggle_startup = true;
    } else if command == IDR_TP_FULL {
        if conf.show_type != TYPE_FULL {
            conf.show_type = TYPE_FULL;
            e.download = Some(Wallpaper::Full);
            e.save_config = true;
            e.mark = Some(Wallpaper::Full);
        }
    } else if command == IDR_TP_HALF {
        if conf.show_type != TYPE_HALF {
            conf.show_type = TYPE_HALF;
            e.download = Some(Wallpaper::Half);
            e.save_config = true;
            e.mark = Some(Wallpaper::Half);
        }
    } else if command == IDR_FQ_10 {
        e.restart_timer = Some(10);
        conf.freq = 10;
        e.save_config = true;
    } else if command == IDR_FQ_20 {
        e.restart_timer = Some(20);
        conf.freq = 20;
        e.save_config = true;
    } else if command == IDR_FQ_30 {
        e.restart_timer = Some(30);
        conf.freq = 30;
        e.save_config = true;
    } else if command == IDR_FQ_60 {
        e.restart_timer = Some(60);
        conf.freq = 60;
        e.save_config = true;
    } else if command == 0 {
        e.reopen_menu = true;
    }
    e
}

/// The picture the refresh timer fetches: by the configured display, and
/// none for an unknown display.
pub open spec fn timer_choice(show_type: i32) -> Option<Wallpaper> {
    if show_type == TYPE_HALF {
        Some(Wallpaper::Half)
    } else if show_type == TYPE_FULL {
        Some(Wallpaper::Full)
    } else {
        None
    }
}

/// The picture the refresh timer fetches.
pub fn timer_wallpaper(show_type: i32) -> (w: Option<Wallpaper>)
    ensures
        w == timer_choice(show_type),
{
    if show_type == TYPE_HALF {
        Some(Wallpaper::Half)
    } else if show_type == TYPE_FULL {
        Some(Wallpaper::Full)
    } else {
        None
    }
}

/// The picture fetched when the tray program starts: the whole earth when
/// so configured, the upper half otherwise.
pub open spec fn startup_choice(show_type: i32) -> Wallpaper {
    if show_type == TYPE_FULL {
        Wallpaper::Full
    } else {
        Wallpaper::Half
    }
}

/// The picture fetched when the tray program starts.
pub fn startup_wallpaper(show_type: i32) -> (w: Wallpaper)
    ensures
        w == startup_choice(show_type),
{
    if show_type == TYPE_FULL {
        Wallpaper::Full
    } else {
        Wallpaper::Half
    }
}

/// Which display item carries the check mark when the menu is built; with an
/// unknown display the display items are left out (`None`).
pub fn marked_display(show_type: i32) -> (w: Option<Wallpaper>)
    ensures
        w == timer_choice(show_type),
{
    timer_wallpaper(show_type)
}

/// The refresh timer's period in milliseconds, `minutes as u32 * 60 * 1000`;
/// `None` where that product leaves `u32`.
pub fn timer_period_ms(minutes: i32) -> (ms: Option<u32>)
    ensures
        ms is Some <==> (minutes as u32) * 60000 <= u32::MAX,
        ms matches Some(v) ==> v == (minutes as u32) * 60000,
{
    let m = minutes as u32;
    if m > 71582 {
        None
    } else {
        Some(m * 60 * 1000)
    }
}

/// How long the command-line program sleeps between refreshes, in
/// milliseconds: `freq as u64 * 60 * 1000`; `None` where that leaves `u64`.
pub fn sleep_period_ms(freq: i32) -> (ms: Option<u64>)
    ensures
        ms is Some <==> (freq as u64) * 60000 <= u64::MAX,
        ms matches Some(v) ==> v == (freq as u64) * 60000,
{
    let m = freq as u64;
    if m > 307445734561825 {
        None
    } else {
        Some(m * 60 * 1000)
    }
}

/// The picture the phone asks for: the whole earth for kind 0, the upper
/// half for any other kind.
pub fn requested_wallpaper(kind: i32) -> (w: Wallpaper)
    ensures
        w == (if kind == 0 {
            Wallpaper::Full
        } else {
            Wallpaper::Half
        }),
{
    if kind == 0 {
        Wallpaper::Full
    } else {
        Wallpaper::Half
    }
}

/// The picture the downloader window asks for: the whole earth for `full`,
/// the upper half for anything else.
pub fn named_wallpaper(name: &str) -> (w: Wallpaper)
    ensures
        w == (if name@ == "full"@ {
            Wallpaper::Full
        } else {
            Wallpaper::Half
        }),
{
    if same_text(name, "full") {
        Wallpaper::Full
    } else {
        Wallpaper::Half
    }
}

/// How a run of the downloader window ended.
#[derive(Clone, Copy, Debug, PartialEq, Eq, Structural)]
pub enum DownloadOutcome {
    /// The picture was fetched and saved where the user chose.
    Saved,
    /// The picture could not be fetched.
    DownloadFailed,
    /// The picture was fetched but could not be saved.
    SaveFailed,
    /// The picture was fetched and the user closed the save dialog.
    Cancelled,
    /// Another download was still running.
    Busy,
}

/// The number the downloader page is told: 0 saved, 1 download failed,
/// 2 saving failed, 3 no file chosen, 4 a download is already running.
pub open spec fn outcome_code(outcome: DownloadOutcome) -> i32 {
    match outcome {
        DownloadOutcome::Saved => 0,
        DownloadOutcome::DownloadFailed => 1,
        DownloadOutcome::SaveFailed => 2,
        DownloadOutcome::Cancelled => 3,
        DownloadOutcome::Busy => 4,
    }
}

/// The number to hand the downloader page for how its run ended.
pub fn downloader_result_code(outcome: DownloadOutcome) -> (code: i32)
    ensures
        code == outcome_code(outcome),
{
    match outcome {
        DownloadOutcome::Saved => 0,
        DownloadOutcome::DownloadFailed => 1,
        DownloadOutcome::SaveFailed => 2,
        DownloadOutcome::Cancelled => 3,
        DownloadOutcome::Busy => 4,
    }
}

/// The words a download reports while another one is still running.
pub open spec fn busy_words() -> Seq<char> {
    "正在下载中"@
}

/// How a failed download ends the downloader's run: as `Busy` when its
/// error text says another download is still running, as `DownloadFailed`
/// otherwise.
pub fn failed_download_outcome(error_text: &str) -> (outcome: DownloadOutcome)
    ensures
        outcome == (if holds_text(error_text@, busy_words()) {
            DownloadOutcome::Busy
        } else {
            DownloadOutcome::DownloadFailed
        }),
{
    if contains_text(error_text, "正在下载中") {
        DownloadOutcome::Busy
    } else {
        DownloadOutcome::DownloadFailed
    }
}

/// The start-up shortcut of the program: `FOLDER\NAME.url`.
pub open spec fn shortcut_path(folder: Seq<char>, app_name: Seq<char>) -> Seq<char> {
    folder + "\\"@ + app_name + ".url"@
}

/// Where the start-up shortcut of the program lies in the start-up folder.
pub fn startup_shortcut_path(folder: &str, app_name: &str) -> (path: String)
    ensures
        path@ == shortcut_path(folder@, app_name@),
{
    let mut path = String::new();
    path.append(folder);
    path.append("\\");
    path.append(app_name);
    path.append(".url");
    path
}

/// The start-up shortcut file: an internet shortcut whose address and icon
/// are both the program's path.
pub open spec fn shortcut_text(exe_path: Seq<char>) -> Seq<char> {
    "[InternetShortcut]\nURL="@ + exe_path + "\nIconIndex=0\nIconFile="@ + exe_path + "\n"@
}

/// The contents of the start-up shortcut for the program at `exe_path`.
pub fn shortcut_contents(exe_path: &str) -> (text: String)
    ensures
        text@ == shortcut_text(exe_path@),
{
    let mut text = String::new();
    text.append("[InternetShortcut]\nURL=");
    text.append(exe_path);
    text.append("\nIconIndex=0\nIconFile=");
    text.append(exe_path);
    text.append("\n");
    text
}

/// Picking the display that is already shown changes nothing and does nothing.
pub proof fn lemma_same_display_is_no_op(conf: Config, command: usize)
    requires
        (command == IDR_TP_FULL && conf.show_type == TYPE_FULL) || (command == IDR_TP_HALF
            && conf.show_type == TYPE_HALF),
    ensures
        menu_outcome(conf, command) == (conf, no_effects()),
{
}

/// Picking a display makes it the configured one; when it was not shown
/// before, its picture is fetched, its item is marked and the configuration
/// is saved.
pub proof fn lemma_display_choice(conf: Config, command: usize)
    requires
        command == IDR_TP_FULL || command == IDR_TP_HALF,
    ensures
        ({
            let (next, e) = menu_outcome(conf, command);
            let shown = if command == IDR_TP_FULL {
                TYPE_FULL
            } else {
                TYPE_HALF
            };
            let picture = if command == IDR_TP_FULL {
                Wallpaper::Full
            } else {
                Wallpaper::Half
            };
            &&& next.show_type == shown
            &&& next.freq == conf.freq
            &&& conf.show_type != shown ==> e.download == Some(picture) && e.mark == Some(picture)
                && e.save_config
        }),
{
}

/// Picking an interval item (10, 20, 30 or 60 minutes) records that interval,
/// restarts the timer with it, keeps the display, saves the configuration
/// and fetches nothing.
pub proof fn lemma_interval_choice(conf: Config, command: usize)
    requires
        IDR_FQ_10 <= command <= IDR_FQ_60,
    ensures
        ({
            let (next, e) = menu_outcome(conf, command);
            let minutes: i32 = if command == IDR_FQ_10 {
                10
            } else if command == IDR_FQ_20 {
                20
            } else if command == IDR_FQ_30 {
                30
            } else {
                60
            };
            &&& next == Config { freq: minutes, show_type: conf.show_type }
            &&& e == MenuEffects { restart_timer: Some(minutes), save_config: true, ..no_effects() }
        }),
{
}

/// Whatever the menu changes in the configuration is saved.
pub proof fn lemma_changes_are_saved(conf: Config, command: usize)
    ensures
        menu_outcome(conf, command).0 != conf ==> menu_outcome(conf, command).1.save_config,
{
}

/// For the two known displays, the refresh timer fetches the same picture
/// as the start of the tray program.
pub proof fn lemma_timer_matches_startup(show_type: i32)
    requires
        show_type == TYPE_FULL || show_type == TYPE_HALF,
    ensures
        timer_choice(show_type) == Some(startup_choice(show_type)),
{
}

} // verus!
