use himawari8::screen::screen_size_from_xdpyinfo;
use himawari8::text::{contains_text, convert_u16, has_char, same_text, split_on};
use himawari8::tray::{
    downloader_result_code, failed_download_outcome, DownloadOutcome,
    marked_display, named_wallpaper, pick_menu_item, requested_wallpaper, shortcut_contents,
    startup_shortcut_path, sleep_period_ms, startup_wallpaper, timer_period_ms,
    timer_wallpaper, Wallpaper, IDR_DOWNLOAD, IDR_EXIT, IDR_FQ_10, IDR_FQ_20, IDR_FQ_30,
    IDR_FQ_60, IDR_HOME, IDR_STARTUP, IDR_TP_FULL, IDR_TP_HALF,
};
use himawari8::config::Config;

#[test]
fn text_helpers() {
    assert!(same_text("abc", "abc"));
    assert!(!same_text("abc", "abd"));
    assert!(!same_text("ab", "abc"));
    assert!(has_char("a(b", '('));
    assert!(!has_char("", 'x'));
    assert_eq!(split_on("a  b", ' '), vec!["a", "", "b"]);
    assert_eq!(split_on("", ' '), vec![""]);
    assert_eq!(split_on("1920x1080", 'x'), vec!["1920", "1080"]);
    assert_eq!(split_on("x", 'x'), vec!["", ""]);
}

#[test]
fn convert_u16_appends_a_zero() {
    assert_eq!(convert_u16("ab"), vec![97u16, 98, 0]);
    assert_eq!(convert_u16(""), vec![0u16]);
    let s = "壁纸😀";
    let mut expected: Vec<u16> = s.encode_utf16().collect();
    expected.push(0);
    assert_eq!(convert_u16(s), expected);
    assert_eq!(convert_u16("😀"), vec![0xD83Du16, 0xDE00, 0]);
}

#[test]
fn screen_size_from_dimensions_line() {
    let line = "  dimensions:    3840x1080 pixels (1016x286 millimeters)\n";
    assert_eq!(screen_size_from_xdpyinfo(line), Some((3840, 1080)));
    assert_eq!(screen_size_from_xdpyinfo(""), Some((1920, 1200)));
    assert_eq!(screen_size_from_xdpyinfo("no size here"), Some((1920, 1200)));
    let two = "  dimensions:    1280x1024 pixels (1x1 mm)\n  dimensions:    800x600 pixels";
    assert_eq!(screen_size_from_xdpyinfo(two), Some((800, 600)));
    assert_eq!(screen_size_from_xdpyinfo("axb pixels"), None);
    assert_eq!(screen_size_from_xdpyinfo("1x2x3"), Some((1, 2)));
}

#[test]
fn menu_display_items() {
    let mut conf = Config { freq: 30, show_type: 0 };
    let e = pick_menu_item(&mut conf, IDR_TP_FULL);
    assert_eq!(conf.show_type, 0);
    assert!(!e.save_config && e.download.is_none() && e.mark.is_none());
    let e = pick_menu_item(&mut conf, IDR_TP_HALF);
    assert_eq!(conf, Config { freq: 30, show_type: 1 });
    assert_eq!(e.download, Some(Wallpaper::Half));
    assert_eq!(e.mark, Some(Wallpaper::Half));
    assert!(e.save_config);
    let e = pick_menu_item(&mut conf, IDR_TP_FULL);
    assert_eq!(conf.show_type, 0);
    assert_eq!(e.download, Some(Wallpaper::Full));
}

#[test]
fn menu_interval_items() {
    let mut conf = Config { freq: 30, show_type: 1 };
    for (item, timer, stored) in [(IDR_FQ_10, 10, 10), (IDR_FQ_20, 20, 20), (IDR_FQ_30, 30, 30), (IDR_FQ_60, 60, 60)] {
        let e = pick_menu_item(&mut conf, item);
        assert_eq!(e.restart_timer, Some(timer));
        assert_eq!(conf.freq, stored);
        assert_eq!(conf.show_type, 1);
        assert!(e.save_config);
    }
}

#[test]
fn menu_other_items() {
    let mut conf = Config { freq: 20, show_type: 0 };
    assert!(pick_menu_item(&mut conf, IDR_EXIT).close);
    assert!(pick_menu_item(&mut conf, IDR_HOME).open_home_page);
    assert!(pick_menu_item(&mut conf, IDR_DOWNLOAD).open_downloader);
    assert!(pick_menu_item(&mut conf, IDR_STARTUP).toggle_startup);
    assert!(pick_menu_item(&mut conf, 0).reopen_menu);
    let e = pick_menu_item(&mut conf, 12345);
    assert!(!e.close && !e.reopen_menu && !e.save_config && e.restart_timer.is_none());
    assert_eq!(conf, Config { freq: 20, show_type: 0 });
}

#[test]
fn timer_and_startup_choices() {
    assert_eq!(timer_wallpaper(0), Some(Wallpaper::Full));
    assert_eq!(timer_wallpaper(1), Some(Wallpaper::Half));
    assert_eq!(timer_wallpaper(7), None);
    assert_eq!(marked_display(7), None);
    assert_eq!(startup_wallpaper(0), Wallpaper::Full);
    assert_eq!(startup_wallpaper(7), Wallpaper::Half);
}

#[test]
fn periods() {
    assert_eq!(timer_period_ms(10), Some(600000));
    assert_eq!(timer_period_ms(71582), Some(4294920000));
    assert_eq!(timer_period_ms(71583), None);
    assert_eq!(timer_period_ms(-1), None);
    assert_eq!(sleep_period_ms(30), Some(1800000));
    assert_eq!(sleep_period_ms(-1), None);
    assert_eq!(sleep_period_ms(i32::MAX), Some(2147483647u64 * 60000));
}

#[test]
fn picture_requests() {
    assert_eq!(requested_wallpaper(0), Wallpaper::Full);
    assert_eq!(requested_wallpaper(1), Wallpaper::Half);
    assert_eq!(requested_wallpaper(-3), Wallpaper::Half);
    assert_eq!(named_wallpaper("full"), Wallpaper::Full);
    assert_eq!(named_wallpaper("half"), Wallpaper::Half);
    assert_eq!(named_wallpaper("Full"), Wallpaper::Half);
}

#[test]
fn startup_shortcut() {
    assert_eq!(
        startup_shortcut_path("C:\\Startup", "himawari8"),
        "C:\\Startup\\himawari8.url"
    );
    let template = "[InternetShortcut]\nURL=--\nIconIndex=0\nIconFile=--\n";
    assert_eq!(shortcut_contents("C:\\h8.exe"), template.replace("--", "C:\\h8.exe"));
}

#[test]
fn downloader_result_codes() {
    assert_eq!(downloader_result_code(DownloadOutcome::Saved), 0);
    assert_eq!(downloader_result_code(DownloadOutcome::DownloadFailed), 1);
    assert_eq!(downloader_result_code(DownloadOutcome::SaveFailed), 2);
    assert_eq!(downloader_result_code(DownloadOutcome::Cancelled), 3);
    assert_eq!(downloader_result_code(DownloadOutcome::Busy), 4);
}

#[test]
fn contains_text_finds_runs() {
    assert!(contains_text("abcdef", "cde"));
    assert!(contains_text("abcdef", "abcdef"));
    assert!(contains_text("abcdef", ""));
    assert!(contains_text("", ""));
    assert!(!contains_text("abcdef", "ce"));
    assert!(!contains_text("abc", "abcd"));
    assert!(contains_text("错误: 正在下载中...", "正在下载中"));
}

#[test]
fn failed_download_outcomes() {
    assert_eq!(failed_download_outcome("Custom { error: \"正在下载中\" }"), DownloadOutcome::Busy);
    assert_eq!(failed_download_outcome("connection refused"), DownloadOutcome::DownloadFailed);
}
