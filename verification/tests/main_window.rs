use icy_term::main_window::{
    debug_escape, key_bind_actions, stop_sound_label, toolbar_actions, BindAction, BindsPressed, ToolbarAction, ToolbarInput,
    display_name, format_connection_time, login_credentials, printable_chars, MainWindowMode,
    Scaling, TitleState, TitleUpdate,
};

#[test]
fn connection_time_format() {
    assert_eq!(format_connection_time(0), "00:00:00");
    assert_eq!(format_connection_time(3725), "01:02:05");
    assert_eq!(format_connection_time(59), "00:00:59");
    assert_eq!(format_connection_time(100 * 3600 + 61), "100:01:01");
}

#[test]
fn display_names() {
    assert_eq!(display_name("", "bbs.example.org"), "bbs.example.org");
    assert_eq!(display_name("Cool BBS", "bbs.example.org"), "Cool BBS");
}

#[test]
fn scalings() {
    assert_eq!(Scaling::all(), vec![Scaling::Nearest, Scaling::Linear]);
}

#[test]
fn window_mode_default() {
    assert_eq!(MainWindowMode::default(), MainWindowMode::ShowDialingDirectory);
}

fn s(x: &str) -> String {
    x.to_string()
}

#[test]
fn credentials_choice() {
    assert_eq!(login_credentials(false, s("iu"), s("ip"), s("u"), s("p")), Some((s("u"), s("p"))));
    assert_eq!(login_credentials(true, s("iu"), s("ip"), s("u"), s("p")), Some((s("iu"), s("ip"))));
    assert_eq!(login_credentials(false, s("iu"), s("ip"), s(""), s("p")), None);
    assert_eq!(login_credentials(true, s("iu"), s(""), s("u"), s("p")), None);
}

#[test]
fn title_reports_a_lost_connection_once() {
    let mut t = TitleState::new();
    assert_eq!(t.update(true), TitleUpdate::Connected);
    assert_eq!(t.update(false), TitleUpdate::Offline);
    assert_eq!(t.update(false), TitleUpdate::Unchanged);
    assert_eq!(t.update(true), TitleUpdate::Connected);
    assert_eq!(t.update(false), TitleUpdate::Offline);
}

#[test]
fn local_printing_skips_wide_characters() {
    assert_eq!(printable_chars("a\u{e9}\u{263a}b"), vec!['a', '\u{e9}', 'b']);
}

#[test]
fn no_binding_pressed() {
    assert!(key_bind_actions(BindsPressed::default(), false).is_empty());
}

#[test]
fn bindings_in_handling_order() {
    let p = BindsPressed { show_find: true, download: true, full_screen: true, clear_screen: true, ..BindsPressed::default() };
    assert_eq!(
        key_bind_actions(p, false),
        vec![BindAction::ClearScreen, BindAction::SetFullscreen(true), BindAction::SelectProtocol(true), BindAction::ShowFind]
    );
    let q = BindsPressed { full_screen: true, upload: true, hangup: true, ..BindsPressed::default() };
    assert_eq!(
        key_bind_actions(q, true),
        vec![BindAction::Hangup, BindAction::SetFullscreen(false), BindAction::SelectProtocol(false)]
    );
    let all = BindsPressed {
        clear_screen: true,
        dialing_directory: true,
        hangup: true,
        send_login_pw: true,
        show_settings: true,
        show_capture: true,
        quit: true,
        full_screen: true,
        upload: true,
        download: true,
        show_find: true,
    };
    assert_eq!(key_bind_actions(all, false).len(), 11);
}

#[test]
fn debug_trace_escapes() {
    assert_eq!(debug_escape(b'\\'), "\\\\");
    assert_eq!(debug_escape(b'\n'), "\\n\n");
    assert_eq!(debug_escape(b'\r'), "\\r");
    assert_eq!(debug_escape(b'"'), "\\\"");
    assert_eq!(debug_escape(0x1B), "\\x1B");
    assert_eq!(debug_escape(0x7F), "\\x7F");
    assert_eq!(debug_escape(0x00), "\\x00");
    assert_eq!(debug_escape(0xC4), "\\u{C4}");
    assert_eq!(debug_escape(b'A'), "A");
    assert_eq!(debug_escape(b' '), " ");
    assert_eq!(debug_escape(b'~'), "~");
}

fn quiet_toolbar() -> ToolbarInput {
    ToolbarInput {
        fullscreen: false,
        terminal_shown: true,
        upload_clicked: false,
        download_clicked: false,
        auto_login: None,
        login_clicked: false,
        dialing_directory_clicked: false,
        iemsi_available: false,
        showing_iemsi: false,
        iemsi_clicked: false,
        sound_playing: false,
        stop_sound_clicked: false,
        capture_session: false,
        stop_capture_clicked: false,
        hangup_clicked: false,
        capture_menu_clicked: false,
        settings_menu_clicked: false,
    }
}

#[test]
fn toolbar_clicks() {
    assert!(toolbar_actions(quiet_toolbar()).is_empty());
    let i = ToolbarInput { upload_clicked: true, hangup_clicked: true, settings_menu_clicked: true, ..quiet_toolbar() };
    assert_eq!(toolbar_actions(i), vec![ToolbarAction::SelectProtocol(false), ToolbarAction::Hangup, ToolbarAction::ShowSettings]);
    let hidden = ToolbarInput { fullscreen: true, upload_clicked: true, ..quiet_toolbar() };
    assert!(toolbar_actions(hidden).is_empty());
    let disabled = ToolbarInput { terminal_shown: false, hangup_clicked: true, ..quiet_toolbar() };
    assert!(toolbar_actions(disabled).is_empty());
}

#[test]
fn toolbar_buttons_act_only_when_shown() {
    let login = ToolbarInput { auto_login: Some(false), login_clicked: true, ..quiet_toolbar() };
    assert_eq!(toolbar_actions(login), vec![ToolbarAction::SendLogin]);
    let done = ToolbarInput { auto_login: Some(true), login_clicked: true, ..quiet_toolbar() };
    assert!(toolbar_actions(done).is_empty());
    let iemsi = ToolbarInput { iemsi_available: true, showing_iemsi: true, iemsi_clicked: true, ..quiet_toolbar() };
    assert_eq!(toolbar_actions(iemsi), vec![ToolbarAction::ShowIemsi(false)]);
    let no_iemsi = ToolbarInput { iemsi_clicked: true, ..quiet_toolbar() };
    assert!(toolbar_actions(no_iemsi).is_empty());
    let sound = ToolbarInput { sound_playing: true, stop_sound_clicked: true, capture_session: true, stop_capture_clicked: true, ..quiet_toolbar() };
    assert_eq!(toolbar_actions(sound), vec![ToolbarAction::StopSound, ToolbarAction::StopCapture]);
    let silent = ToolbarInput { stop_sound_clicked: true, stop_capture_clicked: true, ..quiet_toolbar() };
    assert!(toolbar_actions(silent).is_empty());
    assert_eq!(stop_sound_label(0), 0);
    assert_eq!(stop_sound_label(4), 4);
    assert_eq!(stop_sound_label(5), 5);
    assert_eq!(stop_sound_label(9), 5);
}
