use auto_voice::fonts::{
    font_stack, install_ui_fonts, is_supported_font_path, regular_style_rank,
    system_cjk_font_candidates, system_font_directories, Entry, EntryKind, FaceNames, FontCatalog,
    FontLoadReport, FontStep, FontWalk, SystemFont,
};
use auto_voice::hotkey_ipc::{
    ensure_no_running_instance, socket_path, PttMessage, Server, ALREADY_RUNNING,
};
use auto_voice::order::tidied;
use auto_voice::platform::{
    begin_overlay_setup, capabilities, compositing_after, hide_main_window,
    hyprland_active_workspace_id, hyprland_main_window_address, hyprland_park_main_window,
    hyprland_restore_main_window, is_hyprland_session, is_wayland_session, main_window_among,
    overlay_fallback_origin, overlay_origin, prepare_overlay_window, show_main_window, visible_region, wants_color_key,
    with_bits, without_bits, Capability, HalfPoint, HidePlan, OverlayCompositing, OverlaySetup,
    Platform, ScreenRect, ShowPlan, WS_BORDER, WS_CAPTION, WS_EX_LAYERED,
};

#[test]
fn capability_labels_are_user_facing() {
    assert_eq!(Capability::Available.label(), "可用");
    assert_eq!(Capability::Degraded.label(), "受限");
}

#[test]
fn custom_font_extensions_are_case_insensitive() {
    assert!(is_supported_font_path("ui.ttf"));
    assert!(is_supported_font_path("ui.OTF"));
    assert!(is_supported_font_path("ui.TtC"));
    assert!(is_supported_font_path("ui.otc"));
    assert!(!is_supported_font_path("ui.woff2"));
    assert!(!is_supported_font_path("ui"));
}

#[test]
fn regular_faces_are_preferred_for_family_selection() {
    assert!(regular_style_rank("Regular") < regular_style_rank("Bold"));
    assert!(regular_style_rank("Normal") < regular_style_rank("Italic"));
}

#[test]
fn hidden_files_have_no_extension() {
    assert!(!is_supported_font_path(".ttf"));
    assert!(is_supported_font_path("a.b.ttf"));
    assert!(!is_supported_font_path("ttf."));
    assert!(!is_supported_font_path(""));
}

#[test]
fn styles_are_ranked() {
    assert_eq!(regular_style_rank(" REGULAR "), 0);
    assert_eq!(regular_style_rank("Book"), 0);
    assert_eq!(regular_style_rank("roman"), 0);
    assert_eq!(regular_style_rank("Semi-Regular"), 1);
    assert_eq!(regular_style_rank("Light"), 2);
    assert_eq!(regular_style_rank(""), 2);
}

#[test]
fn platforms_have_their_limits() {
    let c = capabilities(&Platform::Windows);
    assert_eq!((c.platform_name.as_str(), c.session_name), ("Windows", "Win32"));
    assert_eq!(c.permission_hint, None);
    let c = capabilities(&Platform::MacOs);
    assert_eq!(c.global_ptt, Capability::PermissionRequired);
    let c = capabilities(&Platform::Linux { wayland: true, hyprland: false });
    assert_eq!((c.platform_name.as_str(), c.session_name), ("Linux", "Wayland"));
    assert_eq!(c.global_ptt, Capability::Degraded);
    assert_eq!(c.overlay_position, Capability::Degraded);
    assert_eq!(c.synthetic_paste, Capability::Degraded);
    assert!(c.permission_hint.is_some());
    let c = capabilities(&Platform::Linux { wayland: true, hyprland: true });
    assert_eq!(c.global_ptt, Capability::Available);
    assert_eq!(c.overlay_position, Capability::Available);
    let c = capabilities(&Platform::Linux { wayland: false, hyprland: false });
    assert_eq!((c.session_name, c.permission_hint), ("X11", None));
    let c = capabilities(&Platform::Other("haiku".into()));
    assert_eq!(c.platform_name, "haiku");
    assert_eq!(c.permission_hint, Some("当前平台尚未经过支持验证。"));
    assert_eq!(Capability::PermissionRequired.label(), "需要授权");
}

#[test]
fn sessions_are_recognised() {
    assert!(is_hyprland_session(true, None));
    assert!(is_hyprland_session(false, Some("sway:HyprLand")));
    assert!(!is_hyprland_session(false, Some("GNOME")));
    assert!(!is_hyprland_session(false, None));
    assert!(is_wayland_session(true, None));
    assert!(is_wayland_session(false, Some("WAYLAND")));
    assert!(!is_wayland_session(false, Some("wayland ")));
}

#[test]
fn the_window_is_hidden_as_the_session_allows() {
    assert_eq!(hide_main_window(true, true), HidePlan::Park);
    assert_eq!(hide_main_window(true, false), HidePlan::Minimize);
    assert_eq!(hide_main_window(false, false), HidePlan::Unmap);
    assert_eq!(show_main_window(true, true), ShowPlan::Restore);
    assert_eq!(show_main_window(true, false), ShowPlan::Nothing);
    assert_eq!(show_main_window(false, false), ShowPlan::MapAndFocus);
}

const CLIENTS: &str = "[{\"class\":\"foot\",\"address\":\"0x1\"},{\"title\":\"x\"},\
{\"class\":\"io.github.billowsand.auto-voice\",\"address\":\"0x2\"},\
{\"class\":\"io.github.billowsand.auto-voice\",\"address\":\"0x3\"}]";

#[test]
fn the_settings_window_is_found_among_others() {
    assert_eq!(
        hyprland_main_window_address(true, CLIENTS.as_bytes()),
        Some("0x2".to_string())
    );
    assert_eq!(hyprland_main_window_address(false, CLIENTS.as_bytes()), None);
    assert_eq!(hyprland_main_window_address(true, b"{}"), None);
    assert_eq!(hyprland_main_window_address(true, b"[{"), None);
    assert_eq!(hyprland_active_workspace_id(true, b"{\"id\": -98}"), Some(-98));
    assert_eq!(hyprland_active_workspace_id(true, b"{\"id\": \"3\"}"), None);
    assert_eq!(hyprland_active_workspace_id(false, b"{\"id\": 3}"), None);
}

#[test]
fn a_window_without_an_address_hides_later_ones() {
    let class = Some("io.github.billowsand.auto-voice".to_string());
    let list = vec![(class.clone(), None), (class, Some("0x9".to_string()))];
    assert_eq!(main_window_among(&list), None);
}

#[test]
fn compositor_commands_are_spelled_out() {
    assert_eq!(
        hyprland_park_main_window(false, "0x2"),
        "movetoworkspacesilent special:auto-voice,address:0x2"
    );
    assert_eq!(
        hyprland_park_main_window(true, "0x2"),
        "hl.dsp.window.move({ workspace = \"special:auto-voice\", window = \"address:0x2\" })"
    );
    assert_eq!(
        hyprland_restore_main_window(false, Some(3), "0x2"),
        vec!["movetoworkspace 3,address:0x2", "focuswindow address:0x2"]
    );
    assert_eq!(
        hyprland_restore_main_window(true, Some(-1), "0x2"),
        vec![
            "hl.dsp.window.move({ workspace = \"-1\", window = \"address:0x2\" })",
            "hl.dsp.focus({ window = \"address:0x2\" })"
        ]
    );
    assert_eq!(
        hyprland_restore_main_window(true, None, "0x2"),
        vec!["hl.dsp.focus({ window = \"address:0x2\" })"]
    );
}

#[test]
fn the_overlay_stands_in_the_middle_of_the_work_area() {
    let size = (760, 260);
    let work = ScreenRect { left: 0, top: 0, right: 1920, bottom: 1040 };
    assert_eq!(overlay_origin(Some(work), size), Some(HalfPoint { x: 2 * 580, y: 2 * 390 }));
    let beside = ScreenRect { left: -1281, top: 40, right: 0, bottom: 1024 };
    assert_eq!(
        overlay_origin(Some(beside), size),
        Some(HalfPoint { x: -1281 - 760, y: 40 + 1024 - 260 })
    );
    assert_eq!(overlay_origin(None, size), None);
}

#[test]
fn the_overlay_starts_above_the_taskbar() {
    let size = (760, 260);
    assert_eq!(
        overlay_fallback_origin(size, (1920, 1080)),
        HalfPoint { x: 2 * 580, y: 2 * 710 }
    );
    assert_eq!(overlay_fallback_origin(size, (800, 300)), HalfPoint { x: 40, y: 16 });
    assert_eq!(overlay_fallback_origin(size, (0, 0)), HalfPoint { x: 16, y: 16 });
}

#[test]
fn the_overlay_stays_on_a_small_screen() {
    let size = (760, 260);
    let tiny = ScreenRect { left: 50, top: 60, right: 100, bottom: 100 };
    assert_eq!(overlay_origin(Some(tiny), size), Some(HalfPoint { x: 2 * 58, y: 2 * 68 }));
    let tight = ScreenRect { left: 0, top: 0, right: 776, bottom: 277 };
    assert_eq!(overlay_origin(Some(tight), size), Some(HalfPoint { x: 16, y: 17 }));
}

#[test]
fn compositing_is_asked_for_or_keyed() {
    assert_eq!(prepare_overlay_window("x"), Some(OverlayCompositing::PerPixelAlpha));
    assert!(OverlayCompositing::PerPixelAlpha.blends());
    assert!(!OverlayCompositing::ColorKey.blends());
    assert!(wants_color_key(Some(" ColorKey ")));
    assert!(!wants_color_key(Some("alpha")));
    assert!(!wants_color_key(None));
    assert_eq!(begin_overlay_setup(false, Some("colorkey")), OverlaySetup::Retry);
    assert_eq!(begin_overlay_setup(true, Some("colorkey")), OverlaySetup::UseColorKey);
    assert_eq!(begin_overlay_setup(true, None), OverlaySetup::AskForBlending);
    assert_eq!(compositing_after(-1), OverlayCompositing::ColorKey);
    assert_eq!(compositing_after(0), OverlayCompositing::PerPixelAlpha);
    let r = ScreenRect { left: 10, top: 10, right: 770, bottom: 270 };
    assert_eq!(visible_region(r), Some((1, 1, 759, 259)));
    let wide = ScreenRect { left: i32::MIN, top: 0, right: i32::MAX, bottom: 1 };
    assert_eq!(visible_region(wide), None);
}

#[test]
fn window_styles_are_set_and_cleared() {
    assert_eq!(with_bits(1, WS_EX_LAYERED), 0x0008_0001);
    assert_eq!(without_bits(0x0008_0001, WS_EX_LAYERED), 1);
    assert_eq!(without_bits(0x00CF_0000, WS_CAPTION | WS_BORDER), 0x000F_0000);
}

// ── Fonts ────────────────────────────────────────────────────────────────────

fn face(family: &str, style: &str) -> Option<FaceNames> {
    Some(FaceNames {
        typographic_family: None,
        family: Some(family.to_string()),
        typographic_style: None,
        style: Some(style.to_string()),
        index: None,
    })
}

fn listed(catalog: &FontCatalog) -> Vec<(String, usize, u32)> {
    catalog
        .list_system_fonts()
        .into_iter()
        .map(|f| (f.family, f.file, f.face_index))
        .collect()
}

#[test]
fn the_most_regular_face_stands_for_its_family() {
    let mut c = FontCatalog::new();
    c.add_faces(0, &vec![face("Zeta", "Bold"), None, face("  ", "Regular")]);
    c.add_faces(1, &vec![face("alpha", "Semi Regular")]);
    c.add_faces(2, &vec![face("ALPHA", "Regular")]);
    c.add_faces(3, &vec![face("Alpha", "Normal"), face("Mid", "Italic")]);
    assert_eq!(
        listed(&c),
        vec![("ALPHA".to_string(), 2, 0), ("Mid".to_string(), 3, 0), ("Zeta".to_string(), 0, 0)]
    );
    let mut f = face("Zeta", "Regular").unwrap();
    f.typographic_family = Some("Zeta".to_string());
    f.typographic_style = Some("Black".to_string());
    f.index = Some(4);
    c.add_faces(4, &vec![Some(f)]);
    assert_eq!(listed(&c)[2], ("Zeta".to_string(), 0, 0));
}

#[test]
fn font_files_are_read() {
    let fonts = eframe::egui::FontDefinitions::default();
    let mut c = FontCatalog::new();
    c.add_file(0, &fonts.font_data["Ubuntu-Light"].font);
    c.add_file(1, &fonts.font_data["Hack"].font);
    c.add_file(2, b"no font at all");
    assert_eq!(listed(&c), vec![("Hack".to_string(), 1, 0), ("Ubuntu".to_string(), 0, 0)]);
}

#[test]
fn directories_are_walked_depth_first() {
    let entry = |path: &str, kind: EntryKind| Entry {
        path: path.to_string(),
        kind,
        name: Some(path.rsplit('/').next().unwrap().to_string()),
    };
    let mut w = FontWalk::new(vec!["/a".to_string(), "/b".to_string()]);
    assert_eq!(w.next_directory(), Some("/b".to_string()));
    w.visit(vec![
        entry("/b/x.ttf", EntryKind::File),
        entry("/b/sub", EntryKind::Directory),
        entry("/b/readme.txt", EntryKind::File),
        entry("/b/pipe.ttf", EntryKind::Other),
    ]);
    assert_eq!(w.next_directory(), Some("/b/sub".to_string()));
    w.visit(vec![entry("/b/sub/y.OTF", EntryKind::File)]);
    assert_eq!(w.next_directory(), Some("/a".to_string()));
    assert_eq!(w.next_directory(), None);
    assert_eq!(w.into_files(), vec!["/b/x.ttf", "/b/sub/y.OTF"]);
}

#[test]
fn font_directories_follow_the_platform() {
    let linux = Platform::Linux { wayland: false, hyprland: false };
    let dirs = system_font_directories(&linux, &None, &None, &Some("/home/u".into()));
    let flat: Vec<(String, Option<&str>)> = dirs.into_iter().map(|d| (d.base, d.below)).collect();
    assert_eq!(
        flat,
        vec![
            ("/usr/share/fonts".to_string(), None),
            ("/usr/local/share/fonts".to_string(), None),
            ("/home/u".to_string(), Some(".local/share/fonts")),
            ("/home/u".to_string(), Some(".fonts")),
        ]
    );
    let win = system_font_directories(&Platform::Windows, &None, &Some("L".into()), &None);
    assert_eq!((win[0].base.as_str(), win[0].below), ("C:\\Windows", Some("Fonts")));
    assert_eq!(win[1].below, Some("Microsoft\\Windows\\Fonts"));
    let mac = system_font_directories(&Platform::MacOs, &None, &None, &None);
    assert_eq!(mac.len(), 2);
    assert!(system_cjk_font_candidates(&Platform::Other("x".into())).is_empty());
    assert_eq!(system_cjk_font_candidates(&Platform::Windows)[1], "msyh.ttc");
    assert_eq!(system_cjk_font_candidates(&linux).len(), 4);
}

fn system(families: &[&str]) -> Vec<SystemFont> {
    families
        .iter()
        .enumerate()
        .map(|(i, f)| SystemFont { family: f.to_string(), file: i, face_index: 0 })
        .collect()
}

#[test]
fn chosen_fonts_are_loaded_or_complained_about() {
    let fonts = system(&["Noto Sans", "Hack", "hack"]);
    let chosen = vec!["  ".to_string(), " HACK ".to_string(), "Missing".to_string()];
    let steps = install_ui_fonts(&chosen, &fonts);
    assert_eq!(steps.len(), 2);
    match &steps[0] {
        FontStep::Load { name, font, family } => {
            assert_eq!((name.as_str(), *font, family.as_str()), ("auto_voice_custom_1", 1, "HACK"))
        }
        FontStep::Complain(m) => panic!("{m}"),
    }
    match &steps[1] {
        FontStep::Complain(m) => assert_eq!(m, "Missing：系统中未找到该字体"),
        FontStep::Load { name, .. } => panic!("{name}"),
    }
    let mut report = FontLoadReport::default();
    report.read("HACK", None);
    report.read("B", Some("denied".into()));
    report.complained("Missing：系统中未找到该字体".into());
    assert_eq!(report.loaded, 1);
    assert_eq!(report.errors, vec!["B：denied", "Missing：系统中未找到该字体"]);
}

#[test]
fn chosen_fonts_are_tried_first() {
    let custom = vec!["c1".to_string(), "c2".to_string()];
    let built_in = vec!["Ubuntu".to_string()];
    assert_eq!(
        font_stack(&custom, &built_in, Some("cjk".into())),
        vec!["c1", "c2", "Ubuntu", "cjk"]
    );
    assert_eq!(font_stack(&Vec::new(), &built_in, None), vec!["Ubuntu"]);
}

#[test]
fn names_are_tidied() {
    let list = ["b", "A", "a", "A", "B", "b"].iter().map(|s| s.to_string()).collect();
    assert_eq!(tidied(list), vec!["A", "a", "A", "b", "B", "b"]);
    let list = ["É", "é", "z"].iter().map(|s| s.to_string()).collect();
    assert_eq!(tidied(list), vec!["z", "É", "é"]);
}

// ── The hotkey socket ────────────────────────────────────────────────────────

#[test]
fn hotkey_messages_survive_the_wire() {
    for m in [PttMessage::Press, PttMessage::Release, PttMessage::Ping] {
        assert_eq!(PttMessage::from_bytes(&m.to_bytes()), Some(m));
    }
    assert_eq!(PttMessage::Press.to_bytes(), b"press");
    assert_eq!(PttMessage::Release.to_bytes(), b"release");
    assert_eq!(PttMessage::Ping.to_bytes(), b"ping");
    assert_eq!(PttMessage::from_bytes(b"pres"), None);
}

#[test]
fn the_socket_server_follows_presses() {
    let (mut s, stale) = Server::start("/tmp/s".into(), true, false).ok().unwrap();
    assert!(stale && !s.held);
    assert!(s.receive(b"press") && s.held);
    assert!(s.receive(b"ping") && s.held);
    assert!(!s.receive(b"what") && s.held);
    assert!(s.receive(b"release") && !s.held);
    assert_eq!(Server::start("/tmp/s".into(), true, true).err(), Some(ALREADY_RUNNING));
    assert_eq!(ensure_no_running_instance(true, true), Err("Auto Voice is already running"));
    assert_eq!(ensure_no_running_instance(false, true), Ok(()));
    assert_eq!(
        socket_path(None, "/tmp/".into()),
        "/tmp/auto-voice-ptt.sock"
    );
}
