use samp_cef::plugins::plugins_from_dir;
use samp_cef::components::{
    make_components, poll_player_stats, set_component_visible, HudComponent, HudEvent, HudState,
};
use samp_cef::plugins::{
    browser_created, call_connect, call_disconnect, call_dxreset, call_initialize, call_mainloop,
    gta_window_active, is_plugin_file, quit, window_active, ExtPlugin, ExternalManager,
};

#[test]
fn make_components_lists_the_hud() {
    let hud = make_components();
    assert_eq!(hud.entries.len(), 15);
    let radar = hud.position("radar").unwrap();
    assert_eq!(hud.entries[radar].1.addr, 0x58A330);
    assert!(!hud.entries[radar].1.is_part_of_interface());
    let health = hud.position("health").unwrap();
    assert!(hud.entries[health].1.is_part_of_interface());
    assert!(hud.position("nothing").is_none());
    let money = hud.position("money").unwrap();
    assert_eq!(hud.entries[money].1.origin_data, vec![0xCC, 0xCC]);
    assert_eq!(hud.entries[money].1.disabled_data, vec![0xE9, 0x90]);
    let clock = hud.position("clock").unwrap();
    assert!(!hud.entries[clock].1.save_origin);
}

#[test]
fn targets_of_interface_are_its_parts() {
    let hud = make_components();
    let all = hud.targets("interface");
    assert!(!all.is_empty());
    for &i in &all {
        assert!(hud.entries[i].1.is_part_of_interface());
    }
    let parts = hud.entries.iter().filter(|e| e.1.part_of_interface).count();
    assert_eq!(all.len(), parts);
    assert_eq!(hud.targets("radar"), vec![hud.position("radar").unwrap()]);
    assert!(hud.targets("unknown").is_empty());
}

#[test]
fn set_visible_saves_the_original_bytes_once() {
    let mut c = HudComponent {
        save_origin: true,
        part_of_interface: true,
        addr: 0x1000,
        origin_data: vec![0, 0],
        disabled_data: vec![0xC3, 0x90],
    };
    let hidden = c.set_visible(false, &[0x55, 0x8B]);
    assert_eq!(hidden, vec![0x90, 0xC3]);
    assert!(!c.save_origin);
    assert_eq!(c.origin_data, vec![0x8B, 0x55]);
    let shown = c.set_visible(true, &[0x90, 0xC3]);
    assert_eq!(shown, vec![0x55, 0x8B]);
    assert_eq!(c.origin_data, vec![0x8B, 0x55]);
}

#[test]
fn hud_requests_need_three_arguments() {
    match set_component_visible(3, "radar".to_string(), false) {
        Some(HudEvent::SetComponentVisible(n, v)) => {
            assert_eq!(n, "radar");
            assert!(!v);
        }
        _ => panic!("expected a request"),
    }
    assert!(set_component_visible(2, "radar".to_string(), false).is_none());
    assert!(matches!(poll_player_stats(3, true, 500), Some(HudEvent::PollPlayerStats(true, 500))));
    assert!(poll_player_stats(4, true, 500).is_none());
}

#[test]
fn hud_polling_state() {
    let mut s = HudState::new();
    assert!(!s.polling);
    assert_eq!(s.polling_interval_ms, 10000);
    assert!(!s.poll_due(20000));
    s.set_polling(true, 250);
    assert!(s.poll_due(250));
    assert!(!s.poll_due(249));
    assert!(s.visibility_changed(true));
    s.update_visible_state(true);
    assert!(!s.visibility_changed(true));
    s.set_polling(false, 250);
    assert!(!s.visibility_changed(false));
}

fn plugin(mainloop: bool, quit: bool) -> ExtPlugin {
    ExtPlugin {
        initialize: true,
        mainloop,
        dxreset: false,
        connect: mainloop,
        disconnect: false,
        quit,
        browser_created: quit,
    }
}

#[test]
fn entry_points_are_called_in_load_order() {
    let mut m = ExternalManager::new();
    m.add_plugin(plugin(true, false));
    m.add_plugin(plugin(false, true));
    m.add_plugin(plugin(true, true));
    let ext = Some(m);
    assert_eq!(call_mainloop(&ext), vec![0, 2]);
    assert_eq!(call_initialize(&ext), vec![0, 1, 2]);
    assert_eq!(call_dxreset(&ext), Vec::<usize>::new());
    assert_eq!(call_connect(&ext), vec![0, 2]);
    assert_eq!(call_disconnect(&ext), Vec::<usize>::new());
    assert_eq!(browser_created(&ext, 3, 200), vec![1, 2]);
    assert_eq!(call_mainloop(&None), Vec::<usize>::new());
}

#[test]
fn quit_calls_then_silences_plugins() {
    let mut m = ExternalManager::new();
    m.add_plugin(plugin(true, true));
    m.add_plugin(plugin(true, false));
    let mut ext = Some(m);
    assert_eq!(quit(&mut ext), vec![0]);
    assert_eq!(call_mainloop(&ext), Vec::<usize>::new());
    assert_eq!(quit(&mut ext), Vec::<usize>::new());
}

#[test]
fn window_activity_is_recorded() {
    let mut ext = Some(ExternalManager::new());
    assert!(gta_window_active(&ext));
    window_active(&mut ext, false);
    assert!(!gta_window_active(&ext));
    window_active(&mut ext, true);
    assert!(gta_window_active(&ext));
    let mut none: Option<ExternalManager> = None;
    window_active(&mut none, true);
    assert!(!gta_window_active(&none));
}

#[test]
fn plugin_files_are_dlls() {
    assert!(is_plugin_file("C:\\game\\cef\\plugins\\hud.dll"));
    assert!(!is_plugin_file("plugins/other.DLL"));
    assert!(!is_plugin_file("plugins/readme.txt"));
    assert!(!is_plugin_file("plugins/dll"));
}

#[test]
fn hud_ticks_report_changes_once() {
    let mut s = HudState::new();
    s.on_poll_request(true, 100, true);
    assert!(s.polling && s.is_hud_visible);
    assert_eq!(s.polling_interval_ms, 100);
    assert_eq!(s.end_tick(50, true), (false, false));
    assert_eq!(s.end_tick(100, false), (true, true));
    assert!(!s.is_hud_visible);
    assert_eq!(s.end_tick(10, false), (false, false));
    s.on_poll_request(false, 100, true);
    assert_eq!(s.end_tick(1000, false), (false, false));
    assert!(s.is_hud_visible);
}

#[test]
fn plugins_are_the_dlls_that_loaded() {
    let names = vec![
        "plugins\\a.dll".to_string(),
        "plugins\\notes.txt".to_string(),
        "plugins\\b.dll".to_string(),
        "plugins\\c.dll".to_string(),
    ];
    let loads = vec![Some(plugin(true, false)), Some(plugin(true, true)), None, Some(plugin(false, true))];
    let m = plugins_from_dir(&names, loads);
    assert_eq!(m.plugins.len(), 2);
    assert!(m.plugins[0].mainloop && !m.plugins[0].quit);
    assert!(!m.plugins[1].mainloop && m.plugins[1].quit);
    assert!(m.window_active);
}

#[test]
fn showing_after_many_calls_restores_the_original() {
    let mut c = HudComponent {
        save_origin: true,
        part_of_interface: true,
        addr: 0,
        origin_data: vec![0],
        disabled_data: vec![0xC3],
    };
    let mut mem = vec![0x55u8];
    for v in [false, false, true, false, false] {
        mem = c.set_visible(v, &mem);
    }
    assert_eq!(mem, vec![0xC3]);
    mem = c.set_visible(true, &mem);
    assert_eq!(mem, vec![0x55]);
}
