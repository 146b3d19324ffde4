use samp_cef::audio::{queue_now, AudioState, SourceRef};
use samp_cef::crash::{exception_library, make_report, module_count, CrashGuard, Module, Registers};
use samp_cef::locations::{cef_dir, launcher_dir};
use samp_cef::render::{material_step, FrameCounter, MaterialStep};
use samp_cef::text::str_contains;
use samp_cef::values::PaintElement;
use samp_cef::view::{clear, update_popup, update_texture, BrowserView, ContainerKind, Rect};
use samp_cef::web_client::{ClientState, DrawData};

fn rect(x: i32, y: i32, width: i32, height: i32) -> Rect {
    Rect { x, y, width, height }
}

#[test]
fn texture_rows_are_copied() {
    // a 2x2 texture, rows 8 bytes apart
    let frame: Vec<u8> = (1..=16).collect();
    let mut dest = vec![0u8; 16];
    update_texture(&mut dest, 8, &frame, &[rect(1, 0, 1, 2)]);
    assert_eq!(dest, vec![0, 0, 0, 0, 5, 6, 7, 8, 0, 0, 0, 0, 13, 14, 15, 16]);
    update_texture(&mut dest, 8, &frame, &[rect(0, 0, 2, 1), rect(0, 1, 1, 1)]);
    assert_eq!(dest, frame);
}

#[test]
fn popup_rows_go_to_its_place() {
    let popup: Vec<u8> = vec![1, 1, 1, 1, 2, 2, 2, 2];
    let mut dest = vec![0u8; 24]; // 2 pixels wide, 3 rows
    update_popup(&mut dest, 8, &popup, rect(1, 1, 1, 2));
    assert_eq!(
        dest,
        vec![0, 0, 0, 0, 0, 0, 0, 0, 0, 0, 0, 0, 1, 1, 1, 1, 0, 0, 0, 0, 2, 2, 2, 2]
    );
    clear(&mut dest);
    assert_eq!(dest, vec![0u8; 24]);
}

#[test]
fn view_sizes() {
    let mut v = BrowserView::new();
    assert_eq!(v.rect(), rect(0, 0, 1, 1));
    v.make_display(0, 300);
    assert_eq!((v.width, v.height), (1, 300));
    assert_eq!(v.container, Some(ContainerKind::Display));
    assert_eq!(v.resize(true, 1, 300), None);
    assert_eq!(v.resize(true, 640, 480), Some(ContainerKind::Material));
    assert_eq!(v.rect(), rect(0, 0, 640, 480));
    v.on_lost_device();
    assert_eq!(v.container, None);
    assert_eq!(v.resize(false, 640, 480), Some(ContainerKind::Display));
    v.make_inactive();
    assert_eq!(v.resize(false, 10, 10), None);
    assert_eq!((v.width, v.height, v.active), (1, 1, false));
    v.make_active();
    assert_eq!(v.resize(false, 10, 10), Some(ContainerKind::Display));
}

#[test]
fn paints_are_taken() {
    let mut d = DrawData::new();
    assert!(!d.on_paint(true, PaintElement::View, vec![rect(0, 0, 1, 1)], &[0; 4], 1, 1));
    assert!(!d.changed);
    assert!(d.on_paint(false, PaintElement::View, vec![rect(0, 0, 1, 1)], &[0; 4], 1, 1));
    assert!(d.changed && d.has_buffer);
    assert_eq!(d.rects, vec![rect(0, 0, 1, 1)]);

    d.on_popup_size(rect(2, 3, 1, 2));
    assert_eq!(d.popup_buffer, vec![0u8; 8]);
    assert!(!d.on_paint(false, PaintElement::Popup, vec![], &[7; 8], 1, 2));
    assert_eq!(d.popup_buffer, vec![7u8; 8]);
    assert!(!d.on_paint(false, PaintElement::Popup, vec![], &[9; 3], 1, 2));
    assert_eq!(d.popup_buffer, vec![7u8; 8]);

    d.on_popup_show(true);
    d.on_popup_show(false);
    assert!(d.popup_buffer.is_empty());
    assert!(d.popup_was_before);
    assert!(d.on_paint(false, PaintElement::View, vec![rect(0, 0, 4, 4)], &[0; 4], 1, 1));
    assert_eq!(d.rects, vec![rect(0, 0, 4, 4), rect(2, 3, 1, 2)]);
    assert!(!d.popup_was_before);
}

#[test]
fn view_updates() {
    let frame: Vec<u8> = (1..=16).collect();
    let mut d = DrawData::new();
    d.on_paint(false, PaintElement::View, vec![rect(0, 0, 2, 2)], &frame, 2, 2);
    let size = rect(0, 0, 2, 2);

    let mut dest = vec![0u8; 16];
    let u = samp_cef::web_client::update_view(&d, true, false, size, &frame, &mut dest, 8);
    assert!(!u.frame && !u.popup);
    assert_eq!(dest, vec![0u8; 16]);

    let u = samp_cef::web_client::update_view(&d, false, false, rect(0, 0, 3, 2), &frame, &mut dest, 8);
    assert!(!u.frame);
    assert_eq!(dest, vec![0u8; 16]);

    let u = samp_cef::web_client::update_view(&d, false, false, size, &frame, &mut dest, 8);
    assert!(u.frame && !u.popup);
    assert_eq!(dest, frame);

    let mut bad = DrawData::new();
    bad.on_paint(false, PaintElement::View, vec![rect(1, 1, 2, 2)], &frame, 2, 2);
    let mut dest = vec![0u8; 16];
    let u = samp_cef::web_client::update_view(&bad, false, false, size, &frame, &mut dest, 8);
    assert!(!u.frame);
    assert_eq!(dest, vec![0u8; 16]);
}

#[test]
fn hiding_and_showing() {
    let mut c = ClientState::new(3);
    let a = c.set_hidden(true, true);
    assert_eq!(a.host_hidden, Some(true));
    assert!(a.clear_view && !a.invalidate);
    assert_eq!(a.mute, Some(true));
    assert!(c.hidden);
    let a = c.on_lost_device(false);
    assert_eq!(a.host_hidden, None);
    assert!(c.hidden);
    c.set_hidden(false, false);
    let lost = c.on_lost_device(true);
    assert!(lost.clear_view);
    assert!(!c.hidden);
    let back = c.restore_hide_status(true);
    assert_eq!(back.host_hidden, Some(false));
    assert!(back.invalidate);
    assert_eq!(back.mute, Some(false));

    let mut e = ClientState::new_extern(4);
    assert!(e.audio_handler());
    let (a, muted) = e.on_after_created();
    assert!(muted);
    assert_eq!(a.mute, None);
    e.close();
    assert!(e.closing);
}

#[test]
fn objects_of_a_browser() {
    let mut c = ClientState::new_extern(1);
    c.add_object(5);
    c.add_object(6);
    c.add_object(5);
    assert_eq!(c.objects, vec![5, 6]);
    c.remove_object(5);
    assert_eq!(c.objects, vec![6]);
    c.remove_object(9);
    assert_eq!(c.objects, vec![6]);
}

#[test]
fn streams_and_sources() {
    let mut a = AudioState::new();
    a.create_stream(1, 10, 2, 48000, 480);
    a.create_stream(1, 11, 2, 48000, 480);
    a.create_stream(2, 10, 1, 44100, 441);
    let added = a.add_source(1, 7);
    assert_eq!(
        added,
        vec![
            SourceRef { browser: 1, stream_id: 10, object_id: 7 },
            SourceRef { browser: 1, stream_id: 11, object_id: 7 }
        ]
    );
    assert!(a.add_source(1, 7).is_empty());
    assert!(a.streams[0].sources[0].muted);
    assert_eq!(a.set_object_settings(7).len(), 2);
    assert!(!a.streams[0].sources[0].muted);
    assert!(a.set_object_settings(7).is_empty());
    assert_eq!(a.object_mute(7).len(), 2);
    a.remove_source(1, 7);
    assert!(a.streams[0].sources.is_empty());
    a.remove_stream(1, 10);
    assert_eq!(a.streams.len(), 2);
    assert_eq!((a.streams[0].browser, a.streams[0].stream_id), (1, 11));
    a.remove_all_streams(1);
    assert_eq!(a.streams.len(), 1);
    assert_eq!(a.streams[0].browser, 2);
}

#[test]
fn pieces_of_sound_wait_in_order() {
    let mut a = AudioState::new();
    a.create_stream(1, 10, 2, 48000, 480);
    assert!(a.accept_pcm(480, true, 1000, 1005));
    assert!(!a.accept_pcm(480, true, 1006, 1005));
    assert!(!a.accept_pcm(0, true, 1000, 1005));
    assert!(!a.accept_pcm(480, false, 1000, 1005));
    assert!(a.insert_pending(1, 10, 30));
    assert!(a.insert_pending(1, 10, 10));
    assert!(a.insert_pending(1, 10, 20));
    assert!(a.insert_pending(1, 10, 20));
    assert!(!a.insert_pending(1, 99, 20));
    assert_eq!(a.streams[0].pending, vec![10, 20, 30]);
    a.played(0, 20, 480);
    assert_eq!(a.drop_played(0), vec![10, 20]);
    assert_eq!(a.streams[0].pending, vec![30]);
    assert!(a.set_paused(true));
    assert!(a.streams[0].pending.is_empty());
    assert!(!a.set_paused(true));
    assert!(!a.accept_pcm(480, true, 0, 5));
    assert!(!a.gain_applies());
    assert!(!a.set_paused(false));
    assert!(a.gain_applies());
}

#[test]
fn queueing_decision() {
    assert!(queue_now(100, 98, 0));
    assert!(queue_now(100, 102, 0));
    assert!(!queue_now(100, 97, 0));
    assert!(queue_now(100, 50, 100));
    assert!(!queue_now(100, 50, 110));
}

#[test]
fn crash_reports_name_the_module() {
    let modules = vec![
        Module { name: "gta_sa.exe".to_string(), addr: 0x400000, size: 0x100000 },
        Module { name: "samp.dll".to_string(), addr: 0x10000000, size: 0x200000 },
        Module { name: "inner.dll".to_string(), addr: 0x10100000, size: 0x1000 },
    ];
    assert_eq!(exception_library(&modules, 0x400010), "gta_sa.exe");
    assert_eq!(exception_library(&modules, 0x10000100), "samp.dll");
    assert_eq!(exception_library(&modules, 0x10100100), "inner.dll");
    assert_eq!(exception_library(&modules, 0x500000), "Unknown module");
    assert_eq!(exception_library(&vec![], 1), "Unknown module");
    let regs = Registers { eax: 1, ebx: 2, ecx: 3, edx: 4, esi: 5, edi: 6, ebp: 7, esp: 8 };
    let r = make_report(10, 20, 0x10000000, 0x10000100, 0xC0000005, regs, modules);
    assert_eq!(r.exception_library, "samp.dll");
    assert_eq!(r.modules.len(), 3);
    assert_eq!(module_count(4096), 1024);
}

#[test]
fn only_the_first_crash_is_reported() {
    let mut g = CrashGuard::new();
    assert!(g.begin());
    assert!(!g.begin());
    assert!(!g.begin());
}

#[test]
fn frame_rate_every_ten_frames() {
    let mut c = FrameCounter::new();
    for _ in 0..9 {
        assert_eq!(c.calc_frames(0), None);
    }
    assert_eq!(c.calc_frames(200), Some(50));
    assert_eq!(c.frames, 0);
    assert_eq!(c.last_fps, 50);
    assert_eq!(c.calc_frames(0), None);
}

#[test]
fn materials_showing_a_browser() {
    assert_eq!(material_step(None, "tv", false, Some((64, 64)), 2), MaterialStep::Skip);
    assert_eq!(material_step(Some("wall"), "tv", false, Some((64, 64)), 2), MaterialStep::Skip);
    assert_eq!(
        material_step(Some("cj_tv_screen"), "tv_screen", false, Some((64, 32)), 2),
        MaterialStep::CreateThenReplace { width: 128, height: 64 }
    );
    assert_eq!(material_step(Some("cj_tv_screen"), "tv", true, None, 2), MaterialStep::Replace);
    assert_eq!(material_step(Some("cj_tv_screen"), "tv", false, None, 2), MaterialStep::Skip);
}

#[test]
fn substring_search() {
    assert!(str_contains("--lp=C:\\x", "--lp"));
    assert!(str_contains("abc", ""));
    assert!(str_contains("abc", "abc"));
    assert!(!str_contains("ab", "abc"));
    assert!(!str_contains("a-lp", "--lp"));
}

#[test]
fn launcher_names_the_cef_directory() {
    let args = vec!["gta_sa.exe".to_string(), "--lp".to_string(), "D:\\Games\\SAMP".to_string()];
    assert_eq!(launcher_dir(&args), Some("D:\\Games\\SAMP".to_string()));
    assert_eq!(cef_dir(&args, Some("C:\\gta".to_string())), "D:\\Games\\SAMP\\cef");
    let last = vec!["gta_sa.exe".to_string(), "x--lpy".to_string()];
    assert_eq!(launcher_dir(&last), None);
    assert_eq!(cef_dir(&last, Some("C:\\gta".to_string())), "C:\\gta\\cef");
    assert_eq!(cef_dir(&vec![], None), ".\\cef");
}

#[test]
fn reset_device_remakes_screen_textures() {
    let mut c = ClientState::new(1);
    c.set_hidden(true, true);
    let (remake, a) = c.on_reset_device(true);
    assert!(remake);
    assert!(a.clear_view);
    let mut e = ClientState::new_extern(2);
    let (remake, a) = e.on_reset_device(true);
    assert!(!remake);
    assert!(a.invalidate);
    assert_eq!(a.mute, None);
}

#[test]
fn cef_command_line_and_files() {
    let v = samp_cef::cef_setup::command_line_switches();
    let names: Vec<&str> = v.iter().map(|s| s.name.as_str()).collect();
    assert_eq!(
        names,
        vec![
            "disable-gpu-compositing",
            "disable-gpu",
            "enable-begin-frame-scheduling",
            "autoplay-policy",
            "enable-media-stream"
        ]
    );
    assert_eq!(v[3].value.as_deref(), Some("no-user-gesture-required"));
    assert!(v[0].value.is_none());
    let p = samp_cef::cef_setup::CefPaths::in_cef_dir("D:\\SAMP\\cef");
    assert_eq!(p.subprocess, "D:\\SAMP\\cef\\renderer.exe");
    assert_eq!(p.cache, "D:\\SAMP\\cef\\cache");
    assert_eq!(p.locales, "D:\\SAMP\\cef\\locales");
    assert_eq!(p.resources, "D:\\SAMP\\cef");
    assert_eq!(p.log_file, "D:\\SAMP\\cef\\cef.log");
    assert_eq!(p.user_data, "D:\\SAMP\\cef\\user_data");
    assert_eq!(samp_cef::cef_setup::WINDOWLESS_FRAME_RATE, 60);
}

#[test]
fn adding_then_removing_a_source_restores_the_stream() {
    let mut a = AudioState::new();
    a.create_stream(1, 10, 2, 48000, 480);
    a.add_source(1, 3);
    a.add_source(1, 4);
    a.remove_source(1, 4);
    assert_eq!(a.streams[0].sources.len(), 1);
    assert_eq!(a.streams[0].sources[0].object_id, 3);
    a.remove_source(2, 3);
    assert_eq!(a.streams[0].sources.len(), 1);
}

#[test]
fn a_drawn_frame_is_not_drawn_again() {
    let frame: Vec<u8> = (1..=16).collect();
    let mut d = DrawData::new();
    d.on_paint(false, PaintElement::View, vec![rect(0, 0, 2, 2)], &frame, 2, 2);
    let mut dest = vec![0u8; 16];
    let u = samp_cef::web_client::update_view(&d, false, false, rect(0, 0, 2, 2), &frame, &mut dest, 8);
    assert!(u.frame);
    d.frame_drawn();
    assert!(!d.changed);
    assert_eq!(d.rects, vec![rect(0, 0, 2, 2)]);
    let mut dest = vec![0u8; 16];
    let u = samp_cef::web_client::update_view(&d, false, false, rect(0, 0, 2, 2), &frame, &mut dest, 8);
    assert!(!u.frame);
    assert_eq!(dest, vec![0u8; 16]);
}
