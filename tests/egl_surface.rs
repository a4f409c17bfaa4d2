use wayland_egl::counting::{CountingEgl, EglReply};
use wayland_egl::egl::{Cleanup, EglCall, WlEglSurface};

fn create(egl: &mut CountingEgl, surface: String, surface_id: usize, w: i32, h: i32) -> WlEglSurface<String> {
    match egl.perform(WlEglSurface::<String>::create_call(surface_id, w, h)) {
        EglReply::Window(win) => WlEglSurface::new(surface, surface_id, win),
        other => panic!("creation answered {:?}", other),
    }
}

fn size(egl: &mut CountingEgl, s: &WlEglSurface<String>) -> (i32, i32) {
    match egl.perform(s.get_size()) {
        EglReply::Size(w, h) => (w, h),
        other => panic!("size query answered {:?}", other),
    }
}

fn drop_surface(egl: &mut CountingEgl, s: WlEglSurface<String>) {
    for step in s.drop_cleanup() {
        egl.perform_cleanup(step);
    }
}

#[test]
fn create_call_passes_arguments_through() {
    assert_eq!(
        WlEglSurface::<String>::create_call(7, -3, 0),
        EglCall::WindowCreate { surface: 7, width: -3, height: 0 }
    );
}

#[test]
fn calls_name_the_held_window() {
    let s = WlEglSurface::new(String::from("wl_surface"), 10, 42);
    assert_eq!(s.get_size(), EglCall::WindowGetAttachedSize { window: 42 });
    assert_eq!(
        s.resize(1, 2, 3, 4),
        EglCall::WindowResize { window: 42, width: 1, height: 2, dx: 3, dy: 4 }
    );
    assert_eq!(s.egl_surface_ptr(), 42);
    assert_eq!(s.egl_surfaceptr(), 42);
    assert_eq!(s.surface_ptr(), 10);
    assert_eq!(s.surface_ref(), "wl_surface");
}

#[test]
fn drop_cleanup_destroys_window_then_surface() {
    let s = WlEglSurface::new(String::from("wl_surface"), 10, 42);
    assert_eq!(
        s.drop_cleanup(),
        vec![
            Cleanup::Egl(EglCall::WindowDestroy { window: 42 }),
            Cleanup::DestroySurface { surface: 10 },
        ]
    );
}

#[test]
fn destroy_hands_surface_back() {
    let s = WlEglSurface::new(String::from("wl_surface"), 10, 42);
    let (surface, call) = s.destroy();
    assert_eq!(surface, "wl_surface");
    assert_eq!(call, EglCall::WindowDestroy { window: 42 });
}

#[test]
fn size_after_create() {
    let mut egl = CountingEgl::new();
    let s = create(&mut egl, String::from("a"), 5, 320, 200);
    assert_eq!(size(&mut egl, &s), (320, 200));
}

#[test]
fn size_follows_last_resize() {
    let mut egl = CountingEgl::new();
    let s = create(&mut egl, String::from("a"), 5, 320, 200);
    assert_eq!(egl.perform(s.resize(100, 50, 7, -7)), EglReply::Done);
    assert_eq!(size(&mut egl, &s), (100, 50));
    egl.perform(s.resize(30, 40, 0, 0));
    egl.perform(s.resize(31, 41, -5, 9));
    assert_eq!(size(&mut egl, &s), (31, 41));
}

#[test]
fn one_native_destroy_when_dropped() {
    let mut egl = CountingEgl::new();
    let s = create(&mut egl, String::from("a"), 5, 1, 1);
    let win = s.egl_surface_ptr();
    egl.perform(s.resize(2, 2, 0, 0));
    drop_surface(&mut egl, s);
    assert_eq!(egl.destroy_count(win), 1);
    assert_eq!(egl.surface_destroy_count(5), 1);
    assert!(!egl.is_live(win));
}

#[test]
fn one_native_destroy_when_destroyed() {
    let mut egl = CountingEgl::new();
    let s = create(&mut egl, String::from("a"), 5, 1, 1);
    let win = s.egl_surface_ptr();
    let (surface, call) = s.destroy();
    egl.perform(call);
    assert_eq!(surface, "a");
    assert_eq!(egl.destroy_count(win), 1);
    assert_eq!(egl.surface_destroy_count(5), 0);
    assert!(!egl.is_live(win));
}

#[test]
fn raw_handle_stable_then_fresh() {
    let mut egl = CountingEgl::new();
    let s = create(&mut egl, String::from("a"), 5, 1, 1);
    let first = s.egl_surface_ptr();
    assert_ne!(first, 0);
    egl.perform(s.resize(9, 9, 1, 1));
    assert_eq!(s.egl_surface_ptr(), first);
    let (surface, call) = s.destroy();
    egl.perform(call);
    let t = create(&mut egl, surface, 5, 1, 1);
    assert_ne!(t.egl_surface_ptr(), first);
    assert_ne!(t.egl_surface_ptr(), 0);
}

#[test]
fn counts_other_windows_apart() {
    let mut egl = CountingEgl::new();
    let a = create(&mut egl, String::from("a"), 5, 1, 1);
    let b = create(&mut egl, String::from("b"), 6, 2, 2);
    assert_ne!(a.egl_surface_ptr(), b.egl_surface_ptr());
    let wa = a.egl_surface_ptr();
    let wb = b.egl_surface_ptr();
    drop_surface(&mut egl, a);
    assert_eq!(egl.destroy_count(wa), 1);
    assert_eq!(egl.destroy_count(wb), 0);
    assert!(egl.is_live(wb));
    assert_eq!(size(&mut egl, &b), (2, 2));
    assert_eq!(egl.surface_destroy_count(6), 0);
}

#[test]
fn create_resize_destroy_recreate() {
    let mut egl = CountingEgl::new();
    let s = create(&mut egl, String::from("wl_surface"), 11, 800, 600);
    assert_eq!(size(&mut egl, &s), (800, 600));
    egl.perform(s.resize(1024, 768, 0, 0));
    assert_eq!(size(&mut egl, &s), (1024, 768));
    let (surface, call) = s.destroy();
    egl.perform(call);
    assert_eq!(surface, "wl_surface");
    let t = create(&mut egl, surface, 11, 640, 480);
    assert_eq!(size(&mut egl, &t), (640, 480));
    assert_eq!(egl.surface_destroy_count(11), 0);
}

#[test]
fn availability_is_stable() {
    assert_eq!(wayland_egl::egl::is_available(), wayland_egl::egl::is_available());
}
