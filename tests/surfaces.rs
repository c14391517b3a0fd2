use wl_bg_gallery::config::Config;
use wl_bg_gallery::image_file::ImageFile;
use wl_bg_gallery::output::{Output, OutputEvent, SurfaceAction, SurfaceState};
use wl_bg_gallery::wl_app::{WlApp, FORMAT_ARGB8888};

fn configured_output(width: u32, height: u32) -> Output {
    let mut o = Output::new();
    o.on_mode(width, height);
    o.on_done();
    o.on_configure(1);
    o.take_ack();
    o
}

#[test]
fn new_output_has_no_surface() {
    let o = Output::new();
    assert_eq!(o.state, SurfaceState::NoSurface);
    assert!(o.configure_pending());
    assert!(o.image_list.is_empty());
    assert_eq!(o.next_redraw, None);
    assert!(!o.mode_usable());
}

#[test]
fn memory_sizes() {
    let mut o = Output::new();
    o.mode_width = 1920;
    o.mode_height = 1080;
    assert!(o.mode_usable());
    assert_eq!(o.get_memory_size(), 1920 * 1080 * 4);
    assert_eq!(o.get_memory_size_i32(), 8_294_400);
    assert_eq!(o.get_stride_i32(), 7680);
    o.mode_width = 40_000;
    o.mode_height = 20_000;
    assert!(!o.mode_usable());
}

#[test]
fn done_creates_a_surface_once() {
    let mut o = Output::new();
    assert_eq!(o.on_done(), None);
    assert_eq!(o.on_mode(800, 600), Some(SurfaceAction::Teardown));
    assert_eq!(o.on_mode(800, 600), None);
    assert_eq!(o.on_done(), Some(SurfaceAction::Create { width: 800, height: 600, size: 1_920_000 }));
    assert_eq!(o.state, SurfaceState::AwaitingConfigure);
    assert_eq!(o.on_done(), None);
}

#[test]
fn only_the_latest_configure_serial_is_acknowledged() {
    let mut o = Output::new();
    o.on_configure(3);
    assert_eq!(o.serial_to_ack, None);
    o.on_mode(800, 600);
    o.on_done();
    o.on_configure(5);
    o.on_configure(7);
    assert_eq!(o.take_ack(), Some(SurfaceAction::AckConfigure { serial: 7 }));
    assert_eq!(o.state, SurfaceState::Ready);
    assert_eq!(o.take_ack(), None);
}

#[test]
fn no_redraw_while_awaiting_configure() {
    let mut o = Output::new();
    o.image_list = vec![0];
    o.on_mode(800, 600);
    o.on_done();
    o.on_configure(9);
    assert_eq!(o.begin_redraw(0, 1000), None);
    assert_eq!(o.state, SurfaceState::AwaitingConfigure);
    assert_eq!(o.next_redraw, None);
}

#[test]
fn no_write_between_commit_and_release() {
    let mut o = configured_output(800, 600);
    o.image_list = vec![4, 2];
    assert_eq!(o.begin_redraw(0, 1000), Some(SurfaceAction::Draw { image: Some(4) }));
    assert_eq!(o.state, SurfaceState::PendingRedraw);
    // due again but the buffer is still held: the frame is kept
    assert_eq!(o.begin_redraw(1000, 1000), None);
    assert_eq!(o.state, SurfaceState::PendingRedraw);
    assert_eq!(o.next_redraw, Some(2000));
    assert_eq!(o.cursor, 1);
    assert_eq!(o.on_buffer_release(), Some(SurfaceAction::DestroyBuffer));
    assert_eq!(o.on_buffer_release(), None);
    assert_eq!(o.begin_redraw(1999, 1000), None);
    assert_eq!(o.begin_redraw(2000, 1000), Some(SurfaceAction::Draw { image: Some(2) }));
    assert_eq!(o.cursor, 0);
}

#[test]
fn empty_rotation_draws_a_fallback() {
    let mut o = configured_output(8, 8);
    assert_eq!(o.begin_redraw(0, 10), Some(SurfaceAction::Draw { image: None }));
}

#[test]
fn resize_resets_the_surface() {
    let mut o = configured_output(800, 600);
    o.image_list = vec![0];
    o.begin_redraw(0, 10);
    assert_eq!(o.on_mode(1024, 768), Some(SurfaceAction::Teardown));
    assert_eq!(o.state, SurfaceState::NoSurface);
    assert_eq!(o.next_redraw, None);
    assert_eq!(o.on_done(), Some(SurfaceAction::Create { width: 1024, height: 768, size: 3_145_728 }));
}

#[test]
fn setup_failure_tears_down() {
    let mut o = Output::new();
    o.on_mode(10, 10);
    o.on_done();
    assert_eq!(o.on_setup_failed(), SurfaceAction::Teardown);
    assert_eq!(o.state, SurfaceState::NoSurface);
}

#[test]
fn events_route_to_their_output() {
    let mut app = WlApp::new(Config::default(None), Vec::new());
    assert!(app.add_output(7));
    assert!(!app.add_output(7));
    assert!(app.add_output(9));
    assert_eq!(app.dispatch(7, OutputEvent::Name { name: "DP-1".to_string() }), None);
    assert_eq!(app.dispatch(7, OutputEvent::Mode { width: 4, height: 2 }), Some(SurfaceAction::Teardown));
    assert_eq!(app.dispatch(7, OutputEvent::Done), Some(SurfaceAction::Create { width: 4, height: 2, size: 32 }));
    assert_eq!(app.dispatch(3, OutputEvent::Done), None);
    assert_eq!(app.output_map[0].name, "DP-1");
    assert_eq!(app.output_map[1].state, SurfaceState::NoSurface);
    assert_eq!(app.find_output(9), Some(1));
    let removed = app.remove_output(7).unwrap();
    assert_eq!(removed.id, 7);
    assert_eq!(app.find_output(7), None);
    assert!(app.remove_output(7).is_none());
}

#[test]
fn argb8888_support() {
    let mut app = WlApp::new(Config::default(None), Vec::new());
    assert!(!app.supports_argb8888());
    app.add_format(1);
    assert!(!app.supports_argb8888());
    app.add_format(FORMAT_ARGB8888);
    assert!(app.supports_argb8888());
}

#[test]
fn wait_without_configured_outputs_is_the_interval() {
    let mut app = WlApp::new(Config::default(None), Vec::new());
    assert_eq!(app.wait_deadline(5), 15_000);
    app.add_output(1);
    app.dispatch(1, OutputEvent::Mode { width: 4, height: 4 });
    app.dispatch(1, OutputEvent::Done);
    assert_eq!(app.wait_deadline(5), 15_000);
}

fn ready_app() -> WlApp {
    let images = vec![
        ImageFile::new(4, 4, "a".to_string()),
        ImageFile::new(2, 2, "b".to_string()),
    ];
    let mut app = WlApp::new(Config::default(None), images);
    for id in [1u32, 2] {
        app.add_output(id);
        app.dispatch(id, OutputEvent::Mode { width: 4, height: 4 });
        app.dispatch(id, OutputEvent::Done);
        app.dispatch(id, OutputEvent::Configure { serial: 10 + id });
    }
    let acks = app.take_acks();
    assert_eq!(
        acks,
        vec![
            (1, SurfaceAction::AckConfigure { serial: 11 }),
            (2, SurfaceAction::AckConfigure { serial: 12 }),
        ]
    );
    assert_eq!(app.replan(), Ok(()));
    app
}

#[test]
fn scenario_b_outputs_stay_synchronized() {
    let mut app = ready_app();
    // nothing drawn yet: both due now
    assert_eq!(app.wait_deadline(0), 0);
    let draws = app.redraw_due(0);
    assert_eq!(draws.len(), 2);
    assert_eq!(draws[0].0, 1);
    assert_eq!(draws[1].0, 2);
    assert_eq!(app.output_map[0].next_redraw, Some(15_000));
    assert_eq!(app.output_map[1].next_redraw, Some(15_000));
    for id in [1u32, 2] {
        assert_eq!(app.dispatch(id, OutputEvent::BufferRelease), Some(SurfaceAction::DestroyBuffer));
    }
    assert_eq!(app.wait_deadline(10_000), 5_000);
    assert!(app.redraw_due(10_000).is_empty());
    assert_eq!(app.wait_deadline(15_000), 0);
    let draws = app.redraw_due(15_000);
    assert_eq!(draws.len(), 2);
    assert_eq!(app.output_map[0].next_redraw, Some(30_000));
    assert_eq!(app.output_map[1].next_redraw, Some(30_000));
}

#[test]
fn wait_is_the_least_remaining_time() {
    let mut app = ready_app();
    app.redraw_due(0);
    app.output_map[1].next_redraw = Some(4_000);
    assert_eq!(app.wait_deadline(1_000), 3_000);
    assert_eq!(app.wait_deadline(9_000), 0);
}

#[test]
fn replanning_an_empty_corpus_fails() {
    let mut app = WlApp::new(Config::default(None), Vec::new());
    app.add_output(1);
    assert!(app.replan().is_err());
}

#[test]
fn a_new_surface_replans_every_rotation() {
    let images = vec![
        ImageFile::new(800, 600, "a".to_string()),
        ImageFile::new(1920, 1080, "b".to_string()),
    ];
    let mut app = WlApp::new(Config::default(None), images);
    app.add_output(1);
    app.add_output(2);
    assert_eq!(app.on_output_event(1, OutputEvent::Mode { width: 1920, height: 1080 }), Some(SurfaceAction::Teardown));
    assert!(app.output_map[0].image_list.is_empty());
    assert_eq!(
        app.on_output_event(1, OutputEvent::Done),
        Some(SurfaceAction::Create { width: 1920, height: 1080, size: 8_294_400 })
    );
    // best fit: "b" fits output 1 exactly; "a" is a downsize there and fits
    // no class on output 2, which has no mode yet; output 2 gets everything
    assert_eq!(app.output_map[0].image_list, vec![1, 0]);
    assert_eq!(app.output_map[1].image_list, vec![0, 1]);
    assert_eq!(app.on_output_event(1, OutputEvent::Name { name: "HDMI-A-1".to_string() }), None);
    assert_eq!(app.output_map[0].image_list, vec![1, 0]);
}

#[test]
fn replan_follows_the_configured_policy() {
    let images: Vec<ImageFile> = (0..5).map(|i| ImageFile::new(10 + i, 10, "x".to_string())).collect();
    let mut config = Config::default(None);
    config.fit_type = wl_bg_gallery::config::FitType::NextFile;
    let mut app = WlApp::new(config, images);
    app.add_output(1);
    app.add_output(2);
    assert_eq!(app.replan(), Ok(()));
    assert_eq!(app.output_map[0].image_list, vec![0, 2, 4]);
    assert_eq!(app.output_map[1].image_list, vec![1, 3]);
}

#[test]
fn only_the_first_allocation_failure_is_fatal() {
    let mut app = WlApp::new(Config::default(None), Vec::new());
    app.add_output(1);
    app.on_output_event(1, OutputEvent::Mode { width: 4, height: 4 });
    app.on_output_event(1, OutputEvent::Done);
    assert_eq!(app.on_allocation_failure(1), Err(wl_bg_gallery::wl_app::AllocationError::FirstRegion));
    assert_eq!(app.output_map[0].state, SurfaceState::AwaitingConfigure);
    app.region_allocated();
    assert_eq!(app.on_allocation_failure(1), Ok(Some(SurfaceAction::Teardown)));
    assert_eq!(app.output_map[0].state, SurfaceState::NoSurface);
    assert_eq!(app.on_allocation_failure(5), Ok(None));
}
