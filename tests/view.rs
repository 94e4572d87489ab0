use image_viewer::backbuffer::{align_up, BackBufferSize};
use image_viewer::browse::StepDirection;
use image_viewer::capture::{
    bgra_bottom_up_to_rgba, calc_capture_area, find_monitor_by_id, position_of_hash, CaptureArea,
    CaptureError, DisplayBounds,
};
use image_viewer::geometry::{
    client_rect_on_screen, compute_client_rect, desktop_work_area, fits_work_area, Rect,
};
use image_viewer::input::{
    decode_mouse_pos, decode_size, key_command, wheel_zooms_in, x_button_step, KeyCommand,
};
use image_viewer::viewer::{DisplayedImage, FrameGate, LoadOutcome, LoadedTexture};

#[test]
fn align_up_to_blocks() {
    assert_eq!(align_up(0, 512), 0);
    assert_eq!(align_up(1, 512), 512);
    assert_eq!(align_up(512, 512), 512);
    assert_eq!(align_up(513, 512), 1024);
}

#[test]
fn backbuffer_grows_only() {
    let mut b = BackBufferSize::new();
    let requests = [(500, 500), (400, 300), (512, 512), (513, 100), (800, 600), (1000, 1000), (1025, 10)];
    let mut reallocations = Vec::new();
    for r in requests {
        reallocations.push(b.request(r));
    }
    assert_eq!(reallocations, vec![true, false, false, true, true, false, true]);
    assert_eq!(b.dim, Some((1536, 1024)));
    let mut again = 0;
    for r in [(100, 100), (1536, 512), (0, 0)] {
        if b.request(r) {
            again += 1;
        }
    }
    assert_eq!(again, 0);
    let mut c = BackBufferSize { dim: Some((1024, 512)) };
    assert!(c.request((100, 1000)));
    assert_eq!(c.dim, Some((1024, 1024)));
}

fn loaded(tex: u32, w: u32, h: u32, name: &str) -> LoadedTexture<u32> {
    LoadedTexture { texture: tex, width: w, height: h, name: name.to_string() }
}

#[test]
fn failed_load_changes_nothing() {
    let mut shown: DisplayedImage<u32> = DisplayedImage::new();
    assert_eq!(shown.apply_load(Some(loaded(1, 640, 480, "a.png"))), LoadOutcome::Recentered);
    assert_eq!(shown.apply_load(None), LoadOutcome::Failed);
    assert_eq!(shown.texture, Some(1));
    assert_eq!(shown.image_dim, (640, 480));
    assert_eq!(shown.title, "a.png");
}

#[test]
fn recenter_only_on_size_change() {
    let mut shown: DisplayedImage<u32> = DisplayedImage::new();
    assert_eq!(shown.texture, None);
    assert_eq!(shown.apply_load(Some(loaded(1, 640, 480, "a.png"))), LoadOutcome::Recentered);
    assert_eq!(shown.apply_load(Some(loaded(2, 800, 600, "b.png"))), LoadOutcome::Recentered);
    assert_eq!(shown.apply_load(Some(loaded(3, 800, 600, "c.png"))), LoadOutcome::ViewKept);
    assert_eq!(shown.texture, Some(3));
    assert_eq!(shown.title, "c.png");
}

#[test]
fn frame_gate_draws_after_queue_drains() {
    let mut g = FrameGate::new();
    assert!(g.ready_to_draw());
    g.on_frame_drawn();
    assert_eq!(g.frame_number, 1);
    assert!(!g.ready_to_draw());
    g.on_message(true);
    assert!(!g.ready_to_draw());
    g.on_message(false);
    g.on_idle();
    assert!(g.ready_to_draw());
    g.on_frame_drawn();
    g.on_message(false);
    g.on_idle();
    assert!(!g.ready_to_draw());
    assert!(!g.should_exit);
    g.request_exit();
    assert!(g.should_exit);
    let mut w = FrameGate { frame_number: u32::MAX, ..FrameGate::new() };
    w.on_frame_drawn();
    assert_eq!(w.frame_number, 0);
}

#[test]
fn packed_input_words() {
    assert_eq!(decode_mouse_pos(0x0014_000a), (10, 20));
    assert_eq!(decode_mouse_pos(0xfffe_ffff), (-1, -2));
    assert_eq!(decode_size(0x0258_0320), (800, 600));
    assert!(wheel_zooms_in(0x0078_0000));
    assert!(!wheel_zooms_in(0xff88_0000));
    assert_eq!(x_button_step(0x0001_0000), Some(StepDirection::Backward));
    assert_eq!(x_button_step(0x0002_0020), Some(StepDirection::Forward));
    assert_eq!(x_button_step(0x0003_0000), None);
}

#[test]
fn key_commands() {
    assert_eq!(key_command(0x1b, false), KeyCommand::Quit);
    assert_eq!(key_command(0x24, false), KeyCommand::ResetView);
    assert_eq!(key_command(0x25, false), KeyCommand::PreviousImage);
    assert_eq!(key_command(0x27, false), KeyCommand::NextImage);
    assert_eq!(key_command(0x0d, false), KeyCommand::ToggleFullScreen);
    assert_eq!(key_command(0x31, false), KeyCommand::ZoomLevel(0));
    assert_eq!(key_command(0x35, false), KeyCommand::ZoomLevel(4));
    assert_eq!(key_command(0x36, false), KeyCommand::Ignored);
    assert_eq!(key_command(0x41, false), KeyCommand::Ignored);
    assert_eq!(key_command(0x56, true), KeyCommand::Paste);
    assert_eq!(key_command(0x56, false), KeyCommand::Ignored);
    assert_eq!(key_command(0x43, true), KeyCommand::CopyFrame);
    assert_eq!(key_command(0x2d, true), KeyCommand::CopyFrame);
    assert_eq!(key_command(0x1b, true), KeyCommand::Quit);
}

#[test]
fn window_rects() {
    let r = compute_client_rect((500, 400), (1920, 1080));
    assert_eq!(r, Rect { left: 710, top: 340, right: 1210, bottom: 740 });
    assert_eq!(r.dim(), (500, 400));
    assert_eq!(Rect::make_empty_rect().dim(), (0, 0));
    let client = Rect { left: 0, top: 0, right: 300, bottom: 200 };
    let window = Rect { left: 50, top: 60, right: 400, bottom: 300 };
    assert_eq!(client_rect_on_screen(client, window), Rect { left: 50, top: 60, right: 350, bottom: 260 });
    assert_eq!(desktop_work_area((1920, 1040)), Rect { left: 0, top: 0, right: 1920, bottom: 1040 });
    assert!(fits_work_area((800, 600), (1920, 1040)));
    assert!(!fits_work_area((1920, 600), (1920, 1040)));
}

#[test]
fn capture_area_clipping() {
    let d = DisplayBounds { x: 1920, y: 0, width: 1280, height: 1024 };
    assert_eq!(calc_capture_area(100, 50, 640, 480, &d), Ok(CaptureArea { x: 100, y: 50, w: 640, h: 480 }));
    assert_eq!(calc_capture_area(-100, -20, 640, 480, &d), Ok(CaptureArea { x: 0, y: 0, w: 540, h: 460 }));
    assert_eq!(calc_capture_area(1000, 900, 640, 480, &d), Ok(CaptureArea { x: 1000, y: 900, w: 280, h: 124 }));
    assert_eq!(calc_capture_area(1300, 0, 100, 100, &d), Err(CaptureError::EmptyArea));
    assert_eq!(calc_capture_area(0, 0, 0, 10, &d), Err(CaptureError::EmptyArea));
}

#[test]
fn monitor_found_by_name_hash() {
    let names = vec!["\\\\.\\DISPLAY1".to_string(), "\\\\.\\DISPLAY2".to_string()];
    let id = fxhash::hash32("\\\\.\\DISPLAY2".as_bytes());
    assert_eq!(find_monitor_by_id(&names, id), Some(1));
    assert_eq!(position_of_hash(&vec![3, 7, 7], 7), Some(1));
    assert_eq!(position_of_hash(&vec![3, 7], 9), None);
}

#[test]
fn captured_rows_flip_and_swap() {
    let data: Vec<u8> = vec![
        1, 2, 3, 4, 5, 6, 7, 8, // bottom row
        9, 10, 11, 12, 13, 14, 15, 16, // top row
    ];
    let out = bgra_bottom_up_to_rgba(&data, 2, 2);
    assert_eq!(out, vec![11, 10, 9, 12, 15, 14, 13, 16, 3, 2, 1, 4, 7, 6, 5, 8]);
    assert_eq!(bgra_bottom_up_to_rgba(&Vec::new(), 3, 0), Vec::<u8>::new());
}
