use vzense_rust::device::{default_resolution, Resolution};
use vzense_rust::status::get_message;
use vzense_rust::util::Counter;

#[test]
fn counter_reports_every_interval() {
    let mut c = Counter::new(3);
    assert_eq!(c.fps_frame_count_info(), None);
    assert_eq!(c.fps_frame_count_info(), None);
    assert_eq!(c.fps_frame_count_info(), Some(3));
    assert_eq!(c.fps_frame_count_info(), None);
    assert_eq!(c.fps_frame_count_info(), None);
    assert_eq!(c.fps_frame_count_info(), Some(6));
    assert_eq!(c.count, 6);
}

#[test]
fn counter_with_interval_one_always_reports() {
    let mut c = Counter::new(1);
    assert_eq!(c.fps_frame_count_info(), Some(1));
    assert_eq!(c.fps_frame_count_info(), Some(2));
}

#[test]
fn status_messages_by_code() {
    assert_eq!(get_message(0), "OK");
    assert_eq!(get_message(-11), "GET_FRAME_READY_TIME_OUT");
    assert_eq!(get_message(-101), "REINITIALIZED");
    assert_eq!(get_message(-255), "OTHERS");
    assert_eq!(get_message(7), "_");
    assert_eq!(get_message(-26), "_");
}

#[test]
fn resolution_accessors() {
    let r = Resolution::new(640, 480);
    assert_eq!(r.to_array(), [640, 480]);
    assert_eq!(r.to_tuple(), (640, 480));
    assert_eq!(r.to_pixel_count(), 307_200);
}

#[test]
fn resolution_double_scales_both_sides() {
    let r = Resolution::new(800, 600);
    let d = r.double();
    assert_eq!(d.to_tuple(), (1600, 1200));
    assert_eq!(d.to_pixel_count(), 1_920_000);
}

#[test]
fn default_resolution_is_vga() {
    let r = default_resolution();
    assert_eq!(r.to_tuple(), (640, 480));
    assert_eq!(r.to_pixel_count(), 307_200);
    assert_eq!(r, Resolution::new(640, 480));
}
