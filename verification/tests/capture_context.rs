use std::collections::HashMap;

use nuphus::capture_context::{
    screen_coordinate_units, Bounds, CaptureCache, CaptureContext, Placed, WindowReport,
    WindowSnapshot,
};
use nuphus::hashing::digest_of_bytes;

fn context() -> CaptureContext {
    CaptureContext {
        capture_id: "capture".into(),
        coordinate_space: "screen",
        coordinate_units: screen_coordinate_units(false),
        scope: "window",
        screen_bounds: Bounds {
            x: -1000,
            y: 50,
            width: 800,
            height: 600,
        },
        image_width: 1600,
        image_height: 1200,
        target: None,
        captured_at: String::new(),
        path: String::new(),
        fingerprint: 0,
        elements: HashMap::new(),
        consumed: false,
    }
}

fn seen() -> Vec<Placed> {
    vec![Placed {
        id: 4,
        x: 800,
        y: 400,
    }]
}

#[test]
fn converts_retina_and_negative_origin_without_model_math() {
    let capture = context();
    assert_eq!(capture.screen_point(800, 400).unwrap(), (-600, 250));
    assert!(capture.screen_point(1600, 0).is_err());
    assert!(capture.screen_point(-1, 0).is_err());
}

#[test]
fn moved_or_replaced_window_requires_fresh_observation() {
    let window = WindowSnapshot {
        hwnd: 3,
        process_id: 2,
        title: "A".into(),
        bounds: context().screen_bounds,
    };
    let mut capture = context();
    capture.target = Some(window.clone());
    assert!(capture.validate_window(Some(&window)).is_ok());
    let mut moved = window.clone();
    moved.bounds.x += 1;
    assert!(capture.validate_window(Some(&moved)).is_err());
    let mut replaced = window;
    replaced.process_id += 1;
    assert!(capture.validate_window(Some(&replaced)).is_err());
}

#[test]
fn candidate_mapping_is_scoped_and_click_cannot_be_replayed() {
    let mut cache = CaptureCache::default();
    cache.insert(context());
    cache.set_elements("capture", &seen()).unwrap();
    assert_eq!(cache.resolve("capture", 4).unwrap().1, (-600, 250));
    assert!(cache.resolve("capture", 5).is_err());
    assert!(cache.resolve("other", 4).is_err());
    cache.consume("capture").unwrap();
    assert!(cache.resolve("capture", 4).is_err());
    assert!(cache.consume("capture").is_err());
    assert!(cache.validate("capture", Ok(0)).is_err());
}

#[test]
fn raw_input_invalidates_previously_observed_elements() {
    let mut cache = CaptureCache::default();
    cache.insert(context());
    cache.set_elements("capture", &seen()).unwrap();
    cache.invalidate();
    assert!(cache.resolve("capture", 4).is_err());
}

#[test]
fn capture_names_native_screen_units() {
    let value = context();
    assert_eq!(value.coordinate_space, "screen");
    assert_eq!(value.coordinate_units, screen_coordinate_units(false));
    assert_eq!(screen_coordinate_units(true), "logical_points");
    assert_eq!(screen_coordinate_units(false), "physical_pixels");
}

#[test]
fn replacing_a_capture_path_retires_the_previous_capture_id() {
    let mut cache = CaptureCache::default();
    cache.insert(context());
    cache.set_elements("capture", &seen()).unwrap();
    let mut newer = context();
    newer.capture_id = "newer".into();
    cache.insert(newer);
    assert!(cache.resolve("capture", 4).is_err());
    assert!(cache.resolve("newer", 4).is_err());
    cache.set_elements("newer", &seen()).unwrap();
    assert_eq!(cache.resolve("newer", 4).unwrap().1, (-600, 250));
}

#[test]
fn bounds_exclude_right_and_bottom_edge() {
    let bounds = context().screen_bounds;
    assert!(bounds.contains(-1000, 50));
    assert!(!bounds.contains(-200, 50));
    assert!(!bounds.contains(-500, 650));
}

#[test]
fn new_capture_has_an_id_and_the_print_of_its_file() {
    let make = || {
        CaptureContext::new(
            Ok("/tmp/a.bmp".to_string()),
            Ok(vec![1, 2, 3]),
            context().screen_bounds,
            (1600, 1200),
            "window",
            None,
            false,
        )
        .unwrap()
    };
    let (a, b) = (make(), make());
    assert_eq!(a.capture_id.len(), 36);
    assert_ne!(a.capture_id, b.capture_id);
    assert_eq!(a.fingerprint, digest_of_bytes(&vec![1, 2, 3]));
    assert_ne!(a.fingerprint, digest_of_bytes(&vec![1, 2, 4]));
    assert!(a.captured_at.contains('T'));
    let failed = CaptureContext::new(
        Err("gone".to_string()),
        Ok(Vec::new()),
        context().screen_bounds,
        (1, 1),
        "screen",
        None,
        true,
    );
    assert_eq!(failed.unwrap_err(), "无法读取截图路径: gone");
}

#[test]
fn changed_file_is_refused() {
    let mut cache = CaptureCache::default();
    let mut c = context();
    c.fingerprint = 9;
    cache.insert(c);
    assert!(cache.validate("capture", Ok(9)).is_ok());
    assert!(cache.validate("capture", Ok(8)).is_err());
    assert!(cache.validate("capture", Err("gone".to_string())).is_err());
    assert!(cache.validate("none", Ok(9)).is_err());
}

#[test]
fn hidden_window_cannot_be_captured() {
    let report = |minimized, visible| WindowReport {
        minimized: Some(minimized),
        visible: Some(visible),
        bounds: Some(context().screen_bounds),
        process_id: Some(7),
        title: Some("T".to_string()),
    };
    assert!(WindowSnapshot::from_info(1, &report(true, true)).is_err());
    assert!(WindowSnapshot::from_info(1, &report(false, false)).is_err());
    let w = WindowSnapshot::from_info(1, &report(false, true)).unwrap();
    assert_eq!((w.hwnd, w.process_id, w.title.as_str()), (1, 7, "T"));
}
