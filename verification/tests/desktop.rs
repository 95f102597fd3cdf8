use nuphus::capture_context::{Bounds, CaptureContext, WindowSnapshot};
use nuphus::desktop::{
    capture_scope, foreground_hwnd, Activation, ActivationEvent, InputPlan,
    capture_name, capture_once, captures_dir_path, check_unchanged, choose_window_handle,
    classify_window, dict_dir, extent, listed_title, ocr_engine, ocr_failure, ocr_text,
    ocr_timeout, region_of,
    resolve_models_dir, saved_name, search_region, AskedRegion, CaptureKind, CapturePurpose, ClickPlan, DesktopClient,
    Image, ListedWindow, Look, model_folders, ModelSources, MouseButton, OcrEngine, Perception, Seen,
    TitleLookup, WindowChoice,
    Region,
};
use nuphus::error::NuphusError;
use nuphus::find::Hit;
use nuphus::profile::Place;

fn bounds() -> Bounds {
    Bounds { x: 10, y: 20, width: 100, height: 50 }
}

fn window() -> WindowSnapshot {
    WindowSnapshot {
        hwnd: 3,
        process_id: 2,
        title: "A".into(),
        bounds: bounds(),
    }
}

#[test]
fn captured_elements_are_clicked_once() {
    let mut client = DesktopClient::new();
    let file = b"pixels".to_vec();
    let context = client
        .remember_capture(
            Ok("/tmp/a.bmp".to_string()),
            Ok(file.clone()),
            bounds(),
            (200, 100),
            "window",
            Some(window()),
            true,
        )
        .unwrap();
    let digest = context.fingerprint;
    let seen = vec![Seen { id: 1, x: 100, y: 50 }, Seen { id: 2, x: 500, y: 50 }];
    assert_eq!(
        client
            .keep_elements(&context, Ok("/tmp/a.bmp".to_string()), Ok(digest), &seen)
            .unwrap(),
        Perception::Recorded
    );
    let (_, point) = client.resolve_capture_element(&context.capture_id, 1).unwrap();
    assert_eq!(point, (60, 45));
    assert!(client.resolve_capture_element(&context.capture_id, 2).is_err());
    assert!(client
        .validate_capture_context(&context, Some(Ok(window())), Ok(digest))
        .is_ok());
    assert!(client
        .validate_capture_context(&context, Some(Ok(window())), Ok(digest ^ 1))
        .is_err());
    assert!(client.validate_capture_context(&context, None, Ok(digest)).is_err());
    client.consume_capture(&context.capture_id).unwrap();
    assert!(client.consume_capture(&context.capture_id).is_err());
    assert!(client.resolve_capture_element(&context.capture_id, 1).is_err());
}

/// A client with one capture of a window, and that capture.
fn captured() -> (DesktopClient, CaptureContext) {
    let mut client = DesktopClient::new();
    let context = client
        .remember_capture(
            Ok("/tmp/a.bmp".to_string()),
            Ok(b"pixels".to_vec()),
            bounds(),
            (200, 100),
            "window",
            Some(window()),
            true,
        )
        .unwrap();
    (client, context)
}

fn image(path: &str, digest: u64) -> Image {
    Image {
        path: Ok(path.to_string()),
        file: Ok(digest),
    }
}

fn look(window: WindowSnapshot, digest: u64) -> Look {
    Look {
        window: Some(Ok(window)),
        file: Ok(digest),
    }
}

fn moved() -> WindowSnapshot {
    WindowSnapshot {
        bounds: Bounds { x: 11, ..bounds() },
        ..window()
    }
}

#[test]
fn elements_are_remembered_where_both_looks_pass() {
    let (mut client, context) = captured();
    let digest = context.fingerprint;
    let seen = vec![Seen { id: 1, x: 100, y: 50 }, Seen { id: 2, x: 500, y: 50 }];
    let (found, kept) = client
        .perceive(
            image("/tmp/a.bmp", digest),
            look(window(), digest),
            look(window(), digest),
            image("/tmp/a.bmp", digest),
            &seen,
        )
        .unwrap();
    assert_eq!(found.map(|c| c.capture_id), Some(context.capture_id.clone()));
    assert_eq!(kept, Perception::Recorded);
    assert!(client.resolve_capture_element(&context.capture_id, 1).is_ok());
    assert!(client.resolve_capture_element(&context.capture_id, 2).is_err());
}

#[test]
fn elements_of_a_moved_window_are_not_remembered() {
    let seen = vec![Seen { id: 1, x: 100, y: 50 }];
    for (first, again) in [(moved(), window()), (window(), moved())] {
        let (mut client, context) = captured();
        let digest = context.fingerprint;
        let refused = client.perceive(
            image("/tmp/a.bmp", digest),
            look(first, digest),
            look(again, digest),
            image("/tmp/a.bmp", digest),
            &seen,
        );
        match refused {
            Err(NuphusError::Tool(words)) => assert_eq!(
                words,
                "目标窗口身份或位置已变化，请重新截图并感知；未发送点击"
            ),
            _ => panic!("the window moved"),
        }
        assert!(client.resolve_capture_element(&context.capture_id, 1).is_err());
    }
    let (mut client, context) = captured();
    let digest = context.fingerprint;
    let lost = Look {
        window: Some(Err(NuphusError::Tool("gone".to_string()))),
        file: Ok(digest),
    };
    match client.finish_perception(
        &Some(context.clone()),
        lost,
        Ok("/tmp/a.bmp".to_string()),
        Ok(digest),
        &seen,
    ) {
        Err(NuphusError::Tool(words)) => assert_eq!(words, "gone"),
        _ => panic!("the window is gone"),
    }
    assert!(client
        .finish_perception(
            &Some(context),
            look(window(), digest ^ 1),
            Ok("/tmp/a.bmp".to_string()),
            Ok(digest),
            &seen,
        )
        .is_err());
}

#[test]
fn other_images_are_reported_alone() {
    let (mut client, context) = captured();
    let digest = context.fingerprint;
    let seen = vec![Seen { id: 1, x: 100, y: 50 }];
    let (found, kept) = client
        .perceive(
            image("/tmp/b.bmp", 5),
            look(moved(), 5),
            look(moved(), 5),
            image("/tmp/b.bmp", 5),
            &seen,
        )
        .unwrap();
    assert!(found.is_none());
    assert_eq!(kept, Perception::Unknown);
    assert_eq!(kept.refusal(), None);
    assert!(client.resolve_capture_element(&context.capture_id, 1).is_err());
    let (_, replaced) = client
        .perceive(
            image("/tmp/a.bmp", digest),
            look(window(), digest),
            look(window(), digest),
            image("/tmp/b.bmp", digest),
            &seen,
        )
        .unwrap();
    assert_eq!(replaced, Perception::Replaced);
    assert_eq!(replaced.refusal(), Some("截图在感知期间被替换，请重新感知"));
    assert!(client.capture_of(Ok("/tmp/a.bmp".to_string()), Ok(digest ^ 1)).is_err());
    assert!(client
        .capture_of(Err("no such file".to_string()), Ok(digest))
        .is_err());
    assert!(client
        .capture_of(Ok("/tmp/b.bmp".to_string()), Ok(digest))
        .unwrap()
        .is_none());
}

#[test]
fn captures_are_saved_as_bitmaps() {
    let named = |name: &str| saved_name(Some(name), CapturePurpose::Screen, "1");
    assert_eq!(named("x.png"), "x.bmp");
    assert_eq!(named("x"), "x.bmp");
    assert_eq!(named("a.b.c"), "a.b.bmp");
    assert_eq!(named("x."), "x.bmp");
    assert_eq!(named(".hidden"), ".hidden.bmp");
    assert_eq!(named(".hidden.png"), ".hidden.bmp");
    assert_eq!(named(&named("x.png")), "x.bmp");
    for name in ["x.png", "x", "a.b.c", "x.", ".hidden", ".hidden.png", "图.像"] {
        assert_eq!(
            std::path::Path::new(name).with_extension("bmp"),
            std::path::PathBuf::from(named(name))
        );
    }
    assert_eq!(
        saved_name(None, CapturePurpose::Window(7), "20260101"),
        "window_7_20260101.bmp"
    );
}

#[test]
fn clicks_are_planned() {
    let mut client = DesktopClient::new();
    assert_eq!(
        client.mouse_click("left", 2),
        ClickPlan::Press { button: MouseButton::Left, presses: 2, pause: true }
    );
    assert_eq!(
        client.mouse_click("right", 1),
        ClickPlan::Press { button: MouseButton::Right, presses: 1, pause: false }
    );
    assert_eq!(
        client.mouse_click("left", 3),
        ClickPlan::Refused("clicks must be 1 or 2")
    );
    assert_eq!(
        client.mouse_click("up", 1),
        ClickPlan::Refused("unsupported mouse button")
    );
}

#[test]
fn window_is_chosen_without_guessing() {
    let listed = |title: &str, hwnd| ListedWindow { title: Some(title.to_string()), hwnd };
    let list = vec![listed("A", Some(1)), listed("B", Some(2)), listed("B", Some(3)), listed("C", None)];
    assert_eq!(
        choose_window_handle(Some(7), None, TitleLookup::Unsupported),
        WindowChoice::Handle(7)
    );
    assert_eq!(
        choose_window_handle(None, None, TitleLookup::Unsupported),
        WindowChoice::Refused("hwnd or title required")
    );
    assert_eq!(
        choose_window_handle(None, Some("A"), TitleLookup::Listed(&list)),
        WindowChoice::Handle(1)
    );
    match choose_window_handle(None, Some("B"), TitleLookup::Listed(&list)) {
        WindowChoice::Refused(words) => assert!(words.starts_with("窗口标题不唯一")),
        other => panic!("{other:?}"),
    }
    assert_eq!(
        choose_window_handle(None, Some("C"), TitleLookup::Listed(&list)),
        WindowChoice::Invalid
    );
    assert_eq!(
        choose_window_handle(None, Some("A"), TitleLookup::Native(Some(9))),
        WindowChoice::Handle(9)
    );
}

#[test]
fn windows_are_told_apart_by_kind() {
    assert_eq!(classify_window("Explorer.EXE", "", ""), "desktop");
    assert_eq!(classify_window("explorer.exe", "", "Docs"), "folder");
    assert_eq!(classify_window("x", "ConsoleWindowClass", ""), "terminal");
    assert_eq!(classify_window("x", "HwndWrapper[1]", ""), "native_app");
    assert_eq!(classify_window("x", "", "a - Visual Studio Code"), "ide");
    assert_eq!(classify_window("x", "", "命令提示符"), "terminal");
    assert_eq!(classify_window("x", "y", "z"), "generic");
}

#[test]
fn window_that_changed_is_captured_anew() {
    assert!(check_unchanged(&window(), &window()).is_ok());
    let mut moved = window();
    moved.bounds.x += 1;
    assert!(check_unchanged(&window(), &moved).is_err());
}

#[test]
fn requests_are_read() {
    let r = region_of(Some(-5), None, Some(30), None, 7, 8);
    assert_eq!((r.x, r.y, r.width, r.height), (-5, 0, 30, 8));
    assert_eq!(extent(10, 20, 110, 70), (100, 50));
    assert_eq!(ocr_engine("vision"), (OcrEngine::Vision, 120));
    assert_eq!(ocr_engine("other"), (OcrEngine::Paddle, 30));
    assert_eq!(ocr_timeout(OcrEngine::Vision), "视觉模型超时（120秒）");
    assert_eq!(ocr_timeout(OcrEngine::Paddle), "OCR 超时（30秒）");
    assert_eq!(Perception::Recorded.refusal(), None);
    assert!(Perception::Replaced.refusal().is_some());
    assert_eq!(ocr_failure(OcrEngine::Vision, "x"), "视觉模型调用失败: x");
    assert_eq!(ocr_failure(OcrEngine::Paddle, "x"), "x");
    assert_eq!(ocr_text(&vec!["a".to_string(), "b".to_string()]), "a\nb");
    assert_eq!(
        capture_name(CapturePurpose::Window(-4), "20260101_000000_000"),
        "window_-4_20260101_000000_000.bmp"
    );
    assert_eq!(capture_name(CapturePurpose::Text, "t"), "find_text_t.bmp");
    assert_eq!(listed_title("short"), "short");
}

#[test]
fn folders_are_found_in_turn() {
    let shown = |place: Place| format!("{}|{}", place.base, place.parts.join("/"));
    let some = |s: &str| Some(s.to_string());
    assert_eq!(shown(captures_dir_path(some(""), "/t".to_string())), "/t|nuphus/captures");
    assert_eq!(shown(captures_dir_path(None, "/t".to_string())), "/t|nuphus/captures");
    assert_eq!(shown(captures_dir_path(some("/c"), "/t".to_string())), "/c|");
    assert_eq!(shown(dict_dir(some("/x"), some("/d"), None)), "/x|");
    assert_eq!(shown(dict_dir(None, some("/d"), None)), "/d|dicts");
    assert_eq!(shown(dict_dir(None, None, None)), ".|Nuphus/dicts");
    let sources = ModelSources {
        env: some("/env"),
        data: some("/data"),
        exe: ["/a/b/c/d", "/a/b/c", "/a/b", "/a"].iter().map(|s| s.to_string()).collect(),
        cwd_parent: some("/w"),
        cwd: some("/w/x"),
        dev: "/dev".to_string(),
    };
    let folders = model_folders(&sources);
    let all: Vec<String> = folders.iter().map(|p| shown(p.clone())).collect();
    assert_eq!(
        all,
        vec![
            "/env|",
            "/data|Nuphus/models",
            "/a/b/c/d|desktop/models",
            "/a/b/c|desktop/models",
            "/a/b|desktop/models",
            "/w|src-tauri/desktop/models",
            "/w|../src-tauri/desktop/models",
            "/w/x|src-tauri/desktop/models",
            "/w/x|../src-tauri/desktop/models",
            "/dev|../src-tauri/desktop/models",
        ]
    );
    let mut there = vec![false; 10];
    assert_eq!(resolve_models_dir(&folders, &there), None);
    there[3] = true;
    there[7] = true;
    assert_eq!(resolve_models_dir(&folders, &there).map(shown), some("/a/b/c|desktop/models"));
}

#[test]
fn kinds_of_recorded_input_are_named() {
    for (kind, name) in [
        (CaptureKind::Click, "click"),
        (CaptureKind::Scroll, "scroll"),
        (CaptureKind::Hotkey, "hotkey"),
        (CaptureKind::Any, "any"),
    ] {
        assert_eq!(kind.as_str(), name);
        assert_eq!(CaptureKind::from_str(name).unwrap().as_str(), name);
    }
    assert!(CaptureKind::from_str("swipe").is_err());
    assert!(capture_once(CaptureKind::Any, 1, true).is_err());
}

#[test]
fn text_is_found_with_the_templates_of_the_dictionary() {
    let client = DesktopClient::new();
    let texts = |list: &[&str]| -> Vec<String> { list.iter().map(|s| s.to_string()).collect() };
    let hits = vec![
        Hit { x: 12, w: 10, sim: 90, ch: "b".to_string() },
        Hit { x: 0, w: 10, sim: 100, ch: "a".to_string() },
    ];
    let report = client.find_text("ab|c", &texts(&["a", "b"]), &vec![10, 10], &hits, 5, 6);
    assert!(report.found);
    assert_eq!((report.matches[0].x, report.matches[0].y), (5, 6));
    for (words, chars) in [("zz", vec!["a"]), ("ab", vec![])] {
        let nothing = client.find_text(words, &texts(&chars), &vec![10], &Vec::new(), 0, 0);
        assert!(!nothing.found && nothing.text.is_empty() && nothing.matches.is_empty());
        assert_eq!(nothing.fallback_hint, None);
    }
}

#[test]
fn window_is_brought_to_the_front_in_two_attempts_at_most() {
    let mut work = DesktopClient::new().window_activate();
    let mut asked = 0;
    let mut paused = 0;
    loop {
        paused += work.pause_ms();
        let event = match work {
            Activation::Look => ActivationEvent::Minimized(true),
            Activation::Check | Activation::Settle => ActivationEvent::Foreground(false),
            Activation::Front { .. } => {
                asked += 1;
                ActivationEvent::Done
            }
            Activation::Restore | Activation::Raise => ActivationEvent::Done,
            Activation::Over(in_front) => {
                assert!(!in_front);
                break;
            }
        };
        work = work.advance(event);
    }
    assert_eq!((asked, paused), (2, 600));
    let quick = DesktopClient::new()
        .window_activate()
        .advance(ActivationEvent::Minimized(false))
        .advance(ActivationEvent::Done)
        .advance(ActivationEvent::Foreground(true))
        .advance(ActivationEvent::Foreground(true));
    assert_eq!(quick, Activation::Over(true));
}

#[test]
fn input_is_planned() {
    let mut client = DesktopClient::new();
    assert_eq!(
        client.input_send("", true, false),
        InputPlan { types: false, enter_after_ms: Some(50) }
    );
    assert_eq!(
        client.input_send("", true, true),
        InputPlan { types: true, enter_after_ms: Some(20) }
    );
    assert_eq!(
        client.input_send("x", false, false),
        InputPlan { types: true, enter_after_ms: None }
    );
    assert_eq!(capture_scope(true), "region");
    assert_eq!(capture_scope(false), "primary_display");
    assert_eq!(foreground_hwnd(Some(4)), (4, None));
    assert!(foreground_hwnd(None).1.is_some());
}

#[test]
fn images_are_searched_for_in_turn() {
    let (templates, search) = DesktopClient::new().find_image(" a.png | |b.png", 1, 2);
    assert_eq!(templates, vec!["a.png", "b.png"]);
    assert_eq!((search.region_x, search.region_y), (1, 2));
    assert!(search.attempts.is_empty());
}

#[test]
fn colors_are_searched_from_the_upper_left() {
    let client = DesktopClient::new();
    let whole = client.find_color(None, None);
    assert_eq!(whole.region, Region { x: 0, y: 0, width: 0, height: 0 });
    assert_eq!(whole.direction, "left_top");
    let asked = AskedRegion {
        x: Some(-3),
        y: None,
        width: Some(40),
        height: Some(1 << 32),
    };
    let part = client.find_multi_color(Some(asked), Some("right_bottom"));
    assert_eq!(part.region, Region { x: -3, y: 0, width: 40, height: 0 });
    assert_eq!(part.direction, "right_bottom");
    assert_eq!(search_region(Some(asked)), part.region);
}
