use nuphus::bmp::encode_bmp;
use nuphus::find::{
    line_of, search_line, search_words, templates_to_search, Attempt, Hit, ImageOutcome,
    ImageSearch, Rect,
};

fn hit(x: i32, w: u32, sim: i32, ch: &str) -> Hit {
    Hit { x, w, sim, ch: ch.to_string() }
}

fn texts(list: &[&str]) -> Vec<String> {
    list.iter().map(|s| s.to_string()).collect()
}

#[test]
fn words_are_searched_by_their_characters() {
    assert_eq!(search_words(" ab | |c "), vec!["ab", "c"]);
    let chars = texts(&["a", "x", "ab", "c"]);
    assert_eq!(templates_to_search(&chars, &texts(&["ab", "c"])), vec![0, 3]);
    assert_eq!(templates_to_search(&chars, &Vec::new()), vec![0, 1, 2, 3]);
}

#[test]
fn better_place_wins_over_an_overlapping_one() {
    let line = line_of(&vec![
        hit(40, 10, 80, "c"),
        hit(0, 10, 80, "a"),
        hit(2, 10, 90, "b"),
        hit(20, 10, 70, "d"),
    ]);
    let shown: Vec<(i32, &str)> = line.iter().map(|h| (h.x, h.ch.as_str())).collect();
    assert_eq!(shown, vec![(2, "b"), (20, "d"), (40, "c")]);
}

#[test]
fn words_are_found_in_a_row() {
    let line = vec![
        hit(0, 10, 100, "a"),
        hit(12, 10, 90, "b"),
        hit(24, 10, 80, "a"),
        hit(70, 10, 80, "b"),
    ];
    let report = search_line(&line, &texts(&["ab", "zz"]), &vec![10, 8], 100, 200);
    assert!(report.found);
    assert_eq!(report.text, "abab");
    assert_eq!(report.fallback_hint, None);
    assert_eq!(report.matches.len(), 1);
    let m = &report.matches[0];
    assert_eq!((m.word.as_str(), m.x, m.y, m.width), ("ab", 100, 200, 22));
    assert_eq!(m.sims, vec![100, 90]);

    let nothing = search_line(&line, &texts(&["zz"]), &vec![10], 0, 0);
    assert!(!nothing.found);
    assert!(nothing.fallback_hint.unwrap().starts_with("未在屏幕区域中找到目标文字。"));
}

fn rect(x: i32) -> Rect {
    Rect { x, y: 1, w: 5, h: 6 }
}

#[test]
fn first_template_that_matches_is_reported() {
    let mut search = ImageSearch::begin(100, 200);
    assert_eq!(search.step(Attempt::Unusable), None);
    let close = Attempt::Compared { enough: false, confidence: 50, rect: Some(rect(7)) };
    assert_eq!(search.step(close), None);
    let found = search.step(Attempt::Compared { enough: true, confidence: 99, rect: Some(rect(3)) });
    assert_eq!(
        found,
        Some(ImageOutcome::Found {
            template: 2,
            rect: Rect { x: 103, y: 201, w: 5, h: 6 },
        })
    );
}

#[test]
fn closest_template_is_reported_where_none_matches() {
    let mut search = ImageSearch::begin(0, 0);
    for confidence in [50, 70, 70, 60] {
        let attempt = Attempt::Compared {
            enough: false,
            confidence,
            rect: Some(rect(confidence)),
        };
        assert_eq!(search.step(attempt), None);
    }
    match search.finish() {
        ImageOutcome::Closest { template, rect } => {
            assert_eq!((template, rect.x), (1, 70));
        }
        other => panic!("{other:?}"),
    }

    let mut unusable = ImageSearch::begin(0, 0);
    unusable.step(Attempt::Unusable);
    unusable.step(Attempt::Unusable);
    assert_eq!(unusable.finish(), ImageOutcome::Unreadable { template: 0 });
    assert_eq!(
        unusable.finish().diagnostic(),
        Some("template file not found or unreadable")
    );
    assert_eq!(ImageOutcome::Nothing.diagnostic(), None);
    assert_eq!(ImageSearch::begin(0, 0).finish(), ImageOutcome::Nothing);
}

#[test]
fn bitmap_is_written_from_below_with_padded_rows() {
    // Two pixels above one another: red over blue.
    let bytes = encode_bmp(&vec![255, 0, 0, 255, 0, 0, 255, 255], 1, 2);
    assert_eq!(&bytes[0..2], b"BM");
    assert_eq!(u32::from_le_bytes([bytes[2], bytes[3], bytes[4], bytes[5]]), 62);
    assert_eq!(bytes.len(), 62);
    assert_eq!(&bytes[54..58], &[255, 0, 0, 0]);
    assert_eq!(&bytes[58..62], &[0, 0, 255, 0]);
}
