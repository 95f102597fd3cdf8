use nuphus::annotation::{
    init_store_path, store_path, Annotation, AnnotationStore, Stored,
};

fn note(keyword: &str, group: &str, builtin: bool, priority: i32) -> Annotation {
    Annotation {
        keyword: keyword.to_string(),
        description: format!("about {keyword}"),
        keywords: Vec::new(),
        paths: Vec::new(),
        tags: Vec::new(),
        group: group.to_string(),
        builtin,
        priority,
        memory_entry_id: None,
        updated_at: "t0".to_string(),
    }
}

fn store() -> AnnotationStore {
    AnnotationStore {
        annotations: vec![
            note("Alpha", "builtin", true, 5),
            note("beta", "custom", false, 0),
        ],
    }
}

fn add(s: &mut AnnotationStore, keyword: &str, description: &str) -> Result<Annotation, String> {
    s.add_at(
        keyword,
        description,
        vec!["word".to_string()],
        Vec::new(),
        Vec::new(),
        None,
        None,
        None,
        "t1".to_string(),
    )
}

#[test]
fn note_is_added_or_brought_up_to_date() {
    let mut s = store();
    assert_eq!(
        add(&mut s, "", "x").unwrap_err(),
        "keyword and description are required"
    );
    assert!(add(&mut s, "x", "").is_err());
    let fresh = add(&mut s, "gamma", "g").unwrap();
    assert_eq!(fresh.group, "custom");
    assert!(!fresh.builtin);
    assert_eq!(s.count(), 3);
    let again = add(&mut s, "Alpha", "new").unwrap();
    assert!(again.builtin);
    assert_eq!(again.priority, 5);
    assert_eq!(again.group, "builtin");
    assert_eq!(again.updated_at, "t1");
    assert_eq!(s.count(), 3);
    assert_eq!(s.keyword_list(), vec!["Alpha", "beta", "gamma"]);
}

#[test]
fn time_of_a_change_is_that_of_the_clock() {
    let mut s = store();
    let fresh = s
        .add(
            "delta",
            "d",
            Vec::new(),
            Vec::new(),
            Vec::new(),
            Some("g".to_string()),
            Some(3),
            Some("m".to_string()),
        )
        .unwrap();
    assert!(fresh.updated_at.contains('T'));
    assert_eq!(fresh.group, "g");
    let changed = s
        .update("delta", Some("e"), None, None, None, Some(4))
        .unwrap();
    assert_eq!(changed.description, "e");
    assert_eq!(changed.priority, 4);
    assert_eq!(changed.memory_entry_id.as_deref(), Some("m"));
    assert_eq!(
        s.update("none", None, None, None, None, None).unwrap_err(),
        "Annotation 'none' not found"
    );
}

#[test]
fn builtin_note_cannot_be_removed() {
    let mut s = store();
    assert_eq!(
        s.remove("Alpha").unwrap_err(),
        "Annotation 'Alpha' not found or is built-in"
    );
    assert!(s.remove("none").is_err());
    assert!(s.remove("beta").is_ok());
    assert_eq!(s.count(), 1);
}

#[test]
fn note_is_found_by_its_words_in_any_case() {
    let mut s = store();
    add(&mut s, "gamma", "g").unwrap();
    let names = |list: Vec<Annotation>| -> Vec<String> {
        list.into_iter().map(|a| a.keyword).collect()
    };
    assert_eq!(names(s.search("ALPHA")), vec!["Alpha"]);
    assert_eq!(names(s.search("my alpha thing")), vec!["Alpha"]);
    assert_eq!(names(s.search("WORD")), vec!["gamma"]);
    assert_eq!(names(s.search("zzz")), Vec::<String>::new());
    assert_eq!(names(s.list_by_group("custom")), vec!["beta", "gamma"]);
    assert_eq!(s.list().len(), 3);
}

#[test]
fn best_matches_come_first_and_are_few() {
    let s = AnnotationStore {
        annotations: (0..12).map(|i| note(&format!("n{i}"), "g", false, i)).collect(),
    };
    let mut levels: Vec<Option<i32>> = vec![Some(1); 12];
    levels[0] = Some(3);
    levels[11] = None;
    let best = s.find_by_keyword(&levels);
    assert_eq!(best.len(), 8);
    assert_eq!(best[0].keyword, "n0");
    assert_eq!(best[1].keyword, "n10");
    assert_eq!(best[7].keyword, "n4");
}

#[test]
fn reset_keeps_the_notes_of_the_person() {
    let mut s = store();
    assert_eq!(
        s.reset_builtins(vec![note("x", "builtin", true, 0), note("y", "builtin", true, 0)]),
        2
    );
    assert_eq!(s.keyword_list(), vec!["beta", "x", "y"]);
}

#[test]
fn stored_notes_are_loaded() {
    let builtins = || vec![note("b", "builtin", true, 0)];
    let (s, write) = AnnotationStore::load(Stored::Missing, builtins());
    assert!(write && s.count() == 1);
    let (s, write) = AnnotationStore::load(Stored::Broken, builtins());
    assert!(!write && s.count() == 1);
    let (s, write) = AnnotationStore::load(Stored::Unreadable, builtins());
    assert!(!write && s.count() == 0);
    let (s, write) = AnnotationStore::load(Stored::Notes(store().annotations), builtins());
    assert!(!write && s.count() == 2);
}

#[test]
fn notes_stand_in_a_file_of_their_own() {
    let place = store_path(false, None, None, Some("/u".to_string()));
    assert_eq!(place.base, "/u");
    assert_eq!(
        place.parts,
        vec![".nuphus", "annotations", "annotations.json"]
    );
    let mut named = Some("/first".to_string());
    init_store_path(&mut named, "/second".to_string());
    assert_eq!(named.as_deref(), Some("/first"));
}
