use nuphus::ax::hash;
use nuphus::installed::{
    app, bundle_name, is_wanted, launch_outcome, launch_refusal, program_name, string, unquoted,
    zero_ended_text, CatalogHost, CatalogWalk, EntryKind, EntryStep, Folder, RegistryPlace,
    RegistryStep, REGISTRY_KEYS,
};

#[test]
fn application_id_uses_same_process_seed_as_uia() {
    let a = app("C:\\Apps\\Test.EXE", Some("EXE"), "Test".into(), None).unwrap();
    assert_eq!(
        a.app_id,
        format!("windows-app:{}", hash("process|c:\\apps\\test.exe"))
    );
    assert!(app("C:\\Apps\\task.ps1", Some("ps1"), "script".into(), None).is_none());
    assert!(app("C:\\Apps\\task", None, "none".into(), None).is_none());
}

#[test]
fn native_texts_end_at_a_zero() {
    let words: Vec<u16> = "中a\u{1F5A5}".encode_utf16().chain([0, 98]).collect();
    assert_eq!(string(&words), "中a\u{1F5A5}");
    assert_eq!(string(&vec![0xD800]), "\u{FFFD}");
    assert_eq!(string(&vec![0xD83D, 0x61, 0xDDA5]), "\u{FFFD}a\u{FFFD}");
    assert_eq!(string(&vec![0xD83D, 0xD83D, 0xDDA5]), "\u{FFFD}\u{1F5A5}");
    assert_eq!(
        zero_ended_text(&b"/Applications\0rest".to_vec()).as_deref(),
        Some("/Applications")
    );
    assert_eq!(zero_ended_text(&vec![0xFF, 0xFE, 0]), None);
}

#[test]
fn names_of_programs_are_plain() {
    assert_eq!(unquoted("\"C:\\a b.exe\""), "C:\\a b.exe");
    assert_eq!(program_name("notepad.exe"), "notepad");
    assert_eq!(
        bundle_name(None, Some("Finder".to_string()), "stem".to_string()),
        "Finder"
    );
    assert_eq!(bundle_name(None, None, "stem".to_string()), "stem");
}

#[test]
fn launch_that_the_system_refused_is_told() {
    assert!(launch_outcome(33).is_ok());
    assert_eq!(
        launch_outcome(2).unwrap_err(),
        "Native application launch failed (2)"
    );
}

#[test]
fn endings_are_looked_for_by_platform() {
    assert!(is_wanted(CatalogHost::Windows, Some("LnK")));
    assert!(!is_wanted(CatalogHost::Windows, Some("app")));
    assert!(!is_wanted(CatalogHost::Windows, None));
    assert!(is_wanted(CatalogHost::Macos, Some("app")));
    assert!(!is_wanted(CatalogHost::Macos, Some("APP")));
}

#[test]
fn walk_takes_shortcuts_and_enters_folders() {
    let mut walk = CatalogWalk::begin(CatalogHost::Windows, &vec![1, 2]);
    let folder = walk.next().unwrap();
    assert_eq!(folder, Folder { id: 2, depth: 0 });
    assert_eq!(walk.entry(folder, EntryKind::File, Some("lnk"), 0), EntryStep::Take);
    assert_eq!(walk.entry(folder, EntryKind::File, Some("txt"), 0), EntryStep::Skip);
    assert_eq!(walk.entry(folder, EntryKind::Unreadable, Some("lnk"), 0), EntryStep::Skip);
    assert_eq!(walk.entry(folder, EntryKind::Folder, Some("lnk"), 7), EntryStep::Enter);
    assert_eq!(walk.next(), Some(Folder { id: 7, depth: 1 }));
    let deep = Folder { id: 9, depth: 6 };
    assert_eq!(walk.entry(deep, EntryKind::Folder, None, 8), EntryStep::Skip);
    assert_eq!(walk.next(), Some(Folder { id: 1, depth: 0 }));
    assert_eq!(walk.next(), None);
}

#[test]
fn walk_over_bundles_is_bounded() {
    let mut walk = CatalogWalk::begin(CatalogHost::Macos, &vec![1]);
    let folder = walk.next().unwrap();
    assert_eq!(walk.entry(folder, EntryKind::Folder, Some("app"), 3), EntryStep::Take);
    assert_eq!(walk.entry(folder, EntryKind::File, Some("app"), 3), EntryStep::Skip);
    for n in 2..2048 {
        assert_eq!(walk.entry(folder, EntryKind::Folder, None, n), EntryStep::Enter);
    }
    assert_eq!(walk.entry(folder, EntryKind::Folder, None, 4000), EntryStep::Stop);
    assert_eq!(walk.next(), None);
}

#[test]
fn registry_is_read_place_by_place() {
    let place = |machine, narrow| RegistryPlace { machine, narrow };
    let mut step = RegistryStep::first();
    let mut opened = Vec::new();
    let mut keys = 0;
    while step != RegistryStep::Over {
        step = match step {
            RegistryStep::Open(p) => {
                opened.push(p);
                step.after(p.machine)
            }
            RegistryStep::Key(p, i) => {
                keys += 1;
                step.after(!p.narrow || i < 4)
            }
            RegistryStep::Over => break,
        };
    }
    assert_eq!(
        opened,
        vec![place(false, false), place(false, true), place(true, false), place(true, true)]
    );
    assert_eq!(keys, REGISTRY_KEYS + 5);
}

#[test]
fn entry_that_is_gone_is_not_launched() {
    assert_eq!(launch_refusal(CatalogHost::Windows, EntryKind::File, Some("exe")), None);
    assert_eq!(
        launch_refusal(CatalogHost::Windows, EntryKind::Folder, None),
        Some("Catalog launch entry no longer exists".to_string())
    );
    assert_eq!(launch_refusal(CatalogHost::Macos, EntryKind::Folder, Some("app")), None);
    assert_eq!(
        launch_refusal(CatalogHost::Macos, EntryKind::Folder, Some("txt")),
        Some("Catalog application bundle is no longer available".to_string())
    );
}
