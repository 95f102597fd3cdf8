use nuphus::config::{
    config_search_paths, load_registry, resolve_capability, resolve_supports_vision,
    resolve_vision_provider, resolve_vision_strategy, set_config_override, ConfigIdentity,
    LoadStep, ModelEntry, ModelRegistry, TokenCache, Tried, VisionStrategy,
};
use nuphus::profile::{
    config_dir, config_name, data_name, home_dir, home_name, workbench_data_dir, Place,
};

fn text(place: &Place) -> String {
    let mut out = place.base.clone();
    for part in &place.parts {
        out.push('/');
        out.push_str(part);
    }
    out
}

fn some(s: &str) -> Option<String> {
    Some(s.to_string())
}

#[test]
fn configuration_is_looked_for_in_turn() {
    let paths = config_search_paths(
        false,
        some("/named.toml"),
        some("/bin"),
        some("/home/u"),
        some("/etc"),
    );
    let shown: Vec<String> = paths.iter().map(text).collect();
    assert_eq!(
        shown,
        vec![
            "/named.toml",
            "/bin/config.toml",
            "/bin/nuphus.toml",
            "config.toml",
            "nuphus.toml",
            "/home/u/.config/nuphus/config.toml",
            "/home/u/.nuphus/config.toml",
            "/etc/nuphus/providers.toml",
            "/etc/nuphus/config.toml",
        ]
    );
    let bare = config_search_paths(false, None, None, None, None);
    assert_eq!(bare.len(), 4);
    let bench = config_search_paths(true, None, some("/bin"), None, some("/etc"));
    assert_eq!(bench.len(), 1);
    assert_eq!(text(&bench[0]), "/etc/nuphus-workbench/providers.toml");
}

#[test]
fn configuration_is_named_once() {
    let mut named = None;
    set_config_override(&mut named, "/a".to_string());
    set_config_override(&mut named, "/b".to_string());
    assert_eq!(named.as_deref(), Some("/a"));
}

#[test]
fn first_usable_configuration_is_loaded() {
    assert_eq!(load_registry(2, &Vec::new()), LoadStep::Try(0));
    assert_eq!(load_registry(2, &vec![Tried::Missing]), LoadStep::Try(1));
    assert_eq!(
        load_registry(2, &vec![Tried::Missing, Tried::Broken]),
        LoadStep::Environment
    );
    assert_eq!(
        load_registry(3, &vec![Tried::Broken, Tried::Loaded]),
        LoadStep::Done(1)
    );
}

fn state(len: u64) -> Option<ConfigIdentity> {
    Some(ConfigIdentity {
        path: "/c".to_string(),
        modified_secs: 7,
        modified_nanos: 0,
        len,
    })
}

#[test]
fn token_limit_is_looked_up_once_per_state_and_provider() {
    let mut cache = TokenCache::new();
    assert_eq!(cache.known(state(1), Some("a"), "m"), None);
    assert_eq!(
        cache.resolve_max_output_tokens(state(1), Some("a"), "m", Some(100)),
        Some(100)
    );
    assert_eq!(
        cache.resolve_max_output_tokens(state(1), Some("a"), "m", Some(5)),
        Some(100)
    );
    assert_eq!(cache.known(state(1), Some("b"), "m"), None);
    assert_eq!(cache.known(state(1), None, "m"), None);
    assert_eq!(
        cache.resolve_max_output_tokens(state(2), Some("a"), "m", None),
        None
    );
    assert_eq!(cache.known(state(2), Some("a"), "m"), Some(None));
}

fn registry(vision: &str, model: &str) -> ModelRegistry {
    let entry = |provider: &str, id: &str, supports_vision| ModelEntry {
        provider: provider.to_string(),
        id: id.to_string(),
        supports_vision,
    };
    ModelRegistry {
        models: vec![
            entry("one", "shared", false),
            entry("two", "shared", true),
            entry("one", "blind", false),
        ],
        model: model.to_string(),
        provider_hint: None,
        vision: vision.to_string(),
        vision_provider: String::new(),
    }
}

#[test]
fn capability_is_that_of_the_named_provider_or_of_any() {
    let r = registry("", "shared");
    let sees = |e: &ModelEntry| e.supports_vision;
    assert!(resolve_capability(&r, None, "shared", sees, false));
    assert!(resolve_capability(&r, Some(""), "shared", sees, false));
    assert!(!resolve_capability(&r, Some("one"), "shared", sees, false));
    assert!(resolve_capability(&r, Some("two"), "shared", sees, false));
    assert!(!resolve_capability(&r, None, "blind", sees, true));
    assert!(resolve_capability(&r, None, "unknown", sees, true));
    assert!(!resolve_supports_vision(Some(&r), "unknown"));
    assert!(!resolve_supports_vision(None, "shared"));
}

#[test]
fn images_are_understood_by_the_model_that_was_set_first() {
    assert_eq!(
        resolve_vision_strategy(Some(&registry("eye", "shared"))),
        VisionStrategy::Capability("eye".to_string())
    );
    assert_eq!(
        resolve_vision_strategy(Some(&registry("", "shared"))),
        VisionStrategy::Main
    );
    assert_eq!(
        resolve_vision_strategy(Some(&registry("", "blind"))),
        VisionStrategy::Unavailable
    );
    assert_eq!(resolve_vision_strategy(None), VisionStrategy::Unavailable);
    let mut r = registry("eye", "blind");
    assert_eq!(resolve_vision_provider(Some(&r)), None);
    r.vision_provider = "two".to_string();
    assert_eq!(resolve_vision_provider(Some(&r)).as_deref(), Some("two"));
    r.vision.clear();
    assert_eq!(resolve_vision_provider(Some(&r)), None);
}

#[test]
fn editions_use_folders_of_their_own() {
    assert_eq!(data_name(true), "nuphus-workbench");
    assert_eq!(data_name(false), "Nuphus");
    assert_eq!(config_name(false), "nuphus");
    assert_eq!(home_name(true), ".nuphus-workbench");
    assert_eq!(text(&config_dir(false, None)), "./nuphus");
    assert_eq!(
        text(&home_dir(false, None, some("/p"), some("/s"))),
        "/p/.nuphus"
    );
    assert_eq!(text(&workbench_data_dir(some("/d"), some("/s"))), "/d");
    assert_eq!(
        text(&workbench_data_dir(some(""), some("/s"))),
        "/s/nuphus-workbench"
    );
}
