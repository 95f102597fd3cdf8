//! Where the configuration is looked for, and what models can do.
use vstd::prelude::*;
use vstd::string::*;

use crate::model;
use crate::model::{copy_opt, same_opt, Plain};
use crate::profile;
use crate::profile::{config_dir, Place, PlaceModel};
use crate::table;
use crate::table::Table;
use crate::text;
use crate::text::{owned, same_text};

verus! {

/// Names the configuration when the desktop edition starts; what was named
/// first stays.
pub fn set_config_override(named: &mut Option<String>, path: String)
    ensures
        model::opt_view(*final(named)) == match model::opt_view(*old(named)) {
            Some(p) => Some(p),
            None => Some(path@),
        },
{
    if named.is_none() {
        *named = Some(path);
    }
}

/// Where the configuration is looked for, in turn.
pub open spec fn search_paths(
    workbench: bool,
    named: Option<Seq<char>>,
    exe_dir: Option<Seq<char>>,
    home: Option<Seq<char>>,
    system: Option<Seq<char>>,
) -> Seq<PlaceModel> {
    if workbench {
        seq![
            match named {
                Some(p) => profile::whole(p),
                None => profile::below(profile::config_place(true, system), "providers.toml"@),
            },
        ]
    } else {
        let h = match home {
            Some(h) => h,
            None => Seq::empty(),
        };
        (match named {
            Some(p) => seq![profile::whole(p)],
            None => Seq::empty(),
        }) + (match exe_dir {
            Some(d) => seq![
                profile::below(profile::whole(d), "config.toml"@),
                profile::below(profile::whole(d), "nuphus.toml"@),
            ],
            None => Seq::empty(),
        }) + seq![
            profile::whole("config.toml"@),
            profile::whole("nuphus.toml"@),
            profile::whole(h + "/.config/nuphus/config.toml"@),
            profile::whole(h + "/.nuphus/config.toml"@),
        ] + (match system {
            Some(d) => seq![
                profile::below(profile::below(profile::whole(d), "nuphus"@), "providers.toml"@),
                profile::below(profile::below(profile::whole(d), "nuphus"@), "config.toml"@),
            ],
            None => Seq::empty(),
        })
    }
}

/// A text behind another.
fn behind(s: &str, tail: &str) -> (r: String)
    ensures
        r@ == s@ + tail@,
{
    let mut out = owned(s);
    out.append(tail);
    out
}

/// Adds a path.
fn add_path(paths: &mut Vec<Place>, p: Place)
    ensures
        model::seq_view(final(paths)@) == model::seq_view(old(paths)@).push(p@),
{
    let ghost before = paths@;
    paths.push(p);
    assert(model::seq_view(paths@) =~= model::seq_view(before).push(p@));
}

/// Where the configuration is looked for, in turn: what was named, then beside
/// the program, in the working directory, below the home, and in the system's
/// folder.
pub fn config_search_paths(
    workbench: bool,
    named: Option<String>,
    exe_dir: Option<String>,
    home: Option<String>,
    system: Option<String>,
) -> (r: Vec<Place>)
    ensures
        model::seq_view(r@) == search_paths(
            workbench,
            model::opt_view(named),
            model::opt_view(exe_dir),
            model::opt_view(home),
            model::opt_view(system),
        ),
{
    let ghost (n, e, h, s) = (
        model::opt_view(named),
        model::opt_view(exe_dir),
        model::opt_view(home),
        model::opt_view(system),
    );
    let mut paths: Vec<Place> = Vec::new();
    assert(model::seq_view(paths@) =~= Seq::<PlaceModel>::empty());
    if workbench {
        match named {
            Some(p) => {
                add_path(&mut paths, Place::whole(p));
            },
            None => {
                add_path(&mut paths, config_dir(true, system).join("providers.toml"));
            },
        }
        assert(model::seq_view(paths@) =~= search_paths(true, n, e, h, s));
        return paths;
    }
    if let Some(p) = named {
        add_path(&mut paths, Place::whole(p));
    }
    if let Some(d) = exe_dir {
        add_path(&mut paths, Place::whole(d.clone()).join("config.toml"));
        add_path(&mut paths, Place::whole(d).join("nuphus.toml"));
    }
    add_path(&mut paths, Place::whole(owned("config.toml")));
    add_path(&mut paths, Place::whole(owned("nuphus.toml")));
    let base = match home {
        Some(h) => h,
        None => String::new(),
    };
    add_path(&mut paths, Place::whole(behind(base.as_str(), "/.config/nuphus/config.toml")));
    add_path(&mut paths, Place::whole(behind(base.as_str(), "/.nuphus/config.toml")));
    if let Some(d) = system {
        add_path(&mut paths, Place::whole(d.clone()).join("nuphus").join("providers.toml"));
        add_path(&mut paths, Place::whole(d).join("nuphus").join("config.toml"));
    }
    assert(model::seq_view(paths@) =~= search_paths(false, n, e, h, s));
    paths
}

/// What came of trying a path.
#[derive(Debug, Clone, Copy, PartialEq, Eq, Structural)]
pub enum Tried {
    /// There is nothing.
    Missing,
    /// It could not be read as a configuration.
    Broken,
    /// It is the configuration.
    Loaded,
}

/// What is tried next.
#[derive(Debug, Clone, Copy, PartialEq, Eq, Structural)]
pub enum LoadStep {
    /// The path of this number.
    Try(usize),
    /// No file was of use; the environment is.
    Environment,
    /// The path of this number was the configuration.
    Done(usize),
}

/// The first path that is a configuration.
pub open spec fn first_loaded(tried: Seq<Tried>) -> Option<int>
    decreases tried.len(),
{
    if tried.len() == 0 {
        None
    } else {
        match first_loaded(tried.drop_last()) {
            Some(i) => Some(i),
            None => if tried.last() == Tried::Loaded {
                Some(tried.len() - 1)
            } else {
                None
            },
        }
    }
}

/// What is tried after paths were.
pub open spec fn load_step(paths: int, tried: Seq<Tried>) -> LoadStep {
    match first_loaded(tried) {
        Some(i) => LoadStep::Done(i as usize),
        None => if tried.len() < paths {
            LoadStep::Try(tried.len() as usize)
        } else {
            LoadStep::Environment
        },
    }
}

/// What is tried after paths were: the next, until one is the configuration;
/// the environment behind the last.
pub fn load_registry(paths: usize, tried: &Vec<Tried>) -> (r: LoadStep)
    ensures
        r == load_step(paths as int, tried@),
{
    let mut found: Option<usize> = None;
    let mut i: usize = 0;
    while i < tried.len()
        invariant
            i <= tried@.len(),
            match found {
                Some(f) => first_loaded(tried@.take(i as int)) == Some(f as int),
                None => first_loaded(tried@.take(i as int)) is None,
            },
        decreases tried@.len() - i,
    {
        assert(tried@.take(i + 1).drop_last() == tried@.take(i as int));
        if found.is_none() {
            if let Tried::Loaded = tried[i] {
                found = Some(i);
            }
        }
        i = i + 1;
    }
    assert(tried@.take(tried@.len() as int) == tried@);
    match found {
        Some(f) => LoadStep::Done(f),
        None => if tried.len() < paths {
            LoadStep::Try(tried.len())
        } else {
            LoadStep::Environment
        },
    }
}

/// The configuration is the first path that is one: all before it were missing
/// or broken.
pub proof fn first_configuration_is_loaded(tried: Seq<Tried>)
    ensures
        first_loaded(tried) matches Some(i) ==> 0 <= i < tried.len() && tried[i] == Tried::Loaded
            && forall|k: int| 0 <= k < i ==> #[trigger] tried[k] != Tried::Loaded,
        first_loaded(tried) is None ==> forall|k: int|
            0 <= k < tried.len() ==> #[trigger] tried[k] != Tried::Loaded,
    decreases tried.len(),
{
    if tried.len() > 0 {
        let rest = tried.drop_last();
        first_configuration_is_loaded(rest);
        match first_loaded(rest) {
            Some(i) => {
                assert(tried[i] == rest[i]);
                assert forall|k: int| 0 <= k < i implies #[trigger] tried[k]
                    != Tried::Loaded by {
                    assert(tried[k] == rest[k]);
                }
            },
            None => {
                assert forall|k: int| 0 <= k < tried.len() - 1 implies #[trigger] tried[k]
                    != Tried::Loaded by {
                    assert(tried[k] == rest[k]);
                }
            },
        }
    }
}

/// A state of the configuration: its path, when it was changed, and its length.
#[derive(Debug, Clone, PartialEq, Eq)]
pub struct ConfigIdentity {
    pub path: String,
    pub modified_secs: i64,
    pub modified_nanos: u32,
    pub len: u64,
}

/// The content of a [`ConfigIdentity`].
#[verifier::ext_equal]
pub struct ConfigIdentityModel {
    pub path: Seq<char>,
    pub modified_secs: i64,
    pub modified_nanos: u32,
    pub len: u64,
}

impl View for ConfigIdentity {
    type V = ConfigIdentityModel;

    open spec fn view(&self) -> ConfigIdentityModel {
        ConfigIdentityModel {
            path: self.path@,
            modified_secs: self.modified_secs,
            modified_nanos: self.modified_nanos,
            len: self.len,
        }
    }
}

impl Plain for ConfigIdentity {
    fn copied(&self) -> (r: Self) {
        ConfigIdentity {
            path: self.path.clone(),
            modified_secs: self.modified_secs,
            modified_nanos: self.modified_nanos,
            len: self.len,
        }
    }

    fn same(&self, other: &Self) -> (r: bool) {
        same_text(self.path.as_str(), other.path.as_str())
            && self.modified_secs == other.modified_secs
            && self.modified_nanos == other.modified_nanos
            && self.len == other.len
    }
}

/// A model of a provider.
#[derive(Debug, Clone, PartialEq, Eq)]
pub struct TokenKey {
    pub provider: Option<String>,
    pub model: String,
}

/// The content of a [`TokenKey`].
#[verifier::ext_equal]
pub struct TokenKeyModel {
    pub provider: Option<Seq<char>>,
    pub model: Seq<char>,
}

impl View for TokenKey {
    type V = TokenKeyModel;

    open spec fn view(&self) -> TokenKeyModel {
        TokenKeyModel {
            provider: model::opt_view(self.provider),
            model: self.model@,
        }
    }
}

impl Plain for TokenKey {
    fn copied(&self) -> (r: Self) {
        TokenKey {
            provider: copy_opt(&self.provider),
            model: self.model.clone(),
        }
    }

    fn same(&self, other: &Self) -> (r: bool) {
        same_opt(&self.provider, &other.provider)
            && same_text(self.model.as_str(), other.model.as_str())
    }
}

/// How many tokens a model may give, where that is known.
#[derive(Debug, Clone, Copy, PartialEq, Eq, Structural)]
pub struct TokenLimit {
    pub tokens: Option<u32>,
}

impl View for TokenLimit {
    type V = Option<u32>;

    open spec fn view(&self) -> Option<u32> {
        self.tokens
    }
}

impl Plain for TokenLimit {
    fn copied(&self) -> (r: Self) {
        *self
    }

    fn same(&self, other: &Self) -> (r: bool) {
        self.tokens == other.tokens
    }
}

/// What was looked up in one state of the configuration.
pub struct TokenCache {
    pub identity: Option<ConfigIdentity>,
    pub entries: Table<TokenKey, TokenLimit>,
}

/// The content of a [`TokenCache`].
#[verifier::ext_equal]
pub struct TokenCacheModel {
    pub identity: Option<ConfigIdentityModel>,
    pub entries: Seq<(TokenKeyModel, Option<u32>)>,
}

impl View for TokenCache {
    type V = TokenCacheModel;

    open spec fn view(&self) -> TokenCacheModel {
        TokenCacheModel { identity: model::opt_view(self.identity), entries: self.entries@ }
    }
}

impl TokenCacheModel {
    /// What still counts in a state of the configuration: nothing where it was
    /// changed.
    pub open spec fn in_state(self, identity: Option<ConfigIdentityModel>) -> TokenCacheModel {
        if self.identity == identity {
            self
        } else {
            TokenCacheModel { identity, entries: Seq::empty() }
        }
    }

    /// With what was looked up.
    pub open spec fn with(self, key: TokenKeyModel, tokens: Option<u32>) -> TokenCacheModel {
        TokenCacheModel { entries: table::put(self.entries, key, tokens), ..self }
    }
}

impl TokenCache {
    /// Nothing was looked up yet.
    pub fn new() -> (r: Self)
        ensures
            r@ == (TokenCacheModel { identity: None, entries: Seq::empty() }),
    {
        TokenCache { identity: None, entries: Table::new() }
    }

    /// What is known of how many tokens a model may give, in a state of the
    /// configuration; nothing where it has to be looked up.
    pub fn known(
        &mut self,
        identity: Option<ConfigIdentity>,
        provider: Option<&str>,
        model_id: &str,
    ) -> (r: Option<Option<u32>>)
        ensures
            final(self)@ == old(self)@.in_state(model::opt_view(identity)),
            r == table::get(
                final(self)@.entries,
                TokenKeyModel { provider: text::opt_str(provider), model: model_id@ },
            ),
    {
        if !same_opt(&self.identity, &identity) {
            self.identity = identity;
            self.entries.clear();
        }
        let key = token_key(provider, model_id);
        match self.entries.get(&key) {
            Some(limit) => Some(limit.tokens),
            None => None,
        }
    }

    /// How many tokens a model may give: what is known, or else what the
    /// configuration said, which is known from then on.
    pub fn resolve_max_output_tokens(
        &mut self,
        identity: Option<ConfigIdentity>,
        provider: Option<&str>,
        model_id: &str,
        looked_up: Option<u32>,
    ) -> (r: Option<u32>)
        ensures
            ({
                let key = TokenKeyModel { provider: text::opt_str(provider), model: model_id@ };
                let state = old(self)@.in_state(model::opt_view(identity));
                match table::get(state.entries, key) {
                    Some(v) => r == v && final(self)@ == state,
                    None => r == looked_up && final(self)@ == state.with(key, looked_up),
                }
            }),
    {
        match self.known(identity, provider, model_id) {
            Some(v) => v,
            None => {
                self.entries.put(token_key(provider, model_id), TokenLimit { tokens: looked_up });
                looked_up
            },
        }
    }
}

/// A model of a provider.
fn token_key(provider: Option<&str>, model_id: &str) -> (r: TokenKey)
    ensures
        r@ == (TokenKeyModel { provider: text::opt_str(provider), model: model_id@ }),
{
    TokenKey {
        provider: match provider {
            Some(p) => Some(owned(p)),
            None => None,
        },
        model: owned(model_id),
    }
}

/// What was looked up is known while the configuration stays as it is, of that
/// model of that provider alone; once the configuration is changed, nothing is
/// known.
pub proof fn looked_up_once_per_state(
    c: TokenCacheModel,
    key: TokenKeyModel,
    other: TokenKeyModel,
    tokens: Option<u32>,
    changed: Option<ConfigIdentityModel>,
)
    requires
        table::distinct(c.entries),
        changed != c.identity,
    ensures
        table::get(c.with(key, tokens).in_state(c.identity).entries, key) == Some(tokens),
        other != key ==> table::get(c.with(key, tokens).entries, other) == table::get(
            c.entries,
            other,
        ),
        table::get(c.with(key, tokens).in_state(changed).entries, key) is None,
        table::distinct(c.with(key, tokens).entries),
{
    table::put_is_found(c.entries, key, tokens, key);
    table::put_is_found(c.entries, key, tokens, other);
}

/// A model that a provider offers.
#[derive(Debug, Clone, PartialEq, Eq)]
pub struct ModelEntry {
    pub provider: String,
    pub id: String,
    pub supports_vision: bool,
}

/// The content of a [`ModelEntry`].
#[verifier::ext_equal]
pub struct EntryRow {
    pub provider: Seq<char>,
    pub id: Seq<char>,
    pub supports_vision: bool,
}

impl View for ModelEntry {
    type V = EntryRow;

    open spec fn view(&self) -> EntryRow {
        EntryRow {
            provider: self.provider@,
            id: self.id@,
            supports_vision: self.supports_vision,
        }
    }
}

impl Plain for ModelEntry {
    fn copied(&self) -> (r: Self) {
        ModelEntry {
            provider: self.provider.clone(),
            id: self.id.clone(),
            supports_vision: self.supports_vision,
        }
    }

    fn same(&self, other: &Self) -> (r: bool) {
        same_text(self.provider.as_str(), other.provider.as_str())
            && same_text(self.id.as_str(), other.id.as_str())
            && self.supports_vision == other.supports_vision
    }
}

/// The models that are configured.
#[derive(Debug, Clone, PartialEq, Eq)]
pub struct ModelRegistry {
    pub models: Vec<ModelEntry>,
    /// The model in use.
    pub model: String,
    /// The provider that was last used, where one was.
    pub provider_hint: Option<String>,
    /// The model that looks at images; empty where none was set.
    pub vision: String,
    pub vision_provider: String,
}

/// The content of a [`ModelRegistry`].
#[verifier::ext_equal]
pub struct RegistryModel {
    pub models: Seq<EntryRow>,
    pub model: Seq<char>,
    pub provider_hint: Option<Seq<char>>,
    pub vision: Seq<char>,
    pub vision_provider: Seq<char>,
}

impl View for ModelRegistry {
    type V = RegistryModel;

    open spec fn view(&self) -> RegistryModel {
        RegistryModel {
            models: model::seq_view(self.models@),
            model: self.model@,
            provider_hint: model::opt_view(self.provider_hint),
            vision: self.vision@,
            vision_provider: self.vision_provider@,
        }
    }
}

/// How images are understood.
#[derive(Debug, Clone, PartialEq, Eq)]
pub enum VisionStrategy {
    /// The model in use sees them.
    Main,
    /// A model that was set for it does.
    Capability(String),
    /// None does.
    Unavailable,
}

/// How images are understood.
#[verifier::ext_equal]
pub enum VisionModel {
    Main,
    Capability(Seq<char>),
    Unavailable,
}

impl View for VisionStrategy {
    type V = VisionModel;

    open spec fn view(&self) -> VisionModel {
        match self {
            VisionStrategy::Main => VisionModel::Main,
            VisionStrategy::Capability(s) => VisionModel::Capability(s@),
            VisionStrategy::Unavailable => VisionModel::Unavailable,
        }
    }
}

/// Whether an entry decides on a model: it is on that model, and of the
/// provider where one is named.
pub open spec fn decides(e: EntryRow, provider: Option<Seq<char>>, id: Seq<char>) -> bool {
    e.id == id && match provider {
        Some(p) => p.len() == 0 || e.provider == p,
        None => true,
    }
}

/// Whether a model is in the registry.
pub open spec fn is_known(models: Seq<EntryRow>, id: Seq<char>) -> bool {
    exists|i: int| 0 <= i < models.len() && (#[trigger] models[i]).id == id
}

/// Whether an entry decides on a model.
fn entry_decides(e: &ModelEntry, provider: Option<&str>, id: &str) -> (r: bool)
    ensures
        r == decides(e@, text::opt_str(provider), id@),
{
    same_text(e.id.as_str(), id) && match provider {
        Some(p) => p.is_empty() || same_text(e.provider.as_str(), p),
        None => true,
    }
}

/// Whether a model can do something. Where a provider is named its entry
/// decides; else one entry of that model which can is enough. Of a model that
/// is not in the registry what is presumed holds.
pub fn resolve_capability<F: Fn(&ModelEntry) -> bool>(
    registry: &ModelRegistry,
    provider: Option<&str>,
    model_id: &str,
    predicate: F,
    presumed: bool,
) -> (r: bool)
    requires
        forall|e: &ModelEntry| call_requires(predicate, (e,)),
    ensures
        !is_known(registry@.models, model_id@) ==> r == presumed,
        is_known(registry@.models, model_id@) && r ==> exists|i: int|
            0 <= i < registry.models@.len() && decides(
                (#[trigger] registry.models@[i])@,
                text::opt_str(provider),
                model_id@,
            ) && call_ensures(predicate, (&registry.models@[i],), true),
        is_known(registry@.models, model_id@) && !r ==> forall|i: int|
            0 <= i < registry.models@.len() && decides(
                (#[trigger] registry.models@[i])@,
                text::opt_str(provider),
                model_id@,
            ) ==> call_ensures(predicate, (&registry.models@[i],), false),
{
    let mut known = false;
    let mut able = false;
    let mut i: usize = 0;
    while i < registry.models.len()
        invariant
            i <= registry.models@.len(),
            forall|e: &ModelEntry| call_requires(predicate, (e,)),
            known == exists|k: int| 0 <= k < i && (#[trigger] registry@.models[k]).id == model_id@,
            able ==> exists|k: int|
                0 <= k < registry.models@.len() && decides(
                    (#[trigger] registry.models@[k])@,
                    text::opt_str(provider),
                    model_id@,
                ) && call_ensures(predicate, (&registry.models@[k],), true),
            !able ==> forall|k: int|
                0 <= k < i && decides(
                    (#[trigger] registry.models@[k])@,
                    text::opt_str(provider),
                    model_id@,
                ) ==> call_ensures(predicate, (&registry.models@[k],), false),
        decreases registry.models@.len() - i,
    {
        let entry = &registry.models[i];
        assert(registry@.models[i as int] == registry.models@[i as int]@);
        if same_text(entry.id.as_str(), model_id) {
            known = true;
        }
        if !able && entry_decides(entry, provider, model_id) {
            if predicate(entry) {
                able = true;
            }
        }
        i = i + 1;
    }
    if !known {
        return presumed;
    }
    able
}

/// Whether a model sees images, as far as the registry knows.
pub open spec fn sees(r: RegistryModel, provider: Option<Seq<char>>, id: Seq<char>) -> bool {
    exists|i: int|
        0 <= i < r.models.len() && decides(#[trigger] r.models[i], provider, id)
            && r.models[i].supports_vision
}

/// Whether a model sees images; one that is not in the registry does not.
pub fn resolve_supports_vision(registry: Option<&ModelRegistry>, model_label: &str) -> (r: bool)
    ensures
        r == match registry {
            Some(m) => sees(m@, m@.provider_hint, model_label@),
            None => false,
        },
{
    match registry {
        Some(m) => {
            let hint: Option<&str> = match &m.provider_hint {
                Some(p) => Some(p.as_str()),
                None => None,
            };
            let able = |e: &ModelEntry| -> (b: bool)
                ensures
                    b == e.supports_vision,
                { e.supports_vision };
            let r = resolve_capability(m, hint, model_label, able, false);
            proof {
                let p = text::opt_str(hint);
                if is_known(m@.models, model_label@) {
                    if r {
                        let i = choose|i: int|
                            0 <= i < m.models@.len() && decides(
                                (#[trigger] m.models@[i])@,
                                p,
                                model_label@,
                            ) && call_ensures(able, (&m.models@[i],), true);
                        assert(m@.models[i] == m.models@[i]@);
                        assert(decides(m@.models[i], p, model_label@));
                    } else {
                        assert forall|i: int| 0 <= i < m@.models.len() && decides(
                            #[trigger] m@.models[i],
                            p,
                            model_label@,
                        ) implies !m@.models[i].supports_vision by {
                            assert(m@.models[i] == m.models@[i]@);
                            assert(call_ensures(able, (&m.models@[i],), false));
                        }
                    }
                } else {
                    assert forall|i: int| 0 <= i < m@.models.len() implies !decides(
                        #[trigger] m@.models[i],
                        p,
                        model_label@,
                    ) by {}
                }
            }
            r
        },
        None => false,
    }
}

/// How images are understood with a registry.
pub open spec fn vision_with(r: RegistryModel) -> VisionModel {
    if r.vision.len() > 0 {
        VisionModel::Capability(r.vision)
    } else if sees(r, r.provider_hint, r.model) {
        VisionModel::Main
    } else {
        VisionModel::Unavailable
    }
}

/// How images are understood: by the model that was set for it, else by the
/// model in use where it can. No other is picked.
pub fn resolve_vision_strategy(registry: Option<&ModelRegistry>) -> (r: VisionStrategy)
    ensures
        r@ == match registry {
            Some(m) => vision_with(m@),
            None => VisionModel::Unavailable,
        },
{
    match registry {
        Some(m) => if !m.vision.as_str().is_empty() {
            VisionStrategy::Capability(m.vision.clone())
        } else if resolve_supports_vision(Some(m), m.model.as_str()) {
            VisionStrategy::Main
        } else {
            VisionStrategy::Unavailable
        },
        None => VisionStrategy::Unavailable,
    }
}

/// The provider of the model that was set for images, where both were.
pub fn resolve_vision_provider(registry: Option<&ModelRegistry>) -> (r: Option<String>)
    ensures
        model::opt_view(r) == match registry {
            Some(m) => if m@.vision.len() == 0 || m@.vision_provider.len() == 0 {
                None
            } else {
                Some(m@.vision_provider)
            },
            None => None,
        },
{
    match registry {
        Some(m) => if m.vision.as_str().is_empty() || m.vision_provider.as_str().is_empty() {
            None
        } else {
            Some(m.vision_provider.clone())
        },
        None => None,
    }
}

/// Without a provider a model counts as able if any entry of it is: what an
/// entry says of another provider's model of that name is never overlooked.
pub proof fn any_provider_is_enough(r: RegistryModel, i: int)
    requires
        0 <= i < r.models.len(),
        r.models[i].supports_vision,
    ensures
        sees(r, None, r.models[i].id),
        sees(r, Some(r.models[i].provider), r.models[i].id),
{
    assert(decides(r.models[i], None, r.models[i].id));
    assert(decides(r.models[i], Some(r.models[i].provider), r.models[i].id));
}

/// The workbench looks for its configuration in one place: the one that is named,
/// or else its own folder.
pub proof fn workbench_has_its_own_configuration(
    named: Option<Seq<char>>,
    exe_dir: Option<Seq<char>>,
    home: Option<Seq<char>>,
    system: Option<Seq<char>>,
)
    ensures
        search_paths(true, named, exe_dir, home, system).len() == 1,
        named matches Some(p) ==> search_paths(true, named, exe_dir, home, system)[0]
            == profile::whole(p),
        named is None ==> search_paths(true, named, exe_dir, home, system)[0] == profile::below(
            profile::config_place(true, system),
            "providers.toml"@,
        ),
{
}

/// The configuration is looked for in this order: the file that is named, those
/// beside the program, those in the current folder, those of the user, and those
/// of the system.
pub proof fn configuration_is_looked_for_in_order(
    named: Option<Seq<char>>,
    exe_dir: Option<Seq<char>>,
    home: Seq<char>,
    system: Option<Seq<char>>,
)
    ensures
        ({
            let all = search_paths(false, named, exe_dir, Some(home), system);
            let a = if named is Some { 1int } else { 0int };
            let b = a + if exe_dir is Some { 2int } else { 0int };
            &&& all.len() == b + 4 + if system is Some { 2int } else { 0int }
            &&& named matches Some(p) ==> all[0] == profile::whole(p)
            &&& exe_dir matches Some(d) ==> all[a].base == d && all[a].parts == seq![
                "config.toml"@,
            ] && all[a + 1].base == d && all[a + 1].parts == seq!["nuphus.toml"@]
            &&& all[b] == profile::whole("config.toml"@)
            &&& all[b + 1] == profile::whole("nuphus.toml"@)
            &&& all[b + 2] == profile::whole(home + "/.config/nuphus/config.toml"@)
            &&& all[b + 3] == profile::whole(home + "/.nuphus/config.toml"@)
            &&& system matches Some(d) ==> all[b + 4].base == d && all[b + 4].parts == seq![
                "nuphus"@,
                "providers.toml"@,
            ] && all[b + 5].base == d && all[b + 5].parts == seq!["nuphus"@, "config.toml"@]
        }),
{
    let all = search_paths(false, named, exe_dir, Some(home), system);
    let a = if named is Some { 1int } else { 0int };
    let b = a + if exe_dir is Some { 2int } else { 0int };
    if exe_dir is Some {
        assert(all[a].parts =~= seq!["config.toml"@]);
        assert(all[a + 1].parts =~= seq!["nuphus.toml"@]);
    }
    if system is Some {
        assert(all[b + 4].parts =~= seq!["nuphus"@, "providers.toml"@]);
        assert(all[b + 5].parts =~= seq!["nuphus"@, "config.toml"@]);
    }
}

/// Paths are tried one after the other until one holds a configuration; where
/// none does, the environment is what is left.
pub proof fn paths_are_tried_until_one_loads(paths: int, tried: Seq<Tried>)
    ensures
        (forall|k: int| 0 <= k < tried.len() ==> #[trigger] tried[k] != Tried::Loaded) && tried.len()
            < paths && paths <= usize::MAX ==> load_step(paths, tried) == LoadStep::Try(
            tried.len() as usize,
        ),
        (forall|k: int| 0 <= k < tried.len() ==> #[trigger] tried[k] != Tried::Loaded) && tried.len()
            >= paths ==> load_step(paths, tried) == LoadStep::Environment,
        (exists|k: int| 0 <= k < tried.len() && #[trigger] tried[k] == Tried::Loaded) && tried.len()
            <= usize::MAX ==> load_step(paths, tried) is Done && 0 <= load_step(
            paths,
            tried,
        )->Done_0 < tried.len() && tried[load_step(paths, tried)->Done_0 as int] == Tried::Loaded,
{
    first_configuration_is_loaded(tried);
}

/// What was looked up counts for the configuration that it was looked up in.
pub proof fn other_configurations_start_over(c: TokenCacheModel, other: Option<ConfigIdentityModel>)
    ensures
        c.in_state(c.identity) == c,
        c.in_state(other).identity == other,
        other != c.identity ==> c.in_state(other).entries.len() == 0,
{
}

/// An entry decides on a model of its id, of the named provider where one is
/// named.
pub proof fn entries_decide_on_their_model(e: EntryRow, id: Seq<char>, p: Seq<char>)
    ensures
        decides(e, None, id) <==> e.id == id,
        p.len() > 0 ==> (decides(e, Some(p), id) <==> e.id == id && e.provider == p),
        p.len() == 0 ==> (decides(e, Some(p), id) <==> e.id == id),
{
}

/// Images go to the model that is set for them; else to the main model where it
/// sees; else nowhere.
pub proof fn images_go_to_who_sees_them(r: RegistryModel)
    ensures
        r.vision.len() > 0 ==> vision_with(r) == VisionModel::Capability(r.vision),
        r.vision.len() == 0 && sees(r, r.provider_hint, r.model) ==> vision_with(r)
            == VisionModel::Main,
        r.vision.len() == 0 && !sees(r, r.provider_hint, r.model) ==> vision_with(r)
            == VisionModel::Unavailable,
        (forall|i: int| 0 <= i < r.models.len() ==> !(#[trigger] r.models[i]).supports_vision)
            ==> !sees(r, r.provider_hint, r.model),
        (forall|i: int| 0 <= i < r.models.len() ==> (#[trigger] r.models[i]).id != r.model)
            ==> !sees(r, r.provider_hint, r.model),
{
}

} // verus!
