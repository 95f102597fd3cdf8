//! The model that turns texts into vectors: where it is fetched from, when it
//! is fetched again, and what is said where it cannot be had.
use vstd::prelude::*;
use vstd::string::*;

use crate::clock::{local_time, DAY_AND_TIME};
use crate::model;
use crate::profile;
use crate::profile::{config_name, Place};
use crate::text;
use crate::text::{decimal, owned, same_text};

verus! {

/// What a question is put behind.
pub const BGE_QUERY_PREFIX: &'static str = "为这个句子生成表示以用于检索相关文章：";

/// The weights of the model.
pub const WEIGHTS: &'static str = "pytorch_model.bin";

/// The words of the model.
pub const TOKENIZER: &'static str = "tokenizer.json";

/// The shape of the model.
pub const SHAPE: &'static str = "config.json";

/// How many files the model is.
pub const FILE_COUNT: usize = 3;

/// The name of the model where it is fetched.
pub const HF_MODEL_ID: &'static str = "BAAI/bge-small-zh";

/// Where the model is fetched first.
pub const NEAR_MIRROR: &'static str = "https://hf-mirror.com";

/// Where it is fetched else.
pub const FAR_MIRROR: &'static str = "https://huggingface.co";

/// From how many places the model is fetched.
pub const MIRROR_COUNT: usize = 2;

/// How often one place is tried.
pub const ATTEMPTS: u32 = 3;

/// After how many bytes progress is told of again.
pub const PROGRESS_STEP: u64 = 1024 * 1024;

/// Beyond how many bytes the list of errors is begun anew.
pub const ERROR_LOG_LIMIT: u64 = 1024 * 1024;

/// A file of the model.
pub open spec fn file_name(i: int) -> Seq<char> {
    if i == 0 {
        WEIGHTS@
    } else if i == 1 {
        TOKENIZER@
    } else {
        SHAPE@
    }
}

/// A file of the model.
pub fn model_file(i: usize) -> (r: &'static str)
    requires
        i < FILE_COUNT,
    ensures
        r@ == file_name(i as int),
{
    if i == 0 {
        WEIGHTS
    } else if i == 1 {
        TOKENIZER
    } else {
        SHAPE
    }
}

/// A place where the model is fetched.
pub open spec fn mirror_name(i: int) -> Seq<char> {
    if i == 0 {
        NEAR_MIRROR@
    } else {
        FAR_MIRROR@
    }
}

/// A place where the model is fetched.
pub fn mirror(i: usize) -> (r: &'static str)
    requires
        i < MIRROR_COUNT,
    ensures
        r@ == mirror_name(i as int),
{
    if i == 0 {
        NEAR_MIRROR
    } else {
        FAR_MIRROR
    }
}

/// How large a file is at least; what is smaller is a page that says it could
/// not be had, or a part of it.
pub open spec fn least_size(file: Seq<char>) -> u64 {
    if file == "config.json"@ {
        100
    } else if file == "tokenizer.json"@ {
        102400
    } else if file == "pytorch_model.bin"@ {
        10485760
    } else {
        1
    }
}

/// How large a file is at least.
pub fn min_file_size(file: &str) -> (r: u64)
    ensures
        r == least_size(file@),
{
    if same_text(file, "config.json") {
        100
    } else if same_text(file, "tokenizer.json") {
        102400
    } else if same_text(file, "pytorch_model.bin") {
        10485760
    } else {
        1
    }
}

/// Whether a file of this size is whole; none where there is no file.
pub open spec fn whole_file(file: Seq<char>, size: Option<u64>) -> bool {
    size matches Some(n) && n >= least_size(file)
}

/// Whether a file of this size is whole.
pub fn file_ok(file: &str, size: Option<u64>) -> (r: bool)
    ensures
        r == whole_file(file@, size),
{
    match size {
        Some(n) => n >= min_file_size(file),
        None => false,
    }
}

/// Whether all files of the model are whole.
pub open spec fn all_whole(sizes: Seq<Option<u64>>) -> bool {
    forall|i: int| 0 <= i < FILE_COUNT ==> whole_file(file_name(i), #[trigger] sizes[i])
}

/// Whether all files of the model are whole.
pub fn files_ready(sizes: &Vec<Option<u64>>) -> (r: bool)
    requires
        sizes@.len() == FILE_COUNT,
    ensures
        r == all_whole(sizes@),
{
    let r = file_ok(WEIGHTS, sizes[0]) && file_ok(TOKENIZER, sizes[1]) && file_ok(SHAPE, sizes[2]);
    proof {
        assert(file_name(0) == WEIGHTS@ && file_name(1) == TOKENIZER@ && file_name(2) == SHAPE@);
        if r {
            assert forall|i: int| 0 <= i < FILE_COUNT implies whole_file(
                file_name(i),
                #[trigger] sizes@[i],
            ) by {
                assert(i == 0 || i == 1 || i == 2);
            }
        } else {
            assert(!whole_file(file_name(0), sizes@[0]) || !whole_file(file_name(1), sizes@[1])
                || !whole_file(file_name(2), sizes@[2]));
        }
    }
    r
}

/// Where the files of the model are kept.
pub fn model_dir(workbench: bool, given: Option<String>, data_dir: Option<String>) -> (r: Place)
    ensures
        r@ == match model::opt_view(given) {
            Some(p) => profile::whole(p),
            None => profile::below(
                profile::below(
                    profile::below(
                        profile::whole(profile::first_path(seq![model::opt_view(data_dir)])),
                        if workbench {
                            "nuphus-workbench"@
                        } else {
                            "nuphus"@
                        },
                    ),
                    "models"@,
                ),
                "bge-small-zh"@,
            ),
        },
{
    proof {
        reveal_with_fuel(profile::first_path, 2);
    }
    match given {
        Some(p) => Place::whole(p),
        None => {
            let base = match data_dir {
                Some(p) => p,
                None => owned("."),
            };
            Place::whole(base).join(config_name(workbench)).join("models").join("bge-small-zh")
        },
    }
}

/// Where a file is fetched.
pub open spec fn file_url(mirror: Seq<char>, file: Seq<char>) -> Seq<char> {
    mirror + "/"@ + HF_MODEL_ID@ + "/resolve/main/"@ + file
}

/// What is said of a file that is too small.
pub open spec fn too_small(mirror: Seq<char>, file: Seq<char>, size: u64) -> Seq<char> {
    mirror + ": "@ + file + " 体积异常 ("@ + text::decimal_text(size as nat) + " bytes < 期望至少 "@
        + text::decimal_text(least_size(file) as nat) + " bytes)"@
}

/// What is said where a file could not be had.
pub open spec fn not_had(file: Seq<char>, last: Seq<char>) -> Seq<char> {
    "所有镜像下载 "@ + file + " 均失败: "@ + last
}

/// Where fetching the model stands.
#[derive(Debug, PartialEq, Eq)]
pub enum Download {
    /// It is looked how large a file is.
    Look(usize),
    /// A file is fetched.
    Fetch { file: usize, mirror: usize, attempt: u32 },
    /// All files are there, or what is said where one is not.
    Over(Result<(), String>),
}

/// The content of a [`Download`].
#[verifier::ext_equal]
pub enum DownloadModel {
    Look(int),
    Fetch { file: int, mirror: int, attempt: int },
    Over(Result<(), Seq<char>>),
}

impl View for Download {
    type V = DownloadModel;

    open spec fn view(&self) -> DownloadModel {
        match self {
            Download::Look(f) => DownloadModel::Look(*f as int),
            Download::Fetch { file, mirror, attempt } => DownloadModel::Fetch {
                file: *file as int,
                mirror: *mirror as int,
                attempt: *attempt as int,
            },
            Download::Over(r) => DownloadModel::Over(model::result_view(*r)),
        }
    }
}

/// What happened while the model was fetched.
pub enum DownloadEvent {
    /// How large a file is, where it is there.
    Size(Option<u64>),
    /// How many bytes were fetched, or what is said where that failed.
    Fetched(Result<u64, String>),
}

/// The content of a [`DownloadEvent`].
#[verifier::ext_equal]
pub enum DownloadEventModel {
    Size(Option<u64>),
    Fetched(Result<u64, Seq<char>>),
}

impl View for DownloadEvent {
    type V = DownloadEventModel;

    open spec fn view(&self) -> DownloadEventModel {
        match self {
            DownloadEvent::Size(s) => DownloadEventModel::Size(*s),
            DownloadEvent::Fetched(r) => DownloadEventModel::Fetched(
                match r {
                    Ok(n) => Ok(*n),
                    Err(e) => Err(e@),
                },
            ),
        }
    }
}

impl DownloadModel {
    /// What holds of it.
    pub open spec fn wf(self) -> bool {
        match self {
            DownloadModel::Look(f) => 0 <= f < FILE_COUNT,
            DownloadModel::Fetch { file, mirror, attempt } => 0 <= file < FILE_COUNT && 0 <= mirror
                < MIRROR_COUNT && 0 <= attempt < ATTEMPTS,
            DownloadModel::Over(_) => true,
        }
    }
}

/// The next file, if there is another.
pub open spec fn next_file(f: int) -> DownloadModel {
    if f < FILE_COUNT {
        DownloadModel::Look(f)
    } else {
        DownloadModel::Over(Ok(()))
    }
}

/// The next place, if there is another.
pub open spec fn next_mirror(f: int, mirror: int, said: Seq<char>) -> DownloadModel {
    if mirror + 1 < MIRROR_COUNT {
        DownloadModel::Fetch { file: f, mirror: mirror + 1, attempt: 0 }
    } else {
        DownloadModel::Over(Err(not_had(file_name(f), said)))
    }
}

/// Where fetching the model stands after something happened. A file that is
/// whole is not fetched; one that came too small is fetched elsewhere; after a
/// failure the same place is tried again, a few times.
pub open spec fn downloaded(d: DownloadModel, e: DownloadEventModel) -> DownloadModel {
    match (d, e) {
        (DownloadModel::Look(f), DownloadEventModel::Size(size)) => if whole_file(
            file_name(f),
            size,
        ) {
            next_file(f + 1)
        } else {
            DownloadModel::Fetch { file: f, mirror: 0, attempt: 0 }
        },
        (
            DownloadModel::Fetch { file, mirror, attempt },
            DownloadEventModel::Fetched(Ok(size)),
        ) => if size >= least_size(file_name(file)) {
            next_file(file + 1)
        } else {
            next_mirror(file, mirror, too_small(mirror_name(mirror), file_name(file), size))
        },
        (
            DownloadModel::Fetch { file, mirror, attempt },
            DownloadEventModel::Fetched(Err(m)),
        ) => if attempt + 1 < ATTEMPTS {
            DownloadModel::Fetch { file, mirror, attempt: attempt + 1 }
        } else {
            next_mirror(file, mirror, mirror_name(mirror) + ": "@ + m)
        },
        _ => d,
    }
}

/// What is said of a file that is too small.
fn small_text(mirror: &str, file: &str, size: u64) -> (r: String)
    ensures
        r@ == too_small(mirror@, file@, size),
{
    let had = decimal(size);
    let least = decimal(min_file_size(file));
    let mut out = owned(mirror);
    out.append(": ");
    out.append(file);
    out.append(" 体积异常 (");
    out.append(had.as_str());
    out.append(" bytes < 期望至少 ");
    out.append(least.as_str());
    out.append(" bytes)");
    out
}

/// The next file, if there is another.
fn go_file(f: usize) -> (r: Download)
    requires
        f <= FILE_COUNT,
    ensures
        r@ == next_file(f as int),
        r@.wf(),
{
    if f < FILE_COUNT {
        Download::Look(f)
    } else {
        Download::Over(Ok(()))
    }
}

/// The next place, if there is another.
fn go_mirror(f: usize, mirror: usize, said: &str) -> (r: Download)
    requires
        f < FILE_COUNT,
        mirror < MIRROR_COUNT,
    ensures
        r@ == next_mirror(f as int, mirror as int, said@),
        r@.wf(),
{
    if mirror + 1 < MIRROR_COUNT {
        Download::Fetch { file: f, mirror: mirror + 1, attempt: 0 }
    } else {
        let mut out = owned("所有镜像下载 ");
        out.append(model_file(f));
        out.append(" 均失败: ");
        out.append(said);
        Download::Over(Err(out))
    }
}

/// What is said where fetching the model cannot begin.
pub open spec fn begun(folder: Result<(), Seq<char>>, client: Result<(), Seq<char>>) -> DownloadModel {
    match (folder, client) {
        (Err(e), _) => DownloadModel::Over(Err("创建模型目录失败: "@ + e)),
        (_, Err(e)) => DownloadModel::Over(Err("创建 HTTP 客户端失败: "@ + e)),
        _ => DownloadModel::Look(0),
    }
}

impl Download {
    /// Begins to fetch the model, where the folder and the client are there.
    pub fn download_model(folder: Result<(), String>, client: Result<(), String>) -> (r: Self)
        ensures
            r@ == begun(model::result_view(folder), model::result_view(client)),
            r@.wf(),
    {
        if let Err(e) = folder {
            let mut out = owned("创建模型目录失败: ");
            out.append(e.as_str());
            return Download::Over(Err(out));
        }
        if let Err(e) = client {
            let mut out = owned("创建 HTTP 客户端失败: ");
            out.append(e.as_str());
            return Download::Over(Err(out));
        }
        Download::Look(0)
    }

    /// Where the file is fetched.
    pub fn url(&self) -> (r: Option<String>)
        requires
            self@.wf(),
        ensures
            model::opt_view(r) == match self@ {
                DownloadModel::Fetch { file, mirror, attempt } => Some(
                    file_url(mirror_name(mirror), file_name(file)),
                ),
                _ => None,
            },
    {
        match self {
            Download::Fetch { file, mirror: m, .. } => {
                let mut out = owned(mirror(*m));
                out.append("/");
                out.append(HF_MODEL_ID);
                out.append("/resolve/main/");
                out.append(model_file(*file));
                Some(out)
            },
            _ => None,
        }
    }

    /// How many seconds are waited before: none at first, then one, then two.
    pub fn delay_secs(&self) -> (r: u64)
        requires
            self@.wf(),
        ensures
            r == match self@ {
                DownloadModel::Fetch { attempt, .. } => attempt,
                _ => 0,
            },
    {
        match self {
            Download::Fetch { attempt, .. } => *attempt as u64,
            _ => 0,
        }
    }

    /// Goes on after something happened.
    pub fn advance(self, event: DownloadEvent) -> (r: Self)
        requires
            self@.wf(),
        ensures
            r@ == downloaded(self@, event@),
            r@.wf(),
    {
        match (self, event) {
            (Download::Look(f), DownloadEvent::Size(size)) => if file_ok(model_file(f), size) {
                go_file(f + 1)
            } else {
                Download::Fetch { file: f, mirror: 0, attempt: 0 }
            },
            (Download::Fetch { file, mirror: m, attempt }, DownloadEvent::Fetched(r)) => match r {
                Ok(size) => if size >= min_file_size(model_file(file)) {
                    go_file(file + 1)
                } else {
                    let said = small_text(mirror(m), model_file(file), size);
                    go_mirror(file, m, said.as_str())
                },
                Err(e) => if attempt + 1 < ATTEMPTS {
                    Download::Fetch { file, mirror: m, attempt: attempt + 1 }
                } else {
                    let mut said = owned(mirror(m));
                    said.append(": ");
                    said.append(e.as_str());
                    go_mirror(file, m, said.as_str())
                },
            },
            (d, _) => d,
        }
    }
}

/// How many steps of fetching are left at most.
pub open spec fn fetches_left(d: DownloadModel) -> int {
    match d {
        DownloadModel::Look(f) => (FILE_COUNT - f) * 7,
        DownloadModel::Fetch { file, mirror, attempt } => (FILE_COUNT - file - 1) * 7 + (
        MIRROR_COUNT - mirror) * 3 - attempt,
        DownloadModel::Over(_) => 0,
    }
}

/// Fetching the model ends: whatever happens leads on, or does not answer what
/// was asked for; what is over stays over.
pub proof fn download_is_bounded(d: DownloadModel, e: DownloadEventModel)
    requires
        d.wf(),
    ensures
        downloaded(d, e).wf(),
        downloaded(d, e) == d || 0 <= fetches_left(downloaded(d, e)) < fetches_left(d),
        d is Over ==> downloaded(d, e) == d,
{
}

/// A file that is whole is never fetched again, and one that came too small is
/// never taken.
pub proof fn only_whole_files_are_taken(f: int, mirror: int, attempt: int, size: u64)
    requires
        0 <= f < FILE_COUNT,
    ensures
        size >= least_size(file_name(f)) ==> downloaded(
            DownloadModel::Look(f),
            DownloadEventModel::Size(Some(size)),
        ) == next_file(f + 1),
        size < least_size(file_name(f)) ==> downloaded(
            DownloadModel::Fetch { file: f, mirror, attempt },
            DownloadEventModel::Fetched(Ok(size)),
        ) != next_file(f + 1),
{
}

/// When progress was last told of.
#[derive(Debug, Clone, Copy, PartialEq, Eq, Structural)]
pub struct Progress {
    pub last_emit: u64,
}

impl Progress {
    /// Nothing was told yet.
    pub fn new() -> (r: Self)
        ensures
            r.last_emit == 0,
    {
        Progress { last_emit: 0 }
    }

    /// Whether progress is told of: where all is there, or enough has come
    /// since. What was told of is not told again where a file is begun anew.
    pub fn report(&mut self, downloaded: u64, total: u64) -> (r: bool)
        ensures
            r == (downloaded == total || downloaded - old(self).last_emit >= PROGRESS_STEP),
            final(self).last_emit == if r {
                downloaded
            } else {
                old(self).last_emit
            },
    {
        let step: u64 = PROGRESS_STEP;
        if downloaded == total || (downloaded >= self.last_emit && downloaded - self.last_emit
            >= step) {
            self.last_emit = downloaded;
            true
        } else {
            false
        }
    }
}

/// What is said of an answer that is no success.
pub open spec fn status_text(code: u16, reason: Option<Seq<char>>) -> Option<Seq<char>> {
    if 200 <= code < 300 {
        None
    } else {
        Some(
            "HTTP "@ + text::decimal_text(code as nat) + " "@ + match reason {
                Some(s) => s,
                None => Seq::empty(),
            },
        )
    }
}

/// What is said of an answer that is no success.
pub fn status_failure(code: u16, reason: Option<&str>) -> (r: Option<String>)
    ensures
        model::opt_view(r) == status_text(code, text::opt_str(reason)),
{
    if 200 <= code && code < 300 {
        return None;
    }
    let number = decimal(code as u64);
    let mut out = owned("HTTP ");
    out.append(number.as_str());
    out.append(" ");
    match reason {
        Some(s) => {
            out.append(s);
        },
        None => {
            assert(out@ =~= out@ + Seq::<char>::empty());
        },
    }
    Some(out)
}

/// What is said of a folder that lacks a file of the model; the weights are
/// looked for first.
pub open spec fn missing_text(weights: bool, tokenizer: bool, shape: bool, dir: Seq<char>) -> Option<
    Seq<char>,
> {
    if !weights {
        Some("pytorch_model.bin not found in "@ + dir)
    } else if !tokenizer {
        Some("tokenizer.json not found in "@ + dir)
    } else if !shape {
        Some("config.json not found in "@ + dir)
    } else {
        None
    }
}

/// What is said of a folder that lacks a file of the model.
pub fn missing_file(weights: bool, tokenizer: bool, shape: bool, dir: &str) -> (r: Option<String>)
    ensures
        model::opt_view(r) == missing_text(weights, tokenizer, shape, dir@),
{
    if weights && tokenizer && shape {
        return None;
    }
    let mut out = if !weights {
        owned("pytorch_model.bin not found in ")
    } else if !tokenizer {
        owned("tokenizer.json not found in ")
    } else {
        owned("config.json not found in ")
    };
    out.append(dir);
    Some(out)
}

/// Where making the model ready stands.
#[derive(Debug, PartialEq, Eq)]
pub enum InitPhase {
    /// It is looked whether its files are whole.
    Look,
    /// They are fetched.
    Fetch,
    /// It is loaded.
    Load,
    /// It could not be loaded, with these words; the weights are removed and
    /// fetched again.
    Heal(String),
    /// It is loaded once more.
    Reload,
    /// It is ready, or what is said where it is not.
    Over(Result<(), String>),
}

/// The content of an [`InitPhase`].
#[verifier::ext_equal]
pub enum InitPhaseModel {
    Look,
    Fetch,
    Load,
    Heal(Seq<char>),
    Reload,
    Over(Result<(), Seq<char>>),
}

impl View for InitPhase {
    type V = InitPhaseModel;

    open spec fn view(&self) -> InitPhaseModel {
        match self {
            InitPhase::Look => InitPhaseModel::Look,
            InitPhase::Fetch => InitPhaseModel::Fetch,
            InitPhase::Load => InitPhaseModel::Load,
            InitPhase::Heal(e) => InitPhaseModel::Heal(e@),
            InitPhase::Reload => InitPhaseModel::Reload,
            InitPhase::Over(r) => InitPhaseModel::Over(model::result_view(*r)),
        }
    }
}

/// What happened while the model was made ready.
pub enum InitEvent {
    /// Whether its files are whole.
    Looked(bool),
    /// They were fetched, or what is said where they were not.
    Fetched(Result<(), String>),
    /// It was loaded, or what is said where it was not.
    Loaded(Result<(), String>),
}

/// The content of an [`InitEvent`].
#[verifier::ext_equal]
pub enum InitEventModel {
    Looked(bool),
    Fetched(Result<(), Seq<char>>),
    Loaded(Result<(), Seq<char>>),
}

impl View for InitEvent {
    type V = InitEventModel;

    open spec fn view(&self) -> InitEventModel {
        match self {
            InitEvent::Looked(b) => InitEventModel::Looked(*b),
            InitEvent::Fetched(r) => InitEventModel::Fetched(model::result_view(*r)),
            InitEvent::Loaded(r) => InitEventModel::Loaded(model::result_view(*r)),
        }
    }
}

/// Making the model ready; `healed` says whether the weights were fetched again
/// since the program was started.
#[derive(Debug, PartialEq, Eq)]
pub struct Init {
    pub phase: InitPhase,
    pub healed: bool,
}

/// The content of an [`Init`].
#[verifier::ext_equal]
pub struct InitModel {
    pub phase: InitPhaseModel,
    pub healed: bool,
}

impl View for Init {
    type V = InitModel;

    open spec fn view(&self) -> InitModel {
        InitModel { phase: self.phase@, healed: self.healed }
    }
}

/// Where making the model ready stands after something happened. The weights
/// are removed and fetched again once: a second failure is hardly the file's.
pub open spec fn made_ready(i: InitModel, e: InitEventModel) -> InitModel {
    match (i.phase, e) {
        (InitPhaseModel::Look, InitEventModel::Looked(whole)) => InitModel {
            phase: if whole {
                InitPhaseModel::Load
            } else {
                InitPhaseModel::Fetch
            },
            ..i
        },
        (InitPhaseModel::Fetch, InitEventModel::Fetched(r)) => InitModel {
            phase: match r {
                Ok(_) => InitPhaseModel::Load,
                Err(m) => InitPhaseModel::Over(Err(m)),
            },
            ..i
        },
        (InitPhaseModel::Load, InitEventModel::Loaded(r)) => match r {
            Ok(_) => InitModel { phase: InitPhaseModel::Over(Ok(())), ..i },
            Err(m) => if i.healed {
                InitModel {
                    phase: InitPhaseModel::Over(
                        Err("模型加载失败且毒化自愈已尝试过，不再重下: "@ + m),
                    ),
                    ..i
                }
            } else {
                InitModel { phase: InitPhaseModel::Heal(m), healed: true }
            },
        },
        (InitPhaseModel::Heal(first), InitEventModel::Fetched(r)) => InitModel {
            phase: match r {
                Ok(_) => InitPhaseModel::Reload,
                Err(m) => InitPhaseModel::Over(Err(first + "；重新下载失败: "@ + m)),
            },
            ..i
        },
        (InitPhaseModel::Reload, InitEventModel::Loaded(r)) => InitModel {
            phase: InitPhaseModel::Over(r),
            ..i
        },
        _ => i,
    }
}

impl Init {
    /// Begins to make the model ready.
    pub fn init(healed: bool) -> (r: Self)
        ensures
            r@ == (InitModel { phase: InitPhaseModel::Look, healed }),
    {
        Init { phase: InitPhase::Look, healed }
    }

    /// Goes on after something happened.
    pub fn advance(self, event: InitEvent) -> (r: Self)
        ensures
            r@ == made_ready(self@, event@),
    {
        let healed = self.healed;
        match (self.phase, event) {
            (InitPhase::Look, InitEvent::Looked(whole)) => Init {
                phase: if whole {
                    InitPhase::Load
                } else {
                    InitPhase::Fetch
                },
                healed,
            },
            (InitPhase::Fetch, InitEvent::Fetched(r)) => Init {
                phase: match r {
                    Ok(_) => InitPhase::Load,
                    Err(m) => InitPhase::Over(Err(m)),
                },
                healed,
            },
            (InitPhase::Load, InitEvent::Loaded(r)) => match r {
                Ok(_) => Init { phase: InitPhase::Over(Ok(())), healed },
                Err(m) => if healed {
                    let mut out = owned("模型加载失败且毒化自愈已尝试过，不再重下: ");
                    out.append(m.as_str());
                    Init { phase: InitPhase::Over(Err(out)), healed }
                } else {
                    Init { phase: InitPhase::Heal(m), healed: true }
                },
            },
            (InitPhase::Heal(first), InitEvent::Fetched(r)) => Init {
                phase: match r {
                    Ok(_) => InitPhase::Reload,
                    Err(m) => {
                        let mut out = first;
                        out.append("；重新下载失败: ");
                        out.append(m.as_str());
                        InitPhase::Over(Err(out))
                    },
                },
                healed,
            },
            (InitPhase::Reload, InitEvent::Loaded(r)) => Init { phase: InitPhase::Over(r), healed },
            (phase, _) => Init { phase, healed },
        }
    }
}

/// The weights are fetched again at most once while the program runs, and
/// making the model ready ends.
pub proof fn weights_are_healed_once(i: InitModel, e: InitEventModel)
    ensures
        made_ready(i, e).phase is Heal && !(i.phase is Heal) ==> !i.healed && made_ready(
            i,
            e,
        ).healed,
        i.healed ==> made_ready(i, e).healed,
        made_ready(i, e) == i || 0 <= init_left(made_ready(i, e)) < init_left(i),
{
}

/// How many steps of making the model ready are left at most.
pub open spec fn init_left(i: InitModel) -> int {
    match i.phase {
        InitPhaseModel::Look => 5,
        InitPhaseModel::Fetch => 4,
        InitPhaseModel::Load => 3,
        InitPhaseModel::Heal(_) => 2,
        InitPhaseModel::Reload => 1,
        InitPhaseModel::Over(_) => 0,
    }
}

/// What came of making the model ready.
pub enum Outcome<T> {
    /// It is ready.
    Ready(T),
    /// It is not, with these words.
    Failed(String),
    /// The work broke off.
    Panicked,
}

/// The model that is in use, and whether an error was told of since it last
/// was made ready.
pub struct EmbedderSlot<T> {
    pub loaded: Option<T>,
    pub error_logged: bool,
}

/// What is told of an error at a time.
pub open spec fn error_line(now: Seq<char>, failed: Option<Seq<char>>) -> Seq<char> {
    match failed {
        Some(e) => now + " [Embed] init failed: "@ + e,
        None => now + " [Embed] init panicked in worker thread"@,
    }
}

impl<T> EmbedderSlot<T> {
    /// No model is in use.
    pub fn new() -> (r: Self)
        ensures
            r.loaded is None,
            !r.error_logged,
    {
        EmbedderSlot { loaded: None, error_logged: false }
    }

    /// Whether a model is in use.
    pub fn is_loaded(&self) -> (r: bool)
        ensures
            r == self.loaded is Some,
    {
        self.loaded.is_some()
    }

    /// Takes a model into use, unless one is.
    pub fn preload(&mut self, embedder: T)
        ensures
            final(self).loaded == match old(self).loaded {
                Some(m) => Some(m),
                None => Some(embedder),
            },
            final(self).error_logged == old(self).error_logged,
    {
        if self.loaded.is_none() {
            self.loaded = Some(embedder);
        }
    }

    /// Takes what came of making the model ready at a time: one that is ready
    /// is in use from then on; of errors the first is told of, until a model is
    /// ready.
    pub fn settle_at(&mut self, outcome: Outcome<T>, now: String) -> (r: Option<String>)
        ensures
            match outcome {
                Outcome::Ready(m) => r is None && final(self).loaded == Some(m)
                    && !final(self).error_logged,
                Outcome::Failed(e) => final(self).loaded == old(self).loaded
                    && final(self).error_logged && model::opt_view(r) == if old(self).error_logged {
                    None
                } else {
                    Some(error_line(now@, Some(e@)))
                },
                Outcome::Panicked => final(self).loaded == old(self).loaded
                    && final(self).error_logged && model::opt_view(r) == if old(self).error_logged {
                    None
                } else {
                    Some(error_line(now@, None))
                },
            },
    {
        match outcome {
            Outcome::Ready(m) => {
                self.loaded = Some(m);
                self.error_logged = false;
                None
            },
            Outcome::Failed(e) => {
                let told = self.error_logged;
                self.error_logged = true;
                if told {
                    return None;
                }
                let mut out = now;
                out.append(" [Embed] init failed: ");
                out.append(e.as_str());
                Some(out)
            },
            Outcome::Panicked => {
                let told = self.error_logged;
                self.error_logged = true;
                if told {
                    return None;
                }
                let mut out = now;
                out.append(" [Embed] init panicked in worker thread");
                Some(out)
            },
        }
    }

    /// Takes what came of making the model ready now.
    pub fn settle(&mut self, outcome: Outcome<T>) -> (r: Option<String>)
        ensures
            match outcome {
                Outcome::Ready(m) => r is None && final(self).loaded == Some(m)
                    && !final(self).error_logged,
                Outcome::Failed(e) => final(self).loaded == old(self).loaded
                    && final(self).error_logged && if old(self).error_logged {
                    r is None
                } else {
                    r is Some && exists|now: Seq<char>|
                        r->Some_0@ == #[trigger] error_line(now, Some(e@))
                },
                Outcome::Panicked => final(self).loaded == old(self).loaded
                    && final(self).error_logged && if old(self).error_logged {
                    r is None
                } else {
                    r is Some && exists|now: Seq<char>|
                        r->Some_0@ == #[trigger] error_line(now, None)
                },
            },
    {
        let now = local_time(DAY_AND_TIME);
        self.settle_at(outcome, now)
    }
}

/// Whether the list of errors is begun anew.
pub fn log_is_full(len: Option<u64>) -> (r: bool)
    ensures
        r == (len is Some && len->Some_0 > ERROR_LOG_LIMIT),
{
    match len {
        Some(n) => n > ERROR_LOG_LIMIT,
        None => false,
    }
}

/// What is turned into a vector: a question stands behind a fixed text, a
/// passage alone.
pub fn input_text(t: &str, is_query: bool) -> (r: String)
    ensures
        r@ == if is_query {
            BGE_QUERY_PREFIX@ + t@
        } else {
            t@
        },
{
    if is_query {
        let mut out = owned(BGE_QUERY_PREFIX);
        out.append(t);
        out
    } else {
        owned(t)
    }
}

/// The files of the model and the least size of each.
pub proof fn model_files_have_a_least_size(size: u64)
    ensures
        file_name(0) == "pytorch_model.bin"@ && least_size(file_name(0)) == 10485760,
        file_name(1) == "tokenizer.json"@ && least_size(file_name(1)) == 102400,
        file_name(2) == "config.json"@ && least_size(file_name(2)) == 100,
        whole_file(file_name(0), Some(size)) <==> size >= 10485760,
        whole_file(file_name(1), Some(size)) <==> size >= 102400,
        whole_file(file_name(2), Some(size)) <==> size >= 100,
        !whole_file(file_name(0), None),
        mirror_name(0) == "https://hf-mirror.com"@,
        mirror_name(1) == "https://huggingface.co"@,
{
    reveal_strlit("pytorch_model.bin");
    reveal_strlit("tokenizer.json");
    reveal_strlit("config.json");
    assert("pytorch_model.bin"@.len() == 17);
    assert("tokenizer.json"@.len() == 14);
    assert("config.json"@.len() == 11);
}

/// The model is there where all three of its files are whole.
pub proof fn model_needs_all_its_files(sizes: Seq<Option<u64>>)
    requires
        sizes.len() == 3,
    ensures
        all_whole(sizes) <==> whole_file(file_name(0), sizes[0]) && whole_file(
            file_name(1),
            sizes[1],
        ) && whole_file(file_name(2), sizes[2]),
{
}

/// A file is fetched from its place at the mirror.
pub proof fn files_are_fetched_from_their_place(mirror: Seq<char>, file: Seq<char>)
    ensures
        file_url(mirror, file) == mirror + "/"@ + "BAAI/bge-small-zh"@ + "/resolve/main/"@ + file,
{
}

/// The files are had one after the other. One that is whole is not fetched. A
/// fetch that fails is tried three times at a mirror, then at the next one; a file
/// that came too small goes to the next mirror at once; and where no mirror is
/// left, that is the end.
pub proof fn files_are_had_one_after_the_other(f: int, attempt: int, m: Seq<char>, size: u64, s: Option<u64>)
    ensures
        whole_file(file_name(f), s) && f < 2 ==> downloaded(
            DownloadModel::Look(f),
            DownloadEventModel::Size(s),
        ) == DownloadModel::Look(f + 1),
        whole_file(file_name(2), s) ==> downloaded(
            DownloadModel::Look(2),
            DownloadEventModel::Size(s),
        ) == DownloadModel::Over(Ok(())),
        !whole_file(file_name(f), s) ==> downloaded(
            DownloadModel::Look(f),
            DownloadEventModel::Size(s),
        ) == (DownloadModel::Fetch { file: f, mirror: 0, attempt: 0 }),
        attempt < 2 ==> downloaded(
            DownloadModel::Fetch { file: f, mirror: 0, attempt },
            DownloadEventModel::Fetched(Err(m)),
        ) == (DownloadModel::Fetch { file: f, mirror: 0, attempt: attempt + 1 }),
        downloaded(
            DownloadModel::Fetch { file: f, mirror: 0, attempt: 2 },
            DownloadEventModel::Fetched(Err(m)),
        ) == (DownloadModel::Fetch { file: f, mirror: 1, attempt: 0 }),
        attempt < 2 ==> downloaded(
            DownloadModel::Fetch { file: f, mirror: 1, attempt },
            DownloadEventModel::Fetched(Err(m)),
        ) == (DownloadModel::Fetch { file: f, mirror: 1, attempt: attempt + 1 }),
        downloaded(
            DownloadModel::Fetch { file: f, mirror: 1, attempt: 2 },
            DownloadEventModel::Fetched(Err(m)),
        ) == DownloadModel::Over(Err(not_had(file_name(f), mirror_name(1) + ": "@ + m))),
        size < least_size(file_name(f)) ==> downloaded(
            DownloadModel::Fetch { file: f, mirror: 0, attempt },
            DownloadEventModel::Fetched(Ok(size)),
        ) == (DownloadModel::Fetch { file: f, mirror: 1, attempt: 0 }),
        size < least_size(file_name(f)) ==> downloaded(
            DownloadModel::Fetch { file: f, mirror: 1, attempt },
            DownloadEventModel::Fetched(Ok(size)),
        ) == DownloadModel::Over(
            Err(not_had(file_name(f), too_small(mirror_name(1), file_name(f), size))),
        ),
        size >= least_size(file_name(f)) && f < 2 ==> downloaded(
            DownloadModel::Fetch { file: f, mirror: 0, attempt },
            DownloadEventModel::Fetched(Ok(size)),
        ) == DownloadModel::Look(f + 1),
        size >= least_size(file_name(2)) ==> downloaded(
            DownloadModel::Fetch { file: 2, mirror: 1, attempt },
            DownloadEventModel::Fetched(Ok(size)),
        ) == DownloadModel::Over(Ok(())),
{
}

/// Downloading begins where the folder and the client could be made, and fails
/// with the first of the two that could not.
pub proof fn download_needs_a_folder_and_a_client(
    folder: Result<(), Seq<char>>,
    client: Result<(), Seq<char>>,
)
    ensures
        folder is Ok && client is Ok ==> begun(folder, client) == DownloadModel::Look(0),
        folder is Err || client is Err ==> begun(folder, client) is Over && begun(
            folder,
            client,
        )->Over_0 is Err,
        folder matches Err(e) ==> begun(folder, client) == DownloadModel::Over(
            Err("创建模型目录失败: "@ + e),
        ),
{
}

/// An answer counts where its code says success.
pub proof fn answers_count_by_their_code(code: u16, reason: Option<Seq<char>>)
    ensures
        status_text(code, reason) is None <==> 200 <= code <= 299,
{
}

/// The first file that is missing is told, and none where all are there.
pub proof fn missing_files_are_told(weights: bool, tokenizer: bool, shape: bool, dir: Seq<char>)
    ensures
        missing_text(weights, tokenizer, shape, dir) is None <==> weights && tokenizer && shape,
        !weights ==> missing_text(weights, tokenizer, shape, dir) == Some(
            "pytorch_model.bin not found in "@ + dir,
        ),
        weights && !tokenizer ==> missing_text(weights, tokenizer, shape, dir) == Some(
            "tokenizer.json not found in "@ + dir,
        ),
        weights && tokenizer && !shape ==> missing_text(weights, tokenizer, shape, dir) == Some(
            "config.json not found in "@ + dir,
        ),
{
}

/// The model is loaded from files that are whole, fetched where they are not. A
/// model that does not load is fetched anew once and loaded again; one that was
/// fetched anew before is given up, and so is one that cannot be fetched.
pub proof fn model_is_made_ready(healed: bool, m: Seq<char>, first: Seq<char>, r: Result<(), Seq<char>>)
    ensures
        made_ready(
            InitModel { phase: InitPhaseModel::Look, healed },
            InitEventModel::Looked(true),
        ) == (InitModel { phase: InitPhaseModel::Load, healed }),
        made_ready(
            InitModel { phase: InitPhaseModel::Look, healed },
            InitEventModel::Looked(false),
        ) == (InitModel { phase: InitPhaseModel::Fetch, healed }),
        made_ready(
            InitModel { phase: InitPhaseModel::Fetch, healed },
            InitEventModel::Fetched(Ok(())),
        ) == (InitModel { phase: InitPhaseModel::Load, healed }),
        made_ready(
            InitModel { phase: InitPhaseModel::Fetch, healed },
            InitEventModel::Fetched(Err(m)),
        ) == (InitModel { phase: InitPhaseModel::Over(Err(m)), healed }),
        made_ready(
            InitModel { phase: InitPhaseModel::Load, healed },
            InitEventModel::Loaded(Ok(())),
        ) == (InitModel { phase: InitPhaseModel::Over(Ok(())), healed }),
        made_ready(
            InitModel { phase: InitPhaseModel::Load, healed: false },
            InitEventModel::Loaded(Err(m)),
        ) == (InitModel { phase: InitPhaseModel::Heal(m), healed: true }),
        made_ready(
            InitModel { phase: InitPhaseModel::Load, healed: true },
            InitEventModel::Loaded(Err(m)),
        ).phase is Over,
        made_ready(
            InitModel { phase: InitPhaseModel::Load, healed: true },
            InitEventModel::Loaded(Err(m)),
        ).phase->Over_0 is Err,
        made_ready(
            InitModel { phase: InitPhaseModel::Heal(first), healed },
            InitEventModel::Fetched(Ok(())),
        ) == (InitModel { phase: InitPhaseModel::Reload, healed }),
        made_ready(
            InitModel { phase: InitPhaseModel::Heal(first), healed },
            InitEventModel::Fetched(Err(m)),
        ) == (InitModel {
            phase: InitPhaseModel::Over(Err(first + "；重新下载失败: "@ + m)),
            healed,
        }),
        made_ready(
            InitModel { phase: InitPhaseModel::Reload, healed },
            InitEventModel::Loaded(r),
        ) == (InitModel { phase: InitPhaseModel::Over(r), healed }),
{
}

} // verus!
