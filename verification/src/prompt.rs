//! What agents are told before they start: built from fixed texts, the tools
//! at hand, the surroundings, and what the person they work for has set.
use vstd::prelude::*;
use vstd::string::*;

use crate::clock::{local_time, DAY};
use crate::json;
use crate::model;
use crate::model::{copy_opt, same_opt, Plain};
use crate::order;
use crate::order::{sort, stands_before, Ordered};
use crate::prompt_texts::{
    CODE_GENERATION, DEBUG_DIAGNOSE, EXEC_HEAD, FILE_OPERATION, L0_FRAMEWORK, L0_RUNTIME,
    L2_LEADER, LEADER_DUTIES, LEADER_HEAD, LEADER_HOST, LEADER_TRAITS, PROJECT_ANALYSIS,
    RESEARCH_QUERY, SCRIPTING_EXEC, WORKAGENT_L0, WORKAGENT_L2_COMMON,
};
use crate::text;
use crate::text::{
    decimal, eq_ignore_ascii_case, is_blank, join, owned, replace_all, same_text, trim, trim_end,
};

verus! {

/// Who works with whom: how the person is addressed, what the assistant is
/// called, and who it plays.
#[derive(Debug, Clone, PartialEq, Eq)]
pub struct RelationConfig {
    pub user_label: String,
    pub assistant_name: String,
    pub persona: String,
}

/// The content of a [`RelationConfig`].
#[verifier::ext_equal]
pub struct RelationModel {
    pub user_label: Seq<char>,
    pub assistant_name: Seq<char>,
    pub persona: Seq<char>,
}

impl View for RelationConfig {
    type V = RelationModel;

    open spec fn view(&self) -> RelationModel {
        RelationModel {
            user_label: self.user_label@,
            assistant_name: self.assistant_name@,
            persona: self.persona@,
        }
    }
}

impl Plain for RelationConfig {
    fn copied(&self) -> (r: Self) {
        RelationConfig {
            user_label: self.user_label.clone(),
            assistant_name: self.assistant_name.clone(),
            persona: self.persona.clone(),
        }
    }

    fn same(&self, other: &Self) -> (r: bool) {
        same_text(self.user_label.as_str(), other.user_label.as_str())
            && same_text(self.assistant_name.as_str(), other.assistant_name.as_str())
            && same_text(self.persona.as_str(), other.persona.as_str())
    }
}

/// What the leader is told of itself.
#[derive(Debug, Clone, PartialEq, Eq)]
pub struct LeaderContext {
    pub soul: String,
    pub relation: Option<RelationConfig>,
}

/// The content of a [`LeaderContext`].
#[verifier::ext_equal]
pub struct LeaderModel {
    pub soul: Seq<char>,
    pub relation: Option<RelationModel>,
}

impl View for LeaderContext {
    type V = LeaderModel;

    open spec fn view(&self) -> LeaderModel {
        LeaderModel {
            soul: self.soul@,
            relation: model::opt_view(self.relation),
        }
    }
}

impl Plain for LeaderContext {
    fn copied(&self) -> (r: Self) {
        LeaderContext {
            soul: self.soul.clone(),
            relation: copy_opt(&self.relation),
        }
    }

    fn same(&self, other: &Self) -> (r: bool) {
        same_text(self.soul.as_str(), other.soul.as_str())
            && same_opt(&self.relation, &other.relation)
    }
}

/// What kind of task is executed.
#[derive(Debug, Clone, Copy, PartialEq, Eq, Structural)]
pub enum GoalType {
    ProjectAnalysis,
    CodeGeneration,
    DebugDiagnose,
    FileOperation,
    ResearchQuery,
    ScriptingExec,
}

/// Who reads what is said of the surroundings. Only the leader may pass work to
/// agents outside, so only it is told how those report back.
#[derive(Debug, Clone, Copy, PartialEq, Eq, Structural)]
pub enum EnvAudience {
    Leader,
    SubAgent,
}

/// A skill that is installed.
#[derive(Debug, Clone, PartialEq, Eq)]
pub struct SkillInfo {
    pub name: String,
    pub display_name: String,
    pub description: String,
}

/// The content of a [`SkillInfo`].
#[verifier::ext_equal]
pub struct SkillModel {
    pub name: Seq<char>,
    pub display_name: Seq<char>,
    pub description: Seq<char>,
}

impl View for SkillInfo {
    type V = SkillModel;

    open spec fn view(&self) -> SkillModel {
        SkillModel {
            name: self.name@,
            display_name: self.display_name@,
            description: self.description@,
        }
    }
}

impl Plain for SkillInfo {
    fn copied(&self) -> (r: Self) {
        SkillInfo {
            name: self.name.clone(),
            display_name: self.display_name.clone(),
            description: self.description.clone(),
        }
    }

    fn same(&self, other: &Self) -> (r: bool) {
        same_text(self.name.as_str(), other.name.as_str())
            && same_text(self.display_name.as_str(), other.display_name.as_str())
            && same_text(self.description.as_str(), other.description.as_str())
    }
}

/// What stands in a directory of notes.
#[derive(Debug, Clone, PartialEq, Eq)]
pub struct KnowledgeEntry {
    pub path: String,
    pub file_name: String,
    pub extension: Option<String>,
    pub is_file: bool,
}

/// The content of a [`KnowledgeEntry`].
#[verifier::ext_equal]
pub struct KnowledgeEntryModel {
    pub path: Seq<char>,
    pub file_name: Seq<char>,
    pub extension: Option<Seq<char>>,
    pub is_file: bool,
}

impl View for KnowledgeEntry {
    type V = KnowledgeEntryModel;

    open spec fn view(&self) -> KnowledgeEntryModel {
        KnowledgeEntryModel {
            path: self.path@,
            file_name: self.file_name@,
            extension: model::opt_view(self.extension),
            is_file: self.is_file,
        }
    }
}

impl Plain for KnowledgeEntry {
    fn copied(&self) -> (r: Self) {
        KnowledgeEntry {
            path: self.path.clone(),
            file_name: self.file_name.clone(),
            extension: copy_opt(&self.extension),
            is_file: self.is_file,
        }
    }

    fn same(&self, other: &Self) -> (r: bool) {
        same_text(self.path.as_str(), other.path.as_str())
            && same_text(self.file_name.as_str(), other.file_name.as_str())
            && same_opt(&self.extension, &other.extension)
            && self.is_file == other.is_file
    }
}

/// A note that was read; without content where reading it failed.
#[derive(Debug, Clone, PartialEq, Eq)]
pub struct KnowledgeFile {
    pub path: String,
    pub content: Option<String>,
}

/// The content of a [`KnowledgeFile`].
#[verifier::ext_equal]
pub struct KnowledgeFileModel {
    pub path: Seq<char>,
    pub content: Option<Seq<char>>,
}

impl View for KnowledgeFile {
    type V = KnowledgeFileModel;

    open spec fn view(&self) -> KnowledgeFileModel {
        KnowledgeFileModel {
            path: self.path@,
            content: model::opt_view(self.content),
        }
    }
}

impl Plain for KnowledgeFile {
    fn copied(&self) -> (r: Self) {
        KnowledgeFile {
            path: self.path.clone(),
            content: copy_opt(&self.content),
        }
    }

    fn same(&self, other: &Self) -> (r: bool) {
        same_text(self.path.as_str(), other.path.as_str())
            && same_opt(&self.content, &other.content)
    }
}

/// How many tokens a model of a provider can hold.
#[derive(Debug, Clone, PartialEq, Eq)]
pub struct ModelWindow {
    pub model: String,
    pub provider: Option<String>,
    pub tokens: u64,
}

/// The content of a [`ModelWindow`].
#[verifier::ext_equal]
pub struct WindowRow {
    pub model: Seq<char>,
    pub provider: Option<Seq<char>>,
    pub tokens: u64,
}

impl View for ModelWindow {
    type V = WindowRow;

    open spec fn view(&self) -> WindowRow {
        WindowRow {
            model: self.model@,
            provider: model::opt_view(self.provider),
            tokens: self.tokens,
        }
    }
}

impl Plain for ModelWindow {
    fn copied(&self) -> (r: Self) {
        ModelWindow {
            model: self.model.clone(),
            provider: copy_opt(&self.provider),
            tokens: self.tokens,
        }
    }

    fn same(&self, other: &Self) -> (r: bool) {
        same_text(self.model.as_str(), other.model.as_str())
            && same_opt(&self.provider, &other.provider)
            && self.tokens == other.tokens
    }
}

/// The surroundings of the program.
#[derive(Debug, Clone, PartialEq, Eq)]
pub struct EnvFacts {
    pub os: String,
    pub arch: String,
    /// The working directory, where it is known.
    pub cwd: Option<String>,
    /// The directory that was set in the preferences; empty where none was.
    pub project_dir: String,
    pub language: String,
    pub date: String,
    pub root: String,
    /// Whether the documents on the program itself are there.
    pub self_knowledge: bool,
    /// Whether relative paths start at the directory of the preferences.
    pub configured_project_dir: bool,
    /// Whether agents outside can report back.
    pub doorbell_available: bool,
    pub doorbell_port: u16,
    pub doorbell_token: String,
}

/// The content of [`EnvFacts`].
#[verifier::ext_equal]
pub struct EnvModel {
    pub os: Seq<char>,
    pub arch: Seq<char>,
    pub cwd: Option<Seq<char>>,
    pub project_dir: Seq<char>,
    pub language: Seq<char>,
    pub date: Seq<char>,
    pub root: Seq<char>,
    pub self_knowledge: bool,
    pub configured_project_dir: bool,
    pub doorbell_available: bool,
    pub doorbell_port: u16,
    pub doorbell_token: Seq<char>,
}

impl View for EnvFacts {
    type V = EnvModel;

    open spec fn view(&self) -> EnvModel {
        EnvModel {
            os: self.os@,
            arch: self.arch@,
            cwd: model::opt_view(self.cwd),
            project_dir: self.project_dir@,
            language: self.language@,
            date: self.date@,
            root: self.root@,
            self_knowledge: self.self_knowledge,
            configured_project_dir: self.configured_project_dir,
            doorbell_available: self.doorbell_available,
            doorbell_port: self.doorbell_port,
            doorbell_token: self.doorbell_token@,
        }
    }
}

impl Plain for EnvFacts {
    fn copied(&self) -> (r: Self) {
        EnvFacts {
            os: self.os.clone(),
            arch: self.arch.clone(),
            cwd: copy_opt(&self.cwd),
            project_dir: self.project_dir.clone(),
            language: self.language.clone(),
            date: self.date.clone(),
            root: self.root.clone(),
            self_knowledge: self.self_knowledge,
            configured_project_dir: self.configured_project_dir,
            doorbell_available: self.doorbell_available,
            doorbell_port: self.doorbell_port,
            doorbell_token: self.doorbell_token.clone(),
        }
    }

    fn same(&self, other: &Self) -> (r: bool) {
        same_text(self.os.as_str(), other.os.as_str())
            && same_text(self.arch.as_str(), other.arch.as_str())
            && same_opt(&self.cwd, &other.cwd)
            && same_text(self.project_dir.as_str(), other.project_dir.as_str())
            && same_text(self.language.as_str(), other.language.as_str())
            && same_text(self.date.as_str(), other.date.as_str())
            && same_text(self.root.as_str(), other.root.as_str())
            && self.self_knowledge == other.self_knowledge
            && self.configured_project_dir == other.configured_project_dir
            && self.doorbell_available == other.doorbell_available
            && self.doorbell_port == other.doorbell_port
            && same_text(self.doorbell_token.as_str(), other.doorbell_token.as_str())
    }
}

impl Ordered for KnowledgeEntry {
    open spec fn before(a: KnowledgeEntryModel, b: KnowledgeEntryModel) -> bool {
        order::precedes(a.file_name, b.file_name)
    }

    proof fn before_is_an_order(
        a: KnowledgeEntryModel,
        b: KnowledgeEntryModel,
        c: KnowledgeEntryModel,
    ) {
        let (x, y, z) = (a.file_name, b.file_name, c.file_name);
        order::text_order_is_total(x, y);
        order::text_order_is_total(y, z);
        if order::precedes(x, y) && order::precedes(y, z) {
            order::text_order_is_transitive(x, y, z);
        }
        if order::precedes(x, z) && !order::precedes(x, y) && !order::precedes(y, z) {
            if x != y && y != z {
                order::text_order_is_transitive(z, y, x);
                order::text_order_is_total(x, z);
            }
        }
    }

    fn is_before(&self, other: &Self) -> (r: bool) {
        stands_before(self.file_name.as_str(), other.file_name.as_str())
    }
}

/// A text with the two names filled in.
pub open spec fn resolved(t: Seq<char>, user_label: Seq<char>, assistant_name: Seq<char>) -> Seq<
    char,
> {
    text::replaced(
        text::replaced(t, "{user_label}"@, user_label),
        "{assistant_name}"@,
        assistant_name,
    )
}

/// Fills the two names in.
pub fn resolve_placeholders(t: &str, user_label: &str, assistant_name: &str) -> (r: String)
    ensures
        r@ == resolved(t@, user_label@, assistant_name@),
{
    proof {
        reveal_strlit("{user_label}");
        reveal_strlit("{assistant_name}");
    }
    let half = replace_all(t, "{user_label}", user_label);
    replace_all(half.as_str(), "{assistant_name}", assistant_name)
}

/// How the person is addressed.
pub open spec fn label_of(relation: Option<RelationModel>) -> Seq<char> {
    match relation {
        Some(r) => if r.user_label.len() == 0 {
            "用户"@
        } else {
            r.user_label
        },
        None => "用户"@,
    }
}

/// What the assistant is called.
pub open spec fn name_of(relation: Option<RelationModel>) -> Seq<char> {
    match relation {
        Some(r) => if r.assistant_name.len() == 0 {
            "Nuphus"@
        } else {
            r.assistant_name
        },
        None => "Nuphus"@,
    }
}

/// Who the assistant plays.
pub open spec fn persona_of(relation: Option<RelationModel>) -> Seq<char> {
    match relation {
        Some(r) => r.persona,
        None => Seq::empty(),
    }
}

/// How the person is addressed.
fn user_label_of(relation: Option<&RelationConfig>) -> (r: String)
    ensures
        r@ == label_of(model::opt_ref_view(relation)),
{
    match relation {
        Some(r) => if r.user_label.as_str().is_empty() {
            owned("用户")
        } else {
            r.user_label.clone()
        },
        None => owned("用户"),
    }
}

/// What the assistant is called.
fn assistant_name_of(relation: Option<&RelationConfig>) -> (r: String)
    ensures
        r@ == name_of(model::opt_ref_view(relation)),
{
    match relation {
        Some(r) => if r.assistant_name.as_str().is_empty() {
            owned("Nuphus")
        } else {
            r.assistant_name.clone()
        },
        None => owned("Nuphus"),
    }
}

/// Who the assistant plays.
fn persona_text(relation: Option<&RelationConfig>) -> (r: String)
    ensures
        r@ == persona_of(model::opt_ref_view(relation)),
{
    match relation {
        Some(r) => r.persona.clone(),
        None => String::new(),
    }
}

/// The rule on how the person is addressed, where they have a name of their
/// own.
pub open spec fn address_rule(user_label: Seq<char>) -> Seq<char> {
    if user_label != "用户"@ && !text::same_ascii(user_label, "user"@) {
        "\n**称谓规则**：始终以「"@ + user_label
            + "」称呼对方。禁止使用「用户」「the user」替代。\n"@
    } else {
        Seq::empty()
    }
}

/// The rule on how the person is addressed.
fn address_rule_text(user_label: &str) -> (r: String)
    ensures
        r@ == address_rule(user_label@),
{
    if !same_text(user_label, "用户") && !eq_ignore_ascii_case(user_label, "user") {
        let mut out = owned("\n**称谓规则**：始终以「");
        out.append(user_label);
        out.append("」称呼对方。禁止使用「用户」「the user」替代。\n");
        out
    } else {
        String::new()
    }
}

/// What the agent is told of its character, behind an introduction.
pub open spec fn soul_section(intro: Seq<char>, soul: Seq<char>, persona: Seq<char>) -> Seq<char> {
    if text::blank(soul) && persona.len() == 0 {
        Seq::empty()
    } else {
        "\n## Soul\n\n"@ + (if text::blank(soul) {
            Seq::empty()
        } else {
            intro + text::trimmed(soul) + "\n"@
        }) + (if persona.len() == 0 {
            Seq::empty()
        } else {
            "\n**人格设定（Persona）**："@ + persona
        })
    }
}

/// What the agent is told of its character.
fn soul_text(intro: &str, soul: &str, persona: &str) -> (r: String)
    ensures
        r@ == soul_section(intro@, soul@, persona@),
{
    if is_blank(soul) && persona.is_empty() {
        return String::new();
    }
    let mut own = String::new();
    if !is_blank(soul) {
        own = owned(intro);
        let kept = trim(soul);
        own.append(kept.as_str());
        own.append("\n");
    }
    assert(own@ =~= if text::blank(soul@) {
        Seq::empty()
    } else {
        intro@ + text::trimmed(soul@) + "\n"@
    });
    let mut role = String::new();
    if !persona.is_empty() {
        role = owned("\n**人格设定（Persona）**：");
        role.append(persona);
    }
    let mut out = owned("\n## Soul\n\n");
    out.append(own.as_str());
    out.append(role.as_str());
    out
}

/// What the leader is told first.
pub open spec fn leader_base(ctx: LeaderModel) -> Seq<char> {
    let label = label_of(ctx.relation);
    LEADER_HEAD@ + name_of(ctx.relation) + LEADER_HOST@ + label + LEADER_TRAITS@ + address_rule(
        label,
    ) + LEADER_DUTIES@ + L0_FRAMEWORK@ + soul_section(
        Seq::empty(),
        ctx.soul,
        persona_of(ctx.relation),
    ) + "\n"@ + L0_RUNTIME@
}

/// What the leader is told first: who it is, what it is held to and how it
/// works.
pub fn build_leader_base_prompt(ctx: &LeaderContext) -> (r: String)
    ensures
        r@ == leader_base(ctx@),
{
    let relation = ctx.relation.as_ref();
    let label = user_label_of(relation);
    let name = assistant_name_of(relation);
    let rule = address_rule_text(label.as_str());
    let persona = persona_text(relation);
    let soul = soul_text("", ctx.soul.as_str(), persona.as_str());
    proof {
        reveal_strlit("");
        assert(""@ =~= Seq::<char>::empty());
    }
    let mut out = owned(LEADER_HEAD);
    out.append(name.as_str());
    out.append(LEADER_HOST);
    out.append(label.as_str());
    out.append(LEADER_TRAITS);
    out.append(rule.as_str());
    out.append(LEADER_DUTIES);
    out.append(L0_FRAMEWORK);
    out.append(soul.as_str());
    out.append("\n");
    out.append(L0_RUNTIME);
    out
}

/// A skill as it is listed.
pub open spec fn skill_line(s: SkillModel) -> Seq<char> {
    "- `"@ + s.name + "` "@ + (if s.display_name.len() == 0 {
        s.name
    } else {
        s.display_name
    }) + " — "@ + (if s.description.len() == 0 {
        "(无描述)"@
    } else {
        s.description
    })
}

/// The skills as they are listed; nothing where there is none.
pub open spec fn skill_section(skills: Seq<SkillModel>) -> Seq<char> {
    if skills.len() == 0 {
        Seq::empty()
    } else {
        text::joined(
            seq![
                "## 已安装技能\n（使用 `skill_read` 查看完整内容，`skill_query` 搜索知识）\n"@,
            ] + Seq::new(skills.len(), |i: int| skill_line(skills[i])),
            "\n"@,
        )
    }
}

/// A skill as it is listed.
fn skill_line_text(s: &SkillInfo) -> (r: String)
    ensures
        r@ == skill_line(s@),
{
    let mut out = owned("- `");
    out.append(s.name.as_str());
    out.append("` ");
    if s.display_name.as_str().is_empty() {
        out.append(s.name.as_str());
    } else {
        out.append(s.display_name.as_str());
    }
    out.append(" — ");
    if s.description.as_str().is_empty() {
        out.append("(无描述)");
    } else {
        out.append(s.description.as_str());
    }
    out
}

/// The skills as they are listed.
pub fn skill_registry_section(skills: &Vec<SkillInfo>) -> (r: String)
    ensures
        r@ == skill_section(model::seq_view(skills@)),
{
    if skills.len() == 0 {
        return String::new();
    }
    let ghost all = model::seq_view(skills@);
    let mut lines: Vec<String> = Vec::new();
    lines.push(
        owned("## 已安装技能\n（使用 `skill_read` 查看完整内容，`skill_query` 搜索知识）\n"),
    );
    let mut i: usize = 0;
    while i < skills.len()
        invariant
            i <= skills@.len(),
            all == model::seq_view(skills@),
            lines@.len() == i + 1,
            lines@[0]@
                == "## 已安装技能\n（使用 `skill_read` 查看完整内容，`skill_query` 搜索知识）\n"@,
            forall|k: int| 0 <= k < i ==> (#[trigger] lines@[k + 1])@ == skill_line(all[k]),
        decreases skills@.len() - i,
    {
        lines.push(skill_line_text(&skills[i]));
        i = i + 1;
    }
    proof {
        let want = seq![
            "## 已安装技能\n（使用 `skill_read` 查看完整内容，`skill_query` 搜索知识）\n"@,
        ] + Seq::new(all.len(), |i: int| skill_line(all[i]));
        let have = model::seq_view(lines@);
        assert forall|k: int| 0 <= k < have.len() implies have[k] == want[k] by {
            if k > 0 {
                assert(lines@[(k - 1) + 1]@ == skill_line(all[k - 1]));
            }
        }
        assert(have =~= want);
    }
    join(&lines, "\n")
}

/// Whether an entry is a note.
pub open spec fn is_note(e: KnowledgeEntryModel) -> bool {
    e.is_file && (e.extension matches Some(x) && text::same_ascii(x, "md"@))
}

/// The notes among entries.
pub open spec fn notes(entries: Seq<KnowledgeEntryModel>) -> Seq<KnowledgeEntryModel> {
    entries.filter(|e: KnowledgeEntryModel| is_note(e))
}

/// The notes of a directory that are read, by the order of their names.
pub fn knowledge_files(entries: &Vec<KnowledgeEntry>) -> (r: Vec<KnowledgeEntry>)
    ensures
        model::seq_view(r@) == order::sorted::<KnowledgeEntry>(notes(model::seq_view(entries@))),
{
    let ghost all = model::seq_view(entries@);
    let mut kept: Vec<KnowledgeEntry> = Vec::new();
    let mut i: usize = 0;
    proof {
        reveal(Seq::filter);
    }
    assert(model::seq_view(kept@) =~= notes(all.take(0)));
    while i < entries.len()
        invariant
            i <= entries@.len(),
            all == model::seq_view(entries@),
            model::seq_view(kept@) == notes(all.take(i as int)),
        decreases entries@.len() - i,
    {
        let ghost before = kept@;
        let note = entries[i].is_file && match &entries[i].extension {
            Some(x) => eq_ignore_ascii_case(x.as_str(), "md"),
            None => false,
        };
        proof {
            reveal(Seq::filter);
            assert(all.take(i + 1).drop_last() == all.take(i as int));
            assert(all.take(i + 1).last() == entries@[i as int]@);
        }
        if note {
            kept.push(entries[i].copied());
            assert(model::seq_view(kept@) =~= model::seq_view(before).push(all[i as int]));
        }
        i = i + 1;
    }
    assert(all.take(all.len() as int) == all);
    sort(&kept)
}

/// What is said of notes that were read: those that hold something.
pub open spec fn knowledge_parts(files: Seq<KnowledgeFileModel>) -> Seq<Seq<char>>
    decreases files.len(),
{
    if files.len() == 0 {
        Seq::empty()
    } else {
        let rest = knowledge_parts(files.drop_last());
        match files.last().content {
            Some(c) => if text::blank(c) {
                rest
            } else {
                rest.push("--- "@ + files.last().path + " ---\n"@ + text::trimmed_end(c))
            },
            None => rest,
        }
    }
}

/// What is said of notes.
pub open spec fn knowledge_section(files: Seq<KnowledgeFileModel>) -> Seq<char> {
    if knowledge_parts(files).len() == 0 {
        Seq::empty()
    } else {
        "## 知识库\n"@ + text::joined(knowledge_parts(files), "\n\n"@)
    }
}

/// What is said of the notes that an agent was given: each with where it
/// stands. Those that are blank or could not be read are passed over.
pub fn custom_knowledge_section(files: &Vec<KnowledgeFile>) -> (r: String)
    ensures
        r@ == knowledge_section(model::seq_view(files@)),
{
    let ghost all = model::seq_view(files@);
    let mut parts: Vec<String> = Vec::new();
    let mut i: usize = 0;
    assert(model::seq_view(parts@) =~= knowledge_parts(all.take(0)));
    while i < files.len()
        invariant
            i <= files@.len(),
            all == model::seq_view(files@),
            model::seq_view(parts@) == knowledge_parts(all.take(i as int)),
        decreases files@.len() - i,
    {
        let ghost before = parts@;
        proof {
            assert(all.take(i + 1).drop_last() == all.take(i as int));
            assert(all.take(i + 1).last() == files@[i as int]@);
        }
        match &files[i].content {
            Some(content) => {
                if !is_blank(content.as_str()) {
                    let mut part = owned("--- ");
                    part.append(files[i].path.as_str());
                    part.append(" ---\n");
                    let kept = trim_end(content.as_str());
                    part.append(kept.as_str());
                    let ghost p = part@;
                    parts.push(part);
                    assert(model::seq_view(parts@) =~= model::seq_view(before).push(p));
                }
            },
            None => {},
        }
        i = i + 1;
    }
    assert(all.take(all.len() as int) == all);
    if parts.len() == 0 {
        String::new()
    } else {
        let mut out = owned("## 知识库\n");
        let body = join(&parts, "\n\n");
        out.append(body.as_str());
        out
    }
}

/// What is said of the tools.
pub open spec fn tool_section(schemas: Seq<char>) -> Seq<char> {
    "## 可用工具\n调用格式：\n<tool_call>\n{\"name\": \"工具名\", \"arguments\": {\"参数名\": \"参数值\"}}\n</tool_call>\n工具列表（详细参数见 API tools 定义）：\n"@
        + schemas + "\n"@
}

/// What is said of the tools.
pub fn tool_schemas_section(schemas: &str) -> (r: String)
    ensures
        r@ == tool_section(schemas@),
{
    let mut out = owned(
        "## 可用工具\n调用格式：\n<tool_call>\n{\"name\": \"工具名\", \"arguments\": {\"参数名\": \"参数值\"}}\n</tool_call>\n工具列表（详细参数见 API tools 定义）：\n",
    );
    out.append(schemas);
    out.append("\n");
    out
}

/// How many tokens a model is taken to hold where nothing is known of it.
pub const DEFAULT_CONTEXT_WINDOW: u64 = 128_000;

/// A provider, where one is named.
pub open spec fn known_provider(provider: Option<Seq<char>>) -> Option<Seq<char>> {
    match provider {
        Some(p) => if p.len() == 0 {
            None
        } else {
            Some(p)
        },
        None => None,
    }
}

/// The first row on a model of a provider.
pub open spec fn window_row(
    rows: Seq<WindowRow>,
    model: Seq<char>,
    provider: Option<Seq<char>>,
) -> Option<u64>
    decreases rows.len(),
{
    if rows.len() == 0 {
        None
    } else {
        match window_row(rows.drop_last(), model, provider) {
            Some(n) => Some(n),
            None => if rows.last().model == model && rows.last().provider == known_provider(
                provider,
            ) {
                Some(rows.last().tokens)
            } else {
                None
            },
        }
    }
}

/// How many tokens a model of a provider can hold.
pub open spec fn window_of(
    rows: Seq<WindowRow>,
    model: Seq<char>,
    provider: Option<Seq<char>>,
) -> u64 {
    match window_row(rows, model, provider) {
        Some(n) => n,
        None => DEFAULT_CONTEXT_WINDOW,
    }
}

/// Whether a row is on a provider; one with an empty name is unknown.
fn on_provider(row: &ModelWindow, provider: Option<&str>) -> (r: bool)
    ensures
        r == (row@.provider == known_provider(text::opt_str(provider))),
{
    match provider {
        Some(p) => if p.is_empty() {
            row.provider.is_none()
        } else {
            match &row.provider {
                Some(q) => same_text(q.as_str(), p),
                None => false,
            }
        },
        None => row.provider.is_none(),
    }
}

/// How many tokens a model of a provider can hold.
pub fn get_context_window_for(
    windows: &Vec<ModelWindow>,
    model: &str,
    provider: Option<&str>,
) -> (r: u64)
    ensures
        r == window_of(model::seq_view(windows@), model@, text::opt_str(provider)),
{
    let ghost all = model::seq_view(windows@);
    let mut found: Option<u64> = None;
    let mut i: usize = 0;
    while i < windows.len()
        invariant
            i <= windows@.len(),
            all == model::seq_view(windows@),
            found == window_row(all.take(i as int), model@, text::opt_str(provider)),
        decreases windows@.len() - i,
    {
        proof {
            assert(all.take(i + 1).drop_last() == all.take(i as int));
            assert(all.take(i + 1).last() == windows@[i as int]@);
        }
        if found.is_none() && same_text(windows[i].model.as_str(), model) && on_provider(
            &windows[i],
            provider,
        ) {
            found = Some(windows[i].tokens);
        }
        i = i + 1;
    }
    assert(all.take(all.len() as int) == all);
    match found {
        Some(n) => n,
        None => DEFAULT_CONTEXT_WINDOW,
    }
}

/// A number of tokens as it is shown.
pub open spec fn window_text(tokens: u64) -> Seq<char> {
    if tokens >= 1_000_000 {
        text::decimal_text((tokens / 1_000_000) as nat) + "M"@
    } else {
        text::decimal_text((tokens / 1_000) as nat) + "K"@
    }
}

/// A number of tokens as it is shown.
fn shown_window(tokens: u64) -> (r: String)
    ensures
        r@ == window_text(tokens),
{
    if tokens >= 1_000_000 {
        let mut out = decimal(tokens / 1_000_000);
        out.append("M");
        out
    } else {
        let mut out = decimal(tokens / 1_000);
        out.append("K");
        out
    }
}

/// What is said of images: the model sees them, another does, or none.
pub open spec fn image_status(supports_vision: bool, vision_model: Option<Seq<char>>) -> Seq<
    char,
> {
    if supports_vision {
        "主模型支持视觉，用户图片以 image_url 直发"@
    } else {
        match vision_model {
            Some(name) => "图像理解模型: "@ + name
                + "（主模型不支持视觉）\n用户附带图片以本地路径注入：`[📷 用户附带图片，已保存至: <路径>]`\n📌 图片查看规则：需要查看图片内容时，调用 `desktop_vision(image_path=<路径>, prompt=<精准问题>)` 按需分析。\nprompt 必须针对任务目标定向提问（如「识别图中所有文字」「描述按钮布局」「提取表格数据」），\n不要做泛化描述。任务与图片无关时不要调用 vision。"@,
            None => "⚠ 图像理解能力当前不可用：主模型不支持视觉，且未配置图像理解模型。\n用户附带图片只会以本地路径文本形式出现（`[📷 用户附带图片，已保存至: <路径>]`），你无法查看其内容。\n📌 处理规则：遇到附带图片的任务，必须如实告知用户「当前无法识别图像」，并提示其在 设置 → 模型 → 图像音频模型 中配置图像理解模型，或把主模型切换为支持视觉的模型；在任何情况下都不得推测或编造图片内容。"@,
        }
    }
}

/// What is said of images.
fn image_text(supports_vision: bool, vision_model: Option<&str>) -> (r: String)
    ensures
        r@ == image_status(supports_vision, text::opt_str(vision_model)),
{
    if supports_vision {
        return owned("主模型支持视觉，用户图片以 image_url 直发");
    }
    match vision_model {
        Some(name) => {
            let mut out = owned("图像理解模型: ");
            out.append(name);
            out.append(
                "（主模型不支持视觉）\n用户附带图片以本地路径注入：`[📷 用户附带图片，已保存至: <路径>]`\n📌 图片查看规则：需要查看图片内容时，调用 `desktop_vision(image_path=<路径>, prompt=<精准问题>)` 按需分析。\nprompt 必须针对任务目标定向提问（如「识别图中所有文字」「描述按钮布局」「提取表格数据」），\n不要做泛化描述。任务与图片无关时不要调用 vision。",
            );
            out
        },
        None => owned(
            "⚠ 图像理解能力当前不可用：主模型不支持视觉，且未配置图像理解模型。\n用户附带图片只会以本地路径文本形式出现（`[📷 用户附带图片，已保存至: <路径>]`），你无法查看其内容。\n📌 处理规则：遇到附带图片的任务，必须如实告知用户「当前无法识别图像」，并提示其在 设置 → 模型 → 图像音频模型 中配置图像理解模型，或把主模型切换为支持视觉的模型；在任何情况下都不得推测或编造图片内容。",
        ),
    }
}

/// How agents outside report back, as the leader is told.
pub open spec fn doorbell_line(facts: EnvModel, audience: EnvAudience) -> Seq<char> {
    match audience {
        EnvAudience::Leader => if facts.doorbell_available {
            "外部任务门铃: POST http://127.0.0.1:"@ + text::decimal_text(
                facts.doorbell_port as nat,
            ) + "/handoff (Header X-Handoff-Token: "@ + facts.doorbell_token
                + ")——写入外发任务 brief，供外部 Agent 完工上报\n"@
        } else {
            "门铃: 不可用（见日志）\n"@
        },
        EnvAudience::SubAgent => Seq::empty(),
    }
}

/// How agents outside report back.
fn doorbell_text(facts: &EnvFacts, audience: EnvAudience) -> (r: String)
    ensures
        r@ == doorbell_line(facts@, audience),
{
    match audience {
        EnvAudience::Leader => if facts.doorbell_available {
            let mut out = owned("外部任务门铃: POST http://127.0.0.1:");
            let port = decimal(facts.doorbell_port as u64);
            out.append(port.as_str());
            out.append("/handoff (Header X-Handoff-Token: ");
            out.append(facts.doorbell_token.as_str());
            out.append(")——写入外发任务 brief，供外部 Agent 完工上报\n");
            out
        } else {
            owned("门铃: 不可用（见日志）\n")
        },
        EnvAudience::SubAgent => String::new(),
    }
}

/// Where the documents on the program itself stand.
pub open spec fn self_line(facts: EnvModel) -> Seq<char> {
    if facts.self_knowledge {
        "自我认知: "@ + facts.root + "/plugin/knowledge/nuphus-self\n"@
    } else {
        Seq::empty()
    }
}

/// Where the documents on the program itself stand.
fn self_text(facts: &EnvFacts) -> (r: String)
    ensures
        r@ == self_line(facts@),
{
    if facts.self_knowledge {
        let mut out = owned("自我认知: ");
        out.append(facts.root.as_str());
        out.append("/plugin/knowledge/nuphus-self\n");
        out
    } else {
        String::new()
    }
}

/// Where relative paths start.
pub open spec fn path_line(facts: EnvModel) -> Seq<char> {
    if facts.configured_project_dir {
        "相对路径基准: 项目目录（绝对路径不受影响）\n"@
    } else {
        "相对路径基准: 工作目录（未配置项目目录）\n"@
    }
}

/// The working directory.
pub open spec fn cwd_of(facts: EnvModel) -> Seq<char> {
    match facts.cwd {
        Some(d) => d,
        None => "unknown"@,
    }
}

/// The directory of the project: the one that was set, or else the working
/// directory.
pub open spec fn project_dir_of(facts: EnvModel) -> Seq<char> {
    if facts.project_dir.len() > 0 {
        facts.project_dir
    } else {
        cwd_of(facts)
    }
}

/// What is said of the surroundings, up to the name of the model.
pub open spec fn env_head(facts: EnvModel) -> Seq<char> {
    "## 执行环境\n⚠️ 此节内容在会话期间绝对不可变，任何变动都会导致 prompt cache 完全失效\n系统环境: "@
        + facts.os + " "@ + facts.arch
        + "\n技术栈: Tauri v2 + Rust + React 18 + TypeScript\n当前模型: "@
}

/// What is said of the model behind its name.
pub open spec fn model_tail(
    tokens: u64,
    supports_vision: bool,
    vision_model: Option<Seq<char>>,
) -> Seq<char> {
    " (上下文 "@ + window_text(tokens) + "，supports_vision: "@ + json::bool_text(supports_vision)
        + ")\n"@ + image_status(supports_vision, vision_model)
}

/// What is said of the directories and the day.
pub open spec fn place_tail(facts: EnvModel, audience: EnvAudience) -> Seq<char> {
    "\n工作目录: "@ + cwd_of(facts) + "\n项目目录: "@ + project_dir_of(facts) + "\n"@ + path_line(facts)
        + "语言偏好: "@ + facts.language + "\n日期: "@ + facts.date + "\n"@ + doorbell_line(
        facts,
        audience,
    ) + self_line(facts) + "知识库目录: "@ + facts.root + "/plugin/knowledge\n技能目录: "@ + facts.root
        + "/plugin/skills\n工作流目录: "@ + facts.root + "/plugin/workflows"@
}

/// What an agent is told of its surroundings.
pub open spec fn env_section(
    rows: Seq<WindowRow>,
    facts: EnvModel,
    model: Seq<char>,
    provider: Option<Seq<char>>,
    model_display: Option<Seq<char>>,
    supports_vision: bool,
    vision_model: Option<Seq<char>>,
    audience: EnvAudience,
) -> Seq<char> {
    env_head(facts) + (match model_display {
        Some(label) => label,
        None => model,
    }) + model_tail(window_of(rows, model, provider), supports_vision, vision_model) + place_tail(
        facts,
        audience,
    )
}

/// What is said of the model behind its name.
fn model_tail_text(tokens: u64, supports_vision: bool, vision_model: Option<&str>) -> (r: String)
    ensures
        r@ == model_tail(tokens, supports_vision, text::opt_str(vision_model)),
{
    let window = shown_window(tokens);
    let image = image_text(supports_vision, vision_model);
    let mut out = owned(" (上下文 ");
    out.append(window.as_str());
    out.append("，supports_vision: ");
    json::put_bool(&mut out, supports_vision);
    out.append(")\n");
    out.append(image.as_str());
    out
}

/// What is said of the directories and the day.
fn place_tail_text(facts: &EnvFacts, audience: EnvAudience) -> (r: String)
    ensures
        r@ == place_tail(facts@, audience),
{
    let cwd = match &facts.cwd {
        Some(d) => d.clone(),
        None => owned("unknown"),
    };
    let doorbell = doorbell_text(facts, audience);
    let own = self_text(facts);
    let mut out = owned("\n工作目录: ");
    out.append(cwd.as_str());
    out.append("\n项目目录: ");
    if facts.project_dir.as_str().is_empty() {
        out.append(cwd.as_str());
    } else {
        out.append(facts.project_dir.as_str());
    }
    out.append("\n");
    if facts.configured_project_dir {
        out.append("相对路径基准: 项目目录（绝对路径不受影响）\n");
    } else {
        out.append("相对路径基准: 工作目录（未配置项目目录）\n");
    }
    out.append("语言偏好: ");
    out.append(facts.language.as_str());
    out.append("\n日期: ");
    out.append(facts.date.as_str());
    out.append("\n");
    out.append(doorbell.as_str());
    out.append(own.as_str());
    out.append("知识库目录: ");
    out.append(facts.root.as_str());
    out.append("/plugin/knowledge\n技能目录: ");
    out.append(facts.root.as_str());
    out.append("/plugin/skills\n工作流目录: ");
    out.append(facts.root.as_str());
    out.append("/plugin/workflows");
    out
}

/// What an agent is told of its surroundings. `model` is the name by which the
/// model is looked up; `model_display` is the label that is shown in its place.
pub fn env_info_section(
    windows: &Vec<ModelWindow>,
    facts: &EnvFacts,
    model: &str,
    provider: Option<&str>,
    model_display: Option<&str>,
    supports_vision: bool,
    vision_model: Option<&str>,
    audience: EnvAudience,
) -> (r: String)
    ensures
        r@ == env_section(
            model::seq_view(windows@),
            facts@,
            model@,
            text::opt_str(provider),
            text::opt_str(model_display),
            supports_vision,
            text::opt_str(vision_model),
            audience,
        ),
{
    let tokens: u64 = get_context_window_for(windows, model, provider);
    let tail = model_tail_text(tokens, supports_vision, vision_model);
    let place = place_tail_text(facts, audience);
    let mut out = owned(
        "## 执行环境\n⚠️ 此节内容在会话期间绝对不可变，任何变动都会导致 prompt cache 完全失效\n系统环境: ",
    );
    out.append(facts.os.as_str());
    out.append(" ");
    out.append(facts.arch.as_str());
    out.append("\n技术栈: Tauri v2 + Rust + React 18 + TypeScript\n当前模型: ");
    match model_display {
        Some(label) => {
            out.append(label);
        },
        None => {
            out.append(model);
        },
    }
    out.append(tail.as_str());
    out.append(place.as_str());
    out
}

impl EnvFacts {
    /// The same surroundings on the present day.
    pub fn today(self) -> (r: EnvFacts)
        ensures
            r@ == (EnvModel { date: r@.date, ..self@ }),
    {
        EnvFacts { date: local_time(DAY), ..self }
    }
}

/// How the leader decides and dispatches.
pub fn build_l2_leader() -> (r: String)
    ensures
        r@ == L2_LEADER@,
{
    owned(L2_LEADER)
}

/// The tools that only the leader may call.
pub open spec fn blocked_tools() -> Seq<Seq<char>> {
    seq![
        "leader_memory_update"@,
        "planner_create"@,
        "planner_parse"@,
        "planner_list"@,
        "planner_complete"@,
        "task_dispatch"@,
        "memory_stats"@,
        "annotation_add"@,
        "annotation_remove"@,
        "annotation_search"@,
        "tenet_add"@,
    ]
}

/// The tools that only the leader may call.
pub fn exec_blocked_tools() -> (r: Vec<&'static str>)
    ensures
        r@.len() == blocked_tools().len(),
        forall|i: int| 0 <= i < r@.len() ==> (#[trigger] r@[i])@ == blocked_tools()[i],
{
    vec![
        "leader_memory_update",
        "planner_create",
        "planner_parse",
        "planner_list",
        "planner_complete",
        "task_dispatch",
        "memory_stats",
        "annotation_add",
        "annotation_remove",
        "annotation_search",
        "tenet_add",
    ]
}

/// What a task is held to.
pub open spec fn goal_text(goal: GoalType) -> Seq<char> {
    match goal {
        GoalType::ProjectAnalysis => PROJECT_ANALYSIS@,
        GoalType::CodeGeneration => CODE_GENERATION@,
        GoalType::DebugDiagnose => DEBUG_DIAGNOSE@,
        GoalType::FileOperation => FILE_OPERATION@,
        GoalType::ResearchQuery => RESEARCH_QUERY@,
        GoalType::ScriptingExec => SCRIPTING_EXEC@,
    }
}

/// What a task is held to.
pub fn build_l2_exec(goal: GoalType) -> (r: String)
    ensures
        r@ == goal_text(goal),
{
    match goal {
        GoalType::ProjectAnalysis => owned(PROJECT_ANALYSIS),
        GoalType::CodeGeneration => owned(CODE_GENERATION),
        GoalType::DebugDiagnose => owned(DEBUG_DIAGNOSE),
        GoalType::FileOperation => owned(FILE_OPERATION),
        GoalType::ResearchQuery => owned(RESEARCH_QUERY),
        GoalType::ScriptingExec => owned(SCRIPTING_EXEC),
    }
}

/// The principles of the person, as they are stored; none where they could not
/// be read.
pub fn tenets_section(stored: Option<String>) -> (r: String)
    ensures
        r@ == match stored {
            Some(t) => t@,
            None => Seq::empty(),
        },
{
    match stored {
        Some(t) => t,
        None => String::new(),
    }
}

/// What is said of the principles of the person.
pub open spec fn tenets_part(tenets: Seq<char>) -> Seq<Seq<char>> {
    if tenets.len() == 0 {
        Seq::empty()
    } else {
        seq!["## 用户原则\n"@ + tenets]
    }
}

/// Adds what is said of the principles of the person.
fn push_tenets(parts: &mut Vec<String>, tenets: &str)
    ensures
        model::seq_view(final(parts)@) == model::seq_view(old(parts)@) + tenets_part(tenets@),
{
    let ghost before = parts@;
    if !tenets.is_empty() {
        let mut part = owned("## 用户原则\n");
        part.append(tenets);
        let ghost p = part@;
        parts.push(part);
        assert(model::seq_view(parts@) =~= model::seq_view(before) + seq![p]);
    } else {
        assert(model::seq_view(parts@) =~= model::seq_view(before) + Seq::empty());
    }
}

/// What an executing agent is told of itself.
pub open spec fn exec_opening(soul: Seq<char>, relation: Option<RelationModel>) -> Seq<char> {
    EXEC_HEAD@ + L0_FRAMEWORK@ + soul_section(
        "你继承 Nuphus 的核心灵魂设置：\n\n"@,
        soul,
        persona_of(relation),
    ) + "\n"@ + L0_RUNTIME@
}

/// What an executing agent is told.
pub open spec fn exec_prompt(
    env: Seq<char>,
    tool_schemas: Seq<char>,
    goal: GoalType,
    soul: Seq<char>,
    relation: Option<RelationModel>,
    tenets: Seq<char>,
) -> Seq<char> {
    resolved(
        text::joined(
            seq![exec_opening(soul, relation), tool_section(tool_schemas), env] + tenets_part(
                tenets,
            ) + seq![goal_text(goal)],
            "\n"@,
        ),
        label_of(relation),
        name_of(relation),
    )
}

/// What an executing agent is told: who it is, what it is held to, its tools
/// and surroundings, the principles of the person, and what its task is held
/// to.
pub fn build_exec_prompt(
    windows: &Vec<ModelWindow>,
    facts: &EnvFacts,
    model: &str,
    provider: Option<&str>,
    model_display: Option<&str>,
    tool_schemas: &str,
    goal_type: GoalType,
    soul: &str,
    relation: Option<&RelationConfig>,
    supports_vision: bool,
    vision_model: Option<&str>,
    tenets: &str,
) -> (r: String)
    ensures
        r@ == exec_prompt(
            env_section(
                model::seq_view(windows@),
                facts@,
                model@,
                text::opt_str(provider),
                text::opt_str(model_display),
                supports_vision,
                text::opt_str(vision_model),
                EnvAudience::SubAgent,
            ),
            tool_schemas@,
            goal_type,
            soul@,
            model::opt_ref_view(relation),
            tenets@,
        ),
{
    let persona = persona_text(relation);
    let character = soul_text(
        "你继承 Nuphus 的核心灵魂设置：\n\n",
        soul,
        persona.as_str(),
    );
    let mut opening = owned(EXEC_HEAD);
    opening.append(L0_FRAMEWORK);
    opening.append(character.as_str());
    opening.append("\n");
    opening.append(L0_RUNTIME);
    let tools = tool_schemas_section(tool_schemas);
    let env = env_info_section(
        windows,
        facts,
        model,
        provider,
        model_display,
        supports_vision,
        vision_model,
        EnvAudience::SubAgent,
    );
    let goal = build_l2_exec(goal_type);
    let ghost (a, b, c, d) = (opening@, tools@, env@, goal@);
    let mut parts: Vec<String> = Vec::new();
    parts.push(opening);
    parts.push(tools);
    parts.push(env);
    assert(model::seq_view(parts@) =~= seq![a, b, c]);
    push_tenets(&mut parts, tenets);
    let ghost before = parts@;
    parts.push(goal);
    assert(model::seq_view(parts@) =~= seq![a, b, c] + tenets_part(tenets@) + seq![d]) by {
        assert(model::seq_view(parts@) =~= model::seq_view(before) + seq![d]);
    }
    let assembled = join(&parts, "\n");
    let label = user_label_of(relation);
    let name = assistant_name_of(relation);
    resolve_placeholders(assembled.as_str(), label.as_str(), name.as_str())
}

/// Whether a desktop can be read and acted on by the meaning of its parts.
pub open spec fn reads_meaning(names: Seq<Seq<char>>) -> bool {
    names.contains("desktop_semantic_observe"@) && names.contains("desktop_semantic_execute"@)
}

/// How a desktop is approached with the tools at hand.
pub open spec fn desktop_route(names: Seq<Seq<char>>) -> Seq<char> {
    if reads_meaning(names) && names.contains("desktop_agent_step"@) {
        "当前桌面入口：desktop_agent_step。每轮先使用增强判断入口，再按返回结果补充业务文本或接手候选判断。"@
    } else if reads_meaning(names) {
        "当前桌面入口：desktop_semantic_observe → desktop_semantic_execute。由主模型从候选中选择；当前未提供增强判断入口，不要尝试调用。"@
    } else {
        "当前未提供完整桌面语义工具链；跳过语义观察与增强判断调用，按当前实际工具列表选择可用路径。不要循环请求缺失工具。"@
    }
}

/// Whether actions can be replayed with the tools at hand.
pub open spec fn desktop_replay(names: Seq<Seq<char>>) -> Seq<char> {
    if reads_meaning(names) && names.contains("desktop_semantic_action"@) {
        "语义动作可通过候选返回的 workflow_step 保存并重放。"@
    } else {
        "当前未提供语义动作重放，不要在工作流中保存不存在的语义调用。"@
    }
}

/// What is said of the desktop.
pub open spec fn desktop_section(names: Seq<Seq<char>>) -> Seq<char> {
    "## 当前桌面能力\n"@ + desktop_route(names) + "\n"@ + desktop_replay(names)
        + "\nmacOS 辅助功能权限缺失时说明授权入口；返回应用后可重试。不要以无权限为由反复调用或改用同样依赖该权限的输入工具。\n"@
}

/// Whether a tool is registered.
fn has(names: &Vec<String>, name: &str) -> (r: bool)
    ensures
        r == model::seq_view(names@).contains(name@),
{
    let ghost all = model::seq_view(names@);
    let mut i: usize = 0;
    while i < names.len()
        invariant
            i <= names@.len(),
            all == model::seq_view(names@),
            forall|k: int| 0 <= k < i ==> all[k] != name@,
        decreases names@.len() - i,
    {
        assert(all[i as int] == names@[i as int]@);
        if same_text(names[i].as_str(), name) {
            return true;
        }
        i = i + 1;
    }
    false
}

/// What is said of the desktop: by the names of the tools that are registered,
/// not by what their descriptions mention.
pub fn workflow_desktop_capabilities(tool_names: &Vec<String>) -> (r: String)
    ensures
        r@ == desktop_section(model::seq_view(tool_names@)),
{
    let semantics = has(tool_names, "desktop_semantic_observe") && has(
        tool_names,
        "desktop_semantic_execute",
    );
    let mut out = owned("## 当前桌面能力\n");
    if semantics && has(tool_names, "desktop_agent_step") {
        out.append(
            "当前桌面入口：desktop_agent_step。每轮先使用增强判断入口，再按返回结果补充业务文本或接手候选判断。",
        );
    } else if semantics {
        out.append(
            "当前桌面入口：desktop_semantic_observe → desktop_semantic_execute。由主模型从候选中选择；当前未提供增强判断入口，不要尝试调用。",
        );
    } else {
        out.append(
            "当前未提供完整桌面语义工具链；跳过语义观察与增强判断调用，按当前实际工具列表选择可用路径。不要循环请求缺失工具。",
        );
    }
    out.append("\n");
    if semantics && has(tool_names, "desktop_semantic_action") {
        out.append("语义动作可通过候选返回的 workflow_step 保存并重放。");
    } else {
        out.append("当前未提供语义动作重放，不要在工作流中保存不存在的语义调用。");
    }
    out.append(
        "\nmacOS 辅助功能权限缺失时说明授权入口；返回应用后可重试。不要以无权限为由反复调用或改用同样依赖该权限的输入工具。\n",
    );
    out
}

/// What is said of servers of outside tools: that their list could not be read,
/// that there is none, or which there are.
pub open spec fn mcp_section(servers: Option<Seq<Seq<char>>>) -> Seq<char> {
    match servers {
        None => "## MCP 集成\nNuphus 支持 MCP (Model Context Protocol) 连接外部工具。当前无法读取 `plugin/mcp/servers.yaml` 配置。接到第三方软件任务时，先搜索该软件是否有 MCP server，使用 `skill_read mcp-tools` 了解接入方式。\n"@,
        Some(names) => if names.len() == 0 {
            "## MCP 集成\nNuphus 支持 MCP (Model Context Protocol)。当前无已配置的 server。接到第三方软件任务时，先搜索是否存在该软件的 MCP server，配置到 `plugin/mcp/servers.yaml`。使用 `skill_read mcp-tools` 了解接入方式。\n"@
        } else {
            "## MCP 集成\nNuphus 通过 MCP (Model Context Protocol) 连接外部工具。已配置 "@
                + text::decimal_text(names.len()) + " 个 MCP server："@ + text::joined(
                names,
                " / "@,
            ) + "。使用 `skill_read mcp-tools` 查看工具列表。\n"@
        },
    }
}

/// What is said of servers of outside tools.
pub fn mcp_tools_section(servers: Option<&Vec<String>>) -> (r: String)
    ensures
        r@ == mcp_section(
            match servers {
                Some(names) => Some(model::seq_view(names@)),
                None => None,
            },
        ),
{
    match servers {
        None => owned(
            "## MCP 集成\nNuphus 支持 MCP (Model Context Protocol) 连接外部工具。当前无法读取 `plugin/mcp/servers.yaml` 配置。接到第三方软件任务时，先搜索该软件是否有 MCP server，使用 `skill_read mcp-tools` 了解接入方式。\n",
        ),
        Some(names) => {
            if names.len() == 0 {
                return owned(
                    "## MCP 集成\nNuphus 支持 MCP (Model Context Protocol)。当前无已配置的 server。接到第三方软件任务时，先搜索是否存在该软件的 MCP server，配置到 `plugin/mcp/servers.yaml`。使用 `skill_read mcp-tools` 了解接入方式。\n",
                );
            }
            let count = decimal(names.len() as u64);
            let all = join(names, " / ");
            let mut out = owned(
                "## MCP 集成\nNuphus 通过 MCP (Model Context Protocol) 连接外部工具。已配置 ",
            );
            out.append(count.as_str());
            out.append(" 个 MCP server：");
            out.append(all.as_str());
            out.append("。使用 `skill_read mcp-tools` 查看工具列表。\n");
            out
        },
    }
}

/// What the designer of workflows is told of itself.
pub open spec fn work_opening(user_label: Seq<char>, assistant_name: Seq<char>) -> Seq<char> {
    text::replaced(
        resolved(WORKAGENT_L0@, user_label, assistant_name),
        "{address_rule}"@,
        address_rule(user_label),
    )
}

/// What the designer of workflows is told of tools that it cannot call.
pub const BUILTIN_TOOLS: &'static str = "## 内置工具感知\nNuphus 工具页提供 PDF/图像/视频/音频/文档处理能力（不注册为 agent 工具，LLM 不可经 execute_tool 调用；用户经工具页使用），详见 `skill_read tools-internal`\n";

/// What is said of skills, where there are any.
pub open spec fn skill_part(skills: Seq<SkillModel>) -> Seq<Seq<char>> {
    if skill_section(skills).len() == 0 {
        Seq::empty()
    } else {
        seq![skill_section(skills)]
    }
}

/// What the designer of workflows is told.
pub open spec fn work_prompt(
    env: Seq<char>,
    tool_schemas: Seq<char>,
    tool_names: Seq<Seq<char>>,
    user_label: Seq<char>,
    assistant_name: Seq<char>,
    skills: Seq<SkillModel>,
    tenets: Seq<char>,
    servers: Option<Seq<Seq<char>>>,
) -> Seq<char> {
    text::joined(
        seq![
            work_opening(user_label, assistant_name),
            tool_section(tool_schemas),
            desktop_section(tool_names),
            BUILTIN_TOOLS@,
            env,
        ] + skill_part(skills) + tenets_part(tenets) + seq![
            mcp_section(servers),
            WORKAGENT_L2_COMMON@,
        ],
        "\n"@,
    )
}

/// What the designer of workflows is told: who it is and what it is held to,
/// its tools and surroundings, and how it works.
pub fn build_workagent_prompt(
    windows: &Vec<ModelWindow>,
    facts: &EnvFacts,
    model: &str,
    provider: Option<&str>,
    supports_vision: bool,
    tool_schemas: &str,
    tool_names: &Vec<String>,
    user_label: &str,
    assistant_name: &str,
    vision_model: Option<&str>,
    skills: &Vec<SkillInfo>,
    tenets: &str,
    servers: Option<&Vec<String>>,
) -> (r: String)
    ensures
        r@ == work_prompt(
            env_section(
                model::seq_view(windows@),
                facts@,
                model@,
                text::opt_str(provider),
                None,
                supports_vision,
                text::opt_str(vision_model),
                EnvAudience::SubAgent,
            ),
            tool_schemas@,
            model::seq_view(tool_names@),
            user_label@,
            assistant_name@,
            model::seq_view(skills@),
            tenets@,
            match servers {
                Some(names) => Some(model::seq_view(names@)),
                None => None,
            },
        ),
{
    let rule = address_rule_text(user_label);
    let named = resolve_placeholders(WORKAGENT_L0, user_label, assistant_name);
    proof {
        reveal_strlit("{address_rule}");
    }
    let opening = replace_all(named.as_str(), "{address_rule}", rule.as_str());
    let tools = tool_schemas_section(tool_schemas);
    let desktop = workflow_desktop_capabilities(tool_names);
    let builtin = owned(BUILTIN_TOOLS);
    let env = env_info_section(
        windows,
        facts,
        model,
        provider,
        None,
        supports_vision,
        vision_model,
        EnvAudience::SubAgent,
    );
    let listed = skill_registry_section(skills);
    let mcp = mcp_tools_section(servers);
    let ghost (a, b, c, d, e) = (opening@, tools@, desktop@, builtin@, env@);
    let ghost (f, g) = (mcp@, WORKAGENT_L2_COMMON@);
    let mut parts: Vec<String> = Vec::new();
    parts.push(opening);
    parts.push(tools);
    parts.push(desktop);
    parts.push(builtin);
    parts.push(env);
    let ghost first = parts@;
    assert(model::seq_view(first) =~= seq![a, b, c, d, e]);
    let ghost own = skill_part(model::seq_view(skills@));
    if !listed.as_str().is_empty() {
        parts.push(listed);
    }
    assert(model::seq_view(parts@) =~= seq![a, b, c, d, e] + own);
    push_tenets(&mut parts, tenets);
    let ghost before = parts@;
    parts.push(mcp);
    parts.push(owned(WORKAGENT_L2_COMMON));
    assert(model::seq_view(parts@) =~= seq![a, b, c, d, e] + own + tenets_part(tenets@) + seq![
        f,
        g,
    ]) by {
        assert(model::seq_view(parts@) =~= model::seq_view(before) + seq![f, g]);
    }
    join(&parts, "\n")
}

/// An agent below the leader is told nothing of how agents outside report
/// back: what it is told is the same whatever the port and the token are.
pub proof fn sub_agent_learns_no_token(
    rows: Seq<WindowRow>,
    facts: EnvModel,
    other: EnvModel,
    model: Seq<char>,
    provider: Option<Seq<char>>,
    model_display: Option<Seq<char>>,
    supports_vision: bool,
    vision_model: Option<Seq<char>>,
)
    requires
        other == (EnvModel {
            doorbell_available: other.doorbell_available,
            doorbell_port: other.doorbell_port,
            doorbell_token: other.doorbell_token,
            ..facts
        }),
    ensures
        env_section(
            rows,
            facts,
            model,
            provider,
            model_display,
            supports_vision,
            vision_model,
            EnvAudience::SubAgent,
        ) == env_section(
            rows,
            other,
            model,
            provider,
            model_display,
            supports_vision,
            vision_model,
            EnvAudience::SubAgent,
        ),
{
}

/// The label of a model is shown as it stands and decides nothing: what stands
/// before and behind it is the same for every label, and the size of the window
/// is looked up by the name of the model.
pub proof fn label_decides_nothing(
    rows: Seq<WindowRow>,
    facts: EnvModel,
    model: Seq<char>,
    provider: Option<Seq<char>>,
    label: Seq<char>,
    supports_vision: bool,
    vision_model: Option<Seq<char>>,
    audience: EnvAudience,
)
    ensures
        env_section(
            rows,
            facts,
            model,
            provider,
            Some(label),
            supports_vision,
            vision_model,
            audience,
        ) == env_head(facts) + label + (model_tail(
            window_of(rows, model, provider),
            supports_vision,
            vision_model,
        ) + place_tail(facts, audience)),
        env_section(
            rows,
            facts,
            model,
            provider,
            None,
            supports_vision,
            vision_model,
            audience,
        ) == env_section(
            rows,
            facts,
            model,
            provider,
            Some(model),
            supports_vision,
            vision_model,
            audience,
        ),
{
    let tail = model_tail(window_of(rows, model, provider), supports_vision, vision_model);
    let place = place_tail(facts, audience);
    assert(env_head(facts) + label + tail + place =~= env_head(facts) + label + (tail + place));
}

/// What is said of the desktop depends on which tools are registered, not on
/// their order or number.
pub proof fn desktop_follows_the_registered_names(a: Seq<Seq<char>>, b: Seq<Seq<char>>)
    requires
        forall|n: Seq<char>| #[trigger] a.contains(n) == b.contains(n),
    ensures
        desktop_section(a) == desktop_section(b),
{
    assert(a.contains("desktop_semantic_observe"@) == b.contains("desktop_semantic_observe"@));
    assert(a.contains("desktop_semantic_execute"@) == b.contains("desktop_semantic_execute"@));
    assert(a.contains("desktop_agent_step"@) == b.contains("desktop_agent_step"@));
    assert(a.contains("desktop_semantic_action"@) == b.contains("desktop_semantic_action"@));
}

/// Notes are read in the order of their names, and only notes are.
pub proof fn notes_are_read_in_order(entries: Seq<KnowledgeEntryModel>)
    ensures
        order::in_order::<KnowledgeEntry>(order::sorted::<KnowledgeEntry>(notes(entries))),
        order::sorted::<KnowledgeEntry>(notes(entries)).to_multiset() == notes(
            entries,
        ).to_multiset(),
        forall|i: int| 0 <= i < notes(entries).len() ==> is_note(#[trigger] notes(entries)[i]),
{
    order::sorted_is_in_order::<KnowledgeEntry>(notes(entries));
    order::sorted_keeps_all::<KnowledgeEntry>(notes(entries));
    assert forall|i: int| 0 <= i < notes(entries).len() implies is_note(
        #[trigger] notes(entries)[i],
    ) by {
        entries.lemma_filter_pred(|e: KnowledgeEntryModel| is_note(e), i);
    }
}

/// A user and an assistant without a name have the usual ones; those with one keep
/// it.
pub proof fn names_are_kept(r: RelationModel)
    ensures
        label_of(None) == "用户"@,
        name_of(None) == "Nuphus"@,
        persona_of(None).len() == 0,
        r.user_label.len() > 0 ==> label_of(Some(r)) == r.user_label,
        r.user_label.len() == 0 ==> label_of(Some(r)) == "用户"@,
        r.assistant_name.len() > 0 ==> name_of(Some(r)) == r.assistant_name,
        r.assistant_name.len() == 0 ==> name_of(Some(r)) == "Nuphus"@,
        persona_of(Some(r)) == r.persona,
{
}

/// A text without placeholders is left as it is; the user's label and the
/// assistant's name take the place of theirs.
pub proof fn placeholders_are_filled(t: Seq<char>, user_label: Seq<char>, assistant_name: Seq<char>)
    ensures
        !text::has_part(t, "{user_label}"@) && !text::has_part(t, "{assistant_name}"@)
            ==> resolved(t, user_label, assistant_name) == t,
        resolved(t, user_label, assistant_name) == text::replaced(
            text::replaced(t, "{user_label}"@, user_label),
            "{assistant_name}"@,
            assistant_name,
        ),
{
    reveal_strlit("{user_label}");
    reveal_strlit("{assistant_name}");
    if !text::has_part(t, "{user_label}"@) && !text::has_part(t, "{assistant_name}"@) {
        text::replacing_nothing_changes_nothing(t, "{user_label}"@, user_label);
        text::replacing_nothing_changes_nothing(t, "{assistant_name}"@, assistant_name);
    }
}

/// Only a user with a label of their own is to be called by it.
pub proof fn labels_are_used(user_label: Seq<char>)
    ensures
        address_rule(user_label).len() == 0 <==> user_label == "用户"@ || text::same_ascii(
            user_label,
            "user"@,
        ),
        user_label != "用户"@ && !text::same_ascii(user_label, "user"@) ==> text::has_part(
            address_rule(user_label),
            user_label,
        ),
{
    reveal_strlit("\n**称谓规则**：始终以「");
    if user_label != "用户"@ && !text::same_ascii(user_label, "user"@) {
        let a = "\n**称谓规则**：始终以「"@;
        let t = address_rule(user_label);
        let i = a.len() as int;
        assert(t.subrange(i, i + user_label.len()) =~= user_label);
        assert(text::stands_at(t, user_label, i));
    }
}

/// The soul and the persona are told where they are set: the one without the
/// blanks around it, the other as it is; and nothing where neither is.
pub proof fn soul_is_told_where_it_is_set(intro: Seq<char>, soul: Seq<char>, persona: Seq<char>)
    ensures
        text::blank(soul) && persona.len() == 0 ==> soul_section(intro, soul, persona).len() == 0,
        !text::blank(soul) && persona.len() == 0 ==> soul_section(intro, soul, persona)
            == "\n## Soul\n\n"@ + intro + text::trimmed(soul) + "\n"@,
        text::blank(soul) && persona.len() > 0 ==> soul_section(intro, soul, persona)
            == "\n## Soul\n\n"@ + "\n**人格设定（Persona）**："@ + persona,
        !text::blank(soul) && persona.len() > 0 ==> soul_section(intro, soul, persona)
            == "\n## Soul\n\n"@ + intro + text::trimmed(soul) + "\n"@
            + "\n**人格设定（Persona）**："@ + persona,
{
    let h = "\n## Soul\n\n"@;
    let p = "\n**人格设定（Persona）**："@;
    let t = text::trimmed(soul);
    let n = "\n"@;
    assert(h + (intro + t + n) + Seq::<char>::empty() =~= h + intro + t + n);
    assert(h + Seq::<char>::empty() + (p + persona) =~= h + p + persona);
    assert(h + (intro + t + n) + (p + persona) =~= h + intro + t + n + p + persona);
}

/// A skill is listed by its name, what it is called, and what it does; a missing
/// word is filled in. Skills are listed in their order.
pub proof fn skills_are_listed(s: SkillModel, skills: Seq<SkillModel>)
    ensures
        s.display_name.len() > 0 && s.description.len() > 0 ==> skill_line(s) == "- `"@ + s.name
            + "` "@ + s.display_name + " — "@ + s.description,
        s.display_name.len() == 0 && s.description.len() > 0 ==> skill_line(s) == "- `"@ + s.name
            + "` "@ + s.name + " — "@ + s.description,
        s.display_name.len() > 0 && s.description.len() == 0 ==> skill_line(s) == "- `"@ + s.name
            + "` "@ + s.display_name + " — "@ + "(无描述)"@,
        skills.len() == 0 ==> skill_section(skills).len() == 0,
{
}

/// The knowledge of two lists of files stands one after the other; a file that
/// could not be read, or is blank, has none.
pub proof fn knowledge_is_told_file_by_file(
    a: Seq<KnowledgeFileModel>,
    b: Seq<KnowledgeFileModel>,
    f: KnowledgeFileModel,
)
    ensures
        knowledge_parts(a + b) == knowledge_parts(a) + knowledge_parts(b),
        f.content is None ==> knowledge_parts(seq![f]).len() == 0,
        f.content matches Some(c) ==> {
            &&& text::blank(c) ==> knowledge_parts(seq![f]).len() == 0
            &&& !text::blank(c) ==> knowledge_parts(seq![f]) == seq![
                "--- "@ + f.path + " ---\n"@ + text::trimmed_end(c),
            ]
        },
    decreases b.len(),
{
    assert(seq![f].drop_last() =~= Seq::<KnowledgeFileModel>::empty());
    assert(knowledge_parts(seq![f].drop_last()) =~= Seq::<Seq<char>>::empty());
    if b.len() == 0 {
        assert(a + b =~= a);
        assert(knowledge_parts(a) + knowledge_parts(b) =~= knowledge_parts(a));
    } else {
        assert((a + b).last() == b.last());
        assert((a + b).drop_last() =~= a + b.drop_last());
        knowledge_is_told_file_by_file(a, b.drop_last(), f);
        assert(knowledge_parts(a + b) =~= knowledge_parts(a) + knowledge_parts(b));
    }
}

/// A note is a file with a note's ending.
pub proof fn notes_are_known_by_their_ending(e: KnowledgeEntryModel)
    ensures
        is_note(e) <==> e.is_file && e.extension is Some && text::same_ascii(
            e.extension->Some_0,
            "md"@,
        ),
{
}

/// The first row of a model and its provider.
proof fn first_row_is_found(
    rows: Seq<WindowRow>,
    model: Seq<char>,
    provider: Option<Seq<char>>,
    i: int,
)
    ensures
        0 <= i < rows.len() && rows[i].model == model && rows[i].provider == known_provider(
            provider,
        ) && (forall|k: int|
            0 <= k < i ==> (#[trigger] rows[k]).model != model || rows[k].provider
                != known_provider(provider)) ==> window_row(rows, model, provider) == Some(
            rows[i].tokens,
        ),
        (forall|k: int|
            0 <= k < rows.len() ==> (#[trigger] rows[k]).model != model || rows[k].provider
                != known_provider(provider)) ==> window_row(rows, model, provider) is None,
    decreases rows.len(),
{
    if rows.len() > 0 {
        let short = rows.drop_last();
        assert forall|k: int| 0 <= k < short.len() implies #[trigger] short[k] == rows[k] by {}
        first_row_is_found(short, model, provider, i);
        if i == rows.len() - 1 {
            first_row_is_found(short, model, provider, 0);
        }
    }
}

/// The context window of a model is that of its first row, with its provider where
/// one is named; an unknown model has the usual one.
pub proof fn windows_are_found_by_model_and_provider(
    rows: Seq<WindowRow>,
    model: Seq<char>,
    provider: Option<Seq<char>>,
    i: int,
)
    ensures
        0 <= i < rows.len() && rows[i].model == model && rows[i].provider == known_provider(
            provider,
        ) && (forall|k: int|
            0 <= k < i ==> (#[trigger] rows[k]).model != model || rows[k].provider
                != known_provider(provider)) ==> window_of(rows, model, provider) == rows[i].tokens,
        (forall|k: int|
            0 <= k < rows.len() ==> (#[trigger] rows[k]).model != model || rows[k].provider
                != known_provider(provider)) ==> window_of(rows, model, provider) == 128_000,
        known_provider(None) is None,
        provider matches Some(p) ==> (p.len() == 0 ==> known_provider(provider) is None) && (
        p.len() > 0 ==> known_provider(provider) == provider),
{
    first_row_is_found(rows, model, provider, i);
}

/// A window is told in thousands or, from a million on, in millions.
pub proof fn windows_are_told_roundly(tokens: u64)
    ensures
        tokens < 1_000_000 ==> window_text(tokens) == text::decimal_text((tokens / 1000) as nat)
            + "K"@,
        tokens >= 1_000_000 ==> window_text(tokens) == text::decimal_text(
            (tokens / 1_000_000) as nat,
        ) + "M"@,
{
}

/// Where relative paths begin: at the project where one is set, else where the
/// program works.
pub proof fn places_are_told(facts: EnvModel)
    ensures
        facts.cwd matches Some(d) ==> cwd_of(facts) == d,
        facts.cwd is None ==> cwd_of(facts) == "unknown"@,
        facts.project_dir.len() > 0 ==> project_dir_of(facts) == facts.project_dir,
        facts.project_dir.len() == 0 ==> project_dir_of(facts) == cwd_of(facts),
        !facts.self_knowledge ==> self_line(facts).len() == 0,
        facts.self_knowledge ==> text::has_part(self_line(facts), facts.root),
        doorbell_line(facts, EnvAudience::SubAgent).len() == 0,
        facts.doorbell_available ==> text::has_part(
            doorbell_line(facts, EnvAudience::Leader),
            facts.doorbell_token,
        ) && text::has_part(
            doorbell_line(facts, EnvAudience::Leader),
            text::decimal_text(facts.doorbell_port as nat),
        ),
{
    if facts.self_knowledge {
        let a = "自我认知: "@;
        let t = self_line(facts);
        assert(t.subrange(a.len() as int, (a.len() + facts.root.len()) as int) =~= facts.root);
        assert(text::stands_at(t, facts.root, a.len() as int));
    }
    if facts.doorbell_available {
        let t = doorbell_line(facts, EnvAudience::Leader);
        let a = "外部任务门铃: POST http://127.0.0.1:"@;
        let p = text::decimal_text(facts.doorbell_port as nat);
        let b = "/handoff (Header X-Handoff-Token: "@;
        let i = a.len() as int;
        assert(t.subrange(i, i + p.len()) =~= p);
        assert(text::stands_at(t, p, i));
        let j = i + p.len() + b.len();
        assert(t.subrange(j, j + facts.doorbell_token.len()) =~= facts.doorbell_token);
        assert(text::stands_at(t, facts.doorbell_token, j));
    }
}

/// How images are seen: by the main model where it can; else by the model that is
/// set for them, which is named; else not at all.
pub proof fn image_status_is_told(name: Seq<char>, vision_model: Option<Seq<char>>)
    ensures
        image_status(true, vision_model) == image_status(true, None),
        text::has_part(image_status(false, Some(name)), name),
{
    let a = "图像理解模型: "@;
    let t = image_status(false, Some(name));
    assert(t.subrange(a.len() as int, (a.len() + name.len()) as int) =~= name);
    assert(text::stands_at(t, name, a.len() as int));
}

/// The tools that a sub agent may not use.
pub proof fn blocked_tools_are_known(tool: Seq<char>)
    ensures
        tool == "leader_memory_update"@ || tool == "planner_create"@ || tool == "planner_parse"@
            || tool == "planner_list"@ || tool == "planner_complete"@ || tool == "task_dispatch"@
            || tool == "memory_stats"@ || tool == "annotation_add"@ || tool
            == "annotation_remove"@ || tool == "annotation_search"@ || tool == "tenet_add"@
            <==> blocked_tools().contains(tool),
{
    let b = blocked_tools();
    assert(b[0] == "leader_memory_update"@ && b[1] == "planner_create"@ && b[2]
        == "planner_parse"@ && b[3] == "planner_list"@ && b[4] == "planner_complete"@ && b[5]
        == "task_dispatch"@ && b[6] == "memory_stats"@ && b[7] == "annotation_add"@ && b[8]
        == "annotation_remove"@ && b[9] == "annotation_search"@ && b[10] == "tenet_add"@);
    if b.contains(tool) {
        let i = choose|i: int| 0 <= i < b.len() && b[i] == tool;
    }
}

/// Each kind of goal has its own instructions.
pub proof fn goals_have_their_instructions()
    ensures
        goal_text(GoalType::ProjectAnalysis) == PROJECT_ANALYSIS@,
        goal_text(GoalType::CodeGeneration) == CODE_GENERATION@,
        goal_text(GoalType::DebugDiagnose) == DEBUG_DIAGNOSE@,
        goal_text(GoalType::FileOperation) == FILE_OPERATION@,
        goal_text(GoalType::ResearchQuery) == RESEARCH_QUERY@,
        goal_text(GoalType::ScriptingExec) == SCRIPTING_EXEC@,
{
}

/// A sub agent is told, in this order, who it is, its tools, where it works, the
/// user's principles where there are any, and what its goal asks.
pub proof fn sub_agent_is_told_in_order(
    env: Seq<char>,
    tool_schemas: Seq<char>,
    goal: GoalType,
    soul: Seq<char>,
    relation: Option<RelationModel>,
    tenets: Seq<char>,
)
    ensures
        tenets.len() == 0 ==> exec_prompt(env, tool_schemas, goal, soul, relation, tenets)
            == resolved(
            text::joined(
                seq![
                    exec_opening(soul, relation),
                    tool_section(tool_schemas),
                    env,
                    goal_text(goal),
                ],
                "\n"@,
            ),
            label_of(relation),
            name_of(relation),
        ),
        tenets.len() > 0 ==> exec_prompt(env, tool_schemas, goal, soul, relation, tenets)
            == resolved(
            text::joined(
                seq![
                    exec_opening(soul, relation),
                    tool_section(tool_schemas),
                    env,
                    "## 用户原则\n"@ + tenets,
                    goal_text(goal),
                ],
                "\n"@,
            ),
            label_of(relation),
            name_of(relation),
        ),
{
    let a = seq![exec_opening(soul, relation), tool_section(tool_schemas), env];
    if tenets.len() == 0 {
        assert(a + tenets_part(tenets) + seq![goal_text(goal)] =~= seq![
            exec_opening(soul, relation),
            tool_section(tool_schemas),
            env,
            goal_text(goal),
        ]);
    } else {
        assert(a + tenets_part(tenets) + seq![goal_text(goal)] =~= seq![
            exec_opening(soul, relation),
            tool_section(tool_schemas),
            env,
            "## 用户原则\n"@ + tenets,
            goal_text(goal),
        ]);
    }
}

/// What the desktop offers follows from the tools that are there: an enhanced
/// step where it is registered with the others, the semantic tools alone, or
/// neither; and what can be replayed needs the action tool.
pub proof fn desktop_is_told_by_its_tools(a: Seq<Seq<char>>, b: Seq<Seq<char>>)
    ensures
        reads_meaning(a) <==> a.contains("desktop_semantic_observe"@) && a.contains(
            "desktop_semantic_execute"@,
        ),
        reads_meaning(a) == reads_meaning(b) && a.contains("desktop_agent_step"@) == b.contains(
            "desktop_agent_step"@,
        ) ==> desktop_route(a) == desktop_route(b),
        !reads_meaning(a) && !reads_meaning(b) ==> desktop_route(a) == desktop_route(b)
            && desktop_replay(a) == desktop_replay(b),
        reads_meaning(a) && a.contains("desktop_semantic_action"@) ==> desktop_replay(a)
            == "语义动作可通过候选返回的 workflow_step 保存并重放。"@,
        !(reads_meaning(a) && a.contains("desktop_semantic_action"@)) ==> desktop_replay(a)
            == "当前未提供语义动作重放，不要在工作流中保存不存在的语义调用。"@,
        reads_meaning(a) && a.contains("desktop_agent_step"@) ==> text::begins(
            desktop_route(a),
            "当前桌面入口：desktop_agent_step"@,
        ),
        reads_meaning(a) && !a.contains("desktop_agent_step"@) ==> text::begins(
            desktop_route(a),
            "当前桌面入口：desktop_semantic_observe"@,
        ),
{
    reveal_strlit("当前桌面入口：desktop_agent_step");
    reveal_strlit("当前桌面入口：desktop_semantic_observe");
    reveal_strlit(
        "当前桌面入口：desktop_agent_step。每轮先使用增强判断入口，再按返回结果补充业务文本或接手候选判断。",
    );
    reveal_strlit(
        "当前桌面入口：desktop_semantic_observe → desktop_semantic_execute。由主模型从候选中选择；当前未提供增强判断入口，不要尝试调用。",
    );
    let x = "当前桌面入口：desktop_agent_step。每轮先使用增强判断入口，再按返回结果补充业务文本或接手候选判断。"@;
    let y = "当前桌面入口：desktop_semantic_observe → desktop_semantic_execute。由主模型从候选中选择；当前未提供增强判断入口，不要尝试调用。"@;
    let p = "当前桌面入口：desktop_agent_step"@;
    let q = "当前桌面入口：desktop_semantic_observe"@;
    assert(x.take(p.len() as int) =~= p);
    assert(y.take(q.len() as int) =~= q);
}

/// The servers that are set are counted and named.
pub proof fn servers_are_named(names: Seq<Seq<char>>)
    requires
        names.len() > 0,
    ensures
        text::has_part(mcp_section(Some(names)), text::joined(names, " / "@)),
        text::has_part(mcp_section(Some(names)), text::decimal_text(names.len())),
        mcp_section(Some(Seq::empty())) != mcp_section(None),
{
    let a = "## MCP 集成\nNuphus 通过 MCP (Model Context Protocol) 连接外部工具。已配置 "@;
    let n = text::decimal_text(names.len());
    let b = " 个 MCP server："@;
    let j = text::joined(names, " / "@);
    let t = mcp_section(Some(names));
    let i = a.len() as int;
    assert(t.subrange(i, i + n.len()) =~= n);
    assert(text::stands_at(t, n, i));
    let k = i + n.len() + b.len();
    assert(t.subrange(k, k + j.len()) =~= j);
    assert(text::stands_at(t, j, k));
    let none = "## MCP 集成\nNuphus 支持 MCP (Model Context Protocol) 连接外部工具。当前无法读取 `plugin/mcp/servers.yaml` 配置。接到第三方软件任务时，先搜索该软件是否有 MCP server，使用 `skill_read mcp-tools` 了解接入方式。\n"@;
    let zero = "## MCP 集成\nNuphus 支持 MCP (Model Context Protocol)。当前无已配置的 server。接到第三方软件任务时，先搜索是否存在该软件的 MCP server，配置到 `plugin/mcp/servers.yaml`。使用 `skill_read mcp-tools` 了解接入方式。\n"@;
    reveal_strlit(
        "## MCP 集成\nNuphus 支持 MCP (Model Context Protocol) 连接外部工具。当前无法读取 `plugin/mcp/servers.yaml` 配置。接到第三方软件任务时，先搜索该软件是否有 MCP server，使用 `skill_read mcp-tools` 了解接入方式。\n",
    );
    reveal_strlit(
        "## MCP 集成\nNuphus 支持 MCP (Model Context Protocol)。当前无已配置的 server。接到第三方软件任务时，先搜索是否存在该软件的 MCP server，配置到 `plugin/mcp/servers.yaml`。使用 `skill_read mcp-tools` 了解接入方式。\n",
    );
    assert(none[48] != zero[48]);
}

/// The work agent is told, in this order, who it is, its tools, its desktop, the
/// tools of the program, where it works, its skills and the user's principles
/// where there are any, the servers, and its rules.
pub proof fn work_agent_is_told_in_order(
    env: Seq<char>,
    tool_schemas: Seq<char>,
    tool_names: Seq<Seq<char>>,
    user_label: Seq<char>,
    assistant_name: Seq<char>,
    skills: Seq<SkillModel>,
    tenets: Seq<char>,
    servers: Option<Seq<Seq<char>>>,
)
    ensures
        ({
            let told = work_prompt(
                env,
                tool_schemas,
                tool_names,
                user_label,
                assistant_name,
                skills,
                tenets,
                servers,
            );
            let opening = work_opening(user_label, assistant_name);
            let tools = tool_section(tool_schemas);
            let desktop = desktop_section(tool_names);
            let known = skill_section(skills);
            let principles = "## 用户原则\n"@ + tenets;
            &&& known.len() == 0 && tenets.len() == 0 ==> told == text::joined(
                seq![
                    opening,
                    tools,
                    desktop,
                    BUILTIN_TOOLS@,
                    env,
                    mcp_section(servers),
                    WORKAGENT_L2_COMMON@,
                ],
                "\n"@,
            )
            &&& known.len() > 0 && tenets.len() > 0 ==> told == text::joined(
                seq![
                    opening,
                    tools,
                    desktop,
                    BUILTIN_TOOLS@,
                    env,
                    known,
                    principles,
                    mcp_section(servers),
                    WORKAGENT_L2_COMMON@,
                ],
                "\n"@,
            )
        }),
{
    let opening = work_opening(user_label, assistant_name);
    let tools = tool_section(tool_schemas);
    let desktop = desktop_section(tool_names);
    let known = skill_section(skills);
    let principles = "## 用户原则\n"@ + tenets;
    let head = seq![opening, tools, desktop, BUILTIN_TOOLS@, env];
    let tail = seq![mcp_section(servers), WORKAGENT_L2_COMMON@];
    if known.len() == 0 && tenets.len() == 0 {
        assert(head + skill_part(skills) + tenets_part(tenets) + tail =~= seq![
            opening,
            tools,
            desktop,
            BUILTIN_TOOLS@,
            env,
            mcp_section(servers),
            WORKAGENT_L2_COMMON@,
        ]);
    }
    if known.len() > 0 && tenets.len() > 0 {
        assert(head + skill_part(skills) + tenets_part(tenets) + tail =~= seq![
            opening,
            tools,
            desktop,
            BUILTIN_TOOLS@,
            env,
            known,
            principles,
            mcp_section(servers),
            WORKAGENT_L2_COMMON@,
        ]);
    }
}

/// The leader is told, in this order, its name and the user's label, how to call
/// the user, its duties, and its soul.
pub proof fn leader_is_told_in_order(ctx: LeaderModel)
    ensures
        ({
            let label = label_of(ctx.relation);
            let opening = LEADER_HEAD@ + name_of(ctx.relation) + LEADER_HOST@ + label
                + LEADER_TRAITS@ + address_rule(label);
            &&& opening.is_prefix_of(leader_base(ctx))
            &&& leader_base(ctx) == opening + LEADER_DUTIES@ + L0_FRAMEWORK@ + soul_section(
                Seq::empty(),
                ctx.soul,
                persona_of(ctx.relation),
            ) + "\n"@ + L0_RUNTIME@
        }),
{
}

/// Knowledge has a section where there is any, with the parts of the files in it.
pub proof fn knowledge_has_a_section(files: Seq<KnowledgeFileModel>, facts: EnvModel)
    ensures
        knowledge_parts(files).len() == 0 ==> knowledge_section(files).len() == 0,
        knowledge_parts(files).len() > 0 ==> knowledge_section(files) == "## 知识库\n"@
            + text::joined(knowledge_parts(files), "\n\n"@),
        facts.configured_project_dir ==> path_line(facts)
            == "相对路径基准: 项目目录（绝对路径不受影响）\n"@,
        !facts.configured_project_dir ==> path_line(facts)
            == "相对路径基准: 工作目录（未配置项目目录）\n"@,
        tenets_part(Seq::empty()).len() == 0,
{
}

} // verus!
