//! The database: its tables, how an older one is brought up to date, and the
//! connections to it.
use vstd::prelude::*;
use vstd::string::*;

use crate::error::{StoreError, StoreErrorModel};
use crate::model;
use crate::profile;
use crate::profile::{workbench_data_dir, Place};
use crate::text::owned;

verus! {

/// How many connections there are.
pub const POOL_SIZE: usize = 4;

/// What each connection is told first.
pub const PRAGMAS: &'static str = "PRAGMA journal_mode=WAL; PRAGMA busy_timeout=5000;";

/// What was done and said, entry by entry.
pub const MEMORY_TABLE: &'static str = "
        CREATE TABLE IF NOT EXISTS memory_entries (
            id              TEXT PRIMARY KEY,
            session_id      TEXT NOT NULL,
            turn_id         TEXT NOT NULL,
            sequence        INTEGER NOT NULL DEFAULT 0,
            created_at      TEXT NOT NULL,
            wall_clock_ms   INTEGER NOT NULL,
            agent_type      TEXT NOT NULL,
            kind            TEXT NOT NULL CHECK(kind IN ('conversation','task_trace','distill','pattern','snapshot')),
            task_chain_id   TEXT,
            chain_step      INTEGER,
            goal_type       TEXT CHECK(goal_type IS NULL OR goal_type IN ('project_analysis','code_generation','debug_diagnose','file_operation','research_query','scripting_exec','general','session_refine','memory_snapshot','workflow_memory_snapshot','workflow_turn')),
            tags            TEXT DEFAULT '',
            intent          TEXT NOT NULL,
            summary         TEXT DEFAULT '',
            user_message    TEXT DEFAULT '',
            assistant_message TEXT DEFAULT '',
            tools_used      TEXT DEFAULT '',
            success         INTEGER NOT NULL DEFAULT 0,
            output          TEXT,
            artifacts       TEXT DEFAULT '',
            is_marked       INTEGER NOT NULL DEFAULT 0,
            execution_steps TEXT DEFAULT '[]',
            parent_id       TEXT,
            children_ids    TEXT DEFAULT '',
            pattern         TEXT,
            custom_agent_id TEXT
        );
    ";

/// By what the entries are found.
pub const MEMORY_INDEXES: &'static str = "
        CREATE INDEX IF NOT EXISTS idx_memory_session ON memory_entries(session_id);
        CREATE INDEX IF NOT EXISTS idx_memory_kind ON memory_entries(kind);
        CREATE INDEX IF NOT EXISTS idx_memory_goal_type ON memory_entries(goal_type);
        CREATE INDEX IF NOT EXISTS idx_memory_created_at ON memory_entries(created_at);
        CREATE INDEX IF NOT EXISTS idx_memory_custom_agent ON memory_entries(custom_agent_id);
    ";

/// The words of the entries.
pub const MEMORY_SEARCH: &'static str = "
        CREATE VIRTUAL TABLE IF NOT EXISTS memory_fts_v4 USING fts5(
            id UNINDEXED,
            kind,
            intent,
            summary,
            tags,
            pattern,
            output,
            tokenize='unicode61'
        );
    ";

/// The conversations.
pub const SESSION_TABLE: &'static str = "
        CREATE TABLE IF NOT EXISTS sessions (
            id              TEXT PRIMARY KEY,
            parent_id       TEXT,
            depth           INTEGER NOT NULL DEFAULT 0,
            created_at      TEXT NOT NULL,
            updated_at      TEXT NOT NULL,
            message_count   INTEGER NOT NULL DEFAULT 0,
            token_count     INTEGER NOT NULL DEFAULT 0,
            summary         TEXT DEFAULT '',
            mode            TEXT NOT NULL DEFAULT 'leader',
            snapshot        TEXT
        );
    ";

/// The entries as vectors.
pub const EMBEDDING_TABLE: &'static str = "
        CREATE TABLE IF NOT EXISTS memory_embeddings (
            id          TEXT PRIMARY KEY,
            embedding   BLOB NOT NULL
        );
    ";

/// To which project a conversation belongs.
pub const META_TABLE: &'static str = "
        CREATE TABLE IF NOT EXISTS session_meta (
            session_id      TEXT PRIMARY KEY,
            project_tag     TEXT NOT NULL,
            project_path    TEXT,
            created_at      TEXT NOT NULL
        );
    ";

/// A step of bringing the database up to date.
#[derive(Debug, Clone, Copy)]
pub enum SchemaStep {
    /// Statements that change nothing where they were run before.
    Batch(&'static str),
    /// A column that older tables lack.
    Column { table: &'static str, column: &'static str, col_type: &'static str },
}

/// The content of a [`SchemaStep`].
#[verifier::ext_equal]
pub enum StepModel {
    Batch(Seq<char>),
    Column { table: Seq<char>, column: Seq<char>, col_type: Seq<char> },
}

impl View for SchemaStep {
    type V = StepModel;

    open spec fn view(&self) -> StepModel {
        match self {
            SchemaStep::Batch(s) => StepModel::Batch(s@),
            SchemaStep::Column { table, column, col_type } => StepModel::Column {
                table: table@,
                column: column@,
                col_type: col_type@,
            },
        }
    }
}

/// How the database is brought up to date, step by step.
pub open spec fn schema_steps() -> Seq<StepModel> {
    seq![
        StepModel::Batch(MEMORY_TABLE@),
        StepModel::Column {
            table: "memory_entries"@,
            column: "custom_agent_id"@,
            col_type: "TEXT"@,
        },
        StepModel::Batch(MEMORY_INDEXES@),
        StepModel::Batch(MEMORY_SEARCH@),
        StepModel::Batch(SESSION_TABLE@),
        StepModel::Batch(EMBEDDING_TABLE@),
        StepModel::Column {
            table: "sessions"@,
            column: "mode"@,
            col_type: "TEXT NOT NULL DEFAULT 'leader'"@,
        },
        StepModel::Column { table: "sessions"@, column: "snapshot"@, col_type: "TEXT"@ },
        StepModel::Batch(META_TABLE@),
        StepModel::Column { table: "session_meta"@, column: "project_path"@, col_type: "TEXT"@ },
    ]
}

/// How the database is brought up to date, step by step.
pub fn schema() -> (r: Vec<SchemaStep>)
    ensures
        model::seq_view(r@) == schema_steps(),
{
    let r: Vec<SchemaStep> = vec![
        SchemaStep::Batch(MEMORY_TABLE),
        SchemaStep::Column {
            table: "memory_entries",
            column: "custom_agent_id",
            col_type: "TEXT",
        },
        SchemaStep::Batch(MEMORY_INDEXES),
        SchemaStep::Batch(MEMORY_SEARCH),
        SchemaStep::Batch(SESSION_TABLE),
        SchemaStep::Batch(EMBEDDING_TABLE),
        SchemaStep::Column {
            table: "sessions",
            column: "mode",
            col_type: "TEXT NOT NULL DEFAULT 'leader'",
        },
        SchemaStep::Column { table: "sessions", column: "snapshot", col_type: "TEXT" },
        SchemaStep::Batch(META_TABLE),
        SchemaStep::Column { table: "session_meta", column: "project_path", col_type: "TEXT" },
    ];
    assert(model::seq_view(r@) =~= schema_steps());
    r
}

/// What asks whether a table has a column.
pub open spec fn column_query(table: Seq<char>, column: Seq<char>) -> Seq<char> {
    "SELECT COUNT(*) > 0 FROM pragma_table_info('"@ + table + "') WHERE name = '"@ + column + "'"@
}

/// What gives a table a column.
pub open spec fn column_change(table: Seq<char>, column: Seq<char>, col_type: Seq<char>) -> Seq<
    char,
> {
    "ALTER TABLE "@ + table + " ADD COLUMN "@ + column + " "@ + col_type
}

/// Where bringing the database up to date stands.
#[derive(Debug, PartialEq, Eq)]
pub enum Migration {
    /// The statements of a step are run.
    Run(usize),
    /// It is asked whether the column of a step is there.
    Check(usize),
    /// The column of a step is added.
    Add(usize),
    /// Adding it failed; it is asked whether another connection did.
    Recheck(usize, String),
    /// All is done, or what is said where it is not.
    Over(Result<(), String>),
}

/// The content of a [`Migration`].
#[verifier::ext_equal]
pub enum MigrationModel {
    Run(int),
    Check(int),
    Add(int),
    Recheck(int, Seq<char>),
    Over(Result<(), Seq<char>>),
}

impl View for Migration {
    type V = MigrationModel;

    open spec fn view(&self) -> MigrationModel {
        match self {
            Migration::Run(i) => MigrationModel::Run(*i as int),
            Migration::Check(i) => MigrationModel::Check(*i as int),
            Migration::Add(i) => MigrationModel::Add(*i as int),
            Migration::Recheck(i, e) => MigrationModel::Recheck(*i as int, e@),
            Migration::Over(r) => MigrationModel::Over(model::result_view(*r)),
        }
    }
}

/// What the database said.
pub enum Reply {
    /// It was done.
    Done,
    /// Whether the column is there.
    There(bool),
    /// It failed.
    Failed(String),
}

/// The content of a [`Reply`].
#[verifier::ext_equal]
pub enum ReplyModel {
    Done,
    There(bool),
    Failed(Seq<char>),
}

impl View for Reply {
    type V = ReplyModel;

    open spec fn view(&self) -> ReplyModel {
        match self {
            Reply::Done => ReplyModel::Done,
            Reply::There(b) => ReplyModel::There(*b),
            Reply::Failed(e) => ReplyModel::Failed(e@),
        }
    }
}

/// The start of a step; behind the last one all is done.
pub open spec fn step_begun(i: int) -> MigrationModel {
    if 0 <= i < schema_steps().len() {
        match schema_steps()[i] {
            StepModel::Batch(_) => MigrationModel::Run(i),
            StepModel::Column { .. } => MigrationModel::Check(i),
        }
    } else {
        MigrationModel::Over(Ok(()))
    }
}

/// Where bringing the database up to date stands after a reply. A column is
/// added only where it is not there; where adding it fails, it may have been
/// added meanwhile.
pub open spec fn migrated(m: MigrationModel, reply: ReplyModel) -> MigrationModel {
    match (m, reply) {
        (MigrationModel::Run(i), ReplyModel::Done) => step_begun(i + 1),
        (MigrationModel::Run(i), ReplyModel::Failed(e)) => MigrationModel::Over(Err(e)),
        (MigrationModel::Check(i), ReplyModel::There(b)) => if b {
            step_begun(i + 1)
        } else {
            MigrationModel::Add(i)
        },
        (MigrationModel::Check(i), ReplyModel::Failed(e)) => MigrationModel::Over(Err(e)),
        (MigrationModel::Add(i), ReplyModel::Done) => step_begun(i + 1),
        (MigrationModel::Add(i), ReplyModel::Failed(e)) => MigrationModel::Recheck(i, e),
        (MigrationModel::Recheck(i, e), ReplyModel::There(b)) => if b {
            step_begun(i + 1)
        } else {
            MigrationModel::Over(Err(e))
        },
        (MigrationModel::Recheck(i, e), ReplyModel::Failed(_)) => MigrationModel::Over(Err(e)),
        _ => m,
    }
}

impl MigrationModel {
    /// What holds of it: a step that is one of the list, and of its kind.
    pub open spec fn wf(self) -> bool {
        match self {
            MigrationModel::Run(i) => 0 <= i < schema_steps().len()
                && schema_steps()[i] is Batch,
            MigrationModel::Check(i) => 0 <= i < schema_steps().len()
                && schema_steps()[i] is Column,
            MigrationModel::Add(i) => 0 <= i < schema_steps().len() && schema_steps()[i] is Column,
            MigrationModel::Recheck(i, _) => 0 <= i < schema_steps().len()
                && schema_steps()[i] is Column,
            MigrationModel::Over(_) => true,
        }
    }

    /// What the database is told.
    pub open spec fn sql(self) -> Seq<char> {
        match self {
            MigrationModel::Run(i) => schema_steps()[i]->Batch_0,
            MigrationModel::Check(i) => column_query(
                schema_steps()[i]->table,
                schema_steps()[i]->column,
            ),
            MigrationModel::Add(i) => column_change(
                schema_steps()[i]->table,
                schema_steps()[i]->column,
                schema_steps()[i]->col_type,
            ),
            MigrationModel::Recheck(i, _) => column_query(
                schema_steps()[i]->table,
                schema_steps()[i]->column,
            ),
            MigrationModel::Over(_) => Seq::empty(),
        }
    }
}

/// The start of a step.
fn begin_step(i: usize) -> (r: Migration)
    ensures
        r@ == step_begun(i as int),
        r@.wf(),
{
    let steps = schema();
    if i < steps.len() {
        assert(schema_steps()[i as int] == steps@[i as int]@);
        match steps[i] {
            SchemaStep::Batch(_) => Migration::Run(i),
            SchemaStep::Column { .. } => Migration::Check(i),
        }
    } else {
        Migration::Over(Ok(()))
    }
}

impl Migration {
    /// Begins to bring the database up to date.
    pub fn init_tables() -> (r: Self)
        ensures
            r@ == step_begun(0),
            r@.wf(),
    {
        begin_step(0)
    }

    /// What the database is told next; nothing where all is over.
    pub fn sql(&self) -> (r: String)
        requires
            self@.wf(),
        ensures
            r@ == self@.sql(),
    {
        let steps = schema();
        match self {
            Migration::Run(i) => {
                assert(schema_steps()[*i as int] == steps@[*i as int]@);
                match steps[*i] {
                    SchemaStep::Batch(s) => owned(s),
                    SchemaStep::Column { .. } => String::new(),
                }
            },
            Migration::Add(i) => {
                assert(schema_steps()[*i as int] == steps@[*i as int]@);
                match steps[*i] {
                    SchemaStep::Column { table, column, col_type } => {
                        let mut out = owned("ALTER TABLE ");
                        out.append(table);
                        out.append(" ADD COLUMN ");
                        out.append(column);
                        out.append(" ");
                        out.append(col_type);
                        out
                    },
                    SchemaStep::Batch(_) => String::new(),
                }
            },
            Migration::Check(i) => column_check(*i),
            Migration::Recheck(i, _) => column_check(*i),
            Migration::Over(_) => String::new(),
        }
    }

    /// Goes on with a reply of the database.
    pub fn advance(self, reply: Reply) -> (r: Self)
        requires
            self@.wf(),
        ensures
            r@ == migrated(self@, reply@),
            r@.wf(),
    {
        match (self, reply) {
            (Migration::Run(i), Reply::Done) => begin_step(i + 1),
            (Migration::Run(_), Reply::Failed(e)) => Migration::Over(Err(e)),
            (Migration::Check(i), Reply::There(b)) => if b {
                begin_step(i + 1)
            } else {
                Migration::Add(i)
            },
            (Migration::Check(_), Reply::Failed(e)) => Migration::Over(Err(e)),
            (Migration::Add(i), Reply::Done) => begin_step(i + 1),
            (Migration::Add(i), Reply::Failed(e)) => Migration::Recheck(i, e),
            (Migration::Recheck(i, e), Reply::There(b)) => if b {
                begin_step(i + 1)
            } else {
                Migration::Over(Err(e))
            },
            (Migration::Recheck(_, e), Reply::Failed(_)) => Migration::Over(Err(e)),
            (m, _) => m,
        }
    }
}

/// What asks whether the column of a step is there.
fn column_check(i: usize) -> (r: String)
    requires
        i < schema_steps().len(),
        schema_steps()[i as int] is Column,
    ensures
        r@ == column_query(schema_steps()[i as int]->table, schema_steps()[i as int]->column),
{
    let steps = schema();
    assert(schema_steps()[i as int] == steps@[i as int]@);
    match steps[i] {
        SchemaStep::Column { table, column, .. } => {
            let mut out = owned("SELECT COUNT(*) > 0 FROM pragma_table_info('");
            out.append(table);
            out.append("') WHERE name = '");
            out.append(column);
            out.append("'");
            out
        },
        SchemaStep::Batch(_) => String::new(),
    }
}

/// A column of a table.
pub open spec fn column_of(i: int) -> (Seq<char>, Seq<char>) {
    (schema_steps()[i]->table, schema_steps()[i]->column)
}

/// What a database with these columns says where nothing fails.
pub open spec fn honest(m: MigrationModel, columns: Set<(Seq<char>, Seq<char>)>) -> ReplyModel {
    match m {
        MigrationModel::Check(i) => ReplyModel::There(columns.contains(column_of(i))),
        MigrationModel::Recheck(i, _) => ReplyModel::There(columns.contains(column_of(i))),
        _ => ReplyModel::Done,
    }
}

/// The columns of the database after it was told what comes next.
pub open spec fn told(m: MigrationModel, columns: Set<(Seq<char>, Seq<char>)>) -> Set<
    (Seq<char>, Seq<char>),
> {
    match m {
        MigrationModel::Add(i) => columns.insert(column_of(i)),
        _ => columns,
    }
}

/// How far it is to the end.
pub open spec fn ahead(m: MigrationModel) -> int {
    let n = schema_steps().len();
    match m {
        MigrationModel::Run(i) => 3 * (n - i),
        MigrationModel::Check(i) => 3 * (n - i),
        MigrationModel::Add(i) => 3 * (n - i) - 1,
        MigrationModel::Recheck(i, _) => 3 * (n - i) - 2,
        MigrationModel::Over(_) => 0,
    }
}

/// The columns of the database in the end, where nothing fails, and how many
/// were added on the way.
pub open spec fn in_the_end(m: MigrationModel, columns: Set<(Seq<char>, Seq<char>)>) -> (
    MigrationModel,
    Set<(Seq<char>, Seq<char>)>,
    int,
)
    decreases ahead(m),
    when m.wf()
    via honest_reply_leads_on
{
    if m is Over {
        (m, columns, 0)
    } else {
        let (end, cols, n) = in_the_end(migrated(m, honest(m, columns)), told(m, columns));
        (
            end,
            cols,
            n + if m is Add {
                1int
            } else {
                0int
            },
        )
    }
}

#[via_fn]
proof fn honest_reply_leads_on(m: MigrationModel, columns: Set<(Seq<char>, Seq<char>)>) {
    if !(m is Over) {
        honest_reply_is_near_the_end(m, columns);
    }
}

/// A reply of a database where nothing fails leads on.
proof fn honest_reply_is_near_the_end(m: MigrationModel, columns: Set<(Seq<char>, Seq<char>)>)
    requires
        m.wf(),
        !(m is Over),
    ensures
        migrated(m, honest(m, columns)).wf(),
        0 <= ahead(migrated(m, honest(m, columns))) < ahead(m),
{
}

/// Every reply of the database leads on or ends it, but for one that does not
/// answer what it was told; what is over stays over.
pub proof fn migration_is_bounded(m: MigrationModel, reply: ReplyModel)
    requires
        m.wf(),
    ensures
        migrated(m, reply).wf(),
        ahead(migrated(m, reply)) >= 0,
        migrated(m, reply) == m || ahead(migrated(m, reply)) < ahead(m),
        m is Over ==> migrated(m, reply) == m,
{
}

/// Where nothing fails, the database ends up to date, whatever columns it had:
/// with those and with each that the program knows of.
pub proof fn migration_ends_up_to_date(m: MigrationModel, columns: Set<(Seq<char>, Seq<char>)>)
    requires
        m.wf(),
        m is Run || m is Check || m is Add,
    ensures
        in_the_end(m, columns).0 == MigrationModel::Over(Ok(())),
        columns.subset_of(in_the_end(m, columns).1),
        forall|k: int|
            first_step(m) <= k < schema_steps().len() && (#[trigger] schema_steps()[k]) is Column
                ==> in_the_end(m, columns).1.contains(column_of(k)),
    decreases ahead(m),
{
    let next = migrated(m, honest(m, columns));
    let cols = told(m, columns);
    honest_reply_is_near_the_end(m, columns);
    let i = first_step(m);
    if next is Over {
        assert(in_the_end(next, cols) == (next, cols, 0int));
        assert(i == schema_steps().len() - 1);
        if schema_steps()[i] is Column {
            assert(cols.contains(column_of(i)));
        }
    } else {
        migration_ends_up_to_date(next, cols);
        if schema_steps()[i] is Column && first_step(next) > i {
            assert(cols.contains(column_of(i)));
        }
    }
}

/// The step that it stands at.
pub open spec fn first_step(m: MigrationModel) -> int {
    match m {
        MigrationModel::Run(i) => i,
        MigrationModel::Check(i) => i,
        MigrationModel::Add(i) => i,
        MigrationModel::Recheck(i, _) => i,
        MigrationModel::Over(_) => schema_steps().len() as int,
    }
}

/// A database that is up to date is not changed: no column is added to it, and
/// it ends as it was.
pub proof fn migrated_database_is_left_alone(
    m: MigrationModel,
    columns: Set<(Seq<char>, Seq<char>)>,
)
    requires
        m.wf(),
        m is Run || m is Check,
        forall|k: int|
            0 <= k < schema_steps().len() && (#[trigger] schema_steps()[k]) is Column
                ==> columns.contains(column_of(k)),
    ensures
        in_the_end(m, columns) == (MigrationModel::Over(Ok(())), columns, 0int),
    decreases ahead(m),
{
    let next = migrated(m, honest(m, columns));
    honest_reply_is_near_the_end(m, columns);
    let i = first_step(m);
    if m is Check {
        assert(columns.contains(column_of(i)));
    }
    assert(next == step_begun(i + 1));
    if next is Over {
        assert(in_the_end(next, columns) == (next, columns, 0int));
    } else {
        migrated_database_is_left_alone(next, columns);
    }
}

/// Bringing a database up to date a second time changes nothing.
pub proof fn second_start_changes_nothing(columns: Set<(Seq<char>, Seq<char>)>)
    ensures
        in_the_end(step_begun(0), columns).0 == MigrationModel::Over(Ok(())),
        in_the_end(step_begun(0), in_the_end(step_begun(0), columns).1) == (
            MigrationModel::Over(Ok(())),
            in_the_end(step_begun(0), columns).1,
            0int,
        ),
{
    let m = step_begun(0);
    assert(m == MigrationModel::Run(0));
    migration_ends_up_to_date(m, columns);
    let cols = in_the_end(m, columns).1;
    assert forall|k: int|
        0 <= k < schema_steps().len() && (#[trigger] schema_steps()[k]) is Column implies cols.contains(
        column_of(k),
    ) by {}
    migrated_database_is_left_alone(m, cols);
}

/// Where building the connections stands.
#[derive(Debug, PartialEq, Eq)]
pub enum PoolBuild {
    /// A connection is opened.
    Open(usize),
    /// It is told how to work.
    Tune(usize),
    /// The database is brought up to date over the first connection.
    Migrate,
    /// All connections are there, or what is said where they are not.
    Over(Result<(), StoreError>),
}

/// The content of a [`PoolBuild`].
#[verifier::ext_equal]
pub enum PoolBuildModel {
    Open(int),
    Tune(int),
    Migrate,
    Over(Result<(), StoreErrorModel>),
}

impl View for PoolBuild {
    type V = PoolBuildModel;

    open spec fn view(&self) -> PoolBuildModel {
        match self {
            PoolBuild::Open(i) => PoolBuildModel::Open(*i as int),
            PoolBuild::Tune(i) => PoolBuildModel::Tune(*i as int),
            PoolBuild::Migrate => PoolBuildModel::Migrate,
            PoolBuild::Over(r) => PoolBuildModel::Over(model::result_view(*r)),
        }
    }
}

/// The next connection, if there is to be another.
pub open spec fn next_open(i: int) -> PoolBuildModel {
    if i < POOL_SIZE {
        PoolBuildModel::Open(i)
    } else {
        PoolBuildModel::Over(Ok(()))
    }
}

/// Where building the connections stands after a step was done, or failed with
/// these words.
pub open spec fn built(p: PoolBuildModel, path: Seq<char>, failed: Option<Seq<char>>) -> PoolBuildModel {
    match (p, failed) {
        (PoolBuildModel::Open(i), None) => PoolBuildModel::Tune(i),
        (PoolBuildModel::Open(_), Some(e)) => PoolBuildModel::Over(
            Err(
                StoreErrorModel::ConnectionFailed(
                    "无法打开 SQLite 数据库 "@ + path + ": "@ + e,
                ),
            ),
        ),
        (PoolBuildModel::Tune(i), None) => if i == 0 {
            PoolBuildModel::Migrate
        } else {
            next_open(i + 1)
        },
        (PoolBuildModel::Tune(_), Some(e)) => PoolBuildModel::Over(
            Err(StoreErrorModel::ConnectionFailed("无法设置 SQLite PRAGMA: "@ + e)),
        ),
        (PoolBuildModel::Migrate, None) => next_open(1),
        (PoolBuildModel::Migrate, Some(e)) => PoolBuildModel::Over(
            Err(StoreErrorModel::MigrationFailed("无法初始化数据库表结构: "@ + e)),
        ),
        _ => p,
    }
}

/// A text behind another.
fn said(head: &str, tail: &str) -> (r: String)
    ensures
        r@ == head@ + tail@,
{
    let mut out = owned(head);
    out.append(tail);
    out
}

impl PoolBuild {
    /// Begins to build the connections.
    pub fn build_pool() -> (r: Self)
        ensures
            r@ == PoolBuildModel::Open(0),
    {
        PoolBuild::Open(0)
    }

    /// Goes on after a step was done, or failed with these words.
    pub fn advance(self, path: &str, failed: Option<String>) -> (r: Self)
        requires
            self@ matches PoolBuildModel::Tune(i) ==> i < POOL_SIZE,
        ensures
            r@ == built(self@, path@, model::opt_view(failed)),
            r@ matches PoolBuildModel::Open(i) ==> self@ is Open || i < POOL_SIZE,
    {
        match (self, failed) {
            (PoolBuild::Open(i), None) => PoolBuild::Tune(i),
            (PoolBuild::Open(_), Some(e)) => {
                let mut out = owned("无法打开 SQLite 数据库 ");
                out.append(path);
                out.append(": ");
                out.append(e.as_str());
                PoolBuild::Over(Err(StoreError::ConnectionFailed(out)))
            },
            (PoolBuild::Tune(i), None) => if i == 0 {
                PoolBuild::Migrate
            } else if i + 1 < POOL_SIZE {
                PoolBuild::Open(i + 1)
            } else {
                PoolBuild::Over(Ok(()))
            },
            (PoolBuild::Tune(_), Some(e)) => PoolBuild::Over(
                Err(
                    StoreError::ConnectionFailed(said("无法设置 SQLite PRAGMA: ", e.as_str())),
                ),
            ),
            (PoolBuild::Migrate, None) => PoolBuild::Open(1),
            (PoolBuild::Migrate, Some(e)) => PoolBuild::Over(
                Err(
                    StoreError::MigrationFailed(
                        said("无法初始化数据库表结构: ", e.as_str()),
                    ),
                ),
            ),
            (p, _) => p,
        }
    }
}

/// The connections that are free.
pub struct ConnectionPool<T> {
    pub free: Vec<T>,
}

/// What came of asking for a connection.
pub enum Acquired<T> {
    /// A connection.
    Got(T),
    /// None is free, and the time is not over.
    Wait,
    /// None was free in time.
    TimedOut(StoreError),
}

impl<T> ConnectionPool<T> {
    /// The connections that were built.
    pub fn new(connections: Vec<T>) -> (r: Self)
        ensures
            r.free@ == connections@,
    {
        ConnectionPool { free: connections }
    }

    /// A free connection; where none is, whether to wait on.
    pub fn acquire(&mut self, expired: bool) -> (r: Acquired<T>)
        ensures
            old(self).free@.len() > 0 ==> r == Acquired::Got(old(self).free@.last())
                && final(self).free@ == old(self).free@.drop_last(),
            old(self).free@.len() == 0 ==> final(self).free@ == old(self).free@ && if expired {
                r matches Acquired::TimedOut(e) && e@ == StoreErrorModel::ConnectionFailed(
                    "连接池获取超时（30s）：连接可能泄漏"@,
                )
            } else {
                r is Wait
            },
    {
        let ghost before = self.free@;
        match self.free.pop() {
            Some(c) => {
                assert(self.free@ =~= before.drop_last());
                Acquired::Got(c)
            },
            None => {
                assert(self.free@ =~= before);
                if expired {
                    Acquired::TimedOut(
                        StoreError::ConnectionFailed(
                            owned("连接池获取超时（30s）：连接可能泄漏"),
                        ),
                    )
                } else {
                    Acquired::Wait
                }
            },
        }
    }

    /// Gives a connection back.
    pub fn release(&mut self, connection: T)
        ensures
            final(self).free@ == old(self).free@.push(connection),
    {
        self.free.push(connection);
    }
}

/// How many connections are free; none where there are no connections yet.
pub fn pool_available<T>(pool: Option<&ConnectionPool<T>>) -> (r: usize)
    ensures
        r == match pool {
            Some(p) => p.free@.len(),
            None => 0,
        },
{
    match pool {
        Some(p) => p.free.len(),
        None => 0,
    }
}

/// How large the database is; nought where that cannot be told.
pub fn db_size(len: Option<u64>) -> (r: u64)
    ensures
        r == match len {
            Some(n) => n,
            None => 0,
        },
{
    match len {
        Some(n) => n,
        None => 0,
    }
}

/// Where the database stands.
pub fn default_db_path(workbench: bool, given: Option<String>, data_dir: Option<String>) -> (r: Place)
    ensures
        r@ == if workbench {
            profile::below(
                match model::opt_view(given) {
                    Some(p) => if p.len() > 0 {
                        profile::whole(p)
                    } else {
                        profile::below(
                            profile::whole(profile::first_path(seq![model::opt_view(data_dir)])),
                            "nuphus-workbench"@,
                        )
                    },
                    None => profile::below(
                        profile::whole(profile::first_path(seq![model::opt_view(data_dir)])),
                        "nuphus-workbench"@,
                    ),
                },
                "nuphus.db"@,
            )
        } else {
            match model::opt_view(data_dir) {
                Some(d) => profile::below(
                    profile::below(profile::whole(d), "nuphus"@),
                    "nuphus.db"@,
                ),
                None => profile::below(
                    profile::below(profile::whole("."@), ".nuphus"@),
                    "nuphus.db"@,
                ),
            }
        },
{
    if workbench {
        return workbench_data_dir(given, data_dir).join("nuphus.db");
    }
    match data_dir {
        Some(d) => Place::whole(d).join("nuphus").join("nuphus.db"),
        None => Place::whole(owned(".")).join(".nuphus").join("nuphus.db"),
    }
}

/// A step of building that fails ends it with an error, and one that is done
/// leads on; what is over stays over.
pub proof fn pool_build_is_bounded(p: PoolBuildModel, path: Seq<char>, failed: Option<Seq<char>>)
    requires
        p matches PoolBuildModel::Open(i) ==> 0 <= i < POOL_SIZE,
        p matches PoolBuildModel::Tune(i) ==> 0 <= i < POOL_SIZE,
    ensures
        failed is Some && !(p is Over) ==> built(p, path, failed) is Over && built(
            p,
            path,
            failed,
        )->Over_0 is Err,
        failed is None && !(p is Over) ==> build_left(built(p, path, failed)) < build_left(p),
        build_left(built(p, path, failed)) >= 0,
        p is Over ==> built(p, path, failed) == p,
{
}

/// How many steps of building are left.
pub open spec fn build_left(p: PoolBuildModel) -> int {
    match p {
        PoolBuildModel::Open(i) => 3 * (POOL_SIZE - i),
        PoolBuildModel::Tune(i) => 3 * (POOL_SIZE - i) - 1,
        PoolBuildModel::Migrate => 3 * POOL_SIZE - 2,
        PoolBuildModel::Over(_) => 0,
    }
}

/// A database is brought up to date step by step: a step that is done leads to
/// the next; one that fails ends it. A column is added only where it is not there,
/// and one that could not be added may have been added meanwhile.
pub proof fn database_is_brought_up_to_date(i: int, e: Seq<char>, f: Seq<char>)
    ensures
        migrated(MigrationModel::Run(i), ReplyModel::Done) == step_begun(i + 1),
        migrated(MigrationModel::Run(i), ReplyModel::Failed(e)) == MigrationModel::Over(Err(e)),
        migrated(MigrationModel::Check(i), ReplyModel::There(true)) == step_begun(i + 1),
        migrated(MigrationModel::Check(i), ReplyModel::There(false)) == MigrationModel::Add(i),
        migrated(MigrationModel::Check(i), ReplyModel::Failed(e)) == MigrationModel::Over(Err(e)),
        migrated(MigrationModel::Add(i), ReplyModel::Done) == step_begun(i + 1),
        migrated(MigrationModel::Add(i), ReplyModel::Failed(e)) == MigrationModel::Recheck(i, e),
        migrated(MigrationModel::Recheck(i, e), ReplyModel::There(true)) == step_begun(i + 1),
        migrated(MigrationModel::Recheck(i, e), ReplyModel::There(false)) == MigrationModel::Over(
            Err(e),
        ),
        migrated(MigrationModel::Recheck(i, e), ReplyModel::Failed(f)) == MigrationModel::Over(
            Err(e),
        ),
{
}

/// The steps of the schema: ten, each table before its columns, and a step begins
/// with a statement or with a look at its column.
pub proof fn schema_stands_in_order(i: int)
    ensures
        schema_steps().len() == 10,
        schema_steps()[0] == StepModel::Batch(MEMORY_TABLE@),
        column_of(1) == ("memory_entries"@, "custom_agent_id"@),
        schema_steps()[2] == StepModel::Batch(MEMORY_INDEXES@),
        schema_steps()[3] == StepModel::Batch(MEMORY_SEARCH@),
        schema_steps()[4] == StepModel::Batch(SESSION_TABLE@),
        schema_steps()[5] == StepModel::Batch(EMBEDDING_TABLE@),
        column_of(6) == ("sessions"@, "mode"@),
        schema_steps()[6]->col_type == "TEXT NOT NULL DEFAULT 'leader'"@,
        column_of(7) == ("sessions"@, "snapshot"@),
        schema_steps()[8] == StepModel::Batch(META_TABLE@),
        column_of(9) == ("session_meta"@, "project_path"@),
        0 <= i < 10 && schema_steps()[i] is Batch ==> step_begun(i) == MigrationModel::Run(i)
            && MigrationModel::Run(i).sql() == schema_steps()[i]->Batch_0,
        0 <= i < 10 && schema_steps()[i] is Column ==> step_begun(i) == MigrationModel::Check(i),
        step_begun(10) == MigrationModel::Over(Ok(())),
{
}

/// A column is looked for and added in its own table, under its own name.
pub proof fn columns_are_added_where_they_belong(i: int, e: Seq<char>)
    ensures
        MigrationModel::Check(i).sql() == column_query(column_of(i).0, column_of(i).1),
        MigrationModel::Recheck(i, e).sql() == column_query(column_of(i).0, column_of(i).1),
        MigrationModel::Add(i).sql() == column_change(
            column_of(i).0,
            column_of(i).1,
            schema_steps()[i]->col_type,
        ),
        column_change(column_of(i).0, column_of(i).1, e) == "ALTER TABLE "@ + column_of(i).0
            + " ADD COLUMN "@ + column_of(i).1 + " "@ + e,
        column_query(column_of(i).0, column_of(i).1)
            == "SELECT COUNT(*) > 0 FROM pragma_table_info('"@ + column_of(i).0
            + "') WHERE name = '"@ + column_of(i).1 + "'"@,
{
}

/// A pool has four connections, each opened and then tuned; the first one also
/// brings the database up to date, before the others are opened. Any fault ends
/// it and is told as what it was.
pub proof fn pool_is_built_connection_by_connection(i: int, path: Seq<char>, e: Seq<char>)
    ensures
        built(PoolBuildModel::Open(i), path, None) == PoolBuildModel::Tune(i),
        built(PoolBuildModel::Tune(0), path, None) == PoolBuildModel::Migrate,
        built(PoolBuildModel::Migrate, path, None) == PoolBuildModel::Open(1),
        0 < i < 3 ==> built(PoolBuildModel::Tune(i), path, None) == PoolBuildModel::Open(i + 1),
        built(PoolBuildModel::Tune(3), path, None) == PoolBuildModel::Over(Ok(())),
        built(PoolBuildModel::Open(i), path, Some(e)) == PoolBuildModel::Over(
            Err(
                StoreErrorModel::ConnectionFailed(
                    "无法打开 SQLite 数据库 "@ + path + ": "@ + e,
                ),
            ),
        ),
        built(PoolBuildModel::Tune(i), path, Some(e)) == PoolBuildModel::Over(
            Err(StoreErrorModel::ConnectionFailed("无法设置 SQLite PRAGMA: "@ + e)),
        ),
        built(PoolBuildModel::Migrate, path, Some(e)) == PoolBuildModel::Over(
            Err(StoreErrorModel::MigrationFailed("无法初始化数据库表结构: "@ + e)),
        ),
{
}

} // verus!
