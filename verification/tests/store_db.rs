use rusqlite::Connection;

use nuphus::error::StoreError;
use nuphus::store_db::{
    db_size, default_db_path, pool_available, Acquired, ConnectionPool, Migration, PoolBuild,
    Reply, POOL_SIZE,
};

fn has_column(conn: &Connection, table: &str, column: &str) -> bool {
    conn.query_row(
        &format!(
            "SELECT COUNT(*) > 0 FROM pragma_table_info('{}') WHERE name = '{}'",
            table, column
        ),
        [],
        |r| r.get(0),
    )
    .unwrap_or(false)
}

/// Brings a database up to date, and counts the columns that were added.
fn init_tables(conn: &Connection) -> Result<usize, String> {
    let mut run = Migration::init_tables();
    let mut added = 0;
    loop {
        let reply = match &run {
            Migration::Over(r) => return r.clone().map(|_| added),
            Migration::Check(_) | Migration::Recheck(..) => {
                match conn.query_row(&run.sql(), [], |r| r.get::<_, bool>(0)) {
                    Ok(there) => Reply::There(there),
                    Err(e) => Reply::Failed(e.to_string()),
                }
            }
            Migration::Run(_) | Migration::Add(_) => {
                if let Migration::Add(_) = run {
                    added += 1;
                }
                match conn.execute_batch(&run.sql()) {
                    Ok(()) => Reply::Done,
                    Err(e) => Reply::Failed(e.to_string()),
                }
            }
        };
        run = run.advance(reply);
    }
}

#[test]
fn init_tables_migrates_legacy_session_meta_idempotently() {
    let conn = Connection::open_in_memory().unwrap();
    conn.execute_batch(
        "CREATE TABLE session_meta (
            session_id      TEXT PRIMARY KEY,
            project_tag     TEXT NOT NULL,
            created_at      TEXT NOT NULL
        );
        INSERT INTO session_meta (session_id, project_tag, created_at)
        VALUES ('legacy-session', 'old-tag', '2026-01-01T00:00:00Z');",
    )
    .unwrap();
    assert!(!has_column(&conn, "session_meta", "project_path"));

    assert_eq!(init_tables(&conn).unwrap(), 1);
    assert!(has_column(&conn, "session_meta", "project_path"));

    let (tag, path): (String, Option<String>) = conn
        .query_row(
            "SELECT project_tag, project_path FROM session_meta WHERE session_id = 'legacy-session'",
            [],
            |r| Ok((r.get(0)?, r.get(1)?)),
        )
        .unwrap();
    assert_eq!(tag, "old-tag");
    assert!(path.is_none());

    assert_eq!(init_tables(&conn).unwrap(), 0);
    let n: i64 = conn
        .query_row("SELECT COUNT(*) FROM session_meta", [], |r| r.get(0))
        .unwrap();
    assert_eq!(n, 1);

    conn.execute(
        "INSERT INTO session_meta (session_id, project_tag, project_path, created_at)
         VALUES ('new-session', 'tag-x', 'E:\\work\\A', 'now')",
        [],
    )
    .unwrap();
    let stored: String = conn
        .query_row(
            "SELECT project_path FROM session_meta WHERE session_id = 'new-session'",
            [],
            |r| r.get(0),
        )
        .unwrap();
    assert_eq!(stored, "E:\\work\\A");
}

#[test]
fn init_tables_is_repeatable_on_fresh_db() {
    let conn = Connection::open_in_memory().unwrap();
    assert_eq!(init_tables(&conn).unwrap(), 0);
    assert_eq!(init_tables(&conn).unwrap(), 0);
    assert!(has_column(&conn, "session_meta", "project_path"));
    assert!(has_column(&conn, "sessions", "mode"));
}

/// A run that stands where the first column is asked for.
fn at_first_column() -> Migration {
    Migration::init_tables().advance(Reply::Done)
}

#[test]
fn column_that_another_connection_added_is_fine() {
    let failed = at_first_column()
        .advance(Reply::There(false))
        .advance(Reply::Failed("duplicate column".to_string()));
    match &failed {
        Migration::Recheck(..) => {}
        _ => panic!("the column is asked for again"),
    }
    match failed.advance(Reply::There(true)) {
        Migration::Run(2) => {}
        _ => panic!("the next step was expected"),
    }
    let failed = at_first_column()
        .advance(Reply::There(false))
        .advance(Reply::Failed("disk full".to_string()))
        .advance(Reply::There(false));
    assert_eq!(failed, Migration::Over(Err("disk full".to_string())));
    assert_eq!(
        at_first_column().advance(Reply::Failed("locked".to_string())),
        Migration::Over(Err("locked".to_string()))
    );
}

#[test]
fn pool_is_built_step_by_step() {
    let mut build = PoolBuild::build_pool();
    let mut opened = 0;
    let mut migrated = 0;
    loop {
        match &build {
            PoolBuild::Open(_) => opened += 1,
            PoolBuild::Migrate => migrated += 1,
            PoolBuild::Tune(_) => {}
            PoolBuild::Over(r) => {
                assert!(r.is_ok());
                break;
            }
        }
        build = build.advance("/db", None);
    }
    assert_eq!((opened, migrated), (POOL_SIZE, 1));
    assert_eq!(
        PoolBuild::build_pool().advance("/db", Some("denied".to_string())),
        PoolBuild::Over(Err(StoreError::ConnectionFailed(
            "无法打开 SQLite 数据库 /db: denied".to_string()
        )))
    );
    assert_eq!(
        PoolBuild::Tune(0).advance("/db", Some("x".to_string())),
        PoolBuild::Over(Err(StoreError::ConnectionFailed(
            "无法设置 SQLite PRAGMA: x".to_string()
        )))
    );
    assert_eq!(
        PoolBuild::Migrate.advance("/db", Some("x".to_string())),
        PoolBuild::Over(Err(StoreError::MigrationFailed(
            "无法初始化数据库表结构: x".to_string()
        )))
    );
}

#[test]
fn connection_is_lent_and_given_back() {
    let mut pool = ConnectionPool::new(vec![1, 2]);
    assert_eq!(pool_available(Some(&pool)), 2);
    assert_eq!(pool_available::<u8>(None), 0);
    let lent = match pool.acquire(false) {
        Acquired::Got(c) => c,
        _ => panic!("one is free"),
    };
    assert_eq!(lent, 2);
    assert_eq!(pool_available(Some(&pool)), 1);
    match pool.acquire(false) {
        Acquired::Got(1) => {}
        _ => panic!("one is free"),
    }
    match pool.acquire(false) {
        Acquired::Wait => {}
        _ => panic!("none is free"),
    }
    match pool.acquire(true) {
        Acquired::TimedOut(e) => assert!(e.message().contains("连接池获取超时（30s）")),
        _ => panic!("the time is over"),
    }
    pool.release(lent);
    assert_eq!(pool_available(Some(&pool)), 1);
}

#[test]
fn database_stands_in_the_data_folder() {
    let place = default_db_path(false, None, Some("/d".to_string()));
    assert_eq!((place.base.as_str(), place.parts.join("/")), ("/d", "nuphus/nuphus.db".to_string()));
    let place = default_db_path(false, None, None);
    assert_eq!((place.base.as_str(), place.parts.join("/")), (".", ".nuphus/nuphus.db".to_string()));
    let place = default_db_path(true, Some("/w".to_string()), None);
    assert_eq!((place.base.as_str(), place.parts.join("/")), ("/w", "nuphus.db".to_string()));
    assert_eq!(db_size(Some(9)), 9);
    assert_eq!(db_size(None), 0);
}
