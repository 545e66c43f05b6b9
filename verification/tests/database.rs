use nomi_log::commands::get_categories;
use nomi_log::db::Database;
use std::path::PathBuf;

fn open() -> Database {
    Database::new(PathBuf::from(":memory:")).expect("an in-memory database opens")
}

#[test]
fn new_database_is_seeded_with_nine_categories() {
    let db = open();
    let count: i64 = db
        .conn()
        .query_row("SELECT COUNT(*) FROM categories", [], |row| row.get(0))
        .unwrap();
    assert_eq!(count, 9);
}

#[test]
fn seeded_categories_come_in_their_order() {
    let mut db = open();
    let categories = get_categories(&mut db).unwrap();
    let names: Vec<&str> = categories.iter().map(|c| c.name.as_str()).collect();
    assert_eq!(
        names,
        vec![
            "ビール",
            "ウイスキー",
            "リキュール",
            "梅酒",
            "焼酎",
            "ワイン",
            "日本酒",
            "ラム酒",
            "ノンアルコール"
        ]
    );
    let orders: Vec<i64> = categories.iter().map(|c| c.display_order).collect();
    assert_eq!(orders, vec![1, 2, 3, 4, 5, 6, 7, 8, 9]);
    assert!(categories.iter().all(|c| c.created_at.is_some() && c.updated_at.is_some()));
}

#[test]
fn new_database_has_the_four_tables_and_six_indexes() {
    let db = open();
    for table in ["categories", "posts", "beverages", "post_beverages"] {
        let found: i64 = db
            .conn()
            .query_row(
                "SELECT COUNT(*) FROM sqlite_master WHERE type = 'table' AND name = ?1",
                [table],
                |row| row.get(0),
            )
            .unwrap();
        assert_eq!(found, 1, "table {}", table);
    }
    let indexes: i64 = db
        .conn()
        .query_row(
            "SELECT COUNT(*) FROM sqlite_master WHERE type = 'index' AND name LIKE 'idx_%'",
            [],
            |row| row.get(0),
        )
        .unwrap();
    assert_eq!(indexes, 6);
}

#[test]
fn new_database_enforces_references() {
    let db = open();
    let on: i64 = db.conn().query_row("PRAGMA foreign_keys", [], |row| row.get(0)).unwrap();
    assert_eq!(on, 1);
}

#[test]
fn posts_have_a_date_and_no_title() {
    let db = open();
    let date: i64 = db
        .conn()
        .query_row(
            "SELECT COUNT(*) FROM pragma_table_info('posts') WHERE name = 'date'",
            [],
            |row| row.get(0),
        )
        .unwrap();
    let title: i64 = db
        .conn()
        .query_row(
            "SELECT COUNT(*) FROM pragma_table_info('posts') WHERE name = 'title'",
            [],
            |row| row.get(0),
        )
        .unwrap();
    assert_eq!((date, title), (1, 0));
}

fn shared(name: &str) -> PathBuf {
    PathBuf::from(format!("file:{}?mode=memory&cache=shared", name))
}

#[test]
fn database_that_has_categories_is_not_seeded_again() {
    let path = shared("nomi_log_opened_twice");
    let mut first = Database::new(path.clone()).unwrap();
    nomi_log::commands::delete_category(&mut first, 3).unwrap();
    nomi_log::commands::create_category(
        &mut first,
        nomi_log::models::CreateCategoryRequest { name: "mead".to_string(), display_order: Some(10) },
    )
    .unwrap();
    let mut second = Database::new(path).unwrap();
    let names: Vec<String> =
        get_categories(&mut second).unwrap().into_iter().map(|c| c.name).collect();
    assert_eq!(
        names,
        vec!["ビール", "ウイスキー", "梅酒", "焼酎", "ワイン", "日本酒", "ラム酒", "ノンアルコール", "mead"]
    );
}

#[test]
fn database_without_categories_is_seeded() {
    let path = shared("nomi_log_emptied");
    let first = Database::new(path.clone()).unwrap();
    first.conn().execute("DELETE FROM categories", []).unwrap();
    let mut second = Database::new(path).unwrap();
    assert_eq!(get_categories(&mut second).unwrap().len(), 9);
}

#[test]
fn opening_twice_keeps_the_posts() {
    let path = shared("nomi_log_posts_kept");
    let mut first = Database::new(path.clone()).unwrap();
    let id = nomi_log::commands::create_post(
        &mut first,
        nomi_log::models::CreatePostRequest {
            date: "2024-01-05".to_string(),
            comment: Some("kept".to_string()),
            beverages: Vec::new(),
        },
    )
    .unwrap();
    let mut second = Database::new(path).unwrap();
    let posts = nomi_log::commands::get_posts(&mut second).unwrap();
    assert_eq!(posts.len(), 1);
    assert_eq!(posts[0].id, id);
    assert_eq!(posts[0].date, "2024-01-05");
    assert_eq!(posts[0].comment.as_deref(), Some("kept"));
}

#[test]
fn older_posts_get_the_day_of_their_creation_as_date() {
    let path = shared("nomi_log_older_layout");
    let older = rusqlite::Connection::open(&path).unwrap();
    older
        .execute_batch(
            "CREATE TABLE posts (
                id INTEGER PRIMARY KEY AUTOINCREMENT,
                title TEXT NOT NULL,
                comment TEXT,
                created_at TEXT NOT NULL DEFAULT (datetime('now', 'localtime')),
                updated_at TEXT NOT NULL DEFAULT (datetime('now', 'localtime'))
            );
            INSERT INTO posts (title, comment, created_at, updated_at)
                VALUES ('first', 'a comment', '2023-11-30 21:15:00', '2023-12-01 08:00:00');",
        )
        .unwrap();
    let mut db = Database::new(path).unwrap();
    let posts = nomi_log::commands::get_posts(&mut db).unwrap();
    assert_eq!(posts.len(), 1);
    assert_eq!(posts[0].date, "2023-11-30");
    assert_eq!(posts[0].comment.as_deref(), Some("a comment"));
    assert_eq!(posts[0].created_at, "2023-11-30 21:15:00");
    assert_eq!(posts[0].updated_at, "2023-12-01 08:00:00");
    let title: i64 = older
        .query_row(
            "SELECT COUNT(*) FROM pragma_table_info('posts') WHERE name = 'title'",
            [],
            |row| row.get(0),
        )
        .unwrap();
    assert_eq!(title, 0);
}

#[test]
fn database_of_a_later_layout_is_refused() {
    let path = shared("nomi_log_later_layout");
    let later = rusqlite::Connection::open(&path).unwrap();
    later.execute_batch("PRAGMA user_version = 7; CREATE TABLE keep_open (x);").unwrap();
    let result = Database::new(path);
    assert!(matches!(result, Err(nomi_log::error::AppError::SchemaError(_))));
}
