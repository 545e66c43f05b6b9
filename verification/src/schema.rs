//! The layout of the database: its tables and indexes, the categories that
//! a new database starts with, and the migration that brings an older
//! database to this layout.
//!
//! Volumes and alcohol contents are stored as integers, in the units of
//! `crate::models`.

use vstd::prelude::*;

verus! {

/// Brings the table of posts of an older database, which had a title and
/// no date, to the present layout. A post gets the day of its creation as
/// its date. On a database without posts it leaves an empty table behind.
pub const MIGRATION_REMOVE_TITLE_ADD_DATE: &'static str =
    "CREATE TABLE IF NOT EXISTS posts (
        id INTEGER PRIMARY KEY AUTOINCREMENT,
        title TEXT,
        comment TEXT,
        created_at TEXT NOT NULL DEFAULT (datetime('now', 'localtime')),
        updated_at TEXT NOT NULL DEFAULT (datetime('now', 'localtime'))
    );
    ALTER TABLE posts DROP COLUMN title;
    ALTER TABLE posts ADD COLUMN date TEXT NOT NULL DEFAULT '';
    UPDATE posts SET date = date(created_at);";

/// Makes the engine enforce the references between the tables, and with
/// them the cascades from posts and beverages to their associations.
pub const ENFORCE_FOREIGN_KEYS: &'static str = "PRAGMA foreign_keys = ON";

pub const CREATE_CATEGORIES: &'static str =
    "CREATE TABLE IF NOT EXISTS categories (
        id INTEGER PRIMARY KEY AUTOINCREMENT,
        name TEXT NOT NULL UNIQUE,
        display_order INTEGER NOT NULL DEFAULT 0,
        created_at TEXT NOT NULL DEFAULT (datetime('now', 'localtime')),
        updated_at TEXT NOT NULL DEFAULT (datetime('now', 'localtime'))
    )";

pub const CREATE_POSTS: &'static str =
    "CREATE TABLE IF NOT EXISTS posts (
        id INTEGER PRIMARY KEY AUTOINCREMENT,
        date TEXT NOT NULL,
        comment TEXT,
        created_at TEXT NOT NULL DEFAULT (datetime('now', 'localtime')),
        updated_at TEXT NOT NULL DEFAULT (datetime('now', 'localtime'))
    )";

pub const CREATE_BEVERAGES: &'static str =
    "CREATE TABLE IF NOT EXISTS beverages (
        id INTEGER PRIMARY KEY AUTOINCREMENT,
        name TEXT NOT NULL UNIQUE,
        alcohol_content INTEGER,
        category_id INTEGER NOT NULL,
        created_at TEXT NOT NULL DEFAULT (datetime('now', 'localtime')),
        updated_at TEXT NOT NULL DEFAULT (datetime('now', 'localtime')),
        FOREIGN KEY (category_id) REFERENCES categories(id)
    )";

pub const CREATE_POST_BEVERAGES: &'static str =
    "CREATE TABLE IF NOT EXISTS post_beverages (
        id INTEGER PRIMARY KEY AUTOINCREMENT,
        post_id INTEGER NOT NULL,
        beverage_id INTEGER NOT NULL,
        amount INTEGER NOT NULL,
        created_at TEXT NOT NULL DEFAULT (datetime('now', 'localtime')),
        FOREIGN KEY (post_id) REFERENCES posts(id) ON DELETE CASCADE,
        FOREIGN KEY (beverage_id) REFERENCES beverages(id) ON DELETE CASCADE,
        UNIQUE(post_id, beverage_id)
    )";

pub const INDEX_POSTS_CREATED_AT: &'static str =
    "CREATE INDEX IF NOT EXISTS idx_posts_created_at ON posts(created_at DESC)";

pub const INDEX_POSTS_DATE: &'static str =
    "CREATE INDEX IF NOT EXISTS idx_posts_date ON posts(date DESC)";

pub const INDEX_BEVERAGES_CATEGORY: &'static str =
    "CREATE INDEX IF NOT EXISTS idx_beverages_category_id ON beverages(category_id)";

pub const INDEX_CATEGORIES_ORDER: &'static str =
    "CREATE INDEX IF NOT EXISTS idx_categories_display_order ON categories(display_order)";

pub const INDEX_POST_BEVERAGES_POST: &'static str =
    "CREATE INDEX IF NOT EXISTS idx_post_beverages_post_id ON post_beverages(post_id)";

pub const INDEX_POST_BEVERAGES_BEVERAGE: &'static str =
    "CREATE INDEX IF NOT EXISTS idx_post_beverages_beverage_id ON post_beverages(beverage_id)";

pub const COUNT_CATEGORIES: &'static str = "SELECT COUNT(*) FROM categories";

pub const INSERT_CATEGORY: &'static str =
    "INSERT INTO categories (name, display_order) VALUES (?1, ?2)";

/// The migrations, oldest first.
pub open spec fn migrations() -> Seq<Seq<char>> {
    seq![MIGRATION_REMOVE_TITLE_ADD_DATE@]
}

/// The statements that create the four tables, in the order in which they
/// are executed. None of them touches a table that exists.
pub open spec fn table_statements() -> Seq<Seq<char>> {
    seq![CREATE_CATEGORIES@, CREATE_POSTS@, CREATE_BEVERAGES@, CREATE_POST_BEVERAGES@]
}

/// The statements that create the indexes, in the order in which they are
/// executed. None of them touches an index that exists.
pub open spec fn index_statements() -> Seq<Seq<char>> {
    seq![
        INDEX_POSTS_CREATED_AT@,
        INDEX_POSTS_DATE@,
        INDEX_BEVERAGES_CATEGORY@,
        INDEX_CATEGORIES_ORDER@,
        INDEX_POST_BEVERAGES_POST@,
        INDEX_POST_BEVERAGES_BEVERAGE@,
    ]
}

/// The categories of a new database, each with its place in the order of
/// display.
pub open spec fn initial_categories() -> Seq<(Seq<char>, i64)> {
    seq![
        ("ビール"@, 1i64),
        ("ウイスキー"@, 2i64),
        ("リキュール"@, 3i64),
        ("梅酒"@, 4i64),
        ("焼酎"@, 5i64),
        ("ワイン"@, 6i64),
        ("日本酒"@, 7i64),
        ("ラム酒"@, 8i64),
        ("ノンアルコール"@, 9i64),
    ]
}

/// What `list` stands for.
pub open spec fn texts_of(list: Seq<&'static str>) -> Seq<Seq<char>> {
    Seq::new(list.len(), |i: int| list[i]@)
}

/// What `list` stands for.
pub open spec fn named_orders_of(list: Seq<(&'static str, i64)>) -> Seq<(Seq<char>, i64)> {
    Seq::new(list.len(), |i: int| (list[i].0@, list[i].1))
}

/// The migrations.
pub fn migration_list() -> (list: Vec<&'static str>)
    ensures
        texts_of(list@) == migrations(),
{
    let list = vec![MIGRATION_REMOVE_TITLE_ADD_DATE];
    assert(texts_of(list@) =~= migrations());
    list
}

/// The statements that create the tables.
pub fn table_statement_list() -> (list: Vec<&'static str>)
    ensures
        texts_of(list@) == table_statements(),
{
    let list = vec![CREATE_CATEGORIES, CREATE_POSTS, CREATE_BEVERAGES, CREATE_POST_BEVERAGES];
    assert(texts_of(list@) =~= table_statements());
    list
}

/// The statements that create the indexes.
pub fn index_statement_list() -> (list: Vec<&'static str>)
    ensures
        texts_of(list@) == index_statements(),
{
    let list = vec![
        INDEX_POSTS_CREATED_AT,
        INDEX_POSTS_DATE,
        INDEX_BEVERAGES_CATEGORY,
        INDEX_CATEGORIES_ORDER,
        INDEX_POST_BEVERAGES_POST,
        INDEX_POST_BEVERAGES_BEVERAGE,
    ];
    assert(texts_of(list@) =~= index_statements());
    list
}

/// The categories of a new database.
pub fn initial_category_list() -> (list: Vec<(&'static str, i64)>)
    ensures
        named_orders_of(list@) == initial_categories(),
{
    let list = vec![
        ("ビール", 1i64),
        ("ウイスキー", 2i64),
        ("リキュール", 3i64),
        ("梅酒", 4i64),
        ("焼酎", 5i64),
        ("ワイン", 6i64),
        ("日本酒", 7i64),
        ("ラム酒", 8i64),
        ("ノンアルコール", 9i64),
    ];
    assert(named_orders_of(list@) =~= initial_categories());
    list
}

} // verus!
