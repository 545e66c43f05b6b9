//! The statements that the operations send to the engine.

use vstd::prelude::*;

verus! {

pub const SELECT_POSTS: &'static str =
    "SELECT
        p.id,
        p.date,
        p.comment,
        p.created_at,
        p.updated_at
    FROM posts p
    ORDER BY p.date DESC, p.created_at DESC";

pub const SELECT_POST_BEVERAGES: &'static str =
    "SELECT
        pb.beverage_id,
        b.name,
        pb.amount,
        b.alcohol_content
    FROM post_beverages pb
    INNER JOIN beverages b ON pb.beverage_id = b.id
    WHERE pb.post_id = ?";

pub const INSERT_POST: &'static str = "INSERT INTO posts (date, comment) VALUES (?1, ?2)";

pub const INSERT_POST_BEVERAGE: &'static str =
    "INSERT INTO post_beverages (post_id, beverage_id, amount) VALUES (?1, ?2, ?3)";

pub const UPDATE_POST: &'static str =
    "UPDATE posts SET date = ?1, comment = ?2, updated_at = datetime('now', 'localtime') WHERE id = ?3";

pub const DELETE_POST_BEVERAGES: &'static str = "DELETE FROM post_beverages WHERE post_id = ?1";

pub const DELETE_POST: &'static str = "DELETE FROM posts WHERE id = ?1";

pub const SELECT_CATEGORIES: &'static str =
    "SELECT id, name, display_order, created_at, updated_at
    FROM categories
    ORDER BY display_order, name";

pub const COUNT_CATEGORIES_NAMED: &'static str = "SELECT COUNT(*) FROM categories WHERE name = ?1";

pub const COUNT_BEVERAGES_IN_CATEGORY: &'static str =
    "SELECT COUNT(*) FROM beverages WHERE category_id = ?1";

pub const DELETE_CATEGORY: &'static str = "DELETE FROM categories WHERE id = ?1";

pub const SELECT_BEVERAGES: &'static str =
    "SELECT
        b.id,
        b.name,
        b.alcohol_content,
        b.category_id,
        c.name as category_name,
        b.created_at,
        b.updated_at
    FROM beverages b
    INNER JOIN categories c ON b.category_id = c.id
    ORDER BY b.name";

pub const SELECT_BEVERAGES_BY_CATEGORY: &'static str =
    "SELECT
        b.id,
        b.name,
        b.alcohol_content,
        b.category_id,
        c.name as category_name,
        b.created_at,
        b.updated_at
    FROM beverages b
    INNER JOIN categories c ON b.category_id = c.id
    WHERE b.category_id = ?1
    ORDER BY b.name";

pub const COUNT_CATEGORY: &'static str = "SELECT COUNT(*) FROM categories WHERE id = ?1";

pub const INSERT_BEVERAGE: &'static str =
    "INSERT INTO beverages (name, alcohol_content, category_id) VALUES (?1, ?2, ?3)";

pub const COUNT_BEVERAGE: &'static str = "SELECT COUNT(*) FROM beverages WHERE id = ?1";

pub const UPDATE_BEVERAGE: &'static str =
    "UPDATE beverages SET name = ?1, alcohol_content = ?2, category_id = ?3, updated_at = datetime('now', 'localtime') WHERE id = ?4";

pub const COUNT_BEVERAGE_POSTS: &'static str =
    "SELECT COUNT(*) FROM post_beverages WHERE beverage_id = ?1";

pub const DELETE_BEVERAGE: &'static str = "DELETE FROM beverages WHERE id = ?1";

pub const SELECT_POSTS_IN_RANGE: &'static str =
    "SELECT
        p.id,
        p.date
    FROM posts p
    WHERE p.date >= ?1 AND p.date < ?2
    ORDER BY p.date";

pub const SELECT_POST_SERVINGS: &'static str =
    "SELECT
        pb.amount,
        b.alcohol_content
    FROM post_beverages pb
    INNER JOIN beverages b ON pb.beverage_id = b.id
    WHERE pb.post_id = ?";

} // verus!
