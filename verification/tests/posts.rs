use nomi_log::commands::create_beverage;
use nomi_log::commands::create_post;
use nomi_log::commands::delete_post;
use nomi_log::commands::get_posts;
use nomi_log::commands::update_post;
use nomi_log::db::Database;
use nomi_log::error::AppError;
use nomi_log::error::InputFault;
use nomi_log::models::BeverageAmountInput;
use nomi_log::models::CreateBeverageRequest;
use nomi_log::models::CreatePostRequest;
use std::path::PathBuf;

fn open_posts() -> Database {
    Database::new(PathBuf::from(":memory:")).expect("an in-memory database opens")
}

fn beverage(db: &mut Database, name: &str, alcohol_content: Option<u32>) -> i64 {
    create_beverage(
        db,
        CreateBeverageRequest { name: name.to_string(), alcohol_content, category_id: 1 },
    )
    .unwrap()
}

fn post(date: &str, comment: Option<&str>, drinks: &[(i64, u64)]) -> CreatePostRequest {
    CreatePostRequest {
        date: date.to_string(),
        comment: comment.map(|c| c.to_string()),
        beverages: drinks
            .iter()
            .map(|(beverage_id, amount)| BeverageAmountInput {
                beverage_id: *beverage_id,
                amount: *amount,
            })
            .collect(),
    }
}

fn association_rows(db: &Database) -> i64 {
    db.conn().query_row("SELECT COUNT(*) FROM post_beverages", [], |row| row.get(0)).unwrap()
}

fn post_rows(db: &Database) -> i64 {
    db.conn().query_row("SELECT COUNT(*) FROM posts", [], |row| row.get(0)).unwrap()
}

#[test]
fn created_post_is_listed_with_its_drinks() {
    let mut db = open_posts();
    let beer = beverage(&mut db, "lager", Some(5_000));
    let tea = beverage(&mut db, "tea", None);
    let id = create_post(
        &mut db,
        post("2024-01-05", Some("new year"), &[(beer, 500_000), (tea, 200_000)]),
    )
    .unwrap();
    let posts = get_posts(&mut db).unwrap();
    assert_eq!(posts.len(), 1);
    assert_eq!(posts[0].id, id);
    assert_eq!(posts[0].date, "2024-01-05");
    assert_eq!(posts[0].comment.as_deref(), Some("new year"));
    let mut drinks: Vec<(i64, String, u64, Option<u32>)> = posts[0]
        .beverages
        .iter()
        .map(|b| (b.beverage_id, b.beverage_name.clone(), b.amount, b.alcohol_content))
        .collect();
    drinks.sort();
    assert_eq!(
        drinks,
        vec![
            (beer, "lager".to_string(), 500_000, Some(5_000)),
            (tea, "tea".to_string(), 200_000, None)
        ]
    );
}

#[test]
fn post_without_comment_or_drinks_is_listed() {
    let mut db = open_posts();
    let id = create_post(&mut db, post("2024-03-01", None, &[])).unwrap();
    let posts = get_posts(&mut db).unwrap();
    assert_eq!(posts.len(), 1);
    assert_eq!(posts[0].id, id);
    assert_eq!(posts[0].comment, None);
    assert!(posts[0].beverages.is_empty());
}

#[test]
fn posts_are_listed_latest_date_first() {
    let mut db = open_posts();
    let a = create_post(&mut db, post("2024-01-05", None, &[])).unwrap();
    let b = create_post(&mut db, post("2024-02-01", None, &[])).unwrap();
    let c = create_post(&mut db, post("2023-12-31", None, &[])).unwrap();
    let ids: Vec<i64> = get_posts(&mut db).unwrap().iter().map(|p| p.id).collect();
    assert_eq!(ids, vec![b, a, c]);
}

#[test]
fn largest_storable_amount_survives() {
    let mut db = open_posts();
    let beer = beverage(&mut db, "lager", Some(5_000));
    create_post(&mut db, post("2024-01-05", None, &[(beer, i64::MAX as u64)])).unwrap();
    let posts = get_posts(&mut db).unwrap();
    assert_eq!(posts[0].beverages[0].amount, i64::MAX as u64);
}

#[test]
fn amount_beyond_the_store_is_refused() {
    let mut db = open_posts();
    let beer = beverage(&mut db, "lager", Some(5_000));
    let result = create_post(&mut db, post("2024-01-05", None, &[(beer, i64::MAX as u64 + 1)]));
    assert!(matches!(result, Err(AppError::InvalidInput(InputFault::AmountOutOfRange))));
    assert_eq!(post_rows(&db), 0);
    let id = create_post(&mut db, post("2024-01-05", None, &[(beer, 1)])).unwrap();
    let result = update_post(&mut db, id, post("2024-01-06", None, &[(beer, u64::MAX)]));
    assert!(matches!(result, Err(AppError::InvalidInput(InputFault::AmountOutOfRange))));
    assert_eq!(get_posts(&mut db).unwrap()[0].date, "2024-01-05");
}

#[test]
fn post_with_unknown_beverage_leaves_nothing_behind() {
    let mut db = open_posts();
    let beer = beverage(&mut db, "lager", Some(5_000));
    let result = create_post(&mut db, post("2024-01-05", None, &[(beer, 500_000), (4711, 1)]));
    assert!(matches!(result, Err(AppError::StorageError(_))));
    assert_eq!(post_rows(&db), 0);
    assert_eq!(association_rows(&db), 0);
    assert!(get_posts(&mut db).unwrap().is_empty());
}

#[test]
fn post_with_one_beverage_twice_leaves_nothing_behind() {
    let mut db = open_posts();
    let beer = beverage(&mut db, "lager", Some(5_000));
    let result = create_post(&mut db, post("2024-01-05", None, &[(beer, 1), (beer, 2)]));
    assert!(matches!(result, Err(AppError::StorageError(_))));
    assert_eq!(post_rows(&db), 0);
    assert_eq!(association_rows(&db), 0);
}

#[test]
fn database_works_after_a_failed_post() {
    let mut db = open_posts();
    let beer = beverage(&mut db, "lager", Some(5_000));
    assert!(create_post(&mut db, post("2024-01-05", None, &[(4711, 1)])).is_err());
    let id = create_post(&mut db, post("2024-01-06", None, &[(beer, 1)])).unwrap();
    assert_eq!(get_posts(&mut db).unwrap()[0].id, id);
}

#[test]
fn updated_post_has_exactly_the_new_drinks() {
    let mut db = open_posts();
    let beer = beverage(&mut db, "lager", Some(5_000));
    let wine = beverage(&mut db, "merlot", Some(13_500));
    let sake = beverage(&mut db, "junmai", Some(15_000));
    let id = create_post(&mut db, post("2024-01-05", Some("a"), &[(beer, 350_000), (wine, 150_000)]))
        .unwrap();
    update_post(&mut db, id, post("2024-01-06", None, &[(wine, 120_000), (sake, 180_000)])).unwrap();
    let posts = get_posts(&mut db).unwrap();
    assert_eq!(posts.len(), 1);
    assert_eq!(posts[0].date, "2024-01-06");
    assert_eq!(posts[0].comment, None);
    let mut drinks: Vec<(i64, u64)> =
        posts[0].beverages.iter().map(|b| (b.beverage_id, b.amount)).collect();
    drinks.sort();
    assert_eq!(drinks, vec![(wine, 120_000), (sake, 180_000)]);
    let residual: i64 = db
        .conn()
        .query_row(
            "SELECT COUNT(*) FROM post_beverages WHERE post_id = ?1 AND beverage_id = ?2",
            [id, beer],
            |row| row.get(0),
        )
        .unwrap();
    assert_eq!(residual, 0);
}

#[test]
fn failed_update_keeps_the_post_as_it_was() {
    let mut db = open_posts();
    let beer = beverage(&mut db, "lager", Some(5_000));
    let id = create_post(&mut db, post("2024-01-05", Some("before"), &[(beer, 350_000)])).unwrap();
    let result = update_post(&mut db, id, post("2024-02-02", Some("after"), &[(beer, 1), (4711, 2)]));
    assert!(matches!(result, Err(AppError::StorageError(_))));
    let posts = get_posts(&mut db).unwrap();
    assert_eq!(posts[0].date, "2024-01-05");
    assert_eq!(posts[0].comment.as_deref(), Some("before"));
    assert_eq!(posts[0].beverages.len(), 1);
    assert_eq!(posts[0].beverages[0].amount, 350_000);
}

#[test]
fn deleted_post_takes_its_drinks_along() {
    let mut db = open_posts();
    let beer = beverage(&mut db, "lager", Some(5_000));
    let keep = create_post(&mut db, post("2024-01-05", None, &[(beer, 1)])).unwrap();
    let gone = create_post(&mut db, post("2024-01-06", None, &[(beer, 2)])).unwrap();
    delete_post(&mut db, gone).unwrap();
    let posts = get_posts(&mut db).unwrap();
    assert_eq!(posts.len(), 1);
    assert_eq!(posts[0].id, keep);
    assert_eq!(association_rows(&db), 1);
}

#[test]
fn deleting_an_unknown_post_changes_nothing() {
    let mut db = open_posts();
    create_post(&mut db, post("2024-01-05", None, &[])).unwrap();
    assert!(delete_post(&mut db, 4711).is_ok());
    assert_eq!(post_rows(&db), 1);
}

#[test]
fn listed_drink_shows_the_present_strength_of_its_beverage() {
    let mut db = open_posts();
    let beer = beverage(&mut db, "lager", Some(5_000));
    create_post(&mut db, post("2024-01-05", None, &[(beer, 500_000)])).unwrap();
    nomi_log::commands::update_beverage(
        &mut db,
        beer,
        CreateBeverageRequest {
            name: "strong lager".to_string(),
            alcohol_content: Some(9_000),
            category_id: 1,
        },
    )
    .unwrap();
    let posts = get_posts(&mut db).unwrap();
    assert_eq!(posts[0].beverages[0].beverage_name, "strong lager");
    assert_eq!(posts[0].beverages[0].alcohol_content, Some(9_000));
}

#[test]
fn posts_of_one_date_are_listed_latest_created_first() {
    let mut db = open_posts();
    let first = create_post(&mut db, post("2024-01-05", Some("first"), &[])).unwrap();
    let second = create_post(&mut db, post("2024-01-05", Some("second"), &[])).unwrap();
    db.conn()
        .execute("UPDATE posts SET created_at = '2024-01-05 10:00:00' WHERE id = ?1", [first])
        .unwrap();
    db.conn()
        .execute("UPDATE posts SET created_at = '2024-01-05 11:00:00' WHERE id = ?1", [second])
        .unwrap();
    let ids: Vec<i64> = get_posts(&mut db).unwrap().iter().map(|p| p.id).collect();
    assert_eq!(ids, vec![second, first]);
}

#[test]
fn drink_with_a_negative_volume_is_not_read() {
    let mut db = open_posts();
    let beer = beverage(&mut db, "lager", Some(5_000));
    let id = create_post(&mut db, post("2024-01-05", None, &[])).unwrap();
    db.conn()
        .execute(
            "INSERT INTO post_beverages (post_id, beverage_id, amount) VALUES (?1, ?2, -1)",
            [id, beer],
        )
        .unwrap();
    assert!(matches!(get_posts(&mut db), Err(AppError::StorageError(_))));
    assert!(matches!(
        nomi_log::commands::get_monthly_alcohol_intake(&mut db, 2024, 1),
        Err(AppError::StorageError(_))
    ));
    assert!(nomi_log::commands::get_monthly_alcohol_intake(&mut db, 2024, 2).is_ok());
}
