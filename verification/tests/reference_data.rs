use nomi_log::commands::create_beverage;
use nomi_log::commands::create_category;
use nomi_log::commands::create_post;
use nomi_log::commands::delete_beverage;
use nomi_log::commands::delete_category;
use nomi_log::commands::get_beverages;
use nomi_log::commands::get_beverages_by_category;
use nomi_log::commands::get_categories;
use nomi_log::commands::update_beverage;
use nomi_log::db::Database;
use nomi_log::error::AppError;
use nomi_log::error::Entity;
use nomi_log::error::InputFault;
use nomi_log::models::BeverageAmountInput;
use nomi_log::models::CreateBeverageRequest;
use nomi_log::models::CreateCategoryRequest;
use nomi_log::models::CreatePostRequest;
use std::path::PathBuf;

fn open_reference() -> Database {
    Database::new(PathBuf::from(":memory:")).expect("an in-memory database opens")
}

fn category(name: &str, display_order: Option<i64>) -> CreateCategoryRequest {
    CreateCategoryRequest { name: name.to_string(), display_order }
}

fn drink(name: &str, alcohol_content: Option<u32>, category_id: i64) -> CreateBeverageRequest {
    CreateBeverageRequest { name: name.to_string(), alcohol_content, category_id }
}

fn post_of(date: &str, beverage_id: i64) -> CreatePostRequest {
    CreatePostRequest {
        date: date.to_string(),
        comment: None,
        beverages: vec![BeverageAmountInput { beverage_id, amount: 100_000 }],
    }
}

#[test]
fn categories_are_ordered_by_display_order_then_name() {
    let mut db = open_reference();
    create_category(&mut db, category("zeta", Some(0))).unwrap();
    create_category(&mut db, category("alpha", Some(0))).unwrap();
    create_category(&mut db, category("cider", Some(3))).unwrap();
    let names: Vec<String> =
        get_categories(&mut db).unwrap().into_iter().map(|c| c.name).collect();
    assert_eq!(
        names,
        vec![
            "alpha",
            "zeta",
            "ビール",
            "ウイスキー",
            "cider",
            "リキュール",
            "梅酒",
            "焼酎",
            "ワイン",
            "日本酒",
            "ラム酒",
            "ノンアルコール"
        ]
    );
}

#[test]
fn category_without_display_order_gets_zero() {
    let mut db = open_reference();
    let id = create_category(&mut db, category("mead", None)).unwrap();
    let categories = get_categories(&mut db).unwrap();
    let mead = categories.iter().find(|c| c.id == id).unwrap();
    assert_eq!(mead.display_order, 0);
    assert_eq!(mead.name, "mead");
}

#[test]
fn category_name_is_stored_trimmed() {
    let mut db = open_reference();
    let id = create_category(&mut db, category(" \t mead\u{3000}\n", Some(20))).unwrap();
    let categories = get_categories(&mut db).unwrap();
    assert_eq!(categories.iter().find(|c| c.id == id).unwrap().name, "mead");
}

#[test]
fn duplicate_category_name_is_refused() {
    let mut db = open_reference();
    create_category(&mut db, category("mead", None)).unwrap();
    let again = create_category(&mut db, category("  mead ", Some(4)));
    assert!(matches!(again, Err(AppError::DuplicateName(Entity::Category))));
    let seeded = create_category(&mut db, category("ビール", None));
    assert!(matches!(seeded, Err(AppError::DuplicateName(Entity::Category))));
    assert_eq!(get_categories(&mut db).unwrap().len(), 10);
}

#[test]
fn category_names_differ_by_case() {
    let mut db = open_reference();
    create_category(&mut db, category("mead", None)).unwrap();
    assert!(create_category(&mut db, category("Mead", None)).is_ok());
}

#[test]
fn empty_category_name_is_refused() {
    let mut db = open_reference();
    for name in ["", "   ", "\t\n", "\u{3000}"] {
        let result = create_category(&mut db, category(name, None));
        assert!(matches!(result, Err(AppError::InvalidInput(InputFault::EmptyName))));
    }
    assert_eq!(get_categories(&mut db).unwrap().len(), 9);
}

#[test]
fn category_in_use_cannot_be_deleted() {
    let mut db = open_reference();
    let id = create_category(&mut db, category("mead", None)).unwrap();
    create_beverage(&mut db, drink("sweet mead", Some(11_000), id)).unwrap();
    create_beverage(&mut db, drink("dry mead", Some(12_000), id)).unwrap();
    let result = delete_category(&mut db, id);
    assert!(matches!(result, Err(AppError::InUse { entity: Entity::Category, count: 2 })));
    assert!(get_categories(&mut db).unwrap().iter().any(|c| c.id == id));
}

#[test]
fn unused_category_is_deleted() {
    let mut db = open_reference();
    let id = create_category(&mut db, category("mead", None)).unwrap();
    assert_eq!(delete_category(&mut db, id).unwrap(), true);
    assert!(get_categories(&mut db).unwrap().iter().all(|c| c.id != id));
}

#[test]
fn deleting_an_unknown_category_succeeds() {
    let mut db = open_reference();
    assert_eq!(delete_category(&mut db, 4711).unwrap(), true);
    assert_eq!(get_categories(&mut db).unwrap().len(), 9);
}

#[test]
fn beverages_are_listed_by_name_with_their_category() {
    let mut db = open_reference();
    create_beverage(&mut db, drink("stout", Some(4_200), 1)).unwrap();
    create_beverage(&mut db, drink("bourbon", Some(40_000), 2)).unwrap();
    create_beverage(&mut db, drink("oolong", None, 9)).unwrap();
    let beverages = get_beverages(&mut db).unwrap();
    let listed: Vec<(String, Option<u32>, i64, Option<String>)> = beverages
        .into_iter()
        .map(|b| (b.name, b.alcohol_content, b.category_id, b.category_name))
        .collect();
    assert_eq!(
        listed,
        vec![
            ("bourbon".to_string(), Some(40_000), 2, Some("ウイスキー".to_string())),
            ("oolong".to_string(), None, 9, Some("ノンアルコール".to_string())),
            ("stout".to_string(), Some(4_200), 1, Some("ビール".to_string()))
        ]
    );
}

#[test]
fn beverages_of_one_category_are_listed_by_name() {
    let mut db = open_reference();
    create_beverage(&mut db, drink("stout", Some(4_200), 1)).unwrap();
    create_beverage(&mut db, drink("bourbon", Some(40_000), 2)).unwrap();
    create_beverage(&mut db, drink("lager", Some(5_000), 1)).unwrap();
    let names: Vec<String> =
        get_beverages_by_category(&mut db, 1).unwrap().into_iter().map(|b| b.name).collect();
    assert_eq!(names, vec!["lager", "stout"]);
    assert!(get_beverages_by_category(&mut db, 3).unwrap().is_empty());
}

#[test]
fn beverage_name_is_stored_trimmed() {
    let mut db = open_reference();
    let id = create_beverage(&mut db, drink("  pale ale \n", Some(5_500), 1)).unwrap();
    let beverages = get_beverages(&mut db).unwrap();
    assert_eq!(beverages.iter().find(|b| b.id == id).unwrap().name, "pale ale");
}

#[test]
fn beverage_with_empty_name_is_refused() {
    let mut db = open_reference();
    let result = create_beverage(&mut db, drink(" \u{a0} ", Some(5_000), 1));
    assert!(matches!(result, Err(AppError::InvalidInput(InputFault::EmptyName))));
    let result = create_beverage(&mut db, drink("", Some(5_000), 4711));
    assert!(matches!(result, Err(AppError::InvalidInput(InputFault::EmptyName))));
    assert!(get_beverages(&mut db).unwrap().is_empty());
}

#[test]
fn beverage_of_unknown_category_is_refused() {
    let mut db = open_reference();
    let result = create_beverage(&mut db, drink("lager", Some(5_000), 4711));
    assert!(matches!(result, Err(AppError::NotFound(Entity::Category))));
    assert!(get_beverages(&mut db).unwrap().is_empty());
}

#[test]
fn second_beverage_of_one_name_is_refused_by_the_store() {
    let mut db = open_reference();
    create_beverage(&mut db, drink("lager", Some(5_000), 1)).unwrap();
    let result = create_beverage(&mut db, drink("lager", Some(4_000), 1));
    assert!(matches!(result, Err(AppError::StorageError(_))));
    assert_eq!(get_beverages(&mut db).unwrap().len(), 1);
}

#[test]
fn updated_beverage_is_rewritten() {
    let mut db = open_reference();
    let id = create_beverage(&mut db, drink("lager", Some(5_000), 1)).unwrap();
    update_beverage(&mut db, id, drink(" dark lager ", None, 2)).unwrap();
    let beverages = get_beverages(&mut db).unwrap();
    assert_eq!(beverages.len(), 1);
    assert_eq!(beverages[0].id, id);
    assert_eq!(beverages[0].name, "dark lager");
    assert_eq!(beverages[0].alcohol_content, None);
    assert_eq!(beverages[0].category_id, 2);
}

#[test]
fn update_of_a_beverage_looks_at_name_then_beverage_then_category() {
    let mut db = open_reference();
    let id = create_beverage(&mut db, drink("lager", Some(5_000), 1)).unwrap();
    let result = update_beverage(&mut db, 4711, drink("  ", None, 4711));
    assert!(matches!(result, Err(AppError::InvalidInput(InputFault::EmptyName))));
    let result = update_beverage(&mut db, 4711, drink("ale", None, 4711));
    assert!(matches!(result, Err(AppError::NotFound(Entity::Beverage))));
    let result = update_beverage(&mut db, id, drink("ale", None, 4711));
    assert!(matches!(result, Err(AppError::NotFound(Entity::Category))));
    assert_eq!(get_beverages(&mut db).unwrap()[0].name, "lager");
}

#[test]
fn beverage_in_use_cannot_be_deleted() {
    let mut db = open_reference();
    let id = create_beverage(&mut db, drink("lager", Some(5_000), 1)).unwrap();
    create_post(&mut db, post_of("2024-01-05", id)).unwrap();
    create_post(&mut db, post_of("2024-01-06", id)).unwrap();
    create_post(&mut db, post_of("2024-01-07", id)).unwrap();
    let result = delete_beverage(&mut db, id);
    assert!(matches!(result, Err(AppError::InUse { entity: Entity::Beverage, count: 3 })));
    assert_eq!(get_beverages(&mut db).unwrap().len(), 1);
}

#[test]
fn unused_beverage_is_deleted() {
    let mut db = open_reference();
    let id = create_beverage(&mut db, drink("lager", Some(5_000), 1)).unwrap();
    delete_beverage(&mut db, id).unwrap();
    assert!(get_beverages(&mut db).unwrap().is_empty());
}

#[test]
fn unknown_beverage_cannot_be_deleted() {
    let mut db = open_reference();
    let result = delete_beverage(&mut db, 4711);
    assert!(matches!(result, Err(AppError::NotFound(Entity::Beverage))));
}

#[test]
fn largest_alcohol_content_survives() {
    let mut db = open_reference();
    let id = create_beverage(&mut db, drink("essence", Some(u32::MAX), 1)).unwrap();
    let beverages = get_beverages(&mut db).unwrap();
    assert_eq!(beverages.iter().find(|b| b.id == id).unwrap().alcohol_content, Some(u32::MAX));
}

#[test]
fn categories_of_one_place_are_ordered_like_their_bytes() {
    let mut db = open_reference();
    for name in ["b", "a", "B", "ab", "é", "z", "ビール2", "", "𝄞", "\u{ffff}", "~"] {
        if !name.is_empty() {
            create_category(&mut db, category(name, Some(100))).unwrap();
        }
    }
    let names: Vec<String> = get_categories(&mut db)
        .unwrap()
        .into_iter()
        .filter(|c| c.display_order == 100)
        .map(|c| c.name)
        .collect();
    let mut expected: Vec<String> =
        ["b", "a", "B", "ab", "é", "z", "ビール2", "𝄞", "\u{ffff}", "~"].iter().map(|s| s.to_string()).collect();
    expected.sort();
    assert_eq!(names, expected);
}

#[test]
fn failures_are_put_in_words() {
    assert_eq!(
        AppError::InUse { entity: Entity::Beverage, count: 3 }.message(),
        "このお酒は3件の投稿で使用されているため削除できません"
    );
    assert_eq!(
        AppError::InUse { entity: Entity::Category, count: 12 }.message(),
        "このカテゴリーは12件のお酒で使用されているため削除できません"
    );
    assert_eq!(AppError::NotFound(Entity::Category).message(), "指定されたカテゴリーが見つかりません");
    assert_eq!(AppError::NotFound(Entity::Beverage).message(), "指定されたお酒が見つかりません");
    assert_eq!(AppError::InvalidInput(InputFault::EmptyName).message(), "名称を入力してください");
    assert_eq!(AppError::InvalidInput(InputFault::AmountOutOfRange).message(), "量が大きすぎます");
    assert_eq!(AppError::DuplicateName(Entity::Category).message(), "同じ名称のカテゴリーが既にあります");
    assert_eq!(AppError::StorageError("disk full".to_string()).message(), "disk full");
    assert_eq!(AppError::SchemaError("no such file".to_string()).message(), "no such file");
}

#[test]
fn failure_to_open_is_a_storage_error() {
    let result = Database::new(PathBuf::from("/nonexistent-directory/for/certain/nomi-log.db"));
    assert!(matches!(result, Err(AppError::StorageError(_))));
}

#[test]
fn beverage_with_a_content_that_is_no_whole_number_is_not_read() {
    let mut db = open_reference();
    db.conn()
        .execute(
            "INSERT INTO beverages (name, alcohol_content, category_id) VALUES ('odd', 5.5, 1)",
            [],
        )
        .unwrap();
    assert!(matches!(get_beverages(&mut db), Err(AppError::StorageError(_))));
}

#[test]
fn beverage_with_a_negative_content_is_not_read() {
    let mut db = open_reference();
    db.conn()
        .execute(
            "INSERT INTO beverages (name, alcohol_content, category_id) VALUES ('odd', -1, 1)",
            [],
        )
        .unwrap();
    assert!(matches!(get_beverages(&mut db), Err(AppError::StorageError(_))));
    assert!(matches!(get_beverages_by_category(&mut db, 1), Err(AppError::StorageError(_))));
    assert!(get_beverages_by_category(&mut db, 2).unwrap().is_empty());
}
