//! The operations on categories, beverages and posts, and the monthly
//! statistics.
//!
//! Each operation takes the database exclusively, talks to the engine
//! through it and returns a record or a failure. Its contract says which
//! exchanges it adds to the journal of the database, request by request,
//! and which result belongs to each answer of the engine.

use crate::calendar::month_range;
use crate::calendar::month_start;
use crate::calendar::next_month_start;
use crate::db::Database;
use crate::error::AppError;
use crate::error::Entity;
use crate::error::InputFault;
use crate::intake::IntakeEntry;
use crate::intake::IntakeEntryView;
use crate::intake::monthly_summary;
use crate::intake::Serving;
use crate::intake::summary_of;
use crate::models::Beverage;
use crate::models::BeverageAmount;
use crate::models::BeverageAmountInput;
use crate::models::BeverageAmountView;
use crate::models::BeverageView;
use crate::models::Category;
use crate::models::CreateBeverageRequest;
use crate::models::CreateCategoryRequest;
use crate::models::CreatePostRequest;
use crate::models::MonthlyAlcoholIntake;
use crate::models::PostWithBeverages;
use crate::models::PostWithBeveragesView;
use crate::models::text_of;
use crate::order::in_order;
use crate::order::listing_of;
use crate::order::Ranked;
use crate::order::read_listing;
use crate::rows::lookups_answered;
use crate::rows::lookups_run;
use crate::rows::PostDate;
use crate::rows::PostDateView;
use crate::rows::read_records;
use crate::rows::records_of;
use crate::schema::INSERT_CATEGORY;
use crate::statements::COUNT_BEVERAGE;
use crate::statements::COUNT_BEVERAGES_IN_CATEGORY;
use crate::statements::COUNT_BEVERAGE_POSTS;
use crate::statements::COUNT_CATEGORIES_NAMED;
use crate::statements::COUNT_CATEGORY;
use crate::statements::DELETE_BEVERAGE;
use crate::statements::DELETE_CATEGORY;
use crate::statements::DELETE_POST;
use crate::statements::DELETE_POST_BEVERAGES;
use crate::statements::INSERT_BEVERAGE;
use crate::statements::INSERT_POST;
use crate::statements::INSERT_POST_BEVERAGE;
use crate::statements::SELECT_BEVERAGES;
use crate::statements::SELECT_BEVERAGES_BY_CATEGORY;
use crate::statements::SELECT_CATEGORIES;
use crate::statements::SELECT_POSTS;
use crate::statements::SELECT_POSTS_IN_RANGE;
use crate::statements::SELECT_POST_BEVERAGES;
use crate::statements::SELECT_POST_SERVINGS;
use crate::statements::UPDATE_BEVERAGE;
use crate::statements::UPDATE_POST;
use crate::store::added;
use crate::store::all_bindable;
use crate::store::begin;
use crate::store::Bound;
use crate::store::conclude;
use crate::store::count;
use crate::store::count_in;
use crate::store::Datum;
use crate::store::Exchange;
use crate::store::execute;
use crate::store::execute_each;
use crate::store::failed_in_storage;
use crate::store::last_insert_rowid;
use crate::store::lemma_added_none;
use crate::store::lemma_added_one;
use crate::store::lemma_added_twice;
use crate::store::no_params;
use crate::store::optional_text;
use crate::store::optional_text_param;
use crate::store::params1;
use crate::store::params2;
use crate::store::params3;
use crate::store::params4;
use crate::store::query;
use crate::store::Reply;
use crate::store::Request;
use crate::store::requests_of;
use crate::store::request_of;
use crate::store::rollback;
use crate::store::selection;
use crate::store::SqlValue;
use crate::store::statement;
use crate::store::text_param;
use crate::store::transaction_connection;
use crate::store::transaction_tail;
use crate::store::unexpected_rows;
use crate::text::text_at_most;
use crate::text::text_le;
use crate::text::trim;
use crate::text::trimmed;
use vstd::prelude::*;

verus! {

/// `post` with the drinks `beverages`.
pub open spec fn with_beverages(
    post: PostWithBeveragesView,
    beverages: Seq<BeverageAmountView>,
) -> PostWithBeveragesView {
    PostWithBeveragesView {
        id: post.id,
        date: post.date,
        comment: post.comment,
        created_at: post.created_at,
        updated_at: post.updated_at,
        beverages,
    }
}

/// The request for the drinks of the post `post_id`, each with the name and
/// the alcohol content that its beverage has now.
pub open spec fn beverage_lookup(post_id: i64) -> Request {
    selection(SELECT_POST_BEVERAGES@, seq![Datum::Integer(post_id)])
}

/// The requests for the drinks of `posts`, one for each post, in their
/// order.
pub open spec fn beverage_lookups(posts: Seq<PostWithBeveragesView>) -> Seq<Request> {
    Seq::new(posts.len(), |i: int| beverage_lookup(posts[i].id))
}

/// The posts `heads`, each with the drinks that the lookup at its place in
/// `lookups` was answered with.
pub open spec fn posts_found(heads: Seq<PostWithBeveragesView>, lookups: Seq<Exchange>) -> Seq<
    PostWithBeveragesView,
> {
    Seq::new(
        heads.len(),
        |i: int| with_beverages(heads[i], records_of::<BeverageAmount>(lookups[i].reply)->0),
    )
}

/// What `get_posts` does: it asks for the posts, latest date first and
/// among those of one date the latest created first, and then for the
/// drinks of each post in turn. It returns the posts as the engine lists
/// them, each with its drinks as the engine lists them. An answer that is
/// not a list of posts in that order, or not a list of drinks, ends it
/// with a failure.
pub open spec fn get_posts_run(
    run: Seq<Exchange>,
    result: Result<Vec<PostWithBeverages>, AppError>,
) -> bool {
    &&& run.len() >= 1
    &&& run[0].request == selection(SELECT_POSTS@, Seq::empty())
    &&& match listing_of::<PostWithBeverages>(run[0].reply) {
        None => run.len() == 1 && failed_in_storage(result),
        Some(heads) => {
            &&& lookups_run::<BeverageAmount>(beverage_lookups(heads), run.skip(1))
            &&& if run.len() == 1 + heads.len() && lookups_answered::<BeverageAmount>(
                run.skip(1),
            ) {
                result matches Ok(posts) && posts.deep_view() == posts_found(heads, run.skip(1))
            } else {
                failed_in_storage(result)
            }
        },
    }
}

/// All posts, latest date first and those of one date latest created
/// first, each with its drinks.
#[verifier::loop_isolation(false)]
pub fn get_posts(db: &mut Database) -> (result: Result<Vec<PostWithBeverages>, AppError>)
    ensures
        old(db).journal().is_prefix_of(final(db).journal()),
        get_posts_run(added(old(db).journal(), final(db).journal()), result),
        result matches Ok(list) ==> in_order::<PostWithBeverages>(list.deep_view()),
{
    let ghost start = db.journal@;
    proof {
        lemma_added_none(start);
    }
    let params = no_params();
    let rows = query(&db.conn, &mut db.journal, SELECT_POSTS, &params);
    let ghost listed = db.journal@;
    proof {
        lemma_added_one(start, start, listed);
    }
    let rows = rows?;
    let mut posts = match read_listing::<PostWithBeverages>(&rows) {
        Some(posts) => posts,
        None => {
            return Err(unexpected_rows());
        },
    };
    let ghost heads = posts.deep_view();
    let mut i: usize = 0;
    proof {
        lemma_added_none(listed);
    }
    while i < posts.len()
        invariant
            i <= posts.len(),
            posts.len() == heads.len(),
            start.is_prefix_of(listed),
            listed.len() == start.len() + 1,
            listed.is_prefix_of(db.journal@),
            added(listed, db.journal@).len() == i,
            forall|k: int|
                0 <= k < i ==> (#[trigger] added(listed, db.journal@)[k]).request
                    == beverage_lookup(heads[k].id),
            forall|k: int|
                0 <= k < i ==> records_of::<BeverageAmount>(
                    (#[trigger] added(listed, db.journal@)[k]).reply,
                ) is Some,
            forall|k: int|
                0 <= k < i ==> (#[trigger] posts[k])@ == with_beverages(
                    heads[k],
                    records_of::<BeverageAmount>(added(listed, db.journal@)[k].reply)->0,
                ),
            forall|k: int| i <= k < posts.len() ==> (#[trigger] posts[k])@ == heads[k],
        decreases posts.len() - i,
    {
        let params = params1(SqlValue::Integer(posts[i].id));
        let ghost before = db.journal@;
        let rows = query(&db.conn, &mut db.journal, SELECT_POST_BEVERAGES, &params);
        proof {
            lemma_added_one(listed, before, db.journal@);
            lemma_added_twice(start, listed, db.journal@);
            assert(added(start, db.journal@).skip(1) =~= added(listed, db.journal@));
            assert(added(start, db.journal@)[0] == listed.last());
        }
        let beverages = match rows {
            Ok(rows) => match read_records::<BeverageAmount>(&rows) {
                Some(beverages) => beverages,
                None => {
                    return Err(unexpected_rows());
                },
            },
            Err(e) => {
                return Err(e);
            },
        };
        posts[i].beverages = beverages;
        i = i + 1;
    }
    proof {
        lemma_added_twice(start, listed, db.journal@);
        assert(added(start, db.journal@).skip(1) =~= added(listed, db.journal@));
        assert(added(start, db.journal@)[0] == listed.last());
        assert(posts.deep_view() =~= posts_found(heads, added(listed, db.journal@)));
        assert forall|i: int, j: int|
            0 <= i < j < posts.len() implies <PostWithBeverages as Ranked>::precedes(
            posts.deep_view()[i],
            posts.deep_view()[j],
        ) by {
            assert(<PostWithBeverages as Ranked>::precedes(heads[i], heads[j]));
        }
    }
    Ok(posts)
}

/// Whether every volume of `beverages` can be stored: the engine holds
/// integers up to `i64::MAX`.
pub open spec fn amounts_storable(beverages: Seq<BeverageAmountInput>) -> bool {
    forall|i: int| 0 <= i < beverages.len() ==> (#[trigger] beverages[i]).amount <= i64::MAX
}

/// The request that inserts one drink of the post `post_id`.
pub open spec fn association_request(post_id: i64, drink: BeverageAmountInput) -> Request {
    statement(
        INSERT_POST_BEVERAGE@,
        seq![
            Datum::Integer(post_id),
            Datum::Integer(drink.beverage_id),
            Datum::Integer(drink.amount as i64),
        ],
    )
}

/// The requests that insert the drinks `beverages` of the post `post_id`,
/// one for each, in their order.
pub open spec fn association_requests(post_id: i64, beverages: Seq<BeverageAmountInput>) -> Seq<
    Request,
> {
    Seq::new(beverages.len(), |i: int| association_request(post_id, beverages[i]))
}

/// Whether every volume of `beverages` can be stored.
pub fn amounts_fit(beverages: &Vec<BeverageAmountInput>) -> (storable: bool)
    ensures
        storable == amounts_storable(beverages@),
{
    let mut i: usize = 0;
    while i < beverages.len()
        invariant
            i <= beverages.len(),
            forall|k: int| 0 <= k < i ==> (#[trigger] beverages[k]).amount <= i64::MAX,
        decreases beverages.len() - i,
    {
        if beverages[i].amount > i64::MAX as u64 {
            return false;
        }
        i = i + 1;
    }
    true
}

fn association_statements(post_id: i64, beverages: &Vec<BeverageAmountInput>) -> (list: Vec<Bound>)
    requires
        amounts_storable(beverages@),
    ensures
        all_bindable(list@),
        requests_of(list@) == association_requests(post_id, beverages@),
{
    let mut list: Vec<Bound> = Vec::new();
    let mut i: usize = 0;
    while i < beverages.len()
        invariant
            i <= beverages.len(),
            list.len() == i,
            amounts_storable(beverages@),
            all_bindable(list@),
            forall|k: int|
                0 <= k < i ==> request_of(#[trigger] list[k]) == association_request(
                    post_id,
                    beverages[k],
                ),
        decreases beverages.len() - i,
    {
        let drink = beverages[i];
        let params = params3(
            SqlValue::Integer(post_id),
            SqlValue::Integer(drink.beverage_id),
            SqlValue::Integer(drink.amount as i64),
        );
        list.push(Bound { sql: INSERT_POST_BEVERAGE, params });
        i = i + 1;
    }
    assert(requests_of(list@) =~= association_requests(post_id, beverages@));
    list
}

/// The request that inserts a post.
pub open spec fn insert_post_request(request: CreatePostRequest) -> Request {
    statement(
        INSERT_POST@,
        seq![Datum::Text(request.date@), optional_text(text_of(request.comment))],
    )
}

/// What `create_post` does. A volume that cannot be stored is refused at
/// once. Else it begins a transaction, inserts the post, asks for its row
/// id and inserts the drinks under that id, one by one. It commits where
/// all of that went through, and returns the id; after the first failure
/// it rolls back.
pub open spec fn create_post_run(
    request: CreatePostRequest,
    run: Seq<Exchange>,
    result: Result<i64, AppError>,
) -> bool {
    if !amounts_storable(request.beverages@) {
        run.len() == 0 && result == Err::<i64, AppError>(
            AppError::InvalidInput(InputFault::AmountOutOfRange),
        )
    } else {
        &&& run.len() >= 1
        &&& run[0].request == Request::Begin
        &&& if run[0].reply is Failed {
            run.len() == 1 && failed_in_storage(result)
        } else {
            &&& run.len() >= 3
            &&& run[1].request == insert_post_request(request)
            &&& if run[1].reply is Failed {
                run.len() == 3 && run[2].request == Request::Rollback && failed_in_storage(result)
            } else {
                &&& run[2].request == Request::LastInsertRowid
                &&& run[2].reply matches Reply::RowId(id)
                &&& transaction_tail(
                    association_requests(id, request.beverages@),
                    run.skip(3),
                    result is Ok,
                )
                &&& match result {
                    Ok(returned) => returned == id,
                    Err(e) => e is StorageError,
                }
            }
        }
    }
}

/// Creates a post with its drinks, all of it or nothing, and returns the
/// id of the post.
pub fn create_post(db: &mut Database, request: CreatePostRequest) -> (result: Result<i64, AppError>)
    ensures
        old(db).journal().is_prefix_of(final(db).journal()),
        create_post_run(request, added(old(db).journal(), final(db).journal()), result),
{
    let ghost start = db.journal@;
    proof {
        lemma_added_none(start);
    }
    if !amounts_fit(&request.beverages) {
        return Err(AppError::InvalidInput(InputFault::AmountOutOfRange));
    }
    let transaction = begin(&db.conn, &mut db.journal);
    let ghost begun = db.journal@;
    proof {
        lemma_added_one(start, start, begun);
    }
    let transaction = transaction?;
    let conn = transaction_connection(&transaction);
    let params = params2(text_param(request.date.as_str()), optional_text_param(&request.comment));
    let inserted = execute(conn, &mut db.journal, INSERT_POST, &params);
    let ghost written = db.journal@;
    proof {
        lemma_added_one(start, begun, written);
    }
    match inserted {
        Ok(_) => {},
        Err(e) => {
            let _ = rollback(transaction, &mut db.journal);
            proof {
                lemma_added_one(start, written, db.journal@);
            }
            return Err(e);
        },
    }
    let id = last_insert_rowid(conn, &mut db.journal);
    let ghost identified = db.journal@;
    proof {
        lemma_added_one(start, written, identified);
    }
    let drinks = association_statements(id, &request.beverages);
    let body = execute_each(conn, &mut db.journal, &drinks);
    let ghost sent = db.journal@;
    let outcome = conclude(transaction, &mut db.journal, body);
    proof {
        lemma_added_twice(start, identified, sent);
        lemma_added_one(start, sent, db.journal@);
        let run = added(start, db.journal@);
        assert(run.skip(3).drop_last() =~= added(identified, sent));
        assert(run.skip(3).last() == db.journal@.last());
        assert(run[0] == begun.last());
        assert(run[1] == written.last());
        assert(run[2] == identified.last());
    }
    match outcome {
        Ok(()) => Ok(id),
        Err(e) => Err(e),
    }
}

/// The requests that rewrite the post `id` as `request` says: the post
/// itself, then the removal of all its drinks, then the new drinks, one by
/// one.
pub open spec fn update_post_requests(id: i64, request: CreatePostRequest) -> Seq<Request> {
    seq![
        statement(
            UPDATE_POST@,
            seq![
                Datum::Text(request.date@),
                optional_text(text_of(request.comment)),
                Datum::Integer(id),
            ],
        ),
        statement(DELETE_POST_BEVERAGES@, seq![Datum::Integer(id)]),
    ] + association_requests(id, request.beverages@)
}

fn update_post_statements(id: i64, request: &CreatePostRequest) -> (list: Vec<Bound>)
    requires
        amounts_storable(request.beverages@),
    ensures
        all_bindable(list@),
        requests_of(list@) == update_post_requests(id, *request),
{
    let mut list: Vec<Bound> = Vec::new();
    list.push(
        Bound {
            sql: UPDATE_POST,
            params: params3(
                text_param(request.date.as_str()),
                optional_text_param(&request.comment),
                SqlValue::Integer(id),
            ),
        },
    );
    list.push(Bound { sql: DELETE_POST_BEVERAGES, params: params1(SqlValue::Integer(id)) });
    let mut drinks = association_statements(id, &request.beverages);
    let ghost head = list@;
    let ghost rest = drinks@;
    list.append(&mut drinks);
    proof {
        assert(list@ == head + rest);
        assert(requests_of(list@) =~= update_post_requests(id, *request));
        assert forall|i: int| 0 <= i < list@.len() implies crate::store::bindable(
            (#[trigger] list@[i]).params.deep_view(),
        ) by {
            if i >= 2 {
                assert(list@[i] == rest[i - 2]);
            }
        }
    }
    list
}

/// What `update_post` does. A volume that cannot be stored is refused at
/// once. Else it begins a transaction, rewrites the post, removes all its
/// drinks and inserts the new ones. It commits where all of that went
/// through; after the first failure it rolls back.
pub open spec fn update_post_run(
    id: i64,
    request: CreatePostRequest,
    run: Seq<Exchange>,
    result: Result<(), AppError>,
) -> bool {
    if !amounts_storable(request.beverages@) {
        run.len() == 0 && result == Err::<(), AppError>(
            AppError::InvalidInput(InputFault::AmountOutOfRange),
        )
    } else {
        &&& run.len() >= 1
        &&& run[0].request == Request::Begin
        &&& if run[0].reply is Failed {
            run.len() == 1 && failed_in_storage(result)
        } else {
            &&& transaction_tail(update_post_requests(id, request), run.skip(1), result is Ok)
            &&& result matches Err(e) ==> e is StorageError
        }
    }
}

/// Rewrites a post and replaces its drinks, all of it or nothing.
pub fn update_post(db: &mut Database, id: i64, request: CreatePostRequest) -> (result: Result<
    (),
    AppError,
>)
    ensures
        old(db).journal().is_prefix_of(final(db).journal()),
        update_post_run(id, request, added(old(db).journal(), final(db).journal()), result),
{
    let ghost start = db.journal@;
    proof {
        lemma_added_none(start);
    }
    if !amounts_fit(&request.beverages) {
        return Err(AppError::InvalidInput(InputFault::AmountOutOfRange));
    }
    let statements = update_post_statements(id, &request);
    let transaction = begin(&db.conn, &mut db.journal);
    let ghost begun = db.journal@;
    proof {
        lemma_added_one(start, start, begun);
    }
    let transaction = transaction?;
    let body = execute_each(transaction_connection(&transaction), &mut db.journal, &statements);
    let ghost sent = db.journal@;
    let outcome = conclude(transaction, &mut db.journal, body);
    proof {
        lemma_added_twice(start, begun, sent);
        lemma_added_one(start, sent, db.journal@);
        let run = added(start, db.journal@);
        assert(run.skip(1).drop_last() =~= added(begun, sent));
        assert(run.skip(1).last() == db.journal@.last());
        assert(run[0] == begun.last());
    }
    outcome
}

/// What `delete_post` does: it deletes the post. Its drinks go with it by
/// the cascade that the layout of the database declares.
pub open spec fn delete_post_run(
    id: i64,
    run: Seq<Exchange>,
    result: Result<(), AppError>,
) -> bool {
    &&& run.len() == 1
    &&& run[0].request == statement(DELETE_POST@, seq![Datum::Integer(id)])
    &&& if run[0].reply is Failed {
        failed_in_storage(result)
    } else {
        result is Ok
    }
}

/// Deletes a post with its drinks.
pub fn delete_post(db: &mut Database, id: i64) -> (result: Result<(), AppError>)
    ensures
        old(db).journal().is_prefix_of(final(db).journal()),
        delete_post_run(id, added(old(db).journal(), final(db).journal()), result),
{
    let ghost start = db.journal@;
    proof {
        lemma_added_none(start);
    }
    let params = params1(SqlValue::Integer(id));
    let deleted = execute(&db.conn, &mut db.journal, DELETE_POST, &params);
    proof {
        lemma_added_one(start, start, db.journal@);
    }
    deleted?;
    Ok(())
}

/// What `get_categories` does: it asks for the categories, ordered by their
/// place in the order of display and then by name, and returns them as the
/// engine lists them. An answer that is not a list of categories in that
/// order is a failure.
pub open spec fn get_categories_run(
    run: Seq<Exchange>,
    result: Result<Vec<Category>, AppError>,
) -> bool {
    &&& run.len() == 1
    &&& run[0].request == selection(SELECT_CATEGORIES@, Seq::empty())
    &&& match listing_of::<Category>(run[0].reply) {
        Some(records) => result matches Ok(list) && list.deep_view() == records,
        None => failed_in_storage(result),
    }
}

/// All categories, by their place in the order of display and then by
/// name.
pub fn get_categories(db: &mut Database) -> (result: Result<Vec<Category>, AppError>)
    ensures
        old(db).journal().is_prefix_of(final(db).journal()),
        get_categories_run(added(old(db).journal(), final(db).journal()), result),
        result matches Ok(list) ==> in_order::<Category>(list.deep_view()),
{
    let params = no_params();
    let ghost start = db.journal@;
    proof {
        lemma_added_none(start);
    }
    let rows = query(&db.conn, &mut db.journal, SELECT_CATEGORIES, &params);
    proof {
        lemma_added_one(start, start, db.journal@);
    }
    match rows {
        Ok(rows) => match read_listing::<Category>(&rows) {
            Some(list) => Ok(list),
            None => Err(unexpected_rows()),
        },
        Err(e) => Err(e),
    }
}

/// What `create_category` does with a name that is `name` once trimmed. An
/// empty name is refused at once. Else it counts the categories of that
/// name; where there is none, it inserts the category, and returns the row
/// id that the engine reports.
pub open spec fn create_category_run(
    name: Seq<char>,
    display_order: i64,
    run: Seq<Exchange>,
    result: Result<i64, AppError>,
) -> bool {
    if name.len() == 0 {
        run.len() == 0 && result == Err::<i64, AppError>(
            AppError::InvalidInput(InputFault::EmptyName),
        )
    } else {
        &&& run.len() >= 1
        &&& run[0].request == selection(COUNT_CATEGORIES_NAMED@, seq![Datum::Text(name)])
        &&& match count_in(run[0].reply) {
            None => run.len() == 1 && failed_in_storage(result),
            Some(n) => if n > 0 {
                run.len() == 1 && result == Err::<i64, AppError>(
                    AppError::DuplicateName(Entity::Category),
                )
            } else {
                &&& run.len() >= 2
                &&& run[1].request == statement(
                    INSERT_CATEGORY@,
                    seq![Datum::Text(name), Datum::Integer(display_order)],
                )
                &&& if run[1].reply is Failed {
                    run.len() == 2 && failed_in_storage(result)
                } else {
                    &&& run.len() == 3
                    &&& run[2].request == Request::LastInsertRowid
                    &&& result matches Ok(id) && run[2].reply == Reply::RowId(id)
                }
            },
        }
    }
}

/// The place in the order of display that `request` asks for: 0 where it
/// names none.
pub open spec fn requested_order(request: CreateCategoryRequest) -> i64 {
    match request.display_order {
        Some(order) => order,
        None => 0,
    }
}

/// Creates a category and returns its id.
pub fn create_category(db: &mut Database, request: CreateCategoryRequest) -> (result: Result<
    i64,
    AppError,
>)
    ensures
        old(db).journal().is_prefix_of(final(db).journal()),
        create_category_run(
            trimmed(request.name@),
            requested_order(request),
            added(old(db).journal(), final(db).journal()),
            result,
        ),
{
    let ghost start = db.journal@;
    proof {
        lemma_added_none(start);
    }
    let name = trim(request.name.as_str());
    if name.as_str().is_empty() {
        return Err(AppError::InvalidInput(InputFault::EmptyName));
    }
    let display_order = match request.display_order {
        Some(order) => order,
        None => 0,
    };
    let params = params1(text_param(name.as_str()));
    let existing = count(&db.conn, &mut db.journal, COUNT_CATEGORIES_NAMED, &params);
    let ghost counted = db.journal@;
    proof {
        lemma_added_one(start, start, counted);
    }
    let existing = existing?;
    if existing > 0 {
        return Err(AppError::DuplicateName(Entity::Category));
    }
    let params = params2(text_param(name.as_str()), SqlValue::Integer(display_order));
    let inserted = execute(&db.conn, &mut db.journal, INSERT_CATEGORY, &params);
    let ghost written = db.journal@;
    proof {
        lemma_added_one(start, counted, written);
    }
    inserted?;
    let id = last_insert_rowid(&db.conn, &mut db.journal);
    proof {
        lemma_added_one(start, written, db.journal@);
    }
    Ok(id)
}

/// What `delete_category` does: it counts the beverages of the category,
/// and deletes the category only where there is none.
pub open spec fn delete_category_run(
    id: i64,
    run: Seq<Exchange>,
    result: Result<bool, AppError>,
) -> bool {
    &&& run.len() >= 1
    &&& run[0].request == selection(COUNT_BEVERAGES_IN_CATEGORY@, seq![Datum::Integer(id)])
    &&& match count_in(run[0].reply) {
        None => run.len() == 1 && failed_in_storage(result),
        Some(n) => if n > 0 {
            run.len() == 1 && result == Err::<bool, AppError>(
                AppError::InUse { entity: Entity::Category, count: n },
            )
        } else {
            &&& run.len() == 2
            &&& run[1].request == statement(DELETE_CATEGORY@, seq![Datum::Integer(id)])
            &&& if run[1].reply is Failed {
                failed_in_storage(result)
            } else {
                result == Ok::<bool, AppError>(true)
            }
        },
    }
}

/// Deletes a category, unless a beverage belongs to it.
pub fn delete_category(db: &mut Database, id: i64) -> (result: Result<bool, AppError>)
    ensures
        old(db).journal().is_prefix_of(final(db).journal()),
        delete_category_run(id, added(old(db).journal(), final(db).journal()), result),
{
    let ghost start = db.journal@;
    proof {
        lemma_added_none(start);
    }
    let params = params1(SqlValue::Integer(id));
    let used = count(&db.conn, &mut db.journal, COUNT_BEVERAGES_IN_CATEGORY, &params);
    let ghost counted = db.journal@;
    proof {
        lemma_added_one(start, start, counted);
    }
    let used = used?;
    if used > 0 {
        return Err(AppError::InUse { entity: Entity::Category, count: used });
    }
    let deleted = execute(&db.conn, &mut db.journal, DELETE_CATEGORY, &params);
    proof {
        lemma_added_one(start, counted, db.journal@);
    }
    deleted?;
    Ok(true)
}

/// What `get_beverages` does: it asks for the beverages, each with the
/// name of its category, ordered by name, and returns them as the engine
/// lists them. An answer that is not a list of beverages in that order is
/// a failure.
pub open spec fn get_beverages_run(
    run: Seq<Exchange>,
    result: Result<Vec<Beverage>, AppError>,
) -> bool {
    &&& run.len() == 1
    &&& run[0].request == selection(SELECT_BEVERAGES@, Seq::empty())
    &&& match listing_of::<Beverage>(run[0].reply) {
        Some(records) => result matches Ok(list) && list.deep_view() == records,
        None => failed_in_storage(result),
    }
}

/// All beverages, by name.
pub fn get_beverages(db: &mut Database) -> (result: Result<Vec<Beverage>, AppError>)
    ensures
        old(db).journal().is_prefix_of(final(db).journal()),
        get_beverages_run(added(old(db).journal(), final(db).journal()), result),
        result matches Ok(list) ==> in_order::<Beverage>(list.deep_view()),
{
    let params = no_params();
    let ghost start = db.journal@;
    proof {
        lemma_added_none(start);
    }
    let rows = query(&db.conn, &mut db.journal, SELECT_BEVERAGES, &params);
    proof {
        lemma_added_one(start, start, db.journal@);
    }
    match rows {
        Ok(rows) => match read_listing::<Beverage>(&rows) {
            Some(list) => Ok(list),
            None => Err(unexpected_rows()),
        },
        Err(e) => Err(e),
    }
}

/// Whether each of `beverages` is of the category `category_id`.
pub open spec fn all_of_category(beverages: Seq<BeverageView>, category_id: i64) -> bool {
    forall|i: int|
        0 <= i < beverages.len() ==> (#[trigger] beverages[i]).category_id == category_id
}

/// What `get_beverages_by_category` does: it asks for the beverages of the
/// category, ordered by name, and returns them as the engine lists them.
/// An answer that is not a list of beverages of the category in that order
/// is a failure.
pub open spec fn get_beverages_by_category_run(
    category_id: i64,
    run: Seq<Exchange>,
    result: Result<Vec<Beverage>, AppError>,
) -> bool {
    &&& run.len() == 1
    &&& run[0].request == selection(
        SELECT_BEVERAGES_BY_CATEGORY@,
        seq![Datum::Integer(category_id)],
    )
    &&& match listing_of::<Beverage>(run[0].reply) {
        Some(records) => if all_of_category(records, category_id) {
            result matches Ok(list) && list.deep_view() == records
        } else {
            failed_in_storage(result)
        },
        None => failed_in_storage(result),
    }
}

fn beverages_of_category(beverages: &Vec<Beverage>, category_id: i64) -> (all: bool)
    ensures
        all == all_of_category(beverages.deep_view(), category_id),
{
    let mut i: usize = 0;
    while i < beverages.len()
        invariant
            i <= beverages.len(),
            forall|k: int|
                0 <= k < i ==> (#[trigger] beverages.deep_view()[k]).category_id == category_id,
        decreases beverages.len() - i,
    {
        assert(beverages.deep_view()[i as int] == beverages[i as int]@);
        if beverages[i].category_id != category_id {
            return false;
        }
        i = i + 1;
    }
    true
}

/// The beverages of one category, by name.
pub fn get_beverages_by_category(db: &mut Database, category_id: i64) -> (result: Result<
    Vec<Beverage>,
    AppError,
>)
    ensures
        old(db).journal().is_prefix_of(final(db).journal()),
        get_beverages_by_category_run(
            category_id,
            added(old(db).journal(), final(db).journal()),
            result,
        ),
        result matches Ok(list) ==> in_order::<Beverage>(list.deep_view()) && all_of_category(
            list.deep_view(),
            category_id,
        ),
{
    let params = params1(SqlValue::Integer(category_id));
    let ghost start = db.journal@;
    proof {
        lemma_added_none(start);
    }
    let rows = query(&db.conn, &mut db.journal, SELECT_BEVERAGES_BY_CATEGORY, &params);
    proof {
        lemma_added_one(start, start, db.journal@);
    }
    match rows {
        Ok(rows) => match read_listing::<Beverage>(&rows) {
            Some(list) => if beverages_of_category(&list, category_id) {
                Ok(list)
            } else {
                Err(unexpected_rows())
            },
            None => Err(unexpected_rows()),
        },
        Err(e) => Err(e),
    }
}

/// The parameter for an optional alcohol content: null where it is unknown.
pub open spec fn optional_content(content: Option<u32>) -> Datum {
    match content {
        Some(c) => Datum::Integer(c as i64),
        None => Datum::Null,
    }
}

fn content_param(content: Option<u32>) -> (value: SqlValue)
    ensures
        value@ == optional_content(content),
{
    match content {
        Some(c) => SqlValue::Integer(c as i64),
        None => SqlValue::Null,
    }
}

/// What `create_beverage` does with a name that is `name` once trimmed. An
/// empty name is refused at once. Else it counts the categories of the
/// given id; where there is one, it inserts the beverage, and returns the
/// row id that the engine reports.
pub open spec fn create_beverage_run(
    name: Seq<char>,
    alcohol_content: Option<u32>,
    category_id: i64,
    run: Seq<Exchange>,
    result: Result<i64, AppError>,
) -> bool {
    if name.len() == 0 {
        run.len() == 0 && result == Err::<i64, AppError>(
            AppError::InvalidInput(InputFault::EmptyName),
        )
    } else {
        &&& run.len() >= 1
        &&& run[0].request == selection(COUNT_CATEGORY@, seq![Datum::Integer(category_id)])
        &&& match count_in(run[0].reply) {
            None => run.len() == 1 && failed_in_storage(result),
            Some(n) => if n == 0 {
                run.len() == 1 && result == Err::<i64, AppError>(
                    AppError::NotFound(Entity::Category),
                )
            } else {
                &&& run.len() >= 2
                &&& run[1].request == statement(
                    INSERT_BEVERAGE@,
                    seq![
                        Datum::Text(name),
                        optional_content(alcohol_content),
                        Datum::Integer(category_id),
                    ],
                )
                &&& if run[1].reply is Failed {
                    run.len() == 2 && failed_in_storage(result)
                } else {
                    &&& run.len() == 3
                    &&& run[2].request == Request::LastInsertRowid
                    &&& result matches Ok(id) && run[2].reply == Reply::RowId(id)
                }
            },
        }
    }
}

/// Creates a beverage and returns its id.
pub fn create_beverage(db: &mut Database, request: CreateBeverageRequest) -> (result: Result<
    i64,
    AppError,
>)
    ensures
        old(db).journal().is_prefix_of(final(db).journal()),
        create_beverage_run(
            trimmed(request.name@),
            request.alcohol_content,
            request.category_id,
            added(old(db).journal(), final(db).journal()),
            result,
        ),
{
    let ghost start = db.journal@;
    proof {
        lemma_added_none(start);
    }
    let name = trim(request.name.as_str());
    if name.as_str().is_empty() {
        return Err(AppError::InvalidInput(InputFault::EmptyName));
    }
    let params = params1(SqlValue::Integer(request.category_id));
    let categories = count(&db.conn, &mut db.journal, COUNT_CATEGORY, &params);
    let ghost counted = db.journal@;
    proof {
        lemma_added_one(start, start, counted);
    }
    let categories = categories?;
    if categories == 0 {
        return Err(AppError::NotFound(Entity::Category));
    }
    let params = params3(
        text_param(name.as_str()),
        content_param(request.alcohol_content),
        SqlValue::Integer(request.category_id),
    );
    let inserted = execute(&db.conn, &mut db.journal, INSERT_BEVERAGE, &params);
    let ghost written = db.journal@;
    proof {
        lemma_added_one(start, counted, written);
    }
    inserted?;
    let id = last_insert_rowid(&db.conn, &mut db.journal);
    proof {
        lemma_added_one(start, written, db.journal@);
    }
    Ok(id)
}

/// What `update_beverage` does with a name that is `name` once trimmed. An
/// empty name is refused at once. Else it counts the beverages of the given
/// id, then the categories of the given id; where there is one of each, it
/// rewrites the beverage.
pub open spec fn update_beverage_run(
    id: i64,
    name: Seq<char>,
    alcohol_content: Option<u32>,
    category_id: i64,
    run: Seq<Exchange>,
    result: Result<(), AppError>,
) -> bool {
    if name.len() == 0 {
        run.len() == 0 && result == Err::<(), AppError>(
            AppError::InvalidInput(InputFault::EmptyName),
        )
    } else {
        &&& run.len() >= 1
        &&& run[0].request == selection(COUNT_BEVERAGE@, seq![Datum::Integer(id)])
        &&& match count_in(run[0].reply) {
            None => run.len() == 1 && failed_in_storage(result),
            Some(found) => if found == 0 {
                run.len() == 1 && result == Err::<(), AppError>(
                    AppError::NotFound(Entity::Beverage),
                )
            } else {
                &&& run.len() >= 2
                &&& run[1].request == selection(COUNT_CATEGORY@, seq![Datum::Integer(category_id)])
                &&& match count_in(run[1].reply) {
                    None => run.len() == 2 && failed_in_storage(result),
                    Some(n) => if n == 0 {
                        run.len() == 2 && result == Err::<(), AppError>(
                            AppError::NotFound(Entity::Category),
                        )
                    } else {
                        &&& run.len() == 3
                        &&& run[2].request == statement(
                            UPDATE_BEVERAGE@,
                            seq![
                                Datum::Text(name),
                                optional_content(alcohol_content),
                                Datum::Integer(category_id),
                                Datum::Integer(id),
                            ],
                        )
                        &&& if run[2].reply is Failed {
                            failed_in_storage(result)
                        } else {
                            result is Ok
                        }
                    },
                }
            },
        }
    }
}

/// Rewrites a beverage.
pub fn update_beverage(
    db: &mut Database,
    id: i64,
    request: CreateBeverageRequest,
) -> (result: Result<(), AppError>)
    ensures
        old(db).journal().is_prefix_of(final(db).journal()),
        update_beverage_run(
            id,
            trimmed(request.name@),
            request.alcohol_content,
            request.category_id,
            added(old(db).journal(), final(db).journal()),
            result,
        ),
{
    let ghost start = db.journal@;
    proof {
        lemma_added_none(start);
    }
    let name = trim(request.name.as_str());
    if name.as_str().is_empty() {
        return Err(AppError::InvalidInput(InputFault::EmptyName));
    }
    let params = params1(SqlValue::Integer(id));
    let found = count(&db.conn, &mut db.journal, COUNT_BEVERAGE, &params);
    let ghost first = db.journal@;
    proof {
        lemma_added_one(start, start, first);
    }
    let found = found?;
    if found == 0 {
        return Err(AppError::NotFound(Entity::Beverage));
    }
    let params = params1(SqlValue::Integer(request.category_id));
    let categories = count(&db.conn, &mut db.journal, COUNT_CATEGORY, &params);
    let ghost second = db.journal@;
    proof {
        lemma_added_one(start, first, second);
    }
    let categories = categories?;
    if categories == 0 {
        return Err(AppError::NotFound(Entity::Category));
    }
    let params = params4(
        text_param(name.as_str()),
        content_param(request.alcohol_content),
        SqlValue::Integer(request.category_id),
        SqlValue::Integer(id),
    );
    let updated = execute(&db.conn, &mut db.journal, UPDATE_BEVERAGE, &params);
    proof {
        lemma_added_one(start, second, db.journal@);
    }
    updated?;
    Ok(())
}

/// What `delete_beverage` does: it counts the beverages of the given id,
/// then the drinks of posts that are of this beverage, and deletes the
/// beverage only where it exists and no post has it.
pub open spec fn delete_beverage_run(
    id: i64,
    run: Seq<Exchange>,
    result: Result<(), AppError>,
) -> bool {
    &&& run.len() >= 1
    &&& run[0].request == selection(COUNT_BEVERAGE@, seq![Datum::Integer(id)])
    &&& match count_in(run[0].reply) {
        None => run.len() == 1 && failed_in_storage(result),
        Some(found) => if found == 0 {
            run.len() == 1 && result == Err::<(), AppError>(AppError::NotFound(Entity::Beverage))
        } else {
            &&& run.len() >= 2
            &&& run[1].request == selection(COUNT_BEVERAGE_POSTS@, seq![Datum::Integer(id)])
            &&& match count_in(run[1].reply) {
                None => run.len() == 2 && failed_in_storage(result),
                Some(used) => if used > 0 {
                    run.len() == 2 && result == Err::<(), AppError>(
                        AppError::InUse { entity: Entity::Beverage, count: used },
                    )
                } else {
                    &&& run.len() == 3
                    &&& run[2].request == statement(DELETE_BEVERAGE@, seq![Datum::Integer(id)])
                    &&& if run[2].reply is Failed {
                        failed_in_storage(result)
                    } else {
                        result is Ok
                    }
                },
            }
        },
    }
}

/// Deletes a beverage, unless a post has it.
pub fn delete_beverage(db: &mut Database, id: i64) -> (result: Result<(), AppError>)
    ensures
        old(db).journal().is_prefix_of(final(db).journal()),
        delete_beverage_run(id, added(old(db).journal(), final(db).journal()), result),
{
    let ghost start = db.journal@;
    proof {
        lemma_added_none(start);
    }
    let params = params1(SqlValue::Integer(id));
    let found = count(&db.conn, &mut db.journal, COUNT_BEVERAGE, &params);
    let ghost first = db.journal@;
    proof {
        lemma_added_one(start, start, first);
    }
    let found = found?;
    if found == 0 {
        return Err(AppError::NotFound(Entity::Beverage));
    }
    let used = count(&db.conn, &mut db.journal, COUNT_BEVERAGE_POSTS, &params);
    let ghost second = db.journal@;
    proof {
        lemma_added_one(start, first, second);
    }
    let used = used?;
    if used > 0 {
        return Err(AppError::InUse { entity: Entity::Beverage, count: used });
    }
    let deleted = execute(&db.conn, &mut db.journal, DELETE_BEVERAGE, &params);
    proof {
        lemma_added_one(start, second, db.journal@);
    }
    deleted?;
    Ok(())
}

/// The request for the drinks of the post `post_id`, each with its volume
/// and the alcohol content that its beverage has now.
pub open spec fn serving_lookup(post_id: i64) -> Request {
    selection(SELECT_POST_SERVINGS@, seq![Datum::Integer(post_id)])
}

/// The requests for the drinks of `posts`, one for each post, in their
/// order.
pub open spec fn serving_lookups(posts: Seq<PostDateView>) -> Seq<Request> {
    Seq::new(posts.len(), |i: int| serving_lookup(posts[i].id))
}

/// What the statistics read of `posts`, each with the drinks that the
/// lookup at its place in `lookups` was answered with.
pub open spec fn entries_found(posts: Seq<PostDateView>, lookups: Seq<Exchange>) -> Seq<
    IntakeEntryView,
> {
    Seq::new(
        posts.len(),
        |i: int|
            IntakeEntryView {
                date: posts[i].date,
                servings: records_of::<Serving>(lookups[i].reply)->0,
            },
    )
}

/// The request for the posts of `month` in `year`: those with a date from
/// the first day of the month up to, and without, the first day of the
/// next.
pub open spec fn posts_in_month_request(year: i64, month: i64) -> Request {
    selection(
        SELECT_POSTS_IN_RANGE@,
        seq![
            Datum::Text(month_start(year as int, month as int)),
            Datum::Text(next_month_start(year as int, month as int)),
        ],
    )
}

/// Whether the date of each of `posts` is not before `start` and before
/// `end`.
pub open spec fn all_between(posts: Seq<PostDateView>, start: Seq<char>, end: Seq<char>) -> bool {
    forall|i: int|
        0 <= i < posts.len() ==> text_le(start, (#[trigger] posts[i]).date) && !text_le(
            end,
            posts[i].date,
        )
}

/// Whether the date of each of `posts` is of `month` in `year`: not before
/// the first day of the month, and before the first day of the next.
pub open spec fn all_of_month(posts: Seq<PostDateView>, year: i64, month: i64) -> bool {
    all_between(
        posts,
        month_start(year as int, month as int),
        next_month_start(year as int, month as int),
    )
}

/// The posts of `month` in `year` that the engine answered with.
pub open spec fn posts_of_month(reply: Reply, year: i64, month: i64) -> Option<
    Seq<PostDateView>,
> {
    match records_of::<PostDate>(reply) {
        Some(posts) => if all_of_month(posts, year, month) {
            Some(posts)
        } else {
            None
        },
        None => None,
    }
}

fn dates_between(posts: &Vec<PostDate>, start: &str, end: &str) -> (all: bool)
    ensures
        all == all_between(posts.deep_view(), start@, end@),
{
    let mut i: usize = 0;
    while i < posts.len()
        invariant
            i <= posts.len(),
            forall|k: int|
                0 <= k < i ==> text_le(start@, (#[trigger] posts.deep_view()[k]).date) && !text_le(
                    end@,
                    posts.deep_view()[k].date,
                ),
        decreases posts.len() - i,
    {
        assert(posts.deep_view()[i as int] == posts[i as int]@);
        let date = posts[i].date.as_str();
        if !text_at_most(start, date) || text_at_most(end, date) {
            return false;
        }
        i = i + 1;
    }
    true
}

/// What `get_monthly_alcohol_intake` does: it asks for the posts of the
/// month, and then for the drinks of each post in turn. The first answer
/// that is not a list of records, or that holds a post of another month,
/// ends it with a failure. Else it returns the statistics of the month
/// over what it found, or a failure where the total is too large to be
/// held.
pub open spec fn get_monthly_alcohol_intake_run(
    year: i64,
    month: i64,
    run: Seq<Exchange>,
    result: Result<MonthlyAlcoholIntake, AppError>,
) -> bool {
    &&& run.len() >= 1
    &&& run[0].request == posts_in_month_request(year, month)
    &&& match posts_of_month(run[0].reply, year, month) {
        None => run.len() == 1 && failed_in_storage(result),
        Some(posts) => {
            &&& lookups_run::<Serving>(serving_lookups(posts), run.skip(1))
            &&& if run.len() == 1 + posts.len() && lookups_answered::<Serving>(run.skip(1)) {
                match summary_of(entries_found(posts, run.skip(1)), year as int, month as int) {
                    Some(summary) => result == Ok::<MonthlyAlcoholIntake, AppError>(summary),
                    None => failed_in_storage(result),
                }
            } else {
                failed_in_storage(result)
            }
        },
    }
}

/// The alcohol intake of one month.
#[verifier::loop_isolation(false)]
pub fn get_monthly_alcohol_intake(db: &mut Database, year: i64, month: i64) -> (result: Result<
    MonthlyAlcoholIntake,
    AppError,
>)
    ensures
        old(db).journal().is_prefix_of(final(db).journal()),
        get_monthly_alcohol_intake_run(
            year,
            month,
            added(old(db).journal(), final(db).journal()),
            result,
        ),
{
    let ghost start = db.journal@;
    proof {
        lemma_added_none(start);
    }
    let (start_date, end_date) = month_range(year, month);
    let params = params2(text_param(start_date.as_str()), text_param(end_date.as_str()));
    let rows = query(&db.conn, &mut db.journal, SELECT_POSTS_IN_RANGE, &params);
    let ghost listed = db.journal@;
    proof {
        lemma_added_one(start, start, listed);
    }
    let rows = rows?;
    let posts = match read_records::<PostDate>(&rows) {
        Some(posts) => posts,
        None => {
            return Err(unexpected_rows());
        },
    };
    if !dates_between(&posts, start_date.as_str(), end_date.as_str()) {
        return Err(unexpected_rows());
    }
    let ghost heads = posts.deep_view();
    let mut entries: Vec<IntakeEntry> = Vec::new();
    let mut i: usize = 0;
    proof {
        lemma_added_none(listed);
    }
    while i < posts.len()
        invariant
            i <= posts.len(),
            heads == posts.deep_view(),
            entries.len() == i,
            start.is_prefix_of(listed),
            listed.len() == start.len() + 1,
            listed.is_prefix_of(db.journal@),
            added(listed, db.journal@).len() == i,
            forall|k: int|
                0 <= k < i ==> (#[trigger] added(listed, db.journal@)[k]).request
                    == serving_lookup(heads[k].id),
            forall|k: int|
                0 <= k < i ==> records_of::<Serving>(
                    (#[trigger] added(listed, db.journal@)[k]).reply,
                ) is Some,
            forall|k: int|
                0 <= k < i ==> (#[trigger] entries[k])@ == (IntakeEntryView {
                    date: heads[k].date,
                    servings: records_of::<Serving>(added(listed, db.journal@)[k].reply)->0,
                }),
        decreases posts.len() - i,
    {
        let params = params1(SqlValue::Integer(posts[i].id));
        let ghost before = db.journal@;
        let rows = query(&db.conn, &mut db.journal, SELECT_POST_SERVINGS, &params);
        proof {
            lemma_added_one(listed, before, db.journal@);
            lemma_added_twice(start, listed, db.journal@);
            assert(added(start, db.journal@).skip(1) =~= added(listed, db.journal@));
            assert(added(start, db.journal@)[0] == listed.last());
            assert(heads[i as int] == posts[i as int]@);
        }
        let servings = match rows {
            Ok(rows) => match read_records::<Serving>(&rows) {
                Some(servings) => servings,
                None => {
                    return Err(unexpected_rows());
                },
            },
            Err(e) => {
                return Err(e);
            },
        };
        proof {
            assert(servings.deep_view() =~= servings@);
        }
        entries.push(IntakeEntry { date: posts[i].date.clone(), servings });
        i = i + 1;
    }
    proof {
        lemma_added_twice(start, listed, db.journal@);
        assert(added(start, db.journal@).skip(1) =~= added(listed, db.journal@));
        assert(added(start, db.journal@)[0] == listed.last());
        assert(entries.deep_view() =~= entries_found(heads, added(listed, db.journal@)));
    }
    match monthly_summary(&entries, year, month) {
        Some(summary) => Ok(summary),
        None => Err(AppError::StorageError("the total intake is out of range".to_string())),
    }
}

} // verus!
