//! What follows from the contracts of the operations.
//!
//! The engine is outside this library, so what the database holds after an
//! operation is stated relative to a reading of the journal: a function
//! that says how each statement changes a state, applied to the statements
//! that the engine took, with a transaction that is rolled back, or whose
//! commit is refused, undone as a whole.

use crate::commands::amounts_storable;
use crate::commands::association_request;
use crate::commands::association_requests;
use crate::commands::create_post_run;
use crate::commands::delete_beverage_run;
use crate::commands::delete_category_run;
use crate::commands::get_categories_run;
use crate::commands::get_posts_run;
use crate::commands::insert_post_request;
use crate::commands::update_post_requests;
use crate::commands::update_post_run;
use crate::db::initialised;
use crate::error::AppError;
use crate::error::Entity;
use crate::intake::entries_intake;
use crate::intake::entry_dates;
use crate::intake::IntakeEntryView;
use crate::intake::summary_of;
use crate::models::BeverageAmount;
use crate::models::BeverageAmountInput;
use crate::models::BeverageAmountView;
use crate::models::Category;
use crate::models::CreatePostRequest;
use crate::models::MonthlyAlcoholIntake;
use crate::models::PostWithBeverages;
use crate::rows::records_of;
use crate::statements::DELETE_BEVERAGE;
use crate::statements::DELETE_CATEGORY;
use crate::statements::DELETE_POST_BEVERAGES;
use crate::statements::INSERT_POST_BEVERAGE;
use crate::store::batch_run;
use crate::store::count_in;
use crate::store::Exchange;
use crate::store::Request;
use crate::store::transaction_tail;
use crate::text::is_whitespace;
use crate::text::trimmed;
use crate::text::trim_end;
use crate::text::trim_start;
use vstd::prelude::*;

verus! {

/// A state of the database while a journal is read: what it holds now, and
/// what it held when the open transaction began, where one is open.
pub struct Reading<S> {
    pub now: S,
    pub saved: Option<S>,
}

/// The reading after one more exchange. A statement that the engine took
/// has its effect; one that it refused has none. The begin of a transaction
/// saves the state. A rollback brings the saved state back, and so does a
/// commit that the engine refuses, after which the transaction is rolled
/// back by its owner.
pub open spec fn read_one<S>(
    effect: spec_fn(S, Request) -> S,
    reading: Reading<S>,
    exchange: Exchange,
) -> Reading<S> {
    match exchange.request {
        Request::Execute { .. } => if exchange.reply is Failed {
            reading
        } else {
            Reading { now: effect(reading.now, exchange.request), saved: reading.saved }
        },
        Request::Begin => if exchange.reply is Failed {
            reading
        } else {
            Reading { now: reading.now, saved: Some(reading.now) }
        },
        Request::Commit => if exchange.reply is Failed {
            match reading.saved {
                Some(saved) => Reading { now: saved, saved: None },
                None => reading,
            }
        } else {
            Reading { now: reading.now, saved: None }
        },
        Request::Rollback => if exchange.reply is Failed {
            reading
        } else {
            match reading.saved {
                Some(saved) => Reading { now: saved, saved: None },
                None => reading,
            }
        },
        _ => reading,
    }
}

/// The reading after the exchanges of `run`, in their order.
pub open spec fn read<S>(
    effect: spec_fn(S, Request) -> S,
    reading: Reading<S>,
    run: Seq<Exchange>,
) -> Reading<S>
    decreases run.len(),
{
    if run.len() == 0 {
        reading
    } else {
        read_one(effect, read(effect, reading, run.drop_last()), run.last())
    }
}

/// What the database holds after `run`, where it held `before` and no
/// transaction was open.
pub open spec fn after<S>(effect: spec_fn(S, Request) -> S, before: S, run: Seq<Exchange>) -> S {
    read(effect, Reading { now: before, saved: None }, run).now
}

/// Whether each of `requests` is a statement that changes the database.
pub open spec fn all_statements(requests: Seq<Request>) -> bool {
    forall|i: int| 0 <= i < requests.len() ==> (#[trigger] requests[i]) is Execute
}

/// The state after the statements `requests`, where the engine took them
/// all.
pub open spec fn effects<S>(effect: spec_fn(S, Request) -> S, state: S, requests: Seq<Request>) -> S
    decreases requests.len(),
{
    if requests.len() == 0 {
        state
    } else {
        effect(effects(effect, state, requests.drop_last()), requests.last())
    }
}

/// Reading a journal in two parts is reading it as a whole.
pub proof fn lemma_read_in_parts<S>(
    effect: spec_fn(S, Request) -> S,
    reading: Reading<S>,
    first: Seq<Exchange>,
    second: Seq<Exchange>,
)
    ensures
        read(effect, reading, first + second) == read(
            effect,
            read(effect, reading, first),
            second,
        ),
    decreases second.len(),
{
    if second.len() == 0 {
        assert(first + second =~= first);
    } else {
        assert((first + second).drop_last() =~= first + second.drop_last());
        assert((first + second).last() == second.last());
        lemma_read_in_parts(effect, reading, first, second.drop_last());
    }
}

/// Statements inside a transaction leave the saved state alone, and where
/// the engine took them all, the state is that of their effects.
pub proof fn lemma_read_statements<S>(
    effect: spec_fn(S, Request) -> S,
    reading: Reading<S>,
    requests: Seq<Request>,
    run: Seq<Exchange>,
    done: bool,
)
    requires
        all_statements(requests),
        batch_run(requests, run, done),
    ensures
        read(effect, reading, run).saved == reading.saved,
        done ==> read(effect, reading, run).now == effects(effect, reading.now, requests),
    decreases run.len(),
{
    if run.len() == 0 {
    } else {
        let shorter = run.drop_last();
        let fewer = requests.take(run.len() - 1);
        assert(all_statements(fewer));
        assert(batch_run(fewer, shorter, true)) by {
            assert forall|i: int| 0 <= i < shorter.len() implies (#[trigger] shorter[i]).request
                == fewer[i] by {
                assert(shorter[i] == run[i]);
            }
            assert forall|i: int| 0 <= i < shorter.len() - 1 implies !((
            #[trigger] shorter[i]).reply is Failed) by {
                assert(shorter[i] == run[i]);
            }
            if shorter.len() > 0 {
                assert(shorter.last() == run[run.len() - 2]);
            }
        }
        lemma_read_statements(effect, reading, fewer, shorter, true);
        assert(run.last().request == requests[run.len() - 1]);
        if done {
            assert(fewer =~= requests.drop_last());
            assert(requests.last() == run.last().request);
        }
    }
}

/// A transaction is all or nothing. After the rest of a transaction, the
/// database holds the effects of all its statements where it was
/// committed, and what it held at the begin where it was not, provided
/// that the engine took the rollback.
pub proof fn lemma_transaction_tail<S>(
    effect: spec_fn(S, Request) -> S,
    state: S,
    saved: S,
    requests: Seq<Request>,
    tail: Seq<Exchange>,
    committed: bool,
)
    requires
        all_statements(requests),
        transaction_tail(requests, tail, committed),
        tail.last().request == Request::Rollback ==> !(tail.last().reply is Failed),
    ensures
        read(effect, Reading { now: state, saved: Some(saved) }, tail).saved is None,
        read(effect, Reading { now: state, saved: Some(saved) }, tail).now == if committed {
            effects(effect, state, requests)
        } else {
            saved
        },
{
    let reading = Reading { now: state, saved: Some(saved) };
    lemma_read_statements(
        effect,
        reading,
        requests,
        tail.drop_last(),
        tail.last().request == Request::Commit,
    );
}

/// Reading one exchange more.
pub proof fn lemma_read_push<S>(
    effect: spec_fn(S, Request) -> S,
    reading: Reading<S>,
    run: Seq<Exchange>,
    exchange: Exchange,
)
    ensures
        read(effect, reading, run.push(exchange)) == read_one(
            effect,
            read(effect, reading, run),
            exchange,
        ),
{
    assert(run.push(exchange).drop_last() =~= run);
}

/// Whether the engine took the rollback, where `run` ends with one.
pub open spec fn rollback_taken(run: Seq<Exchange>) -> bool {
    run.len() > 0 && run.last().request == Request::Rollback ==> !(run.last().reply is Failed)
}

/// A post is created with all its drinks or not at all: where `create_post`
/// fails, the database holds what it held before, whatever the statements
/// do.
pub proof fn law_failed_create_post_changes_nothing<S>(
    effect: spec_fn(S, Request) -> S,
    before: S,
    request: CreatePostRequest,
    run: Seq<Exchange>,
    result: Result<i64, AppError>,
)
    requires
        create_post_run(request, run, result),
        result is Err,
        rollback_taken(run),
    ensures
        after(effect, before, run) == before,
{
    let start = Reading { now: before, saved: None };
    let none = Seq::<Exchange>::empty();
    if run.len() == 0 {
    } else if run[0].reply is Failed {
        assert(run =~= none.push(run[0]));
        lemma_read_push(effect, start, none, run[0]);
    } else if run[1].reply is Failed {
        assert(run =~= none.push(run[0]).push(run[1]).push(run[2]));
        lemma_read_push(effect, start, none, run[0]);
        lemma_read_push(effect, start, none.push(run[0]), run[1]);
        lemma_read_push(effect, start, none.push(run[0]).push(run[1]), run[2]);
    } else {
        let head = none.push(run[0]).push(run[1]).push(run[2]);
        assert(run =~= head + run.skip(3));
        lemma_read_push(effect, start, none, run[0]);
        lemma_read_push(effect, start, none.push(run[0]), run[1]);
        lemma_read_push(effect, start, none.push(run[0]).push(run[1]), run[2]);
        lemma_read_in_parts(effect, start, head, run.skip(3));
        let id = run[2].reply->RowId_0;
        lemma_transaction_tail(
            effect,
            effect(before, run[1].request),
            before,
            association_requests(id, request.beverages@),
            run.skip(3),
            false,
        );
    }
}

/// A post is rewritten with all its drinks or not at all: where
/// `update_post` fails, the database holds what it held before, whatever
/// the statements do.
pub proof fn law_failed_update_post_changes_nothing<S>(
    effect: spec_fn(S, Request) -> S,
    before: S,
    id: i64,
    request: CreatePostRequest,
    run: Seq<Exchange>,
    result: Result<(), AppError>,
)
    requires
        update_post_run(id, request, run, result),
        result is Err,
        rollback_taken(run),
    ensures
        after(effect, before, run) == before,
{
    let start = Reading { now: before, saved: None };
    let none = Seq::<Exchange>::empty();
    if run.len() == 0 {
    } else if run[0].reply is Failed {
        assert(run =~= none.push(run[0]));
        lemma_read_push(effect, start, none, run[0]);
    } else {
        let head = none.push(run[0]);
        assert(run =~= head + run.skip(1));
        lemma_read_push(effect, start, none, run[0]);
        lemma_read_in_parts(effect, start, head, run.skip(1));
        lemma_transaction_tail(
            effect,
            before,
            before,
            update_post_requests(id, request),
            run.skip(1),
            false,
        );
    }
}

/// The drinks that the database holds: the volume for each pair of a post
/// and a beverage. A pair occurs once at most.
pub type Drinks = Map<(i64, i64), u64>;

/// What a statement does to the drinks. The insert of a drink adds its
/// pair with its volume, and the removal of the drinks of a post takes
/// all pairs of that post away. No other statement of `create_post` and
/// `update_post` touches the drinks.
pub open spec fn drink_effect(drinks: Drinks, request: Request) -> Drinks {
    match request {
        Request::Execute { sql, params } => if sql == INSERT_POST_BEVERAGE@ && params.len() == 3
            && params[0] is Integer && params[1] is Integer && params[2] is Integer {
            drinks.insert(
                (params[0]->Integer_0, params[1]->Integer_0),
                params[2]->Integer_0 as u64,
            )
        } else if sql == DELETE_POST_BEVERAGES@ && params.len() == 1 && params[0] is Integer {
            Map::new(
                |pair: (i64, i64)| drinks.contains_key(pair) && pair.0 != params[0]->Integer_0,
                |pair: (i64, i64)| drinks[pair],
            )
        } else {
            drinks
        },
        _ => drinks,
    }
}

/// `drink_effect` as a function.
pub open spec fn drink_reading() -> spec_fn(Drinks, Request) -> Drinks {
    |drinks: Drinks, request: Request| drink_effect(drinks, request)
}

/// The drinks of the post `post`, each as its beverage and its volume.
pub open spec fn drinks_of(drinks: Drinks, post: i64) -> Set<(i64, u64)> {
    Set::new(
        |drink: (i64, u64)|
            drinks.contains_key((post, drink.0)) && drinks[(post, drink.0)] == drink.1,
    )
}

/// The drinks that `beverages` asks for, each as its beverage and its
/// volume.
pub open spec fn drinks_asked(beverages: Seq<BeverageAmountInput>) -> Set<(i64, u64)> {
    Set::new(
        |drink: (i64, u64)|
            exists|i: int|
                0 <= i < beverages.len() && (#[trigger] beverages[i]).beverage_id == drink.0
                    && beverages[i].amount == drink.1,
    )
}

/// Whether no beverage occurs twice in `beverages`.
pub open spec fn distinct_beverages(beverages: Seq<BeverageAmountInput>) -> bool {
    forall|i: int, j: int|
        0 <= i < j < beverages.len() ==> (#[trigger] beverages[i]).beverage_id != (
        #[trigger] beverages[j]).beverage_id
}

/// Whether one of the first `n` of `beverages` is of the beverage
/// `beverage`.
pub open spec fn asked_among(beverages: Seq<BeverageAmountInput>, n: int, beverage: i64) -> bool {
    exists|i: int| 0 <= i < n && (#[trigger] beverages[i]).beverage_id == beverage
}

proof fn lemma_asked_among_step(beverages: Seq<BeverageAmountInput>, n: int, beverage: i64)
    requires
        0 < n <= beverages.len(),
    ensures
        asked_among(beverages, n, beverage) <==> asked_among(beverages, n - 1, beverage)
            || beverages[n - 1].beverage_id == beverage,
{
    if asked_among(beverages, n, beverage) {
        let i = choose|i: int| 0 <= i < n && (#[trigger] beverages[i]).beverage_id == beverage;
        if i < n - 1 {
            assert(0 <= i < n - 1 && beverages[i].beverage_id == beverage);
        }
    }
    if asked_among(beverages, n - 1, beverage) {
        let i = choose|i: int| 0 <= i < n - 1 && (#[trigger] beverages[i]).beverage_id == beverage;
        assert(0 <= i < n && beverages[i].beverage_id == beverage);
    }
    if beverages[n - 1].beverage_id == beverage {
        assert(0 <= n - 1 < n && beverages[n - 1].beverage_id == beverage);
    }
}

/// The drinks after the inserts of the first `n` of `beverages` for the
/// post `post`.
pub open spec fn drinks_inserted(
    drinks: Drinks,
    post: i64,
    beverages: Seq<BeverageAmountInput>,
    n: int,
) -> Drinks {
    effects(drink_reading(), drinks, association_requests(post, beverages).take(n))
}

/// What the inserts of the first `n` of `beverages` leave of the post
/// `post`, and of the other posts.
pub proof fn lemma_inserted_drinks(
    drinks: Drinks,
    post: i64,
    beverages: Seq<BeverageAmountInput>,
    n: int,
)
    requires
        0 <= n <= beverages.len(),
        amounts_storable(beverages),
        distinct_beverages(beverages),
    ensures
        forall|pair: (i64, i64)| #[trigger]
            drinks_inserted(drinks, post, beverages, n).contains_key(pair)
                <==> drinks.contains_key(pair) || (pair.0 == post && asked_among(
                beverages,
                n,
                pair.1,
            )),
        forall|i: int|
            0 <= i < n ==> drinks_inserted(drinks, post, beverages, n)[(
                post,
                (#[trigger] beverages[i]).beverage_id,
            )] == beverages[i].amount,
        forall|pair: (i64, i64)|
            !(pair.0 == post && asked_among(beverages, n, pair.1)) ==> #[trigger] drinks_inserted(
                drinks,
                post,
                beverages,
                n,
            )[pair] == drinks[pair],
    decreases n,
{
    let requests = association_requests(post, beverages);
    let held = drinks_inserted(drinks, post, beverages, n);
    if n == 0 {
        assert(requests.take(0) =~= Seq::<Request>::empty());
        assert(held == drinks);
        assert forall|pair: (i64, i64)| !asked_among(beverages, 0, #[trigger] pair.1) by {}
    } else {
        lemma_inserted_drinks(drinks, post, beverages, n - 1);
        assert(requests.take(n).drop_last() =~= requests.take(n - 1));
        assert(requests.take(n).last() == association_request(post, beverages[n - 1]));
        let earlier = drinks_inserted(drinks, post, beverages, n - 1);
        let last = beverages[n - 1];
        assert(held == earlier.insert((post, last.beverage_id), last.amount));
        assert forall|pair: (i64, i64)| #[trigger]
            held.contains_key(pair) <==> drinks.contains_key(pair) || (pair.0 == post
                && asked_among(beverages, n, pair.1)) by {
            lemma_asked_among_step(beverages, n, pair.1);
        }
        assert forall|i: int| 0 <= i < n implies held[(post, (#[trigger] beverages[i]).beverage_id)]
            == beverages[i].amount by {
            if i < n - 1 {
                assert(beverages[i].beverage_id != beverages[n - 1].beverage_id);
            }
        }
        assert forall|pair: (i64, i64)|
            !(pair.0 == post && asked_among(beverages, n, pair.1)) implies #[trigger] held[pair]
            == drinks[pair] by {
            lemma_asked_among_step(beverages, n, pair.1);
        }
    }
}

/// The effects of one statement more.
pub proof fn lemma_effects_push<S>(
    effect: spec_fn(S, Request) -> S,
    state: S,
    requests: Seq<Request>,
    request: Request,
)
    ensures
        effects(effect, state, requests.push(request)) == effect(
            effects(effect, state, requests),
            request,
        ),
{
    assert(requests.push(request).drop_last() =~= requests);
}

/// The effects of two lists of statements, one after the other.
pub proof fn lemma_effects_in_parts<S>(
    effect: spec_fn(S, Request) -> S,
    state: S,
    first: Seq<Request>,
    second: Seq<Request>,
)
    ensures
        effects(effect, state, first + second) == effects(
            effect,
            effects(effect, state, first),
            second,
        ),
    decreases second.len(),
{
    if second.len() == 0 {
        assert(first + second =~= first);
    } else {
        assert((first + second).drop_last() =~= first + second.drop_last());
        assert((first + second).last() == second.last());
        lemma_effects_in_parts(effect, state, first, second.drop_last());
    }
}

/// After `create_post` created a post, the database holds for it exactly
/// the drinks that were asked for, each with its volume, and for every
/// other post what it held before. This is said of a request that names
/// no beverage twice, and of a post that had no drinks before it was
/// created.
pub proof fn law_created_post_has_its_drinks(
    before: Drinks,
    request: CreatePostRequest,
    run: Seq<Exchange>,
    id: i64,
)
    requires
        create_post_run(request, run, Ok(id)),
        distinct_beverages(request.beverages@),
        forall|beverage: i64| !before.contains_key((id, beverage)),
    ensures
        drinks_of(after(drink_reading(), before, run), id) == drinks_asked(request.beverages@),
        forall|post: i64|
            post != id ==> #[trigger] drinks_of(after(drink_reading(), before, run), post)
                == drinks_of(before, post),
{
    let effect = drink_reading();
    let beverages = request.beverages@;
    let start = Reading { now: before, saved: None };
    let none = Seq::<Exchange>::empty();
    let head = none.push(run[0]).push(run[1]).push(run[2]);
    let requests = association_requests(id, beverages);
    assert(run =~= head + run.skip(3));
    lemma_read_push(effect, start, none, run[0]);
    lemma_read_push(effect, start, none.push(run[0]), run[1]);
    lemma_read_push(effect, start, none.push(run[0]).push(run[1]), run[2]);
    lemma_read_in_parts(effect, start, head, run.skip(3));
    assert(drink_effect(before, insert_post_request(request)) == before);
    lemma_transaction_tail(effect, before, before, requests, run.skip(3), true);
    assert(requests.take(beverages.len() as int) =~= requests);
    lemma_inserted_drinks(before, id, beverages, beverages.len() as int);
    let held = after(effect, before, run);
    assert(held == drinks_inserted(before, id, beverages, beverages.len() as int));
    assert forall|drink: (i64, u64)|
        drinks_of(held, id).contains(drink) <==> drinks_asked(beverages).contains(drink) by {
        if drinks_of(held, id).contains(drink) {
            assert(held.contains_key((id, drink.0)));
            let i = choose|i: int|
                0 <= i < beverages.len() && (#[trigger] beverages[i]).beverage_id == drink.0;
            assert(held[(id, beverages[i].beverage_id)] == beverages[i].amount);
        }
        if drinks_asked(beverages).contains(drink) {
            let i = choose|i: int|
                0 <= i < beverages.len() && (#[trigger] beverages[i]).beverage_id == drink.0
                    && beverages[i].amount == drink.1;
            assert(asked_among(beverages, beverages.len() as int, drink.0));
            assert(held.contains_key((id, drink.0)));
            assert(held[(id, beverages[i].beverage_id)] == beverages[i].amount);
        }
    }
    assert(drinks_of(held, id) =~= drinks_asked(beverages));
    assert forall|post: i64| post != id implies #[trigger] drinks_of(held, post) == drinks_of(
        before,
        post,
    ) by {
        assert forall|drink: (i64, u64)|
            drinks_of(held, post).contains(drink) <==> drinks_of(before, post).contains(drink) by {
            assert(held.contains_key((post, drink.0)) <==> before.contains_key((post, drink.0)));
            assert(held[(post, drink.0)] == before[(post, drink.0)]);
        }
        assert(drinks_of(held, post) =~= drinks_of(before, post));
    }
}

/// After `update_post` rewrote a post, the database holds for it exactly
/// the drinks that were asked for, each with its volume, whatever it held
/// for the post before, and for every other post what it held before. So
/// no drink that the request leaves out stays behind. This is said of a
/// request that names no beverage twice.
pub proof fn law_updated_post_has_exactly_the_new_drinks(
    before: Drinks,
    id: i64,
    request: CreatePostRequest,
    run: Seq<Exchange>,
)
    requires
        update_post_run(id, request, run, Ok(())),
        distinct_beverages(request.beverages@),
    ensures
        drinks_of(after(drink_reading(), before, run), id) == drinks_asked(request.beverages@),
        forall|post: i64|
            post != id ==> #[trigger] drinks_of(after(drink_reading(), before, run), post)
                == drinks_of(before, post),
{
    let effect = drink_reading();
    let beverages = request.beverages@;
    let start = Reading { now: before, saved: None };
    let none = Seq::<Exchange>::empty();
    let head = none.push(run[0]);
    let requests = update_post_requests(id, request);
    let inserts = association_requests(id, beverages);
    let first = requests.take(2);
    assert(run =~= head + run.skip(1));
    lemma_read_push(effect, start, none, run[0]);
    lemma_read_in_parts(effect, start, head, run.skip(1));
    lemma_transaction_tail(effect, before, before, requests, run.skip(1), true);
    assert(requests =~= first + inserts);
    lemma_effects_in_parts(effect, before, first, inserts);
    let no_request = Seq::<Request>::empty();
    assert(first =~= no_request.push(requests[0]).push(requests[1]));
    lemma_effects_push(effect, before, no_request, requests[0]);
    lemma_effects_push(effect, before, no_request.push(requests[0]), requests[1]);
    let cleared = effects(effect, before, first);
    assert(cleared == drink_effect(drink_effect(before, requests[0]), requests[1]));
    assert(drink_effect(before, requests[0]) == before);
    assert(inserts.take(beverages.len() as int) =~= inserts);
    lemma_inserted_drinks(cleared, id, beverages, beverages.len() as int);
    let held = after(effect, before, run);
    assert(held == drinks_inserted(cleared, id, beverages, beverages.len() as int));
    assert forall|drink: (i64, u64)|
        drinks_of(held, id).contains(drink) <==> drinks_asked(beverages).contains(drink) by {
        if drinks_of(held, id).contains(drink) {
            assert(held.contains_key((id, drink.0)));
            assert(!cleared.contains_key((id, drink.0)));
            let i = choose|i: int|
                0 <= i < beverages.len() && (#[trigger] beverages[i]).beverage_id == drink.0;
            assert(held[(id, beverages[i].beverage_id)] == beverages[i].amount);
        }
        if drinks_asked(beverages).contains(drink) {
            let i = choose|i: int|
                0 <= i < beverages.len() && (#[trigger] beverages[i]).beverage_id == drink.0
                    && beverages[i].amount == drink.1;
            assert(asked_among(beverages, beverages.len() as int, drink.0));
            assert(held.contains_key((id, drink.0)));
            assert(held[(id, beverages[i].beverage_id)] == beverages[i].amount);
        }
    }
    assert(drinks_of(held, id) =~= drinks_asked(beverages));
    assert forall|post: i64| post != id implies #[trigger] drinks_of(held, post) == drinks_of(
        before,
        post,
    ) by {
        assert forall|drink: (i64, u64)|
            drinks_of(held, post).contains(drink) <==> drinks_of(before, post).contains(drink) by {
            assert(held.contains_key((post, drink.0)) <==> cleared.contains_key((post, drink.0)));
            assert(held[(post, drink.0)] == cleared[(post, drink.0)]);
            assert(cleared.contains_key((post, drink.0)) <==> before.contains_key(
                (post, drink.0),
            ));
        }
        assert(drinks_of(held, post) =~= drinks_of(before, post));
    }
}

/// The drinks that `listed` shows, each as its beverage and its volume.
pub open spec fn drinks_listed(listed: Seq<BeverageAmountView>) -> Set<(i64, u64)> {
    Set::new(
        |drink: (i64, u64)|
            exists|i: int|
                0 <= i < listed.len() && (#[trigger] listed[i]).beverage_id == drink.0
                    && listed[i].amount == drink.1,
    )
}

/// Whether `reply` answers the request for the drinks of the post `post`
/// with what the database holds for it.
pub open spec fn answer_shows(drinks: Drinks, post: i64, reply: crate::store::Reply) -> bool {
    records_of::<BeverageAmount>(reply) matches Some(listed) && drinks_listed(listed) == drinks_of(
        drinks,
        post,
    )
}

/// A post that `get_posts` lists has the drinks that the engine answered
/// the request for its drinks with.
pub proof fn law_listed_post_shows_the_answer(
    run: Seq<Exchange>,
    posts: Vec<PostWithBeverages>,
    place: int,
)
    requires
        get_posts_run(run, Ok(posts)),
        0 <= place < posts.len(),
    ensures
        run.len() == 1 + posts.len(),
        run[1 + place].request == crate::commands::beverage_lookup(posts[place].id),
        records_of::<BeverageAmount>(run[1 + place].reply) == Some(posts[place]@.beverages),
{
    let heads = crate::order::listing_of::<PostWithBeverages>(run[0].reply)->0;
    let lookups = run.skip(1);
    assert(posts.deep_view() == crate::commands::posts_found(heads, lookups));
    assert(posts.deep_view().len() == heads.len());
    assert(lookups[place] == run[1 + place]);
    assert(posts.deep_view()[place] == posts[place]@);
    assert(crate::commands::beverage_lookups(heads)[place] == crate::commands::beverage_lookup(
        heads[place].id,
    ));
}

/// A post that was created is listed with its drinks: where `create_post`
/// created the post `id`, and `get_posts` then lists it, the drinks that it
/// is listed with are exactly those that were asked for, each with its
/// volume. This is said of a request that names no beverage twice, of a
/// post that had no drinks before it was created, and of an engine that
/// answers the request for the drinks of the post with what the database
/// holds.
pub proof fn law_created_post_is_listed_with_its_drinks(
    before: Drinks,
    request: CreatePostRequest,
    creation: Seq<Exchange>,
    id: i64,
    listing: Seq<Exchange>,
    posts: Vec<PostWithBeverages>,
    place: int,
)
    requires
        create_post_run(request, creation, Ok(id)),
        distinct_beverages(request.beverages@),
        forall|beverage: i64| !before.contains_key((id, beverage)),
        get_posts_run(listing, Ok(posts)),
        0 <= place < posts.len(),
        posts[place].id == id,
        answer_shows(after(drink_reading(), before, creation), id, listing[1 + place].reply),
    ensures
        drinks_listed(posts[place]@.beverages) == drinks_asked(request.beverages@),
{
    law_created_post_has_its_drinks(before, request, creation, id);
    law_listed_post_shows_the_answer(listing, posts, place);
}

/// A post that was rewritten is listed with exactly its new drinks: where
/// `update_post` rewrote the post `id`, and `get_posts` then lists it, the
/// drinks that it is listed with are exactly those that were asked for,
/// each with its volume, and none that the request left out. This is said
/// of a request that names no beverage twice, and of an engine that
/// answers the request for the drinks of the post with what the database
/// holds.
pub proof fn law_updated_post_is_listed_with_exactly_the_new_drinks(
    before: Drinks,
    id: i64,
    request: CreatePostRequest,
    update: Seq<Exchange>,
    listing: Seq<Exchange>,
    posts: Vec<PostWithBeverages>,
    place: int,
)
    requires
        update_post_run(id, request, update, Ok(())),
        distinct_beverages(request.beverages@),
        get_posts_run(listing, Ok(posts)),
        0 <= place < posts.len(),
        posts[place].id == id,
        answer_shows(after(drink_reading(), before, update), id, listing[1 + place].reply),
    ensures
        drinks_listed(posts[place]@.beverages) == drinks_asked(request.beverages@),
        forall|beverage: i64, amount: u64|
            !drinks_asked(request.beverages@).contains((beverage, amount)) ==> !drinks_listed(
                posts[place]@.beverages,
            ).contains((beverage, amount)),
{
    law_updated_post_has_exactly_the_new_drinks(before, id, request, update);
    law_listed_post_shows_the_answer(listing, posts, place);
}

/// Where the engine refuses a statement of `create_post`, be it the insert
/// of the post or that of a drink, as it does for a beverage that does not
/// exist, `create_post` fails, and the database holds what it held before.
pub proof fn law_refused_statement_undoes_create_post<S>(
    effect: spec_fn(S, Request) -> S,
    before: S,
    request: CreatePostRequest,
    run: Seq<Exchange>,
    result: Result<i64, AppError>,
    refused: int,
)
    requires
        create_post_run(request, run, result),
        0 <= refused < run.len(),
        run[refused].request is Execute,
        run[refused].reply is Failed,
        rollback_taken(run),
    ensures
        result is Err,
        run.last().request == Request::Rollback,
        after(effect, before, run) == before,
{
    if run[1].reply is Failed {
    } else {
        let tail = run.skip(3);
        let id = run[2].reply->RowId_0;
        assert(refused >= 3);
        assert(tail[refused - 3] == run[refused]);
        if tail.last().request == Request::Commit {
            assert(tail.drop_last()[refused - 3] == tail[refused - 3]);
            assert(false);
        }
        assert(tail.last() == run.last());
    }
    law_failed_create_post_changes_nothing(effect, before, request, run, result);
}

/// The categories that the database holds, by their ids.
pub type Categories = Set<i64>;

/// What a statement of `delete_category` does to the categories: the
/// removal of a category takes it away.
pub open spec fn category_effect(categories: Categories, request: Request) -> Categories {
    match request {
        Request::Execute { sql, params } => if sql == DELETE_CATEGORY@ && params.len() == 1
            && params[0] is Integer {
            categories.remove(params[0]->Integer_0)
        } else {
            categories
        },
        _ => categories,
    }
}

/// `category_effect` as a function.
pub open spec fn category_reading() -> spec_fn(Categories, Request) -> Categories {
    |categories: Categories, request: Request| category_effect(categories, request)
}

/// A category that a beverage belongs to is not deleted: `delete_category`
/// fails with the number of its beverages, and has sent no statement that
/// changes the database.
pub proof fn law_category_in_use_is_kept<S>(
    effect: spec_fn(S, Request) -> S,
    before: S,
    id: i64,
    run: Seq<Exchange>,
    result: Result<bool, AppError>,
    beverages: i64,
)
    requires
        delete_category_run(id, run, result),
        count_in(run[0].reply) == Some(beverages),
        beverages >= 1,
    ensures
        result == Err::<bool, AppError>(
            AppError::InUse { entity: Entity::Category, count: beverages },
        ),
        run.len() == 1,
        after(effect, before, run) == before,
{
    let none = Seq::<Exchange>::empty();
    assert(run =~= none.push(run[0]));
    lemma_read_push(effect, Reading { now: before, saved: None }, none, run[0]);
}

/// A category without beverages is deleted: where the engine takes the
/// removal, `delete_category` succeeds, and the database holds the
/// category no longer, and every other category as before.
pub proof fn law_unused_category_is_deleted(
    before: Categories,
    id: i64,
    run: Seq<Exchange>,
    result: Result<bool, AppError>,
)
    requires
        delete_category_run(id, run, result),
        count_in(run[0].reply) == Some(0i64),
        !(run.last().reply is Failed),
    ensures
        result == Ok::<bool, AppError>(true),
        after(category_reading(), before, run) == before.remove(id),
{
    let effect = category_reading();
    let start = Reading { now: before, saved: None };
    let none = Seq::<Exchange>::empty();
    assert(run =~= none.push(run[0]).push(run[1]));
    lemma_read_push(effect, start, none, run[0]);
    lemma_read_push(effect, start, none.push(run[0]), run[1]);
}

/// Whether `reply` answers the request for the categories with categories
/// that the database holds.
pub open spec fn answer_lists(categories: Categories, reply: crate::store::Reply) -> bool {
    records_of::<Category>(reply) matches Some(listed) && forall|i: int|
        0 <= i < listed.len() ==> categories.contains((#[trigger] listed[i]).id)
}

/// A category that was deleted is listed no longer: where `delete_category`
/// found no beverage of the category and the engine took the removal, and
/// `get_categories` then lists the categories, the category is not among
/// them. This is said of an engine that answers the request for the
/// categories with categories that the database holds.
pub proof fn law_deleted_category_is_not_listed(
    before: Categories,
    id: i64,
    deletion: Seq<Exchange>,
    result: Result<bool, AppError>,
    listing: Seq<Exchange>,
    list: Vec<Category>,
)
    requires
        delete_category_run(id, deletion, result),
        count_in(deletion[0].reply) == Some(0i64),
        !(deletion.last().reply is Failed),
        get_categories_run(listing, Ok(list)),
        answer_lists(after(category_reading(), before, deletion), listing[0].reply),
    ensures
        result == Ok::<bool, AppError>(true),
        forall|i: int| 0 <= i < list.len() ==> (#[trigger] list[i]).id != id,
{
    law_unused_category_is_deleted(before, id, deletion, result);
    assert forall|i: int| 0 <= i < list.len() implies (#[trigger] list[i]).id != id by {
        assert(list.deep_view()[i] == list[i]@);
    }
}

/// The beverages that the database holds, by their ids.
pub type Beverages = Set<i64>;

/// What a statement of `delete_beverage` does to the beverages: the
/// removal of a beverage takes it away.
pub open spec fn beverage_effect(beverages: Beverages, request: Request) -> Beverages {
    match request {
        Request::Execute { sql, params } => if sql == DELETE_BEVERAGE@ && params.len() == 1
            && params[0] is Integer {
            beverages.remove(params[0]->Integer_0)
        } else {
            beverages
        },
        _ => beverages,
    }
}

/// `beverage_effect` as a function.
pub open spec fn beverage_reading() -> spec_fn(Beverages, Request) -> Beverages {
    |beverages: Beverages, request: Request| beverage_effect(beverages, request)
}

/// A beverage that posts have is not deleted: `delete_beverage` fails
/// with the number of drinks of this beverage, and has sent no statement
/// that changes the database.
pub proof fn law_beverage_in_use_is_kept<S>(
    effect: spec_fn(S, Request) -> S,
    before: S,
    id: i64,
    run: Seq<Exchange>,
    result: Result<(), AppError>,
    found: i64,
    drinks: i64,
)
    requires
        delete_beverage_run(id, run, result),
        count_in(run[0].reply) == Some(found),
        found != 0,
        count_in(run[1].reply) == Some(drinks),
        drinks >= 1,
    ensures
        result == Err::<(), AppError>(AppError::InUse { entity: Entity::Beverage, count: drinks }),
        run.len() == 2,
        after(effect, before, run) == before,
{
    let start = Reading { now: before, saved: None };
    let none = Seq::<Exchange>::empty();
    assert(run =~= none.push(run[0]).push(run[1]));
    lemma_read_push(effect, start, none, run[0]);
    lemma_read_push(effect, start, none.push(run[0]), run[1]);
}

/// A beverage that no post has is deleted: where the engine takes the
/// removal, `delete_beverage` succeeds, and the database holds the
/// beverage no longer, and every other beverage as before.
pub proof fn law_unused_beverage_is_deleted(
    before: Beverages,
    id: i64,
    run: Seq<Exchange>,
    result: Result<(), AppError>,
    found: i64,
)
    requires
        delete_beverage_run(id, run, result),
        count_in(run[0].reply) == Some(found),
        found != 0,
        count_in(run[1].reply) == Some(0i64),
        !(run.last().reply is Failed),
    ensures
        result is Ok,
        after(beverage_reading(), before, run) == before.remove(id),
{
    let effect = beverage_reading();
    let start = Reading { now: before, saved: None };
    let none = Seq::<Exchange>::empty();
    assert(run =~= none.push(run[0]).push(run[1]).push(run[2]));
    lemma_read_push(effect, start, none, run[0]);
    lemma_read_push(effect, start, none.push(run[0]), run[1]);
    lemma_read_push(effect, start, none.push(run[0]).push(run[1]), run[2]);
}

/// A database that has a category is not seeded again: after the count of
/// the categories nothing more is sent.
pub proof fn law_seeding_happens_once(journal: Seq<Exchange>, categories: i64)
    requires
        initialised(journal),
        count_in(journal[12].reply) == Some(categories),
        categories > 0,
    ensures
        journal.len() == 13,
{
    assert(journal.skip(12)[0] == journal[12]);
}

/// A post on a date that another post has already adds no drinking day.
pub proof fn law_posts_of_one_date_are_one_drinking_day(
    entries: Seq<IntakeEntryView>,
    post: IntakeEntryView,
    other: int,
)
    requires
        0 <= other < entries.len(),
        entries[other].date == post.date,
    ensures
        entry_dates(entries.push(post)) == entry_dates(entries),
        entry_dates(entries.push(post)).len() == entry_dates(entries).len(),
{
    let before = Seq::new(entries.len(), |i: int| entries[i].date);
    let after = Seq::new(entries.push(post).len(), |i: int| entries.push(post)[i].date);
    assert(after =~= before.push(post.date));
    before.lemma_push_to_set_commute(post.date);
    assert(before[other] == post.date);
    assert(before.to_set().contains(post.date));
    assert(before.to_set().insert(post.date) =~= before.to_set());
}

/// Two posts on one date are one drinking day.
pub proof fn law_two_posts_on_one_date(first: IntakeEntryView, second: IntakeEntryView)
    requires
        first.date == second.date,
    ensures
        entry_dates(seq![first, second]).len() == 1,
{
    let dates = Seq::new(2, |i: int| seq![first, second][i].date);
    assert(dates.to_set() =~= set![first.date]) by {
        assert(dates[0] == first.date);
        assert forall|d: Seq<char>| dates.to_set().contains(d) implies d == first.date by {
            let i = choose|i: int| 0 <= i < dates.len() && dates[i] == d;
            assert(i == 0 || i == 1);
        }
    }
}

/// A month without posts has no intake and no drinking day.
pub proof fn law_month_without_posts(year: int, month: int)
    ensures
        summary_of(Seq::empty(), year, month) == Some(
            MonthlyAlcoholIntake { total_intake: 0, average_per_day: 0, drinking_days: 0 },
        ),
{
    let none = Seq::<IntakeEntryView>::empty();
    assert(entries_intake(none) == 0);
    assert(Seq::new(0, |i: int| none[i].date).to_set() =~= Set::<Seq<char>>::empty());
}

/// A trimmed text neither begins nor ends with whitespace.
pub proof fn law_trimmed_has_no_surrounding_whitespace(text: Seq<char>)
    ensures
        trimmed(text).len() > 0 ==> !is_whitespace(trimmed(text)[0]) && !is_whitespace(
            trimmed(text).last(),
        ),
{
    lemma_trim_start(text);
    lemma_trim_end(trim_start(text));
}

/// What is left of a text without its leading whitespace is its end, and
/// does not begin with whitespace.
pub proof fn lemma_trim_start(text: Seq<char>)
    ensures
        trim_start(text).len() <= text.len(),
        trim_start(text) == text.skip(text.len() - trim_start(text).len()),
        trim_start(text).len() > 0 ==> !is_whitespace(trim_start(text)[0]),
    decreases text.len(),
{
    if text.len() > 0 && is_whitespace(text[0]) {
        lemma_trim_start(text.drop_first());
        let rest = text.drop_first();
        assert(rest.skip(rest.len() - trim_start(rest).len()) =~= text.skip(
            text.len() - trim_start(rest).len(),
        ));
    } else {
        assert(text.skip(0) =~= text);
    }
}

/// What is left of a text without its trailing whitespace is its begin,
/// and does not end with whitespace.
pub proof fn lemma_trim_end(text: Seq<char>)
    ensures
        trim_end(text).len() <= text.len(),
        trim_end(text) == text.take(trim_end(text).len() as int),
        trim_end(text).len() > 0 ==> !is_whitespace(trim_end(text).last()),
    decreases text.len(),
{
    if text.len() > 0 && is_whitespace(text.last()) {
        lemma_trim_end(text.drop_last());
        let rest = text.drop_last();
        assert(rest.take(trim_end(rest).len() as int) =~= text.take(trim_end(rest).len() as int));
    } else {
        assert(text.take(text.len() as int) =~= text);
    }
}

/// Trimming a trimmed text changes nothing.
pub proof fn law_trimming_twice_is_trimming_once(text: Seq<char>)
    ensures
        trimmed(trimmed(text)) == trimmed(text),
{
    law_trimmed_has_no_surrounding_whitespace(text);
}

} // verus!
