//! The database: the one connection to the storage engine, and what is
//! done to it when it is opened.

use crate::error::AppError;
use crate::schema::COUNT_CATEGORIES;
use crate::schema::ENFORCE_FOREIGN_KEYS;
use crate::schema::index_statements;
use crate::schema::index_statement_list;
use crate::schema::initial_categories;
use crate::schema::initial_category_list;
use crate::schema::INSERT_CATEGORY;
use crate::schema::migrations;
use crate::schema::migration_list;
use crate::schema::named_orders_of;
use crate::schema::table_statements;
use crate::schema::table_statement_list;
use crate::store::added;
use crate::store::all_bindable;
use crate::store::batch_run;
use crate::store::Bound;
use crate::store::control_reply;
use crate::store::count;
use crate::store::count_in;
use crate::store::Datum;
use crate::store::engine_error_text;
use crate::store::Exchange;
use crate::store::execute;
use crate::store::execute_each;
use crate::store::lemma_added_none;
use crate::store::lemma_added_one;
use crate::store::lemma_added_twice;
use crate::store::lemma_batch_joined;
use crate::store::lemma_batch_stopped;
use crate::store::lemma_plain_statements_joined;
use crate::store::noted;
use crate::store::no_params;
use crate::store::params2;
use crate::store::plain_statement;
use crate::store::plain_statements;
use crate::store::Request;
use crate::store::requests_of;
use crate::store::request_of;
use crate::store::SqlValue;
use crate::store::text_param;
use crate::store::unbound;
use vstd::prelude::*;

verus! {

/// `std::path::PathBuf`: the path of a file.
#[verifier::external_type_specification]
#[verifier::external_body]
pub struct ExPathBuf(std::path::PathBuf);

/// `rusqlite_migration::Error`: why the migrations could not be applied.
#[verifier::external_type_specification]
#[verifier::external_body]
pub struct ExMigrationError(rusqlite_migration::Error);

/// The connection to the database, with the journal of what was sent
/// through it since it was opened. Who holds it exclusively is the only one
/// to talk to the engine.
pub struct Database {
    pub(crate) conn: rusqlite::Connection,
    pub(crate) journal: Ghost<Seq<Exchange>>,
}

/// Calls `rusqlite::Connection::open`, which opens the database file at
/// `path` and creates it where there is none.
#[verifier::external_body]
fn engine_open(
    path: &std::path::PathBuf,
) -> (result: Result<rusqlite::Connection, rusqlite::Error>) {
    rusqlite::Connection::open(path)
}

/// Calls `rusqlite_migration::Migrations::to_latest` on the migrations
/// `steps`, each made by `rusqlite_migration::M::up`: those that the
/// database has not seen yet are applied, in their order.
#[verifier::external_body]
fn engine_migrate(
    conn: &mut rusqlite::Connection,
    steps: &Vec<&'static str>,
) -> (result: Result<(), rusqlite_migration::Error>) {
    let steps = steps.iter().map(|sql| rusqlite_migration::M::up(sql)).collect();
    rusqlite_migration::Migrations::new(steps).to_latest(conn)
}

/// Calls `rusqlite_migration::Error`'s `Display`. Nothing is claimed of the
/// text.
#[verifier::external_body]
fn migration_error_text(error: &rusqlite_migration::Error) -> (text: String) {
    error.to_string()
}

/// The request that counts the categories.
pub open spec fn count_categories_request() -> Request {
    Request::Query { sql: COUNT_CATEGORIES@, params: Seq::empty() }
}

/// The request that inserts a category.
pub open spec fn insert_category_request(name: Seq<char>, display_order: i64) -> Request {
    Request::Execute {
        sql: INSERT_CATEGORY@,
        params: seq![Datum::Text(name), Datum::Integer(display_order)],
    }
}

/// The requests that insert the categories of a new database.
pub open spec fn seed_requests() -> Seq<Request> {
    Seq::new(
        initial_categories().len(),
        |i: int| insert_category_request(initial_categories()[i].0, initial_categories()[i].1),
    )
}

/// Whether `run` seeds the categories: it counts them, and only where
/// there is none it inserts the initial ones, in their order. `done` says
/// whether all of it went through.
pub open spec fn seeding_run(run: Seq<Exchange>, done: bool) -> bool {
    &&& run.len() >= 1
    &&& run[0].request == count_categories_request()
    &&& match count_in(run[0].reply) {
        None => run.len() == 1 && !done,
        Some(n) => if n > 0 {
            run.len() == 1 && done
        } else {
            batch_run(seed_requests(), run.skip(1), done)
        },
    }
}

/// Whether `journal` is that of a database that was opened and initialised
/// in full: before anything else the migrations are applied, then
/// references are enforced, the tables and indexes are created where they
/// were missing, and the categories are seeded where there was none.
pub open spec fn initialised(journal: Seq<Exchange>) -> bool {
    &&& journal.len() >= 13
    &&& journal[0].request == (Request::Migrate { steps: migrations() })
    &&& journal[0].reply is Done
    &&& journal[1].request == plain_statement(ENFORCE_FOREIGN_KEYS@)
    &&& !(journal[1].reply is Failed)
    &&& batch_run(plain_statements(table_statements()), journal.subrange(2, 6), true)
    &&& batch_run(plain_statements(index_statements()), journal.subrange(6, 12), true)
    &&& seeding_run(journal.skip(12), true)
}

/// The statements that lay the database out, in the order in which they
/// are executed: the one that makes the engine enforce references, those
/// that create the tables and those that create the indexes.
pub open spec fn layout_requests() -> Seq<Request> {
    plain_statements(seq![ENFORCE_FOREIGN_KEYS@] + table_statements() + index_statements())
}

/// What the initialisation after the migrations does: it sends the
/// statements that lay the database out, in their order, and stops at the
/// first that the engine fails. Where all of them went through, it seeds
/// the categories. `done` says whether all of it went through.
pub open spec fn init_run(run: Seq<Exchange>, done: bool) -> bool {
    ||| batch_run(layout_requests(), run, false) && !done
    ||| {
        &&& run.len() > layout_requests().len()
        &&& batch_run(layout_requests(), run.take(layout_requests().len() as int), true)
        &&& seeding_run(run.skip(layout_requests().len() as int), done)
    }
}

/// The statements that insert the categories of a new database.
fn seed_statements() -> (list: Vec<Bound>)
    ensures
        all_bindable(list@),
        requests_of(list@) == seed_requests(),
{
    let seeds = initial_category_list();
    let mut list: Vec<Bound> = Vec::new();
    let mut i: usize = 0;
    while i < seeds.len()
        invariant
            i <= seeds.len(),
            list.len() == i,
            named_orders_of(seeds@) == initial_categories(),
            all_bindable(list@),
            forall|k: int| 0 <= k < i ==> request_of(#[trigger] list[k]) == seed_requests()[k],
        decreases seeds.len() - i,
    {
        let (name, display_order) = seeds[i];
        assert(named_orders_of(seeds@)[i as int] == initial_categories()[i as int]);
        let params = params2(text_param(name), SqlValue::Integer(display_order));
        list.push(Bound { sql: INSERT_CATEGORY, params });
        i = i + 1;
    }
    assert(requests_of(list@) =~= seed_requests());
    list
}

impl Database {
    /// What was sent to the engine through this connection since it was
    /// opened, and what the engine answered, oldest first.
    pub open(crate) spec fn journal(&self) -> Seq<Exchange> {
        self.journal@
    }

    /// Opens the database at `db_path`, brings an older layout up to date,
    /// creates what is missing of the tables and indexes, and seeds the
    /// categories where there is none. Where the database cannot be opened,
    /// that is a failure of the storage; any failure after that is one of
    /// the layout, and final.
    pub fn new(db_path: std::path::PathBuf) -> (result: Result<Self, AppError>)
        ensures
            match result {
                Ok(db) => initialised(db.journal()),
                Err(e) => e is StorageError || e is SchemaError,
            },
    {
        let conn = match engine_open(&db_path) {
            Ok(conn) => conn,
            Err(error) => {
                return Err(AppError::StorageError(engine_error_text(&error)));
            },
        };
        let mut db = Database { conn, journal: Ghost(Seq::empty()) };
        db.migrate()?;
        match db.init() {
            Ok(()) => Ok(db),
            Err(e) => Err(AppError::SchemaError(e.message())),
        }
    }

    fn migrate(&mut self) -> (result: Result<(), AppError>)
        ensures
            final(self).journal() == noted(
                old(self).journal(),
                Request::Migrate { steps: migrations() },
                control_reply(result is Err),
            ),
            result matches Err(e) ==> e is SchemaError,
    {
        let steps = migration_list();
        let result = match engine_migrate(&mut self.conn, &steps) {
            Ok(()) => Ok(()),
            Err(error) => Err(AppError::SchemaError(migration_error_text(&error))),
        };
        proof {
            self.journal = Ghost(
                noted(
                    self.journal@,
                    Request::Migrate { steps: migrations() },
                    control_reply(result is Err),
                ),
            );
        }
        result
    }

    /// The connection that this database talks through.
    pub closed spec fn connection(&self) -> rusqlite::Connection {
        self.conn
    }

    /// The connection itself. What is sent through it directly is not in
    /// the journal.
    pub fn conn(&self) -> (conn: &rusqlite::Connection)
        ensures
            *conn == self.connection(),
    {
        &self.conn
    }

    fn init(&mut self) -> (result: Result<(), AppError>)
        requires
            old(self).journal().len() == 1,
            old(self).journal()[0].request == (Request::Migrate { steps: migrations() }),
            old(self).journal()[0].reply is Done,
        ensures
            old(self).journal().is_prefix_of(final(self).journal()),
            init_run(added(old(self).journal(), final(self).journal()), result is Ok),
            result matches Err(e) ==> e is StorageError,
            result is Ok ==> initialised(final(self).journal()),
    {
        let ghost start = self.journal@;
        let ghost pragma = plain_statements(seq![ENFORCE_FOREIGN_KEYS@]);
        let ghost tables = plain_statements(table_statements());
        let ghost indexes = plain_statements(index_statements());
        proof {
            lemma_added_none(start);
            lemma_plain_statements_joined(seq![ENFORCE_FOREIGN_KEYS@], table_statements());
            lemma_plain_statements_joined(
                seq![ENFORCE_FOREIGN_KEYS@] + table_statements(),
                index_statements(),
            );
            assert(layout_requests() == pragma + tables + indexes);
            assert(pragma.len() == 1);
            assert(tables.len() == 4);
            assert(indexes.len() == 6);
        }
        let params = no_params();
        let enforced = execute(&self.conn, &mut self.journal, ENFORCE_FOREIGN_KEYS, &params);
        let ghost first = self.journal@;
        proof {
            lemma_added_one(start, start, first);
            assert(batch_run(pragma, added(start, first), enforced is Ok));
        }
        match enforced {
            Ok(_) => {},
            Err(e) => {
                proof {
                    lemma_batch_stopped(pragma, tables + indexes, added(start, first));
                    assert(pragma + (tables + indexes) =~= pragma + tables + indexes);
                }
                return Err(e);
            },
        }
        let created = self.create_tables();
        let ghost second = self.journal@;
        proof {
            lemma_added_twice(start, first, second);
            lemma_batch_joined(
                pragma,
                tables,
                added(start, first),
                added(first, second),
                created is Ok,
            );
        }
        match created {
            Ok(()) => {},
            Err(e) => {
                proof {
                    lemma_batch_stopped(pragma + tables, indexes, added(start, second));
                }
                return Err(e);
            },
        }
        let indexed = self.create_indexes();
        let ghost third = self.journal@;
        proof {
            lemma_added_twice(start, second, third);
            lemma_batch_joined(
                pragma + tables,
                indexes,
                added(start, second),
                added(second, third),
                indexed is Ok,
            );
        }
        match indexed {
            Ok(()) => {},
            Err(e) => {
                return Err(e);
            },
        }
        let seeded = self.insert_initial_categories();
        proof {
            let last = self.journal@;
            let run = added(start, last);
            lemma_added_twice(start, third, last);
            assert(added(start, third).len() == 11);
            assert(run.take(11) =~= added(start, third));
            assert(run.skip(11) =~= added(third, last));
            assert(run.len() > 11);
            if seeded is Ok {
                assert(first == start.push(first.last()));
                assert(first.len() == 2);
                assert(second.len() == 6);
                assert(third.len() == 12);
                assert(added(first, second) =~= last.subrange(2, 6));
                assert(added(second, third) =~= last.subrange(6, 12));
                assert(added(third, last) =~= last.skip(12));
                assert(first.is_prefix_of(last));
                assert(last[0] == start[0]);
                assert(last[1] == first[1]);
            }
        }
        seeded
    }

    fn create_tables(&mut self) -> (result: Result<(), AppError>)
        ensures
            old(self).journal().is_prefix_of(final(self).journal()),
            batch_run(
                plain_statements(table_statements()),
                added(old(self).journal(), final(self).journal()),
                result is Ok,
            ),
            result matches Err(e) ==> e is StorageError,
    {
        let statements = unbound(&table_statement_list());
        execute_each(&self.conn, &mut self.journal, &statements)
    }

    fn create_indexes(&mut self) -> (result: Result<(), AppError>)
        ensures
            old(self).journal().is_prefix_of(final(self).journal()),
            batch_run(
                plain_statements(index_statements()),
                added(old(self).journal(), final(self).journal()),
                result is Ok,
            ),
            result matches Err(e) ==> e is StorageError,
    {
        let statements = unbound(&index_statement_list());
        execute_each(&self.conn, &mut self.journal, &statements)
    }

    fn insert_initial_categories(&mut self) -> (result: Result<(), AppError>)
        ensures
            old(self).journal().is_prefix_of(final(self).journal()),
            seeding_run(added(old(self).journal(), final(self).journal()), result is Ok),
            result matches Err(e) ==> e is StorageError,
    {
        let ghost start = self.journal@;
        let params = no_params();
        let existing = count(&self.conn, &mut self.journal, COUNT_CATEGORIES, &params);
        let ghost counted = self.journal@;
        proof {
            lemma_added_none(start);
            lemma_added_one(start, start, counted);
        }
        let existing = existing?;
        if existing > 0 {
            return Ok(());
        }
        let seeds = seed_statements();
        let outcome = execute_each(&self.conn, &mut self.journal, &seeds);
        proof {
            lemma_added_twice(start, counted, self.journal@);
            assert(added(start, self.journal@).skip(1) =~= added(counted, self.journal@));
            assert(added(start, self.journal@)[0] == counted.last());
        }
        outcome
    }
}

} // verus!
