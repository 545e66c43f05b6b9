//! The boundary to the storage engine.
//!
//! Everything that reaches the engine goes through the functions of this
//! module, and each of them notes what it sent and what came back in a
//! journal, a ghost sequence of exchanges. The contracts of the operations
//! are stated over that journal: they fix the statements that the engine
//! receives, in their order, and the result for every answer it may give.

use crate::error::AppError;
use vstd::prelude::*;

verus! {

/// `rusqlite::Connection`: a connection to the engine. It is held and
/// handed on; nothing is known of what is inside.
#[verifier::external_type_specification]
#[verifier::external_body]
pub struct ExConnection(rusqlite::Connection);

/// `rusqlite::Transaction`: a transaction that was begun on a connection.
#[verifier::external_type_specification]
#[verifier::external_body]
pub struct ExTransaction<'conn>(rusqlite::Transaction<'conn>);

/// `rusqlite::Error`: what the engine reports when it fails.
#[verifier::external_type_specification]
#[verifier::external_body]
pub struct ExEngineError(rusqlite::Error);

/// `rusqlite::types::Value`: a value as the engine takes and returns it.
#[verifier::external_type_specification]
#[verifier::external_body]
pub struct ExEngineValue(rusqlite::types::Value);

/// A value bound to a parameter of a statement, or held in a column of a row.
#[derive(Clone, Debug)]
pub enum SqlValue {
    Null,
    Integer(i64),
    Text(String),
    /// A real number or a blob. This library writes neither.
    Other,
}

/// What a `SqlValue` stands for.
pub enum Datum {
    Null,
    Integer(i64),
    Text(Seq<char>),
    Other,
}

impl View for SqlValue {
    type V = Datum;

    open spec fn view(&self) -> Datum {
        match self {
            SqlValue::Null => Datum::Null,
            SqlValue::Integer(i) => Datum::Integer(*i),
            SqlValue::Text(s) => Datum::Text(s@),
            SqlValue::Other => Datum::Other,
        }
    }
}

impl DeepView for SqlValue {
    type V = Datum;

    open spec fn deep_view(&self) -> Datum {
        self@
    }
}

/// What is sent to the engine.
pub enum Request {
    /// A statement that changes the database.
    Execute { sql: Seq<char>, params: Seq<Datum> },
    /// A statement that reads rows.
    Query { sql: Seq<char>, params: Seq<Datum> },
    /// The request for the row id of the latest insert.
    LastInsertRowid,
    /// The migrations `steps`, of which those that the database has not
    /// seen yet are to be applied, in their order.
    Migrate { steps: Seq<Seq<char>> },
    /// The start of a transaction.
    Begin,
    /// The end of a transaction that keeps its changes.
    Commit,
    /// The end of a transaction that undoes its changes.
    Rollback,
}

/// What the engine answers.
pub enum Reply {
    /// The engine reported an error.
    Failed,
    /// A statement was executed and changed this many rows.
    Changed(usize),
    /// A query returned these rows.
    Rows(Seq<Seq<Datum>>),
    /// The row id of the latest insert.
    RowId(i64),
    /// A transaction was begun or ended, or the migrations went through.
    Done,
}

/// One request to the engine and its answer.
pub struct Exchange {
    pub request: Request,
    pub reply: Reply,
}

/// Whether every one of `params` can be bound to a statement.
pub open spec fn bindable(params: Seq<Datum>) -> bool {
    forall|i: int| 0 <= i < params.len() ==> !(#[trigger] params[i] is Other)
}

/// The answer that `result` is noted as, for a statement that changes the
/// database.
pub open spec fn execute_reply(result: Result<usize, AppError>) -> Reply {
    match result {
        Ok(changed) => Reply::Changed(changed),
        Err(_) => Reply::Failed,
    }
}

/// The answer that `result` is noted as, for a query.
pub open spec fn query_reply(result: Result<Vec<Vec<SqlValue>>, AppError>) -> Reply {
    match result {
        Ok(rows) => Reply::Rows(rows.deep_view()),
        Err(_) => Reply::Failed,
    }
}

/// The answer that is noted for the start or end of a transaction.
pub open spec fn control_reply(failed: bool) -> Reply {
    if failed {
        Reply::Failed
    } else {
        Reply::Done
    }
}

/// `journal` with one more exchange.
pub open spec fn noted(journal: Seq<Exchange>, request: Request, reply: Reply) -> Seq<Exchange> {
    journal.push(Exchange { request, reply })
}

/// What was added to the journal `before` to make it `after`.
pub open spec fn added(before: Seq<Exchange>, after: Seq<Exchange>) -> Seq<Exchange> {
    after.skip(before.len() as int)
}

/// A statement that changes the database.
pub open spec fn statement(sql: Seq<char>, params: Seq<Datum>) -> Request {
    Request::Execute { sql, params }
}

/// A statement that reads rows.
pub open spec fn selection(sql: Seq<char>, params: Seq<Datum>) -> Request {
    Request::Query { sql, params }
}

/// Whether `result` is a failure of the storage engine.
pub open spec fn failed_in_storage<T>(result: Result<T, AppError>) -> bool {
    result matches Err(e) && e is StorageError
}

/// What is added to a journal that grows by one exchange.
pub proof fn lemma_added_one(start: Seq<Exchange>, before: Seq<Exchange>, after: Seq<Exchange>)
    requires
        start.is_prefix_of(before),
        after.len() == before.len() + 1,
        before.is_prefix_of(after),
    ensures
        start.is_prefix_of(after),
        added(start, after) == added(start, before).push(after.last()),
        added(start, after).len() == added(start, before).len() + 1,
{
    assert(added(start, after) =~= added(start, before).push(after.last()));
}

/// What is added to a journal in two steps.
pub proof fn lemma_added_twice(start: Seq<Exchange>, middle: Seq<Exchange>, end: Seq<Exchange>)
    requires
        start.is_prefix_of(middle),
        middle.is_prefix_of(end),
    ensures
        start.is_prefix_of(end),
        added(start, end) == added(start, middle) + added(middle, end),
{
    assert(added(start, end) =~= added(start, middle) + added(middle, end));
}

/// Nothing is added to a journal that stays as it is.
pub proof fn lemma_added_none(start: Seq<Exchange>)
    ensures
        start.is_prefix_of(start),
        added(start, start) == Seq::<Exchange>::empty(),
{
    assert(added(start, start) =~= Seq::<Exchange>::empty());
}

/// A statement without parameters that changes the database.
pub open spec fn plain_statement(sql: Seq<char>) -> Request {
    Request::Execute { sql, params: Seq::empty() }
}

/// The statements `sql`, each as a request.
pub open spec fn plain_statements(sql: Seq<Seq<char>>) -> Seq<Request> {
    Seq::new(sql.len(), |i: int| plain_statement(sql[i]))
}

/// Whether `run` sends `requests` in their order and stops at the first
/// that the engine fails: `done` says whether all of them went through.
pub open spec fn batch_run(requests: Seq<Request>, run: Seq<Exchange>, done: bool) -> bool {
    &&& run.len() <= requests.len()
    &&& forall|i: int| 0 <= i < run.len() ==> (#[trigger] run[i]).request == requests[i]
    &&& forall|i: int| 0 <= i < run.len() - 1 ==> !((#[trigger] run[i]).reply is Failed)
    &&& if done {
        run.len() == requests.len() && (run.len() > 0 ==> !(run.last().reply is Failed))
    } else {
        run.len() > 0 && run.last().reply is Failed
    }
}

/// A batch that stopped short stopped short of every longer list of
/// requests too.
pub proof fn lemma_batch_stopped(first: Seq<Request>, rest: Seq<Request>, run: Seq<Exchange>)
    requires
        batch_run(first, run, false),
    ensures
        batch_run(first + rest, run, false),
{
    assert forall|i: int| 0 <= i < run.len() implies (#[trigger] run[i]).request == (first
        + rest)[i] by {}
}

/// A batch that went through, followed by a second batch, is one batch of
/// both lists of requests.
pub proof fn lemma_batch_joined(
    first: Seq<Request>,
    rest: Seq<Request>,
    head: Seq<Exchange>,
    tail: Seq<Exchange>,
    done: bool,
)
    requires
        batch_run(first, head, true),
        batch_run(rest, tail, done),
    ensures
        batch_run(first + rest, head + tail, done),
{
    let run = head + tail;
    assert forall|i: int| 0 <= i < run.len() implies (#[trigger] run[i]).request == (first
        + rest)[i] by {
        if i < head.len() {
            assert(run[i] == head[i]);
        } else {
            assert(run[i] == tail[i - head.len()]);
        }
    }
    assert forall|i: int| 0 <= i < run.len() - 1 implies !((#[trigger] run[i]).reply is Failed) by {
        if i < head.len() {
            assert(run[i] == head[i]);
            if i == head.len() - 1 {
                assert(head.last() == head[i]);
            }
        } else {
            assert(run[i] == tail[i - head.len()]);
        }
    }
    if tail.len() > 0 {
        assert(run.last() == tail.last());
    } else if head.len() > 0 {
        assert(run.last() == head.last());
    }
}

/// The statements of two lists, each as a request, are those of the first
/// list and then those of the second.
pub proof fn lemma_plain_statements_joined(first: Seq<Seq<char>>, rest: Seq<Seq<char>>)
    ensures
        plain_statements(first + rest) == plain_statements(first) + plain_statements(rest),
{
    assert(plain_statements(first + rest) =~= plain_statements(first) + plain_statements(rest));
}

/// The number that a counting query was answered with: the first column of
/// the first row, where that is an integer.
pub open spec fn count_in(reply: Reply) -> Option<i64> {
    match reply {
        Reply::Rows(rows) => if rows.len() > 0 && rows[0].len() > 0 {
            match rows[0][0] {
                Datum::Integer(n) => Some(n),
                _ => None,
            }
        } else {
            None
        },
        _ => None,
    }
}

/// Calls `rusqlite::Error`'s `Display`: the text of an engine error. Nothing
/// is claimed of the text.
#[verifier::external_body]
pub(crate) fn engine_error_text(error: &rusqlite::Error) -> (text: String) {
    error.to_string()
}

/// Builds the `rusqlite::types::Value` that carries `value` to the engine.
#[verifier::external_body]
fn engine_value(value: &SqlValue) -> (out: rusqlite::types::Value)
    requires
        !(value@ is Other),
{
    match value {
        SqlValue::Integer(i) => rusqlite::types::Value::Integer(*i),
        SqlValue::Text(s) => rusqlite::types::Value::Text(s.clone()),
        SqlValue::Null | SqlValue::Other => rusqlite::types::Value::Null,
    }
}

/// Takes a `rusqlite::types::Value` apart. Nothing is claimed of the result.
#[verifier::external_body]
fn library_value(value: rusqlite::types::Value) -> (out: SqlValue) {
    match value {
        rusqlite::types::Value::Null => SqlValue::Null,
        rusqlite::types::Value::Integer(i) => SqlValue::Integer(i),
        rusqlite::types::Value::Text(s) => SqlValue::Text(s),
        rusqlite::types::Value::Real(_) => SqlValue::Other,
        rusqlite::types::Value::Blob(_) => SqlValue::Other,
    }
}

/// Calls `rusqlite::Connection::execute` with `params` bound in order. The
/// outcome depends on the database: nothing is claimed of it.
#[verifier::external_body]
fn engine_execute(
    conn: &rusqlite::Connection,
    sql: &str,
    params: &Vec<SqlValue>,
) -> (result: Result<usize, rusqlite::Error>)
    requires
        bindable(params.deep_view()),
{
    conn.execute(sql, rusqlite::params_from_iter(params.iter().map(engine_value)))
}

/// Calls `rusqlite::Connection::prepare` and `rusqlite::Statement::query_map`
/// with `params` bound in order, and collects every column of every row. The
/// outcome depends on the database: nothing is claimed of it.
#[verifier::external_body]
fn engine_query(
    conn: &rusqlite::Connection,
    sql: &str,
    params: &Vec<SqlValue>,
) -> (result: Result<Vec<Vec<SqlValue>>, rusqlite::Error>)
    requires
        bindable(params.deep_view()),
{
    let mut statement = conn.prepare(sql)?;
    let width = statement.column_count();
    let rows = statement.query_map(
        rusqlite::params_from_iter(params.iter().map(engine_value)),
        |row| (0..width).map(|column| row.get(column).map(library_value)).collect(),
    )?;
    rows.collect()
}

/// Calls `rusqlite::Connection::last_insert_rowid`. The row id depends on
/// the database: nothing is claimed of it.
#[verifier::external_body]
fn engine_last_insert_rowid(conn: &rusqlite::Connection) -> (id: i64) {
    conn.last_insert_rowid()
}

/// Calls `rusqlite::Connection::unchecked_transaction`, which begins a
/// transaction on the connection.
#[verifier::external_body]
fn engine_begin<'a>(
    conn: &'a rusqlite::Connection,
) -> (result: Result<rusqlite::Transaction<'a>, rusqlite::Error>) {
    conn.unchecked_transaction()
}

/// Calls `rusqlite::Transaction::commit`.
#[verifier::external_body]
fn engine_commit(
    transaction: rusqlite::Transaction<'_>,
) -> (result: Result<(), rusqlite::Error>) {
    transaction.commit()
}

/// Calls `rusqlite::Transaction::rollback`.
#[verifier::external_body]
fn engine_rollback(
    transaction: rusqlite::Transaction<'_>,
) -> (result: Result<(), rusqlite::Error>) {
    transaction.rollback()
}

/// The connection that `transaction` runs on, by `rusqlite::Transaction`'s
/// `Deref`.
#[verifier::external_body]
pub(crate) fn transaction_connection<'a>(
    transaction: &'a rusqlite::Transaction<'_>,
) -> (conn: &'a rusqlite::Connection) {
    transaction
}

fn storage_error(error: &rusqlite::Error) -> (failure: AppError)
    ensures
        failure is StorageError,
{
    AppError::StorageError(engine_error_text(error))
}

/// Executes a statement that changes the database, and notes the exchange.
pub(crate) fn execute(
    conn: &rusqlite::Connection,
    journal: &mut Ghost<Seq<Exchange>>,
    sql: &str,
    params: &Vec<SqlValue>,
) -> (result: Result<usize, AppError>)
    requires
        bindable(params.deep_view()),
    ensures
        final(journal)@ == noted(
            old(journal)@,
            Request::Execute { sql: sql@, params: params.deep_view() },
            execute_reply(result),
        ),
        result matches Err(e) ==> e is StorageError,
{
    let result = match engine_execute(conn, sql, params) {
        Ok(changed) => Ok(changed),
        Err(error) => Err(storage_error(&error)),
    };
    proof {
        *journal = Ghost(
            noted(
                journal@,
                Request::Execute { sql: sql@, params: params.deep_view() },
                execute_reply(result),
            ),
        );
    }
    result
}

/// Runs a query, and notes the exchange.
pub(crate) fn query(
    conn: &rusqlite::Connection,
    journal: &mut Ghost<Seq<Exchange>>,
    sql: &str,
    params: &Vec<SqlValue>,
) -> (result: Result<Vec<Vec<SqlValue>>, AppError>)
    requires
        bindable(params.deep_view()),
    ensures
        final(journal)@ == noted(
            old(journal)@,
            Request::Query { sql: sql@, params: params.deep_view() },
            query_reply(result),
        ),
        result matches Err(e) ==> e is StorageError,
{
    let result = match engine_query(conn, sql, params) {
        Ok(rows) => Ok(rows),
        Err(error) => Err(storage_error(&error)),
    };
    proof {
        *journal = Ghost(
            noted(
                journal@,
                Request::Query { sql: sql@, params: params.deep_view() },
                query_reply(result),
            ),
        );
    }
    result
}

/// Asks for the row id of the latest insert, and notes the exchange.
pub(crate) fn last_insert_rowid(
    conn: &rusqlite::Connection,
    journal: &mut Ghost<Seq<Exchange>>,
) -> (id: i64)
    ensures
        final(journal)@ == noted(old(journal)@, Request::LastInsertRowid, Reply::RowId(id)),
{
    let id = engine_last_insert_rowid(conn);
    proof {
        *journal = Ghost(noted(journal@, Request::LastInsertRowid, Reply::RowId(id)));
    }
    id
}

/// Begins a transaction, and notes the exchange.
pub(crate) fn begin<'a>(
    conn: &'a rusqlite::Connection,
    journal: &mut Ghost<Seq<Exchange>>,
) -> (result: Result<rusqlite::Transaction<'a>, AppError>)
    ensures
        final(journal)@ == noted(old(journal)@, Request::Begin, control_reply(result is Err)),
        result matches Err(e) ==> e is StorageError,
{
    let result = match engine_begin(conn) {
        Ok(transaction) => Ok(transaction),
        Err(error) => Err(storage_error(&error)),
    };
    proof {
        *journal = Ghost(noted(journal@, Request::Begin, control_reply(result is Err)));
    }
    result
}

/// Commits `transaction`, and notes the exchange. Where the engine refuses,
/// the transaction is over all the same: `rusqlite` rolls it back.
pub(crate) fn commit(
    transaction: rusqlite::Transaction<'_>,
    journal: &mut Ghost<Seq<Exchange>>,
) -> (result: Result<(), AppError>)
    ensures
        final(journal)@ == noted(old(journal)@, Request::Commit, control_reply(result is Err)),
        result matches Err(e) ==> e is StorageError,
{
    let result = match engine_commit(transaction) {
        Ok(()) => Ok(()),
        Err(error) => Err(storage_error(&error)),
    };
    proof {
        *journal = Ghost(noted(journal@, Request::Commit, control_reply(result is Err)));
    }
    result
}

/// Rolls `transaction` back, and notes the exchange.
pub(crate) fn rollback(
    transaction: rusqlite::Transaction<'_>,
    journal: &mut Ghost<Seq<Exchange>>,
) -> (result: Result<(), AppError>)
    ensures
        final(journal)@ == noted(old(journal)@, Request::Rollback, control_reply(result is Err)),
        result matches Err(e) ==> e is StorageError,
{
    let result = match engine_rollback(transaction) {
        Ok(()) => Ok(()),
        Err(error) => Err(storage_error(&error)),
    };
    proof {
        *journal = Ghost(noted(journal@, Request::Rollback, control_reply(result is Err)));
    }
    result
}

/// The failure for an answer of another shape than the statement asks for.
pub(crate) fn unexpected_rows() -> (failure: AppError)
    ensures
        failure is StorageError,
{
    AppError::StorageError("unexpected shape of a row".to_string())
}

/// No parameters.
pub(crate) fn no_params() -> (params: Vec<SqlValue>)
    ensures
        params.deep_view() == Seq::<Datum>::empty(),
{
    let params: Vec<SqlValue> = Vec::new();
    assert(params.deep_view() =~= Seq::<Datum>::empty());
    params
}

/// One parameter.
pub(crate) fn params1(a: SqlValue) -> (params: Vec<SqlValue>)
    ensures
        params.deep_view() == seq![a@],
{
    let params = vec![a];
    assert(params.deep_view() =~= seq![a@]);
    params
}

/// Two parameters.
pub(crate) fn params2(a: SqlValue, b: SqlValue) -> (params: Vec<SqlValue>)
    ensures
        params.deep_view() == seq![a@, b@],
{
    let params = vec![a, b];
    assert(params.deep_view() =~= seq![a@, b@]);
    params
}

/// Three parameters.
pub(crate) fn params3(a: SqlValue, b: SqlValue, c: SqlValue) -> (params: Vec<SqlValue>)
    ensures
        params.deep_view() == seq![a@, b@, c@],
{
    let params = vec![a, b, c];
    assert(params.deep_view() =~= seq![a@, b@, c@]);
    params
}

/// Four parameters.
pub(crate) fn params4(
    a: SqlValue,
    b: SqlValue,
    c: SqlValue,
    d: SqlValue,
) -> (params: Vec<SqlValue>)
    ensures
        params.deep_view() == seq![a@, b@, c@, d@],
{
    let params = vec![a, b, c, d];
    assert(params.deep_view() =~= seq![a@, b@, c@, d@]);
    params
}

/// A text as a parameter.
pub(crate) fn text_param(text: &str) -> (value: SqlValue)
    ensures
        value@ == Datum::Text(text@),
{
    SqlValue::Text(text.to_owned())
}

/// The parameter for an optional text: null where there is none.
pub open spec fn optional_text(text: Option<Seq<char>>) -> Datum {
    match text {
        Some(s) => Datum::Text(s),
        None => Datum::Null,
    }
}

/// An optional text as a parameter.
pub(crate) fn optional_text_param(text: &Option<String>) -> (value: SqlValue)
    ensures
        value@ == optional_text(crate::models::text_of(*text)),
{
    match text {
        Some(s) => SqlValue::Text(s.clone()),
        None => SqlValue::Null,
    }
}

/// Reads the number that a counting query was answered with.
pub(crate) fn count_of(rows: &Vec<Vec<SqlValue>>) -> (count: Option<i64>)
    ensures
        count == count_in(Reply::Rows(rows.deep_view())),
{
    if rows.len() > 0 && rows[0].len() > 0 {
        assert(rows.deep_view()[0] == rows[0].deep_view());
        assert(rows[0].deep_view()[0] == rows[0][0]@);
        match &rows[0][0] {
            SqlValue::Integer(n) => Some(*n),
            _ => None,
        }
    } else {
        None
    }
}

/// Runs a counting query, and notes the exchange.
pub(crate) fn count(
    conn: &rusqlite::Connection,
    journal: &mut Ghost<Seq<Exchange>>,
    sql: &str,
    params: &Vec<SqlValue>,
) -> (result: Result<i64, AppError>)
    requires
        bindable(params.deep_view()),
    ensures
        final(journal)@.len() == old(journal)@.len() + 1,
        old(journal)@.is_prefix_of(final(journal)@),
        final(journal)@.last().request == selection(sql@, params.deep_view()),
        match result {
            Ok(n) => count_in(final(journal)@.last().reply) == Some(n),
            Err(e) => e is StorageError && count_in(final(journal)@.last().reply) is None,
        },
{
    match query(conn, journal, sql, params) {
        Ok(rows) => match count_of(&rows) {
            Some(n) => Ok(n),
            None => Err(unexpected_rows()),
        },
        Err(e) => Err(e),
    }
}

/// A statement with the values of its parameters.
#[derive(Clone, Debug)]
pub struct Bound {
    pub sql: &'static str,
    pub params: Vec<SqlValue>,
}

/// The request that sends `bound`.
pub open spec fn request_of(bound: Bound) -> Request {
    statement(bound.sql@, bound.params.deep_view())
}

/// The requests that send `list`, in its order.
pub open spec fn requests_of(list: Seq<Bound>) -> Seq<Request> {
    Seq::new(list.len(), |i: int| request_of(list[i]))
}

/// Whether every statement of `list` can be sent.
pub open spec fn all_bindable(list: Seq<Bound>) -> bool {
    forall|i: int| 0 <= i < list.len() ==> bindable((#[trigger] list[i]).params.deep_view())
}

/// Executes the statements of `list` in their order until one fails, and
/// notes the exchanges.
pub(crate) fn execute_each(
    conn: &rusqlite::Connection,
    journal: &mut Ghost<Seq<Exchange>>,
    list: &Vec<Bound>,
) -> (result: Result<(), AppError>)
    requires
        all_bindable(list@),
    ensures
        old(journal)@.is_prefix_of(final(journal)@),
        batch_run(requests_of(list@), added(old(journal)@, final(journal)@), result is Ok),
        result matches Err(e) ==> e is StorageError,
{
    let mut i: usize = 0;
    proof {
        lemma_added_none(old(journal)@);
    }
    while i < list.len()
        invariant
            i <= list.len(),
            all_bindable(list@),
            old(journal)@.is_prefix_of(journal@),
            added(old(journal)@, journal@).len() == i,
            forall|k: int|
                0 <= k < i ==> (#[trigger] added(old(journal)@, journal@)[k]).request
                    == requests_of(list@)[k],
            forall|k: int|
                0 <= k < i ==> !((#[trigger] added(old(journal)@, journal@)[k]).reply is Failed),
        decreases list.len() - i,
    {
        let ghost before = journal@;
        let outcome = execute(conn, journal, list[i].sql, &list[i].params);
        proof {
            lemma_added_one(old(journal)@, before, journal@);
        }
        match outcome {
            Ok(_) => {},
            Err(e) => {
                return Err(e);
            },
        }
        i = i + 1;
    }
    Ok(())
}

/// The statements `statements`, none with a parameter.
pub(crate) fn unbound(statements: &Vec<&'static str>) -> (list: Vec<Bound>)
    ensures
        all_bindable(list@),
        requests_of(list@) == plain_statements(crate::schema::texts_of(statements@)),
{
    let mut list: Vec<Bound> = Vec::new();
    let mut i: usize = 0;
    while i < statements.len()
        invariant
            i <= statements.len(),
            list.len() == i,
            all_bindable(list@),
            forall|k: int|
                0 <= k < i ==> request_of(#[trigger] list[k]) == plain_statement(statements[k]@),
        decreases statements.len() - i,
    {
        list.push(Bound { sql: statements[i], params: no_params() });
        i = i + 1;
    }
    assert(requests_of(list@) =~= plain_statements(crate::schema::texts_of(statements@)));
    list
}

/// Whether `tail` is the rest of a transaction that was begun: it sends
/// `requests` in their order, and then commits where all of them went
/// through, or else rolls back right after the first that failed.
/// `committed` says whether the engine took the commit.
pub open spec fn transaction_tail(
    requests: Seq<Request>,
    tail: Seq<Exchange>,
    committed: bool,
) -> bool {
    &&& tail.len() >= 1
    &&& tail.last().request == Request::Commit || tail.last().request == Request::Rollback
    &&& batch_run(requests, tail.drop_last(), tail.last().request == Request::Commit)
    &&& committed <==> tail.last().request == Request::Commit && !(tail.last().reply is Failed)
}

/// Ends `transaction` after its statements were sent with the outcome
/// `body`: commits where they all went through, else rolls back. The
/// result is the failure of the statements, or else that of the commit.
pub(crate) fn conclude(
    transaction: rusqlite::Transaction<'_>,
    journal: &mut Ghost<Seq<Exchange>>,
    body: Result<(), AppError>,
) -> (result: Result<(), AppError>)
    requires
        body matches Err(e) ==> e is StorageError,
    ensures
        final(journal)@.len() == old(journal)@.len() + 1,
        old(journal)@.is_prefix_of(final(journal)@),
        final(journal)@.last().request == if body is Ok {
            Request::Commit
        } else {
            Request::Rollback
        },
        result is Ok <==> body is Ok && !(final(journal)@.last().reply is Failed),
        result matches Err(e) ==> e is StorageError,
{
    match body {
        Ok(()) => commit(transaction, journal),
        Err(e) => {
            let _ = rollback(transaction, journal);
            Err(e)
        },
    }
}

} // verus!
