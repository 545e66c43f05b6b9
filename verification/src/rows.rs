//! Reading records out of the rows that the engine returns.
//!
//! A row is read as a record only where it has exactly the columns of the
//! query, each of the type that the record wants: nothing is guessed.

use crate::intake::Serving;
use crate::models::Beverage;
use crate::models::BeverageAmount;
use crate::models::BeverageAmountView;
use crate::models::BeverageView;
use crate::models::Category;
use crate::models::CategoryView;
use crate::models::PostWithBeverages;
use crate::models::PostWithBeveragesView;
use crate::store::Datum;
use crate::store::Exchange;
use crate::store::Reply;
use crate::store::Request;
use crate::store::SqlValue;
use vstd::prelude::*;

verus! {

/// The integer in `cell`.
pub open spec fn integer_in(cell: Datum) -> Option<i64> {
    match cell {
        Datum::Integer(n) => Some(n),
        _ => None,
    }
}

/// The text in `cell`.
pub open spec fn text_in(cell: Datum) -> Option<Seq<char>> {
    match cell {
        Datum::Text(s) => Some(s),
        _ => None,
    }
}

/// The text in `cell`, or none where the cell is null.
pub open spec fn optional_text_in(cell: Datum) -> Option<Option<Seq<char>>> {
    match cell {
        Datum::Text(s) => Some(Some(s)),
        Datum::Null => Some(None),
        _ => None,
    }
}

/// The volume in `cell`: an integer that is not negative.
pub open spec fn amount_in(cell: Datum) -> Option<u64> {
    match cell {
        Datum::Integer(n) => if n >= 0 {
            Some(n as u64)
        } else {
            None
        },
        _ => None,
    }
}

/// The alcohol content in `cell`: an integer from 0 to `u32::MAX`, or none
/// where the cell is null.
pub open spec fn content_in(cell: Datum) -> Option<Option<u32>> {
    match cell {
        Datum::Integer(n) => if 0 <= n <= u32::MAX {
            Some(Some(n as u32))
        } else {
            None
        },
        Datum::Null => Some(None),
        _ => None,
    }
}

fn read_integer(cell: &SqlValue) -> (value: Option<i64>)
    ensures
        value == integer_in(cell@),
{
    match cell {
        SqlValue::Integer(n) => Some(*n),
        _ => None,
    }
}

fn read_text(cell: &SqlValue) -> (value: Option<String>)
    ensures
        crate::models::text_of(value) == text_in(cell@),
{
    match cell {
        SqlValue::Text(s) => Some(s.clone()),
        _ => None,
    }
}

fn read_optional_text(cell: &SqlValue) -> (value: Option<Option<String>>)
    ensures
        match value {
            Some(text) => optional_text_in(cell@) == Some(crate::models::text_of(text)),
            None => optional_text_in(cell@) is None,
        },
{
    match cell {
        SqlValue::Text(s) => Some(Some(s.clone())),
        SqlValue::Null => Some(None),
        _ => None,
    }
}

fn read_amount(cell: &SqlValue) -> (value: Option<u64>)
    ensures
        value == amount_in(cell@),
{
    match cell {
        SqlValue::Integer(n) => if *n >= 0 {
            Some(*n as u64)
        } else {
            None
        },
        _ => None,
    }
}

fn read_content(cell: &SqlValue) -> (value: Option<Option<u32>>)
    ensures
        value == content_in(cell@),
{
    match cell {
        SqlValue::Integer(n) => if 0 <= *n && *n <= u32::MAX as i64 {
            Some(Some(*n as u32))
        } else {
            None
        },
        SqlValue::Null => Some(None),
        _ => None,
    }
}

/// A record that can be read out of a row.
pub trait FromRow: Sized + DeepView {
    /// The record that `row` holds, where it holds one.
    spec fn in_row(row: Seq<Datum>) -> Option<Self::V>;

    /// Reads the record that `row` holds.
    fn from_row(row: &Vec<SqlValue>) -> (record: Option<Self>)
        ensures
            match record {
                Some(r) => Self::in_row(row.deep_view()) == Some(r.deep_view()),
                None => Self::in_row(row.deep_view()) is None,
            },
    ;
}

/// The records that `rows` hold, in their order, where every row holds one.
pub open spec fn records_in<T: FromRow>(rows: Seq<Seq<Datum>>) -> Option<Seq<T::V>> {
    if forall|i: int| 0 <= i < rows.len() ==> (#[trigger] T::in_row(rows[i])) is Some {
        Some(Seq::new(rows.len(), |i: int| T::in_row(rows[i])->0))
    } else {
        None
    }
}

/// The records that the engine answered a query with.
pub open spec fn records_of<T: FromRow>(reply: Reply) -> Option<Seq<T::V>> {
    match reply {
        Reply::Rows(rows) => records_in::<T>(rows),
        _ => None,
    }
}

/// Whether `run` looks records up, one query for each of `requests` in
/// their order, and stops short only after an answer that is not a list of
/// records.
pub open spec fn lookups_run<T: FromRow>(requests: Seq<Request>, run: Seq<Exchange>) -> bool {
    &&& run.len() <= requests.len()
    &&& forall|i: int| 0 <= i < run.len() ==> (#[trigger] run[i]).request == requests[i]
    &&& forall|i: int|
        0 <= i < run.len() - 1 ==> records_of::<T>((#[trigger] run[i]).reply) is Some
    &&& run.len() < requests.len() ==> run.len() > 0 && records_of::<T>(run.last().reply) is None
}

/// Whether each answer in `run` is a list of records.
pub open spec fn lookups_answered<T: FromRow>(run: Seq<Exchange>) -> bool {
    forall|i: int| 0 <= i < run.len() ==> records_of::<T>((#[trigger] run[i]).reply) is Some
}

/// Reads the records that `rows` hold.
pub fn read_records<T: FromRow>(rows: &Vec<Vec<SqlValue>>) -> (records: Option<Vec<T>>)
    ensures
        match records {
            Some(list) => records_in::<T>(rows.deep_view()) == Some(list.deep_view()),
            None => records_in::<T>(rows.deep_view()) is None,
        },
{
    let mut list: Vec<T> = Vec::new();
    let mut i: usize = 0;
    while i < rows.len()
        invariant
            i <= rows.len(),
            list.len() == i,
            forall|k: int|
                0 <= k < i ==> (#[trigger] T::in_row(rows.deep_view()[k])) == Some(
                    list.deep_view()[k],
                ),
        decreases rows.len() - i,
    {
        assert(rows.deep_view()[i as int] == rows[i as int].deep_view());
        match T::from_row(&rows[i]) {
            Some(record) => {
                let ghost before = list.deep_view();
                list.push(record);
                assert(list.deep_view() =~= before.push(record.deep_view()));
            },
            None => {
                return None;
            },
        }
        i = i + 1;
    }
    assert(list.deep_view() =~= Seq::new(
        rows.deep_view().len(),
        |k: int| T::in_row(rows.deep_view()[k])->0,
    ));
    Some(list)
}

impl FromRow for Category {
    /// The columns are: id, name, display order, time of creation, time of
    /// the latest change.
    open spec fn in_row(row: Seq<Datum>) -> Option<CategoryView> {
        if row.len() == 5 && integer_in(row[0]) is Some && text_in(row[1]) is Some && integer_in(
            row[2],
        ) is Some && optional_text_in(row[3]) is Some && optional_text_in(row[4]) is Some {
            Some(
                CategoryView {
                    id: integer_in(row[0])->0,
                    name: text_in(row[1])->0,
                    display_order: integer_in(row[2])->0,
                    created_at: optional_text_in(row[3])->0,
                    updated_at: optional_text_in(row[4])->0,
                },
            )
        } else {
            None
        }
    }

    fn from_row(row: &Vec<SqlValue>) -> (record: Option<Self>) {
        if row.len() != 5 {
            return None;
        }
        assert(forall|k: int| 0 <= k < 5 ==> row.deep_view()[k] == row[k]@);
        let id = read_integer(&row[0])?;
        let name = read_text(&row[1])?;
        let display_order = read_integer(&row[2])?;
        let created_at = read_optional_text(&row[3])?;
        let updated_at = read_optional_text(&row[4])?;
        Some(Category { id, name, display_order, created_at, updated_at })
    }
}

impl FromRow for Beverage {
    /// The columns are: id, name, alcohol content, id of the category, name
    /// of the category, time of creation, time of the latest change.
    open spec fn in_row(row: Seq<Datum>) -> Option<BeverageView> {
        if row.len() == 7 && integer_in(row[0]) is Some && text_in(row[1]) is Some && content_in(
            row[2],
        ) is Some && integer_in(row[3]) is Some && optional_text_in(row[4]) is Some
            && optional_text_in(row[5]) is Some && optional_text_in(row[6]) is Some {
            Some(
                BeverageView {
                    id: integer_in(row[0])->0,
                    name: text_in(row[1])->0,
                    alcohol_content: content_in(row[2])->0,
                    category_id: integer_in(row[3])->0,
                    category_name: optional_text_in(row[4])->0,
                    created_at: optional_text_in(row[5])->0,
                    updated_at: optional_text_in(row[6])->0,
                },
            )
        } else {
            None
        }
    }

    fn from_row(row: &Vec<SqlValue>) -> (record: Option<Self>) {
        if row.len() != 7 {
            return None;
        }
        assert(forall|k: int| 0 <= k < 7 ==> row.deep_view()[k] == row[k]@);
        let id = read_integer(&row[0])?;
        let name = read_text(&row[1])?;
        let alcohol_content = read_content(&row[2])?;
        let category_id = read_integer(&row[3])?;
        let category_name = read_optional_text(&row[4])?;
        let created_at = read_optional_text(&row[5])?;
        let updated_at = read_optional_text(&row[6])?;
        Some(
            Beverage {
                id,
                name,
                alcohol_content,
                category_id,
                category_name,
                created_at,
                updated_at,
            },
        )
    }
}

impl FromRow for PostWithBeverages {
    /// The columns are: id, date, comment, time of creation, time of the
    /// latest change. The post is read without drinks.
    open spec fn in_row(row: Seq<Datum>) -> Option<PostWithBeveragesView> {
        if row.len() == 5 && integer_in(row[0]) is Some && text_in(row[1]) is Some
            && optional_text_in(row[2]) is Some && text_in(row[3]) is Some && text_in(row[4])
            is Some {
            Some(
                PostWithBeveragesView {
                    id: integer_in(row[0])->0,
                    date: text_in(row[1])->0,
                    comment: optional_text_in(row[2])->0,
                    created_at: text_in(row[3])->0,
                    updated_at: text_in(row[4])->0,
                    beverages: Seq::empty(),
                },
            )
        } else {
            None
        }
    }

    fn from_row(row: &Vec<SqlValue>) -> (record: Option<Self>) {
        if row.len() != 5 {
            return None;
        }
        assert(forall|k: int| 0 <= k < 5 ==> row.deep_view()[k] == row[k]@);
        let id = read_integer(&row[0])?;
        let date = read_text(&row[1])?;
        let comment = read_optional_text(&row[2])?;
        let created_at = read_text(&row[3])?;
        let updated_at = read_text(&row[4])?;
        let beverages: Vec<BeverageAmount> = Vec::new();
        assert(beverages.deep_view() =~= Seq::<BeverageAmountView>::empty());
        Some(PostWithBeverages { id, date, comment, created_at, updated_at, beverages })
    }
}

impl FromRow for BeverageAmount {
    /// The columns are: id of the beverage, name of the beverage, volume,
    /// alcohol content of the beverage.
    open spec fn in_row(row: Seq<Datum>) -> Option<BeverageAmountView> {
        if row.len() == 4 && integer_in(row[0]) is Some && text_in(row[1]) is Some && amount_in(
            row[2],
        ) is Some && content_in(row[3]) is Some {
            Some(
                BeverageAmountView {
                    beverage_id: integer_in(row[0])->0,
                    beverage_name: text_in(row[1])->0,
                    amount: amount_in(row[2])->0,
                    alcohol_content: content_in(row[3])->0,
                },
            )
        } else {
            None
        }
    }

    fn from_row(row: &Vec<SqlValue>) -> (record: Option<Self>) {
        if row.len() != 4 {
            return None;
        }
        assert(forall|k: int| 0 <= k < 4 ==> row.deep_view()[k] == row[k]@);
        let beverage_id = read_integer(&row[0])?;
        let beverage_name = read_text(&row[1])?;
        let amount = read_amount(&row[2])?;
        let alcohol_content = read_content(&row[3])?;
        Some(BeverageAmount { beverage_id, beverage_name, amount, alcohol_content })
    }
}

/// A post as the statistics find it: its id and its date.
#[derive(Clone, Debug)]
pub struct PostDate {
    pub id: i64,
    pub date: String,
}

/// What a `PostDate` stands for.
pub struct PostDateView {
    pub id: i64,
    pub date: Seq<char>,
}

impl View for PostDate {
    type V = PostDateView;

    open spec fn view(&self) -> PostDateView {
        PostDateView { id: self.id, date: self.date@ }
    }
}

impl DeepView for PostDate {
    type V = PostDateView;

    open spec fn deep_view(&self) -> PostDateView {
        self@
    }
}

impl FromRow for PostDate {
    /// The columns are: id, date.
    open spec fn in_row(row: Seq<Datum>) -> Option<PostDateView> {
        if row.len() == 2 && integer_in(row[0]) is Some && text_in(row[1]) is Some {
            Some(PostDateView { id: integer_in(row[0])->0, date: text_in(row[1])->0 })
        } else {
            None
        }
    }

    fn from_row(row: &Vec<SqlValue>) -> (record: Option<Self>) {
        if row.len() != 2 {
            return None;
        }
        assert(forall|k: int| 0 <= k < 2 ==> row.deep_view()[k] == row[k]@);
        let id = read_integer(&row[0])?;
        let date = read_text(&row[1])?;
        Some(PostDate { id, date })
    }
}

impl FromRow for Serving {
    /// The columns are: volume, alcohol content of the beverage.
    open spec fn in_row(row: Seq<Datum>) -> Option<Serving> {
        if row.len() == 2 && amount_in(row[0]) is Some && content_in(row[1]) is Some {
            Some(Serving { amount: amount_in(row[0])->0, alcohol_content: content_in(row[1])->0 })
        } else {
            None
        }
    }

    fn from_row(row: &Vec<SqlValue>) -> (record: Option<Self>) {
        if row.len() != 2 {
            return None;
        }
        assert(forall|k: int| 0 <= k < 2 ==> row.deep_view()[k] == row[k]@);
        let amount = read_amount(&row[0])?;
        let alcohol_content = read_content(&row[1])?;
        Some(Serving { amount, alcohol_content })
    }
}

} // verus!
