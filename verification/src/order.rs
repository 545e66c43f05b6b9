//! The orders in which records are listed.

use crate::models::Beverage;
use crate::models::BeverageView;
use crate::models::Category;
use crate::models::CategoryView;
use crate::models::PostWithBeverages;
use crate::models::PostWithBeveragesView;
use crate::rows::FromRow;
use crate::rows::read_records;
use crate::rows::records_in;
use crate::store::Datum;
use crate::store::Reply;
use crate::store::SqlValue;
use crate::text::lemma_text_le_antisymmetric;
use crate::text::lemma_text_le_transitive;
use crate::text::text_at_most;
use crate::text::text_le;
use vstd::prelude::*;

verus! {

/// A record with a place in a list.
pub trait Ranked: Sized + DeepView {
    /// Whether `first` may stand before `second`.
    spec fn precedes(first: Self::V, second: Self::V) -> bool;

    /// Whether `self` may stand before `other`.
    fn may_precede(&self, other: &Self) -> (r: bool)
        ensures
            r == Self::precedes(self.deep_view(), other.deep_view()),
    ;

    /// What may stand before a record may stand before all that the record
    /// may stand before.
    proof fn lemma_transitive(first: Self::V, second: Self::V, third: Self::V)
        requires
            Self::precedes(first, second),
            Self::precedes(second, third),
        ensures
            Self::precedes(first, third),
    ;
}

/// Whether `list` is in order: each record may stand before all that
/// follow it.
pub open spec fn in_order<T: Ranked>(list: Seq<T::V>) -> bool {
    forall|i: int, j: int| 0 <= i < j < list.len() ==> T::precedes(list[i], list[j])
}

/// Whether `list` is in order.
pub fn is_in_order<T: Ranked>(list: &Vec<T>) -> (r: bool)
    ensures
        r == in_order::<T>(list.deep_view()),
{
    if list.len() < 2 {
        return true;
    }
    let ghost records = list.deep_view();
    let mut k: usize = 1;
    while k < list.len()
        invariant
            1 <= k <= list.len(),
            records == list.deep_view(),
            forall|i: int, j: int| 0 <= i < j < k ==> T::precedes(records[i], records[j]),
        decreases list.len() - k,
    {
        assert(records[k - 1] == list[k - 1].deep_view());
        assert(records[k as int] == list[k as int].deep_view());
        if !list[k - 1].may_precede(&list[k]) {
            return false;
        }
        proof {
            assert forall|i: int, j: int| 0 <= i < j < k + 1 implies T::precedes(
                records[i],
                records[j],
            ) by {
                if j == k && i < k - 1 {
                    T::lemma_transitive(records[i], records[k - 1], records[k as int]);
                }
            }
        }
        k = k + 1;
    }
    true
}

/// The records that `rows` hold, where every row holds one and they come
/// in order.
pub open spec fn listing_in<T: FromRow + Ranked>(rows: Seq<Seq<Datum>>) -> Option<Seq<T::V>> {
    match records_in::<T>(rows) {
        Some(records) => if in_order::<T>(records) {
            Some(records)
        } else {
            None
        },
        None => None,
    }
}

/// The records that the engine answered a query with, where they come in
/// order.
pub open spec fn listing_of<T: FromRow + Ranked>(reply: Reply) -> Option<Seq<T::V>> {
    match reply {
        Reply::Rows(rows) => listing_in::<T>(rows),
        _ => None,
    }
}

/// Reads the records that `rows` hold, and sees that they come in order.
pub fn read_listing<T: FromRow + Ranked>(rows: &Vec<Vec<SqlValue>>) -> (records: Option<Vec<T>>)
    ensures
        match records {
            Some(list) => listing_in::<T>(rows.deep_view()) == Some(list.deep_view()),
            None => listing_in::<T>(rows.deep_view()) is None,
        },
{
    match read_records::<T>(rows) {
        Some(list) => if is_in_order(&list) {
            Some(list)
        } else {
            None
        },
        None => None,
    }
}

impl Ranked for Category {
    /// Categories are listed by their place in the order of display, and
    /// those of one place by name.
    open spec fn precedes(first: CategoryView, second: CategoryView) -> bool {
        first.display_order < second.display_order || (first.display_order
            == second.display_order && text_le(first.name, second.name))
    }

    fn may_precede(&self, other: &Self) -> (r: bool) {
        self.display_order < other.display_order || (self.display_order == other.display_order
            && text_at_most(self.name.as_str(), other.name.as_str()))
    }

    proof fn lemma_transitive(first: CategoryView, second: CategoryView, third: CategoryView) {
        if first.display_order == second.display_order && second.display_order
            == third.display_order {
            lemma_text_le_transitive(first.name, second.name, third.name);
        }
    }
}

impl Ranked for Beverage {
    /// Beverages are listed by name.
    open spec fn precedes(first: BeverageView, second: BeverageView) -> bool {
        text_le(first.name, second.name)
    }

    fn may_precede(&self, other: &Self) -> (r: bool) {
        text_at_most(self.name.as_str(), other.name.as_str())
    }

    proof fn lemma_transitive(first: BeverageView, second: BeverageView, third: BeverageView) {
        lemma_text_le_transitive(first.name, second.name, third.name);
    }
}

impl Ranked for PostWithBeverages {
    /// Posts are listed latest date first, and those of one date latest
    /// created first.
    open spec fn precedes(first: PostWithBeveragesView, second: PostWithBeveragesView) -> bool {
        if first.date == second.date {
            text_le(second.created_at, first.created_at)
        } else {
            text_le(second.date, first.date)
        }
    }

    fn may_precede(&self, other: &Self) -> (r: bool) {
        if self.date == other.date {
            text_at_most(other.created_at.as_str(), self.created_at.as_str())
        } else {
            text_at_most(other.date.as_str(), self.date.as_str())
        }
    }

    proof fn lemma_transitive(
        first: PostWithBeveragesView,
        second: PostWithBeveragesView,
        third: PostWithBeveragesView,
    ) {
        if first.date == second.date {
            if second.date == third.date {
                lemma_text_le_transitive(third.created_at, second.created_at, first.created_at);
            }
        } else if second.date == third.date {
        } else {
            lemma_text_le_transitive(third.date, second.date, first.date);
            if first.date == third.date {
                lemma_text_le_antisymmetric(second.date, first.date);
            }
        }
    }
}

} // verus!
