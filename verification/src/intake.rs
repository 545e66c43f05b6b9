//! Monthly alcohol intake: the statistics of one month, computed from the
//! posts of that month and what was drunk on each.
//!
//! A volume is an integer count of thousandths of a millilitre, an alcohol
//! content one of thousandths of a percent, and an intake one of billionths
//! of a gram. With ethanol at 0.8 g per millilitre, a volume `v` at content
//! `p` holds exactly `v * p * 8` units of alcohol.

use crate::calendar::days_in_month;
use crate::calendar::month_length;
use crate::models::MonthlyAlcoholIntake;
use vstd::prelude::*;

verus! {

/// Intake units in one volume unit at one content unit.
pub const INTAKE_FACTOR: u128 = 8;

/// Volume units in a millilitre.
pub const AMOUNT_SCALE: u64 = 1000;

/// Content units in a percent.
pub const PERCENT_SCALE: u32 = 1000;

/// Intake units in a gram.
pub const INTAKE_SCALE: u128 = 1_000_000_000;

/// One drink of a post: how much of it, and how strong it is where known.
#[derive(Clone, Copy, Debug, PartialEq, Eq)]
pub struct Serving {
    pub amount: u64,
    pub alcohol_content: Option<u32>,
}

impl View for Serving {
    type V = Serving;

    open spec fn view(&self) -> Serving {
        *self
    }
}

impl DeepView for Serving {
    type V = Serving;

    open spec fn deep_view(&self) -> Serving {
        *self
    }
}

/// What the statistics read of one post: its date and its drinks.
#[derive(Clone, Debug)]
pub struct IntakeEntry {
    pub date: String,
    pub servings: Vec<Serving>,
}

/// What an `IntakeEntry` stands for.
pub struct IntakeEntryView {
    pub date: Seq<char>,
    pub servings: Seq<Serving>,
}

impl View for IntakeEntry {
    type V = IntakeEntryView;

    open spec fn view(&self) -> IntakeEntryView {
        IntakeEntryView { date: self.date@, servings: self.servings@ }
    }
}

impl DeepView for IntakeEntry {
    type V = IntakeEntryView;

    open spec fn deep_view(&self) -> IntakeEntryView {
        self@
    }
}

/// The alcohol of one serving. A drink of unknown or zero content holds none.
pub open spec fn serving_intake(s: Serving) -> nat {
    match s.alcohol_content {
        Some(content) => if content > 0 {
            (s.amount * content * INTAKE_FACTOR) as nat
        } else {
            0
        },
        None => 0,
    }
}

/// The alcohol of all of `servings`.
pub open spec fn servings_intake(servings: Seq<Serving>) -> nat
    decreases servings.len(),
{
    if servings.len() == 0 {
        0
    } else {
        servings_intake(servings.drop_last()) + serving_intake(servings.last())
    }
}

/// The alcohol of all servings of all of `entries`.
pub open spec fn entries_intake(entries: Seq<IntakeEntryView>) -> nat
    decreases entries.len(),
{
    if entries.len() == 0 {
        0
    } else {
        entries_intake(entries.drop_last()) + servings_intake(entries.last().servings)
    }
}

/// The dates of `entries`, each once.
pub open spec fn entry_dates(entries: Seq<IntakeEntryView>) -> Set<Seq<char>> {
    Seq::new(entries.len(), |i: int| entries[i].date).to_set()
}

/// The statistics of `month` in `year` over `entries`, the posts of that
/// month; none where the total exceeds `u128::MAX`. The average divides the
/// total by the length of the whole month, whatever the number of days with
/// a post.
pub open spec fn summary_of(entries: Seq<IntakeEntryView>, year: int, month: int) -> Option<
    MonthlyAlcoholIntake,
> {
    if entries_intake(entries) <= u128::MAX {
        Some(
            MonthlyAlcoholIntake {
                total_intake: entries_intake(entries) as u128,
                average_per_day: (entries_intake(entries) / (month_length(year, month) as nat))
                    as u128,
                drinking_days: entry_dates(entries).len() as u64,
            },
        )
    } else {
        None
    }
}

/// The intake of a prefix is at most that of the whole.
pub proof fn lemma_servings_intake_prefix(servings: Seq<Serving>, n: int)
    requires
        0 <= n <= servings.len(),
    ensures
        servings_intake(servings.take(n)) <= servings_intake(servings),
    decreases servings.len(),
{
    if n == servings.len() {
        assert(servings.take(n) =~= servings);
    } else {
        assert(servings.drop_last().take(n) =~= servings.take(n));
        lemma_servings_intake_prefix(servings.drop_last(), n);
    }
}

/// The intake of a prefix of the entries is at most that of all of them.
pub proof fn lemma_entries_intake_prefix(entries: Seq<IntakeEntryView>, n: int)
    requires
        0 <= n <= entries.len(),
    ensures
        entries_intake(entries.take(n)) <= entries_intake(entries),
    decreases entries.len(),
{
    if n == entries.len() {
        assert(entries.take(n) =~= entries);
    } else {
        assert(entries.drop_last().take(n) =~= entries.take(n));
        lemma_entries_intake_prefix(entries.drop_last(), n);
    }
}

/// The alcohol of one serving.
pub fn serving_alcohol(s: &Serving) -> (intake: u128)
    ensures
        intake == serving_intake(*s),
{
    match s.alcohol_content {
        Some(content) => {
            if content > 0 {
                assert(s.amount * content * 8 <= 0xffff_ffff_ffff_ffff * 0xffff_ffff * 8)
                    by (nonlinear_arith)
                    requires
                        0 <= s.amount <= 0xffff_ffff_ffff_ffff,
                        0 <= content <= 0xffff_ffff,
                ;
                assert(s.amount * content >= 0 && s.amount * content <= s.amount * content * 8)
                    by (nonlinear_arith)
                    requires
                        0 <= s.amount,
                        0 <= content,
                ;
                (s.amount as u128) * (content as u128) * INTAKE_FACTOR
            } else {
                0
            }
        },
        None => 0,
    }
}

/// The alcohol of all of `servings`; `None` where it exceeds `u128::MAX`.
pub fn servings_alcohol(servings: &Vec<Serving>) -> (total: Option<u128>)
    ensures
        match total {
            Some(t) => t == servings_intake(servings@),
            None => servings_intake(servings@) > u128::MAX,
        },
{
    let mut sum: u128 = 0;
    let mut i: usize = 0;
    assert(servings@.take(0) =~= Seq::<Serving>::empty());
    while i < servings.len()
        invariant
            i <= servings.len(),
            sum == servings_intake(servings@.take(i as int)),
        decreases servings.len() - i,
    {
        let one = serving_alcohol(&servings[i]);
        proof {
            assert(servings@.take(i + 1).drop_last() =~= servings@.take(i as int));
            lemma_servings_intake_prefix(servings@, i + 1);
        }
        match sum.checked_add(one) {
            Some(next) => {
                sum = next;
            },
            None => {
                return None;
            },
        }
        i = i + 1;
    }
    assert(servings@.take(i as int) =~= servings@);
    Some(sum)
}

/// The alcohol of all servings of all of `entries`; `None` where it exceeds
/// `u128::MAX`.
pub fn total_intake(entries: &Vec<IntakeEntry>) -> (total: Option<u128>)
    ensures
        match total {
            Some(t) => t == entries_intake(entries.deep_view()),
            None => entries_intake(entries.deep_view()) > u128::MAX,
        },
{
    let mut sum: u128 = 0;
    let mut i: usize = 0;
    let ghost all = entries.deep_view();
    assert(all.take(0) =~= Seq::<IntakeEntryView>::empty());
    while i < entries.len()
        invariant
            i <= entries.len(),
            all == entries.deep_view(),
            sum == entries_intake(all.take(i as int)),
        decreases entries.len() - i,
    {
        proof {
            assert(all.take(i + 1).drop_last() =~= all.take(i as int));
            assert(all.take(i + 1).last() == entries[i as int]@);
            lemma_entries_intake_prefix(all, i + 1);
        }
        let next = match servings_alcohol(&entries[i].servings) {
            Some(one) => sum.checked_add(one),
            None => None,
        };
        match next {
            Some(next) => {
                sum = next;
            },
            None => {
                return None;
            },
        }
        i = i + 1;
    }
    assert(all.take(i as int) =~= all);
    Some(sum)
}

/// Whether one of the first `n` of `entries` has the date of `entries[n]`.
fn date_seen_before(entries: &Vec<IntakeEntry>, n: usize) -> (seen: bool)
    requires
        n < entries.len(),
    ensures
        seen == entry_dates(entries.deep_view().take(n as int)).contains(entries[n as int].date@),
{
    let ghost all = entries.deep_view();
    let ghost dates = Seq::new(n as nat, |i: int| all.take(n as int)[i].date);
    let mut j: usize = 0;
    while j < n
        invariant
            j <= n < entries.len(),
            all == entries.deep_view(),
            forall|k: int| 0 <= k < j ==> entries[k].date@ != entries[n as int].date@,
            dates == Seq::new(n as nat, |i: int| all.take(n as int)[i].date),
        decreases n - j,
    {
        if entries[j].date == entries[n].date {
            assert(dates[j as int] == entries[n as int].date@);
            return true;
        }
        j = j + 1;
    }
    assert(forall|k: int| 0 <= k < n ==> dates[k] == entries[k].date@);
    assert(!dates.contains(entries[n as int].date@));
    false
}

/// The number of distinct dates among `entries`.
pub fn count_drinking_days(entries: &Vec<IntakeEntry>) -> (days: usize)
    ensures
        days == entry_dates(entries.deep_view()).len(),
{
    let mut count: usize = 0;
    let mut i: usize = 0;
    let ghost all = entries.deep_view();
    assert(Seq::new(0, |k: int| all.take(0)[k].date).to_set() =~= Set::<Seq<char>>::empty());
    while i < entries.len()
        invariant
            i <= entries.len(),
            all == entries.deep_view(),
            count <= i,
            count == entry_dates(all.take(i as int)).len(),
        decreases entries.len() - i,
    {
        let seen = date_seen_before(entries, i);
        proof {
            let before = Seq::new(i as nat, |k: int| all.take(i as int)[k].date);
            let after = Seq::new((i + 1) as nat, |k: int| all.take(i + 1)[k].date);
            assert(after =~= before.push(entries[i as int].date@));
            before.lemma_push_to_set_commute(entries[i as int].date@);
            vstd::seq_lib::seq_to_set_is_finite(before);
        }
        if !seen {
            count = count + 1;
        }
        i = i + 1;
    }
    assert(all.take(i as int) =~= all);
    count
}

/// The statistics of `month` in `year` over `entries`, the posts of that
/// month.
pub fn monthly_summary(entries: &Vec<IntakeEntry>, year: i64, month: i64) -> (summary: Option<
    MonthlyAlcoholIntake,
>)
    ensures
        summary == summary_of(entries.deep_view(), year as int, month as int),
{
    match total_intake(entries) {
        Some(total) => {
            let days = days_in_month(year, month);
            let drinking_days = count_drinking_days(entries);
            Some(
                MonthlyAlcoholIntake {
                    total_intake: total,
                    average_per_day: total / (days as u128),
                    drinking_days: drinking_days as u64,
                },
            )
        },
        None => None,
    }
}

} // verus!
