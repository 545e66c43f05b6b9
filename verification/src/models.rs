//! The records that the operations take and return.
//!
//! A volume (`amount`) counts thousandths of a millilitre and an alcohol
//! content thousandths of a percent.

use vstd::prelude::*;

verus! {

/// What an optional text stands for.
pub open spec fn text_of(text: Option<String>) -> Option<Seq<char>> {
    match text {
        Some(s) => Some(s@),
        None => None,
    }
}

/// A post as it is stored: one drinking occasion on a calendar day.
#[derive(Clone, Debug)]
pub struct Post {
    pub id: Option<i64>,
    pub date: String,
    pub comment: Option<String>,
    pub created_at: Option<String>,
    pub updated_at: Option<String>,
}

/// A drink of a post, with what the beverage is called and how strong it
/// is at the time of the query.
#[derive(Clone, Debug)]
pub struct BeverageAmount {
    pub beverage_id: i64,
    pub beverage_name: String,
    pub amount: u64,
    pub alcohol_content: Option<u32>,
}

/// What a `BeverageAmount` stands for.
pub struct BeverageAmountView {
    pub beverage_id: i64,
    pub beverage_name: Seq<char>,
    pub amount: u64,
    pub alcohol_content: Option<u32>,
}

impl View for BeverageAmount {
    type V = BeverageAmountView;

    open spec fn view(&self) -> BeverageAmountView {
        BeverageAmountView {
            beverage_id: self.beverage_id,
            beverage_name: self.beverage_name@,
            amount: self.amount,
            alcohol_content: self.alcohol_content,
        }
    }
}

impl DeepView for BeverageAmount {
    type V = BeverageAmountView;

    open spec fn deep_view(&self) -> BeverageAmountView {
        self@
    }
}

/// A post with its drinks.
#[derive(Clone, Debug)]
pub struct PostWithBeverages {
    pub id: i64,
    pub date: String,
    pub comment: Option<String>,
    pub created_at: String,
    pub updated_at: String,
    pub beverages: Vec<BeverageAmount>,
}

/// What a `PostWithBeverages` stands for.
pub struct PostWithBeveragesView {
    pub id: i64,
    pub date: Seq<char>,
    pub comment: Option<Seq<char>>,
    pub created_at: Seq<char>,
    pub updated_at: Seq<char>,
    pub beverages: Seq<BeverageAmountView>,
}

impl View for PostWithBeverages {
    type V = PostWithBeveragesView;

    open spec fn view(&self) -> PostWithBeveragesView {
        PostWithBeveragesView {
            id: self.id,
            date: self.date@,
            comment: text_of(self.comment),
            created_at: self.created_at@,
            updated_at: self.updated_at@,
            beverages: self.beverages.deep_view(),
        }
    }
}

impl DeepView for PostWithBeverages {
    type V = PostWithBeveragesView;

    open spec fn deep_view(&self) -> PostWithBeveragesView {
        self@
    }
}

/// One drink of a post that is to be written.
#[derive(Clone, Copy, Debug, PartialEq, Eq)]
pub struct BeverageAmountInput {
    pub beverage_id: i64,
    pub amount: u64,
}

/// A post that is to be written, with its drinks.
#[derive(Clone, Debug)]
pub struct CreatePostRequest {
    pub date: String,
    pub comment: Option<String>,
    pub beverages: Vec<BeverageAmountInput>,
}

/// A category of beverages.
#[derive(Clone, Debug)]
pub struct Category {
    pub id: i64,
    pub name: String,
    pub display_order: i64,
    pub created_at: Option<String>,
    pub updated_at: Option<String>,
}

/// What a `Category` stands for.
pub struct CategoryView {
    pub id: i64,
    pub name: Seq<char>,
    pub display_order: i64,
    pub created_at: Option<Seq<char>>,
    pub updated_at: Option<Seq<char>>,
}

impl View for Category {
    type V = CategoryView;

    open spec fn view(&self) -> CategoryView {
        CategoryView {
            id: self.id,
            name: self.name@,
            display_order: self.display_order,
            created_at: text_of(self.created_at),
            updated_at: text_of(self.updated_at),
        }
    }
}

impl DeepView for Category {
    type V = CategoryView;

    open spec fn deep_view(&self) -> CategoryView {
        self@
    }
}

/// A category that is to be created. Without a `display_order` it gets 0.
#[derive(Clone, Debug)]
pub struct CreateCategoryRequest {
    pub name: String,
    pub display_order: Option<i64>,
}

/// A beverage, with the name of its category.
#[derive(Clone, Debug)]
pub struct Beverage {
    pub id: i64,
    pub name: String,
    pub alcohol_content: Option<u32>,
    pub category_id: i64,
    pub category_name: Option<String>,
    pub created_at: Option<String>,
    pub updated_at: Option<String>,
}

/// What a `Beverage` stands for.
pub struct BeverageView {
    pub id: i64,
    pub name: Seq<char>,
    pub alcohol_content: Option<u32>,
    pub category_id: i64,
    pub category_name: Option<Seq<char>>,
    pub created_at: Option<Seq<char>>,
    pub updated_at: Option<Seq<char>>,
}

impl View for Beverage {
    type V = BeverageView;

    open spec fn view(&self) -> BeverageView {
        BeverageView {
            id: self.id,
            name: self.name@,
            alcohol_content: self.alcohol_content,
            category_id: self.category_id,
            category_name: text_of(self.category_name),
            created_at: text_of(self.created_at),
            updated_at: text_of(self.updated_at),
        }
    }
}

impl DeepView for Beverage {
    type V = BeverageView;

    open spec fn deep_view(&self) -> BeverageView {
        self@
    }
}

/// A beverage that is to be written.
#[derive(Clone, Debug)]
pub struct CreateBeverageRequest {
    pub name: String,
    pub alcohol_content: Option<u32>,
    pub category_id: i64,
}

/// The statistics of one month. Intakes count billionths of a gram.
#[derive(Clone, Copy, Debug, PartialEq, Eq)]
pub struct MonthlyAlcoholIntake {
    /// All alcohol of the month.
    pub total_intake: u128,
    /// The total over the days of the whole month, rounded down.
    pub average_per_day: u128,
    /// The number of distinct dates with a post.
    pub drinking_days: u64,
}

} // verus!
