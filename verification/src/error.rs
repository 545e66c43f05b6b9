//! The failures that the operations of this library report.

use crate::text::append_zero_padded;
use crate::text::zero_padded;
use vstd::prelude::*;
use vstd::string::StringExecFns;

verus! {

/// A kind of record.
#[derive(Clone, Copy, Debug, PartialEq, Eq)]
pub enum Entity {
    Category,
    Beverage,
}

/// What is wrong with an input.
#[derive(Clone, Copy, Debug, PartialEq, Eq)]
pub enum InputFault {
    /// A name is empty once its surrounding whitespace is removed.
    EmptyName,
    /// A volume is too large to be stored.
    AmountOutOfRange,
}

/// Why an operation failed.
#[derive(Clone, Debug)]
pub enum AppError {
    /// The input was refused before anything was written.
    InvalidInput(InputFault),
    /// A record that the operation refers to does not exist.
    NotFound(Entity),
    /// Another record of this kind has the name already.
    DuplicateName(Entity),
    /// The record cannot be deleted: `count` other records refer to it.
    InUse { entity: Entity, count: i64 },
    /// The storage engine failed, or answered with rows of another shape
    /// than the statement asks for. The text says what happened.
    StorageError(String),
    /// The database could not be opened, migrated or initialised.
    SchemaError(String),
}

impl AppError {
    /// What `message` says.
    pub open spec fn message_text(self) -> Seq<char> {
        match self {
            AppError::InvalidInput(InputFault::EmptyName) => "名称を入力してください"@,
            AppError::InvalidInput(InputFault::AmountOutOfRange) => "量が大きすぎます"@,
            AppError::NotFound(Entity::Category) => "指定されたカテゴリーが見つかりません"@,
            AppError::NotFound(Entity::Beverage) => "指定されたお酒が見つかりません"@,
            AppError::DuplicateName(Entity::Category) => "同じ名称のカテゴリーが既にあります"@,
            AppError::DuplicateName(Entity::Beverage) => "同じ名称のお酒が既にあります"@,
            AppError::InUse { entity: Entity::Category, count } => "このカテゴリーは"@ + zero_padded(
                count as int,
                0,
            ) + "件のお酒で使用されているため削除できません"@,
            AppError::InUse { entity: Entity::Beverage, count } => "このお酒は"@ + zero_padded(
                count as int,
                0,
            ) + "件の投稿で使用されているため削除できません"@,
            AppError::StorageError(text) => text@,
            AppError::SchemaError(text) => text@,
        }
    }

    /// The failure in words, for the one who uses the application.
    pub fn message(&self) -> (text: String)
        ensures
            text@ == self.message_text(),
    {
        match self {
            AppError::InvalidInput(InputFault::EmptyName) => "名称を入力してください".to_string(),
            AppError::InvalidInput(InputFault::AmountOutOfRange) => "量が大きすぎます".to_string(),
            AppError::NotFound(Entity::Category) => "指定されたカテゴリーが見つかりません".to_string(),
            AppError::NotFound(Entity::Beverage) => "指定されたお酒が見つかりません".to_string(),
            AppError::DuplicateName(Entity::Category) => "同じ名称のカテゴリーが既にあります".to_string(),
            AppError::DuplicateName(Entity::Beverage) => "同じ名称のお酒が既にあります".to_string(),
            AppError::InUse { entity: Entity::Category, count } => {
                let mut text = "このカテゴリーは".to_string();
                append_zero_padded(&mut text, *count as i128, 0);
                text.append("件のお酒で使用されているため削除できません");
                text
            },
            AppError::InUse { entity: Entity::Beverage, count } => {
                let mut text = "このお酒は".to_string();
                append_zero_padded(&mut text, *count as i128, 0);
                text.append("件の投稿で使用されているため削除できません");
                text
            },
            AppError::StorageError(text) => text.clone(),
            AppError::SchemaError(text) => text.clone(),
        }
    }
}

} // verus!
