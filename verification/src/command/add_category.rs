//! Adding categories.

use vstd::prelude::*;

use crate::command::common::{category_type_at, category_type_by_index};
use crate::command::Question;
use crate::error::{Error, ErrorKind};
use crate::storage::CategoryType;

verus! {

/// The command that adds categories.
pub struct AddCategory;

/// A category as the user entered it.
#[derive(Debug, PartialEq, Eq)]
pub struct CategoryDraft {
    pub name: String,
    pub category_type: CategoryType,
}

impl AddCategory {
    /// The question whether another category is to be added.
    pub fn needs_another_category() -> (question: Question<'static>)
        ensures
            question.prompt@ == "Do you want to add another category?"@,
            question.default,
    {
        Question { prompt: "Do you want to add another category?", default: true }
    }

    /// The category that the user entered: the type selected from the list
    /// of types, and the name.
    ///
    /// Fails with `ValueOutOfRange` where the list has no such place.
    pub fn input_category(selection: usize, name: String) -> (result: Result<CategoryDraft, Error>)
        ensures
            match category_type_at(selection as int) {
                Some(category_type) => result == Ok::<CategoryDraft, Error>(
                    CategoryDraft { name, category_type },
                ),
                None => result is Err && result->Err_0.kind == ErrorKind::ValueOutOfRange,
            },
    {
        match category_type_by_index(selection) {
            Ok(category_type) => Ok(CategoryDraft { name, category_type }),
            Err(error) => Err(error),
        }
    }
}

} // verus!
