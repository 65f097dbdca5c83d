//! What several commands share.

use vstd::prelude::*;

use crate::error::{kind_text, Error, ErrorKind};
use crate::storage::{CategoryType, Row};
use crate::text::{decimal, decimal_text};

verus! {

/// The type of category that stands at an index of `category_types`.
pub open spec fn category_type_at(idx: int) -> Option<CategoryType> {
    if idx == 0 {
        Some(CategoryType::Income)
    } else if idx == 1 {
        Some(CategoryType::Outcome)
    } else {
        None
    }
}

/// The name of a type of category.
pub open spec fn category_type_name(category_type: CategoryType) -> Seq<char> {
    match category_type {
        CategoryType::Income => "Income"@,
        CategoryType::Outcome => "Outcome"@,
    }
}

/// The names of all types of category, in the order of their indices.
pub fn category_types() -> (names: Vec<&'static str>)
    ensures
        names@.len() == 2,
        forall|idx: int|
            0 <= idx < 2 ==> (#[trigger] names@[idx])@ == category_type_name(
                category_type_at(idx)->0,
            ),
{
    let mut names: Vec<&'static str> = Vec::new();
    names.push("Income");
    names.push("Outcome");
    names
}

/// Whether the error is the one for an index that names no type of
/// category: of the kind `ValueOutOfRange`, with the text of that kind as
/// its message and the index as its extra information.
pub open spec fn is_bad_index(error: Error, idx: int) -> bool {
    &&& error.kind == ErrorKind::ValueOutOfRange
    &&& error.message@ == kind_text(ErrorKind::ValueOutOfRange)
    &&& error.extra is Some
    &&& error.extra->0@ == "index: "@ + decimal(idx as nat)
}

/// The type of category at an index of `category_types`.
///
/// Fails with `ValueOutOfRange`, and names the index, for any other index.
pub fn category_type_by_index(idx: usize) -> (result: Result<CategoryType, Error>)
    ensures
        match category_type_at(idx as int) {
            Some(category_type) => result == Ok::<CategoryType, Error>(category_type),
            None => result is Err && is_bad_index(result->Err_0, idx as int),
        },
{
    if idx == 0 {
        Ok(CategoryType::Income)
    } else if idx == 1 {
        Ok(CategoryType::Outcome)
    } else {
        let note = "index: ".to_owned().concat(decimal_text(idx as u64).as_str());
        Err(Error::with_extra(ErrorKind::ValueOutOfRange, note.as_str()))
    }
}

/// The name of a type of category.
pub fn category_type_to_string(category_type: CategoryType) -> (name: String)
    ensures
        name@ == category_type_name(category_type),
{
    match category_type {
        CategoryType::Income => "Income".to_owned(),
        CategoryType::Outcome => "Outcome".to_owned(),
    }
}

/// Gives an amount the sign that the type of its category asks for: not
/// negative for income, not positive for outcome.
pub fn normalize_amount_by_category(amount: isize, category_type: CategoryType) -> (normalized: isize)
    requires
        amount > isize::MIN,
    ensures
        normalized == category_type.signed(amount as int),
{
    category_type.normalize(amount)
}

/// Gives an amount the sign that the type of its category asks for, if the
/// amount has an opposite.
pub fn normalized_amount(amount: isize, category_type: CategoryType) -> (result: Result<isize, Error>)
    ensures
        amount > isize::MIN ==> result == Ok::<isize, Error>(
            category_type.signed(amount as int) as isize,
        ),
        amount == isize::MIN ==> result is Err && result->Err_0.kind == ErrorKind::ValueOutOfRange,
{
    if amount == isize::MIN {
        Err(Error::new(ErrorKind::ValueOutOfRange))
    } else {
        Ok(normalize_amount_by_category(amount, category_type))
    }
}

/// The row that the user selected from a list.
///
/// Fails with `ValueOutOfRange` where the list has no such place.
pub fn selected<R: Row>(rows: &Vec<R>, selection: usize) -> (result: Result<&R, Error>)
    ensures
        selection < rows.len() ==> result is Ok && *result->Ok_0 == rows@[selection as int],
        selection >= rows.len() ==> result is Err && result->Err_0.kind
            == ErrorKind::ValueOutOfRange,
{
    if selection < rows.len() {
        Ok(&rows[selection])
    } else {
        Err(Error::new(ErrorKind::ValueOutOfRange))
    }
}

} // verus!
