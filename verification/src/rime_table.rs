//! Whether the engine's function table reaches as far as a function that is called.

use vstd::prelude::*;

use crate::text::{decimal, decimal_of, join, signed_decimal, signed_decimal_of};

verus! {

/// A function of the engine's table that is called directly.
#[derive(Debug, Clone, Copy, PartialEq, Eq, Structural)]
pub enum TableField {
    ChangePage,
    SelectCandidateOnCurrentPage,
}

impl TableField {
    /// The name of the function.
    pub open spec fn name(self) -> Seq<char> {
        match self {
            TableField::ChangePage => "change_page"@,
            TableField::SelectCandidateOnCurrentPage => "select_candidate_on_current_page"@,
        }
    }

    /// The name of the function.
    pub fn as_str(self) -> (r: &'static str)
        ensures
            r@ == self.name(),
    {
        match self {
            TableField::ChangePage => "change_page",
            TableField::SelectCandidateOnCurrentPage => "select_candidate_on_current_page",
        }
    }
}

/// Why a function of the table cannot be called.
#[derive(Debug, Clone, Copy, PartialEq, Eq, Structural)]
pub enum TableError {
    /// There is no table.
    NullTable,
    /// The table gives a negative size of itself.
    NegativeSize { data_size: i32 },
    /// The table ends before the function.
    FieldBeyondTable { field: TableField, required: usize, available: usize },
    /// The table has no such function.
    MissingFunction { field: TableField },
}

impl TableError {
    /// What the user is told of the error.
    pub open spec fn text(self) -> Seq<char> {
        match self {
            TableError::NullTable => "librime returned a null API table"@,
            TableError::NegativeSize { data_size } =>
            "librime API table has an invalid negative data_size: "@ + signed_decimal(
                data_size as int,
            ),
            TableError::FieldBeyondTable { field, required, available } => "librime API "@
                + field.name() + " requires "@ + decimal(required as nat)
                + " table bytes, but this version exposes "@ + decimal(available as nat),
            TableError::MissingFunction { field } => "librime API "@ + field.name()
                + " is unavailable"@,
        }
    }

    /// What the user is told of the error.
    pub fn message(self) -> (r: String)
        ensures
            r@ == self.text(),
    {
        match self {
            TableError::NullTable => "librime returned a null API table".to_owned(),
            TableError::NegativeSize { data_size } => join(
                "librime API table has an invalid negative data_size: ",
                &signed_decimal_of(data_size),
            ),
            TableError::FieldBeyondTable { field, required, available } => {
                let mut out = join("librime API ", field.as_str());
                out.append(" requires ");
                out.append(&decimal_of(required));
                out.append(" table bytes, but this version exposes ");
                out.append(&decimal_of(available));
                out
            },
            TableError::MissingFunction { field } => join(
                &join("librime API ", field.as_str()),
                " is unavailable",
            ),
        }
    }
}

/// The size in bytes of the field that gives the table's own size, which does not count it.
pub const SIZE_FIELD_BYTES: usize = 4;

/// Checks that the table, which holds `data_size` bytes after its size field, reaches to the
/// end of a field of `field_size` bytes at `field_offset`.
pub fn ensure_field_available(
    data_size: i32,
    field_offset: usize,
    field_size: usize,
    field: TableField,
) -> (r: Result<(), TableError>)
    ensures
        r is Ok <==> data_size >= 0 && field_offset + field_size <= data_size + SIZE_FIELD_BYTES,
        data_size < 0 ==> r == Err::<(), TableError>(TableError::NegativeSize { data_size }),
        data_size >= 0 && r is Err ==> r == Err::<(), TableError>(
            TableError::FieldBeyondTable {
                field,
                required: if field_offset + field_size <= usize::MAX {
                    (field_offset + field_size) as usize
                } else {
                    usize::MAX
                },
                available: (data_size + SIZE_FIELD_BYTES) as usize,
            },
        ),
{
    if data_size < 0 {
        return Err(TableError::NegativeSize { data_size });
    }
    let available: usize = data_size as usize + SIZE_FIELD_BYTES;
    let required = field_offset.saturating_add(field_size);
    if required > available {
        return Err(TableError::FieldBeyondTable { field, required, available });
    }
    Ok(())
}

} // verus!
