use vstd::prelude::*;

verus! {

/// The failures a storage operation can report: a lookup with no match, or a
/// violated table constraint (duplicate primary key, missing referenced post).
#[derive(Clone, Copy, Debug, PartialEq, Eq, Structural)]
pub enum ServiceError {
    NotFound,
    UniqueViolation,
    ForeignKeyViolation,
}

} // verus!
