//! Filters for listings and switches for drops.

use vstd::prelude::*;

verus! {

/// Which tabulars a listing or a lookup takes into account.
#[derive(Debug, Clone, Copy, PartialEq, Eq, Structural)]
pub struct ListFlags {
    pub include_active: bool,
    pub include_staged: bool,
    pub include_deleted: bool,
}

impl Default for ListFlags {
    /// Active tabulars only.
    fn default() -> (flags: Self)
        ensures
            flags.include_active,
            !flags.include_staged,
            !flags.include_deleted,
    {
        Self { include_active: true, include_staged: false, include_deleted: false }
    }
}

impl ListFlags {
    /// Active, staged and soft-deleted tabulars alike.
    #[must_use]
    pub fn all() -> (flags: Self)
        ensures
            flags.include_active,
            flags.include_staged,
            flags.include_deleted,
    {
        Self { include_staged: true, include_deleted: true, include_active: true }
    }

    /// Soft-deleted tabulars and nothing else.
    #[must_use]
    pub fn only_deleted() -> (flags: Self)
        ensures
            !flags.include_active,
            !flags.include_staged,
            flags.include_deleted,
    {
        Self { include_staged: false, include_deleted: true, include_active: false }
    }
}

/// How a tabular is dropped.
#[derive(Debug, Clone, Copy, PartialEq, Eq, Structural)]
pub struct DropFlags {
    pub hard_delete: bool,
    pub purge: bool,
}

impl Default for DropFlags {
    /// A soft drop without purge.
    fn default() -> (flags: Self)
        ensures
            !flags.hard_delete,
            !flags.purge,
    {
        Self { hard_delete: false, purge: false }
    }
}

impl DropFlags {
    /// The same flags with `purge` switched on.
    #[must_use]
    pub fn purge(self) -> (flags: Self)
        ensures
            flags.purge,
            flags.hard_delete == self.hard_delete,
    {
        Self { hard_delete: self.hard_delete, purge: true }
    }

    /// The same flags with `hard_delete` switched on.
    #[must_use]
    pub fn hard_delete(self) -> (flags: Self)
        ensures
            flags.hard_delete,
            flags.purge == self.purge,
    {
        Self { hard_delete: true, purge: self.purge }
    }
}

} // verus!
