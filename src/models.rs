//! Records of the user relation, as the storage collaborator hands them over.

use vstd::prelude::*;

verus! {

/// A stored user: its id, assigned by storage, its unique name and its password hash.
pub struct DbUser {
    pub id: i32,
    pub name: String,
    pub passhash: String,
}

/// A user about to be inserted; storage assigns the id.
pub struct InsUser {
    pub name: String,
    pub passhash: String,
}

} // verus!
