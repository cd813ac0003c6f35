//! The persons that the report covers, as the data store holds them.

use crate::identity::PersonId;
use vstd::prelude::*;

verus! {

/// A person's sex as recorded; the report does not read it.
#[derive(Clone, Copy, Debug, PartialEq, Eq, Structural, Hash)]
pub enum UserSex {
    Male,
    Female,
    Unknown,
}

/// A person: native identity, number, display name and group memberships.
pub struct User {
    pub _id: PersonId,
    pub id: String,
    pub name: String,
    pub group: Vec<PersonId>,
    pub password: String,
}

} // verus!
