//! Address books and their cards: the records of the address-book profile.

pub mod get;

use crate::schema::DeadProperty;
use crate::token::AclGrant;
use vstd::prelude::*;

verus! {

/// An address book: a container of cards.
#[derive(Debug)]
pub struct AddressBook {
    pub name: String,
    pub display_name: Option<String>,
    pub description: Option<String>,
    pub sort_order: u32,
    pub is_default: bool,
    pub acls: Vec<AclGrant>,
    pub dead_properties: DeadProperty,
    pub created: i64,
    pub modified: i64,
}

/// A card of an address book.
#[derive(Debug)]
pub struct ContactCard {
    pub display_name: Option<String>,
    /// The vCard as text.
    pub card: String,
    pub dead_properties: DeadProperty,
    pub created: i64,
    pub modified: i64,
    pub size: u32,
}

} // verus!
