//! Who is asking: the access token of an authenticated principal, and the
//! rights that grants on a container give it.

use vstd::prelude::*;

verus! {

/// The typed record families of the store. Containers and items come in
/// pairs: calendars hold events, address books hold cards, and a file node is
/// its own peer.
#[derive(Debug, Clone, Copy, PartialEq, Eq, Structural)]
pub enum Collection {
    Principal,
    Calendar,
    CalendarEvent,
    AddressBook,
    ContactCard,
    FileNode,
}

impl Collection {
    /// The collection of the items that a container of this collection holds.
    pub open spec fn spec_item_peer(self) -> Collection {
        match self {
            Collection::Calendar => Collection::CalendarEvent,
            Collection::AddressBook => Collection::ContactCard,
            c => c,
        }
    }

    /// The collection of the items that a container of this collection holds.
    pub fn item_peer(self) -> (r: Collection)
        ensures
            r == self.spec_item_peer(),
    {
        match self {
            Collection::Calendar => Collection::CalendarEvent,
            Collection::AddressBook => Collection::ContactCard,
            c => c,
        }
    }
}

/// A right that a grant can give on a container.
#[derive(Debug, Clone, Copy, PartialEq, Eq, Structural)]
pub enum Acl {
    Read,
    Modify,
    Delete,
    ReadItems,
    AddItems,
    ModifyItems,
    RemoveItems,
    CreateChild,
    Administer,
}

impl Acl {
    /// The bit that stands for this right in a rights mask.
    pub open spec fn spec_bit(self) -> u32 {
        match self {
            Acl::Read => 0x1,
            Acl::Modify => 0x2,
            Acl::Delete => 0x4,
            Acl::ReadItems => 0x8,
            Acl::AddItems => 0x10,
            Acl::ModifyItems => 0x20,
            Acl::RemoveItems => 0x40,
            Acl::CreateChild => 0x80,
            Acl::Administer => 0x100,
        }
    }

    /// The bit that stands for this right in a rights mask.
    pub fn bit(self) -> (r: u32)
        ensures
            r == self.spec_bit(),
    {
        match self {
            Acl::Read => 0x1,
            Acl::Modify => 0x2,
            Acl::Delete => 0x4,
            Acl::ReadItems => 0x8,
            Acl::AddItems => 0x10,
            Acl::ModifyItems => 0x20,
            Acl::RemoveItems => 0x40,
            Acl::CreateChild => 0x80,
            Acl::Administer => 0x100,
        }
    }
}

/// The rights that one principal was given on a container.
#[derive(Debug, Clone, Copy, PartialEq, Eq, Structural)]
pub struct AclGrant {
    pub account_id: u32,
    pub rights: u32,
}

/// The collections of another account that a token may enter.
#[derive(Debug)]
pub struct AccessGrant {
    pub account_id: u32,
    pub collections: Vec<Collection>,
}

/// An authenticated principal: its own account, the accounts it is a member
/// of, and the collections of other accounts that were shared with it.
#[derive(Debug)]
pub struct AccessToken {
    pub primary_id: u32,
    pub name: String,
    pub member_of: Vec<u32>,
    pub access_to: Vec<AccessGrant>,
}

impl AccessToken {
    /// The token speaks for `account_id`: it is its own account or one it is
    /// a member of.
    pub open spec fn spec_is_member(&self, account_id: u32) -> bool {
        self.primary_id == account_id || self.member_of@.contains(account_id)
    }

    /// The token may enter `collection` of `account_id`.
    pub open spec fn spec_has_access(&self, account_id: u32, collection: Collection) -> bool {
        self.spec_is_member(account_id) || exists|i: int|
            0 <= i < self.access_to@.len() && (#[trigger] self.access_to@[i]).account_id
                == account_id && self.access_to@[i].collections@.contains(collection)
    }

    /// The union of the rights that `grants` give to the accounts that the
    /// token speaks for, over the first `n` grants.
    pub open spec fn spec_rights(&self, grants: Seq<AclGrant>, n: int) -> u32
        decreases n,
    {
        if n <= 0 {
            0
        } else if self.spec_is_member(grants[n - 1].account_id) {
            self.spec_rights(grants, n - 1) | grants[n - 1].rights
        } else {
            self.spec_rights(grants, n - 1)
        }
    }

    /// The rights that `grants` give to this token.
    pub open spec fn spec_effective_acl(&self, grants: Seq<AclGrant>) -> u32 {
        self.spec_rights(grants, grants.len() as int)
    }

    /// Whether the token speaks for `account_id`.
    pub fn is_member(&self, account_id: u32) -> (r: bool)
        ensures
            r == self.spec_is_member(account_id),
    {
        if self.primary_id == account_id {
            return true;
        }
        let mut i: usize = 0;
        while i < self.member_of.len()
            invariant
                i <= self.member_of.len(),
                forall|j: int| 0 <= j < i ==> self.member_of@[j] != account_id,
            decreases self.member_of.len() - i,
        {
            if self.member_of[i] == account_id {
                return true;
            }
            i += 1;
        }
        false
    }

    /// Whether the token may enter `collection` of `account_id`.
    pub fn has_access(&self, account_id: u32, collection: Collection) -> (r: bool)
        ensures
            r == self.spec_has_access(account_id, collection),
    {
        if self.is_member(account_id) {
            return true;
        }
        let mut i: usize = 0;
        while i < self.access_to.len()
            invariant
                i <= self.access_to.len(),
                forall|j: int|
                    0 <= j < i ==> !((#[trigger] self.access_to@[j]).account_id == account_id
                        && self.access_to@[j].collections@.contains(collection)),
            decreases self.access_to.len() - i,
        {
            if self.access_to[i].account_id == account_id {
                let cols = &self.access_to[i].collections;
                let mut k: usize = 0;
                while k < cols.len()
                    invariant
                        k <= cols.len(),
                        i < self.access_to.len(),
                        cols@ == self.access_to@[i as int].collections@,
                        self.access_to@[i as int].account_id == account_id,
                        forall|j: int| 0 <= j < k ==> cols@[j] != collection,
                    decreases cols.len() - k,
                {
                    if cols[k] == collection {
                        assert(self.access_to@[i as int].collections@.contains(collection));
                        return true;
                    }
                    k += 1;
                }
            }
            i += 1;
        }
        false
    }

    /// The token holds `acl` on a resource of `account_id` with the grants
    /// `grants`: it speaks for the account, or the grants give it the
    /// right.
    pub open spec fn spec_has_access_to_document(
        &self,
        account_id: u32,
        grants: Seq<AclGrant>,
        acl: Acl,
    ) -> bool {
        self.spec_is_member(account_id) || spec_holds(self.spec_effective_acl(grants), acl)
    }

    /// Whether the token holds `acl` on a resource of `account_id` with the
    /// grants `grants`.
    pub fn has_access_to_document(&self, account_id: u32, grants: &Vec<AclGrant>, acl: Acl) -> (r:
        bool)
        ensures
            r == self.spec_has_access_to_document(account_id, grants@, acl),
    {
        self.is_member(account_id) || holds(self.effective_acl(grants), acl)
    }

    /// The rights that `grants` give to this token.
    pub fn effective_acl(&self, grants: &Vec<AclGrant>) -> (r: u32)
        ensures
            r == self.spec_effective_acl(grants@),
    {
        let mut rights: u32 = 0;
        let mut i: usize = 0;
        while i < grants.len()
            invariant
                i <= grants.len(),
                rights == self.spec_rights(grants@, i as int),
            decreases grants.len() - i,
        {
            if self.is_member(grants[i].account_id) {
                rights = rights | grants[i].rights;
            }
            i += 1;
        }
        rights
    }
}

/// Whether the rights mask `rights` holds `acl`.
pub open spec fn spec_holds(rights: u32, acl: Acl) -> bool {
    rights & acl.spec_bit() != 0
}

/// Whether the rights mask `rights` holds `acl`.
pub fn holds(rights: u32, acl: Acl) -> (r: bool)
    ensures
        r == spec_holds(rights, acl),
{
    rights & acl.bit() != 0
}

} // verus!
