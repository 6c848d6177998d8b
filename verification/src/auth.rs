//! Authentication: the user table and the login command.
//!
//! Passwords are stored only as adaptive hashes.  Whether a password matches
//! a stored hash is decided by the hashing library; the library's verdict is
//! named [`bcrypt_matches`], a function of the password and the hash alone.

use vstd::prelude::*;

use crate::domain::User;
use crate::domain::UserRow;
use crate::error::CmdError;
use crate::store::user_id_key;
use crate::store::user_name_key;
use crate::store::Store;
use crate::strcmp::str_eq;

verus! {

/// Whether `bcrypt` accepts the password `pw` against the stored hash `hash`.
/// The verification recomputes the hash from the salt and cost embedded in
/// `hash`, so the verdict depends on the two arguments alone.
pub uninterp spec fn bcrypt_matches(pw: Seq<char>, hash: Seq<char>) -> bool;

/// Relies on `bcrypt::hash` with the library's default cost: the result is a
/// hash that `bcrypt::verify` accepts for the same password, because
/// verification re-derives the hash from the salt and cost stored in it, and
/// it always renders in the fixed 60-character ASCII form of a bcrypt hash.
/// The salt is random, so nothing else is promised of the result.
#[verifier::external_body]
pub fn hash_password(pw: &str) -> (r: Result<String, String>)
    ensures
        r matches Ok(h) ==> bcrypt_matches(pw@, h@) && h@.len() == 60,
{
    match bcrypt::hash(pw, bcrypt::DEFAULT_COST) {
        Ok(h) => Ok(h),
        Err(e) => Err(e.to_string()),
    }
}

/// Relies on `bcrypt::verify`: returns the library's verdict on the password
/// against the hash.  A malformed hash counts as a mismatch, so a
/// verification error surfaces as failed credentials.
#[verifier::external_body]
pub fn verify_password(pw: &str, hash: &str) -> (r: bool)
    ensures
        r == bcrypt_matches(pw@, hash@),
{
    bcrypt::verify(pw, hash).unwrap_or(false)
}

/// The first user row carrying the given username, if any.
pub open spec fn user_with(s: Seq<UserRow>, name: Seq<char>) -> Option<UserRow>
    decreases s.len(),
{
    if s.len() == 0 {
        None
    } else if s[0].username@ == name {
        Some(s[0])
    } else {
        user_with(s.skip(1), name)
    }
}

impl Store {
    /// Inserts a user row; used by the bootstrap seed.  Mirrors the engine's
    /// unique checks on the identifier and the username.
    pub fn create_user_row(
        &mut self,
        id: String,
        username: String,
        password: String,
        role: String,
        created_at: String,
    ) -> (r: Result<(), CmdError>)
        requires
            old(self).wf(),
        ensures
            final(self).wf(),
            final(self).clients == old(self).clients,
            final(self).next_client_id == old(self).next_client_id,
            final(self).products == old(self).products,
            final(self).categories == old(self).categories,
            final(self).subcategories == old(self).subcategories,
            final(self).invoices == old(self).invoices,
            final(self).invoice_items == old(self).invoice_items,
            final(self).deliveries == old(self).deliveries,
            final(self).delivery_items == old(self).delivery_items,
            final(self).warehouse_groups == old(self).warehouse_groups,
            final(self).warehouse_items == old(self).warehouse_items,
            final(self).suppliers == old(self).suppliers,
            final(self).next_supplier_id == old(self).next_supplier_id,
            final(self).supplier_sectors == old(self).supplier_sectors,
            final(self).supplier_products == old(self).supplier_products,
            final(self).countries == old(self).countries,
            match r {
                Ok(u) => {
                    &&& forall|i: int|
                        0 <= i < old(self).users@.len() ==> (#[trigger] old(self).users@[i]).id@
                            != id@
                    &&& forall|i: int|
                        0 <= i < old(self).users@.len() ==> (#[trigger] old(
                            self,
                        ).users@[i]).username@ != username@
                    &&& final(self).users@ == old(self).users@.push(
                        (UserRow {
                            id: id,
                            username: username,
                            password: password,
                            role: role,
                            created_at: created_at,
                        }),
                    )
                },
                Err(e) => {
                    &&& *final(self) == *old(self)
                    &&& e matches CmdError::StorageError(m)
                    &&& (exists|i: int|
                        0 <= i < old(self).users@.len() && (#[trigger] old(self).users@[i]).id@
                            == id@) || (exists|i: int|
                        0 <= i < old(self).users@.len() && (#[trigger] old(
                            self,
                        ).users@[i]).username@ == username@)
                },
            },
    {
        let n = self.users.len();
        let mut i: usize = 0;
        while i < n
            invariant
                i <= n,
                n == self.users@.len(),
                self.wf(),
                forall|j: int| 0 <= j < i ==> (#[trigger] self.users@[j]).id@ != id@,
            decreases n - i,
        {
            if str_eq(self.users[i].id.as_str(), id.as_str()) {
                return Err(
                    CmdError::StorageError(String::from_str("UNIQUE constraint failed: users.id")),
                );
            }
            i = i + 1;
        }
        let mut i: usize = 0;
        while i < n
            invariant
                i <= n,
                n == self.users@.len(),
                self.wf(),
                forall|j: int| 0 <= j < i ==> (#[trigger] self.users@[j]).username@ != username@,
                forall|j: int| 0 <= j < n ==> (#[trigger] self.users@[j]).id@ != id@,
            decreases n - i,
        {
            if str_eq(self.users[i].username.as_str(), username.as_str()) {
                return Err(
                    CmdError::StorageError(
                        String::from_str("UNIQUE constraint failed: users.username"),
                    ),
                );
            }
            i = i + 1;
        }
        let row = UserRow {
            id: id,
            username: username,
            password: password,
            role: role,
            created_at: created_at,
        };
        proof {
            let s = self.users@;
            let t = s.push(row);
            assert forall|i: int, j: int| 0 <= i < j < t.len() implies user_id_key()(
                #[trigger] t[i],
            ) != user_id_key()(#[trigger] t[j]) by {
                if j < s.len() {
                    assert(user_id_key()(s[i]) != user_id_key()(s[j]));
                }
            }
            assert forall|i: int, j: int| 0 <= i < j < t.len() implies user_name_key()(
                #[trigger] t[i],
            ) != user_name_key()(#[trigger] t[j]) by {
                if j < s.len() {
                    assert(user_name_key()(s[i]) != user_name_key()(s[j]));
                }
            }
        }
        self.users.push(row);
        Ok(())
    }

    /// The login command: loads the user row by username and verifies the
    /// password against the stored hash.
    pub fn login(&self, username: String, password: String) -> (r: Result<User, CmdError>)
        requires
            self.wf(),
        ensures
            match user_with(self.users@, username@) {
                None => r == Err::<User, CmdError>(CmdError::NotFound),
                Some(row) => {
                    if bcrypt_matches(password@, row.password@) {
                        r matches Ok(u) && u == (User {
                            id: row.id,
                            username: row.username,
                            role: row.role,
                        })
                    } else {
                        r == Err::<User, CmdError>(CmdError::InvalidCredentials)
                    }
                },
            },
    {
        let n = self.users.len();
        let mut i: usize = 0;
        proof {
            assert(self.users@.skip(0) =~= self.users@);
        }
        while i < n
            invariant
                i <= n,
                n == self.users@.len(),
                self.wf(),
                user_with(self.users@, username@) == user_with(
                    self.users@.skip(i as int),
                    username@,
                ),
            decreases n - i,
        {
            let row = &self.users[i];
            assert(self.users@.skip(i as int)[0] == self.users@[i as int]);
            if str_eq(row.username.as_str(), username.as_str()) {
                if verify_password(password.as_str(), row.password.as_str()) {
                    return Ok(
                        User {
                            id: row.id.clone(),
                            username: row.username.clone(),
                            role: row.role.clone(),
                        },
                    );
                } else {
                    return Err(CmdError::InvalidCredentials);
                }
            }
            proof {
                assert(self.users@.skip(i as int).skip(1) =~= self.users@.skip(i + 1));
            }
            i = i + 1;
        }
        Err(CmdError::NotFound)
    }
}

} // verus!
