//! The account registry: the in-memory snapshot of the persisted account
//! mapping. It is filled once at startup, tokens resolved by login are
//! written into it, and it is persisted back in full; resolving one
//! account's token never touches any other account's entry.

use vstd::prelude::*;

verus! {

/// One account as persisted: the deep link used for a one-time login, the
/// session token once known, and the invite code. Every field is optional.
pub struct User {
    pub link: Option<String>,
    pub access_token: Option<String>,
    pub invite_code: Option<String>,
}

/// One named account of the registry.
pub struct AccountEntry {
    pub name: String,
    pub user: User,
}

/// The registry: all accounts, keyed by name.
pub struct AccountRegistry {
    pub entries: Vec<AccountEntry>,
}

/// An account still needs its one-time login exactly when no session token
/// is persisted for it.
pub fn needs_login(user: &User) -> (b: bool)
    ensures
        b == (user.access_token is None),
{
    user.access_token.is_none()
}

impl AccountRegistry {
    /// Names are unique: the name is the mapping's key.
    pub open spec fn wf(self) -> bool {
        forall|i: int, j: int|
            0 <= i < self.entries@.len() && 0 <= j < self.entries@.len() && i != j
                ==> #[trigger] self.entries@[i].name@ != #[trigger] self.entries@[j].name@
    }

    pub fn new() -> (r: Self)
        ensures
            r.wf(),
            r.entries@.len() == 0,
    {
        AccountRegistry { entries: Vec::new() }
    }

    pub fn len(&self) -> (n: usize)
        ensures
            n == self.entries@.len(),
    {
        self.entries.len()
    }

    /// The index of the account of that name, if any.
    pub fn find_index(&self, name: &String) -> (r: Option<usize>)
        ensures
            r matches Some(i) ==> i < self.entries@.len() && self.entries@[i as int].name@
                == name@,
            r is None ==> forall|i: int|
                0 <= i < self.entries@.len() ==> (#[trigger] self.entries@[i]).name@ != name@,
    {
        let n = self.entries.len();
        let mut i: usize = 0;
        while i < n
            invariant
                i <= n,
                n == self.entries@.len(),
                forall|j: int| 0 <= j < i ==> (#[trigger] self.entries@[j]).name@ != name@,
            decreases n - i,
        {
            let e = &self.entries[i];
            if e.name == *name {
                return Some(i);
            }
            i = i + 1;
        }
        None
    }

    /// Adds an account under a name not yet present. Existing entries are
    /// untouched.
    pub fn add_account(&mut self, name: String, user: User) -> (added: bool)
        requires
            old(self).wf(),
        ensures
            final(self).wf(),
            added == (forall|i: int|
                0 <= i < old(self).entries@.len() ==> (#[trigger] old(self).entries@[i]).name@
                    != name@),
            added ==> final(self).entries@ == old(self).entries@.push(
                (AccountEntry { name, user }),
            ),
            !added ==> final(self).entries@ == old(self).entries@,
    {
        match self.find_index(&name) {
            Some(_) => false,
            None => {
                self.entries.push(AccountEntry { name, user });
                true
            },
        }
    }

    /// Writes a resolved session token into entry `i`. The entry keeps its
    /// name, link and invite code; every other entry is left exactly as it
    /// was.
    pub fn set_token(&mut self, i: usize, token: String)
        requires
            old(self).wf(),
            i < old(self).entries@.len(),
        ensures
            final(self).wf(),
            final(self).entries@.len() == old(self).entries@.len(),
            forall|j: int|
                0 <= j < old(self).entries@.len() && j != i ==> final(self).entries@[j] == old(
                    self,
                ).entries@[j],
            final(self).entries@[i as int].name == old(self).entries@[i as int].name,
            final(self).entries@[i as int].user.link == old(self).entries@[i as int].user.link,
            final(self).entries@[i as int].user.invite_code == old(
                self,
            ).entries@[i as int].user.invite_code,
            final(self).entries@[i as int].user.access_token == Some(token),
    {
        let mut e = self.entries.remove(i);
        e.user.access_token = Some(token);
        self.entries.insert(i, e);
        proof {
            assert forall|j: int|
                0 <= j < old(self).entries@.len() && j != i implies self.entries@[j] == old(
                self,
            ).entries@[j] by {
                if j < i {
                } else {
                }
            }
        }
    }
}

} // verus!
