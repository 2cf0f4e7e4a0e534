//! Consumer accounts: identities, credit balances and held devices.

use vstd::prelude::*;

verus! {

/// Declares the outside identifier type so it can sit in fields and
/// signatures; its value stays opaque here.
#[verifier::external_type_specification]
#[verifier::external_body]
pub struct ExUuid(uuid::Uuid);

/// Relies on the derived Clone of uuid::Uuid, a Copy type: the clone is
/// the same identifier.
pub assume_specification[ <uuid::Uuid as Clone>::clone ](v: &uuid::Uuid) -> (r: uuid::Uuid)
    ensures
        r == *v,
;

/// Relies on uuid::Uuid::new_v4: a freshly generated random identifier.
/// Nothing is promised of its value.
#[verifier::external_body]
fn new_uuid() -> uuid::Uuid {
    uuid::Uuid::new_v4()
}

/// Starting balance of a new account.
pub const INITIAL_CREDITS: u64 = 1000000;

/// One consumer: identity, balance and the devices held.
#[derive(Debug, Clone)]
pub struct User {
    pub id: uuid::Uuid,
    pub credits: u64,
    pub allocated_gpus: Vec<u32>,
}

/// A named account.
#[derive(Debug, Clone)]
pub struct UserEntry {
    pub name: String,
    pub user: User,
}

/// Mathematical image of a [`UserEntry`].
#[verifier::ext_equal]
pub ghost struct EntryV {
    pub name: Seq<char>,
    pub id: uuid::Uuid,
    pub credits: u64,
    pub allocated_gpus: Seq<u32>,
}

impl View for UserEntry {
    type V = EntryV;

    open spec fn view(&self) -> EntryV {
        EntryV {
            name: self.name@,
            id: self.user.id,
            credits: self.user.credits,
            allocated_gpus: self.user.allocated_gpus@,
        }
    }
}

/// The views of the account table.
pub open spec fn entries_view(s: Seq<UserEntry>) -> Seq<EntryV> {
    s.map_values(|e: UserEntry| e@)
}

/// Whether an account named `name` exists.
pub open spec fn has_user(ev: Seq<EntryV>, name: Seq<char>) -> bool {
    exists|i: int| 0 <= i < ev.len() && (#[trigger] ev[i]).name == name
}

/// The index of the account named `name` (unique when the table is well
/// formed).
pub open spec fn user_idx(ev: Seq<EntryV>, name: Seq<char>) -> int {
    choose|i: int| 0 <= i < ev.len() && (#[trigger] ev[i]).name == name
}

/// Account names are unique.
pub open spec fn wf_users(ev: Seq<EntryV>) -> bool {
    forall|i: int, j: int|
        0 <= i < j < ev.len() ==> (#[trigger] ev[i]).name != (#[trigger] ev[j]).name
}

/// The table grew by one fresh account of the given name and balance,
/// holding no devices; the identifier is freshly drawn, so nothing is
/// said of it.
pub open spec fn appended_fresh(
    old_v: Seq<EntryV>,
    new_v: Seq<EntryV>,
    name: Seq<char>,
    credits: u64,
) -> bool {
    &&& new_v.len() == old_v.len() + 1
    &&& new_v.take(old_v.len() as int) == old_v
    &&& new_v.last().name == name
    &&& new_v.last().credits == credits
    &&& new_v.last().allocated_gpus == Seq::<u32>::empty()
}

/// Why an account operation was refused.
#[derive(Debug, Clone, Copy, PartialEq, Eq, Structural)]
pub enum UserError {
    /// An account of that name already exists.
    AlreadyExists,
    /// The balance does not cover the amount.
    InsufficientCredits { needed: u64, available: u64 },
}

/// The account table.
#[derive(Debug)]
pub struct UserManager {
    pub users: Vec<UserEntry>,
}

impl UserManager {
    /// Account names are unique.
    pub open spec fn wf(&self) -> bool {
        wf_users(entries_view(self.users@))
    }

    /// An empty account table.
    pub fn new() -> (r: UserManager)
        ensures
            r.wf(),
            r.users@.len() == 0,
    {
        UserManager { users: Vec::new() }
    }

    /// Index of the account named `username`, if any.
    fn find_user(&self, username: &str) -> (r: Option<usize>)
        requires
            self.wf(),
        ensures
            match r {
                Some(i) => i < self.users@.len() && self.users@[i as int]@.name == username@
                    && i as int == user_idx(entries_view(self.users@), username@) && has_user(
                    entries_view(self.users@),
                    username@,
                ),
                None => !has_user(entries_view(self.users@), username@),
            },
    {
        let ghost ev = entries_view(self.users@);
        let n = self.users.len();
        let mut i: usize = 0;
        while i < n
            invariant
                n == self.users@.len(),
                i <= n,
                ev == entries_view(self.users@),
                wf_users(ev),
                forall|k: int| 0 <= k < i ==> (#[trigger] ev[k]).name != username@,
            decreases n - i,
        {
            if crate::utils::str_eq(self.users[i].name.as_str(), username) {
                proof {
                    assert(ev[i as int].name == username@);
                    let c = user_idx(ev, username@);
                    assert(0 <= c < ev.len() && ev[c].name == username@);
                    if c != i as int {
                        assert(false);
                    }
                }
                return Some(i);
            }
            proof {
                assert(ev[i as int] == self.users@[i as int]@);
            }
            i = i + 1;
        }
        proof {
            if has_user(ev, username@) {
                let c = user_idx(ev, username@);
                assert(0 <= c < ev.len() && ev[c].name == username@);
                assert(false);
            }
        }
        None
    }

    /// Appends a fresh account for `username` and returns its index.
    fn push_fresh(&mut self, username: &str) -> (i: usize)
        requires
            old(self).wf(),
            !has_user(entries_view(old(self).users@), username@),
        ensures
            final(self).wf(),
            i == old(self).users@.len(),
            final(self).users@.len() == old(self).users@.len() + 1,
            appended_fresh(
                entries_view(old(self).users@),
                entries_view(final(self).users@),
                username@,
                INITIAL_CREDITS,
            ),
            has_user(entries_view(final(self).users@), username@),
            user_idx(entries_view(final(self).users@), username@) == i as int,
    {
        let ghost ev = entries_view(self.users@);
        let entry = UserEntry {
            name: username.to_owned(),
            user: User { id: new_uuid(), credits: INITIAL_CREDITS, allocated_gpus: Vec::new() },
        };
        let i = self.users.len();
        self.users.push(entry);
        proof {
            let nv = entries_view(self.users@);
            assert(nv =~= ev.push(self.users@[i as int]@));
            assert(nv.take(ev.len() as int) =~= ev);
            assert forall|a: int, b: int| 0 <= a < b < nv.len() implies (#[trigger] nv[a]).name
                != (#[trigger] nv[b]).name by {
                if b == ev.len() {
                    if nv[a].name == username@ {
                        assert(ev[a].name == username@);
                        assert(has_user(ev, username@));
                    }
                }
            }
            assert(nv[i as int].name == username@);
            let c = user_idx(nv, username@);
            assert(0 <= c < nv.len() && nv[c].name == username@);
            if c != i as int {
                assert(false);
            }
        }
        i
    }

    /// A copy of the account at `i`.
    fn user_at(&self, i: usize) -> (r: User)
        requires
            i < self.users@.len(),
        ensures
            r.id == self.users@[i as int]@.id,
            r.credits == self.users@[i as int]@.credits,
            r.allocated_gpus@ == self.users@[i as int]@.allocated_gpus,
    {
        let u = &self.users[i].user;
        let n = u.allocated_gpus.len();
        let mut gpus: Vec<u32> = Vec::new();
        let mut k: usize = 0;
        while k < n
            invariant
                i < self.users@.len(),
                n == self.users@[i as int].user.allocated_gpus@.len(),
                k <= n,
                gpus@ =~= self.users@[i as int].user.allocated_gpus@.take(k as int),
            decreases n - k,
        {
            gpus.push(self.users[i].user.allocated_gpus[k]);
            k = k + 1;
        }
        proof {
            assert(self.users@[i as int].user.allocated_gpus@.take(n as int)
                =~= self.users@[i as int].user.allocated_gpus@);
        }
        User { id: self.users[i].user.id, credits: self.users[i].user.credits, allocated_gpus: gpus }
    }

    /// Opens a fresh account with the starting balance; refused when the
    /// name is taken.
    pub fn create_user(&mut self, username: &str) -> (r: Result<User, UserError>)
        requires
            old(self).wf(),
        ensures
            final(self).wf(),
            ({
                let ev = entries_view(old(self).users@);
                match r {
                    Ok(u) => {
                        &&& !has_user(ev, username@)
                        &&& appended_fresh(
                            ev,
                            entries_view(final(self).users@),
                            username@,
                            INITIAL_CREDITS,
                        )
                        &&& u.credits == INITIAL_CREDITS
                        &&& u.allocated_gpus@ == Seq::<u32>::empty()
                        &&& u.id == entries_view(final(self).users@).last().id
                    },
                    Err(UserError::AlreadyExists) => has_user(ev, username@) && final(self).users@
                        == old(self).users@,
                    _ => false,
                }
            }),
    {
        if let Some(_) = self.find_user(username) {
            return Err(UserError::AlreadyExists);
        }
        let i = self.push_fresh(username);
        Ok(self.user_at(i))
    }

    /// The account named `username`, opened fresh when none exists yet.
    pub fn get_user(&mut self, username: &str) -> (r: User)
        requires
            old(self).wf(),
        ensures
            final(self).wf(),
            ({
                let ev = entries_view(old(self).users@);
                let nv = entries_view(final(self).users@);
                &&& (if has_user(ev, username@) {
                    final(self).users@ == old(self).users@ && r.id == ev[user_idx(ev, username@)].id
                        && r.credits == ev[user_idx(ev, username@)].credits && r.allocated_gpus@
                        == ev[user_idx(ev, username@)].allocated_gpus
                } else {
                    appended_fresh(ev, nv, username@, INITIAL_CREDITS) && r.credits
                        == INITIAL_CREDITS && r.allocated_gpus@ == Seq::<u32>::empty() && r.id
                        == nv.last().id
                })
            }),
    {
        let i = match self.find_user(username) {
            Some(i) => i,
            None => self.push_fresh(username),
        };
        self.user_at(i)
    }

    /// Takes `amount` credits from the account named `username`, opening
    /// it fresh when absent — the opened account stays even when the
    /// charge is then refused for want of balance.
    pub fn deduct_credits(&mut self, username: &str, amount: u64) -> (r: Result<(), UserError>)
        requires
            old(self).wf(),
        ensures
            final(self).wf(),
            ({
                let ev = entries_view(old(self).users@);
                let nv = entries_view(final(self).users@);
                let had = has_user(ev, username@);
                let avail: u64 = if had {
                    ev[user_idx(ev, username@)].credits
                } else {
                    INITIAL_CREDITS
                };
                match r {
                    Ok(()) => avail >= amount && (if had {
                        nv == ev.update(
                            user_idx(ev, username@),
                            EntryV {
                                credits: (avail - amount) as u64,
                                ..ev[user_idx(ev, username@)]
                            },
                        )
                    } else {
                        appended_fresh(ev, nv, username@, (INITIAL_CREDITS - amount) as u64)
                    }),
                    Err(UserError::InsufficientCredits { needed, available }) => {
                        &&& needed == amount
                        &&& available == avail
                        &&& avail < amount
                        &&& (if had {
                            final(self).users@ == old(self).users@
                        } else {
                            appended_fresh(ev, nv, username@, INITIAL_CREDITS)
                        })
                    },
                    _ => false,
                }
            }),
    {
        let ghost ev = entries_view(self.users@);
        let found = self.find_user(username);
        match found {
            Some(i) => {
                let avail = self.users[i].user.credits;
                if avail < amount {
                    return Err(
                        UserError::InsufficientCredits { needed: amount, available: avail },
                    );
                }
                self.users[i].user.credits = avail - amount;
                proof {
                    assert(entries_view(self.users@) =~= ev.update(
                        i as int,
                        EntryV { credits: (avail - amount) as u64, ..ev[i as int] },
                    ));
                }
                Ok(())
            },
            None => {
                let i = self.push_fresh(username);
                let ghost mid = entries_view(self.users@);
                if INITIAL_CREDITS < amount {
                    return Err(
                        UserError::InsufficientCredits {
                            needed: amount,
                            available: INITIAL_CREDITS,
                        },
                    );
                }
                let avail = self.users[i].user.credits;
                self.users[i].user.credits = avail - amount;
                proof {
                    assert(mid[i as int].credits == INITIAL_CREDITS);
                    assert(entries_view(self.users@) =~= mid.update(
                        i as int,
                        EntryV { credits: (INITIAL_CREDITS - amount) as u64, ..mid[i as int] },
                    ));
                    let nv = entries_view(self.users@);
                    assert(nv.take(ev.len() as int) =~= mid.take(ev.len() as int));
                    assert(nv.last() == EntryV {
                        credits: (INITIAL_CREDITS - amount) as u64,
                        ..mid[i as int]
                    });
                }
                Ok(())
            },
        }
    }
}

} // verus!
