//! A password check with a limit on failed attempts.
//!
//! A request is only looked at when the caller already holds elevated
//! privilege. Each user name has a counter of failed attempts that lives as
//! long as the manager; a user name with two failed attempts is locked out,
//! and the right password does not help it any more.

use crate::table::NameTable;
use crate::text::str_eq;
use vstd::prelude::*;

verus! {

/// Number of failed attempts after which a user name is locked out.
pub const MAX_ATTEMPTS: usize = 2;

/// The password that grants permission.
pub open spec fn valid_password() -> Seq<char> {
    "s3cretpass"@
}

/// The permissions granted so far and the failed attempts counted so far.
pub struct PermissionManager {
    permissions: NameTable<bool>,
    password_attempts: NameTable<usize>,
}

/// What a manager has recorded, as mathematical values.
pub struct AccessView {
    /// For each user name that a decision was recorded for, the decision.
    pub permissions: Map<Seq<char>, bool>,
    /// For each user name that was counted, its failed attempts.
    pub attempts: Map<Seq<char>, usize>,
}

impl AccessView {
    /// The failed attempts counted for `user`: none for a name never seen.
    pub open spec fn attempts_of(self, user: Seq<char>) -> usize {
        if self.attempts.contains_key(user) {
            self.attempts[user]
        } else {
            0
        }
    }

    /// Whether `user` holds permission.
    pub open spec fn granted(self, user: Seq<char>) -> bool {
        self.permissions.contains_key(user) && self.permissions[user]
    }

    /// Whether `user` is locked out.
    pub open spec fn locked_out(self, user: Seq<char>) -> bool {
        self.attempts_of(user) >= MAX_ATTEMPTS
    }

    /// The answer to a request.
    pub open spec fn answer(self, is_root: bool, user: Seq<char>, password: Seq<char>) -> bool {
        is_root && !self.locked_out(user) && password == valid_password()
    }

    /// The state after a request.
    ///
    /// Without elevated privilege nothing changes. A locked-out user name is
    /// recorded as denied. The right password records the permission and
    /// clears the counter. A wrong password adds one to the counter and leaves
    /// the recorded decision alone.
    pub open spec fn after(self, is_root: bool, user: Seq<char>, password: Seq<char>) -> AccessView {
        if !is_root {
            self
        } else if self.locked_out(user) {
            AccessView {
                permissions: self.permissions.insert(user, false),
                attempts: self.attempts.insert(user, self.attempts_of(user)),
            }
        } else if password == valid_password() {
            AccessView {
                permissions: self.permissions.insert(user, true),
                attempts: self.attempts.insert(user, 0),
            }
        } else {
            AccessView {
                permissions: self.permissions,
                attempts: self.attempts.insert(user, (self.attempts_of(user) + 1) as usize),
            }
        }
    }
}

impl View for PermissionManager {
    type V = AccessView;

    closed spec fn view(&self) -> AccessView {
        AccessView { permissions: self.permissions@, attempts: self.password_attempts@ }
    }
}

impl PermissionManager {
    /// Whether the manager is well formed; every manager made by `new` and
    /// changed by the methods of this type is.
    pub closed spec fn wf(&self) -> bool {
        self.permissions.wf() && self.password_attempts.wf()
    }

    /// A manager that has seen no request.
    pub fn new() -> (r: PermissionManager)
        ensures
            r.wf(),
            r@.permissions == Map::<Seq<char>, bool>::empty(),
            r@.attempts == Map::<Seq<char>, usize>::empty(),
    {
        PermissionManager { permissions: NameTable::new(), password_attempts: NameTable::new() }
    }

    /// Answers a request of `user` with `password`. `is_root` says whether
    /// the calling process holds elevated privilege.
    pub fn request_permission(&mut self, is_root: bool, user: &str, password: &str) -> (r: bool)
        requires
            old(self).wf(),
        ensures
            final(self).wf(),
            r == old(self)@.answer(is_root, user@, password@),
            final(self)@ == old(self)@.after(is_root, user@, password@),
    {
        if !is_root {
            return false;
        }
        let count: usize = match self.password_attempts.get(user) {
            Some(c) => *c,
            None => 0,
        };
        if count >= MAX_ATTEMPTS {
            self.password_attempts.insert(user.to_owned(), count);
            self.permissions.insert(user.to_owned(), false);
            return false;
        }
        if str_eq(password, "s3cretpass") {
            self.permissions.insert(user.to_owned(), true);
            self.password_attempts.insert(user.to_owned(), 0);
            true
        } else {
            self.password_attempts.insert(user.to_owned(), count + 1);
            false
        }
    }

    /// Whether `user` holds permission.
    pub fn check_permission(&self, user: &str) -> (r: bool)
        requires
            self.wf(),
        ensures
            r == self@.granted(user@),
    {
        match self.permissions.get(user) {
            Some(p) => *p,
            None => false,
        }
    }

    /// The failed attempts counted for `user`.
    pub fn attempts(&self, user: &str) -> (r: usize)
        requires
            self.wf(),
        ensures
            r == self@.attempts_of(user@),
    {
        match self.password_attempts.get(user) {
            Some(c) => *c,
            None => 0,
        }
    }
}

/// A user name with two failed attempts in a row is locked out: the next
/// request is denied whatever its password, the name holds no permission
/// after it, and it stays locked out.
pub proof fn lemma_locked_out_after_two_failures(g: AccessView, user: Seq<char>, first: Seq<char>, second: Seq<char>, third: Seq<char>)
    requires
        g.attempts_of(user) == 0,
        first != valid_password(),
        second != valid_password(),
    ensures
        !g.answer(true, user, first),
        !g.after(true, user, first).answer(true, user, second),
        g.after(true, user, first).after(true, user, second).locked_out(user),
        !g.after(true, user, first).after(true, user, second).answer(true, user, third),
        !g.after(true, user, first).after(true, user, second).after(true, user, third).granted(user),
        g.after(true, user, first).after(true, user, second).after(true, user, third).locked_out(user),
{
}

/// A request never changes what is recorded for another user name.
pub proof fn lemma_request_leaves_others_alone(g: AccessView, is_root: bool, user: Seq<char>, password: Seq<char>, other: Seq<char>)
    requires
        other != user,
    ensures
        g.after(is_root, user, password).attempts_of(other) == g.attempts_of(other),
        g.after(is_root, user, password).granted(other) == g.granted(other),
{
}

/// Permission is granted exactly to a privileged caller that gives the right
/// password for a user name that is not locked out; the name then holds
/// permission and its counter is cleared.
pub proof fn lemma_grant(g: AccessView, is_root: bool, user: Seq<char>, password: Seq<char>)
    ensures
        g.answer(is_root, user, password) <==> is_root && g.attempts_of(user) < MAX_ATTEMPTS
            && password == valid_password(),
        g.answer(is_root, user, password) ==> g.after(is_root, user, password).granted(user)
            && g.after(is_root, user, password).attempts_of(user) == 0,
        !is_root ==> g.after(is_root, user, password) == g,
{
}

} // verus!
