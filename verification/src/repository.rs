//! The account vault as held in memory. Every change is computed on the
//! repository first; a failed change leaves it as it was.
use vstd::prelude::*;
use crate::error::{AppError, AppErrorV, app_error};
use crate::model::{Account, AccountV, AccountView, AccountViewV, accounts_view, opt_account};
use crate::text::str_eq;

verus! {

pub open spec fn not_found_error() -> AppErrorV {
    app_error("ACCOUNT_NOT_FOUND"@, "账号不存在"@)
}

pub open spec fn exists_error() -> AppErrorV {
    app_error("ACCOUNT_EXISTS"@, "账号已经存在，请使用重新授权"@)
}

/// The position of the first account with local id `id`.
pub open spec fn index_of_id(s: Seq<AccountV>, id: Seq<char>) -> Option<int>
    decreases s.len(),
{
    if s.len() == 0 {
        None
    } else if s[0].view.id == id {
        Some(0)
    } else {
        match index_of_id(s.drop_first(), id) {
            Some(i) => Some(i + 1),
            None => None,
        }
    }
}

/// The position of the first account with ChatGPT account id `account_id`.
pub open spec fn index_of_account(s: Seq<AccountV>, account_id: Seq<char>) -> Option<int>
    decreases s.len(),
{
    if s.len() == 0 {
        None
    } else if s[0].view.account_id == account_id {
        Some(0)
    } else {
        match index_of_account(s.drop_first(), account_id) {
            Some(i) => Some(i + 1),
            None => None,
        }
    }
}

pub proof fn lemma_index_of_id(s: Seq<AccountV>, id: Seq<char>)
    ensures
        match index_of_id(s, id) {
            Some(i) => 0 <= i < s.len() && s[i].view.id == id && forall|k: int| 0 <= k < i ==> s[k].view.id != id,
            None => forall|k: int| 0 <= k < s.len() ==> s[k].view.id != id,
        },
    decreases s.len(),
{
    if s.len() > 0 && s[0].view.id != id {
        lemma_index_of_id(s.drop_first(), id);
        assert forall|k: int| 1 <= k < s.len() implies s[k] == s.drop_first()[k - 1] by {}
    }
}

pub proof fn lemma_index_of_account(s: Seq<AccountV>, account_id: Seq<char>)
    ensures
        match index_of_account(s, account_id) {
            Some(i) => 0 <= i < s.len() && s[i].view.account_id == account_id && forall|k: int|
                0 <= k < i ==> s[k].view.account_id != account_id,
            None => forall|k: int| 0 <= k < s.len() ==> s[k].view.account_id != account_id,
        },
    decreases s.len(),
{
    if s.len() > 0 && s[0].view.account_id != account_id {
        lemma_index_of_account(s.drop_first(), account_id);
        assert forall|k: int| 1 <= k < s.len() implies s[k] == s.drop_first()[k - 1] by {}
    }
}

/// The accounts of the vault, in the order they were added.
pub struct Repository {
    pub accounts: Vec<Account>,
}

pub open spec fn result_account(r: Result<Account, AppError>) -> Result<AccountV, AppErrorV> {
    match r {
        Ok(a) => Ok(a@),
        Err(e) => Err(e@),
    }
}

/// The account with local id `id`.
pub open spec fn spec_get(s: Seq<AccountV>, id: Seq<char>) -> Result<AccountV, AppErrorV> {
    match index_of_id(s, id) {
        Some(i) => Ok(s[i]),
        None => Err(not_found_error()),
    }
}

/// The vault after replacing the account with `a`'s local id by `a`.
pub open spec fn spec_put(s: Seq<AccountV>, a: AccountV) -> Result<Seq<AccountV>, AppErrorV> {
    match index_of_id(s, a.view.id) {
        Some(i) => Ok(s.update(i, a)),
        None => Err(not_found_error()),
    }
}

/// The vault after adding a new account; an account id may be added once.
pub open spec fn spec_insert(s: Seq<AccountV>, a: AccountV) -> Result<Seq<AccountV>, AppErrorV> {
    match index_of_account(s, a.view.account_id) {
        Some(_) => Err(exists_error()),
        None => Ok(s.push(a)),
    }
}

/// The vault without the account with local id `id`.
pub open spec fn spec_remove(s: Seq<AccountV>, id: Seq<char>) -> Result<Seq<AccountV>, AppErrorV> {
    match index_of_id(s, id) {
        Some(i) => Ok(s.remove(i)),
        None => Err(not_found_error()),
    }
}

/// No two accounts share a local id, and no two share an account id.
pub open spec fn vault_wf(s: Seq<AccountV>) -> bool {
    &&& forall|i: int, j: int| 0 <= i < j < s.len() ==> s[i].view.id != s[j].view.id
    &&& forall|i: int, j: int| 0 <= i < j < s.len() ==> s[i].view.account_id != s[j].view.account_id
}

impl View for Repository {
    type V = Seq<AccountV>;

    open spec fn view(&self) -> Seq<AccountV> {
        accounts_view(self.accounts@)
    }
}

pub fn not_found() -> (r: AppError)
    ensures
        r@ == not_found_error(),
{
    AppError::new("ACCOUNT_NOT_FOUND", "账号不存在")
}

impl Repository {
    /// A vault holding these accounts.
    pub fn new(accounts: Vec<Account>) -> (r: Repository)
        ensures
            r@ == accounts_view(accounts@),
    {
        Repository { accounts }
    }

    fn position(&self, id: &str) -> (r: Option<usize>)
        ensures
            match r {
                Some(i) => index_of_id(self@, id@) == Some(i as int) && i < self.accounts@.len(),
                None => index_of_id(self@, id@) is None,
            },
    {
        proof {
            lemma_index_of_id(self@, id@);
        }
        let mut i: usize = 0;
        while i < self.accounts.len()
            invariant
                i <= self.accounts@.len(),
                self@.len() == self.accounts@.len(),
                forall|k: int| 0 <= k < i ==> self@[k].view.id != id@,
                match index_of_id(self@, id@) {
                    Some(x) => 0 <= x < self@.len() && self@[x].view.id == id@ && forall|k: int|
                        0 <= k < x ==> self@[k].view.id != id@,
                    None => forall|k: int| 0 <= k < self@.len() ==> self@[k].view.id != id@,
                },
            decreases self.accounts.len() - i,
        {
            assert(self@[i as int] == self.accounts@[i as int]@);
            if str_eq(self.accounts[i].view.id.as_str(), id) {
                return Some(i);
            }
            i += 1;
        }
        None
    }

    fn position_of_account(&self, account_id: &str) -> (r: Option<usize>)
        ensures
            match r {
                Some(i) => index_of_account(self@, account_id@) == Some(i as int) && i < self.accounts@.len(),
                None => index_of_account(self@, account_id@) is None,
            },
    {
        proof {
            lemma_index_of_account(self@, account_id@);
        }
        let mut i: usize = 0;
        while i < self.accounts.len()
            invariant
                i <= self.accounts@.len(),
                self@.len() == self.accounts@.len(),
                forall|k: int| 0 <= k < i ==> self@[k].view.account_id != account_id@,
                match index_of_account(self@, account_id@) {
                    Some(x) => 0 <= x < self@.len() && self@[x].view.account_id == account_id@ && forall|k: int|
                        0 <= k < x ==> self@[k].view.account_id != account_id@,
                    None => forall|k: int| 0 <= k < self@.len() ==> self@[k].view.account_id != account_id@,
                },
            decreases self.accounts.len() - i,
        {
            assert(self@[i as int] == self.accounts@[i as int]@);
            if str_eq(self.accounts[i].view.account_id.as_str(), account_id) {
                return Some(i);
            }
            i += 1;
        }
        None
    }

    /// A copy of the account with local id `id`.
    pub fn get(&self, id: &str) -> (r: Result<Account, AppError>)
        ensures
            result_account(r) == spec_get(self@, id@),
    {
        match self.position(id) {
            Some(i) => Ok(self.accounts[i].duplicate()),
            None => Err(not_found()),
        }
    }

    /// A copy of the first account with ChatGPT account id `account_id`.
    pub fn find_account(&self, account_id: &str) -> (r: Option<Account>)
        ensures
            opt_account(r) == match index_of_account(self@, account_id@) {
                Some(i) => Some(self@[i]),
                None => None,
            },
    {
        match self.position_of_account(account_id) {
            Some(i) => Some(self.accounts[i].duplicate()),
            None => None,
        }
    }

    /// Replaces the account that has `a`'s local id.
    pub fn put(&mut self, a: Account) -> (r: Result<(), AppError>)
        ensures
            match spec_put(old(self)@, a@) {
                Ok(s) => r is Ok && final(self)@ == s,
                Err(e) => r matches Err(x) && x@ == e && final(self)@ == old(self)@,
            },
    {
        match self.position(a.view.id.as_str()) {
            Some(i) => {
                let ghost av = a@;
                self.accounts.set(i, a);
                proof {
                    assert(self@ =~= old(self)@.update(i as int, av));
                }
                Ok(())
            },
            None => Err(not_found()),
        }
    }

    /// Adds a new account; an account id that is already present is refused.
    pub fn insert_new(&mut self, a: Account) -> (r: Result<(), AppError>)
        ensures
            match spec_insert(old(self)@, a@) {
                Ok(s) => r is Ok && final(self)@ == s,
                Err(e) => r matches Err(x) && x@ == e && final(self)@ == old(self)@,
            },
    {
        match self.position_of_account(a.view.account_id.as_str()) {
            Some(_) => Err(AppError::new("ACCOUNT_EXISTS", "账号已经存在，请使用重新授权")),
            None => {
                let ghost av = a@;
                self.accounts.push(a);
                proof {
                    assert(self@ =~= old(self)@.push(av));
                }
                Ok(())
            },
        }
    }

    /// Removes the account with local id `id`.
    pub fn remove(&mut self, id: &str) -> (r: Result<(), AppError>)
        ensures
            match spec_remove(old(self)@, id@) {
                Ok(s) => r is Ok && final(self)@ == s,
                Err(e) => r matches Err(x) && x@ == e && final(self)@ == old(self)@,
            },
    {
        match self.position(id) {
            Some(i) => {
                self.accounts.remove(i);
                proof {
                    assert(self@ =~= old(self)@.remove(i as int));
                }
                Ok(())
            },
            None => Err(not_found()),
        }
    }

    /// Takes on `next` as the vault once it was written durably: the vault
    /// changes only when `saved` succeeded, and a failed write leaves it as it was.
    pub fn adopt(&mut self, next: Repository, saved: Result<(), AppError>) -> (r: Result<(), AppError>)
        ensures
            match saved {
                Ok(()) => r is Ok && final(self)@ == next@,
                Err(e) => r matches Err(x) && x@ == e@ && final(self)@ == old(self)@,
            },
    {
        match saved {
            Ok(()) => {
                *self = next;
                Ok(())
            },
            Err(e) => Err(e),
        }
    }

    /// The credential-free views of all accounts, in order.
    pub fn list(&self) -> (r: Vec<AccountView>)
        ensures
            r@.map_values(|v: AccountView| v@) == self@.map_values(|a: AccountV| a.view),
    {
        let mut out: Vec<AccountView> = Vec::new();
        let mut i: usize = 0;
        while i < self.accounts.len()
            invariant
                i <= self.accounts@.len(),
                out@.len() == i,
                forall|k: int| 0 <= k < i ==> (#[trigger] out@[k])@ == self.accounts@[k]@.view,
            decreases self.accounts.len() - i,
        {
            out.push(self.accounts[i].view.duplicate());
            i += 1;
        }
        assert(out@.map_values(|v: AccountView| v@) =~= self@.map_values(|a: AccountV| a.view));
        out
    }

    /// Copies of all accounts.
    pub fn all(&self) -> (r: Vec<Account>)
        ensures
            accounts_view(r@) == self@,
    {
        let mut out: Vec<Account> = Vec::new();
        let mut i: usize = 0;
        while i < self.accounts.len()
            invariant
                i <= self.accounts@.len(),
                out@.len() == i,
                forall|k: int| 0 <= k < i ==> (#[trigger] out@[k])@ == self.accounts@[k]@,
            decreases self.accounts.len() - i,
        {
            out.push(self.accounts[i].duplicate());
            i += 1;
        }
        assert(accounts_view(out@) =~= self@);
        out
    }
}

/// Reading an account back after replacing it gives what was written, and
/// every other account is unchanged.
pub proof fn law_put_then_get(s: Seq<AccountV>, a: AccountV, id: Seq<char>)
    requires
        spec_put(s, a) is Ok,
    ensures
        spec_get(spec_put(s, a)->Ok_0, a.view.id) == Ok::<AccountV, AppErrorV>(a),
        id != a.view.id ==> spec_get(spec_put(s, a)->Ok_0, id) == spec_get(s, id),
{
    let t = spec_put(s, a)->Ok_0;
    let i = index_of_id(s, a.view.id).unwrap();
    lemma_index_of_id(s, a.view.id);
    lemma_index_of_id(t, a.view.id);
    lemma_index_of_id(s, id);
    lemma_index_of_id(t, id);
    assert(t[i] == a);
    if id != a.view.id {
        match index_of_id(s, id) {
            Some(j) => {
                assert(t[j] == s[j]);
                match index_of_id(t, id) {
                    Some(m) => {
                        if m < j {
                            assert(t[m] == s[m]);
                        }
                        if j < m {
                            assert(t[j].view.id == id);
                        }
                    },
                    None => {},
                }
            },
            None => {
                match index_of_id(t, id) {
                    Some(m) => {
                        assert(t[m] == s[m]);
                    },
                    None => {},
                }
            },
        }
    } else {
        match index_of_id(t, a.view.id) {
            Some(m) => {
                if m < i {
                    assert(t[m] == s[m]);
                }
            },
            None => {},
        }
    }
}

/// An account id is held by at most one account: adding keeps the vault
/// well-formed, and adding an account id that is present is refused.
pub proof fn law_insert_keeps_accounts_unique(s: Seq<AccountV>, a: AccountV)
    requires
        vault_wf(s),
        forall|i: int| 0 <= i < s.len() ==> s[i].view.id != a.view.id,
    ensures
        (spec_insert(s, a) is Err) <==> (exists|i: int| 0 <= i < s.len() && s[i].view.account_id == a.view.account_id),
        spec_insert(s, a) matches Ok(t) ==> vault_wf(t),
{
    lemma_index_of_account(s, a.view.account_id);
    match index_of_account(s, a.view.account_id) {
        Some(i) => {},
        None => {
            let t = s.push(a);
            assert forall|i: int, j: int| 0 <= i < j < t.len() implies t[i].view.account_id != t[j].view.account_id by {
                if j == s.len() {
                    assert(t[i] == s[i]);
                } else {
                    assert(t[i] == s[i] && t[j] == s[j]);
                }
            }
            assert forall|i: int, j: int| 0 <= i < j < t.len() implies t[i].view.id != t[j].view.id by {
                if j == s.len() {
                    assert(t[i] == s[i]);
                } else {
                    assert(t[i] == s[i] && t[j] == s[j]);
                }
            }
        },
    }
}

/// A deleted account is gone: reading it afterwards fails with
/// `ACCOUNT_NOT_FOUND`, and the other accounts keep their order.
pub proof fn law_remove_then_get(s: Seq<AccountV>, id: Seq<char>)
    requires
        vault_wf(s),
        spec_remove(s, id) is Ok,
    ensures
        spec_get(spec_remove(s, id)->Ok_0, id) == Err::<AccountV, AppErrorV>(not_found_error()),
        vault_wf(spec_remove(s, id)->Ok_0),
{
    let i = index_of_id(s, id).unwrap();
    lemma_index_of_id(s, id);
    let t = s.remove(i);
    lemma_index_of_id(t, id);
    match index_of_id(t, id) {
        Some(m) => {
            if m < i {
                assert(t[m] == s[m]);
            } else {
                assert(t[m] == s[m + 1]);
                assert(s[i].view.id != s[m + 1].view.id);
            }
        },
        None => {},
    }
    assert forall|x: int, y: int| 0 <= x < y < t.len() implies t[x].view.id != t[y].view.id && t[x].view.account_id != t[y].view.account_id by {
        let sx = if x < i { x } else { x + 1 };
        let sy = if y < i { y } else { y + 1 };
        assert(t[x] == s[sx] && t[y] == s[sy]);
    }
}

} // verus!
