use vstd::prelude::*;
use vstd::pervasive::VecAdditionalExecFns;
use vstd::string::StrSliceExecFns;
use crate::address::{derive_waffle_address, waffle_address};
use crate::error::WaffleError;
use crate::waffle::{
    name_check, required_space, utf8_len, valid_name, validate_name, Pubkey, Waffle,
};

verus! {

/// One allocated record: the storage it was sized with at first creation,
/// and the waffle it currently holds.
#[derive(Clone, Debug)]
pub struct WaffleAccount {
    /// Bytes allocated when the record was first created; never resized.
    pub space: usize,
    pub waffle: Waffle,
}

/// The context a creation call runs with: the authenticated signer, who
/// pays for the allocation and becomes the record's author.
pub struct CreateWaffle {
    pub author: Pubkey,
}

/// A name-keyed store of waffle records: at most one record per distinct
/// name, the guarantee the platform's address derivation provides.
pub struct WaffleStore {
    /// The program the records' addresses are derived under.
    pub program_id: [u8; 32],
    pub accounts: Vec<WaffleAccount>,
}

/// The record whose name is `name`, scanning `accounts` from index `i` on.
pub open spec fn find_from(accounts: Seq<WaffleAccount>, name: Seq<char>, i: int) -> Option<
    WaffleAccount,
>
    decreases accounts.len() - i,
{
    if i < 0 || i >= accounts.len() {
        None
    } else if accounts[i].waffle.name@ == name {
        Some(accounts[i])
    } else {
        find_from(accounts, name, i + 1)
    }
}

proof fn lemma_find_none(accounts: Seq<WaffleAccount>, name: Seq<char>, i: int)
    requires
        0 <= i <= accounts.len(),
        find_from(accounts, name, i) is None,
    ensures
        forall|k: int| i <= k < accounts.len() ==> accounts[k].waffle.name@ != name,
    decreases accounts.len() - i,
{
    if i < accounts.len() {
        lemma_find_none(accounts, name, i + 1);
    }
}

proof fn lemma_no_match_find_none(accounts: Seq<WaffleAccount>, name: Seq<char>, i: int)
    requires
        0 <= i <= accounts.len(),
        forall|k: int| i <= k < accounts.len() ==> accounts[k].waffle.name@ != name,
    ensures
        find_from(accounts, name, i) is None,
    decreases accounts.len() - i,
{
    if i < accounts.len() {
        lemma_no_match_find_none(accounts, name, i + 1);
    }
}

proof fn lemma_find_at(accounts: Seq<WaffleAccount>, name: Seq<char>, i: int, j: int)
    requires
        0 <= i <= j < accounts.len(),
        accounts[j].waffle.name@ == name,
        forall|k: int| i <= k < j ==> accounts[k].waffle.name@ != name,
    ensures
        find_from(accounts, name, i) == Some(accounts[j]),
    decreases j - i,
{
    if i < j {
        lemma_find_at(accounts, name, i + 1, j);
    }
}

proof fn lemma_find_some(accounts: Seq<WaffleAccount>, name: Seq<char>, i: int)
    requires
        0 <= i <= accounts.len(),
        find_from(accounts, name, i) is Some,
    ensures
        exists|j: int|
            i <= j < accounts.len() && accounts[j].waffle.name@ == name && find_from(
                accounts,
                name,
                i,
            ) == Some(accounts[j]) && (forall|k: int|
                i <= k < j ==> accounts[k].waffle.name@ != name),
    decreases accounts.len() - i,
{
    if accounts[i].waffle.name@ == name {
    } else {
        lemma_find_some(accounts, name, i + 1);
        let j = choose|j: int|
            i + 1 <= j < accounts.len() && accounts[j].waffle.name@ == name && find_from(
                accounts,
                name,
                i + 1,
            ) == Some(accounts[j]) && (forall|k: int|
                i + 1 <= k < j ==> accounts[k].waffle.name@ != name);
        assert(forall|k: int| i <= k < j ==> accounts[k].waffle.name@ != name);
    }
}

/// What a creation call does: `r` is exactly the outcome of the length
/// checks; an invalid name leaves the store untouched; a valid name ends
/// with the record under `name` carrying the caller as author, sized for
/// this name when freshly allocated and keeping its original storage when
/// reused, while every other name's record is unchanged.
pub open spec fn create_transition(
    pre: WaffleStore,
    post: WaffleStore,
    author: Pubkey,
    name: Seq<char>,
    r: Result<(), WaffleError>,
) -> bool {
    &&& r == name_check(name)
    &&& post.program_id == pre.program_id
    &&& !valid_name(name) ==> post == pre
    &&& valid_name(name) ==> {
        &&& match post.spec_find(name) {
            Some(acc) => {
                &&& acc.waffle.author == author
                &&& acc.waffle.name@ == name
                &&& match pre.spec_find(name) {
                    Some(prior) => acc.space == prior.space && post.record_count()
                        == pre.record_count(),
                    None => acc.space as nat == Waffle::LEN + utf8_len(name)
                        && post.record_count() == pre.record_count() + 1,
                }
            },
            None => false,
        }
        &&& forall|other: Seq<char>|
            other != name ==> post.spec_find(other) == pre.spec_find(other)
    }
}

impl WaffleStore {
    /// Distinct records never share a name.
    pub open spec fn wf(self) -> bool {
        forall|i: int, j: int|
            0 <= i < j < self.accounts@.len() ==> self.accounts@[i].waffle.name@
                != self.accounts@[j].waffle.name@
    }

    /// The record stored under `name`, if any.
    pub open spec fn spec_find(self, name: Seq<char>) -> Option<WaffleAccount> {
        find_from(self.accounts@, name, 0)
    }

    /// How many records exist.
    pub open spec fn record_count(self) -> nat {
        self.accounts@.len()
    }

    /// An empty store for the given program.
    pub fn new(program_id: [u8; 32]) -> (s: WaffleStore)
        ensures
            s.wf(),
            s.program_id == program_id,
            s.record_count() == 0,
            forall|name: Seq<char>| s.spec_find(name) is None,
    {
        WaffleStore { program_id, accounts: Vec::new() }
    }

    /// How many records the store holds.
    pub fn len(&self) -> (n: usize)
        ensures
            n == self.record_count(),
    {
        self.accounts.len()
    }

    /// The index of the record named `name`, if one exists.
    fn find_index(&self, name: &String) -> (r: Option<usize>)
        ensures
            r matches Some(i) ==> i < self.accounts@.len() && self.accounts@[i as int].waffle.name@
                == name@ && self.spec_find(name@) == Some(self.accounts@[i as int]),
            r is None ==> self.spec_find(name@) is None,
    {
        let mut i: usize = 0;
        while i < self.accounts.len()
            invariant
                i <= self.accounts@.len(),
                find_from(self.accounts@, name@, 0) == find_from(self.accounts@, name@, i as int),
            decreases self.accounts@.len() - i,
        {
            if self.accounts[i].waffle.name == *name {
                return Some(i);
            }
            i = i + 1;
        }
        None
    }

    /// The record named `name`, if any.
    pub fn get(&self, name: &String) -> (r: Option<&WaffleAccount>)
        ensures
            r matches Some(acc) ==> self.spec_find(name@) == Some(*acc),
            r is None ==> self.spec_find(name@) is None,
    {
        match self.find_index(name) {
            Some(i) => Some(&self.accounts[i]),
            None => None,
        }
    }

    /// Creates (or overwrites) the record named `name`, owned by the signer
    /// in `ctx`. The name must have 2 to 29 characters; a name of 30 or more
    /// is rejected as `NameTooLong`, one of 1 or fewer as `NameEmpty`, and a
    /// rejected call changes nothing. A fresh record's storage is sized for
    /// exactly this name's bytes; a reused record keeps the storage of its
    /// first creation. A reused record's author and name are overwritten
    /// unconditionally, whoever created it first.
    pub fn create_waffle(&mut self, ctx: &CreateWaffle, name: String) -> (r: Result<
        (),
        WaffleError,
    >)
        requires
            old(self).wf(),
        ensures
            final(self).wf(),
            create_transition(*old(self), *final(self), ctx.author, name@, r),
    {
        let ghost name_view = name@;
        if let Err(e) = validate_name(name.as_str()) {
            return Err(e);
        }
        match self.find_index(&name) {
            Some(i) => {
                let space = self.accounts[i].space;
                proof {
                    lemma_find_some(self.accounts@, name_view, 0);
                }
                let ghost pre = self.accounts@;
                let ghost j = choose|j: int|
                    0 <= j < pre.len() && pre[j].waffle.name@ == name_view && find_from(
                        pre,
                        name_view,
                        0,
                    ) == Some(pre[j]) && (forall|k: int|
                        0 <= k < j ==> pre[k].waffle.name@ != name_view);
                self.accounts.set(i, WaffleAccount { space, waffle: Waffle::new(ctx.author, name) });
                proof {
                    let post = self.accounts@;
                    assert(i == j) by {
                        if i < j {
                            assert(pre[i as int].waffle.name@ != name_view);
                        } else if j < i as int {
                            assert(pre[j].waffle.name@ == pre[i as int].waffle.name@);
                        }
                    }
                    assert(post[j].waffle.name@ == name_view);
                    lemma_find_at(post, name_view, 0, j);
                    assert forall|other: Seq<char>| other != name_view implies find_from(
                        post,
                        other,
                        0,
                    ) == find_from(pre, other, 0) by {
                        Self::lemma_update_preserves_other(pre, post, j, name_view, other);
                    }
                }
                Ok(())
            },
            None => {
                proof {
                    lemma_find_none(self.accounts@, name_view, 0);
                }
                let space = required_space(name.as_str());
                let ghost pre = self.accounts@;
                self.accounts.push(WaffleAccount { space, waffle: Waffle::new(ctx.author, name) });
                proof {
                    let post = self.accounts@;
                    let n = pre.len() as int;
                    assert(post[n].waffle.name@ == name_view);
                    lemma_find_at(post, name_view, 0, n);
                    assert forall|other: Seq<char>| other != name_view implies find_from(
                        post,
                        other,
                        0,
                    ) == find_from(pre, other, 0) by {
                        Self::lemma_push_preserves_other(pre, post, name_view, other);
                    }
                }
                Ok(())
            },
        }
    }

    /// Replacing the record at `j` with one of the same name leaves every
    /// other name's lookup unchanged.
    proof fn lemma_update_preserves_other(
        pre: Seq<WaffleAccount>,
        post: Seq<WaffleAccount>,
        j: int,
        name: Seq<char>,
        other: Seq<char>,
    )
        requires
            0 <= j < pre.len(),
            post.len() == pre.len(),
            pre[j].waffle.name@ == name,
            post[j].waffle.name@ == name,
            forall|k: int| 0 <= k < pre.len() && k != j ==> post[k] == pre[k],
            other != name,
        ensures
            find_from(post, other, 0) == find_from(pre, other, 0),
    {
        if find_from(pre, other, 0) is Some {
            lemma_find_some(pre, other, 0);
            let m = choose|m: int|
                0 <= m < pre.len() && pre[m].waffle.name@ == other && find_from(pre, other, 0)
                    == Some(pre[m]) && (forall|k: int|
                    0 <= k < m ==> pre[k].waffle.name@ != other);
            assert(m != j);
            assert(forall|k: int| 0 <= k < m ==> post[k].waffle.name@ != other);
            lemma_find_at(post, other, 0, m);
        } else {
            lemma_find_none(pre, other, 0);
            assert(forall|k: int| 0 <= k < post.len() ==> post[k].waffle.name@ != other);
            lemma_no_match_find_none(post, other, 0);
        }
    }

    /// Appending a record named `name` leaves every other name's lookup
    /// unchanged.
    proof fn lemma_push_preserves_other(
        pre: Seq<WaffleAccount>,
        post: Seq<WaffleAccount>,
        name: Seq<char>,
        other: Seq<char>,
    )
        requires
            post.len() == pre.len() + 1,
            post[pre.len() as int].waffle.name@ == name,
            forall|k: int| 0 <= k < pre.len() ==> post[k] == pre[k],
            other != name,
        ensures
            find_from(post, other, 0) == find_from(pre, other, 0),
    {
        if find_from(pre, other, 0) is Some {
            lemma_find_some(pre, other, 0);
            let m = choose|m: int|
                0 <= m < pre.len() && pre[m].waffle.name@ == other && find_from(pre, other, 0)
                    == Some(pre[m]) && (forall|k: int|
                    0 <= k < m ==> pre[k].waffle.name@ != other);
            assert(forall|k: int| 0 <= k < m ==> post[k].waffle.name@ != other);
            lemma_find_at(post, other, 0, m);
        } else {
            lemma_find_none(pre, other, 0);
            assert(forall|k: int| 0 <= k < post.len() ==> post[k].waffle.name@ != other);
            lemma_no_match_find_none(post, other, 0);
        }
    }

    /// The record stored at the derived address `address`, if any: the
    /// record whose name the platform resolves to that address.
    pub fn get_by_address(&self, address: &[u8; 32]) -> (r: Option<&WaffleAccount>)
        ensures
            r matches Some(acc) ==> (exists|i: int|
                0 <= i < self.accounts@.len() && self.accounts@[i] == *acc) && waffle_address(
                acc.waffle.name@,
                self.program_id@,
            ) == Some(address@),
            r is None ==> forall|i: int|
                0 <= i < self.accounts@.len() ==> waffle_address(
                    self.accounts@[i].waffle.name@,
                    self.program_id@,
                ) != Some(address@),
    {
        let mut i: usize = 0;
        while i < self.accounts.len()
            invariant
                i <= self.accounts@.len(),
                forall|k: int|
                    0 <= k < i ==> waffle_address(
                        self.accounts@[k].waffle.name@,
                        self.program_id@,
                    ) != Some(address@),
            decreases self.accounts@.len() - i,
        {
            if let Some(derived) = derive_waffle_address(
                self.accounts[i].waffle.name.as_str(),
                &self.program_id,
            ) {
                if bytes32_eq(&derived, address) {
                    return Some(&self.accounts[i]);
                }
            }
            i = i + 1;
        }
        None
    }
}

/// Law: creating a second time under a name that already has a record
/// reassigns ownership — the record ends up with the second caller as its
/// author, whoever created it — and keeps the storage the first creation
/// allocated rather than resizing it for the second write.
pub proof fn lemma_recreation_overwrites_author(
    s0: WaffleStore,
    s1: WaffleStore,
    s2: WaffleStore,
    first: Pubkey,
    second: Pubkey,
    name: Seq<char>,
    r1: Result<(), WaffleError>,
    r2: Result<(), WaffleError>,
)
    requires
        valid_name(name),
        s0.spec_find(name) is None,
        create_transition(s0, s1, first, name, r1),
        create_transition(s1, s2, second, name, r2),
    ensures
        r1 is Ok && r2 is Ok,
        s2.spec_find(name) matches Some(acc) && acc.waffle.author == second && acc.space as nat
            == Waffle::LEN + utf8_len(name),
        s2.record_count() == s1.record_count(),
{
}

/// Byte-for-byte equality of two 32-byte addresses.
pub fn bytes32_eq(a: &[u8; 32], b: &[u8; 32]) -> (r: bool)
    ensures
        r <==> a@ == b@,
{
    let mut i: usize = 0;
    while i < 32
        invariant
            i <= 32,
            forall|k: int| 0 <= k < i ==> a@[k] == b@[k],
        decreases 32 - i,
    {
        if a[i] != b[i] {
            return false;
        }
        i = i + 1;
    }
    proof {
        assert(a@ =~= b@);
    }
    true
}

} // verus!
