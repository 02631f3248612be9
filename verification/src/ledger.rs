use vstd::prelude::*;

use vstd::pervasive::VecAdditionalExecFns;

use crate::addresses::{addr_eq, authorizes_check, Credential};
use crate::errors::CustodyError;

verus! {

/// One balance record: what one owner holds of the asset.
#[derive(Clone, Copy)]
pub struct Ledger {
    pub owner: [u8; 32],
    pub balance: u64,
}

/// No two records share an owner.
pub open spec fn unique_owners(s: Seq<Ledger>) -> bool {
    forall|i: int, j: int| 0 <= i < j < s.len() ==> s[i].owner@ != s[j].owner@
}

/// A record for this owner exists.
pub open spec fn seq_has_owner(s: Seq<Ledger>, owner: Seq<u8>) -> bool {
    exists|i: int| 0 <= i < s.len() && s[i].owner@ == owner
}

/// The index of the owner's record, where one exists.
pub open spec fn owner_index(s: Seq<Ledger>, owner: Seq<u8>) -> int {
    choose|i: int| 0 <= i < s.len() && s[i].owner@ == owner
}

/// The owner's balance; an owner without a record holds nothing.
pub open spec fn seq_balance(s: Seq<Ledger>, owner: Seq<u8>) -> int {
    if seq_has_owner(s, owner) {
        s[owner_index(s, owner)].balance as int
    } else {
        0
    }
}

/// The sum of all balances in the book.
pub open spec fn sum_balances(s: Seq<Ledger>) -> int
    decreases s.len(),
{
    if s.len() == 0 {
        0
    } else {
        sum_balances(s.drop_last()) + s.last().balance
    }
}

pub proof fn lemma_sum_nonneg(s: Seq<Ledger>)
    ensures
        sum_balances(s) >= 0,
    decreases s.len(),
{
    if s.len() > 0 {
        lemma_sum_nonneg(s.drop_last());
    }
}

pub proof fn lemma_sum_push(s: Seq<Ledger>, l: Ledger)
    ensures
        sum_balances(s.push(l)) == sum_balances(s) + l.balance,
{
    assert(s.push(l).drop_last() =~= s);
}

pub proof fn lemma_sum_update(s: Seq<Ledger>, i: int, l: Ledger)
    requires
        0 <= i < s.len(),
    ensures
        sum_balances(s.update(i, l)) == sum_balances(s) - s[i].balance + l.balance,
    decreases s.len(),
{
    let t = s.update(i, l);
    if i == s.len() - 1 {
        assert(t.drop_last() =~= s.drop_last());
    } else {
        assert(t.drop_last() =~= s.drop_last().update(i, l));
        lemma_sum_update(s.drop_last(), i, l);
        assert(t.last() == s.last());
    }
}

pub proof fn lemma_element_le_sum(s: Seq<Ledger>, i: int)
    requires
        0 <= i < s.len(),
    ensures
        s[i].balance <= sum_balances(s),
    decreases s.len(),
{
    if i == s.len() - 1 {
        lemma_sum_nonneg(s.drop_last());
    } else {
        lemma_element_le_sum(s.drop_last(), i);
        assert(s.drop_last()[i] == s[i]);
    }
}

pub proof fn lemma_pair_le_sum(s: Seq<Ledger>, i: int, j: int)
    requires
        0 <= i < s.len(),
        0 <= j < s.len(),
        i != j,
    ensures
        s[i].balance + s[j].balance <= sum_balances(s),
{
    let zeroed = Ledger { owner: s[i].owner, balance: 0 };
    let t = s.update(i, zeroed);
    lemma_sum_update(s, i, zeroed);
    lemma_element_le_sum(t, j);
    assert(t[j] == s[j]);
}

/// With unique owners, the record at a known index is the one the owner's
/// balance reads from.
pub proof fn lemma_balance_at(s: Seq<Ledger>, i: int)
    requires
        unique_owners(s),
        0 <= i < s.len(),
    ensures
        seq_has_owner(s, s[i].owner@),
        seq_balance(s, s[i].owner@) == s[i].balance,
{
    assert(seq_has_owner(s, s[i].owner@));
    let k = owner_index(s, s[i].owner@);
    assert(0 <= k < s.len() && s[k].owner@ == s[i].owner@);
    if k != i {
        assert(false);
    }
}

/// Replacing one record with another of the same owner changes that owner's
/// balance alone, and the sum by the difference.
pub proof fn lemma_update_balance(s: Seq<Ledger>, i: int, l: Ledger)
    requires
        unique_owners(s),
        0 <= i < s.len(),
        l.owner@ == s[i].owner@,
    ensures
        unique_owners(s.update(i, l)),
        forall|o: Seq<u8>| seq_has_owner(s.update(i, l), o) == seq_has_owner(s, o),
        seq_balance(s.update(i, l), l.owner@) == l.balance,
        forall|o: Seq<u8>|
            o != l.owner@ ==> seq_balance(s.update(i, l), o) == seq_balance(s, o),
        sum_balances(s.update(i, l)) == sum_balances(s) - s[i].balance + l.balance,
{
    let t = s.update(i, l);
    assert(forall|k: int| 0 <= k < s.len() ==> t[k].owner@ == s[k].owner@);
    assert forall|o: Seq<u8>| seq_has_owner(t, o) == seq_has_owner(s, o) by {
        if seq_has_owner(t, o) {
            let k = choose|k: int| 0 <= k < t.len() && t[k].owner@ == o;
            assert(s[k].owner@ == o);
        }
        if seq_has_owner(s, o) {
            let k = choose|k: int| 0 <= k < s.len() && s[k].owner@ == o;
            assert(t[k].owner@ == o);
        }
    }
    lemma_balance_at(t, i);
    assert forall|o: Seq<u8>| o != l.owner@ implies seq_balance(t, o) == seq_balance(s, o) by {
        if seq_has_owner(s, o) {
            let k = owner_index(s, o);
            assert(0 <= k < s.len() && s[k].owner@ == o);
            assert(k != i);
            lemma_balance_at(t, k);
            lemma_balance_at(s, k);
        }
    }
    lemma_sum_update(s, i, l);
}

/// Appending a record for a new owner leaves every other owner's balance,
/// and adds the new balance to the sum.
pub proof fn lemma_push_new(s: Seq<Ledger>, l: Ledger)
    requires
        unique_owners(s),
        !seq_has_owner(s, l.owner@),
    ensures
        unique_owners(s.push(l)),
        forall|o: Seq<u8>|
            o != l.owner@ ==> seq_has_owner(s.push(l), o) == seq_has_owner(s, o),
        seq_has_owner(s.push(l), l.owner@),
        seq_balance(s.push(l), l.owner@) == l.balance,
        forall|o: Seq<u8>| o != l.owner@ ==> seq_balance(s.push(l), o) == seq_balance(s, o),
        sum_balances(s.push(l)) == sum_balances(s) + l.balance,
{
    let t = s.push(l);
    assert(forall|k: int| 0 <= k < s.len() ==> t[k] == s[k]);
    assert(t[s.len() as int] == l);
    assert forall|i: int, j: int| 0 <= i < j < t.len() implies t[i].owner@ != t[j].owner@ by {
        if j < s.len() {
        } else {
            assert(t[i] == s[i]);
        }
    }
    lemma_balance_at(t, s.len() as int);
    assert forall|o: Seq<u8>| o != l.owner@ implies seq_has_owner(t, o) == seq_has_owner(s, o)
        && seq_balance(t, o) == seq_balance(s, o) by {
        if seq_has_owner(s, o) {
            let k = owner_index(s, o);
            assert(0 <= k < s.len() && s[k].owner@ == o);
            assert(t[k].owner@ == o);
            lemma_balance_at(t, k);
            lemma_balance_at(s, k);
        } else {
            if seq_has_owner(t, o) {
                let k = choose|k: int| 0 <= k < t.len() && t[k].owner@ == o;
                assert(k == s.len());
                assert(false);
            }
        }
    }
    lemma_sum_push(s, l);
}

/// The bookkeeping store of the asset: one balance record per owner. Wraps
/// what an external token-bookkeeping primitive owns, with the preconditions
/// enforced here.
pub struct LedgerBook {
    pub entries: Vec<Ledger>,
}

impl LedgerBook {
    /// No two records share an owner.
    pub open spec fn owners_unique(self) -> bool {
        unique_owners(self.entries@)
    }

    /// A record for this owner exists.
    pub open spec fn has_ledger(self, owner: Seq<u8>) -> bool {
        seq_has_owner(self.entries@, owner)
    }

    /// The owner's balance; an owner without a record holds nothing.
    pub open spec fn balance_of(self, owner: Seq<u8>) -> int {
        seq_balance(self.entries@, owner)
    }

    /// The sum of every balance in the book.
    pub open spec fn total(self) -> int {
        sum_balances(self.entries@)
    }

    /// An empty book.
    pub fn new() -> (book: LedgerBook)
        ensures
            book.entries@.len() == 0,
            book.owners_unique(),
            book.total() == 0,
            forall|o: Seq<u8>| !book.has_ledger(o) && book.balance_of(o) == 0,
    {
        LedgerBook { entries: Vec::new() }
    }

    /// The index of the owner's record, if one exists.
    fn find_index(&self, owner: &[u8; 32]) -> (r: Option<usize>)
        ensures
            match r {
                Some(i) => i < self.entries@.len() && self.entries@[i as int].owner@ == owner@,
                None => !self.has_ledger(owner@),
            },
    {
        let mut i: usize = 0;
        while i < self.entries.len()
            invariant
                0 <= i <= self.entries@.len(),
                forall|j: int| 0 <= j < i ==> self.entries@[j].owner@ != owner@,
            decreases self.entries@.len() - i,
        {
            let e = &self.entries[i];
            if addr_eq(&e.owner, owner) {
                return Some(i);
            }
            i = i + 1;
        }
        None
    }

    /// Reads the owner's balance; an owner without a record holds nothing.
    pub fn balance(&self, owner: &[u8; 32]) -> (b: u64)
        requires
            self.owners_unique(),
        ensures
            b as int == self.balance_of(owner@),
    {
        match self.find_index(owner) {
            Some(i) => {
                proof {
                    lemma_balance_at(self.entries@, i as int);
                }
                self.entries[i].balance
            },
            None => 0,
        }
    }

    /// Creates the owner's record if it is absent, a no-op otherwise. The
    /// flag says whether creation occurred, so a caller can tell "already
    /// existed" from "just created". No balance changes either way.
    pub fn get_or_create(&mut self, owner: &[u8; 32]) -> (created: bool)
        requires
            old(self).owners_unique(),
        ensures
            final(self).owners_unique(),
            created == !old(self).has_ledger(owner@),
            final(self).has_ledger(owner@),
            final(self).balance_of(owner@) == old(self).balance_of(owner@),
            forall|o: Seq<u8>|
                o != owner@ ==> final(self).balance_of(o) == old(self).balance_of(o),
            forall|o: Seq<u8>|
                o != owner@ ==> final(self).has_ledger(o) == old(self).has_ledger(o),
            final(self).total() == old(self).total(),
    {
        match self.find_index(owner) {
            Some(i) => {
                proof {
                    assert(self.entries@[i as int].owner@ == owner@);
                }
                false
            },
            None => {
                let l = Ledger { owner: *owner, balance: 0 };
                proof {
                    lemma_push_new(self.entries@, l);
                }
                self.entries.push(l);
                true
            },
        }
    }

    /// Mints `amount` new units into the owner's record, under the asset's
    /// supply counter. Fails with `Unauthorized` unless the credential
    /// authorizes acting as the mint authority, and with `Overflow` when the
    /// amount would push the supply counter past its representable range.
    /// On success returns the new supply, grown by exactly `amount`.
    pub fn mint(
        &mut self,
        mint_authority: &[u8; 32],
        supply: u64,
        to: &[u8; 32],
        amount: u64,
        credential: &Credential,
        program_id: &[u8; 32],
    ) -> (r: Result<u64, CustodyError>)
        requires
            old(self).owners_unique(),
            old(self).has_ledger(to@),
            old(self).total() == supply,
        ensures
            final(self).owners_unique(),
            (r is Err ==> final(self).entries@ == old(self).entries@),
            (r == Err::<u64, CustodyError>(CustodyError::Unauthorized) <==> !credential.authorizes(
                mint_authority@,
                program_id@,
            )),
            (r == Err::<u64, CustodyError>(CustodyError::Overflow) <==> credential.authorizes(
                mint_authority@,
                program_id@,
            ) && supply + amount > u64::MAX),
            (r is Ok <==> credential.authorizes(mint_authority@, program_id@) && supply + amount
                <= u64::MAX),
            (r matches Ok(new_supply) ==> {
                &&& new_supply == supply + amount
                &&& final(self).balance_of(to@) == old(self).balance_of(to@) + amount
                &&& forall|o: Seq<u8>|
                    o != to@ ==> final(self).balance_of(o) == old(self).balance_of(o)
                &&& forall|o: Seq<u8>| final(self).has_ledger(o) == old(self).has_ledger(o)
                &&& final(self).total() == old(self).total() + amount
            }),
    {
        if !authorizes_check(credential, mint_authority, program_id) {
            return Err(CustodyError::Unauthorized);
        }
        if amount > u64::MAX - supply {
            return Err(CustodyError::Overflow);
        }
        let i = match self.find_index(to) {
            Some(i) => i,
            None => {
                return unreached();
            },
        };
        proof {
            lemma_element_le_sum(self.entries@, i as int);
            lemma_balance_at(self.entries@, i as int);
        }
        let ow = self.entries[i].owner;
        let b = self.entries[i].balance;
        let l = Ledger { owner: ow, balance: b + amount };
        proof {
            lemma_update_balance(self.entries@, i as int, l);
        }
        self.entries.set(i, l);
        Ok(supply + amount)
    }

    /// Moves `amount` from one record to another. Fails with `Unauthorized`
    /// unless the credential authorizes spending from the source's owner,
    /// and with `InsufficientBalance` when the source holds less than
    /// `amount`; either failure leaves the book unchanged. On success the
    /// source shrinks and the destination grows by exactly `amount` (a
    /// transfer onto the same record changes nothing), and the sum over the
    /// book is unchanged.
    pub fn transfer(
        &mut self,
        from: &[u8; 32],
        to: &[u8; 32],
        amount: u64,
        credential: &Credential,
        program_id: &[u8; 32],
    ) -> (r: Result<(), CustodyError>)
        requires
            old(self).owners_unique(),
            old(self).has_ledger(from@),
            old(self).has_ledger(to@),
            old(self).total() <= u64::MAX,
        ensures
            final(self).owners_unique(),
            (r is Err ==> final(self).entries@ == old(self).entries@),
            (r == Err::<(), CustodyError>(CustodyError::Unauthorized) <==> !credential.authorizes(
                from@,
                program_id@,
            )),
            (r == Err::<(), CustodyError>(CustodyError::InsufficientBalance)
                <==> credential.authorizes(from@, program_id@) && amount > old(self).balance_of(
                from@,
            )),
            (r is Ok <==> credential.authorizes(from@, program_id@) && amount <= old(
                self,
            ).balance_of(from@)),
            (r is Ok ==> {
                &&& (from@ == to@ ==> forall|o: Seq<u8>|
                    final(self).balance_of(o) == old(self).balance_of(o))
                &&& (from@ != to@ ==> final(self).balance_of(from@) == old(self).balance_of(from@)
                    - amount && final(self).balance_of(to@) == old(self).balance_of(to@) + amount)
                &&& forall|o: Seq<u8>|
                    o != from@ && o != to@ ==> final(self).balance_of(o) == old(self).balance_of(o)
                &&& forall|o: Seq<u8>| final(self).has_ledger(o) == old(self).has_ledger(o)
                &&& final(self).total() == old(self).total()
            }),
    {
        if !authorizes_check(credential, from, program_id) {
            return Err(CustodyError::Unauthorized);
        }
        let fi = match self.find_index(from) {
            Some(i) => i,
            None => {
                return unreached();
            },
        };
        proof {
            lemma_balance_at(self.entries@, fi as int);
        }
        let fb = self.entries[fi].balance;
        if amount > fb {
            return Err(CustodyError::InsufficientBalance);
        }
        let ti = match self.find_index(to) {
            Some(i) => i,
            None => {
                return unreached();
            },
        };
        proof {
            lemma_balance_at(self.entries@, ti as int);
        }
        if fi == ti {
            proof {
                assert(from@ == to@);
            }
            return Ok(());
        }
        proof {
            assert(from@ != to@);
            lemma_pair_le_sum(self.entries@, fi as int, ti as int);
        }
        let fow = self.entries[fi].owner;
        let l1 = Ledger { owner: fow, balance: fb - amount };
        proof {
            lemma_update_balance(self.entries@, fi as int, l1);
        }
        self.entries.set(fi, l1);
        let tow = self.entries[ti].owner;
        let tb = self.entries[ti].balance;
        let l2 = Ledger { owner: tow, balance: tb + amount };
        proof {
            lemma_update_balance(self.entries@, ti as int, l2);
        }
        self.entries.set(ti, l2);
        Ok(())
    }
}

} // verus!
