use vstd::prelude::*;

use crate::errors::ErrorCode;
use crate::goal::{
    apply_contribution, bytes_eq, check_withdrawal, derive_escrow_authority, derive_proof,
    derived_authority, identifier_valid, identity_eq, validate_identifier, Goal, GoalView,
    Identity,
};

verus! {

/// One slot of the storage collaborator: the goal record, its lazily
/// created escrow holding, and the running total already paid out to the
/// creator by withdrawals.
pub struct GoalEntry {
    pub goal: Goal,
    /// The escrow holding's balance; `None` until the first contribution
    /// creates the holding on demand.
    pub escrow: Option<u64>,
    /// Total value moved out of the escrow to the creator so far.
    pub paid_out: u64,
}

pub ghost struct EntryView {
    pub goal: GoalView,
    pub escrow: Option<u64>,
    pub paid_out: u64,
}

impl View for GoalEntry {
    type V = EntryView;

    open spec fn view(&self) -> EntryView {
        EntryView { goal: self.goal@, escrow: self.escrow, paid_out: self.paid_out }
    }
}

/// The escrow holding's balance; zero while the holding does not exist.
pub open spec fn escrow_balance(e: EntryView) -> u64 {
    match e.escrow {
        Option::Some(b) => b,
        Option::None => 0,
    }
}

/// The storage key of an entry: goals are keyed by (creator, identifier).
pub open spec fn entry_key(e: EntryView) -> (Seq<u8>, Seq<u8>) {
    (e.goal.creator, e.goal.identifier)
}

/// Well-formedness of one entry. The third conjunct is conservation: every
/// unit ever collected is either still in the escrow holding or has been
/// paid out to the creator — no value enters or leaves except via
/// contribution and withdrawal.
pub open spec fn entry_wf(e: EntryView) -> bool {
    &&& identifier_valid(e.goal.identifier)
    &&& e.goal.authority_proof == derive_proof(e.goal.creator, e.goal.identifier)
    &&& e.goal.collected_amount == escrow_balance(e) + e.paid_out
    &&& e.escrow == Option::<u64>::None ==> e.goal.collected_amount == 0
}

/// A successful contribution of `amount`: the collected total and the
/// escrow balance both grow by `amount`; everything else is untouched.
pub open spec fn contribute_step(e: EntryView, amount: u64) -> EntryView {
    EntryView {
        goal: GoalView { collected_amount: (e.goal.collected_amount + amount) as u64, ..e.goal },
        escrow: Option::Some((escrow_balance(e) + amount) as u64),
        paid_out: e.paid_out,
    }
}

/// A successful withdrawal drains the escrow holding completely and books
/// the moved value as paid out. The goal record itself — including
/// `collected_amount` — is left unmodified: a repeated withdrawal clears
/// the threshold check again but moves an empty escrow, a no-op.
pub open spec fn withdraw_step(e: EntryView) -> EntryView {
    EntryView {
        goal: e.goal,
        escrow: match e.escrow {
            Option::Some(_) => Option::Some(0u64),
            Option::None => Option::None,
        },
        paid_out: (e.paid_out + escrow_balance(e)) as u64,
    }
}

/// The keyed mapping owned by the storage collaborator: one entry per
/// created goal, keyed by (creator, identifier).
pub struct Registry {
    pub entries: Vec<GoalEntry>,
}

impl Registry {
    pub open spec fn len(self) -> nat {
        self.entries@.len()
    }

    pub open spec fn entry(self, i: int) -> EntryView {
        self.entries@[i]@
    }

    pub open spec fn key_matches(self, i: int, creator: Seq<u8>, identifier: Seq<u8>) -> bool {
        entry_key(self.entry(i)) == (creator, identifier)
    }

    pub open spec fn has_goal(self, creator: Seq<u8>, identifier: Seq<u8>) -> bool {
        exists|i: int| 0 <= i < self.len() && self.key_matches(i, creator, identifier)
    }

    /// The index of the goal keyed by (creator, identifier); meaningful
    /// whenever `has_goal` holds, and unique in a well-formed registry.
    pub open spec fn index_of(self, creator: Seq<u8>, identifier: Seq<u8>) -> int {
        choose|i: int| 0 <= i < self.len() && self.key_matches(i, creator, identifier)
    }

    pub open spec fn keys_distinct(self) -> bool {
        forall|i: int, j: int|
            0 <= i < self.len() && 0 <= j < self.len() && i != j ==> entry_key(
                #[trigger] self.entry(i),
            ) != entry_key(#[trigger] self.entry(j))
    }

    pub open spec fn wf(self) -> bool {
        &&& forall|i: int| 0 <= i < self.len() ==> entry_wf(#[trigger] self.entry(i))
        &&& self.keys_distinct()
    }

    /// An empty registry: the state before any goal was created.
    pub fn new() -> (r: Registry)
        ensures
            r.len() == 0,
            r.wf(),
    {
        Registry { entries: Vec::new() }
    }

    pub fn goal_count(&self) -> (r: usize)
        ensures
            r == self.len(),
    {
        self.entries.len()
    }

    /// Looks a goal up by its storage key.
    pub fn find_goal(&self, creator: &Identity, identifier: &Vec<u8>) -> (r: Option<usize>)
        ensures
            match r {
                Option::Some(i) => i < self.len() && self.key_matches(
                    i as int,
                    creator@,
                    identifier@,
                ) && self.has_goal(creator@, identifier@),
                Option::None => !self.has_goal(creator@, identifier@),
            },
    {
        let mut i: usize = 0;
        while i < self.entries.len()
            invariant
                0 <= i <= self.entries@.len(),
                forall|k: int| 0 <= k < i ==> !self.key_matches(k, creator@, identifier@),
            decreases self.entries@.len() - i,
        {
            let e = &self.entries[i];
            if identity_eq(creator, &e.goal.creator) && bytes_eq(identifier, &e.goal.identifier) {
                proof {
                    assert(self.key_matches(i as int, creator@, identifier@));
                }
                return Some(i);
            }
            i = i + 1;
        }
        None
    }

    pub fn contains_goal(&self, creator: &Identity, identifier: &Vec<u8>) -> (r: bool)
        ensures
            r <==> self.has_goal(creator@, identifier@),
    {
        match self.find_goal(creator, identifier) {
            Some(_) => true,
            None => false,
        }
    }

    proof fn lemma_index_of_unique(self, creator: Seq<u8>, identifier: Seq<u8>, i: int)
        requires
            self.wf(),
            0 <= i < self.len(),
            self.key_matches(i, creator, identifier),
        ensures
            self.has_goal(creator, identifier),
            self.index_of(creator, identifier) == i,
    {
        assert(self.has_goal(creator, identifier));
        let i0 = self.index_of(creator, identifier);
        assert(0 <= i0 < self.len() && self.key_matches(i0, creator, identifier));
        if i0 != i {
            assert(entry_key(self.entry(i0)) != entry_key(self.entry(i)));
        }
    }

    /// Opens a new goal: allocates the record keyed by (creator,
    /// identifier), with nothing collected yet, no escrow holding, and the
    /// authority proof derived purely from the key. Fails with
    /// `InvalidIdentifier` on an empty or over-long identifier, and with
    /// `DuplicateGoal` when the key is already taken — leaving the prior
    /// record, and the whole registry, untouched.
    pub fn create_goal(
        &mut self,
        creator: &Identity,
        identifier: Vec<u8>,
        target_amount: u64,
    ) -> (r: Result<(), ErrorCode>)
        requires
            old(self).wf(),
        ensures
            final(self).wf(),
            !identifier_valid(identifier@) ==> r == Err::<(), ErrorCode>(
                ErrorCode::InvalidIdentifier,
            ) && *final(self) == *old(self),
            identifier_valid(identifier@) && old(self).has_goal(creator@, identifier@) ==> r
                == Err::<(), ErrorCode>(ErrorCode::DuplicateGoal) && *final(self) == *old(self),
            identifier_valid(identifier@) && !old(self).has_goal(creator@, identifier@) ==> {
                &&& r == Ok::<(), ErrorCode>(())
                &&& final(self).len() == old(self).len() + 1
                &&& final(self).entry(old(self).len() as int) == (EntryView {
                    goal: GoalView {
                        creator: creator@,
                        identifier: identifier@,
                        target_amount: target_amount,
                        collected_amount: 0u64,
                        authority_proof: derive_proof(creator@, identifier@),
                    },
                    escrow: Option::None,
                    paid_out: 0u64,
                })
                &&& forall|j: int|
                    0 <= j < old(self).len() ==> final(self).entry(j) == old(self).entry(j)
                &&& final(self).has_goal(creator@, identifier@)
                &&& final(self).index_of(creator@, identifier@) == old(self).len() as int
            },
    {
        if !validate_identifier(&identifier) {
            return Err(ErrorCode::InvalidIdentifier);
        }
        match self.find_goal(creator, &identifier) {
            Some(_) => Err(ErrorCode::DuplicateGoal),
            None => {
                let authority = derive_escrow_authority(creator, &identifier);
                let entry = GoalEntry {
                    goal: Goal {
                        creator: *creator,
                        identifier: identifier,
                        target_amount: target_amount,
                        collected_amount: 0,
                        authority_proof: authority.proof,
                    },
                    escrow: None,
                    paid_out: 0,
                };
                let ghost new_entry_view = entry@;
                let ghost n = self.entries@.len() as int;
                self.entries.push(entry);
                proof {
                    assert(self.len() == n + 1);
                    assert(self.entry(n) == new_entry_view);
                    assert(new_entry_view.goal.authority_proof == derive_proof(
                        creator@,
                        identifier@,
                    ));
                    assert(entry_wf(new_entry_view));
                    assert forall|j: int| 0 <= j < n implies self.entry(j) == old(self).entry(
                        j,
                    ) by {
                        assert(self.entries@[j] == old(self).entries@[j]);
                    }
                    assert forall|i2: int| 0 <= i2 < self.len() implies entry_wf(
                        #[trigger] self.entry(i2),
                    ) by {
                        if i2 < n {
                            assert(entry_wf(old(self).entry(i2)));
                        }
                    }
                    assert forall|i2: int, j2: int|
                        0 <= i2 < self.len() && 0 <= j2 < self.len() && i2 != j2 implies entry_key(
                        #[trigger] self.entry(i2),
                    ) != entry_key(#[trigger] self.entry(j2)) by {
                        if i2 < n && j2 < n {
                            assert(entry_key(old(self).entry(i2)) != entry_key(
                                old(self).entry(j2),
                            ));
                        } else if i2 == n {
                            assert(!old(self).key_matches(j2, creator@, identifier@));
                        } else {
                            assert(!old(self).key_matches(i2, creator@, identifier@));
                        }
                    }
                    assert(self.key_matches(n, creator@, identifier@));
                    self.lemma_index_of_unique(creator@, identifier@, n);
                }
                Ok(())
            },
        }
    }

    /// Moves `amount` from the contributor's balance into the goal's escrow
    /// holding (creating the holding on first use) and increments the
    /// collected total; returns the contributor's remaining balance. A zero
    /// amount is `InvalidAmount`, a balance below `amount` is
    /// `InsufficientBalance`, and a collected total that would leave the
    /// representable range is `ArithmeticOverflow` (the addition is checked,
    /// never wrapping); each failure leaves every balance and record
    /// untouched. Over-collection past the target is permitted. Goals other
    /// than the addressed one are never affected.
    pub fn contribute(
        &mut self,
        creator: &Identity,
        identifier: &Vec<u8>,
        contributor_balance: u64,
        amount: u64,
    ) -> (r: Result<u64, ErrorCode>)
        requires
            old(self).wf(),
            old(self).has_goal(creator@, identifier@),
        ensures
            final(self).wf(),
            final(self).has_goal(creator@, identifier@),
            final(self).index_of(creator@, identifier@) == old(self).index_of(
                creator@,
                identifier@,
            ),
            ({
                let i = old(self).index_of(creator@, identifier@);
                let e = old(self).entry(i);
                &&& amount == 0 ==> r == Err::<u64, ErrorCode>(ErrorCode::InvalidAmount)
                    && *final(self) == *old(self)
                &&& amount != 0 && contributor_balance < amount ==> r == Err::<u64, ErrorCode>(
                    ErrorCode::InsufficientBalance,
                ) && *final(self) == *old(self)
                &&& amount != 0 && contributor_balance >= amount && e.goal.collected_amount + amount
                    > u64::MAX ==> r == Err::<u64, ErrorCode>(ErrorCode::ArithmeticOverflow)
                    && *final(self) == *old(self)
                &&& amount != 0 && contributor_balance >= amount && e.goal.collected_amount + amount
                    <= u64::MAX ==> {
                    &&& r == Ok::<u64, ErrorCode>((contributor_balance - amount) as u64)
                    &&& final(self).len() == old(self).len()
                    &&& final(self).entry(i) == contribute_step(e, amount)
                    &&& forall|j: int|
                        0 <= j < old(self).len() && j != i ==> final(self).entry(j) == old(
                            self,
                        ).entry(j)
                }
            }),
    {
        let i: usize = self.lookup(creator, identifier);
        if amount == 0 {
            return Err(ErrorCode::InvalidAmount);
        }
        if contributor_balance < amount {
            return Err(ErrorCode::InsufficientBalance);
        }
        let ghost e = self.entry(i as int);
        proof {
            assert(entry_wf(e));
        }
        let entry_ref = &self.entries[i];
        let current_escrow: u64 = match entry_ref.escrow {
            Some(b) => b,
            None => 0,
        };
        let new_collected: u64 = match apply_contribution(entry_ref.goal.collected_amount, amount) {
            Ok(total) => total,
            Err(code) => {
                return Err(code);
            },
        };
        proof {
            assert(current_escrow == escrow_balance(e));
            assert(current_escrow + amount <= e.goal.collected_amount + amount <= u64::MAX);
        }
        let new_escrow: u64 = current_escrow + amount;
        let entry_mut = &mut self.entries[i];
        entry_mut.goal.collected_amount = new_collected;
        entry_mut.escrow = Some(new_escrow);
        proof {
            assert(self.entry(i as int) == contribute_step(e, amount));
            assert forall|j: int|
                0 <= j < old(self).len() && j != i as int implies self.entry(j) == old(
                self,
            ).entry(j) by {
                assert(self.entries@[j] == old(self).entries@[j]);
            }
            assert(entry_wf(self.entry(i as int)));
            assert forall|i2: int| 0 <= i2 < self.len() implies entry_wf(
                #[trigger] self.entry(i2),
            ) by {
                if i2 != i as int {
                    assert(self.entry(i2) == old(self).entry(i2));
                    assert(entry_wf(old(self).entry(i2)));
                }
            }
            assert forall|i2: int, j2: int|
                0 <= i2 < self.len() && 0 <= j2 < self.len() && i2 != j2 implies entry_key(
                #[trigger] self.entry(i2),
            ) != entry_key(#[trigger] self.entry(j2)) by {
                assert(entry_key(old(self).entry(i2)) != entry_key(old(self).entry(j2)));
                assert(entry_key(self.entry(i2)) == entry_key(old(self).entry(i2)));
                assert(entry_key(self.entry(j2)) == entry_key(old(self).entry(j2)));
            }
            assert(self.key_matches(i as int, creator@, identifier@));
            self.lemma_index_of_unique(creator@, identifier@, i as int);
        }
        Ok(contributor_balance - amount)
    }

    /// Drains the goal's escrow holding to the creator, gated by identity
    /// and threshold: any caller other than the creator is `Unauthorized`
    /// whatever the collected amount, and a collected total below the
    /// target is `TargetNotReached` — in both cases nothing changes and no
    /// value moves. On success the outgoing transfer is authorized by
    /// re-deriving the escrow's authority proof from public data, the
    /// entire current escrow balance (not merely the target) is returned as
    /// the moved value, and the collected total is deliberately left as it
    /// was: a later withdrawal clears the threshold again and drains an
    /// empty escrow, a no-op.
    pub fn withdraw(&mut self, caller: &Identity, creator: &Identity, identifier: &Vec<u8>) -> (r:
        Result<u64, ErrorCode>)
        requires
            old(self).wf(),
            old(self).has_goal(creator@, identifier@),
        ensures
            final(self).wf(),
            final(self).has_goal(creator@, identifier@),
            final(self).index_of(creator@, identifier@) == old(self).index_of(
                creator@,
                identifier@,
            ),
            ({
                let i = old(self).index_of(creator@, identifier@);
                let e = old(self).entry(i);
                &&& caller@ != creator@ ==> r == Err::<u64, ErrorCode>(ErrorCode::Unauthorized)
                    && *final(self) == *old(self)
                &&& caller@ == creator@ && e.goal.collected_amount < e.goal.target_amount ==> r
                    == Err::<u64, ErrorCode>(ErrorCode::TargetNotReached) && *final(self) == *old(
                    self,
                )
                &&& caller@ == creator@ && e.goal.collected_amount >= e.goal.target_amount ==> {
                    &&& r == Ok::<u64, ErrorCode>(escrow_balance(e))
                    &&& final(self).len() == old(self).len()
                    &&& final(self).entry(i) == withdraw_step(e)
                    &&& forall|j: int|
                        0 <= j < old(self).len() && j != i ==> final(self).entry(j) == old(
                            self,
                        ).entry(j)
                }
            }),
    {
        let i: usize = self.lookup(creator, identifier);
        let ghost e = self.entry(i as int);
        proof {
            assert(entry_wf(e));
        }
        let entry_ref = &self.entries[i];
        match check_withdrawal(&entry_ref.goal, caller) {
            Err(code) => {
                proof {
                    assert(e.goal.authority_proof == derive_proof(
                        e.goal.creator,
                        e.goal.identifier,
                    ));
                }
                return Err(code);
            },
            Ok(_) => {},
        }
        let moved: u64 = match entry_ref.escrow {
            Some(b) => b,
            None => 0,
        };
        let had_escrow: bool = match entry_ref.escrow {
            Some(_) => true,
            None => false,
        };
        proof {
            assert(moved == escrow_balance(e));
            assert(entry_ref.paid_out + moved == e.goal.collected_amount);
        }
        let new_paid: u64 = entry_ref.paid_out + moved;
        let entry_mut = &mut self.entries[i];
        entry_mut.escrow = if had_escrow {
            Some(0)
        } else {
            None
        };
        entry_mut.paid_out = new_paid;
        proof {
            assert(self.entry(i as int) == withdraw_step(e));
            assert forall|j: int|
                0 <= j < old(self).len() && j != i as int implies self.entry(j) == old(
                self,
            ).entry(j) by {
                assert(self.entries@[j] == old(self).entries@[j]);
            }
            assert(entry_wf(self.entry(i as int)));
            assert forall|i2: int| 0 <= i2 < self.len() implies entry_wf(
                #[trigger] self.entry(i2),
            ) by {
                if i2 != i as int {
                    assert(self.entry(i2) == old(self).entry(i2));
                    assert(entry_wf(old(self).entry(i2)));
                }
            }
            assert forall|i2: int, j2: int|
                0 <= i2 < self.len() && 0 <= j2 < self.len() && i2 != j2 implies entry_key(
                #[trigger] self.entry(i2),
            ) != entry_key(#[trigger] self.entry(j2)) by {
                assert(entry_key(old(self).entry(i2)) != entry_key(old(self).entry(j2)));
                assert(entry_key(self.entry(i2)) == entry_key(old(self).entry(i2)));
                assert(entry_key(self.entry(j2)) == entry_key(old(self).entry(j2)));
            }
            assert(self.key_matches(i as int, creator@, identifier@));
            self.lemma_index_of_unique(creator@, identifier@, i as int);
        }
        Ok(moved)
    }

    /// The goal's immutable target.
    pub fn target_amount_of(&self, creator: &Identity, identifier: &Vec<u8>) -> (r: u64)
        requires
            self.wf(),
            self.has_goal(creator@, identifier@),
        ensures
            r == self.entry(self.index_of(creator@, identifier@)).goal.target_amount,
    {
        let i: usize = self.lookup(creator, identifier);
        self.entries[i].goal.target_amount
    }

    /// The goal's collected total so far.
    pub fn collected_amount_of(&self, creator: &Identity, identifier: &Vec<u8>) -> (r: u64)
        requires
            self.wf(),
            self.has_goal(creator@, identifier@),
        ensures
            r == self.entry(self.index_of(creator@, identifier@)).goal.collected_amount,
    {
        let i: usize = self.lookup(creator, identifier);
        self.entries[i].goal.collected_amount
    }

    /// The balance of the goal's escrow holding; zero while the holding
    /// has not been created yet.
    pub fn escrow_balance_of(&self, creator: &Identity, identifier: &Vec<u8>) -> (r: u64)
        requires
            self.wf(),
            self.has_goal(creator@, identifier@),
        ensures
            r == escrow_balance(self.entry(self.index_of(creator@, identifier@))),
    {
        let i: usize = self.lookup(creator, identifier);
        match self.entries[i].escrow {
            Some(b) => b,
            None => 0,
        }
    }

    /// The total value moved out of the goal's escrow to its creator so
    /// far.
    pub fn paid_out_of(&self, creator: &Identity, identifier: &Vec<u8>) -> (r: u64)
        requires
            self.wf(),
            self.has_goal(creator@, identifier@),
        ensures
            r == self.entry(self.index_of(creator@, identifier@)).paid_out,
    {
        let i: usize = self.lookup(creator, identifier);
        self.entries[i].paid_out
    }

    fn lookup(&self, creator: &Identity, identifier: &Vec<u8>) -> (i: usize)
        requires
            self.wf(),
            self.has_goal(creator@, identifier@),
        ensures
            i < self.len(),
            self.key_matches(i as int, creator@, identifier@),
            i as int == self.index_of(creator@, identifier@),
    {
        match self.find_goal(creator, identifier) {
            Some(i) => {
                proof {
                    self.lemma_index_of_unique(creator@, identifier@, i as int);
                }
                i
            },
            None => {
                proof {
                    assert(false);
                }
                0
            },
        }
    }
}

/// The sum of a sequence of contribution amounts.
pub open spec fn sum_amounts(amounts: Seq<u64>) -> int
    decreases amounts.len(),
{
    if amounts.len() == 0 {
        0
    } else {
        sum_amounts(amounts.drop_last()) + amounts.last()
    }
}

/// The entry state after a whole sequence of successful contributions, one
/// `contribute_step` per amount, in order.
pub open spec fn apply_contributions(e: EntryView, amounts: Seq<u64>) -> EntryView
    decreases amounts.len(),
{
    if amounts.len() == 0 {
        e
    } else {
        contribute_step(apply_contributions(e, amounts.drop_last()), amounts.last())
    }
}

proof fn lemma_sum_amounts_nonneg(amounts: Seq<u64>)
    ensures
        sum_amounts(amounts) >= 0,
    decreases amounts.len(),
{
    if amounts.len() > 0 {
        lemma_sum_amounts_nonneg(amounts.drop_last());
    }
}

/// For every sequence of successful contributions on a freshly created
/// goal, the collected total equals the sum of the applied amounts, and
/// equals the escrow holding's balance — nothing is paid out by
/// contributions alone.
pub proof fn lemma_collected_equals_sum(e: EntryView, amounts: Seq<u64>)
    requires
        e.goal.collected_amount == 0,
        e.escrow == Option::<u64>::None,
        e.paid_out == 0,
        sum_amounts(amounts) <= u64::MAX,
    ensures
        apply_contributions(e, amounts).goal.collected_amount == sum_amounts(amounts),
        escrow_balance(apply_contributions(e, amounts)) == sum_amounts(amounts),
        apply_contributions(e, amounts).paid_out == 0,
    decreases amounts.len(),
{
    if amounts.len() > 0 {
        let prefix = amounts.drop_last();
        lemma_sum_amounts_nonneg(prefix);
        lemma_collected_equals_sum(e, prefix);
    }
}

/// In a well-formed registry, two distinct goal entries — in particular two
/// goals of one creator under different identifiers — always derive
/// distinct escrow authorities: no two goals can ever address, and so never
/// share, one escrow holding.
pub proof fn lemma_distinct_goals_distinct_authorities(r: Registry, i: int, j: int)
    requires
        r.wf(),
        0 <= i < r.len(),
        0 <= j < r.len(),
        i != j,
    ensures
        derived_authority(r.entry(i).goal.creator, r.entry(i).goal.identifier)
            != derived_authority(r.entry(j).goal.creator, r.entry(j).goal.identifier),
{
    let a = derived_authority(r.entry(i).goal.creator, r.entry(i).goal.identifier);
    let b = derived_authority(r.entry(j).goal.creator, r.entry(j).goal.identifier);
    assert(entry_key(r.entry(i)) != entry_key(r.entry(j)));
    assert(a.creator == r.entry(i).goal.creator && a.identifier == r.entry(i).goal.identifier);
    assert(b.creator == r.entry(j).goal.creator && b.identifier == r.entry(j).goal.identifier);
}

} // verus!
