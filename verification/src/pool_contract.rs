//! The pool contract: it holds the NEAR staked in pools and paid for
//! mentorings, records which pools and mentorings exist, and pays out what
//! the e-learning contract (its owner) asks for.
use vstd::prelude::*;

use crate::collections::{views_of, StrSet};
use crate::context::{promise_status, promise_status_spec, CallContext, ContractError, PromiseOutcome, Transfer};
use crate::elearning::{limit_or, page_bounds, page_of, start_or_zero};

verus! {

/// Descriptive metadata of the pool contract.
#[derive(Clone, Debug)]
pub struct PoolContractMetadata {
    pub spec: String,
    pub name: String,
    pub symbol: String,
    pub icon: Option<String>,
    pub base_uri: Option<String>,
    pub reference: Option<String>,
    pub reference_hash: Option<Vec<u8>>,
}

/// The pool contract's state.
pub struct PoolContract {
    /// The e-learning contract's account, the only caller of its payouts.
    pub owner_id: String,
    pub metadata_pool_contract: PoolContractMetadata,
    pub all_pool_id: StrSet,
    pub all_mentoring_id: StrSet,
}

/// Keys of the pool contract's persistent collections.
#[derive(PartialEq, Eq, Structural, Clone, Copy, Debug)]
pub enum PoolStorageKey {
    PoolContractMetadata,
    AllPoolId,
    AllMentoringId,
}

/// What a method of the pool contract answers, with the transfers it makes.
pub struct PoolReply {
    pub answer: u128,
    pub transfers: Vec<Transfer>,
}

/// A call from the pool contract to the e-learning contract.
pub enum ElearningCall {
    StakeProcess { pool_id: String, amount: u128 },
    BuyMentoringProcess { mentoring_id: String, amount: u128 },
}

/// The attached deposit is moved to the pool contract's own account, the
/// e-learning contract is called, and `check_result(amount)` follows.
pub struct DepositCall {
    pub deposit: Transfer,
    /// The e-learning contract's account.
    pub elearning: String,
    pub call: ElearningCall,
    pub check_amount: u128,
}

/// A transfer of `amount` to `receiver`.
pub open spec fn transfer_of(t: Transfer, receiver: Seq<char>, amount: u128) -> bool {
    t.receiver@ == receiver && t.amount == amount
}

impl PoolContract {
    /// A pool contract owned by `owner_id` that knows no pool or mentoring.
    pub fn new(owner_id: String, metadata: PoolContractMetadata) -> (c: Self)
        ensures
            c.owner_id == owner_id,
            c.metadata_pool_contract == metadata,
            c.all_pool_id@.len() == 0,
            c.all_mentoring_id@.len() == 0,
    {
        PoolContract {
            owner_id,
            metadata_pool_contract: metadata,
            all_pool_id: StrSet::new(),
            all_mentoring_id: StrSet::new(),
        }
    }

    /// The pool contract the platform deploys: owned by `signer`, with its
    /// standard metadata.
    pub fn init(signer: String) -> (c: Self)
        ensures
            c.owner_id == signer,
            c.metadata_pool_contract.spec@ == "elearning-1.0.0"@,
            c.metadata_pool_contract.name@ == "elearning"@,
            c.metadata_pool_contract.symbol@ == "EganTeam"@,
            c.metadata_pool_contract.icon.is_none(),
            c.metadata_pool_contract.base_uri.is_none(),
            c.metadata_pool_contract.reference.is_none(),
            c.metadata_pool_contract.reference_hash.is_none(),
            c.all_pool_id@.len() == 0,
            c.all_mentoring_id@.len() == 0,
    {
        Self::new(
            signer,
            PoolContractMetadata {
                spec: "elearning-1.0.0".to_string(),
                name: "elearning".to_string(),
                symbol: "EganTeam".to_string(),
                icon: None,
                base_uri: None,
                reference: None,
                reference_hash: None,
            },
        )
    }

    /// Pays `unused_amount` back to the signer.
    pub fn internal_refund(&self, ctx: &CallContext, unused_amount: u128) -> (t: Transfer)
        ensures
            transfer_of(t, ctx.signer@, unused_amount),
    {
        Transfer { receiver: ctx.signer.clone(), amount: unused_amount }
    }

    /// Pays `unused_amount` to `receiver`.
    pub fn internal_transfer(&self, receiver: String, unused_amount: u128) -> (t: Transfer)
        ensures
            t.receiver == receiver && t.amount == unused_amount,
    {
        Transfer { receiver, amount: unused_amount }
    }

    /// Whether the caller is the e-learning contract.
    fn called_by_owner(&self, ctx: &CallContext) -> (b: bool)
        ensures
            b == (self.owner_id@ == ctx.predecessor@),
    {
        self.owner_id == ctx.predecessor
    }

    /// The e-learning contract records a new pool; answers 1.
    pub fn add_pool_id(&mut self, ctx: &CallContext, pool_id: String) -> (r: Result<u128, ContractError>)
        ensures
            r is Ok <==> old(self).owner_id@ == ctx.predecessor@,
            r matches Err(e) ==> *final(self) == *old(self) && e == ContractError::NoPermission,
            r matches Ok(v) ==> v == 1 && *final(self) == (PoolContract { all_pool_id: final(self).all_pool_id, ..*old(self) })
                && final(self).all_pool_id@ == if old(self).all_pool_id@.contains(pool_id@) {
                old(self).all_pool_id@
            } else {
                old(self).all_pool_id@.push(pool_id@)
            },
    {
        if !self.called_by_owner(ctx) {
            return Err(ContractError::NoPermission);
        }
        self.all_pool_id.insert(pool_id);
        Ok(1)
    }

    /// Whether the pool is recorded.
    pub fn check_pool_existence(&self, pool_id: &String) -> (b: bool)
        ensures
            b == self.all_pool_id@.contains(pool_id@),
    {
        self.all_pool_id.contains(pool_id)
    }

    /// The e-learning contract records a new mentoring; answers 1.
    pub fn add_mentoring_id(&mut self, ctx: &CallContext, mentoring_id: String) -> (r: Result<u128, ContractError>)
        ensures
            r is Ok <==> old(self).owner_id@ == ctx.predecessor@,
            r matches Err(e) ==> *final(self) == *old(self) && e == ContractError::NoPermission,
            r matches Ok(v) ==> v == 1 && *final(self) == (PoolContract {
                all_mentoring_id: final(self).all_mentoring_id,
                ..*old(self)
            }) && final(self).all_mentoring_id@ == if old(self).all_mentoring_id@.contains(mentoring_id@) {
                old(self).all_mentoring_id@
            } else {
                old(self).all_mentoring_id@.push(mentoring_id@)
            },
    {
        if !self.called_by_owner(ctx) {
            return Err(ContractError::NoPermission);
        }
        self.all_mentoring_id.insert(mentoring_id);
        Ok(1)
    }

    /// Whether the mentoring is recorded.
    pub fn check_mentoring_existence(&self, mentoring_id: &String) -> (b: bool)
        ensures
            b == self.all_mentoring_id@.contains(mentoring_id@),
    {
        self.all_mentoring_id.contains(mentoring_id)
    }

    /// The e-learning contract pays a mentor `amount`; answers 1.
    pub fn mentoring_claim(&self, ctx: &CallContext, receiver: String, amount: u128) -> (r: Result<
        PoolReply,
        ContractError,
    >)
        ensures
            r is Ok <==> self.owner_id@ == ctx.predecessor@,
            r matches Err(e) ==> e == ContractError::NoPermission,
            r matches Ok(p) ==> p.answer == 1 && p.transfers@.len() == 1 && transfer_of(
                p.transfers@[0],
                receiver@,
                amount,
            ),
    {
        if !self.called_by_owner(ctx) {
            return Err(ContractError::NoPermission);
        }
        let t = self.internal_transfer(receiver, amount);
        Ok(PoolReply { answer: 1, transfers: vec![t] })
    }

    /// The e-learning contract pays a student (the signer) `amount` back;
    /// answers 1.
    pub fn mentoring_withdraw(&self, ctx: &CallContext, amount: u128) -> (r: Result<PoolReply, ContractError>)
        ensures
            r is Ok <==> self.owner_id@ == ctx.predecessor@,
            r matches Err(e) ==> e == ContractError::NoPermission,
            r matches Ok(p) ==> p.answer == 1 && p.transfers@.len() == 1 && transfer_of(
                p.transfers@[0],
                ctx.signer@,
                amount,
            ),
    {
        if !self.called_by_owner(ctx) {
            return Err(ContractError::NoPermission);
        }
        let t = self.internal_refund(ctx, amount);
        Ok(PoolReply { answer: 1, transfers: vec![t] })
    }

    /// The e-learning contract pays the mentor the last lesson's price and,
    /// where something remains, pays it back to the student (the signer);
    /// answers 1.
    pub fn transfer_last_lession(
        &self,
        ctx: &CallContext,
        receiver: String,
        price_per_lession: u128,
        remaining_amout: u128,
    ) -> (r: Result<PoolReply, ContractError>)
        ensures
            r is Ok <==> self.owner_id@ == ctx.predecessor@,
            r matches Err(e) ==> e == ContractError::NoPermission,
            r matches Ok(p) ==> p.answer == 1 && transfer_of(p.transfers@[0], receiver@, price_per_lession) && if remaining_amout
                != 0 {
                p.transfers@.len() == 2 && transfer_of(p.transfers@[1], ctx.signer@, remaining_amout)
            } else {
                p.transfers@.len() == 1
            },
    {
        if !self.called_by_owner(ctx) {
            return Err(ContractError::NoPermission);
        }
        let mut transfers: Vec<Transfer> = Vec::new();
        transfers.push(self.internal_transfer(receiver, price_per_lession));
        if remaining_amout != 0 {
            transfers.push(self.internal_refund(ctx, remaining_amout));
        }
        Ok(PoolReply { answer: 1, transfers })
    }

    /// The e-learning contract pays a staker (the signer) `amount` back;
    /// answers 1.
    pub fn refund(&self, ctx: &CallContext, amount: u128) -> (r: Result<PoolReply, ContractError>)
        ensures
            r is Ok <==> self.owner_id@ == ctx.predecessor@,
            r matches Err(e) ==> e == ContractError::NoPermission,
            r matches Ok(p) ==> p.answer == 1 && p.transfers@.len() == 1 && transfer_of(
                p.transfers@[0],
                ctx.signer@,
                amount,
            ),
    {
        if !self.called_by_owner(ctx) {
            return Err(ContractError::NoPermission);
        }
        let t = self.internal_refund(ctx, amount);
        Ok(PoolReply { answer: 1, transfers: vec![t] })
    }

    /// The signer stakes the attached deposit in a recorded pool: the deposit
    /// goes to the pool contract's account, the e-learning contract records
    /// the stake, and `check_result` refunds it where that fails.
    pub fn stake(&self, ctx: &CallContext, pool_id: String) -> (r: Result<DepositCall, ContractError>)
        ensures
            r is Ok <==> ctx.attached_deposit >= 1 && self.all_pool_id@.contains(pool_id@),
            r matches Err(e) ==> e == if ctx.attached_deposit < 1 {
                ContractError::DepositMissing
            } else {
                ContractError::PoolMissing
            },
            r matches Ok(c) ==> transfer_of(c.deposit, ctx.current_account@, ctx.attached_deposit) && c.elearning
                == self.owner_id && c.call == (ElearningCall::StakeProcess { pool_id, amount: ctx.attached_deposit })
                && c.check_amount == ctx.attached_deposit,
    {
        if ctx.attached_deposit < 1 {
            return Err(ContractError::DepositMissing);
        }
        if !self.check_pool_existence(&pool_id) {
            return Err(ContractError::PoolMissing);
        }
        let amount = ctx.attached_deposit;
        Ok(
            DepositCall {
                deposit: Transfer { receiver: ctx.current_account.clone(), amount },
                elearning: self.owner_id.clone(),
                call: ElearningCall::StakeProcess { pool_id, amount },
                check_amount: amount,
            },
        )
    }

    /// The signer pays the attached deposit for lessons of a recorded
    /// mentoring: the deposit goes to the pool contract's account, the
    /// e-learning contract records the purchase, and `check_result` refunds
    /// it where that fails.
    pub fn buy_mentoring(&self, ctx: &CallContext, mentoring_id: String) -> (r: Result<DepositCall, ContractError>)
        ensures
            r is Ok <==> ctx.attached_deposit >= 1 && self.all_mentoring_id@.contains(mentoring_id@),
            r matches Err(e) ==> e == if ctx.attached_deposit < 1 {
                ContractError::DepositMissing
            } else {
                ContractError::UnknownMentoring
            },
            r matches Ok(c) ==> transfer_of(c.deposit, ctx.current_account@, ctx.attached_deposit) && c.elearning
                == self.owner_id && c.call == (ElearningCall::BuyMentoringProcess {
                mentoring_id,
                amount: ctx.attached_deposit,
            }) && c.check_amount == ctx.attached_deposit,
    {
        if ctx.attached_deposit < 1 {
            return Err(ContractError::DepositMissing);
        }
        if !self.check_mentoring_existence(&mentoring_id) {
            return Err(ContractError::UnknownMentoring);
        }
        let amount = ctx.attached_deposit;
        Ok(
            DepositCall {
                deposit: Transfer { receiver: ctx.current_account.clone(), amount },
                elearning: self.owner_id.clone(),
                call: ElearningCall::BuyMentoringProcess { mentoring_id, amount },
                check_amount: amount,
            },
        )
    }

    /// Callback of `stake` and `buy_mentoring`: where the e-learning contract
    /// answered 1, answers 1; otherwise refunds `amount` to the signer and
    /// answers 2.
    pub fn check_result(&self, ctx: &CallContext, amount: u128, outcome: &PromiseOutcome) -> (r: Result<
        PoolReply,
        ContractError,
    >)
        ensures
            r is Ok <==> !(*outcome is NotReady),
            r matches Err(e) ==> e == ContractError::PromiseNotReady,
            r matches Ok(p) ==> if promise_status_spec(*outcome) == 1 {
                p.answer == 1 && p.transfers@.len() == 0
            } else {
                p.answer == 2 && p.transfers@.len() == 1 && transfer_of(p.transfers@[0], ctx.signer@, amount)
            },
    {
        let result = promise_status(outcome)?;
        if result != 1 {
            let t = self.internal_refund(ctx, amount);
            Ok(PoolReply { answer: 2, transfers: vec![t] })
        } else {
            Ok(PoolReply { answer: 1, transfers: Vec::new() })
        }
    }

    /// The pool ids on one page (default 20 per page).
    pub fn get_all_pool_id(&self, start: Option<u32>, limit: Option<u32>) -> (r: Vec<String>)
        ensures
            views_of(r@) == page_of(self.all_pool_id@, start_or_zero(start), limit_or(limit, 20)),
    {
        ids_on_page(&self.all_pool_id, start, limit)
    }

    /// The mentoring ids on one page (default 20 per page).
    pub fn get_all_mentoring_id(&self, start: Option<u32>, limit: Option<u32>) -> (r: Vec<String>)
        ensures
            views_of(r@) == page_of(self.all_mentoring_id@, start_or_zero(start), limit_or(limit, 20)),
    {
        ids_on_page(&self.all_mentoring_id, start, limit)
    }
}

/// The members of `set` on one page (default 20 per page).
fn ids_on_page(set: &StrSet, start: Option<u32>, limit: Option<u32>) -> (r: Vec<String>)
    ensures
        views_of(r@) == page_of(set@, start_or_zero(start), limit_or(limit, 20)),
{
    let (first, end) = page_bounds(set.len(), start, limit, 20);
    let ghost ids = page_of(set@, start_or_zero(start), limit_or(limit, 20));
    let mut r: Vec<String> = Vec::new();
    let mut i = first;
    while i < end
        invariant
            first <= i <= end <= set@.len(),
            ids.len() == end - first,
            forall|j: int| 0 <= j < ids.len() ==> ids[j] == set@[first + j],
            r@.len() == i - first,
            forall|j: int| 0 <= j < i - first ==> #[trigger] r@[j]@ == ids[j],
        decreases end - i,
    {
        r.push(set.get(i).clone());
        i = i + 1;
    }
    assert(views_of(r@) =~= ids);
    r
}

} // verus!
