//! The admin-gated contract variant: a single admin account holds exclusive
//! mint rights and may hand them over; no dedup set is kept, so repeat mints
//! for the same (event, recipient) pair succeed and yield distinct tokens.

use vstd::prelude::*;

use crate::ledger::{owned_ids, Ledger};
use crate::token::{AccountId, AttendanceNft, TokenView};

verus! {

/// The contract state of the gated variant: the ledger plus the single
/// account with exclusive mint and self-transfer rights.
pub struct AttendanceNFT {
    ledger: Ledger,
    /// Current admin; the only account whose mint requests are authorized.
    owner: AccountId,
}

impl AttendanceNFT {
    /// All issued tokens, in mint order.
    pub closed spec fn tokens(&self) -> Seq<TokenView> {
        self.ledger.tokens()
    }

    /// Number of tokens issued so far.
    pub closed spec fn count_spec(&self) -> u64 {
        self.ledger.count_spec()
    }

    /// The current admin account.
    pub closed spec fn owner_spec(&self) -> AccountId {
        self.owner
    }

    /// Well-formedness: the ledger invariants hold.
    pub closed spec fn wf(&self) -> bool {
        self.ledger.wf()
    }

    /// A fresh, empty contract whose admin is `caller`.
    pub fn new(caller: AccountId) -> (c: AttendanceNFT)
        ensures
            c.wf(),
            c.count_spec() == 0,
            c.tokens() == Seq::<TokenView>::empty(),
            c.owner_spec() == caller,
    {
        AttendanceNFT { ledger: Ledger::new(), owner: caller }
    }

    /// Mint a token for attending `luma_event_id` to `recipient`, requested
    /// by `caller` at host timestamp `now`. Succeeds if and only if the
    /// caller is the current admin; on refusal the state is left exactly as
    /// it was. On success the new token gets id `count + 1` and stores the
    /// inputs verbatim.
    pub fn mint_nft(
        &mut self,
        caller: AccountId,
        luma_event_id: String,
        recipient: AccountId,
        metadata: String,
        now: u64,
    ) -> (ok: bool)
        requires
            old(self).wf(),
            caller == old(self).owner_spec() ==> old(self).count_spec() < u64::MAX,
        ensures
            final(self).wf(),
            ok == (caller == old(self).owner_spec()),
            !ok ==> *final(self) == *old(self),
            ok ==> final(self).count_spec() == old(self).count_spec() + 1,
            ok ==> final(self).tokens() == old(self).tokens().push(
                (TokenView {
                    id: (old(self).count_spec() + 1) as u64,
                    luma_event_id: luma_event_id@,
                    owner: recipient,
                    metadata: metadata@,
                    minted_at: now,
                }),
            ),
            final(self).owner_spec() == old(self).owner_spec(),
    {
        if caller != self.owner {
            return false;
        }
        self.ledger.mint(luma_event_id, recipient, metadata, now);
        true
    }

    /// The stored token for `nft_id`, or nothing when no token with that id
    /// has been issued.
    pub fn get_nft(&self, nft_id: u64) -> (r: Option<AttendanceNft>)
        requires
            self.wf(),
        ensures
            r is Some <==> 1 <= nft_id <= self.count_spec(),
            (r matches Some(t) ==> t@ == self.tokens()[nft_id - 1]),
    {
        self.ledger.get_token(nft_id)
    }

    /// The ids of the tokens owned by `owner`, in mint order; empty when the
    /// account has never received a token.
    pub fn get_owned_nfts(&self, owner: AccountId) -> (r: Vec<u64>)
        requires
            self.wf(),
        ensures
            r@ == owned_ids(self.tokens(), owner),
    {
        self.ledger.get_holdings(owner)
    }

    /// Total number of tokens minted.
    pub fn get_nft_count(&self) -> (c: u64)
        ensures
            c == self.count_spec(),
    {
        self.ledger.count()
    }

    /// The current admin account.
    pub fn get_owner(&self) -> (o: AccountId)
        ensures
            o == self.owner_spec(),
    {
        self.owner
    }

    /// Hand the admin rights to `new_owner`, requested by `caller`. Succeeds
    /// if and only if the caller is the current admin; on refusal the state,
    /// the admin included, is left exactly as it was. The ledger is never
    /// touched.
    pub fn transfer_ownership(&mut self, caller: AccountId, new_owner: AccountId) -> (ok: bool)
        requires
            old(self).wf(),
        ensures
            final(self).wf(),
            ok == (caller == old(self).owner_spec()),
            !ok ==> *final(self) == *old(self),
            ok ==> final(self).owner_spec() == new_owner,
            final(self).tokens() == old(self).tokens(),
            final(self).count_spec() == old(self).count_spec(),
    {
        if caller != self.owner {
            return false;
        }
        self.owner = new_owner;
        true
    }

    /// Token ids are dense: a well-formed contract holds exactly `count`
    /// tokens, with ids 1 through `count` in mint order, no gaps or repeats.
    pub proof fn lemma_ids_dense(&self)
        requires
            self.wf(),
        ensures
            self.count_spec() == self.tokens().len(),
            forall|i: int|
                0 <= i < self.tokens().len() ==> (#[trigger] self.tokens()[i]).id == i + 1,
    {
        self.ledger.lemma_ids_dense();
    }
}

} // verus!
