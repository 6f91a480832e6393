//! The open-with-deduplication contract variant: any caller may request a
//! mint for any recipient, but a second mint for an `(event, recipient)`
//! pair that has already been granted a token is refused.

use vstd::prelude::*;

use crate::ledger::{owned_ids, Ledger};
use crate::token::{AccountId, AttendanceNft, TokenView};

verus! {

/// Whether the pair of event id `e` and account `a` occurs in the dedup set.
pub open spec fn pair_in(s: Seq<(String, AccountId)>, e: Seq<char>, a: AccountId) -> bool {
    exists|i: int| 0 <= i < s.len() && (#[trigger] s[i]).0@ == e && s[i].1 == a
}

/// Recording one more pair leaves every previously recorded pair recorded and
/// records exactly the new one besides.
proof fn lemma_pair_in_push(
    s: Seq<(String, AccountId)>,
    p: (String, AccountId),
    e: Seq<char>,
    a: AccountId,
)
    ensures
        pair_in(s.push(p), e, a) <==> (pair_in(s, e, a) || (p.0@ == e && p.1 == a)),
{
    if pair_in(s, e, a) {
        let i = choose|i: int| 0 <= i < s.len() && (#[trigger] s[i]).0@ == e && s[i].1 == a;
        assert(s.push(p)[i] == s[i]);
    }
    if p.0@ == e && p.1 == a {
        assert(s.push(p)[s.len() as int] == p);
    }
    if pair_in(s.push(p), e, a) {
        let i = choose|i: int|
            0 <= i < s.push(p).len() && (#[trigger] s.push(p)[i]).0@ == e && s.push(p)[i].1 == a;
        if i < s.len() {
            assert(s[i] == s.push(p)[i]);
        }
    }
}

/// The contract state of the open variant: the ledger plus the set of
/// (event, recipient) pairs already granted a token, plus the deploying
/// account, kept only for administrative queries.
pub struct AttendanceNFT {
    ledger: Ledger,
    /// Pairs for which a mint has already succeeded; presence blocks a
    /// second mint for the same pair.
    event_attendees: Vec<(String, AccountId)>,
    /// The account that instantiated the contract; no special mint rights.
    owner: AccountId,
}

impl AttendanceNFT {
    /// All issued tokens, in mint order.
    pub closed spec fn tokens(&self) -> Seq<TokenView> {
        self.ledger.tokens()
    }

    /// Number of tokens issued so far.
    pub closed spec fn count_spec(&self) -> u64 {
        self.ledger.count_spec()
    }

    /// Whether a mint for event `e` and account `a` has already succeeded.
    pub closed spec fn attended(&self, e: Seq<char>, a: AccountId) -> bool {
        pair_in(self.event_attendees@, e, a)
    }

    /// The account that instantiated the contract.
    pub closed spec fn owner_spec(&self) -> AccountId {
        self.owner
    }

    /// Well-formedness: the ledger invariants hold, every issued token's
    /// (event, owner) pair is recorded in the dedup set, and no two issued
    /// tokens carry the same pair.
    pub closed spec fn wf(&self) -> bool {
        &&& self.ledger.wf()
        &&& (forall|i: int|
            0 <= i < self.tokens().len() ==> self.attended(
                (#[trigger] self.tokens()[i]).luma_event_id,
                self.tokens()[i].owner,
            ))
        &&& (forall|i: int, j: int|
            0 <= i < j < self.tokens().len() ==> !((#[trigger] self.tokens()[i]).luma_event_id
                == (#[trigger] self.tokens()[j]).luma_event_id && self.tokens()[i].owner
                == self.tokens()[j].owner))
    }

    /// A fresh, empty contract, instantiated by `caller`.
    pub fn new(caller: AccountId) -> (c: AttendanceNFT)
        ensures
            c.wf(),
            c.count_spec() == 0,
            c.tokens() == Seq::<TokenView>::empty(),
            forall|e: Seq<char>, a: AccountId| !c.attended(e, a),
            c.owner_spec() == caller,
    {
        AttendanceNFT { ledger: Ledger::new(), event_attendees: Vec::new(), owner: caller }
    }

    /// Whether the dedup set holds the pair of `e` and `a`.
    fn contains_pair(&self, e: &String, a: AccountId) -> (b: bool)
        ensures
            b == self.attended(e@, a),
    {
        let mut i: usize = 0;
        while i < self.event_attendees.len()
            invariant
                i <= self.event_attendees@.len(),
                forall|k: int|
                    0 <= k < i ==> !((#[trigger] self.event_attendees@[k]).0@ == e@
                        && self.event_attendees@[k].1 == a),
            decreases self.event_attendees@.len() - i,
        {
            let p = &self.event_attendees[i];
            if p.1 == a && p.0 == *e {
                proof {
                    assert((self.event_attendees@[i as int]).0@ == e@
                        && self.event_attendees@[i as int].1 == a);
                }
                return true;
            }
            i += 1;
        }
        false
    }

    /// Mint a token for attending `luma_event_id` to `recipient`, at host
    /// timestamp `now`. Succeeds if and only if no token for this
    /// (event, recipient) pair was ever minted; on refusal the state is left
    /// exactly as it was. On success the new token gets id `count + 1`,
    /// stores the inputs verbatim, and the pair is recorded.
    pub fn mint_nft(
        &mut self,
        luma_event_id: String,
        recipient: AccountId,
        metadata: String,
        now: u64,
    ) -> (ok: bool)
        requires
            old(self).wf(),
            !old(self).attended(luma_event_id@, recipient) ==> old(self).count_spec() < u64::MAX,
        ensures
            final(self).wf(),
            ok == !old(self).attended(luma_event_id@, recipient),
            !ok ==> *final(self) == *old(self),
            ok ==> final(self).count_spec() == old(self).count_spec() + 1,
            ok ==> final(self).tokens() == old(self).tokens().push(
                (TokenView {
                    id: (old(self).count_spec() + 1) as u64,
                    luma_event_id: luma_event_id@,
                    owner: recipient,
                    metadata: metadata@,
                    minted_at: now,
                }),
            ),
            forall|e: Seq<char>, a: AccountId|
                #[trigger] final(self).attended(e, a) <==> (old(self).attended(e, a) || (ok && e
                    == luma_event_id@ && a == recipient)),
            final(self).owner_spec() == old(self).owner_spec(),
    {
        let ghost pre = *self;
        if self.contains_pair(&luma_event_id, recipient) {
            return false;
        }
        let id = self.ledger.mint(luma_event_id.clone(), recipient, metadata, now);
        let ghost tv = TokenView {
            id: id,
            luma_event_id: luma_event_id@,
            owner: recipient,
            metadata: metadata@,
            minted_at: now,
        };
        self.event_attendees.push((luma_event_id, recipient));
        proof {
            assert forall|e: Seq<char>, a: AccountId|
                #[trigger] self.attended(e, a) <==> (pre.attended(e, a) || (e == tv.luma_event_id
                    && a == recipient)) by {
                lemma_pair_in_push(
                    pre.event_attendees@,
                    self.event_attendees@.last(),
                    e,
                    a,
                );
                assert(self.event_attendees@ =~= pre.event_attendees@.push(
                    self.event_attendees@.last(),
                ));
            }
            assert forall|i: int|
                0 <= i < self.tokens().len() implies self.attended(
                (#[trigger] self.tokens()[i]).luma_event_id,
                self.tokens()[i].owner,
            ) by {
                let s = pre.tokens().push(tv);
                assert(self.tokens() == s);
                if i < pre.tokens().len() {
                    assert(s[i] == pre.tokens()[i]);
                } else {
                    assert(s[i] == tv);
                }
            }
            assert forall|i: int, j: int|
                0 <= i < j < self.tokens().len() implies !((
            #[trigger] self.tokens()[i]).luma_event_id == (
            #[trigger] self.tokens()[j]).luma_event_id && self.tokens()[i].owner
                == self.tokens()[j].owner) by {
                let s = pre.tokens().push(tv);
                assert(self.tokens() == s);
                if j < pre.tokens().len() {
                    assert(s[i] == pre.tokens()[i]);
                    assert(s[j] == pre.tokens()[j]);
                } else {
                    assert(s[i] == pre.tokens()[i]);
                    assert(s[j] == tv);
                    assert(pre.attended(pre.tokens()[i].luma_event_id, pre.tokens()[i].owner));
                    assert(!pre.attended(tv.luma_event_id, tv.owner));
                }
            }
        }
        true
    }

    /// The stored token for `nft_id`, or nothing when no token with that id
    /// has been issued.
    pub fn get_nft(&self, nft_id: u64) -> (r: Option<AttendanceNft>)
        requires
            self.wf(),
        ensures
            r is Some <==> 1 <= nft_id <= self.count_spec(),
            (r matches Some(t) ==> t@ == self.tokens()[nft_id - 1]),
    {
        self.ledger.get_token(nft_id)
    }

    /// The ids of the tokens owned by `owner`, in mint order; empty when the
    /// account has never received a token.
    pub fn get_owned_nfts(&self, owner: AccountId) -> (r: Vec<u64>)
        requires
            self.wf(),
        ensures
            r@ == owned_ids(self.tokens(), owner),
    {
        self.ledger.get_holdings(owner)
    }

    /// Whether `account` already holds a token for event `luma_event_id`.
    pub fn has_attended_event(&self, luma_event_id: String, account: AccountId) -> (b: bool)
        ensures
            b == self.attended(luma_event_id@, account),
    {
        self.contains_pair(&luma_event_id, account)
    }

    /// Total number of tokens minted.
    pub fn get_nft_count(&self) -> (c: u64)
        ensures
            c == self.count_spec(),
    {
        self.ledger.count()
    }

    /// The account that instantiated the contract.
    pub fn get_owner(&self) -> (o: AccountId)
        ensures
            o == self.owner_spec(),
    {
        self.owner
    }

    /// Token ids are dense: a well-formed contract holds exactly `count`
    /// tokens, with ids 1 through `count` in mint order, no gaps or repeats.
    pub proof fn lemma_ids_dense(&self)
        requires
            self.wf(),
        ensures
            self.count_spec() == self.tokens().len(),
            forall|i: int|
                0 <= i < self.tokens().len() ==> (#[trigger] self.tokens()[i]).id == i + 1,
    {
        self.ledger.lemma_ids_dense();
    }

    /// Deduplication across the contract's lifetime: no two issued tokens
    /// carry the same (event, recipient) pair, so a pair is granted a token
    /// at most once.
    pub proof fn lemma_no_duplicate_pair(&self)
        requires
            self.wf(),
        ensures
            forall|i: int, j: int|
                0 <= i < j < self.tokens().len() ==> !((
                #[trigger] self.tokens()[i]).luma_event_id == (
                #[trigger] self.tokens()[j]).luma_event_id && self.tokens()[i].owner
                    == self.tokens()[j].owner),
    {
    }
}

} // verus!
