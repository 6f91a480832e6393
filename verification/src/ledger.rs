use vstd::prelude::*;

use crate::token::{AccountId, AttendanceNft, TokenView};

verus! {

/// The ids of the tokens in `tokens` whose owner is `a`, in mint order.
/// This is what a correct per-account holdings index must contain.
pub open spec fn owned_ids(tokens: Seq<TokenView>, a: AccountId) -> Seq<u64>
    decreases tokens.len(),
{
    if tokens.len() == 0 {
        Seq::empty()
    } else if tokens.last().owner == a {
        owned_ids(tokens.drop_last(), a).push(tokens.last().id)
    } else {
        owned_ids(tokens.drop_last(), a)
    }
}

/// The sequence stored for account `a` in the holdings index `h`, or the
/// empty sequence when `a` has no entry. The index keeps at most one entry
/// per account, so which match is taken does not matter.
spec fn stored_ids(h: Seq<(AccountId, Vec<u64>)>, a: AccountId) -> Seq<u64>
    decreases h.len(),
{
    if h.len() == 0 {
        Seq::empty()
    } else if h.last().0 == a {
        h.last().1@
    } else {
        stored_ids(h.drop_last(), a)
    }
}

/// The token views held by a sequence of records.
pub open spec fn views_of(s: Seq<AttendanceNft>) -> Seq<TokenView> {
    s.map_values(|t: AttendanceNft| t@)
}

/// An account with no entry in the holdings index has no stored ids.
proof fn lemma_stored_ids_absent(h: Seq<(AccountId, Vec<u64>)>, a: AccountId)
    requires
        forall|i: int| 0 <= i < h.len() ==> (#[trigger] h[i]).0 != a,
    ensures
        stored_ids(h, a) == Seq::<u64>::empty(),
    decreases h.len(),
{
    if h.len() > 0 {
        lemma_stored_ids_absent(h.drop_last(), a);
    }
}

/// With unique keys, the ids stored for an account are the ids of its entry,
/// wherever that entry sits.
proof fn lemma_stored_ids_at(h: Seq<(AccountId, Vec<u64>)>, j: int, a: AccountId)
    requires
        forall|i1: int, i2: int|
            0 <= i1 < i2 < h.len() ==> (#[trigger] h[i1]).0 != (#[trigger] h[i2]).0,
        0 <= j < h.len(),
        h[j].0 == a,
    ensures
        stored_ids(h, a) == h[j].1@,
    decreases h.len(),
{
    if j < h.len() - 1 {
        assert(h.last().0 != a);
        lemma_stored_ids_at(h.drop_last(), j, a);
    }
}

/// Replacing the ids of one entry, key kept, changes what is stored for that
/// entry's account and for no other.
proof fn lemma_stored_ids_update(
    h: Seq<(AccountId, Vec<u64>)>,
    j: int,
    e: (AccountId, Vec<u64>),
    a: AccountId,
)
    requires
        forall|i1: int, i2: int|
            0 <= i1 < i2 < h.len() ==> (#[trigger] h[i1]).0 != (#[trigger] h[i2]).0,
        0 <= j < h.len(),
        e.0 == h[j].0,
    ensures
        stored_ids(h.update(j, e), a) == if a == e.0 {
            e.1@
        } else {
            stored_ids(h, a)
        },
    decreases h.len(),
{
    let h2 = h.update(j, e);
    if j == h.len() - 1 {
        assert(h2.drop_last() =~= h.drop_last());
    } else {
        assert(h2.drop_last() =~= h.drop_last().update(j, e));
        lemma_stored_ids_update(h.drop_last(), j, e, a);
    }
}

/// Appending a token changes the owned ids of its owner by one pushed id and
/// of nobody else.
proof fn lemma_owned_ids_push(s: Seq<TokenView>, t: TokenView, a: AccountId)
    ensures
        owned_ids(s.push(t), a) == if t.owner == a {
            owned_ids(s, a).push(t.id)
        } else {
            owned_ids(s, a)
        },
{
    assert(s.push(t).drop_last() =~= s);
}

/// What one successful mint does to the views: the freshly assembled record
/// is the one stored under the new id, the recipient's holdings gain exactly
/// that id at their end, and every other account's holdings are untouched.
pub proof fn lemma_mint_effect(tokens: Seq<TokenView>, t: TokenView)
    ensures
        tokens.push(t)[tokens.len() as int] == t,
        owned_ids(tokens.push(t), t.owner) == owned_ids(tokens, t.owner).push(t.id),
        forall|a: AccountId|
            a != t.owner ==> #[trigger] owned_ids(tokens.push(t), a) == owned_ids(tokens, a),
{
    assert forall|a: AccountId|
        a != t.owner implies #[trigger] owned_ids(tokens.push(t), a) == owned_ids(tokens, a) by {
        lemma_owned_ids_push(tokens, t, a);
    }
    lemma_owned_ids_push(tokens, t, t.owner);
}

/// An id stands in an account's owned ids exactly when some token carries
/// that id and that owner: holdings list precisely the tokens owned.
pub proof fn lemma_owned_ids_contains(s: Seq<TokenView>, a: AccountId, id: u64)
    ensures
        owned_ids(s, a).contains(id) <==> exists|i: int|
            0 <= i < s.len() && (#[trigger] s[i]).owner == a && s[i].id == id,
    decreases s.len(),
{
    if s.len() > 0 {
        let s2 = s.drop_last();
        let t = s.last();
        lemma_owned_ids_contains(s2, a, id);
        if owned_ids(s, a).contains(id) {
            if t.owner == a && t.id == id {
                assert(s[s.len() - 1].owner == a && s[s.len() - 1].id == id);
            } else {
                let k = choose|k: int|
                    0 <= k < owned_ids(s, a).len() && owned_ids(s, a)[k] == id;
                if t.owner == a {
                    assert(owned_ids(s, a) == owned_ids(s2, a).push(t.id));
                    assert(k < owned_ids(s2, a).len());
                    assert(owned_ids(s2, a)[k] == id);
                }
                assert(owned_ids(s2, a).contains(id));
                let i = choose|i: int|
                    0 <= i < s2.len() && (#[trigger] s2[i]).owner == a && s2[i].id == id;
                assert(s[i].owner == a && s[i].id == id);
            }
        }
        if exists|i: int| 0 <= i < s.len() && (#[trigger] s[i]).owner == a && s[i].id == id {
            let i = choose|i: int|
                0 <= i < s.len() && (#[trigger] s[i]).owner == a && s[i].id == id;
            if i < s.len() - 1 {
                assert(s2[i].owner == a && s2[i].id == id);
                assert(owned_ids(s2, a).contains(id));
                let k = choose|k: int|
                    0 <= k < owned_ids(s2, a).len() && owned_ids(s2, a)[k] == id;
                assert(owned_ids(s, a)[k] == id);
            } else {
                assert(t.owner == a && t.id == id);
                assert(owned_ids(s, a).last() == t.id);
            }
        }
    }
}

/// With dense ids, every owned id names an actual token: it lies between 1
/// and the number of tokens.
proof fn lemma_owned_ids_bound(s: Seq<TokenView>, a: AccountId)
    requires
        forall|i: int| 0 <= i < s.len() ==> (#[trigger] s[i]).id == i + 1,
    ensures
        forall|k: int|
            0 <= k < owned_ids(s, a).len() ==> 1 <= #[trigger] owned_ids(s, a)[k] <= s.len(),
{
    assert forall|k: int|
        0 <= k < owned_ids(s, a).len() implies 1 <= #[trigger] owned_ids(s, a)[k] <= s.len() by {
        assert(owned_ids(s, a).contains(owned_ids(s, a)[k]));
        lemma_owned_ids_contains(s, a, owned_ids(s, a)[k]);
    }
}

/// An account's holdings come in mint order: with dense ids the owned ids
/// are strictly increasing, so in particular free of repeats.
pub proof fn lemma_owned_ids_increasing(s: Seq<TokenView>, a: AccountId)
    requires
        forall|i: int| 0 <= i < s.len() ==> (#[trigger] s[i]).id == i + 1,
    ensures
        forall|k1: int, k2: int|
            0 <= k1 < k2 < owned_ids(s, a).len() ==> owned_ids(s, a)[k1] < owned_ids(s, a)[k2],
    decreases s.len(),
{
    if s.len() > 0 {
        let s2 = s.drop_last();
        let t = s.last();
        assert(forall|i: int| 0 <= i < s2.len() ==> (#[trigger] s2[i]).id == i + 1);
        lemma_owned_ids_increasing(s2, a);
        lemma_owned_ids_bound(s2, a);
        if t.owner == a {
            assert(owned_ids(s, a) == owned_ids(s2, a).push(t.id));
            assert forall|k1: int, k2: int|
                0 <= k1 < k2 < owned_ids(s, a).len() implies owned_ids(s, a)[k1] < owned_ids(
                s,
                a,
            )[k2] by {
                if k2 < owned_ids(s2, a).len() {
                    assert(owned_ids(s, a)[k1] == owned_ids(s2, a)[k1]);
                    assert(owned_ids(s, a)[k2] == owned_ids(s2, a)[k2]);
                } else {
                    assert(owned_ids(s, a)[k1] == owned_ids(s2, a)[k1]);
                    assert(owned_ids(s, a)[k2] == t.id);
                    assert(t.id == s.len());
                    assert(owned_ids(s2, a)[k1] <= s2.len());
                }
            }
        }
    }
}

/// A token id never stands in two accounts' holdings: with dense ids, the
/// token it names has one owner, and only that owner's holdings list it.
pub proof fn lemma_holdings_disjoint(s: Seq<TokenView>, a: AccountId, b: AccountId, id: u64)
    requires
        forall|i: int| 0 <= i < s.len() ==> (#[trigger] s[i]).id == i + 1,
        a != b,
    ensures
        !(owned_ids(s, a).contains(id) && owned_ids(s, b).contains(id)),
{
    if owned_ids(s, a).contains(id) && owned_ids(s, b).contains(id) {
        lemma_owned_ids_contains(s, a, id);
        lemma_owned_ids_contains(s, b, id);
        let i = choose|i: int| 0 <= i < s.len() && (#[trigger] s[i]).owner == a && s[i].id == id;
        let j = choose|j: int| 0 <= j < s.len() && (#[trigger] s[j]).owner == b && s[j].id == id;
        assert(s[i].id == i + 1 && s[j].id == j + 1);
        assert(i == j);
    }
}

/// Position of the holdings entry for `a`, if the index has one.
fn find_entry(h: &Vec<(AccountId, Vec<u64>)>, a: AccountId) -> (r: Option<usize>)
    ensures
        match r {
            Some(j) => j < h@.len() && h@[j as int].0 == a,
            None => forall|i: int| 0 <= i < h@.len() ==> (#[trigger] h@[i]).0 != a,
        },
{
    let mut j: usize = 0;
    while j < h.len()
        invariant
            j <= h@.len(),
            forall|i: int| 0 <= i < j ==> (#[trigger] h@[i]).0 != a,
        decreases h@.len() - j,
    {
        if h[j].0 == a {
            return Some(j);
        }
        j += 1;
    }
    None
}

/// A fresh copy of a vector of ids.
fn copy_ids(v: &Vec<u64>) -> (r: Vec<u64>)
    ensures
        r@ == v@,
{
    let mut r: Vec<u64> = Vec::new();
    let mut i: usize = 0;
    while i < v.len()
        invariant
            i <= v@.len(),
            r@ == v@.subrange(0, i as int),
        decreases v@.len() - i,
    {
        r.push(v[i]);
        i += 1;
        proof {
            assert(r@ =~= v@.subrange(0, i as int));
        }
    }
    proof {
        assert(v@.subrange(0, v@.len() as int) =~= v@);
    }
    r
}

/// The authoritative store of issued tokens: the token table, the per-account
/// holdings index, and the monotonically increasing id counter. Minting is
/// the only mutation; tokens are never changed, deleted or transferred.
pub struct Ledger {
    /// The token with id `i + 1` sits at index `i`; ids are dense from 1.
    nfts: Vec<AttendanceNft>,
    /// Account -> ids of the tokens it owns, in mint order.
    owned_nfts: Vec<(AccountId, Vec<u64>)>,
    /// Id of the most recently minted token; equals the number of tokens.
    nft_count: u64,
}

impl Ledger {
    /// All issued tokens, in mint order.
    pub closed spec fn tokens(&self) -> Seq<TokenView> {
        views_of(self.nfts@)
    }

    /// The id counter: number of tokens issued so far.
    pub closed spec fn count_spec(&self) -> u64 {
        self.nft_count
    }

    /// Well-formedness: the counter matches the table, ids are dense from 1,
    /// and the holdings index carries, for every account, exactly the ids of
    /// the tokens that account owns, in mint order.
    pub closed spec fn wf(&self) -> bool {
        &&& self.nft_count == self.nfts@.len()
        &&& (forall|i: int|
            0 <= i < self.nfts@.len() ==> (#[trigger] self.nfts@[i])@.id == i + 1)
        &&& (forall|i: int, j: int|
            0 <= i < j < self.owned_nfts@.len() ==> (#[trigger] self.owned_nfts@[i]).0
                != (#[trigger] self.owned_nfts@[j]).0)
        &&& (forall|a: AccountId|
            #[trigger] stored_ids(self.owned_nfts@, a) == owned_ids(self.tokens(), a))
    }

    /// An empty ledger: no tokens, no holdings, counter at zero.
    pub fn new() -> (l: Ledger)
        ensures
            l.wf(),
            l.count_spec() == 0,
            l.tokens() == Seq::<TokenView>::empty(),
    {
        let l = Ledger { nfts: Vec::new(), owned_nfts: Vec::new(), nft_count: 0 };
        proof {
            assert(l.tokens() =~= Seq::<TokenView>::empty());
            assert forall|a: AccountId|
                stored_ids(l.owned_nfts@, a) == owned_ids(l.tokens(), a) by {
                assert(stored_ids(l.owned_nfts@, a) == Seq::<u64>::empty());
                assert(owned_ids(l.tokens(), a) == Seq::<u64>::empty());
            }
        }
        l
    }

    /// Number of tokens issued so far.
    pub fn count(&self) -> (c: u64)
        ensures
            c == self.count_spec(),
    {
        self.nft_count
    }

    /// The atomic mint mutation. Allocates the next id, stores the token,
    /// appends the id to the recipient's holdings and advances the counter;
    /// returns the new id. The caller must already be authorized and the id
    /// space must not be exhausted.
    pub fn mint(
        &mut self,
        luma_event_id: String,
        recipient: AccountId,
        metadata: String,
        now: u64,
    ) -> (id: u64)
        requires
            old(self).wf(),
            old(self).count_spec() < u64::MAX,
        ensures
            final(self).wf(),
            id == old(self).count_spec() + 1,
            final(self).count_spec() == id,
            final(self).tokens() == old(self).tokens().push(
                (TokenView {
                    id: id,
                    luma_event_id: luma_event_id@,
                    owner: recipient,
                    metadata: metadata@,
                    minted_at: now,
                }),
            ),
    {
        let ghost pre = *self;
        let id = self.nft_count + 1;
        let nft = AttendanceNft {
            id,
            luma_event_id,
            owner: recipient,
            metadata,
            minted_at: now,
        };
        let ghost tv = nft@;
        self.nfts.push(nft);
        self.nft_count = id;
        proof {
            assert(self.tokens() =~= pre.tokens().push(tv));
            assert forall|i: int|
                0 <= i < self.nfts@.len() implies (#[trigger] self.nfts@[i])@.id == i + 1 by {
                let s = pre.nfts@.push(nft);
                assert(self.nfts@ == s);
                if i < pre.nfts@.len() {
                    assert(s[i] == pre.nfts@[i]);
                } else {
                    assert(s[i] == nft);
                }
            }
        }
        match find_entry(&self.owned_nfts, recipient) {
            Some(j) => {
                let ghost h0 = self.owned_nfts@;
                self.owned_nfts[j].1.push(id);
                proof {
                    let e = self.owned_nfts@[j as int];
                    assert(self.owned_nfts@ =~= h0.update(j as int, e));
                    assert(e.1@ == h0[j as int].1@.push(id));
                    assert(e.0 == h0[j as int].0);
                    assert forall|i: int|
                        0 <= i < self.owned_nfts@.len() implies (#[trigger] self.owned_nfts@[i]).0
                        == h0[i].0 by {
                        assert(h0.update(j as int, e)[i] == if i == j as int {
                            e
                        } else {
                            h0[i]
                        });
                    }
                    lemma_stored_ids_at(h0, j as int, recipient);
                    assert forall|a: AccountId|
                        stored_ids(self.owned_nfts@, a) == owned_ids(self.tokens(), a) by {
                        lemma_stored_ids_update(h0, j as int, e, a);
                        lemma_owned_ids_push(pre.tokens(), tv, a);
                        assert(stored_ids(h0, a) == owned_ids(pre.tokens(), a));
                    }
                }
            },
            None => {
                let ghost h0 = self.owned_nfts@;
                let mut ids: Vec<u64> = Vec::new();
                ids.push(id);
                self.owned_nfts.push((recipient, ids));
                proof {
                    assert forall|i: int|
                        0 <= i < self.owned_nfts@.len() - 1 implies (
                        #[trigger] self.owned_nfts@[i]).0 == h0[i].0 by {
                        assert(h0.push((recipient, ids))[i] == h0[i]);
                    }
                    assert(self.owned_nfts@.last().0 == recipient);
                    assert forall|a: AccountId|
                        stored_ids(self.owned_nfts@, a) == owned_ids(self.tokens(), a) by {
                        assert(self.owned_nfts@.drop_last() =~= h0);
                        lemma_owned_ids_push(pre.tokens(), tv, a);
                        assert(stored_ids(h0, a) == owned_ids(pre.tokens(), a));
                        if a == recipient {
                            lemma_stored_ids_absent(h0, recipient);
                            assert(self.owned_nfts@.last().1@ =~= owned_ids(
                                pre.tokens(),
                                recipient,
                            ).push(id));
                        }
                    }
                }
            },
        }
        id
    }

    /// The stored token for `id`, or nothing when no token with that id has
    /// been issued. Issued ids are exactly 1 through `count`.
    pub fn get_token(&self, id: u64) -> (r: Option<AttendanceNft>)
        requires
            self.wf(),
        ensures
            r is Some <==> 1 <= id <= self.count_spec(),
            (r matches Some(t) ==> t@ == self.tokens()[id - 1]),
    {
        let n = self.nfts.len();
        if 1 <= id && id <= self.nft_count {
            proof {
                assert(id - 1 < n);
                assert(self.tokens()[id - 1] == self.nfts@[id - 1]@);
            }
            let t = &self.nfts[(id - 1) as usize];
            Some(
                AttendanceNft {
                    id: t.id,
                    luma_event_id: t.luma_event_id.clone(),
                    owner: t.owner,
                    metadata: t.metadata.clone(),
                    minted_at: t.minted_at,
                },
            )
        } else {
            None
        }
    }

    /// The ids of the tokens owned by `account`, in mint order; empty when
    /// the account has never received a token. Never fails.
    pub fn get_holdings(&self, account: AccountId) -> (r: Vec<u64>)
        requires
            self.wf(),
        ensures
            r@ == owned_ids(self.tokens(), account),
    {
        match find_entry(&self.owned_nfts, account) {
            Some(j) => {
                proof {
                    lemma_stored_ids_at(self.owned_nfts@, j as int, account);
                }
                copy_ids(&self.owned_nfts[j].1)
            },
            None => {
                proof {
                    lemma_stored_ids_absent(self.owned_nfts@, account);
                }
                Vec::new()
            },
        }
    }

    /// Under well-formedness, the counter equals the number of tokens and the
    /// ids stored are exactly 1, ..., count, dense and in order: after N
    /// successful mints the ledger holds exactly the ids 1 through N.
    pub proof fn lemma_ids_dense(&self)
        requires
            self.wf(),
        ensures
            self.count_spec() == self.tokens().len(),
            forall|i: int|
                0 <= i < self.tokens().len() ==> (#[trigger] self.tokens()[i]).id == i + 1,
    {
    }
}

} // verus!
