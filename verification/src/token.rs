use vstd::prelude::*;

verus! {

/// An account identifier, as resolved by the hosting environment. The core
/// only compares accounts for equality and keys its indexes by them, so a
/// plain unsigned integer stands for one.
pub type AccountId = u64;

/// An issuance record for one attendee/event pairing: created exactly once at
/// mint and never mutated or deleted afterward.
pub struct AttendanceNft {
    /// Unique token id; ids are dense, start at 1 and never get reused.
    pub id: u64,
    /// Opaque identifier of the real-world event.
    pub luma_event_id: String,
    /// The account the token was minted to.
    pub owner: AccountId,
    /// Opaque metadata blob, stored verbatim and never validated by the core.
    pub metadata: String,
    /// Timestamp supplied by the environment at mint time.
    pub minted_at: u64,
}

/// The mathematical content of a token record, with strings as character
/// sequences; contracts speak of tokens through this view.
pub ghost struct TokenView {
    pub id: u64,
    pub luma_event_id: Seq<char>,
    pub owner: AccountId,
    pub metadata: Seq<char>,
    pub minted_at: u64,
}

impl View for AttendanceNft {
    type V = TokenView;

    open spec fn view(&self) -> TokenView {
        TokenView {
            id: self.id,
            luma_event_id: self.luma_event_id@,
            owner: self.owner,
            metadata: self.metadata@,
            minted_at: self.minted_at,
        }
    }
}

/// Notification payload handed to the hosting environment for emission after a
/// successful mint, so external observers can index mints without re-scanning
/// the full state.
pub struct NFTMinted {
    pub nft_id: u64,
    pub recipient: AccountId,
    pub luma_event_id: String,
}

} // verus!
