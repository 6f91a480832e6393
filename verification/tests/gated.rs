use attendance_nft::gated::AttendanceNFT;

const ALICE: u64 = 1;
const BOB: u64 = 2;
const CHARLIE: u64 = 3;

#[test]
fn constructor_works() {
    let contract = AttendanceNFT::new(ALICE);
    assert_eq!(contract.get_nft_count(), 0);
    assert_eq!(contract.get_owner(), ALICE);
}

#[test]
fn mint_nft_works() {
    // Create a new contract (Alice is owner)
    let mut contract = AttendanceNFT::new(ALICE);

    // Mint an NFT as owner
    let success = contract.mint_nft(
        ALICE,
        String::from("evt_12345"),
        BOB,
        String::from(
            "{\"name\":\"Polkadot Meetup\",\"description\":\"Attendance proof for Polkadot Meetup\"}",
        ),
        0,
    );

    // Verify minting was successful
    assert!(success);
    assert_eq!(contract.get_nft_count(), 1);

    // Check if Bob owns the NFT
    let bob_nfts = contract.get_owned_nfts(BOB);
    assert_eq!(bob_nfts.len(), 1);
    assert_eq!(bob_nfts[0], 1);

    // Check the NFT details
    let nft = contract.get_nft(1).unwrap();
    assert_eq!(nft.id, 1);
    assert_eq!(nft.luma_event_id, "evt_12345");
    assert_eq!(nft.owner, BOB);
}

#[test]
fn unauthorized_mint_fails() {
    // Create a new contract (Alice is owner)
    let mut contract = AttendanceNFT::new(ALICE);

    // Try to mint as Bob (unauthorized)
    let success = contract.mint_nft(
        BOB,
        String::from("evt_12345"),
        CHARLIE,
        String::from("{\"description\":\"Attendance proof\"}"),
        0,
    );

    // Verify minting failed
    assert!(!success);
    assert_eq!(contract.get_nft_count(), 0);
}

#[test]
fn ownership_transfer_works() {
    // Create a new contract (Alice is owner)
    let mut contract = AttendanceNFT::new(ALICE);

    // Transfer ownership to Bob
    let success = contract.transfer_ownership(ALICE, BOB);
    assert!(success);
    assert_eq!(contract.get_owner(), BOB);

    // Now Bob can mint
    let mint_success = contract.mint_nft(
        BOB,
        String::from("evt_12345"),
        CHARLIE,
        String::from("{\"description\":\"Attendance proof\"}"),
        0,
    );
    assert!(mint_success);
}

#[test]
fn unauthorized_ownership_transfer_fails() {
    // Create a new contract (Alice is owner)
    let mut contract = AttendanceNFT::new(ALICE);

    // Try to transfer ownership as Bob (unauthorized)
    let success = contract.transfer_ownership(BOB, CHARLIE);
    assert!(!success);
    assert_eq!(contract.get_owner(), ALICE);
}

#[test]
fn old_admin_loses_rights_after_transfer() {
    let mut contract = AttendanceNFT::new(ALICE);

    assert!(contract.transfer_ownership(ALICE, BOB));

    // Bob, the new admin, mints successfully
    assert!(contract.mint_nft(BOB, String::from("evt_1"), CHARLIE, String::from("{}"), 0));

    // The original admin is now refused
    assert!(!contract.mint_nft(ALICE, String::from("evt_2"), CHARLIE, String::from("{}"), 0));
    assert_eq!(contract.get_nft_count(), 1);
}

#[test]
fn repeat_mint_for_same_pair_succeeds() {
    // No dedup set in this variant: repeat mints for the same
    // (event, recipient) pair yield distinct tokens.
    let mut contract = AttendanceNFT::new(ALICE);

    assert!(contract.mint_nft(ALICE, String::from("evt_1"), BOB, String::from("{}"), 0));
    assert!(contract.mint_nft(ALICE, String::from("evt_1"), BOB, String::from("{}"), 0));

    assert_eq!(contract.get_nft_count(), 2);
    assert_eq!(contract.get_owned_nfts(BOB), vec![1, 2]);
}

#[test]
fn minted_at_reflects_supplied_timestamp() {
    let mut contract = AttendanceNFT::new(ALICE);

    assert!(contract.mint_nft(ALICE, String::from("evt_1"), BOB, String::from("{}"), 123456));

    let nft = contract.get_nft(1).unwrap();
    assert_eq!(nft.minted_at, 123456);
    assert_eq!(nft.metadata, "{}");
}

#[test]
fn unauthorized_calls_leave_state_unchanged() {
    let mut contract = AttendanceNFT::new(ALICE);
    assert!(contract.mint_nft(ALICE, String::from("evt_1"), BOB, String::from("{}"), 0));

    assert!(!contract.mint_nft(CHARLIE, String::from("evt_2"), CHARLIE, String::from("{}"), 0));
    assert!(!contract.transfer_ownership(CHARLIE, CHARLIE));

    assert_eq!(contract.get_nft_count(), 1);
    assert_eq!(contract.get_owner(), ALICE);
    assert_eq!(contract.get_owned_nfts(CHARLIE), Vec::<u64>::new());
}
