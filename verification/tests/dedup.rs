use attendance_nft::dedup::AttendanceNFT;

const ALICE: u64 = 1;
const BOB: u64 = 2;
const CHARLIE: u64 = 3;

#[test]
fn anyone_can_mint() {
    // Create a new contract
    let mut contract = AttendanceNFT::new(ALICE);

    // Alice (caller) mints NFT for Bob; any caller is accepted
    let success = contract.mint_nft(
        String::from("evt_12345"),
        BOB,
        String::from("{\"name\":\"Polkadot Meetup\",\"description\":\"Attendance proof\"}"),
        0,
    );

    assert!(success);
    assert_eq!(contract.get_nft_count(), 1);

    // Alice mints NFT for Charlie
    let success2 = contract.mint_nft(
        String::from("evt_12345"),
        CHARLIE,
        String::from("{\"name\":\"Polkadot Meetup\",\"description\":\"Attendance proof\"}"),
        0,
    );

    assert!(success2);
    assert_eq!(contract.get_nft_count(), 2);

    // Check ownership
    let bob_nfts = contract.get_owned_nfts(BOB);
    assert_eq!(bob_nfts.len(), 1);

    let charlie_nfts = contract.get_owned_nfts(CHARLIE);
    assert_eq!(charlie_nfts.len(), 1);
}

#[test]
fn cannot_mint_duplicate_for_same_event() {
    let mut contract = AttendanceNFT::new(ALICE);

    // Alice mints for Bob
    contract.mint_nft(
        String::from("evt_12345"),
        BOB,
        String::from("{\"description\":\"First mint\"}"),
        0,
    );

    // Alice tries to mint again for Bob for same event
    let duplicate_mint = contract.mint_nft(
        String::from("evt_12345"),
        BOB,
        String::from("{\"description\":\"Duplicate attempt\"}"),
        0,
    );

    assert!(!duplicate_mint); // Should fail
    assert_eq!(contract.get_nft_count(), 1); // Still only 1 NFT
}

#[test]
fn can_mint_for_different_events() {
    let mut contract = AttendanceNFT::new(ALICE);

    // Mint for Bob for first event
    contract.mint_nft(
        String::from("evt_12345"),
        BOB,
        String::from("{\"description\":\"Event 1\"}"),
        0,
    );

    // Mint for Bob for second event
    let success = contract.mint_nft(
        String::from("evt_67890"),
        BOB,
        String::from("{\"description\":\"Event 2\"}"),
        0,
    );

    assert!(success);
    assert_eq!(contract.get_nft_count(), 2);

    let bob_nfts = contract.get_owned_nfts(BOB);
    assert_eq!(bob_nfts.len(), 2);
}

#[test]
fn duplicate_leaves_state_unchanged() {
    let mut contract = AttendanceNFT::new(ALICE);

    let first = contract.mint_nft(String::from("evt_1"), BOB, String::from("{}"), 10);
    assert!(first);
    assert_eq!(contract.get_nft_count(), 1);

    let second = contract.mint_nft(String::from("evt_1"), BOB, String::from("{}"), 11);
    assert!(!second);
    assert_eq!(contract.get_nft_count(), 1);
    assert_eq!(contract.get_owned_nfts(BOB), vec![1]);
    assert!(contract.get_nft(2).is_none());
}

#[test]
fn holdings_keep_mint_order() {
    let mut contract = AttendanceNFT::new(ALICE);

    assert!(contract.mint_nft(String::from("evt_1"), BOB, String::from("{}"), 0));
    assert!(contract.mint_nft(String::from("evt_2"), BOB, String::from("{}"), 0));

    assert_eq!(contract.get_owned_nfts(BOB), vec![1, 2]);
    assert_eq!(contract.get_owned_nfts(CHARLIE), Vec::<u64>::new());
}

#[test]
fn minted_token_records_inputs() {
    let mut contract = AttendanceNFT::new(ALICE);

    assert!(contract.mint_nft(
        String::from("evt_42"),
        CHARLIE,
        String::from("{\"seat\":\"A1\"}"),
        777,
    ));

    let nft = contract.get_nft(1).unwrap();
    assert_eq!(nft.id, 1);
    assert_eq!(nft.luma_event_id, "evt_42");
    assert_eq!(nft.owner, CHARLIE);
    assert_eq!(nft.metadata, "{\"seat\":\"A1\"}");
    assert_eq!(nft.minted_at, 777);
}

#[test]
fn has_attended_event_tracks_mints() {
    let mut contract = AttendanceNFT::new(ALICE);

    assert!(!contract.has_attended_event(String::from("evt_1"), BOB));
    assert!(contract.mint_nft(String::from("evt_1"), BOB, String::from("{}"), 0));
    assert!(contract.has_attended_event(String::from("evt_1"), BOB));
    assert!(!contract.has_attended_event(String::from("evt_1"), CHARLIE));
    assert!(!contract.has_attended_event(String::from("evt_2"), BOB));
}

#[test]
fn deployer_is_recorded() {
    let contract = AttendanceNFT::new(ALICE);
    assert_eq!(contract.get_owner(), ALICE);
    assert_eq!(contract.get_nft_count(), 0);
    assert!(contract.get_nft(1).is_none());
}
