use creator_ledger::address::Address;
use creator_ledger::content_nft::{ContentMetadata, ContentNFTContract};
use creator_ledger::error::Error;
use creator_ledger::events::Event;

fn who(name: &str) -> Address {
    Address::new(name.to_string())
}

fn mint(registry: &mut ContentNFTContract, creator: &str, price: i128, now: u64) -> u64 {
    let creator = who(creator);
    registry
        .mint_content(&creator, now, creator.clone(), "ipfs://meta".to_string(), price, "video".to_string())
        .unwrap()
        .0
}

#[test]
fn address_equality_is_by_text() {
    assert_eq!(who("alice"), who("alice"));
    assert_ne!(who("alice"), who("bob"));
    assert_eq!(who("alice").as_str(), "alice");
    assert_eq!(who("alice").clone(), who("alice"));
}

#[test]
fn first_mint_gets_identifier_one() {
    let mut registry = ContentNFTContract::new();
    let alice = who("alice");
    let (id, event) = registry
        .mint_content(&alice, 77, alice.clone(), "ipfs://a".to_string(), 1000, "video".to_string())
        .unwrap();
    assert_eq!(id, 1);
    assert_eq!(event, Event::ContentMinted { content_id: 1, creator: who("alice"), price: 1000 });
    assert_eq!(event.topic(), "content_minted");
    assert_eq!(
        registry.get_content(1),
        Some(ContentMetadata {
            content_id: 1,
            creator: who("alice"),
            metadata_uri: "ipfs://a".to_string(),
            price: 1000,
            created_at: 77,
            content_type: "video".to_string(),
        })
    );
    assert_eq!(registry.get_content(2), None);
}

#[test]
fn identifiers_rise_by_one_without_gaps() {
    let mut registry = ContentNFTContract::new();
    for expected in 1..=25u64 {
        let creator = if expected % 3 == 0 { "alice" } else { "bob" };
        assert_eq!(mint(&mut registry, creator, 5, expected), expected);
        assert_eq!(registry.get_content(expected + 1), None);
    }
    for id in 1..=25u64 {
        assert_eq!(registry.get_content(id).unwrap().content_id, id);
    }
    assert_eq!(registry.get_content(26), None);
}

#[test]
fn refused_mint_uses_no_identifier() {
    let mut registry = ContentNFTContract::new();
    assert_eq!(mint(&mut registry, "alice", 1, 1), 1);
    let refused = registry.mint_content(
        &who("mallory"),
        2,
        who("alice"),
        "ipfs://x".to_string(),
        1,
        "video".to_string(),
    );
    assert_eq!(refused, Err(Error::Unauthorized));
    assert_eq!(registry.get_content(2), None);
    assert_eq!(mint(&mut registry, "alice", 1, 3), 2);
}

#[test]
fn get_content_of_unknown_identifier_is_absent() {
    let registry = ContentNFTContract::new();
    assert_eq!(registry.get_content(0), None);
    assert_eq!(registry.get_content(1), None);
    assert_eq!(registry.get_content(u64::MAX), None);
}

#[test]
fn negative_and_zero_prices_are_accepted() {
    let mut registry = ContentNFTContract::new();
    assert_eq!(mint(&mut registry, "alice", 0, 1), 1);
    assert_eq!(mint(&mut registry, "alice", -5, 1), 2);
    assert_eq!(registry.get_content(2).unwrap().price, -5);
    assert_eq!(
        registry.update_price(&who("alice"), 1, -9),
        Ok(Event::PriceUpdated { content_id: 1, new_price: -9 })
    );
    assert_eq!(registry.get_content(1).unwrap().price, -9);
}

#[test]
fn listing_is_in_mint_order_per_creator() {
    let mut registry = ContentNFTContract::new();
    mint(&mut registry, "alice", 1, 1);
    mint(&mut registry, "bob", 1, 2);
    mint(&mut registry, "alice", 1, 3);
    mint(&mut registry, "carol", 1, 4);
    mint(&mut registry, "alice", 1, 5);
    assert_eq!(registry.get_creator_contents(who("alice")), vec![1, 3, 5]);
    assert_eq!(registry.get_creator_contents(who("bob")), vec![2]);
    assert_eq!(registry.get_creator_contents(who("carol")), vec![4]);
    assert_eq!(registry.get_creator_contents(who("dave")), Vec::<u64>::new());
}

#[test]
fn update_uri_changes_only_the_uri() {
    let mut registry = ContentNFTContract::new();
    mint(&mut registry, "alice", 10, 5);
    mint(&mut registry, "bob", 20, 6);
    let event = registry.update_content_uri(&who("alice"), 1, "ipfs://new".to_string()).unwrap();
    assert_eq!(event, Event::ContentUpdated { content_id: 1, creator: who("alice") });
    assert_eq!(event.topic(), "content_updated");
    let record = registry.get_content(1).unwrap();
    assert_eq!(record.metadata_uri, "ipfs://new");
    assert_eq!(record.price, 10);
    assert_eq!(record.created_at, 5);
    assert_eq!(record.creator, who("alice"));
    assert_eq!(registry.get_content(2).unwrap().metadata_uri, "ipfs://meta");
    assert_eq!(registry.get_creator_contents(who("alice")), vec![1]);
}

#[test]
fn update_price_changes_only_the_price() {
    let mut registry = ContentNFTContract::new();
    mint(&mut registry, "alice", 10, 5);
    let event = registry.update_price(&who("alice"), 1, 99).unwrap();
    assert_eq!(event, Event::PriceUpdated { content_id: 1, new_price: 99 });
    assert_eq!(event.topic(), "price_updated");
    let record = registry.get_content(1).unwrap();
    assert_eq!(record.price, 99);
    assert_eq!(record.metadata_uri, "ipfs://meta");
}

#[test]
fn update_of_unknown_content_is_not_found() {
    let mut registry = ContentNFTContract::new();
    mint(&mut registry, "alice", 10, 5);
    assert_eq!(registry.update_price(&who("alice"), 2, 1), Err(Error::NotFound));
    assert_eq!(registry.update_price(&who("alice"), 0, 1), Err(Error::NotFound));
    assert_eq!(
        registry.update_content_uri(&who("alice"), 7, "x".to_string()),
        Err(Error::NotFound)
    );
}

#[test]
fn update_by_another_caller_is_unauthorized_and_changes_nothing() {
    let mut registry = ContentNFTContract::new();
    mint(&mut registry, "alice", 10, 5);
    assert_eq!(registry.update_price(&who("bob"), 1, 1), Err(Error::Unauthorized));
    assert_eq!(
        registry.update_content_uri(&who("bob"), 1, "x".to_string()),
        Err(Error::Unauthorized)
    );
    let record = registry.get_content(1).unwrap();
    assert_eq!(record.price, 10);
    assert_eq!(record.metadata_uri, "ipfs://meta");
}

#[test]
fn restore_rebuilds_records_and_listings() {
    let mut registry = ContentNFTContract::new();
    mint(&mut registry, "alice", 1, 1);
    mint(&mut registry, "bob", 2, 2);
    mint(&mut registry, "alice", 3, 3);
    let records: Vec<ContentMetadata> =
        (1..=3u64).map(|id| registry.get_content(id).unwrap()).collect();
    let mut restored = ContentNFTContract::restore(records).unwrap();
    assert_eq!(restored.get_content(4), None);
    assert_eq!(restored.get_content(2), registry.get_content(2));
    assert_eq!(restored.get_creator_contents(who("alice")), vec![1, 3]);
    assert_eq!(restored.get_creator_contents(who("bob")), vec![2]);
    assert_eq!(mint(&mut restored, "bob", 4, 4), 4);
    assert_eq!(restored.get_creator_contents(who("bob")), vec![2, 4]);
}

#[test]
fn restore_refuses_records_out_of_order() {
    let mut registry = ContentNFTContract::new();
    mint(&mut registry, "alice", 1, 1);
    mint(&mut registry, "bob", 2, 2);
    let backwards = vec![registry.get_content(2).unwrap(), registry.get_content(1).unwrap()];
    assert!(ContentNFTContract::restore(backwards).is_none());
    let gap = vec![registry.get_content(2).unwrap()];
    assert!(ContentNFTContract::restore(gap).is_none());
    assert!(ContentNFTContract::restore(Vec::new()).is_some());
}
