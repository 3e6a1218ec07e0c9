use marketplace::identity::Identity;
use marketplace::market::Marketplace;
use marketplace::model::{ListingInput, MarketError, TransactionStatus, TransferOutcome};

fn ident(byte: u8) -> Identity {
    Identity::new(vec![byte])
}

fn input(asset_id: u64, price: u64, title: &str, category: &str, tags: Vec<&str>) -> ListingInput {
    ListingInput {
        asset_id,
        price,
        title: title.to_string(),
        description: format!("{} for sale", title),
        category: category.to_string(),
        tags: tags.into_iter().map(|t| t.to_string()).collect(),
    }
}

fn market_with_registry() -> Marketplace {
    let mut m = Marketplace::new();
    let admin = ident(9);
    m.set_asset_canister_id(&admin, "aaaaa-aa".to_string()).unwrap();
    m
}

#[test]
fn create_listing_fills_fields() {
    let mut m = Marketplace::new();
    let seller = ident(1);
    let l = m
        .create_listing(seller, 1000, input(7, 100, "Rug", "Decor", vec!["wool", "red"]))
        .unwrap();
    assert_eq!(l.id, 1);
    assert_eq!(l.asset_id, 7);
    assert_eq!(l.price, 100);
    assert_eq!(l.created_at, 1000);
    assert_eq!(l.updated_at, 1000);
    assert!(l.is_active);
    assert_eq!(l.title, "Rug");
    assert_eq!(l.category, "Decor");
    assert_eq!(l.tags, vec!["wool".to_string(), "red".to_string()]);
}

#[test]
fn create_listing_rejects_anonymous() {
    let mut m = Marketplace::new();
    let e = m
        .create_listing(Identity::anonymous(), 1000, input(7, 100, "Rug", "Decor", vec![]))
        .unwrap_err();
    assert!(matches!(e, MarketError::Unauthenticated));
    assert!(m.get_listing(1).is_none());
}

#[test]
fn listing_ids_are_consecutive() {
    let mut m = Marketplace::new();
    let id1 = m.create_listing(ident(1), 1, input(1, 10, "A", "C", vec![])).unwrap().id;
    let id2 = m.create_listing(ident(2), 2, input(2, 20, "B", "C", vec![])).unwrap().id;
    let id3 = m.create_listing(ident(1), 3, input(3, 30, "C", "C", vec![])).unwrap().id;
    assert_eq!(id1, 1);
    assert_eq!(id2, 2);
    assert_eq!(id3, 3);
}

#[test]
fn get_listing_roundtrip_and_missing() {
    let mut m = Marketplace::new();
    m.create_listing(ident(1), 5, input(7, 100, "Rug", "Decor", vec![])).unwrap();
    let got = m.get_listing(1).unwrap();
    assert_eq!(got.id, 1);
    assert_eq!(got.asset_id, 7);
    assert!(m.get_listing(2).is_none());
}

#[test]
fn repeated_reads_agree() {
    let mut m = Marketplace::new();
    m.create_listing(ident(1), 5, input(7, 100, "Rug", "Decor", vec![])).unwrap();
    m.create_listing(ident(2), 6, input(8, 200, "Vase", "Decor", vec![])).unwrap();
    let a = m.get_listing(1).unwrap();
    let b = m.get_listing(1).unwrap();
    assert_eq!(a.id, b.id);
    assert_eq!(a.price, b.price);
    assert_eq!(a.updated_at, b.updated_at);
    let first: Vec<u64> = m.get_marketplace_listings().iter().map(|l| l.id).collect();
    let second: Vec<u64> = m.get_marketplace_listings().iter().map(|l| l.id).collect();
    assert_eq!(first, second);
}

#[test]
fn update_price_by_seller() {
    let mut m = Marketplace::new();
    let seller = ident(1);
    m.create_listing(seller.clone(), 5, input(7, 100, "Rug", "Decor", vec![])).unwrap();
    let l = m.update_listing_price(&seller, 9, 1, 150).unwrap();
    assert_eq!(l.price, 150);
    assert_eq!(l.updated_at, 9);
    assert_eq!(m.get_listing(1).unwrap().price, 150);
}

#[test]
fn update_price_errors() {
    let mut m = Marketplace::new();
    let seller = ident(1);
    let other = ident(2);
    m.create_listing(seller.clone(), 5, input(7, 100, "Rug", "Decor", vec![])).unwrap();
    assert!(matches!(m.update_listing_price(&seller, 9, 99, 150).unwrap_err(), MarketError::NotFound));
    assert!(matches!(m.update_listing_price(&other, 9, 1, 150).unwrap_err(), MarketError::Forbidden));
    m.cancel_listing(&seller, 10, 1).unwrap();
    assert!(matches!(
        m.update_listing_price(&seller, 11, 1, 150).unwrap_err(),
        MarketError::StateConflict
    ));
}

#[test]
fn cancel_listing_deactivates() {
    let mut m = Marketplace::new();
    let seller = ident(1);
    m.create_listing(seller.clone(), 5, input(7, 100, "Rug", "Decor", vec![])).unwrap();
    let l = m.cancel_listing(&seller, 8, 1).unwrap();
    assert!(!l.is_active);
    assert_eq!(l.updated_at, 8);
    assert!(m.get_marketplace_listings().is_empty());
    assert!(matches!(m.cancel_listing(&ident(2), 9, 1).unwrap_err(), MarketError::Forbidden));
    assert!(matches!(m.cancel_listing(&seller, 9, 99).unwrap_err(), MarketError::NotFound));
}

#[test]
fn buy_success_scenario() {
    let mut m = market_with_registry();
    let seller = ident(1);
    let buyer = ident(2);
    m.create_listing(seller, 5, input(7, 100, "Rug", "Decor", vec![])).unwrap();
    let pending = m.buy_prepare(buyer, 20, 1).unwrap();
    assert_eq!(pending.registry_address, "aaaaa-aa");
    assert_eq!(pending.transaction.id, 1);
    assert_eq!(pending.transaction.price, 100);
    assert!(matches!(pending.transaction.status, TransactionStatus::Pending));
    let done = m.buy_resolve(pending.transaction.id, TransferOutcome::Success).unwrap();
    assert!(matches!(done.status, TransactionStatus::Completed));
    let l = m.get_listing(1).unwrap();
    assert!(!l.is_active);
    assert!(m.get_marketplace_listings().iter().all(|x| x.id != 1));
}

#[test]
fn buy_rejection_compensates() {
    let mut m = market_with_registry();
    let seller = ident(1);
    let buyer = ident(2);
    m.create_listing(seller, 5, input(7, 100, "Rug", "Decor", vec![])).unwrap();
    let pending = m.buy_prepare(buyer, 20, 1).unwrap();
    let done = m
        .buy_resolve(
            pending.transaction.id,
            TransferOutcome::Rejected("not current owner".to_string()),
        )
        .unwrap();
    assert!(matches!(done.status, TransactionStatus::Failed));
    let l = m.get_listing(1).unwrap();
    assert!(l.is_active);
    assert!(m.get_marketplace_listings().iter().any(|x| x.id == 1));
}

#[test]
fn buy_transport_failure_compensates() {
    let mut m = market_with_registry();
    m.create_listing(ident(1), 5, input(7, 100, "Rug", "Decor", vec![])).unwrap();
    let pending = m.buy_prepare(ident(2), 20, 1).unwrap();
    let done = m
        .buy_resolve(
            pending.transaction.id,
            TransferOutcome::TransportFailure("unreachable".to_string()),
        )
        .unwrap();
    assert!(matches!(done.status, TransactionStatus::Failed));
    assert!(m.get_listing(1).unwrap().is_active);
}

#[test]
fn second_buy_during_suspension_conflicts() {
    let mut m = market_with_registry();
    m.create_listing(ident(1), 5, input(7, 100, "Rug", "Decor", vec![])).unwrap();
    let first = m.buy_prepare(ident(2), 20, 1).unwrap();
    let e = m.buy_prepare(ident(3), 21, 1).unwrap_err();
    assert!(matches!(e, MarketError::StateConflict));
    let done = m.buy_resolve(first.transaction.id, TransferOutcome::Success).unwrap();
    assert!(matches!(done.status, TransactionStatus::Completed));
    assert_eq!(done.buyer.bytes, vec![2u8]);
}

#[test]
fn self_purchase_forbidden_without_side_effect() {
    let mut m = market_with_registry();
    let seller = ident(1);
    m.create_listing(seller.clone(), 5, input(7, 100, "Rug", "Decor", vec![])).unwrap();
    let e = m.buy_prepare(seller.clone(), 20, 1).unwrap_err();
    assert!(matches!(e, MarketError::Forbidden));
    assert!(m.get_listing(1).unwrap().is_active);
    assert!(m.get_user_transactions(&seller).is_empty());
}

#[test]
fn buy_validation_errors() {
    let mut m = Marketplace::new();
    m.create_listing(ident(1), 5, input(7, 100, "Rug", "Decor", vec![])).unwrap();
    assert!(matches!(m.buy_prepare(ident(2), 20, 99).unwrap_err(), MarketError::NotFound));
    assert!(matches!(
        m.buy_prepare(Identity::anonymous(), 20, 1).unwrap_err(),
        MarketError::Unauthenticated
    ));
    assert!(matches!(
        m.buy_prepare(ident(2), 20, 1).unwrap_err(),
        MarketError::ConfigurationMissing
    ));
    assert!(m.get_listing(1).unwrap().is_active);
}

#[test]
fn resolve_guards() {
    let mut m = market_with_registry();
    m.create_listing(ident(1), 5, input(7, 100, "Rug", "Decor", vec![])).unwrap();
    assert!(matches!(
        m.buy_resolve(1, TransferOutcome::Success).unwrap_err(),
        MarketError::NotFound
    ));
    let pending = m.buy_prepare(ident(2), 20, 1).unwrap();
    m.buy_resolve(pending.transaction.id, TransferOutcome::Success).unwrap();
    assert!(matches!(
        m.buy_resolve(pending.transaction.id, TransferOutcome::Success).unwrap_err(),
        MarketError::StateConflict
    ));
}

#[test]
fn user_transaction_filters() {
    let mut m = market_with_registry();
    let seller = ident(1);
    let buyer = ident(2);
    let other = ident(3);
    m.create_listing(seller.clone(), 5, input(7, 100, "Rug", "Decor", vec![])).unwrap();
    let pending = m.buy_prepare(buyer.clone(), 20, 1).unwrap();
    m.buy_resolve(pending.transaction.id, TransferOutcome::Success).unwrap();
    assert_eq!(m.get_user_transactions(&seller).len(), 1);
    assert_eq!(m.get_user_transactions(&buyer).len(), 1);
    assert_eq!(m.get_user_transactions(&other).len(), 0);
    assert_eq!(m.get_user_purchases(&buyer).len(), 1);
    assert_eq!(m.get_user_purchases(&seller).len(), 0);
    assert_eq!(m.get_user_sales(&seller).len(), 1);
    assert_eq!(m.get_user_sales(&buyer).len(), 0);
}

#[test]
fn user_listing_filters() {
    let mut m = Marketplace::new();
    let a = ident(1);
    let b = ident(2);
    m.create_listing(a.clone(), 5, input(7, 100, "Rug", "Decor", vec![])).unwrap();
    m.create_listing(b.clone(), 6, input(8, 200, "Vase", "Decor", vec![])).unwrap();
    m.cancel_listing(&a, 7, 1).unwrap();
    let of_a: Vec<u64> = m.get_user_listings(&a).iter().map(|l| l.id).collect();
    assert_eq!(of_a, vec![1]);
    let active: Vec<u64> = m.get_marketplace_listings().iter().map(|l| l.id).collect();
    assert_eq!(active, vec![2]);
}

#[test]
fn stats_formula() {
    let mut m = market_with_registry();
    m.create_listing(ident(1), 5, input(7, 100, "Rug", "Decor", vec![])).unwrap();
    m.create_listing(ident(1), 6, input(8, 250, "Vase", "Decor", vec![])).unwrap();
    m.create_listing(ident(5), 7, input(9, 40, "Bowl", "Decor", vec![])).unwrap();
    let first = m.buy_prepare(ident(2), 20, 1).unwrap();
    m.buy_resolve(first.transaction.id, TransferOutcome::Success).unwrap();
    let second = m.buy_prepare(ident(2), 21, 2).unwrap();
    m.buy_resolve(second.transaction.id, TransferOutcome::Rejected("no".to_string())).unwrap();
    let third = m.buy_prepare(ident(3), 22, 3).unwrap();
    m.buy_resolve(third.transaction.id, TransferOutcome::Success).unwrap();
    let stats = m.get_marketplace_stats();
    assert_eq!(stats.total_listings, 3);
    assert_eq!(stats.active_listings, 1);
    assert_eq!(stats.total_transactions, 3);
    assert_eq!(stats.total_volume, 140);
}

#[test]
fn search_is_case_insensitive() {
    let mut m = Marketplace::new();
    m.create_listing(ident(1), 5, input(7, 100, "Persian Rug", "Decor", vec!["WOOL"])).unwrap();
    m.create_listing(ident(1), 6, input(8, 200, "Vase", "Pottery", vec![])).unwrap();
    let by_title: Vec<u64> = m.search_listings(&"RuG".to_string()).iter().map(|l| l.id).collect();
    assert_eq!(by_title, vec![1]);
    let by_tag: Vec<u64> = m.search_listings(&"wool".to_string()).iter().map(|l| l.id).collect();
    assert_eq!(by_tag, vec![1]);
    let by_description: Vec<u64> =
        m.search_listings(&"FOR SALE".to_string()).iter().map(|l| l.id).collect();
    assert_eq!(by_description, vec![1, 2]);
    assert!(m.search_listings(&"carpet".to_string()).is_empty());
}

#[test]
fn search_skips_inactive() {
    let mut m = Marketplace::new();
    let seller = ident(1);
    m.create_listing(seller.clone(), 5, input(7, 100, "Rug", "Decor", vec![])).unwrap();
    m.cancel_listing(&seller, 6, 1).unwrap();
    assert!(m.search_listings(&"rug".to_string()).is_empty());
}

#[test]
fn category_filter_ignores_case() {
    let mut m = Marketplace::new();
    m.create_listing(ident(1), 5, input(7, 100, "Rug", "Decor", vec![])).unwrap();
    m.create_listing(ident(1), 6, input(8, 200, "Vase", "Pottery", vec![])).unwrap();
    let decor: Vec<u64> =
        m.get_listings_by_category(&"dEcOr".to_string()).iter().map(|l| l.id).collect();
    assert_eq!(decor, vec![1]);
}

#[test]
fn registry_address_configuration() {
    let mut m = Marketplace::new();
    assert!(m.get_asset_canister_id().is_none());
    let e = m
        .set_asset_canister_id(&Identity::anonymous(), "aaaaa-aa".to_string())
        .unwrap_err();
    assert!(matches!(e, MarketError::Unauthenticated));
    let ack = m.set_asset_canister_id(&ident(1), "aaaaa-aa".to_string()).unwrap();
    assert_eq!(ack, "aaaaa-aa");
    assert_eq!(m.get_asset_canister_id().unwrap(), "aaaaa-aa");
}

#[test]
fn purchase_result_maps_outcomes() {
    let mut m = market_with_registry();
    m.create_listing(ident(1), 5, input(7, 100, "Rug", "Decor", vec![])).unwrap();
    let pending = m.buy_prepare(ident(2), 20, 1).unwrap();
    let done = m
        .buy_resolve(pending.transaction.id, TransferOutcome::Rejected("not owner".to_string()))
        .unwrap();
    let e = marketplace::market::purchase_result(
        done,
        TransferOutcome::Rejected("not owner".to_string()),
    )
    .unwrap_err();
    match e {
        MarketError::TransferRejected(reason) => assert_eq!(reason, "not owner"),
        other => panic!("unexpected error {:?}", other),
    }
    let pending2 = {
        let mut m2 = market_with_registry();
        m2.create_listing(ident(1), 5, input(7, 100, "Rug", "Decor", vec![])).unwrap();
        m2.buy_prepare(ident(2), 20, 1).unwrap()
    };
    let ok = marketplace::market::purchase_result(pending2.transaction, TransferOutcome::Success)
        .unwrap();
    assert_eq!(ok.id, 1);
}

#[test]
fn ledger_point_lookup() {
    let mut m = market_with_registry();
    m.create_listing(ident(1), 5, input(7, 100, "Rug", "Decor", vec![])).unwrap();
    let pending = m.buy_prepare(ident(2), 20, 1).unwrap();
    m.buy_resolve(pending.transaction.id, TransferOutcome::Success).unwrap();
    let recorded = m.transactions.get(1).unwrap();
    assert_eq!(recorded.id, 1);
    assert_eq!(recorded.listing_id, 1);
    assert!(matches!(recorded.status, TransactionStatus::Completed));
    assert!(m.transactions.get(2).is_none());
}
