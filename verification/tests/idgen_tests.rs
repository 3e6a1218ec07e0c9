use marketplace::idgen::{IdGenerator, LAND_KIND, LISTING_KIND, TRANSACTION_KIND};

#[test]
fn counters_start_at_zero() {
    let ids = IdGenerator::new();
    assert_eq!(ids.last_issued(LAND_KIND), 0);
    assert_eq!(ids.last_issued(LISTING_KIND), 0);
    assert_eq!(ids.last_issued(TRANSACTION_KIND), 0);
}

#[test]
fn each_kind_counts_independently() {
    let mut ids = IdGenerator::new();
    assert_eq!(ids.get_next_land_id(), 1);
    assert_eq!(ids.get_next_land_id(), 2);
    assert_eq!(ids.get_next_listing_id(), 1);
    assert_eq!(ids.get_next_transaction_id(), 1);
    assert_eq!(ids.get_next_land_id(), 3);
    assert_eq!(ids.last_issued(LAND_KIND), 3);
    assert_eq!(ids.last_issued(LISTING_KIND), 1);
    assert_eq!(ids.last_issued(TRANSACTION_KIND), 1);
}

#[test]
fn issued_ids_increase_without_gaps() {
    let mut ids = IdGenerator::new();
    let mut previous: u64 = 0;
    for _ in 0..100 {
        let id = ids.get_next_listing_id();
        assert_eq!(id, previous + 1);
        previous = id;
    }
}
