use stellar_split::dashboard::{DashboardContract, DashboardError};
use stellar_split::types::Address;

const SPLIT: Address = Address(7);

fn setup() -> DashboardContract {
    let mut d = DashboardContract::new();
    d.initialize(SPLIT).unwrap();
    d
}

#[test]
fn test_initial_dashboard_empty() {
    let d = setup();
    let dash = d.get_creator_dashboard(Address(1));

    assert_eq!(dash.invoice_count, 0);
    assert_eq!(dash.total_volume, 0);
    assert_eq!(dash.released_count, 0);
    assert_eq!(dash.refunded_count, 0);
    assert_eq!(dash.released_volume, 0);
}

#[test]
fn test_record_created_updates_stats() {
    let mut d = setup();
    let creator = Address(1);

    d.record_created(creator, 1000).unwrap();
    d.record_created(creator, 2000).unwrap();

    let dash = d.get_creator_dashboard(creator);
    assert_eq!(dash.invoice_count, 2);
    assert_eq!(dash.total_volume, 3000);
    assert_eq!(dash.released_count, 0);
    assert_eq!(dash.refunded_count, 0);
    assert_eq!(dash.released_volume, 0);
}

#[test]
fn test_record_released_updates_stats() {
    let mut d = setup();
    let creator = Address(1);

    d.record_created(creator, 5000).unwrap();
    d.record_released(creator, 3000).unwrap();
    d.record_released(creator, 2000).unwrap();

    let dash = d.get_creator_dashboard(creator);
    assert_eq!(dash.invoice_count, 1);
    assert_eq!(dash.total_volume, 5000);
    assert_eq!(dash.released_count, 2);
    assert_eq!(dash.refunded_count, 0);
    assert_eq!(dash.released_volume, 5000);
}

#[test]
fn test_record_refunded_updates_stats() {
    let mut d = setup();
    let creator = Address(1);

    d.record_created(creator, 1000).unwrap();
    d.record_refunded(creator).unwrap();

    let dash = d.get_creator_dashboard(creator);
    assert_eq!(dash.invoice_count, 1);
    assert_eq!(dash.total_volume, 1000);
    assert_eq!(dash.released_count, 0);
    assert_eq!(dash.refunded_count, 1);
    assert_eq!(dash.released_volume, 0);
}

#[test]
fn test_stats_are_per_creator() {
    let mut d = setup();
    let creator_a = Address(1);
    let creator_b = Address(2);

    d.record_created(creator_a, 100).unwrap();
    d.record_created(creator_a, 200).unwrap();
    d.record_created(creator_b, 500).unwrap();
    d.record_released(creator_a, 300).unwrap();
    d.record_refunded(creator_b).unwrap();

    let dash_a = d.get_creator_dashboard(creator_a);
    assert_eq!(dash_a.invoice_count, 2);
    assert_eq!(dash_a.total_volume, 300);
    assert_eq!(dash_a.released_count, 1);
    assert_eq!(dash_a.refunded_count, 0);
    assert_eq!(dash_a.released_volume, 300);

    let dash_b = d.get_creator_dashboard(creator_b);
    assert_eq!(dash_b.invoice_count, 1);
    assert_eq!(dash_b.total_volume, 500);
    assert_eq!(dash_b.released_count, 0);
    assert_eq!(dash_b.refunded_count, 1);
    assert_eq!(dash_b.released_volume, 0);
}

#[test]
fn test_unauthorized_caller_rejected() {
    // Every recording call needs the authorization of the split contract
    // that was set at initialization; the call hands it back for the host.
    let mut d = setup();
    assert_eq!(d.record_created(Address(1), 100), Ok(SPLIT));
    let mut fresh = DashboardContract::new();
    assert_eq!(fresh.record_created(Address(1), 100), Err(DashboardError::NotInitialized));
}

#[test]
fn dashboard_initialize_twice_rejected() {
    let mut d = setup();
    assert_eq!(d.initialize(Address(9)), Err(DashboardError::AlreadyInitialized));
    assert_eq!(DashboardError::AlreadyInitialized.message(), "already initialized");
}

#[test]
fn dashboard_overflow_errors() {
    let mut d = setup();
    d.record_created(Address(1), i128::MAX).unwrap();
    assert_eq!(d.record_created(Address(1), 1), Err(DashboardError::TotalVolumeOverflow));
    // A rejected call leaves the counters as they were.
    assert_eq!(d.get_creator_dashboard(Address(1)).invoice_count, 1);
    d.record_released(Address(1), i128::MAX).unwrap();
    assert_eq!(d.record_released(Address(1), 1), Err(DashboardError::ReleasedVolumeOverflow));
    assert_eq!(d.get_creator_dashboard(Address(1)).released_count, 1);
}
