use vessel_routing::constants::{DAYS_IN_PERIOD, REL_DEPARTURE_TIME};
use vessel_routing::data_loader::base_from_records;
use vessel_routing::distance_manager::DistanceManager;
use vessel_routing::errors::{IngestionError, ModelError};
use vessel_routing::node::{Base, Installation, Location, TimeWindow, TimeWindowError};
use vessel_routing::vessel::Vessel;
use vessel_routing::visit::Visit;
use vessel_routing::voyage::Voyage;

fn open_window() -> TimeWindow {
    TimeWindow::new(None, None).unwrap()
}

fn sample_installation(id: u32, demand: u32) -> Installation {
    Installation::new(
        id,
        format!("installation-{}", id),
        Location::new(60_000_000, 4_000_000),
        1800,
        open_window(),
        demand,
        2,
        "rig".to_string(),
        4,
    )
}

fn sample_base() -> Base {
    Base::new(0, "base".to_string(), Location::new(60_500_000, 5_000_000), 0, open_window())
}

fn sample_vessel(idx: u32, deck_capacity: u32) -> Vessel {
    Vessel {
        idx,
        name: format!("vessel-{}", idx),
        deck_capacity,
        bulk_capacity: 100,
        speed: 12_000,
        vessel_type: "psv".to_string(),
        fcs: 500,
        fcw: 100,
        cost: 1000,
    }
}

#[test]
fn time_window_accepts_valid_bounds() {
    let tw = TimeWindow::new(Some(8), Some(20)).unwrap();
    assert_eq!(tw.start, Some(8));
    assert_eq!(tw.end, Some(20));
}

#[test]
fn time_window_rejects_start_beyond_24() {
    let r = TimeWindow::new(Some(25), Some(20));
    assert!(matches!(r, Err(TimeWindowError::InvalidStartTime(25))));
}

#[test]
fn time_window_rejects_end_beyond_24() {
    let r = TimeWindow::new(Some(8), Some(30));
    assert!(matches!(r, Err(TimeWindowError::InvalidEndTime(30))));
}

#[test]
fn time_window_boundary_hour_24_is_valid() {
    let tw = TimeWindow::new(Some(0), Some(24)).unwrap();
    assert!(tw.contains(24));
}

#[test]
fn time_window_contains_is_inclusive() {
    let tw = TimeWindow::new(Some(8), Some(20)).unwrap();
    assert!(tw.contains(8));
    assert!(tw.contains(12));
    assert!(tw.contains(20));
    assert!(!tw.contains(7));
    assert!(!tw.contains(21));
}

#[test]
fn time_window_open_sides_are_unrestricted() {
    let no_end = TimeWindow::new(Some(8), None).unwrap();
    assert!(no_end.contains(23));
    assert!(!no_end.contains(7));
    let no_start = TimeWindow::new(None, Some(20)).unwrap();
    assert!(no_start.contains(0));
    assert!(!no_start.contains(21));
    let open = TimeWindow::new(None, None).unwrap();
    assert!(open.contains(0));
    assert!(open.contains(23));
}

#[test]
fn distance_matrix_starts_all_zero() {
    let dm = DistanceManager::new(3);
    assert_eq!(dm.num_nodes(), 3);
    for i in 0..3usize {
        for j in 0..3usize {
            assert_eq!(dm.distance(i, j), Ok(0));
        }
    }
}

#[test]
fn distance_is_symmetric_after_set() {
    let mut dm = DistanceManager::new(3);
    dm.set_distance(0, 1, 60_000).unwrap();
    dm.set_distance(1, 2, 25_500).unwrap();
    assert_eq!(dm.distance(0, 1), Ok(60_000));
    assert_eq!(dm.distance(1, 0), Ok(60_000));
    assert_eq!(dm.distance(1, 2), Ok(25_500));
    assert_eq!(dm.distance(2, 1), Ok(25_500));
    assert_eq!(dm.distance(0, 2), Ok(0));
}

#[test]
fn distance_to_self_is_zero() {
    let mut dm = DistanceManager::new(2);
    dm.set_distance(0, 1, 1234).unwrap();
    assert_eq!(dm.distance(0, 0), Ok(0));
    assert_eq!(dm.distance(1, 1), Ok(0));
}

#[test]
fn distance_lookup_checks_indices() {
    let dm = DistanceManager::new(2);
    assert_eq!(dm.distance(2, 0), Err(ModelError::IndexOutOfRange));
    assert_eq!(dm.distance(0, 2), Err(ModelError::IndexOutOfRange));
}

#[test]
fn set_distance_checks_indices() {
    let mut dm = DistanceManager::new(2);
    assert_eq!(dm.set_distance(2, 0, 10), Err(ModelError::IndexOutOfRange));
    assert_eq!(dm.set_distance(0, 5, 10), Err(ModelError::IndexOutOfRange));
    assert_eq!(dm.distance(0, 1), Ok(0));
}

#[test]
fn set_distance_rejects_nonzero_diagonal() {
    let mut dm = DistanceManager::new(2);
    assert_eq!(dm.set_distance(1, 1, 10), Err(ModelError::PreconditionViolation));
    assert_eq!(dm.distance(1, 1), Ok(0));
    assert_eq!(dm.set_distance(1, 1, 0), Ok(()));
}

#[test]
fn visit_starts_unassigned() {
    let inst = sample_installation(7, 4);
    let v = Visit::new(&inst);
    assert_eq!(v.installation_id(), 7);
    assert_eq!(v.deck_demand(), 4);
    assert_eq!(v.departure_day, None);
    assert_eq!(v.vessel_id, None);
    assert!(!v.is_assigned);
}

#[test]
fn visit_departure_day_six_succeeds() {
    let inst = sample_installation(1, 4);
    let mut v = Visit::new(&inst);
    assert_eq!(v.set_departure_day(6), Ok(()));
    assert_eq!(v.departure_day, Some(6));
}

#[test]
fn visit_departure_day_seven_fails_cleanly() {
    let inst = sample_installation(1, 4);
    let mut v = Visit::new(&inst);
    assert_eq!(v.set_departure_day(3), Ok(()));
    assert_eq!(v.set_departure_day(DAYS_IN_PERIOD), Err(ModelError::PreconditionViolation));
    assert_eq!(v.departure_day, Some(3));
    assert!(!v.is_assigned);
}

#[test]
fn visit_assignment_needs_day_and_vessel() {
    let inst = sample_installation(1, 4);
    let mut v = Visit::new(&inst);
    v.assign_vessel(2);
    assert_eq!(v.vessel_id, Some(2));
    assert!(!v.is_assigned);
    assert_eq!(v.set_departure_day(0), Ok(()));
    assert!(v.is_assigned);
}

#[test]
fn voyage_starts_empty_and_unscheduled() {
    let dm = DistanceManager::new(1);
    let base = sample_base();
    let voyage = Voyage::new(&dm, &base);
    assert_eq!(voyage.get_deck_load(), 0);
    assert!(!voyage.is_scheduled());
    assert_eq!(voyage.get_start_time(), None);
    assert_eq!(voyage.get_end_time(), None);
    assert_eq!(voyage.route.len(), 0);
    assert_eq!(voyage.base_id, base.node.id);
}

#[test]
fn voyage_capacity_scenario_two_accepted_third_rejected() {
    let dm = DistanceManager::new(4);
    let base = sample_base();
    let mut voyage = Voyage::new(&dm, &base);
    voyage.set_vessel(sample_vessel(1, 10));
    let visits = [
        Visit::new(&sample_installation(1, 4)),
        Visit::new(&sample_installation(2, 4)),
        Visit::new(&sample_installation(3, 4)),
    ];
    let [v1, v2, v3] = visits;
    assert_eq!(voyage.add_visit(v1), Ok(()));
    assert_eq!(voyage.get_deck_load(), 4);
    assert_eq!(voyage.add_visit(v2), Ok(()));
    assert_eq!(voyage.get_deck_load(), 8);
    assert_eq!(voyage.route.len(), 2);
    assert_eq!(voyage.add_visit(v3), Err(ModelError::CapacityExceeded));
    assert_eq!(voyage.get_deck_load(), 8);
    assert_eq!(voyage.route.len(), 2);
}

#[test]
fn voyage_exact_capacity_is_accepted() {
    let dm = DistanceManager::new(2);
    let base = sample_base();
    let mut voyage = Voyage::new(&dm, &base);
    voyage.set_vessel(sample_vessel(1, 8));
    assert_eq!(voyage.add_visit(Visit::new(&sample_installation(1, 8))), Ok(()));
    assert_eq!(voyage.get_deck_load(), 8);
}

#[test]
fn voyage_without_vessel_skips_capacity_check() {
    let dm = DistanceManager::new(2);
    let base = sample_base();
    let mut voyage = Voyage::new(&dm, &base);
    assert_eq!(voyage.add_visit(Visit::new(&sample_installation(1, 1_000_000))), Ok(()));
    assert_eq!(voyage.get_deck_load(), 0);
    assert_eq!(voyage.route.len(), 1);
    assert_eq!(voyage.route[0].vessel_id, None);
}

#[test]
fn voyage_propagates_vessel_and_day_to_visit() {
    let dm = DistanceManager::new(2);
    let base = sample_base();
    let mut voyage = Voyage::new(&dm, &base);
    voyage.set_vessel(sample_vessel(9, 100));
    voyage.set_start_day(2);
    assert_eq!(voyage.add_visit(Visit::new(&sample_installation(1, 4))), Ok(()));
    let placed = &voyage.route[0];
    assert_eq!(placed.vessel_id, Some(9));
    assert_eq!(placed.departure_day, Some(2));
    assert!(placed.is_assigned);
}

#[test]
fn voyage_day_only_propagation_leaves_visit_unassigned() {
    let dm = DistanceManager::new(2);
    let base = sample_base();
    let mut voyage = Voyage::new(&dm, &base);
    voyage.set_start_day(5);
    assert_eq!(voyage.add_visit(Visit::new(&sample_installation(1, 3))), Ok(()));
    let placed = &voyage.route[0];
    assert_eq!(placed.departure_day, Some(5));
    assert_eq!(placed.vessel_id, None);
    assert!(!placed.is_assigned);
}

#[test]
fn voyage_vessel_bound_late_does_not_recheck_earlier_load() {
    // Capacity checking is order-dependent: visits accepted while no
    // vessel was bound never count toward the deck load, and binding a
    // vessel afterwards does not re-validate the route.
    let dm = DistanceManager::new(2);
    let base = sample_base();
    let mut voyage = Voyage::new(&dm, &base);
    assert_eq!(voyage.add_visit(Visit::new(&sample_installation(1, 50))), Ok(()));
    voyage.set_vessel(sample_vessel(1, 10));
    assert_eq!(voyage.get_deck_load(), 0);
    assert_eq!(voyage.route.len(), 1);
    assert_eq!(voyage.add_visit(Visit::new(&sample_installation(2, 10))), Ok(()));
    assert_eq!(voyage.get_deck_load(), 10);
}

#[test]
fn voyage_start_time_is_derived_from_day() {
    let dm = DistanceManager::new(1);
    let base = sample_base();
    let mut voyage = Voyage::new(&dm, &base);
    voyage.set_start_day(3);
    assert_eq!(voyage.get_start_time(), Some(3 * 24 + REL_DEPARTURE_TIME));
    assert!(!voyage.is_scheduled());
}

#[test]
fn voyage_scheduled_once_vessel_and_day_set() {
    let dm = DistanceManager::new(1);
    let base = sample_base();
    let mut voyage = Voyage::new(&dm, &base);
    voyage.set_vessel(sample_vessel(1, 10));
    assert!(!voyage.is_scheduled());
    voyage.set_start_day(0);
    assert!(voyage.is_scheduled());
    assert_eq!(voyage.get_start_time(), Some(REL_DEPARTURE_TIME));
    assert_eq!(voyage.get_end_time(), None);
}

#[test]
fn base_source_with_one_record_loads() {
    let base = sample_base();
    let loaded = base_from_records(vec![base]).unwrap();
    assert_eq!(loaded.node.id, 0);
    assert_eq!(loaded.node.name, "base");
}

#[test]
fn base_source_with_zero_records_is_an_error() {
    let r = base_from_records(Vec::new());
    assert!(matches!(r, Err(IngestionError::EmptyInput)));
}
