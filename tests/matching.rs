use jaws::matcher::thin_reservations;
use jaws::model::{Instance, Reservation};

fn instance(id: &str, instance_type: &str) -> Instance {
    Instance {
        instance_id: id.to_string(),
        instance_type: instance_type.to_string(),
        state: "running".to_string(),
        availability_zone: Some("eu-west-1a".to_string()),
        tags: Vec::new(),
        public_ip_address: None,
        private_ip_address: Some("10.0.0.1".to_string()),
        iam_instance_profile_arn: None,
        spot: false,
    }
}

fn reservation(instance_type: &str, count: u32) -> Reservation {
    Reservation {
        instance_type: instance_type.to_string(),
        instance_count: count,
        availability_zone: None,
        end: 1_800_000_000,
        duration: 31_536_000,
        offering_type: "No Upfront".to_string(),
        fixed_price: 0,
        recurring_charges: Vec::new(),
    }
}

#[test]
fn more_instances_than_capacity() {
    let instances = vec![instance("i-1", "m5.large"), instance("i-2", "m5.large"), instance("i-3", "m5.large")];
    let mut reservations = vec![reservation("m5.large", 2)];
    let (covered, uncovered) = thin_reservations(&instances, &mut reservations);
    assert_eq!(covered, vec!["i-1".to_string(), "i-2".to_string()]);
    assert_eq!(uncovered, vec!["i-3".to_string()]);
    assert!(reservations.is_empty());
}

#[test]
fn capacity_left_over() {
    let instances = vec![instance("i-1", "m5.large"), instance("i-2", "m5.large")];
    let mut reservations = vec![reservation("m5.large", 3)];
    let (covered, uncovered) = thin_reservations(&instances, &mut reservations);
    assert_eq!(covered.len(), 2);
    assert!(uncovered.is_empty());
    assert_eq!(reservations.len(), 1);
    assert_eq!(reservations[0].instance_count, 1);
}

#[test]
fn exhausted_reservation_is_dropped() {
    let instances = vec![instance("i-1", "t3.micro"), instance("i-2", "m5.large")];
    let mut reservations = vec![reservation("t3.micro", 1), reservation("m5.large", 4)];
    let (covered, uncovered) = thin_reservations(&instances, &mut reservations);
    assert_eq!(covered, vec!["i-1".to_string(), "i-2".to_string()]);
    assert!(uncovered.is_empty());
    assert_eq!(reservations.len(), 1);
    assert_eq!(reservations[0].instance_type, "m5.large");
    assert_eq!(reservations[0].instance_count, 3);
}

#[test]
fn first_fit_takes_earliest_reservation_first() {
    let instances = vec![instance("i-1", "m5.large")];
    let mut a = reservation("m5.large", 1);
    a.availability_zone = Some("eu-west-1a".to_string());
    let b = reservation("m5.large", 1);
    let mut reservations = vec![a, b];
    let (covered, _) = thin_reservations(&instances, &mut reservations);
    assert_eq!(covered.len(), 1);
    assert_eq!(reservations.len(), 1);
    assert_eq!(reservations[0].availability_zone, None);
}

#[test]
fn zero_count_reservation_covers_nothing() {
    let instances = vec![instance("i-1", "c5.xlarge")];
    let mut reservations = vec![reservation("c5.xlarge", 0), reservation("m5.large", 2)];
    let (covered, uncovered) = thin_reservations(&instances, &mut reservations);
    assert!(covered.is_empty());
    assert_eq!(uncovered, vec!["i-1".to_string()]);
    assert_eq!(reservations.len(), 1);
    assert!(reservations.iter().all(|r| r.instance_count > 0));
}

#[test]
fn no_instances_keeps_all_capacity() {
    let mut reservations = vec![reservation("m5.large", 2), reservation("r5.large", 1)];
    let (covered, uncovered) = thin_reservations(&Vec::new(), &mut reservations);
    assert!(covered.is_empty() && uncovered.is_empty());
    assert_eq!(reservations.len(), 2);
}
