use bugcrowd_tracker::breakdown::{calculate_points_breakdown, PointsBreakdown};

#[test]
fn simple() {
    let a = calculate_points_breakdown(40);
    let b = calculate_points_breakdown(40 + 40);

    assert!(a.unwrap().to_string() == "Critical");
    assert!(b.unwrap().to_string() == "Critical(2)");
}

#[test]
fn none() {
    let a = calculate_points_breakdown(0);
    let b = calculate_points_breakdown(3);

    assert!(a.is_none());
    assert!(b.is_none());
}

#[test]
fn breakdown_is_greedy_from_the_highest_priority() {
    let b = calculate_points_breakdown(40 * 3 + 20 + 10 + 5).unwrap();
    assert_eq!(
        b,
        PointsBreakdown { critical_bounty: 3, high_bounty: 1, moderate_bounty: 1, low_bounty: 1 }
    );
    assert_eq!(b.to_string(), "Critical(3), High, Medium, Low");
}

#[test]
fn breakdown_of_low_findings_only() {
    let b = calculate_points_breakdown(5).unwrap();
    assert_eq!(b.to_string(), "Low");
    assert_eq!(calculate_points_breakdown(35).unwrap().to_string(), "High, Medium, Low");
    assert_eq!(calculate_points_breakdown(30).unwrap().to_string(), "High, Medium");
}

#[test]
fn breakdown_counts_with_several_digits() {
    let b = calculate_points_breakdown(40 * 1234).unwrap();
    assert_eq!(b.to_string(), "Critical(1234)");
    let c = calculate_points_breakdown(i32::MAX - 2).unwrap();
    assert_eq!(c.critical_bounty, 53687091);
    assert_eq!(c.to_string(), "Critical(53687091), Low");
}

#[test]
fn breakdown_rejects_negative_and_uneven_totals() {
    assert!(calculate_points_breakdown(-40).is_none());
    assert!(calculate_points_breakdown(i32::MIN).is_none());
    assert!(calculate_points_breakdown(41).is_none());
    assert!(calculate_points_breakdown(4).is_none());
}
