use realtypro::matching::{budget_matches, matched_properties, property_matches};
use realtypro::models::{Client, Property};

fn client(min: Option<i64>, max: Option<i64>) -> Client {
    Client {
        id: "c1".into(),
        name: "Jane".into(),
        email: "jane@example.com".into(),
        phone: None,
        budget_min: min,
        budget_max: max,
        preferred_areas: None,
        status: "active".into(),
        notes: None,
        created_at: "Jan 01, 2025".into(),
    }
}

fn property(id: &str, price: i64, status: &str) -> Property {
    Property {
        id: id.into(),
        address: format!("{} Main St", id),
        city: "Springfield".into(),
        price,
        bedrooms: None,
        bathrooms: None,
        area_sqft: None,
        property_type: "house".into(),
        status: status.into(),
        description: None,
        created_at: "Jan 01, 2025".into(),
    }
}

#[test]
fn budget_shapes() {
    assert!(budget_matches(Some(100), Some(200), 100));
    assert!(budget_matches(Some(100), Some(200), 200));
    assert!(!budget_matches(Some(100), Some(200), 201));
    assert!(budget_matches(Some(100), None, 10_000));
    assert!(!budget_matches(Some(100), None, 99));
    assert!(budget_matches(None, Some(200), 0));
    assert!(!budget_matches(None, None, 150));
}

#[test]
fn only_available_properties_match() {
    let c = client(Some(100_000), Some(400_000));
    assert!(property_matches(&c, &property("a", 300_000, "available")));
    assert!(!property_matches(&c, &property("b", 300_000, "pending")));
    assert!(!property_matches(&c, &property("c", 300_000, "Available")));
    assert!(!property_matches(&c, &property("d", 500_000, "available")));
}

#[test]
fn law_matches_exact_on_a_listing() {
    let c = client(Some(200_000), Some(500_000));
    let props = vec![
        property("p0", 150_000, "available"),
        property("p1", 250_000, "available"),
        property("p2", 300_000, "sold"),
        property("p3", 500_000, "available"),
        property("p4", 600_000, "available"),
        property("p5", 200_000, "available"),
    ];
    assert_eq!(matched_properties(&c, &props), vec![1, 3, 5]);
    let none = client(None, None);
    assert!(matched_properties(&none, &props).is_empty());
    let upto = client(None, Some(250_000));
    assert_eq!(matched_properties(&upto, &props), vec![0, 1, 5]);
}
