use position_id::boundary::position_id_eq;
use position_id::boundary::position_id_free;
use position_id::boundary::position_id_hash;
use position_id::identifier::PositionId;

#[test]
fn test_equality() {
    let id1 = PositionId::from("P-123456789");
    let id2 = PositionId::from("P-234567890");

    assert_eq!(id1, id1);
    assert_ne!(id1, id2);
}

#[test]
fn test_string_reprs() {
    let id = PositionId::from("P-123456789");

    assert_eq!(id.display(), "P-123456789");
    assert_eq!(format!("{}", id.display()), "P-123456789");
}

#[test]
fn test_position_id_free() {
    let id = PositionId::from("001");

    position_id_free(id); // No panic
}

#[test]
fn display_returns_constructed_text() {
    for text in ["", "P-123456789", "001", "P-λ42 unicode"] {
        let id = PositionId::from(text);
        assert_eq!(id.display(), text);
        assert_eq!(id.as_text(), text);
    }
}

#[test]
fn equal_text_means_equal_identifiers() {
    let a = PositionId::from("P-123456789");
    let b = PositionId::from("P-123456789");
    assert!(a.equals(&b));
    assert_eq!(position_id_eq(&a, &b), 1);
    assert_eq!(position_id_hash(&a), position_id_hash(&b));
    assert_eq!(a.hash_value(), b.hash_value());
}

#[test]
fn different_text_means_different_identifiers() {
    let a = PositionId::from("P-123456789");
    let c = PositionId::from("P-234567890");
    assert!(!a.equals(&c));
    assert_eq!(position_id_eq(&a, &c), 0);
}

#[test]
fn equals_is_reflexive_symmetric_transitive() {
    let a = PositionId::from("P-1");
    let b = PositionId::from("P-1");
    let c = PositionId::from("P-1");
    let d = PositionId::from("P-2");

    assert!(a.equals(&a));
    assert!(d.equals(&d));

    assert_eq!(a.equals(&b), b.equals(&a));
    assert_eq!(a.equals(&d), d.equals(&a));

    assert!(a.equals(&b));
    assert!(b.equals(&c));
    assert!(a.equals(&c));
}

#[test]
fn hash_is_a_function_of_the_text_alone() {
    assert_eq!(PositionId::from("").hash_value(), 0xcbf29ce484222325);
    assert_eq!(PositionId::from("a").hash_value(), 0xaf63dc4c8601ec8c);
    assert_eq!(PositionId::from("P-123456789").hash_value(), 0x5660471529ad90bd);

    let id = PositionId::from("P-123456789");
    assert_eq!(id.hash_value(), id.hash_value());
    assert_ne!(
        PositionId::from("P-123456789").hash_value(),
        PositionId::from("P-234567890").hash_value()
    );
}

#[test]
fn display_of_clone_matches_original() {
    let a = PositionId::from("P-123456789");
    let b = a.clone();
    assert!(a.equals(&b));
    assert_eq!(b.display(), "P-123456789");
}
