use mydtu_dktc::crypto::{encrypt_envelope, open_envelope};
use mydtu_dktc::params::build_params;

#[test]
fn params_field_order() {
    let p = build_params("CS101", "2024", "1", "12345", "67890", "xk7q");
    assert_eq!(p, "CS101,2024,1,12345,67890,xk7q");
}

#[test]
fn params_exactly_five_commas() {
    let p = build_params("CS101", "2024", "1", "12345", "67890", "xk7q");
    assert_eq!(p.chars().filter(|&c| c == ',').count(), 5);
}

#[test]
fn params_empty_fields() {
    let p = build_params("", "", "", "", "", "");
    assert_eq!(p, ",,,,,");
}

#[test]
fn envelope_matches_fixed_vector() {
    let e = encrypt_envelope("CS101,2024,1,12345,67890,xk7q").unwrap();
    assert_eq!(e, "Opxn//0ZJS3HaIdgoJLcKRKW4ptm6K5vB9dx49IGizA=");
}

#[test]
fn envelope_deterministic() {
    let a = encrypt_envelope("CS101,2024,1,12345,67890,xk7q").unwrap();
    let b = encrypt_envelope("CS101,2024,1,12345,67890,xk7q").unwrap();
    assert_eq!(a, b);
}

#[test]
fn envelope_differs_for_different_input() {
    let a = encrypt_envelope("CS101,2024,1,12345,67890,xk7q").unwrap();
    let b = encrypt_envelope("CS102,2024,1,12345,67890,xk7q").unwrap();
    assert_ne!(a, b);
}

#[test]
fn envelope_round_trip() {
    let p = "CS101,2024,1,12345,67890,xk7q";
    let e = encrypt_envelope(p).unwrap();
    let back = open_envelope(&e).unwrap();
    assert_eq!(back, p.as_bytes());
}

#[test]
fn envelope_round_trip_empty() {
    let e = encrypt_envelope("").unwrap();
    let back = open_envelope(&e).unwrap();
    assert_eq!(back, b"");
}

#[test]
fn envelope_round_trip_full_block() {
    let p = "0123456789abcdef";
    let e = encrypt_envelope(p).unwrap();
    assert_eq!(open_envelope(&e).unwrap(), p.as_bytes());
}

#[test]
fn open_envelope_rejects_garbage() {
    assert!(open_envelope("not base64 at all!").is_none());
}
