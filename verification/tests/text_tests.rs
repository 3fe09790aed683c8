use modbus_symbol_map::text::{normalize, str_eq};

#[test]
fn normalize_with_leading_dot() {
    let (name, desc) = normalize(".Motor[2].Speed");
    assert_eq!(name, "Motor.2.Speed");
    assert_eq!(desc, "Motor[2].Speed");
}

#[test]
fn normalize_without_leading_dot() {
    let (name, desc) = normalize("Tank[0]");
    assert_eq!(name, "Tank.0");
    assert_eq!(desc, "Tank[0]");
}

#[test]
fn normalize_plain_name_unchanged() {
    let (name, desc) = normalize("Pump");
    assert_eq!(name, "Pump");
    assert_eq!(desc, "Pump");
}

#[test]
fn normalize_empty() {
    let (name, desc) = normalize("");
    assert_eq!(name, "");
    assert_eq!(desc, "");
}

#[test]
fn normalize_nested_indices() {
    let (name, desc) = normalize(".A[1].B[23].C");
    assert_eq!(name, "A.1.B.23.C");
    assert_eq!(desc, "A[1].B[23].C");
}

#[test]
fn normalize_strips_only_one_leading_dot() {
    let (name, desc) = normalize("..X");
    assert_eq!(name, ".X");
    assert_eq!(desc, ".X");
}

#[test]
fn str_eq_basic() {
    assert!(str_eq("", ""));
    assert!(str_eq("abc", "abc"));
    assert!(!str_eq("abc", "abd"));
    assert!(!str_eq("abc", "ab"));
}
