use modbus_symbol_map::types::{build_types_map, get_modbus_length_type, SymbolTypeEntry};

fn entry(tag: &str, type_id: u32, size: u32, text: &str) -> SymbolTypeEntry {
    SymbolTypeEntry {
        tag: String::from(tag),
        type_id,
        size,
        text: String::from(text),
    }
}

#[test]
fn resolve_real_and_byte() {
    let entries = vec![entry("TypeSimple", 5, 0, "REAL"), entry("TypeSimple", 6, 0, "BYTE")];
    let map = build_types_map(&entries);
    assert_eq!(get_modbus_length_type(5, &map), (2, String::from("floatsw")));
    assert_eq!(get_modbus_length_type(6, &map), (1, String::from("uint8be")));
}

#[test]
fn resolve_unknown_id_is_unresolvable() {
    let map = build_types_map(&Vec::new());
    assert_eq!(get_modbus_length_type(42, &map), (0, String::new()));
}

#[test]
fn resolve_all_primitive_names() {
    let names: Vec<(&str, u32, &str)> = vec![
        ("BYTE", 1, "uint8be"),
        ("WORD", 1, "uint16be"),
        ("DWORD", 2, "uint32sw"),
        ("SINT", 1, "int8be"),
        ("USINT", 1, "uint8be"),
        ("INT", 1, "int16be"),
        ("UINT", 1, "uint16be"),
        ("DINT", 2, "int32sw"),
        ("UDINT", 2, "uint32sw"),
        ("REAL", 2, "floatsw"),
        ("TIME", 2, "uint32sw"),
        ("TOD", 2, "uint32sw"),
        ("DATE", 2, "uint32sw"),
        ("DT", 2, "uint32sw"),
    ];
    let mut entries = Vec::new();
    for (i, (name, _, _)) in names.iter().enumerate() {
        entries.push(entry("TypeSimple", i as u32, 0, name));
    }
    let map = build_types_map(&entries);
    for (i, (_, len, tag)) in names.iter().enumerate() {
        assert_eq!(get_modbus_length_type(i as u32, &map), (*len, String::from(*tag)));
    }
}

#[test]
fn resolve_string_type_uses_declared_size() {
    let entries = vec![entry("TypeString", 9, 81, "")];
    let map = build_types_map(&entries);
    assert_eq!(get_modbus_length_type(9, &map), (81, String::from("stringle")));
}

#[test]
fn resolve_userdef_array_enum_keep_length_zero() {
    let entries = vec![
        entry("TypeUserdef", 1, 0, "MyStruct"),
        entry("TypeArray", 2, 0, ""),
        entry("TypeEnum", 3, 0, ""),
    ];
    let map = build_types_map(&entries);
    assert_eq!(get_modbus_length_type(1, &map), (0, String::new()));
    assert_eq!(get_modbus_length_type(2, &map), (0, String::new()));
    assert_eq!(get_modbus_length_type(3, &map), (0, String::new()));
}

#[test]
fn resolve_unknown_simple_name_passes_name_through() {
    let entries = vec![entry("TypeSimple", 7, 0, "LREAL")];
    let map = build_types_map(&entries);
    assert_eq!(get_modbus_length_type(7, &map), (0, String::from("LREAL")));
}

#[test]
fn duplicate_type_id_last_write_wins() {
    let entries = vec![entry("TypeSimple", 5, 0, "BYTE"), entry("TypeSimple", 5, 0, "REAL")];
    let map = build_types_map(&entries);
    assert_eq!(get_modbus_length_type(5, &map), (2, String::from("floatsw")));
}

#[test]
fn unknown_tag_is_unresolvable() {
    let entries = vec![entry("TypeSomethingElse", 4, 0, "X")];
    let map = build_types_map(&entries);
    assert_eq!(get_modbus_length_type(4, &map), (0, String::new()));
}
