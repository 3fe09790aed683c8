use std::collections::HashMap;
use modbus_symbol_map::address::FailureKind;
use modbus_symbol_map::filter::NameFilter;
use modbus_symbol_map::merge::merge_symbols;
use modbus_symbol_map::records::{CSVEntryHoldings, CSVEntryInputs, Family, ReportLine, Symbol};
use modbus_symbol_map::types::{build_types_map, SymbolTypeEntry, TypeNode};

fn sym(ref_id: u32, offset: u32, type_id: u32, path: &str) -> Symbol {
    Symbol { ref_id, offset, type_id, path: String::from(path) }
}

fn entry(tag: &str, type_id: u32, size: u32, text: &str) -> SymbolTypeEntry {
    SymbolTypeEntry {
        tag: String::from(tag),
        type_id,
        size,
        text: String::from(text),
    }
}

/// A dictionary with REAL as type 5, BYTE as type 6, and a user-defined
/// (unresolvable) type as 7.
fn test_dict() -> HashMap<u32, TypeNode> {
    build_types_map(&vec![
        entry("TypeSimple", 5, 0, "REAL"),
        entry("TypeSimple", 6, 0, "BYTE"),
        entry("TypeUserdef", 7, 0, "MyStruct"),
    ])
}

fn match_all() -> NameFilter {
    NameFilter::compile(".*").unwrap()
}

#[test]
fn fresh_symbol_gets_defaults_and_computed_fields() {
    let symbols = vec![sym(1, 512, 5, ".Motor[2].Speed")];
    let dict = test_dict();
    let out = merge_symbols(&symbols, &dict, &match_all(), &Vec::new(), &Vec::new());
    assert_eq!(out.holdings.len(), 1);
    assert_eq!(out.inputs.len(), 0);
    let rec = &out.holdings[0];
    assert_eq!(rec.address, 768);
    assert_eq!(rec.name, "Motor.2.Speed");
    assert_eq!(rec.description, "Motor[2].Speed");
    assert_eq!(rec.type_, "floatsw");
    assert_eq!(rec.length, 2);
    assert_eq!(rec.factor, 1);
    assert_eq!(rec.offset, 0);
    assert_eq!(rec.role, "state");
    assert_eq!(rec.unit, "");
    assert_eq!(rec.room, "");
    assert!(rec.poll);
    assert!(!rec.writepulse);
    assert_eq!(
        out.report,
        vec![ReportLine::Success {
            family: Family::Holdings,
            address: 768,
            name: String::from("Motor.2.Speed"),
        }]
    );
}

#[test]
fn curated_fields_survive_regeneration() {
    let symbols = vec![sym(1, 512, 5, ".Motor[2].Speed")];
    let dict = test_dict();
    let curated = CSVEntryHoldings {
        address: 9999,
        name: String::from("Motor.2.Speed"),
        description: String::from("spindle speed"),
        unit: String::from("rpm"),
        type_: String::from("stale"),
        length: 42,
        factor: 10,
        offset: 3,
        role: String::from("alarm"),
        room: String::from("hall"),
        poll: false,
        writepulse: true,
    };
    let out = merge_symbols(&symbols, &dict, &match_all(), &vec![curated], &Vec::new());
    assert_eq!(out.holdings.len(), 1);
    let rec = &out.holdings[0];
    // Curated annotations survive.
    assert_eq!(rec.role, "alarm");
    assert_eq!(rec.description, "spindle speed");
    assert_eq!(rec.unit, "rpm");
    assert_eq!(rec.room, "hall");
    assert_eq!(rec.factor, 10);
    assert_eq!(rec.offset, 3);
    assert!(!rec.poll);
    assert!(rec.writepulse);
    // Address, type and length are recomputed.
    assert_eq!(rec.address, 768);
    assert_eq!(rec.type_, "floatsw");
    assert_eq!(rec.length, 2);
}

#[test]
fn zero_length_type_never_emitted() {
    // Valid address, but the type resolves to length 0.
    let symbols = vec![sym(1, 512, 7, ".Tank[0]"), sym(2, 512, 7, ".Gauge")];
    let dict = test_dict();
    let out = merge_symbols(&symbols, &dict, &match_all(), &Vec::new(), &Vec::new());
    assert!(out.holdings.is_empty());
    assert!(out.inputs.is_empty());
    // Unresolvable symbols are dropped without a report line.
    assert!(out.report.is_empty());
}

#[test]
fn merge_twice_reproduces_output() {
    let symbols = vec![
        sym(0, 0, 6, ".Flag"),
        sym(1, 512, 5, ".Motor[2].Speed"),
        sym(1, 1024, 5, ".Motor[3].Speed"),
        sym(2, 512, 6, ".Gauge[1]"),
        sym(2, 600, 5, ".Gauge[2]"),
    ];
    let dict = test_dict();
    let filter = match_all();
    let first = merge_symbols(&symbols, &dict, &filter, &Vec::new(), &Vec::new());
    let second = merge_symbols(&symbols, &dict, &filter, &first.holdings, &first.inputs);
    assert_eq!(first.holdings, second.holdings);
    assert_eq!(first.inputs, second.inputs);
    assert_eq!(first.report, second.report);
}

#[test]
fn output_order_follows_symbol_order() {
    let symbols = vec![
        sym(1, 2048, 5, ".B"),
        sym(2, 514, 5, ".Y"),
        sym(1, 512, 5, ".A"),
        sym(2, 512, 5, ".X"),
    ];
    let dict = test_dict();
    let out = merge_symbols(&symbols, &dict, &match_all(), &Vec::new(), &Vec::new());
    let holdings_names: Vec<&str> = out.holdings.iter().map(|r| r.name.as_str()).collect();
    let inputs_names: Vec<&str> = out.inputs.iter().map(|r| r.name.as_str()).collect();
    // Not sorted by address: traversal order is kept within each family.
    assert_eq!(holdings_names, vec!["B", "A"]);
    assert_eq!(out.holdings[0].address, 25088);
    assert_eq!(out.holdings[1].address, 768);
    assert_eq!(inputs_names, vec!["Y", "X"]);
    assert_eq!(out.inputs[0].address, 257);
    assert_eq!(out.inputs[1].address, 256);
}

#[test]
fn name_filter_skips_silently() {
    let filter = NameFilter::compile("^Motor").unwrap();
    let symbols = vec![sym(1, 512, 5, ".Motor[2].Speed"), sym(1, 514, 5, ".Tank[0]")];
    let dict = test_dict();
    let out = merge_symbols(&symbols, &dict, &filter, &Vec::new(), &Vec::new());
    assert_eq!(out.holdings.len(), 1);
    assert_eq!(out.holdings[0].name, "Motor.2.Speed");
    // The filtered symbol leaves no report line either.
    assert_eq!(out.report.len(), 1);
}

#[test]
fn invalid_filter_pattern_is_rejected() {
    assert!(NameFilter::compile("(").is_none());
}

#[test]
fn unaligned_symbol_reported_not_emitted() {
    let symbols = vec![sym(1, 513, 5, ".Motor[2].Speed")];
    let dict = test_dict();
    let out = merge_symbols(&symbols, &dict, &match_all(), &Vec::new(), &Vec::new());
    assert!(out.holdings.is_empty());
    assert_eq!(
        out.report,
        vec![ReportLine::Skip {
            offset: 513,
            name: String::from("Motor.2.Speed"),
            reason: FailureKind::Unaligned,
        }]
    );
}

#[test]
fn out_of_range_symbol_reported_not_emitted() {
    let symbols = vec![sym(2, 2, 5, ".Gauge")];
    let dict = test_dict();
    let out = merge_symbols(&symbols, &dict, &match_all(), &Vec::new(), &Vec::new());
    assert!(out.inputs.is_empty());
    assert_eq!(
        out.report,
        vec![ReportLine::Skip {
            offset: 2,
            name: String::from("Gauge"),
            reason: FailureKind::OutOfRange,
        }]
    );
}

#[test]
fn unrecognized_space_is_ignored_entirely() {
    let symbols = vec![sym(9, 512, 5, ".Ghostly")];
    let dict = test_dict();
    let out = merge_symbols(&symbols, &dict, &match_all(), &Vec::new(), &Vec::new());
    assert!(out.holdings.is_empty());
    assert!(out.inputs.is_empty());
    assert!(out.report.is_empty());
}

#[test]
fn marker_space_feeds_holdings_family() {
    let symbols = vec![sym(0, 0, 6, ".Flag")];
    let dict = test_dict();
    let out = merge_symbols(&symbols, &dict, &match_all(), &Vec::new(), &Vec::new());
    assert_eq!(out.holdings.len(), 1);
    assert_eq!(out.holdings[0].address, 12288);
    assert_eq!(
        out.report,
        vec![ReportLine::Success {
            family: Family::Holdings,
            address: 12288,
            name: String::from("Flag"),
        }]
    );
}

#[test]
fn curated_inputs_fields_survive() {
    let symbols = vec![sym(2, 512, 6, ".Gauge[1]")];
    let dict = test_dict();
    let curated = CSVEntryInputs {
        address: 0,
        name: String::from("Gauge.1"),
        description: String::from("boiler gauge"),
        unit: String::from("bar"),
        type_: String::from("stale"),
        length: 9,
        factor: 100,
        offset: 1,
        role: String::from("measurement"),
        room: String::from("cellar"),
    };
    let out = merge_symbols(&symbols, &dict, &match_all(), &Vec::new(), &vec![curated]);
    assert_eq!(out.inputs.len(), 1);
    let rec = &out.inputs[0];
    assert_eq!(rec.role, "measurement");
    assert_eq!(rec.description, "boiler gauge");
    assert_eq!(rec.unit, "bar");
    assert_eq!(rec.room, "cellar");
    assert_eq!(rec.factor, 100);
    assert_eq!(rec.offset, 1);
    assert_eq!(rec.address, 256);
    assert_eq!(rec.type_, "uint8be");
    assert_eq!(rec.length, 1);
}

#[test]
fn unresolvable_with_bad_address_stays_silent() {
    // Both the address and the type are bad: the length-0 drop wins and
    // nothing is reported.
    let symbols = vec![sym(1, 3, 7, ".Odd")];
    let dict = test_dict();
    let out = merge_symbols(&symbols, &dict, &match_all(), &Vec::new(), &Vec::new());
    assert!(out.holdings.is_empty());
    assert!(out.report.is_empty());
}
