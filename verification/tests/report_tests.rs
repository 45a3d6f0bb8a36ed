use memnav::analyzer::{analyze_memory, MemoryUsage};
use memnav::parser::parse_map_file;
use memnav::report::export_to_csv;
use memnav::symbol::{SymbolInfo, SymbolType};

#[test]
fn empty_report_is_the_header_row() {
    let usage = MemoryUsage { total_text: 0, total_data: 0, total_bss: 0, symbols: Vec::new() };
    assert_eq!(export_to_csv(&usage), "Section,Symbol Name,Address,Size (bytes),Type\n");
}

#[test]
fn rows_show_address_in_upper_hex_and_size_in_decimal() {
    let mut symbols = parse_map_file(".text 0x1000 0x200\n 0x1000 symA\n 0x1abc symB\n.data 0x2000 0x10\n 0x2000 symC\n");
    let usage = analyze_memory(&mut symbols);
    assert_eq!(
        export_to_csv(&usage),
        "Section,Symbol Name,Address,Size (bytes),Type\n\
         .text,symA,0x1000,2748,function\n\
         .text,symB,0x1ABC,1348,function\n\
         .data,symC,0x2000,0,variable\n"
    );
}

#[test]
fn rows_show_every_kind_by_its_label() {
    let usage = MemoryUsage {
        total_text: 0,
        total_data: 0,
        total_bss: 0,
        symbols: vec![SymbolInfo {
            section: "".to_string(),
            name: "odd name".to_string(),
            address: 0,
            size: u64::MAX,
            symbol_type: SymbolType::Unknown,
            source_file: Some("a.o".to_string()),
        }],
    };
    assert_eq!(
        export_to_csv(&usage),
        "Section,Symbol Name,Address,Size (bytes),Type\n,odd name,0x0,18446744073709551615,unknown\n"
    );
}

#[test]
fn labels_read_back() {
    for kind in [SymbolType::Function, SymbolType::Variable, SymbolType::Unknown] {
        assert_eq!(SymbolType::from_label(kind.label()), Some(kind));
    }
    assert_eq!(SymbolType::Function.label(), "function");
    assert_eq!(SymbolType::Variable.label(), "variable");
    assert_eq!(SymbolType::Unknown.label(), "unknown");
    assert_eq!(SymbolType::from_label("Function"), None);
    assert_eq!(SymbolType::from_label(""), None);
}

#[test]
fn clone_keeps_every_field() {
    let symbol = SymbolInfo {
        section: ".bss".to_string(),
        name: "heap".to_string(),
        address: 0x7000,
        size: 0x80,
        symbol_type: SymbolType::Variable,
        source_file: Some("heap.o".to_string()),
    };
    let copy = symbol.clone();
    assert_eq!(copy.section, ".bss");
    assert_eq!(copy.name, "heap");
    assert_eq!(copy.address, 0x7000);
    assert_eq!(copy.size, 0x80);
    assert_eq!(copy.symbol_type, SymbolType::Variable);
    assert_eq!(copy.source_file.as_deref(), Some("heap.o"));
}
