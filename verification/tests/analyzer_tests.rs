use memnav::analyzer::{analyze_memory, infer_sizes, try_analyze_memory};
use memnav::symbol::{SymbolInfo, SymbolType};

fn symbol(section: &str, name: &str, address: u64, size: u64) -> SymbolInfo {
    SymbolInfo {
        section: section.to_string(),
        name: name.to_string(),
        address,
        size,
        symbol_type: if section == ".text" { SymbolType::Function } else { SymbolType::Variable },
        source_file: None,
    }
}

#[test]
fn sizes_come_from_the_next_address() {
    let mut symbols = vec![
        symbol(".text", "symA", 0x1000, 0),
        symbol(".text", "symB", 0x1100, 0),
        symbol(".data", "symC", 0x2000, 0),
    ];
    let usage = analyze_memory(&mut symbols);
    assert_eq!(symbols[0].size, 0x100);
    assert_eq!(symbols[1].size, 0xF00);
    assert_eq!(symbols[2].size, 0);
    assert_eq!(usage.total_text, 0x1000);
    assert_eq!(usage.total_data, 0);
    assert_eq!(usage.total_bss, 0);
    assert_eq!(usage.symbols.len(), 3);
}

#[test]
fn report_holds_the_records_in_order_with_their_sizes() {
    let mut symbols = vec![
        symbol(".bss", "buffer", 0x20, 0),
        symbol(".data", "table", 0x60, 0),
        symbol(".text", "start", 0x100, 0),
    ];
    let usage = analyze_memory(&mut symbols);
    let names: Vec<&str> = usage.symbols.iter().map(|s| s.name.as_str()).collect();
    assert_eq!(names, vec!["buffer", "table", "start"]);
    let sizes: Vec<u64> = usage.symbols.iter().map(|s| s.size).collect();
    assert_eq!(sizes, vec![0x40, 0xA0, 0]);
    assert_eq!(usage.total_bss, 0x40);
    assert_eq!(usage.total_data, 0xA0);
    assert_eq!(usage.total_text, 0);
    assert_eq!(usage.symbols[0].section, ".bss");
    assert_eq!(usage.symbols[0].address, 0x20);
    assert_eq!(usage.symbols[0].symbol_type, SymbolType::Variable);
}

#[test]
fn lower_next_address_gives_size_zero() {
    let mut symbols = vec![
        symbol(".text", "high", 0x5000, 0),
        symbol(".text", "low", 0x1000, 0),
        symbol(".text", "end", 0x1010, 0),
    ];
    let usage = analyze_memory(&mut symbols);
    assert_eq!(symbols[0].size, 0);
    assert_eq!(symbols[1].size, 0x10);
    assert_eq!(symbols[2].size, 0);
    assert_eq!(usage.total_text, 0x10);
}

#[test]
fn equal_addresses_give_size_zero() {
    let mut symbols = vec![symbol(".data", "a", 0x10, 0), symbol(".data", "alias", 0x10, 0)];
    let usage = analyze_memory(&mut symbols);
    assert_eq!(symbols[0].size, 0);
    assert_eq!(usage.total_data, 0);
}

#[test]
fn last_record_keeps_size_zero() {
    let mut symbols = vec![symbol(".text", "only", 0x4000, 0)];
    let usage = analyze_memory(&mut symbols);
    assert_eq!(symbols[0].size, 0);
    assert_eq!(usage.total_text, 0);
    assert_eq!(usage.symbols.len(), 1);
}

#[test]
fn stated_sizes_are_kept() {
    let mut symbols = vec![
        symbol(".text", "first", 0x1000, 0x20),
        symbol(".text", "second", 0x1100, 0),
        symbol(".text", "last", 0x1200, 0x30),
    ];
    let usage = analyze_memory(&mut symbols);
    assert_eq!(symbols[0].size, 0x20);
    assert_eq!(symbols[1].size, 0x100);
    assert_eq!(symbols[2].size, 0x30);
    assert_eq!(usage.total_text, 0x150);
}

#[test]
fn empty_sequence_gives_empty_report() {
    let mut symbols: Vec<SymbolInfo> = Vec::new();
    let usage = analyze_memory(&mut symbols);
    assert_eq!(usage.total_text, 0);
    assert_eq!(usage.total_data, 0);
    assert_eq!(usage.total_bss, 0);
    assert!(usage.symbols.is_empty());
    assert!(symbols.is_empty());
}

#[test]
fn other_sections_count_in_no_total() {
    let mut symbols = vec![
        symbol(".rodata", "strings", 0x100, 0),
        symbol(".text.startup", "init", 0x180, 0),
        symbol(".TEXT", "upper", 0x200, 0),
        symbol("", "stray", 0x240, 0),
        symbol(".text", "main", 0x300, 0),
        symbol(".bss", "heap", 0x380, 0),
    ];
    let usage = analyze_memory(&mut symbols);
    assert_eq!(usage.total_text, 0x80);
    assert_eq!(usage.total_data, 0);
    assert_eq!(usage.total_bss, 0);
    assert_eq!(usage.symbols.len(), 6);
    let all: u64 = usage.symbols.iter().map(|s| s.size).sum();
    assert_eq!(all, 0x280);
    assert!(usage.total_text + usage.total_data + usage.total_bss < all);
}

#[test]
fn totals_reach_all_sizes_when_every_section_is_counted() {
    let mut symbols = vec![
        symbol(".text", "main", 0x0, 0),
        symbol(".data", "table", 0x40, 0),
        symbol(".bss", "heap", 0x100, 0),
        symbol(".text", "tail", 0x1F0, 0),
    ];
    let usage = analyze_memory(&mut symbols);
    let all: u64 = usage.symbols.iter().map(|s| s.size).sum();
    assert_eq!(usage.total_text, 0x40);
    assert_eq!(usage.total_data, 0xC0);
    assert_eq!(usage.total_bss, 0xF0);
    assert_eq!(usage.total_text + usage.total_data + usage.total_bss, all);
}

#[test]
fn totals_reach_all_sizes_when_the_uncounted_record_is_empty() {
    let mut symbols = vec![symbol(".text", "main", 0x0, 0), symbol(".rodata", "end", 0x40, 0)];
    let usage = analyze_memory(&mut symbols);
    let all: u64 = usage.symbols.iter().map(|s| s.size).sum();
    assert_eq!(usage.total_text, 0x40);
    assert_eq!(usage.total_text + usage.total_data + usage.total_bss, all);
}

#[test]
fn infer_sizes_changes_sizes_only() {
    let mut symbols = vec![
        SymbolInfo {
            section: ".data".to_string(),
            name: "a".to_string(),
            address: 8,
            size: 0,
            symbol_type: SymbolType::Unknown,
            source_file: Some("a.o".to_string()),
        },
        symbol(".data", "b", 24, 0),
    ];
    infer_sizes(&mut symbols);
    assert_eq!(symbols[0].size, 16);
    assert_eq!(symbols[0].section, ".data");
    assert_eq!(symbols[0].name, "a");
    assert_eq!(symbols[0].address, 8);
    assert_eq!(symbols[0].symbol_type, SymbolType::Unknown);
    assert_eq!(symbols[0].source_file.as_deref(), Some("a.o"));
    assert_eq!(symbols[1].size, 0);
}

#[test]
fn largest_distance_is_exact() {
    let mut symbols = vec![symbol(".bss", "lo", 0, 0), symbol(".bss", "hi", u64::MAX, 0)];
    let usage = analyze_memory(&mut symbols);
    assert_eq!(symbols[0].size, u64::MAX);
    assert_eq!(usage.total_bss, u64::MAX);
}

#[test]
fn try_analyze_gives_the_report_when_totals_fit() {
    let mut symbols = vec![symbol(".text", "a", 0x10, 0), symbol(".text", "b", 0x30, 0)];
    let usage = try_analyze_memory(&mut symbols).expect("totals fit");
    assert_eq!(usage.total_text, 0x20);
    assert_eq!(usage.symbols.len(), 2);
    assert_eq!(symbols[0].size, 0x20);
}

#[test]
fn try_analyze_gives_none_when_a_total_passes_64_bits() {
    let mut symbols = vec![
        symbol(".data", "a", 0, 0),
        symbol(".data", "b", u64::MAX, 0),
        symbol(".data", "c", 0, 0),
        symbol(".data", "d", 2, 0),
    ];
    assert!(try_analyze_memory(&mut symbols).is_none());
    assert_eq!(symbols[0].size, u64::MAX);
    assert_eq!(symbols[1].size, 0);
    assert_eq!(symbols[2].size, 2);
    assert_eq!(symbols[3].size, 0);
}

#[test]
fn try_analyze_ignores_overflow_outside_the_three_classes() {
    let mut symbols = vec![
        symbol(".rodata", "a", 0, 0),
        symbol(".rodata", "b", u64::MAX, 0),
        symbol(".rodata", "c", 0, 0),
        symbol(".rodata", "d", 2, 0),
    ];
    let usage = try_analyze_memory(&mut symbols).expect("no total is touched");
    assert_eq!(usage.total_text, 0);
    assert_eq!(usage.total_data, 0);
    assert_eq!(usage.total_bss, 0);
}
