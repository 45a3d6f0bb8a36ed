//! Linker map analysis: symbol records recovered from a map file, sizes
//! inferred from consecutive addresses, and totals per section class.

pub mod analyzer;
pub mod number;
pub mod parser;
pub mod pattern;
pub mod report;
pub mod symbol;
pub mod text;

pub use analyzer::{analyze_memory, infer_sizes, try_analyze_memory, MemoryUsage};
pub use parser::{
    classify_line, parse_map_entries, parse_map_file, parse_map_with, Dialect, LineClass, MapEntry,
    MapParser,
};
pub use report::export_to_csv;
pub use symbol::{SymbolInfo, SymbolType};
