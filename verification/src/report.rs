//! The report as text: one row of comma-separated values for each symbol.

use vstd::prelude::*;
use vstd::string::StringExecFns;
use crate::analyzer::MemoryUsage;
use crate::number::{address_text, decimal_text, format_address, format_decimal};
use crate::symbol::{symbol_views, SymbolInfo, SymbolView};
use crate::text::push_char;

verus! {

/// The first row: the names of the five columns.
pub const CSV_HEADER: &'static str = "Section,Symbol Name,Address,Size (bytes),Type";

/// The row of one symbol: section, name, address in upper-case
/// hexadecimal after `0x`, size in decimal, and the label of the kind,
/// with a comma between them and a line feed at the end. The texts are
/// written as they are, without quotes.
pub open spec fn csv_row(symbol: SymbolView) -> Seq<char> {
    symbol.section + seq![','] + symbol.name + seq![','] + address_text(symbol.address)
        + seq![','] + decimal_text(symbol.size) + seq![','] + symbol.symbol_type.label_text()
        + seq!['\n']
}

/// The rows of the symbols, in order.
pub open spec fn csv_rows(symbols: Seq<SymbolView>) -> Seq<char>
    decreases symbols.len(),
{
    if symbols.len() == 0 {
        Seq::empty()
    } else {
        csv_rows(symbols.drop_last()) + csv_row(symbols.last())
    }
}

/// The whole report: the header row, then one row for each symbol.
pub open spec fn csv_text(symbols: Seq<SymbolView>) -> Seq<char> {
    CSV_HEADER@ + seq!['\n'] + csv_rows(symbols)
}

/// Appends the row of one symbol.
fn push_row(out: &mut String, symbol: &SymbolInfo)
    ensures
        final(out)@ == old(out)@ + csv_row(symbol@),
{
    out.append(symbol.section.as_str());
    push_char(out, ',');
    out.append(symbol.name.as_str());
    push_char(out, ',');
    let address = format_address(symbol.address);
    out.append(address.as_str());
    push_char(out, ',');
    let size = format_decimal(symbol.size);
    out.append(size.as_str());
    push_char(out, ',');
    out.append(symbol.symbol_type.label());
    push_char(out, '\n');
    proof {
        assert(out@ =~= old(out)@ + csv_row(symbol@));
    }
}

/// Writes the report as comma-separated values: the header row, then one
/// row for each symbol of the report, in order.
pub fn export_to_csv(usage: &MemoryUsage) -> (text: String)
    ensures
        text@ == csv_text(usage@.symbols),
{
    let mut text: String = String::from_str(CSV_HEADER);
    push_char(&mut text, '\n');
    let ghost all = symbol_views(usage.symbols@);
    let mut i: usize = 0;
    proof {
        assert(all.take(0) =~= Seq::<SymbolView>::empty());
        assert(text@ =~= CSV_HEADER@ + seq!['\n'] + csv_rows(all.take(0)));
    }
    while i < usage.symbols.len()
        invariant
            i <= usage.symbols@.len(),
            all == symbol_views(usage.symbols@),
            text@ == CSV_HEADER@ + seq!['\n'] + csv_rows(all.take(i as int)),
        decreases usage.symbols@.len() - i,
    {
        push_row(&mut text, &usage.symbols[i]);
        proof {
            assert(all.take(i + 1).drop_last() =~= all.take(i as int));
            assert(all.take(i + 1).last() == usage.symbols@[i as int]@);
            assert(text@ =~= CSV_HEADER@ + seq!['\n'] + csv_rows(all.take(i + 1)));
        }
        i = i + 1;
    }
    proof {
        assert(all.take(i as int) =~= all);
    }
    text
}

} // verus!
