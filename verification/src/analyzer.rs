//! Size inference over an ordered symbol sequence, and the totals per
//! section class.

use vstd::prelude::*;
use crate::symbol::{symbol_views, SymbolInfo, SymbolView};

verus! {

/// The size of record `i` once sizes are inferred: a stated size stays, a
/// missing one becomes the distance to the next record's address, or zero
/// where the next address is lower or there is no next record.
pub open spec fn inferred_size(symbols: Seq<SymbolView>, i: int) -> u64 {
    if symbols[i].size != 0 {
        symbols[i].size
    } else if i + 1 < symbols.len() && symbols[i].address <= symbols[i + 1].address {
        (symbols[i + 1].address - symbols[i].address) as u64
    } else {
        0
    }
}

/// The sequence with every size inferred; nothing else changes.
pub open spec fn with_inferred_sizes(symbols: Seq<SymbolView>) -> Seq<SymbolView> {
    Seq::new(
        symbols.len(),
        |i: int| SymbolView { size: inferred_size(symbols, i), ..symbols[i] },
    )
}

/// What inference makes of every size, record by record: the distance to
/// the next address where no size was stated and the next address is not
/// lower, zero where it is lower, and the stated size wherever one was
/// stated; the last record has no successor and keeps its size.
pub proof fn lemma_inferred_sizes(symbols: Seq<SymbolView>)
    ensures
        with_inferred_sizes(symbols).len() == symbols.len(),
        forall|i: int|
            0 <= i && i + 1 < symbols.len() && symbols[i].size == 0 && symbols[i].address
                <= symbols[i + 1].address ==> (#[trigger] with_inferred_sizes(symbols)[i]).size
                == symbols[i + 1].address - symbols[i].address,
        forall|i: int|
            0 <= i && i + 1 < symbols.len() && symbols[i].size == 0 && symbols[i].address
                > symbols[i + 1].address ==> (#[trigger] with_inferred_sizes(symbols)[i]).size
                == 0,
        forall|i: int|
            0 <= i < symbols.len() && symbols[i].size != 0 ==> (#[trigger] with_inferred_sizes(
                symbols,
            )[i]).size == symbols[i].size,
        symbols.len() > 0 ==> with_inferred_sizes(symbols).last().size == symbols.last().size,
        forall|i: int|
            0 <= i < symbols.len() ==> {
                &&& (#[trigger] with_inferred_sizes(symbols)[i]).section == symbols[i].section
                &&& with_inferred_sizes(symbols)[i].name == symbols[i].name
                &&& with_inferred_sizes(symbols)[i].address == symbols[i].address
                &&& with_inferred_sizes(symbols)[i].symbol_type == symbols[i].symbol_type
                &&& with_inferred_sizes(symbols)[i].source_file == symbols[i].source_file
            },
{
}

/// The sizes of records whose models are the inferred ones.
proof fn lemma_sizes_after(before: Seq<SymbolInfo>, after: Seq<SymbolInfo>)
    requires
        symbol_views(after) == with_inferred_sizes(symbol_views(before)),
    ensures
        after.len() == before.len(),
        forall|i: int|
            0 <= i < after.len() ==> (#[trigger] after[i]).size == inferred_size(
                symbol_views(before),
                i,
            ),
{
    assert(symbol_views(after).len() == symbol_views(before).len());
    assert forall|i: int| 0 <= i < after.len() implies (#[trigger] after[i]).size
        == inferred_size(symbol_views(before), i) by {
        assert(symbol_views(after)[i] == after[i]@);
        assert(with_inferred_sizes(symbol_views(before))[i].size == inferred_size(
            symbol_views(before),
            i,
        ));
    }
}

/// Fills in every missing size from the address of the record that
/// follows, whatever the sections of the two. Nothing but sizes changes.
pub fn infer_sizes(symbols: &mut [SymbolInfo])
    ensures
        symbol_views(final(symbols)@) == with_inferred_sizes(symbol_views(old(symbols)@)),
        final(symbols)@.len() == old(symbols)@.len(),
        forall|i: int|
            0 <= i && i + 1 < old(symbols)@.len() && old(symbols)@[i].size == 0
                && old(symbols)@[i].address <= old(symbols)@[i + 1].address
                ==> #[trigger] final(symbols)@[i].size == old(symbols)@[i + 1].address - old(symbols)@[i].address,
        forall|i: int|
            0 <= i && i + 1 < old(symbols)@.len() && old(symbols)@[i].size == 0
                && old(symbols)@[i].address > old(symbols)@[i + 1].address
                ==> #[trigger] final(symbols)@[i].size == 0,
        forall|i: int|
            0 <= i < old(symbols)@.len() && old(symbols)@[i].size != 0
                ==> #[trigger] final(symbols)@[i].size == old(symbols)@[i].size,
        old(symbols)@.len() > 0 ==> final(symbols)@.last().size == old(symbols)@.last().size,
{
    let n: usize = symbols.len();
    let mut i: usize = 0;
    while i < n && n - i > 1
        invariant
            n == symbols@.len(),
            n == old(symbols)@.len(),
            i <= n,
            forall|j: int|
                0 <= j < i ==> symbols@[j]@ == with_inferred_sizes(
                    symbol_views(old(symbols)@),
                )[j],
            forall|j: int| i <= j < n ==> symbols@[j] == old(symbols)@[j],
        decreases n - i,
    {
        if symbols[i].size == 0 {
            let next: u64 = symbols[i + 1].address;
            let here: u64 = symbols[i].address;
            symbols[i].size = next.saturating_sub(here);
        }
        i = i + 1;
    }
    proof {
        assert(symbol_views(symbols@) =~= with_inferred_sizes(symbol_views(old(symbols)@)));
        lemma_sizes_after(old(symbols)@, symbols@);
    }
}

/// The report: bytes per section class, and every symbol in map order.
#[derive(Debug)]
pub struct MemoryUsage {
    pub total_text: u64,
    pub total_data: u64,
    pub total_bss: u64,
    pub symbols: Vec<SymbolInfo>,
}

/// The model of a [`MemoryUsage`].
pub struct UsageView {
    pub total_text: u64,
    pub total_data: u64,
    pub total_bss: u64,
    pub symbols: Seq<SymbolView>,
}

impl View for MemoryUsage {
    type V = UsageView;

    open spec fn view(&self) -> UsageView {
        UsageView {
            total_text: self.total_text,
            total_data: self.total_data,
            total_bss: self.total_bss,
            symbols: symbol_views(self.symbols@),
        }
    }
}

/// The bytes of the records whose section is exactly `section`.
pub open spec fn section_total(symbols: Seq<SymbolView>, section: Seq<char>) -> nat
    decreases symbols.len(),
{
    if symbols.len() == 0 {
        0
    } else {
        section_total(symbols.drop_last(), section) + if symbols.last().section == section {
            symbols.last().size as nat
        } else {
            0
        }
    }
}

/// The bytes of all records.
pub open spec fn size_total(symbols: Seq<SymbolView>) -> nat
    decreases symbols.len(),
{
    if symbols.len() == 0 {
        0
    } else {
        size_total(symbols.drop_last()) + symbols.last().size as nat
    }
}

/// Whether a section is one of the three classes that are totalled.
pub open spec fn is_counted(section: Seq<char>) -> bool {
    section == ".text"@ || section == ".data"@ || section == ".bss"@
}

/// Whether each of the three totals of a sequence fits in 64 bits.
pub open spec fn totals_fit(symbols: Seq<SymbolView>) -> bool {
    &&& section_total(symbols, ".text"@) <= u64::MAX
    &&& section_total(symbols, ".data"@) <= u64::MAX
    &&& section_total(symbols, ".bss"@) <= u64::MAX
}

/// The bytes of the records of the three classes together.
pub open spec fn counted_total(symbols: Seq<SymbolView>) -> nat {
    section_total(symbols, ".text"@) + section_total(symbols, ".data"@) + section_total(
        symbols,
        ".bss"@,
    )
}

/// Whether every record lies in one of the three classes.
pub open spec fn all_counted(symbols: Seq<SymbolView>) -> bool {
    forall|i: int| 0 <= i < symbols.len() ==> is_counted(#[trigger] symbols[i].section)
}

/// Whether every record outside the three classes has size zero.
pub open spec fn uncounted_are_empty(symbols: Seq<SymbolView>) -> bool {
    forall|i: int|
        0 <= i < symbols.len() ==> is_counted(#[trigger] symbols[i].section) || symbols[i].size
            == 0
}

/// Whether some record outside the three classes has a size above zero.
pub open spec fn has_sized_uncounted(symbols: Seq<SymbolView>) -> bool {
    exists|i: int|
        0 <= i < symbols.len() && !is_counted(#[trigger] symbols[i].section) && symbols[i].size
            > 0
}

impl UsageView {
    /// The three totals together.
    pub open spec fn totals(self) -> int {
        self.total_text + self.total_data + self.total_bss
    }

    /// Each total is the sum of the sizes of its class.
    pub open spec fn consistent(self) -> bool {
        &&& self.total_text == section_total(self.symbols, ".text"@)
        &&& self.total_data == section_total(self.symbols, ".data"@)
        &&& self.total_bss == section_total(self.symbols, ".bss"@)
    }
}

/// The names of the three classes differ from one another.
pub proof fn lemma_class_names_differ()
    ensures
        ".text"@ != ".data"@,
        ".text"@ != ".bss"@,
        ".data"@ != ".bss"@,
{
    reveal_strlit(".text");
    reveal_strlit(".data");
    reveal_strlit(".bss");
    assert(".text"@[1] == 't');
    assert(".data"@[1] == 'd');
    assert(".text"@.len() == 5);
    assert(".data"@.len() == 5);
    assert(".bss"@.len() == 4);
}

/// The three totals together never pass the bytes of all records. They
/// reach them exactly when every record outside the three classes has size
/// zero, so whenever every record lies in one of the three classes, and
/// they stay below exactly when a record outside the three classes has a
/// size above zero.
pub proof fn lemma_totals_within_sizes(symbols: Seq<SymbolView>)
    ensures
        counted_total(symbols) <= size_total(symbols),
        counted_total(symbols) == size_total(symbols) <==> uncounted_are_empty(symbols),
        all_counted(symbols) ==> counted_total(symbols) == size_total(symbols),
        counted_total(symbols) < size_total(symbols) <==> has_sized_uncounted(symbols),
{
    lemma_totals_exact(symbols);
    if !uncounted_are_empty(symbols) {
        let i = choose|i: int|
            0 <= i < symbols.len() && !(is_counted(#[trigger] symbols[i].section)
                || symbols[i].size == 0);
        assert(!is_counted(symbols[i].section) && symbols[i].size > 0);
    }
}

/// The induction behind [`lemma_totals_within_sizes`].
proof fn lemma_totals_exact(symbols: Seq<SymbolView>)
    ensures
        counted_total(symbols) <= size_total(symbols),
        counted_total(symbols) == size_total(symbols) <==> uncounted_are_empty(symbols),
    decreases symbols.len(),
{
    lemma_class_names_differ();
    if symbols.len() > 0 {
        let front = symbols.drop_last();
        lemma_totals_exact(front);
        assert forall|i: int| 0 <= i < front.len() implies front[i] == symbols[i] by {}
        if uncounted_are_empty(symbols) {
            assert forall|i: int| 0 <= i < front.len() implies is_counted(
                #[trigger] front[i].section,
            ) || front[i].size == 0 by {
                assert(front[i] == symbols[i]);
            }
            assert(is_counted(symbols[symbols.len() - 1].section) || symbols[symbols.len()
                - 1].size == 0);
        }
        if counted_total(symbols) == size_total(symbols) {
            assert(uncounted_are_empty(front));
            assert forall|i: int| 0 <= i < symbols.len() implies is_counted(
                #[trigger] symbols[i].section,
            ) || symbols[i].size == 0 by {
                if i < front.len() {
                    assert(front[i] == symbols[i]);
                }
            }
        }
    }
}

/// In a consistent report the three totals together never pass the bytes
/// of all its records; they reach them when every record lies in one of
/// the three classes, and stay below exactly when a record outside the
/// three classes has a size above zero.
pub proof fn lemma_report_totals_bounded(usage: UsageView)
    requires
        usage.consistent(),
    ensures
        usage.totals() <= size_total(usage.symbols),
        all_counted(usage.symbols) ==> usage.totals() == size_total(usage.symbols),
        usage.totals() < size_total(usage.symbols) <==> has_sized_uncounted(usage.symbols),
{
    lemma_totals_within_sizes(usage.symbols);
}

/// In a consistent report the three totals together equal the bytes of all
/// its records exactly when every record lies in one of the three classes.
///
/// A report that holds records outside the three classes, all of them of
/// size zero, is left out: its totals reach the bytes of all records though
/// some record lies in no class.
pub proof fn lemma_report_totals_exact(usage: UsageView)
    requires
        usage.consistent(),
        uncounted_are_empty(usage.symbols) ==> all_counted(usage.symbols),
    ensures
        usage.totals() == size_total(usage.symbols) <==> all_counted(usage.symbols),
{
    lemma_totals_within_sizes(usage.symbols);
}

/// A total only grows as records are appended.
proof fn lemma_total_grows(symbols: Seq<SymbolView>, section: Seq<char>, k: int)
    requires
        0 <= k <= symbols.len(),
    ensures
        section_total(symbols.take(k), section) <= section_total(symbols, section),
    decreases symbols.len() - k,
{
    if k < symbols.len() {
        lemma_total_grows(symbols, section, k + 1);
        assert(symbols.take(k + 1).drop_last() =~= symbols.take(k));
    } else {
        assert(symbols.take(k) =~= symbols);
    }
}

/// Copies the records, one for one.
fn copy_symbols(symbols: &[SymbolInfo]) -> (copy: Vec<SymbolInfo>)
    ensures
        copy@ == symbols@,
{
    let mut copy: Vec<SymbolInfo> = Vec::new();
    let mut i: usize = 0;
    while i < symbols.len()
        invariant
            i <= symbols@.len(),
            copy@ == symbols@.take(i as int),
        decreases symbols@.len() - i,
    {
        copy.push(symbols[i].clone());
        assert(symbols@.take(i + 1) =~= symbols@.take(i as int).push(symbols@[i as int]));
        i = i + 1;
    }
    assert(symbols@.take(i as int) =~= symbols@);
    copy
}

/// Sums the sizes per class in one pass; `None` as soon as a total would
/// pass 64 bits.
fn sum_sections(symbols: &[SymbolInfo]) -> (totals: Option<(u64, u64, u64)>)
    ensures
        totals is Some <==> totals_fit(symbol_views(symbols@)),
        totals matches Some(t) ==> {
            &&& t.0 == section_total(symbol_views(symbols@), ".text"@)
            &&& t.1 == section_total(symbol_views(symbols@), ".data"@)
            &&& t.2 == section_total(symbol_views(symbols@), ".bss"@)
        },
{
    let text_name: String = ".text".to_owned();
    let data_name: String = ".data".to_owned();
    let bss_name: String = ".bss".to_owned();
    let ghost all = symbol_views(symbols@);
    let mut text: u64 = 0;
    let mut data: u64 = 0;
    let mut bss: u64 = 0;
    let mut i: usize = 0;
    while i < symbols.len()
        invariant
            i <= symbols@.len(),
            all == symbol_views(symbols@),
            text_name@ == ".text"@,
            data_name@ == ".data"@,
            bss_name@ == ".bss"@,
            text == section_total(all.take(i as int), ".text"@),
            data == section_total(all.take(i as int), ".data"@),
            bss == section_total(all.take(i as int), ".bss"@),
        decreases symbols@.len() - i,
    {
        proof {
            assert(all.take(i + 1).drop_last() =~= all.take(i as int));
            lemma_total_grows(all, ".text"@, i + 1);
            lemma_total_grows(all, ".data"@, i + 1);
            lemma_total_grows(all, ".bss"@, i + 1);
        }
        let size: u64 = symbols[i].size;
        if symbols[i].section == text_name {
            match text.checked_add(size) {
                Some(sum) => { text = sum; },
                None => { return None; },
            }
        }
        if symbols[i].section == data_name {
            match data.checked_add(size) {
                Some(sum) => { data = sum; },
                None => { return None; },
            }
        }
        if symbols[i].section == bss_name {
            match bss.checked_add(size) {
                Some(sum) => { bss = sum; },
                None => { return None; },
            }
        }
        i = i + 1;
    }
    assert(all.take(i as int) =~= all);
    Some((text, data, bss))
}

/// Infers the sizes in place and builds the report, unless a total would
/// pass 64 bits.
///
/// A record whose size is zero gets the distance to the address of the
/// record after it, whatever the sections of the two, and zero where that
/// address is lower; a stated size stays, and the last record has no
/// successor and keeps its size. That is done either way. Each total then
/// sums the sizes of the records whose section is exactly `.text`, `.data`
/// or `.bss`; records of other sections stay in the list and count in no
/// total. The report holds a copy of the records as they stand afterwards.
pub fn try_analyze_memory(symbols: &mut [SymbolInfo]) -> (outcome: Option<MemoryUsage>)
    ensures
        symbol_views(final(symbols)@) == with_inferred_sizes(symbol_views(old(symbols)@)),
        final(symbols)@.len() == old(symbols)@.len(),
        forall|i: int|
            0 <= i && i + 1 < old(symbols)@.len() && old(symbols)@[i].size == 0
                && old(symbols)@[i].address <= old(symbols)@[i + 1].address
                ==> #[trigger] final(symbols)@[i].size == old(symbols)@[i + 1].address - old(symbols)@[i].address,
        forall|i: int|
            0 <= i && i + 1 < old(symbols)@.len() && old(symbols)@[i].size == 0
                && old(symbols)@[i].address > old(symbols)@[i + 1].address
                ==> #[trigger] final(symbols)@[i].size == 0,
        forall|i: int|
            0 <= i < old(symbols)@.len() && old(symbols)@[i].size != 0
                ==> #[trigger] final(symbols)@[i].size == old(symbols)@[i].size,
        old(symbols)@.len() > 0 ==> final(symbols)@.last().size == old(symbols)@.last().size,
        outcome is Some <==> totals_fit(symbol_views(final(symbols)@)),
        outcome matches Some(usage) ==> {
            &&& usage@.symbols == symbol_views(final(symbols)@)
            &&& usage.symbols@.len() == final(symbols)@.len()
            &&& forall|i: int|
                0 <= i < usage.symbols@.len() ==> (#[trigger] usage.symbols@[i])@ == final(symbols)@[i]@
            &&& usage@.consistent()
            &&& usage@.totals() <= size_total(usage@.symbols)
            &&& all_counted(usage@.symbols) ==> usage@.totals() == size_total(usage@.symbols)
            &&& usage@.totals() < size_total(usage@.symbols) <==> has_sized_uncounted(
                usage@.symbols,
            )
        },
{
    infer_sizes(symbols);
    match sum_sections(symbols) {
        Some(totals) => {
            let usage = MemoryUsage {
                total_text: totals.0,
                total_data: totals.1,
                total_bss: totals.2,
                symbols: copy_symbols(symbols),
            };
            proof {
                lemma_totals_within_sizes(usage@.symbols);
                assert forall|i: int| 0 <= i < usage.symbols@.len() implies (
                #[trigger] usage.symbols@[i])@ == symbols@[i]@ by {}
            }
            Some(usage)
        },
        None => None,
    }
}

/// Infers the sizes in place and builds the report, for records whose
/// totals fit in 64 bits; [`try_analyze_memory`] takes any records and
/// states the same of them.
pub fn analyze_memory(symbols: &mut [SymbolInfo]) -> (usage: MemoryUsage)
    requires
        totals_fit(with_inferred_sizes(symbol_views(old(symbols)@))),
    ensures
        symbol_views(final(symbols)@) == with_inferred_sizes(symbol_views(old(symbols)@)),
        final(symbols)@.len() == old(symbols)@.len(),
        forall|i: int|
            0 <= i && i + 1 < old(symbols)@.len() && old(symbols)@[i].size == 0
                && old(symbols)@[i].address <= old(symbols)@[i + 1].address
                ==> #[trigger] final(symbols)@[i].size == old(symbols)@[i + 1].address - old(symbols)@[i].address,
        forall|i: int|
            0 <= i && i + 1 < old(symbols)@.len() && old(symbols)@[i].size == 0
                && old(symbols)@[i].address > old(symbols)@[i + 1].address
                ==> #[trigger] final(symbols)@[i].size == 0,
        forall|i: int|
            0 <= i < old(symbols)@.len() && old(symbols)@[i].size != 0
                ==> #[trigger] final(symbols)@[i].size == old(symbols)@[i].size,
        old(symbols)@.len() > 0 ==> final(symbols)@.last().size == old(symbols)@.last().size,
        usage@.symbols == symbol_views(final(symbols)@),
        usage.symbols@.len() == final(symbols)@.len(),
        forall|i: int|
            0 <= i < usage.symbols@.len() ==> (#[trigger] usage.symbols@[i])@ == final(symbols)@[i]@,
        usage@.consistent(),
        usage@.totals() <= size_total(usage@.symbols),
        all_counted(usage@.symbols) ==> usage@.totals() == size_total(usage@.symbols),
        usage@.totals() < size_total(usage@.symbols) <==> has_sized_uncounted(usage@.symbols),
{
    let outcome = try_analyze_memory(symbols);
    outcome.unwrap()
}

} // verus!
