//! The map parser: every line is classified, and a small state machine
//! turns the classes into symbol records.

use vstd::prelude::*;
use vstd::string::StringExecFns;
use crate::number::{number_or_zero, parse_hex, parse_prefixed_hex, parse_size, prefixed_hex_or_zero, size_or_zero};
use crate::pattern::{captures_each, found_view, group_of, group_text, regex_captures, Groups};
use crate::symbol::{symbol_views, type_for_section, SymbolInfo, SymbolType, SymbolView};
use crate::text::{first_token, leading_token, lines_of, push_char, split_lines, text_views};

verus! {

/// A section header of the indented dialect: the name after the dot, then
/// an address and a size, both hexadecimal.
pub const SECTION_PATTERN: &'static str = r"^\s*\.(\S+)\s+0x([0-9a-fA-F]+)\s+0x([0-9a-fA-F]+)";

/// A symbol line of the indented dialect: white space, a hexadecimal
/// address, and the name.
pub const SYMBOL_PATTERN: &'static str = r"^\s+0x([0-9a-fA-F]+)\s+(\S+)";

/// The path of an object file, or of a member of an archive, anywhere in a
/// line.
pub const FILE_PATTERN: &'static str =
    r"(?P<path>[A-Za-z]:?[/\\][^\s]*?\.o\b|[^\s]*\.o\b|[^\s]*\.a\([^\)]+\))";

/// A symbol line of the inline dialect: an address and a size, either of
/// which may be missing, and the name.
pub const INLINE_SYMBOL_PATTERN: &'static str =
    r"^\s*(?P<addr>0x[0-9a-fA-F]+)?\s*(?P<size>0x[0-9a-fA-F]+|\d+)?\s*(?P<sym>[A-Za-z_][\w\.\$@<>+-]*)\s*$";

/// The two map dialects that are read, each a way to classify a line.
#[derive(Clone, Copy, Debug, PartialEq, Eq, Structural)]
pub enum Dialect {
    /// The general dialect, and the one that [`parse_map_file`] reads. A
    /// line whose first token begins with a dot opens a section; failing
    /// that, a line that names an object file sets the file of the symbols
    /// that follow; failing that, a line of an address and a size, either
    /// of which may be missing, and a name declares a symbol.
    Inline,
    /// The strict dialect of maps that state nothing but addresses. A
    /// header must state the address and the size of its section, a
    /// symbol line is indented and states address and name, and no line
    /// names an object file.
    Indented,
}

/// What one line is.
#[derive(Debug)]
pub enum LineClass {
    /// The line opens a section; it may name an object file too.
    Section { name: String, source: Option<String> },
    /// The line names the object file of the symbols that follow.
    FilePath { path: String },
    /// The line declares a symbol. `address` and `size` are what the two
    /// texts read as, zero for a text that is missing or reads as no
    /// number; the texts are kept as the line had them.
    Symbol {
        name: String,
        address: u64,
        size: u64,
        address_text: Option<String>,
        size_text: Option<String>,
    },
    /// Anything else: the line changes nothing.
    Inert,
}

/// The model of a [`LineClass`].
pub enum LineClassView {
    Section { name: Seq<char>, source: Option<Seq<char>> },
    FilePath { path: Seq<char> },
    Symbol {
        name: Seq<char>,
        address: u64,
        size: u64,
        address_text: Option<Seq<char>>,
        size_text: Option<Seq<char>>,
    },
    Inert,
}

/// The model of an optional text.
pub open spec fn option_view(text: Option<String>) -> Option<Seq<char>> {
    match text {
        Some(t) => Some(t@),
        None => None,
    }
}

impl View for LineClass {
    type V = LineClassView;

    open spec fn view(&self) -> LineClassView {
        match self {
            LineClass::Section { name, source } => LineClassView::Section {
                name: name@,
                source: match source {
                    Some(p) => Some(p@),
                    None => None,
                },
            },
            LineClass::FilePath { path } => LineClassView::FilePath { path: path@ },
            LineClass::Symbol {
                name,
                address,
                size,
                address_text,
                size_text,
            } => LineClassView::Symbol {
                name: name@,
                address: *address,
                size: *size,
                address_text: option_view(*address_text),
                size_text: option_view(*size_text),
            },
            LineClass::Inert => LineClassView::Inert,
        }
    }
}

/// Whether a token can name a symbol: it is not empty, and no dot begins
/// it.
pub open spec fn names_symbol(token: Seq<char>) -> bool {
    token.len() > 0 && token[0] != '.'
}

/// The class of a line of the indented dialect, from what the two
/// expressions of the dialect captured in it. The header is looked for
/// first.
pub open spec fn indented_class(
    section: Option<Seq<Option<Seq<char>>>>,
    symbol: Option<Seq<Option<Seq<char>>>>,
) -> LineClassView {
    if section is Some {
        match group_text(section, 1) {
            Some(name) => LineClassView::Section { name: seq!['.'] + name, source: None },
            None => LineClassView::Inert,
        }
    } else {
        match (group_text(symbol, 1), group_text(symbol, 2)) {
            (Some(address), Some(name)) => if names_symbol(name) {
                LineClassView::Symbol {
                    name,
                    address: number_or_zero(address, 16),
                    size: 0,
                    address_text: Some(address),
                    size_text: None,
                }
            } else {
                LineClassView::Inert
            },
            _ => LineClassView::Inert,
        }
    }
}

/// The class of a line of the inline dialect, from the line and what the
/// two expressions of the dialect captured in it. A first token that
/// begins with a dot makes the line a header; failing that, an object path
/// makes it a file line; failing that, it may declare a symbol.
pub open spec fn inline_class(
    line: Seq<char>,
    file: Option<Seq<Option<Seq<char>>>>,
    symbol: Option<Seq<Option<Seq<char>>>>,
) -> LineClassView {
    let token = first_token(line);
    if token.len() > 0 && token[0] == '.' {
        LineClassView::Section { name: token, source: group_text(file, 1) }
    } else if file is Some {
        match group_text(file, 1) {
            Some(path) => LineClassView::FilePath { path },
            None => LineClassView::Inert,
        }
    } else {
        match group_text(symbol, 3) {
            Some(name) => if names_symbol(name) {
                LineClassView::Symbol {
                    name,
                    address: match group_text(symbol, 1) {
                        Some(text) => prefixed_hex_or_zero(text),
                        None => 0,
                    },
                    size: match group_text(symbol, 2) {
                        Some(text) => size_or_zero(text),
                        None => 0,
                    },
                    address_text: group_text(symbol, 1),
                    size_text: group_text(symbol, 2),
                }
            } else {
                LineClassView::Inert
            },
            None => LineClassView::Inert,
        }
    }
}

/// The expression that a dialect looks for first: the header of the
/// indented dialect, the object path of the inline one.
pub open spec fn first_pattern(dialect: Dialect) -> Seq<char> {
    match dialect {
        Dialect::Indented => SECTION_PATTERN@,
        Dialect::Inline => FILE_PATTERN@,
    }
}

/// The expression of a dialect for its symbol lines.
pub open spec fn second_pattern(dialect: Dialect) -> Seq<char> {
    match dialect {
        Dialect::Indented => SYMBOL_PATTERN@,
        Dialect::Inline => INLINE_SYMBOL_PATTERN@,
    }
}

/// The class of a line in a dialect, from the line and what the two
/// expressions of the dialect captured in it.
pub open spec fn class_from(
    dialect: Dialect,
    line: Seq<char>,
    first: Option<Seq<Option<Seq<char>>>>,
    second: Option<Seq<Option<Seq<char>>>>,
) -> LineClassView {
    match dialect {
        Dialect::Indented => indented_class(first, second),
        Dialect::Inline => inline_class(line, first, second),
    }
}

/// The class of a line in a dialect.
pub open spec fn line_class(dialect: Dialect, line: Seq<char>) -> LineClassView {
    class_from(
        dialect,
        line,
        regex_captures(first_pattern(dialect), line),
        regex_captures(second_pattern(dialect), line),
    )
}

/// The expression that a dialect looks for first.
fn first_pattern_of(dialect: Dialect) -> (pattern: &'static str)
    ensures
        pattern@ == first_pattern(dialect),
{
    match dialect {
        Dialect::Indented => SECTION_PATTERN,
        Dialect::Inline => FILE_PATTERN,
    }
}

/// The expression of a dialect for its symbol lines.
fn second_pattern_of(dialect: Dialect) -> (pattern: &'static str)
    ensures
        pattern@ == second_pattern(dialect),
{
    match dialect {
        Dialect::Indented => SYMBOL_PATTERN,
        Dialect::Inline => INLINE_SYMBOL_PATTERN,
    }
}

/// The first character of a text.
fn first_char(text: &str) -> (first: Option<char>)
    ensures
        match first {
            Some(c) => text@.len() > 0 && text@[0] == c,
            None => text@.len() == 0,
        },
{
    let mut chars = text.chars();
    chars.next()
}

/// Whether a token can name a symbol.
fn can_name_symbol(token: &str) -> (ok: bool)
    ensures
        ok == names_symbol(token@),
{
    match first_char(token) {
        Some(c) => c != '.',
        None => false,
    }
}

/// A copy of an optional text.
fn copy_text(text: Option<&String>) -> (copy: Option<String>)
    ensures
        match text {
            Some(t) => copy == Some(*t),
            None => copy is None,
        },
{
    match text {
        Some(t) => Some(t.clone()),
        None => None,
    }
}

/// Classifies a line of the indented dialect from what the section
/// expression and the symbol expression captured in it.
pub fn classify_indented(section: &Option<Groups>, symbol: &Option<Groups>) -> (class: LineClass)
    ensures
        class@ == indented_class(found_view(*section), found_view(*symbol)),
{
    if section.is_some() {
        match group_of(section, 1) {
            Some(tail) => {
                let mut name: String = String::new();
                push_char(&mut name, '.');
                name.append(tail.as_str());
                proof {
                    assert(name@ =~= seq!['.'] + tail@);
                }
                LineClass::Section { name, source: None }
            },
            None => LineClass::Inert,
        }
    } else {
        match (group_of(symbol, 1), group_of(symbol, 2)) {
            (Some(address), Some(name)) => {
                if can_name_symbol(name.as_str()) {
                    LineClass::Symbol {
                        name: name.clone(),
                        address: parse_hex(address.as_str()),
                        size: 0,
                        address_text: Some(address.clone()),
                        size_text: None,
                    }
                } else {
                    LineClass::Inert
                }
            },
            _ => LineClass::Inert,
        }
    }
}

/// Classifies a line of the inline dialect from the line itself and what
/// the file expression and the symbol expression captured in it.
pub fn classify_inline(line: &str, file: &Option<Groups>, symbol: &Option<Groups>) -> (class:
    LineClass)
    ensures
        class@ == inline_class(line@, found_view(*file), found_view(*symbol)),
{
    let header: Option<String> = match leading_token(line) {
        Some(token) => {
            if first_char(token.as_str()) == Some('.') {
                Some(token)
            } else {
                None
            }
        },
        None => None,
    };
    match header {
        Some(name) => LineClass::Section { name, source: copy_text(group_of(file, 1)) },
        None => {
            if file.is_some() {
                match group_of(file, 1) {
                    Some(path) => LineClass::FilePath { path: path.clone() },
                    None => LineClass::Inert,
                }
            } else {
                match group_of(symbol, 3) {
                    Some(name) => {
                        if can_name_symbol(name.as_str()) {
                            let address: u64 = match group_of(symbol, 1) {
                                Some(text) => parse_prefixed_hex(text.as_str()),
                                None => 0,
                            };
                            let size: u64 = match group_of(symbol, 2) {
                                Some(text) => parse_size(text.as_str()),
                                None => 0,
                            };
                            LineClass::Symbol {
                                name: name.clone(),
                                address,
                                size,
                                address_text: copy_text(group_of(symbol, 1)),
                                size_text: copy_text(group_of(symbol, 2)),
                            }
                        } else {
                            LineClass::Inert
                        }
                    },
                    None => LineClass::Inert,
                }
            }
        },
    }
}

/// The parser between two lines: the section and the object file that the
/// next symbol will be attributed to, and the records made so far.
#[derive(Debug)]
pub struct MapParser {
    pub current_section: String,
    pub current_source_file: Option<String>,
    pub symbols: Vec<SymbolInfo>,
}

/// The model of a [`MapParser`].
pub struct ParserView {
    pub section: Seq<char>,
    pub source_file: Option<Seq<char>>,
    pub symbols: Seq<SymbolView>,
}

impl View for MapParser {
    type V = ParserView;

    open spec fn view(&self) -> ParserView {
        ParserView {
            section: self.current_section@,
            source_file: match self.current_source_file {
                Some(path) => Some(path@),
                None => None,
            },
            symbols: symbol_views(self.symbols@),
        }
    }
}

/// The parser before the first line: no section, no object file, no
/// record.
pub open spec fn initial_state() -> ParserView {
    ParserView { section: Seq::empty(), source_file: None, symbols: Seq::empty() }
}

/// The record that a symbol line makes in a state.
pub open spec fn record_in(state: ParserView, name: Seq<char>, address: u64, size: u64)
    -> SymbolView {
    SymbolView {
        section: state.section,
        name,
        address,
        size,
        symbol_type: type_for_section(state.section),
        source_file: state.source_file,
    }
}

/// The state after a line of the given class. A header sets the section,
/// and the object file where it names one; a file line sets the object
/// file; a symbol line adds a record attributed to the section and object
/// file of the state; any other line changes nothing.
pub open spec fn step(state: ParserView, class: LineClassView) -> ParserView {
    match class {
        LineClassView::Section { name, source } => ParserView {
            section: name,
            source_file: match source {
                Some(p) => Some(p),
                None => state.source_file,
            },
            symbols: state.symbols,
        },
        LineClassView::FilePath { path } => ParserView {
            section: state.section,
            source_file: Some(path),
            symbols: state.symbols,
        },
        LineClassView::Symbol { name, address, size, address_text, size_text } => ParserView {
            section: state.section,
            source_file: state.source_file,
            symbols: state.symbols.push(record_in(state, name, address, size)),
        },
        LineClassView::Inert => state,
    }
}

/// The state after all the lines given, taken in order from the initial
/// state.
pub open spec fn state_after(dialect: Dialect, lines: Seq<Seq<char>>) -> ParserView
    decreases lines.len(),
{
    if lines.len() == 0 {
        initial_state()
    } else {
        step(state_after(dialect, lines.drop_last()), line_class(dialect, lines.last()))
    }
}

/// The records of a map text in a dialect, in the order of their lines.
pub open spec fn parsed_symbols(dialect: Dialect, content: Seq<char>) -> Seq<SymbolView> {
    state_after(dialect, lines_of(content)).symbols
}

/// Whether a record is attributed as the parser attributes its records:
/// the kind follows from the section, and the name can name a symbol.
pub open spec fn well_attributed(symbol: SymbolView) -> bool {
    symbol.symbol_type == type_for_section(symbol.section) && names_symbol(symbol.name)
}

/// The numbers of the lines that declare a symbol, in rising order.
pub open spec fn symbol_lines(dialect: Dialect, lines: Seq<Seq<char>>) -> Seq<int>
    decreases lines.len(),
{
    if lines.len() == 0 {
        Seq::empty()
    } else if line_class(dialect, lines.last()) is Symbol {
        symbol_lines(dialect, lines.drop_last()).push(lines.len() - 1)
    } else {
        symbol_lines(dialect, lines.drop_last())
    }
}

/// The record that the line of number `at` makes, if it declares a symbol:
/// attributed to the state after the lines before it.
pub open spec fn record_of_line(dialect: Dialect, lines: Seq<Seq<char>>, at: int) -> SymbolView {
    let state = state_after(dialect, lines.take(at));
    match line_class(dialect, lines[at]) {
        LineClassView::Symbol { name, address, size, address_text, size_text } => record_in(
            state,
            name,
            address,
            size,
        ),
        _ => record_in(state, Seq::empty(), 0, 0),
    }
}

/// Whether a line is a header of the inline dialect: its first token
/// begins with a dot.
pub open spec fn is_header(line: Seq<char>) -> bool {
    first_token(line).len() > 0 && first_token(line)[0] == '.'
}

/// The name of the last header among the lines given, the dot included;
/// empty where none of them is a header.
pub open spec fn nearest_header(lines: Seq<Seq<char>>) -> Seq<char>
    decreases lines.len(),
{
    if lines.len() == 0 {
        Seq::empty()
    } else if is_header(lines.last()) {
        first_token(lines.last())
    } else {
        nearest_header(lines.drop_last())
    }
}

/// Whatever the expressions capture, the parser makes at most one record
/// for each line, and every record is well attributed.
pub proof fn lemma_parsed_records(dialect: Dialect, lines: Seq<Seq<char>>)
    ensures
        state_after(dialect, lines).symbols.len() <= lines.len(),
        forall|i: int|
            0 <= i < state_after(dialect, lines).symbols.len() ==> well_attributed(
                #[trigger] state_after(dialect, lines).symbols[i],
            ),
    decreases lines.len(),
{
    if lines.len() > 0 {
        lemma_parsed_records(dialect, lines.drop_last());
    }
}

/// The records are those of the symbol lines, one for one and in the order
/// of the lines: record `j` is made by the `j`-th line that declares a
/// symbol, from that line and the state that the lines before it left.
/// Nothing is sorted, grouped or left out.
pub proof fn lemma_records_follow_symbol_lines(dialect: Dialect, lines: Seq<Seq<char>>)
    ensures
        state_after(dialect, lines).symbols.len() == symbol_lines(dialect, lines).len(),
        forall|j: int|
            0 <= j < symbol_lines(dialect, lines).len() ==> {
                &&& 0 <= (#[trigger] symbol_lines(dialect, lines)[j]) < lines.len()
                &&& line_class(dialect, lines[symbol_lines(dialect, lines)[j]]) is Symbol
                &&& state_after(dialect, lines).symbols[j] == record_of_line(
                    dialect,
                    lines,
                    symbol_lines(dialect, lines)[j],
                )
            },
        forall|j: int, k: int|
            0 <= j < k < symbol_lines(dialect, lines).len() ==> symbol_lines(dialect, lines)[j]
                < symbol_lines(dialect, lines)[k],
    decreases lines.len(),
{
    if lines.len() > 0 {
        let front = lines.drop_last();
        lemma_records_follow_symbol_lines(dialect, front);
        let marks = symbol_lines(dialect, lines);
        let front_marks = symbol_lines(dialect, front);
        assert(lines.take(lines.len() - 1) =~= front);
        assert forall|j: int| 0 <= j < marks.len() implies {
            &&& 0 <= (#[trigger] marks[j]) < lines.len()
            &&& line_class(dialect, lines[marks[j]]) is Symbol
            &&& state_after(dialect, lines).symbols[j] == record_of_line(dialect, lines, marks[j])
        } by {
            if j < front_marks.len() {
                let at = front_marks[j];
                assert(marks[j] == at);
                assert(front[at] == lines[at]);
                assert(front.take(at) =~= lines.take(at));
                assert(state_after(dialect, front).symbols[j] == record_of_line(
                    dialect,
                    front,
                    at,
                ));
            }
        }
    }
}

/// In the inline dialect the section of the state is the name of the
/// nearest header before, whatever the expressions capture: a line is a
/// header exactly when its first token begins with a dot, and no other
/// line changes the section.
pub proof fn lemma_section_is_nearest_header(lines: Seq<Seq<char>>)
    ensures
        state_after(Dialect::Inline, lines).section == nearest_header(lines),
    decreases lines.len(),
{
    if lines.len() > 0 {
        lemma_section_is_nearest_header(lines.drop_last());
    }
}

/// A text without characters has no records.
pub proof fn lemma_empty_text_has_no_records(dialect: Dialect)
    ensures
        parsed_symbols(dialect, Seq::empty()).len() == 0,
{
    assert(lines_of(Seq::<char>::empty()) =~= Seq::<Seq<char>>::empty());
}

impl MapParser {
    /// A parser that has seen no line.
    pub fn new() -> (parser: MapParser)
        ensures
            parser@ == initial_state(),
    {
        let parser = MapParser {
            current_section: String::new(),
            current_source_file: None,
            symbols: Vec::new(),
        };
        proof {
            assert(parser@.symbols =~= Seq::empty());
        }
        parser
    }

    /// Takes in one classified line.
    pub fn accept(&mut self, class: LineClass)
        ensures
            final(self)@ == step(old(self)@, class@),
    {
        match class {
            LineClass::Section { name, source } => {
                self.current_section = name;
                match source {
                    Some(p) => {
                        self.current_source_file = Some(p);
                    },
                    None => {},
                }
            },
            LineClass::FilePath { path } => {
                self.current_source_file = Some(path);
            },
            LineClass::Symbol { name, address, size, address_text, size_text } => {
                let text_name: String = ".text".to_owned();
                let symbol_type = if self.current_section == text_name {
                    SymbolType::Function
                } else {
                    SymbolType::Variable
                };
                let record = SymbolInfo {
                    section: self.current_section.clone(),
                    name,
                    address,
                    size,
                    symbol_type,
                    source_file: match &self.current_source_file {
                        Some(path) => Some(path.clone()),
                        None => None,
                    },
                };
                let ghost before = self.symbols@;
                self.symbols.push(record);
                proof {
                    assert(symbol_views(self.symbols@) =~= symbol_views(before).push(record@));
                }
            },
            LineClass::Inert => {},
        }
    }

    /// Ends the parse and hands out the records.
    pub fn finish(self) -> (symbols: Vec<SymbolInfo>)
        ensures
            symbol_views(symbols@) == self@.symbols,
    {
        self.symbols
    }
}

/// Classifies a line of a dialect from the line itself and what the two
/// expressions of the dialect captured in it.
pub fn classify_with(
    dialect: Dialect,
    line: &str,
    first: &Option<Groups>,
    second: &Option<Groups>,
) -> (class: LineClass)
    ensures
        class@ == class_from(dialect, line@, found_view(*first), found_view(*second)),
{
    match dialect {
        Dialect::Indented => classify_indented(first, second),
        Dialect::Inline => classify_inline(line, first, second),
    }
}

/// Classifies one line of a dialect. The two expressions of the dialect
/// are compiled on every call: to read a whole text, use
/// [`parse_map_with`].
pub fn classify_line(dialect: Dialect, line: &str) -> (class: LineClass)
    ensures
        class@ == line_class(dialect, line@),
{
    let mut lines: Vec<String> = Vec::new();
    lines.push(line.to_owned());
    let first = captures_each(first_pattern_of(dialect), &lines);
    let second = captures_each(second_pattern_of(dialect), &lines);
    classify_with(dialect, line, &first[0], &second[0])
}

/// Reads the records of a map text in a dialect.
///
/// The lines are taken in order, each classified on its own, and every
/// line that declares a symbol makes one record, attributed to the section
/// and the object file in force at that line. No line makes the parse
/// fail: a line that fits no class is passed over, and a number that
/// cannot be read counts as zero.
pub fn parse_map_with(content: &str, dialect: Dialect) -> (symbols: Vec<SymbolInfo>)
    ensures
        symbol_views(symbols@) == parsed_symbols(dialect, content@),
        symbols@.len() == symbol_lines(dialect, lines_of(content@)).len(),
        symbols@.len() <= lines_of(content@).len(),
        content@.len() == 0 ==> symbols@.len() == 0,
        forall|j: int|
            0 <= j < symbols@.len() ==> {
                &&& well_attributed(#[trigger] symbols@[j]@)
                &&& symbols@[j]@ == record_of_line(
                    dialect,
                    lines_of(content@),
                    symbol_lines(dialect, lines_of(content@))[j],
                )
            },
{
    proof {
        lemma_parsed_records(dialect, lines_of(content@));
        lemma_records_follow_symbol_lines(dialect, lines_of(content@));
        if content@.len() == 0 {
            assert(content@ =~= Seq::<char>::empty());
            lemma_empty_text_has_no_records(dialect);
        }
    }
    let lines = split_lines(content);
    let ghost texts = text_views(lines@);
    let mut parser = MapParser::new();
    let first = captures_each(first_pattern_of(dialect), &lines);
    let second = captures_each(second_pattern_of(dialect), &lines);
    let mut i: usize = 0;
    while i < lines.len()
        invariant
            i <= lines@.len(),
            texts == text_views(lines@),
            first@.len() == lines@.len(),
            second@.len() == lines@.len(),
            forall|j: int|
                0 <= j < lines@.len() ==> found_view(#[trigger] first@[j]) == regex_captures(
                    first_pattern(dialect),
                    lines@[j]@,
                ),
            forall|j: int|
                0 <= j < lines@.len() ==> found_view(#[trigger] second@[j]) == regex_captures(
                    second_pattern(dialect),
                    lines@[j]@,
                ),
            parser@ == state_after(dialect, texts.take(i as int)),
        decreases lines@.len() - i,
    {
        proof {
            assert(texts.take(i + 1).drop_last() =~= texts.take(i as int));
            assert(texts.take(i + 1).last() == lines@[i as int]@);
        }
        parser.accept(classify_with(dialect, lines[i].as_str(), &first[i], &second[i]));
        i = i + 1;
    }
    proof {
        assert(texts.take(lines@.len() as int) =~= texts);
    }
    let symbols = parser.finish();
    proof {
        assert forall|j: int| 0 <= j < symbols@.len() implies well_attributed(
            #[trigger] symbols@[j]@,
        ) && symbols@[j]@ == record_of_line(
            dialect,
            lines_of(content@),
            symbol_lines(dialect, lines_of(content@))[j],
        ) by {
            assert(symbols@[j]@ == symbol_views(symbols@)[j]);
        }
    }
    symbols
}

/// Reads the records of a map text, in the inline dialect.
///
/// A line whose first token begins with a dot opens a section and may name
/// an object file; failing that, a line that names an object file sets the
/// file of the symbols that follow; failing that, a line of address, size
/// and name, of which the first two may be missing, declares a symbol. A
/// record takes the section of the nearest header before its line, its
/// size from the line where the line states one, and zero otherwise.
pub fn parse_map_file(content: &str) -> (symbols: Vec<SymbolInfo>)
    ensures
        symbol_views(symbols@) == parsed_symbols(Dialect::Inline, content@),
        symbols@.len() == symbol_lines(Dialect::Inline, lines_of(content@)).len(),
        symbols@.len() <= lines_of(content@).len(),
        content@.len() == 0 ==> symbols@.len() == 0,
        forall|j: int|
            0 <= j < symbols@.len() ==> {
                &&& well_attributed(#[trigger] symbols@[j]@)
                &&& symbols@[j]@ == record_of_line(
                    Dialect::Inline,
                    lines_of(content@),
                    symbol_lines(Dialect::Inline, lines_of(content@))[j],
                )
                &&& symbols@[j]@.section == nearest_header(
                    lines_of(content@).take(
                        symbol_lines(Dialect::Inline, lines_of(content@))[j],
                    ),
                )
            },
{
    let symbols = parse_map_with(content, Dialect::Inline);
    proof {
        let lines = lines_of(content@);
        let marks = symbol_lines(Dialect::Inline, lines);
        lemma_records_follow_symbol_lines(Dialect::Inline, lines);
        assert forall|j: int| 0 <= j < symbols@.len() implies symbols@[j]@.section
            == nearest_header(lines.take(marks[j])) by {
            assert(0 <= marks[j] < lines.len());
            lemma_section_is_nearest_header(lines.take(marks[j]));
            assert(symbols@[j]@ == record_of_line(Dialect::Inline, lines, marks[j]));
        }
    }
    symbols
}

/// One symbol line as it stood in the map: the section and the object
/// file in force at the line, the name, and the texts of address and size
/// as the line had them, `None` for one that the line did not state.
#[derive(Debug)]
pub struct MapEntry {
    pub section: String,
    pub address: Option<String>,
    pub size: Option<String>,
    pub symbol: String,
    pub source_file: Option<String>,
}

/// The model of a [`MapEntry`].
pub struct EntryView {
    pub section: Seq<char>,
    pub address: Option<Seq<char>>,
    pub size: Option<Seq<char>>,
    pub symbol: Seq<char>,
    pub source_file: Option<Seq<char>>,
}

impl View for MapEntry {
    type V = EntryView;

    open spec fn view(&self) -> EntryView {
        EntryView {
            section: self.section@,
            address: option_view(self.address),
            size: option_view(self.size),
            symbol: self.symbol@,
            source_file: option_view(self.source_file),
        }
    }
}

/// The models of a sequence of entries, in order.
pub open spec fn entry_views(entries: Seq<MapEntry>) -> Seq<EntryView> {
    Seq::new(entries.len(), |i: int| entries[i]@)
}

/// The entries of the lines given: one for each line that declares a
/// symbol, in the order of the lines, attributed to the state that the
/// lines before it left.
pub open spec fn entries_after(dialect: Dialect, lines: Seq<Seq<char>>) -> Seq<EntryView>
    decreases lines.len(),
{
    if lines.len() == 0 {
        Seq::empty()
    } else {
        let before = state_after(dialect, lines.drop_last());
        match line_class(dialect, lines.last()) {
            LineClassView::Symbol {
                name,
                address,
                size,
                address_text,
                size_text,
            } => entries_after(dialect, lines.drop_last()).push(
                EntryView {
                    section: before.section,
                    address: address_text,
                    size: size_text,
                    symbol: name,
                    source_file: before.source_file,
                },
            ),
            _ => entries_after(dialect, lines.drop_last()),
        }
    }
}

/// The entries of a map text in a dialect.
pub open spec fn parsed_entries(dialect: Dialect, content: Seq<char>) -> Seq<EntryView> {
    entries_after(dialect, lines_of(content))
}

/// The entries and the records of the same lines go together: as many of
/// the one as of the other, and entry and record of the same place agree
/// in section, name and object file.
pub proof fn lemma_entries_match_records(dialect: Dialect, lines: Seq<Seq<char>>)
    ensures
        entries_after(dialect, lines).len() == state_after(dialect, lines).symbols.len(),
        forall|j: int|
            0 <= j < entries_after(dialect, lines).len() ==> {
                &&& (#[trigger] entries_after(dialect, lines)[j]).section == state_after(
                    dialect,
                    lines,
                ).symbols[j].section
                &&& entries_after(dialect, lines)[j].symbol == state_after(
                    dialect,
                    lines,
                ).symbols[j].name
                &&& entries_after(dialect, lines)[j].source_file == state_after(
                    dialect,
                    lines,
                ).symbols[j].source_file
            },
    decreases lines.len(),
{
    if lines.len() > 0 {
        lemma_entries_match_records(dialect, lines.drop_last());
    }
}

/// A copy of an optional text.
fn copy_option(text: &Option<String>) -> (copy: Option<String>)
    ensures
        copy == *text,
{
    match text {
        Some(t) => Some(t.clone()),
        None => None,
    }
}

/// The entry that a classified line makes in the state of a parser, if
/// the line declares a symbol.
fn entry_of(parser: &MapParser, class: &LineClass) -> (entry: Option<MapEntry>)
    ensures
        match class@ {
            LineClassView::Symbol { name, address, size, address_text, size_text } => {
                &&& entry is Some
                &&& entry->0@ == (EntryView {
                    section: parser@.section,
                    address: address_text,
                    size: size_text,
                    symbol: name,
                    source_file: parser@.source_file,
                })
            },
            _ => entry is None,
        },
{
    match class {
        LineClass::Symbol { name, address, size, address_text, size_text } => Some(
            MapEntry {
                section: parser.current_section.clone(),
                address: copy_option(address_text),
                size: copy_option(size_text),
                symbol: name.clone(),
                source_file: copy_option(&parser.current_source_file),
            },
        ),
        _ => None,
    }
}

/// Reads the symbol lines of a map text as they stood: what
/// [`parse_map_with`] makes records of, with the texts of address and size
/// in place of the numbers.
pub fn parse_map_entries(content: &str, dialect: Dialect) -> (entries: Vec<MapEntry>)
    ensures
        entry_views(entries@) == parsed_entries(dialect, content@),
        entries@.len() == parsed_symbols(dialect, content@).len(),
{
    proof {
        lemma_entries_match_records(dialect, lines_of(content@));
    }
    let lines = split_lines(content);
    let ghost texts = text_views(lines@);
    let mut parser = MapParser::new();
    let mut entries: Vec<MapEntry> = Vec::new();
    let first = captures_each(first_pattern_of(dialect), &lines);
    let second = captures_each(second_pattern_of(dialect), &lines);
    let mut i: usize = 0;
    proof {
        assert(entry_views(entries@) =~= entries_after(dialect, texts.take(0)));
    }
    while i < lines.len()
        invariant
            i <= lines@.len(),
            texts == text_views(lines@),
            first@.len() == lines@.len(),
            second@.len() == lines@.len(),
            forall|j: int|
                0 <= j < lines@.len() ==> found_view(#[trigger] first@[j]) == regex_captures(
                    first_pattern(dialect),
                    lines@[j]@,
                ),
            forall|j: int|
                0 <= j < lines@.len() ==> found_view(#[trigger] second@[j]) == regex_captures(
                    second_pattern(dialect),
                    lines@[j]@,
                ),
            parser@ == state_after(dialect, texts.take(i as int)),
            entry_views(entries@) == entries_after(dialect, texts.take(i as int)),
        decreases lines@.len() - i,
    {
        proof {
            assert(texts.take(i + 1).drop_last() =~= texts.take(i as int));
            assert(texts.take(i + 1).last() == lines@[i as int]@);
        }
        let class = classify_with(dialect, lines[i].as_str(), &first[i], &second[i]);
        let ghost before = entries@;
        match entry_of(&parser, &class) {
            Some(entry) => {
                entries.push(entry);
                proof {
                    assert(entry_views(entries@) =~= entry_views(before).push(entry@));
                }
            },
            None => {},
        }
        parser.accept(class);
        i = i + 1;
    }
    proof {
        assert(texts.take(lines@.len() as int) =~= texts);
    }
    entries
}

} // verus!
