//! The symbol record and its mathematical model.

use vstd::prelude::*;

verus! {

/// What kind of entity a symbol is, as far as its section tells.
#[derive(Clone, Copy, Debug, PartialEq, Eq, Structural)]
pub enum SymbolType {
    Function,
    Variable,
    Unknown,
}

/// One symbol of a map file.
///
/// `size` is zero until it is known: either the map stated it, or it is
/// inferred later from the address of the record that follows.
#[derive(Debug)]
pub struct SymbolInfo {
    pub section: String,
    pub name: String,
    pub address: u64,
    pub size: u64,
    pub symbol_type: SymbolType,
    pub source_file: Option<String>,
}

/// The model of a [`SymbolInfo`]: its texts as character sequences.
pub struct SymbolView {
    pub section: Seq<char>,
    pub name: Seq<char>,
    pub address: u64,
    pub size: u64,
    pub symbol_type: SymbolType,
    pub source_file: Option<Seq<char>>,
}

impl View for SymbolInfo {
    type V = SymbolView;

    open spec fn view(&self) -> SymbolView {
        SymbolView {
            section: self.section@,
            name: self.name@,
            address: self.address,
            size: self.size,
            symbol_type: self.symbol_type,
            source_file: match self.source_file {
                Some(path) => Some(path@),
                None => None,
            },
        }
    }
}

/// The models of a sequence of records, in order.
pub open spec fn symbol_views(symbols: Seq<SymbolInfo>) -> Seq<SymbolView> {
    Seq::new(symbols.len(), |i: int| symbols[i]@)
}

/// The kind that a section name gives its symbols: code in `.text`, data
/// everywhere else.
pub open spec fn type_for_section(section: Seq<char>) -> SymbolType {
    if section == ".text"@ {
        SymbolType::Function
    } else {
        SymbolType::Variable
    }
}

impl SymbolType {
    /// The lower-case label of the kind.
    pub open spec fn label_text(self) -> Seq<char> {
        match self {
            SymbolType::Function => "function"@,
            SymbolType::Variable => "variable"@,
            SymbolType::Unknown => "unknown"@,
        }
    }

    /// The lower-case label used in reports.
    pub fn label(&self) -> (text: &'static str)
        ensures
            text@ == self.label_text(),
    {
        match self {
            SymbolType::Function => "function",
            SymbolType::Variable => "variable",
            SymbolType::Unknown => "unknown",
        }
    }

    /// Reads a label back; any text but the three labels is `None`.
    pub fn from_label(text: &str) -> (kind: Option<SymbolType>)
        ensures
            kind == SymbolType::of_label(text@),
    {
        if text_eq(text, "function") {
            Some(SymbolType::Function)
        } else if text_eq(text, "variable") {
            Some(SymbolType::Variable)
        } else if text_eq(text, "unknown") {
            Some(SymbolType::Unknown)
        } else {
            None
        }
    }

    /// The kind that a label names.
    pub open spec fn of_label(text: Seq<char>) -> Option<SymbolType> {
        if text == "function"@ {
            Some(SymbolType::Function)
        } else if text == "variable"@ {
            Some(SymbolType::Variable)
        } else if text == "unknown"@ {
            Some(SymbolType::Unknown)
        } else {
            None
        }
    }
}

/// The three labels differ, so the label of a kind reads back as that
/// kind.
pub proof fn lemma_label_reads_back(kind: SymbolType)
    ensures
        SymbolType::of_label(kind.label_text()) == Some(kind),
{
    reveal_strlit("function");
    reveal_strlit("variable");
    reveal_strlit("unknown");
    assert("function"@[0] == 'f');
    assert("variable"@[0] == 'v');
    assert("unknown"@[0] == 'u');
}

/// Whether two texts hold the same characters.
pub fn text_eq(left: &str, right: &str) -> (same: bool)
    ensures
        same == (left@ == right@),
{
    let a: String = left.to_owned();
    let b: String = right.to_owned();
    a == b
}

impl Clone for SymbolInfo {
    fn clone(&self) -> (copy: SymbolInfo)
        ensures
            copy == *self,
    {
        SymbolInfo {
            section: self.section.clone(),
            name: self.name.clone(),
            address: self.address,
            size: self.size,
            symbol_type: self.symbol_type,
            source_file: match &self.source_file {
                Some(path) => Some(path.clone()),
                None => None,
            },
        }
    }
}

} // verus!
