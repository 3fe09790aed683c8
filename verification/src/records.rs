//! The data carried through the merge: one symbol of the input
//! document, the two mapping-record shapes (Holdings-family and
//! Inputs-family), and the advisory report lines.

use vstd::prelude::*;
use crate::address::FailureKind;

verus! {

/// One entry of the input document's symbol list: its address-space
/// id, byte offset and type id attributes, and its raw path text.
#[derive(Debug, PartialEq)]
pub struct Symbol {
    pub ref_id: u32,
    pub offset: u32,
    pub type_id: u32,
    pub path: String,
}

/// The mathematical value of a `Symbol`.
pub struct SymbolV {
    pub ref_id: u32,
    pub offset: u32,
    pub type_id: u32,
    pub path: Seq<char>,
}

impl View for Symbol {
    type V = SymbolV;

    open spec fn view(&self) -> SymbolV {
        SymbolV {
            ref_id: self.ref_id,
            offset: self.offset,
            type_id: self.type_id,
            path: self.path@,
        }
    }
}

/// A Holdings-family mapping record: one row of the holdings table.
#[derive(Debug, PartialEq)]
pub struct CSVEntryHoldings {
    pub address: u32,
    pub name: String,
    pub description: String,
    pub unit: String,
    pub type_: String,
    pub length: u32,
    pub factor: u32,
    pub offset: u32,
    pub role: String,
    pub room: String,
    pub poll: bool,
    pub writepulse: bool,
}

/// The mathematical value of a `CSVEntryHoldings`.
pub struct CSVEntryHoldingsV {
    pub address: u32,
    pub name: Seq<char>,
    pub description: Seq<char>,
    pub unit: Seq<char>,
    pub type_: Seq<char>,
    pub length: u32,
    pub factor: u32,
    pub offset: u32,
    pub role: Seq<char>,
    pub room: Seq<char>,
    pub poll: bool,
    pub writepulse: bool,
}

impl View for CSVEntryHoldings {
    type V = CSVEntryHoldingsV;

    open spec fn view(&self) -> CSVEntryHoldingsV {
        CSVEntryHoldingsV {
            address: self.address,
            name: self.name@,
            description: self.description@,
            unit: self.unit@,
            type_: self.type_@,
            length: self.length,
            factor: self.factor,
            offset: self.offset,
            role: self.role@,
            room: self.room@,
            poll: self.poll,
            writepulse: self.writepulse,
        }
    }
}

/// The fresh Holdings-family record a symbol starts from when no
/// curated record carries its name.
pub open spec fn holdings_default_v() -> CSVEntryHoldingsV {
    CSVEntryHoldingsV {
        address: 0,
        name: Seq::empty(),
        description: Seq::empty(),
        unit: Seq::empty(),
        type_: Seq::empty(),
        length: 1,
        factor: 1,
        offset: 0,
        role: "state"@,
        room: Seq::empty(),
        poll: true,
        writepulse: false,
    }
}

impl Default for CSVEntryHoldings {
    fn default() -> (r: CSVEntryHoldings)
        ensures
            r@ == holdings_default_v(),
    {
        CSVEntryHoldings {
            address: 0,
            name: String::new(),
            description: String::new(),
            unit: String::new(),
            type_: String::new(),
            length: 1,
            factor: 1,
            offset: 0,
            role: String::from_str("state"),
            room: String::new(),
            poll: true,
            writepulse: false,
        }
    }
}

impl CSVEntryHoldings {
    /// A field-by-field copy of this record.
    pub fn duplicate(&self) -> (r: CSVEntryHoldings)
        ensures
            r@ == self@,
    {
        CSVEntryHoldings {
            address: self.address,
            name: self.name.clone(),
            description: self.description.clone(),
            unit: self.unit.clone(),
            type_: self.type_.clone(),
            length: self.length,
            factor: self.factor,
            offset: self.offset,
            role: self.role.clone(),
            room: self.room.clone(),
            poll: self.poll,
            writepulse: self.writepulse,
        }
    }
}

/// An Inputs-family mapping record: one row of the inputs table.
#[derive(Debug, PartialEq)]
pub struct CSVEntryInputs {
    pub address: u32,
    pub name: String,
    pub description: String,
    pub unit: String,
    pub type_: String,
    pub length: u32,
    pub factor: u32,
    pub offset: u32,
    pub role: String,
    pub room: String,
}

/// The mathematical value of a `CSVEntryInputs`.
pub struct CSVEntryInputsV {
    pub address: u32,
    pub name: Seq<char>,
    pub description: Seq<char>,
    pub unit: Seq<char>,
    pub type_: Seq<char>,
    pub length: u32,
    pub factor: u32,
    pub offset: u32,
    pub role: Seq<char>,
    pub room: Seq<char>,
}

impl View for CSVEntryInputs {
    type V = CSVEntryInputsV;

    open spec fn view(&self) -> CSVEntryInputsV {
        CSVEntryInputsV {
            address: self.address,
            name: self.name@,
            description: self.description@,
            unit: self.unit@,
            type_: self.type_@,
            length: self.length,
            factor: self.factor,
            offset: self.offset,
            role: self.role@,
            room: self.room@,
        }
    }
}

/// The fresh Inputs-family record a symbol starts from when no curated
/// record carries its name.
pub open spec fn inputs_default_v() -> CSVEntryInputsV {
    CSVEntryInputsV {
        address: 0,
        name: Seq::empty(),
        description: Seq::empty(),
        unit: Seq::empty(),
        type_: Seq::empty(),
        length: 1,
        factor: 1,
        offset: 0,
        role: "state"@,
        room: Seq::empty(),
    }
}

impl Default for CSVEntryInputs {
    fn default() -> (r: CSVEntryInputs)
        ensures
            r@ == inputs_default_v(),
    {
        CSVEntryInputs {
            address: 0,
            name: String::new(),
            description: String::new(),
            unit: String::new(),
            type_: String::new(),
            length: 1,
            factor: 1,
            offset: 0,
            role: String::from_str("state"),
            room: String::new(),
        }
    }
}

impl CSVEntryInputs {
    /// A field-by-field copy of this record.
    pub fn duplicate(&self) -> (r: CSVEntryInputs)
        ensures
            r@ == self@,
    {
        CSVEntryInputs {
            address: self.address,
            name: self.name.clone(),
            description: self.description.clone(),
            unit: self.unit.clone(),
            type_: self.type_.clone(),
            length: self.length,
            factor: self.factor,
            offset: self.offset,
            role: self.role.clone(),
            room: self.room.clone(),
        }
    }
}

/// Which of the two output sets a success line speaks of.
#[derive(Clone, Copy, Debug, PartialEq, Eq, Structural)]
pub enum Family {
    Holdings,
    Inputs,
}

/// One advisory report line: either a record was emitted at the given
/// register address, or the symbol was skipped for the given reason.
#[derive(Debug, PartialEq)]
pub enum ReportLine {
    Success { family: Family, address: u32, name: String },
    Skip { offset: u32, name: String, reason: FailureKind },
}

/// The mathematical value of a `ReportLine`.
pub enum ReportLineV {
    Success { family: Family, address: u32, name: Seq<char> },
    Skip { offset: u32, name: Seq<char>, reason: FailureKind },
}

impl View for ReportLine {
    type V = ReportLineV;

    open spec fn view(&self) -> ReportLineV {
        match self {
            ReportLine::Success { family, address, name } => ReportLineV::Success {
                family: *family,
                address: *address,
                name: name@,
            },
            ReportLine::Skip { offset, name, reason } => ReportLineV::Skip {
                offset: *offset,
                name: name@,
                reason: *reason,
            },
        }
    }
}

/// The values of a sequence's elements.
pub open spec fn seq_views<T: View>(s: Seq<T>) -> Seq<T::V> {
    s.map_values(|t: T| t@)
}

} // verus!
