//! The decoded module's data model: section tags, value types, exports,
//! function signatures, and the module itself.

use vstd::prelude::*;

verus! {

/// The tag of a top-level section.  Every id byte outside the assigned range
/// maps to `InvalidSection`, so an unfamiliar section is recorded rather
/// than misread.
#[derive(Clone, Copy, Debug, PartialEq, Eq, Structural)]
pub enum SectionID {
    CustomSection,
    TypeSection,
    ImportSection,
    FunctionSection,
    TableSection,
    MemorySection,
    GlobalSection,
    ExportSection,
    StartSection,
    ElementSection,
    CodeSection,
    DataSection,
    InvalidSection,
}

impl SectionID {
    /// The section tag a given id byte denotes.
    pub open spec fn spec_from_u8(value: u8) -> SectionID {
        if value == 0 {
            SectionID::CustomSection
        } else if value == 1 {
            SectionID::TypeSection
        } else if value == 2 {
            SectionID::ImportSection
        } else if value == 3 {
            SectionID::FunctionSection
        } else if value == 4 {
            SectionID::TableSection
        } else if value == 5 {
            SectionID::MemorySection
        } else if value == 6 {
            SectionID::GlobalSection
        } else if value == 7 {
            SectionID::ExportSection
        } else if value == 8 {
            SectionID::StartSection
        } else if value == 9 {
            SectionID::ElementSection
        } else if value == 0xA {
            SectionID::CodeSection
        } else if value == 0xB {
            SectionID::DataSection
        } else {
            SectionID::InvalidSection
        }
    }

    pub fn from_u8(value: u8) -> (r: SectionID)
        ensures
            r == SectionID::spec_from_u8(value),
            r == SectionID::InvalidSection <==> value > 0xB,
    {
        match value {
            0 => SectionID::CustomSection,
            1 => SectionID::TypeSection,
            2 => SectionID::ImportSection,
            3 => SectionID::FunctionSection,
            4 => SectionID::TableSection,
            5 => SectionID::MemorySection,
            6 => SectionID::GlobalSection,
            7 => SectionID::ExportSection,
            8 => SectionID::StartSection,
            9 => SectionID::ElementSection,
            0xA => SectionID::CodeSection,
            0xB => SectionID::DataSection,
            _ => SectionID::InvalidSection,
        }
    }
}

/// The type of one parameter or return slot.  An unknown type byte decodes
/// to `Invalid` rather than failing, so one unfamiliar code does not break
/// the positional integrity of the surrounding vector.
#[derive(Clone, Copy, Debug, PartialEq, Eq, Structural)]
pub enum ValueType {
    F64,
    F32,
    I64,
    I32,
    Invalid,
}

impl ValueType {
    /// The value type a given type byte denotes.
    pub open spec fn spec_from_u8(value: u8) -> ValueType {
        if value == 0x7C {
            ValueType::F64
        } else if value == 0x7D {
            ValueType::F32
        } else if value == 0x7E {
            ValueType::I64
        } else if value == 0x7F {
            ValueType::I32
        } else {
            ValueType::Invalid
        }
    }

    pub fn from_u8(value: u8) -> (r: ValueType)
        ensures
            r == ValueType::spec_from_u8(value),
            r == ValueType::Invalid <==> !(0x7C <= value <= 0x7F),
    {
        match value {
            0x7C => ValueType::F64,
            0x7D => ValueType::F32,
            0x7E => ValueType::I64,
            0x7F => ValueType::I32,
            _ => ValueType::Invalid,
        }
    }
}

/// What an export's index refers to.  Kind bytes 0 through 3 are assigned;
/// anything else decodes to `InvalidIdx` so the export's name still lists.
#[derive(Clone, Copy, Debug, PartialEq, Eq, Structural)]
pub enum ExportDesc {
    FuncIdx,
    TableIdx,
    MemIdx,
    GlobalIdx,
    InvalidIdx,
}

impl ExportDesc {
    /// The export kind a given kind byte denotes.
    pub open spec fn spec_from_u8(value: u8) -> ExportDesc {
        if value == 0 {
            ExportDesc::FuncIdx
        } else if value == 1 {
            ExportDesc::TableIdx
        } else if value == 2 {
            ExportDesc::MemIdx
        } else if value == 3 {
            ExportDesc::GlobalIdx
        } else {
            ExportDesc::InvalidIdx
        }
    }

    pub fn from_u8(value: u8) -> (r: ExportDesc)
        ensures
            r == ExportDesc::spec_from_u8(value),
            r == ExportDesc::InvalidIdx <==> value > 3,
    {
        match value {
            0 => ExportDesc::FuncIdx,
            1 => ExportDesc::TableIdx,
            2 => ExportDesc::MemIdx,
            3 => ExportDesc::GlobalIdx,
            _ => ExportDesc::InvalidIdx,
        }
    }
}

/// One exported symbol: a lossily decoded name, what kind of thing it names,
/// and the index of that thing in its own index space.
#[derive(Debug)]
pub struct Export {
    pub name: String,
    pub desc: ExportDesc,
    pub idx: u32,
}

/// The mathematical view of an `Export`.
pub ghost struct ExportV {
    pub name: Seq<char>,
    pub desc: ExportDesc,
    pub idx: u32,
}

impl View for Export {
    type V = ExportV;

    open spec fn view(&self) -> ExportV {
        ExportV { name: self.name@, desc: self.desc, idx: self.idx }
    }
}

/// One function type: the value types of its parameters and of its returns,
/// in declaration order.
#[derive(Debug)]
pub struct FunctionSig {
    pub params: Vec<ValueType>,
    pub returns: Vec<ValueType>,
}

/// The mathematical view of a `FunctionSig`.
pub ghost struct FunctionSigV {
    pub params: Seq<ValueType>,
    pub returns: Seq<ValueType>,
}

impl View for FunctionSig {
    type V = FunctionSigV;

    open spec fn view(&self) -> FunctionSigV {
        FunctionSigV { params: self.params@, returns: self.returns@ }
    }
}

} // verus!
