//! Errors of encoding and of writing registers.
use crate::text::{decimal, hex_byte, push_decimal, push_hex_byte};
use vstd::prelude::*;
use vstd::string::*;

verus! {

/// Why a payload could not be encoded.
#[derive(Debug, Clone, PartialEq, Eq)]
pub enum EncodeError {
    /// The register has no typed payload.
    UnknownRegister(String),
    /// Raw hexadecimal text is malformed.
    BadHex(String),
    /// The payload does not have the fields of the register.
    BadPayload(String),
    /// A word is not one of the values of its field.
    BadEnum {
        /// Name of the field.
        field: &'static str,
        /// The word.
        value: String,
    },
}

/// What an encoding error says.
#[verifier::ext_equal]
pub ghost enum EncodeFault {
    UnknownRegister(Seq<char>),
    BadHex(Seq<char>),
    BadPayload(Seq<char>),
    BadEnum { field: Seq<char>, value: Seq<char> },
}

impl View for EncodeError {
    type V = EncodeFault;

    open spec fn view(&self) -> EncodeFault {
        match *self {
            EncodeError::UnknownRegister(s) => EncodeFault::UnknownRegister(s@),
            EncodeError::BadHex(s) => EncodeFault::BadHex(s@),
            EncodeError::BadPayload(s) => EncodeFault::BadPayload(s@),
            EncodeError::BadEnum { field, value } => EncodeFault::BadEnum {
                field: field@,
                value: value@,
            },
        }
    }
}

impl EncodeFault {
    /// The text of the error.
    pub open spec fn text(self) -> Seq<char> {
        match self {
            EncodeFault::UnknownRegister(reg) => "unknown register in catalog: "@ + reg,
            EncodeFault::BadHex(hex) => "malformed raw-hex payload: "@ + hex,
            EncodeFault::BadPayload(msg) => "bad register payload: "@ + msg,
            EncodeFault::BadEnum { field, value } => "unsupported "@ + field + " value: "@ + value,
        }
    }
}

impl EncodeError {
    /// The text of the error.
    pub fn describe(&self) -> (out: String)
        ensures
            out@ == self@.text(),
    {
        match self {
            EncodeError::UnknownRegister(reg) => {
                let mut out = "unknown register in catalog: ".to_owned();
                out.append(reg.as_str());
                out
            },
            EncodeError::BadHex(hex) => {
                let mut out = "malformed raw-hex payload: ".to_owned();
                out.append(hex.as_str());
                out
            },
            EncodeError::BadPayload(msg) => {
                let mut out = "bad register payload: ".to_owned();
                out.append(msg.as_str());
                out
            },
            EncodeError::BadEnum { field, value } => {
                let mut out = "unsupported ".to_owned();
                out.append(field);
                out.append(" value: ");
                out.append(value.as_str());
                out
            },
        }
    }
}

/// Why a write is not permitted.
#[derive(Debug, Clone, PartialEq, Eq)]
pub enum WriteError {
    /// The whole register is read-only.
    ReadOnlyRegister {
        /// Register.
        reg: u8,
    },
    /// The payload carries a read-only field.
    ReadOnlyField {
        /// Register.
        reg: u8,
        /// Name of the field.
        field: &'static str,
    },
    /// The payload carries a field that the register does not have.
    UnknownField {
        /// Register.
        reg: u8,
        /// Name of the field.
        field: String,
    },
    /// The whole register is write-only.
    WriteOnlyRegister {
        /// Register.
        reg: u8,
    },
    /// The register is handled internally.
    InternalRegister {
        /// Register.
        reg: u8,
    },
    /// The behaviour of the register is not verified.
    UnverifiedRegister {
        /// Register.
        reg: u8,
    },
    /// A value is above its maximum.
    OutOfRange {
        /// Name of the value.
        field: &'static str,
        /// The value.
        value: u8,
        /// Greatest permitted value.
        max: u8,
    },
}

/// What a write error says.
#[verifier::ext_equal]
pub ghost enum WriteFault {
    ReadOnlyRegister { reg: u8 },
    ReadOnlyField { reg: u8, field: Seq<char> },
    UnknownField { reg: u8, field: Seq<char> },
    WriteOnlyRegister { reg: u8 },
    InternalRegister { reg: u8 },
    UnverifiedRegister { reg: u8 },
    OutOfRange { field: Seq<char>, value: u8, max: u8 },
}

impl View for WriteError {
    type V = WriteFault;

    open spec fn view(&self) -> WriteFault {
        match *self {
            WriteError::ReadOnlyRegister { reg } => WriteFault::ReadOnlyRegister { reg },
            WriteError::ReadOnlyField { reg, field } => WriteFault::ReadOnlyField {
                reg,
                field: field@,
            },
            WriteError::UnknownField { reg, field } => WriteFault::UnknownField {
                reg,
                field: field@,
            },
            WriteError::WriteOnlyRegister { reg } => WriteFault::WriteOnlyRegister { reg },
            WriteError::InternalRegister { reg } => WriteFault::InternalRegister { reg },
            WriteError::UnverifiedRegister { reg } => WriteFault::UnverifiedRegister { reg },
            WriteError::OutOfRange { field, value, max } => WriteFault::OutOfRange {
                field: field@,
                value,
                max,
            },
        }
    }
}

impl WriteFault {
    /// The text of the error.
    pub open spec fn text(self) -> Seq<char> {
        match self {
            WriteFault::ReadOnlyRegister { reg } => "register "@ + hex_byte(reg) + " is read-only"@,
            WriteFault::ReadOnlyField { reg, field } => "field '"@ + field
                + "' is read-only on register "@ + hex_byte(reg),
            WriteFault::UnknownField { reg, field } => "unknown field '"@ + field
                + "' for register "@ + hex_byte(reg),
            WriteFault::WriteOnlyRegister { reg } => "register "@ + hex_byte(reg)
                + " is write-only"@,
            WriteFault::InternalRegister { reg } => "register "@ + hex_byte(reg)
                + " is handled internally"@,
            WriteFault::UnverifiedRegister { reg } => "register "@ + hex_byte(reg)
                + " is unverified; writes not permitted"@,
            WriteFault::OutOfRange { field, value, max } => "field '"@ + field + "' "@ + decimal(
                value as nat,
            ) + " out of range (max "@ + decimal(max as nat) + ")"@,
        }
    }
}

/// `head`, a register and `tail`.
pub fn register_text(head: &str, reg: u8, tail: &str) -> (out: String)
    ensures
        out@ == head@ + hex_byte(reg) + tail@,
{
    let mut out = head.to_owned();
    push_hex_byte(&mut out, reg);
    out.append(tail);
    out
}

impl WriteError {
    /// The text of the error.
    pub fn describe(&self) -> (out: String)
        ensures
            out@ == self@.text(),
    {
        match self {
            WriteError::ReadOnlyRegister { reg } => {
                register_text("register ", *reg, " is read-only")
            },
            WriteError::ReadOnlyField { reg, field } => {
                let mut out = "field '".to_owned();
                out.append(field);
                out.append("' is read-only on register ");
                push_hex_byte(&mut out, *reg);
                out
            },
            WriteError::UnknownField { reg, field } => {
                let mut out = "unknown field '".to_owned();
                out.append(field.as_str());
                out.append("' for register ");
                push_hex_byte(&mut out, *reg);
                out
            },
            WriteError::WriteOnlyRegister { reg } => {
                register_text("register ", *reg, " is write-only")
            },
            WriteError::InternalRegister { reg } => {
                register_text("register ", *reg, " is handled internally")
            },
            WriteError::UnverifiedRegister { reg } => {
                register_text("register ", *reg, " is unverified; writes not permitted")
            },
            WriteError::OutOfRange { field, value, max } => {
                let mut out = "field '".to_owned();
                out.append(field);
                out.append("' ");
                push_decimal(&mut out, *value as u64);
                out.append(" out of range (max ");
                push_decimal(&mut out, *max as u64);
                out.append(")");
                out
            },
        }
    }
}

} // verus!
