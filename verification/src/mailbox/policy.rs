//! Which registers and fields clients may write.
use crate::registers::ids::RegId;
use vstd::prelude::*;

verus! {

/// Access to a register.
#[derive(Debug, Clone, Copy, PartialEq, Eq, Structural)]
pub enum PolicyMode {
    /// Writable and readable.
    ReadWrite,
    /// Writes are rejected.
    ReadOnly,
    /// Reads are rejected.
    WriteOnly,
    /// Not exposed.
    Internal,
    /// Behaviour not verified; writes are rejected.
    Unverified,
}

/// Write policy of one register. An empty list of writable fields of a
/// writable register means that every field which is not read-only is writable.
#[derive(Debug, Clone, PartialEq, Eq)]
pub struct WritePolicy {
    /// Access mode.
    pub mode: PolicyMode,
    /// Names of the writable fields.
    pub writable_fields: Vec<&'static str>,
    /// Names of the read-only fields.
    pub read_only_fields: Vec<&'static str>,
}

/// The texts of a list of names.
pub open spec fn names(list: Seq<&'static str>) -> Seq<Seq<char>> {
    list.map_values(|s: &'static str| s@)
}

/// The access mode of a register.
pub open spec fn mode_of(reg: RegId) -> PolicyMode {
    match reg.0 {
        0x01 | 0x03 | 0x04 | 0x05 | 0x12 | 0x26 | 0x27 => PolicyMode::ReadWrite,
        0x02 | 0x06 | 0x08 | 0x0a => PolicyMode::ReadOnly,
        0x07 => PolicyMode::Internal,
        0x09 => PolicyMode::WriteOnly,
        _ => PolicyMode::Unverified,
    }
}

/// The writable fields of a register.
pub open spec fn writable_of(reg: RegId) -> Seq<Seq<char>> {
    match reg.0 {
        0x03 => seq!["open"@, "damper_pct"@, "target_temp_c"@],
        0x04 => seq!["min_damper"@, "max_damper"@, "motion_config"@],
        0x12 => seq!["sensor_uid"@, "zone"@],
        _ => seq![],
    }
}

/// The read-only fields of a register.
pub open spec fn read_only_of(reg: RegId) -> Seq<Seq<char>> {
    match reg.0 {
        0x03 => seq!["sensor_type"@, "measured_temp_c"@],
        0x04 => seq!["motion_status"@, "zone_error"@, "rssi"@],
        0x05 => seq!["rf_sys_id"@],
        0x12 => seq!["pairing"@, "sensor_rev"@],
        _ => seq![],
    }
}

/// The write policy of a register.
pub fn write_policy(reg: RegId) -> (p: WritePolicy)
    ensures
        p.mode == mode_of(reg),
        names(p.writable_fields@) == writable_of(reg),
        names(p.read_only_fields@) == read_only_of(reg),
{
    let mode = match reg.get() {
        0x01 | 0x03 | 0x04 | 0x05 | 0x12 | 0x26 | 0x27 => PolicyMode::ReadWrite,
        0x02 | 0x06 | 0x08 | 0x0a => PolicyMode::ReadOnly,
        0x07 => PolicyMode::Internal,
        0x09 => PolicyMode::WriteOnly,
        _ => PolicyMode::Unverified,
    };
    let mut writable_fields: Vec<&'static str> = Vec::new();
    let mut read_only_fields: Vec<&'static str> = Vec::new();
    match reg.get() {
        0x03 => {
            writable_fields.push("open");
            writable_fields.push("damper_pct");
            writable_fields.push("target_temp_c");
            read_only_fields.push("sensor_type");
            read_only_fields.push("measured_temp_c");
        },
        0x04 => {
            writable_fields.push("min_damper");
            writable_fields.push("max_damper");
            writable_fields.push("motion_config");
            read_only_fields.push("motion_status");
            read_only_fields.push("zone_error");
            read_only_fields.push("rssi");
        },
        0x05 => {
            read_only_fields.push("rf_sys_id");
        },
        0x12 => {
            writable_fields.push("sensor_uid");
            writable_fields.push("zone");
            read_only_fields.push("pairing");
            read_only_fields.push("sensor_rev");
        },
        _ => {},
    }
    proof {
        assert(names(writable_fields@) =~= writable_of(reg));
        assert(names(read_only_fields@) =~= read_only_of(reg));
    }
    WritePolicy { mode, writable_fields, read_only_fields }
}

} // verus!
