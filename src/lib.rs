//! Host-side layer of a device-accelerated backend for a FRI-based proof
//! system: owning handles for device-resident arrays of field elements, and
//! the FRI folding and decomposition rounds built on them, each proved
//! against an exact mathematical statement of its result.

pub mod base_field_vec;
pub mod fri;
pub mod m31;
pub mod poly;
pub mod qm31;
pub mod secure_field_vec;
