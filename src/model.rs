//! The provider data that reconciliation reads, as plain values.
use vstd::prelude::*;

verus! {

/// How often a recurring charge is billed.
#[derive(Clone, Debug, PartialEq, Eq)]
pub enum ChargeFrequency {
    Hourly,
    /// Any other frequency, by the provider's name for it.
    Other(String),
}

/// A charge that a reservation bills at a fixed frequency.
#[derive(Clone, Debug, PartialEq, Eq)]
pub struct RecurringCharge {
    pub frequency: ChargeFrequency,
    /// The amount billed per period, in units of `money::UNITS_PER_DOLLAR`.
    pub amount: i128,
}

/// One purchase of reserved capacity.
#[derive(Clone, Debug, PartialEq, Eq)]
pub struct Reservation {
    pub instance_type: String,
    /// How many instances the reservation covers; matching lowers it.
    pub instance_count: u32,
    /// The zone the reservation is tied to; `None` for a regional reservation.
    pub availability_zone: Option<String>,
    /// End of the term, in seconds since the Unix epoch.
    pub end: i64,
    /// Length of the term, in seconds.
    pub duration: i64,
    /// The payment model, as the provider names it.
    pub offering_type: String,
    /// The up-front price, in units of `money::UNITS_PER_DOLLAR`.
    pub fixed_price: i128,
    pub recurring_charges: Vec<RecurringCharge>,
}

/// A key/value tag attached to an instance.
#[derive(Clone, Debug, PartialEq, Eq)]
pub struct Tag {
    pub key: String,
    pub value: String,
}

/// A snapshot of one compute instance.
#[derive(Clone, Debug, PartialEq, Eq)]
pub struct Instance {
    pub instance_id: String,
    pub instance_type: String,
    /// The lifecycle state, as the provider names it (`running`, `stopped`, ...).
    pub state: String,
    pub availability_zone: Option<String>,
    pub tags: Vec<Tag>,
    pub public_ip_address: Option<String>,
    pub private_ip_address: Option<String>,
    /// The ARN of the attached instance profile, if any.
    pub iam_instance_profile_arn: Option<String>,
    /// Whether the instance was launched from a spot request.
    pub spot: bool,
}

/// An instance profile: its ARN and the names of its roles.
#[derive(Clone, Debug, PartialEq, Eq)]
pub struct InstanceProfile {
    pub arn: String,
    pub role_names: Vec<String>,
}

/// The hardware of an instance type as the type catalog describes it.
#[derive(Clone, Debug, PartialEq, Eq)]
pub struct InstanceTypeInfo {
    pub instance_type: String,
    pub vcpus: u32,
    pub memory_mib: u64,
}

/// The hardware of an instance type: virtual CPUs and whole GiB of memory.
#[derive(Copy, Clone, Debug, PartialEq, Eq, Structural)]
pub struct InstanceTypeSpec {
    pub vcpus: u32,
    pub memory_gib: u64,
}

} // verus!
