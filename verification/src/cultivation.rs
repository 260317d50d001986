//! The records of the cultivation registry that the chain keeps beside its
//! pools: what a facility is certified for, how it cultivates, where it and
//! its devices stand, and the ranges in which its culture is to be kept.

use vstd::prelude::*;
use crate::types::AccountId;

verus! {

/// Seconds since the Unix epoch.
pub type Timestamp = u64;

/// What a certificate of a facility attests.
#[derive(Clone, Copy, Debug, PartialEq, Eq, Structural)]
pub enum CertificationType {
    Organic,
    GMP,
    HACCP,
    ISO22000,
    FairTrade,
    Kosher,
    Halal,
    Other,
}

/// How a facility cultivates.
#[derive(Clone, Copy, Debug, PartialEq, Eq, Structural)]
pub enum CultivationMethod {
    OpenPond,
    Raceway,
    Photobioreactor,
    Greenhouse,
    SemiClosed,
    FullyClosed,
    Hybrid,
}

/// Where a facility's registration stands.
#[derive(Clone, Copy, Debug, PartialEq, Eq, Structural)]
pub enum FacilityStatus {
    Pending,
    Active,
    Suspended,
    Revoked,
}

/// Where a telemetry device stands.
#[derive(Clone, Copy, Debug, PartialEq, Eq, Structural)]
pub enum DeviceStatus {
    Authorized,
    Suspended,
    Revoked,
}

/// The ranges in which a facility keeps its culture, each from its least to
/// its greatest value.
#[derive(Clone, Copy, Debug, PartialEq, Eq)]
pub struct CultivationParameters {
    /// pH, in hundredths.
    pub ph_range: (u32, u32),
    /// Temperature in hundredths of a degree Celsius.
    pub temp_range: (u32, u32),
    /// Light in tenths of a lux.
    pub light_range: (u32, u32),
    /// Density in milligrams per litre.
    pub density_range: (u32, u32),
    /// Dissolved oxygen in hundredths of a milligram per litre.
    pub dissolved_oxygen_range: (u32, u32),
    /// Nitrate in tenths of a milligram per litre.
    pub nitrate_range: (u32, u32),
    /// Salinity in tenths of a gram per litre.
    pub salinity_range: (u32, u32),
}

/// A certificate that an auditor entered for a facility.
#[derive(Debug)]
pub struct Certification {
    pub cert_type: CertificationType,
    pub cert_id: String,
    pub issuer: String,
    pub valid_until: Timestamp,
}

/// A registered cultivation facility.
#[derive(Debug)]
pub struct CultivationFacility {
    pub id: String,
    pub name: String,
    /// Geographic coordinates.
    pub location: (i32, i32),
    /// Cultivation capacity in square metres.
    pub capacity: u32,
    pub certifications: Vec<Certification>,
    pub methods: Vec<CultivationMethod>,
    pub status: FacilityStatus,
    pub owner: AccountId,
    pub registered_at: Timestamp,
    /// When the facility was last audited; zero before the first audit.
    pub last_audit: Timestamp,
}

/// A telemetry device of a facility.
#[derive(Debug)]
pub struct TelemetryDevice {
    pub device_id: String,
    pub facility_id: String,
    /// The key by which the device signs what it reports.
    pub public_key: Vec<u8>,
    pub status: DeviceStatus,
    pub registered_at: Timestamp,
    pub last_active: Timestamp,
    pub firmware_version: String,
}

/// Why the registry refused a call.
#[derive(Clone, Copy, Debug, PartialEq, Eq, Structural)]
pub enum Error {
    /// The caller may not make this call.
    Unauthorized,
    /// A facility of this name is registered already.
    FacilityAlreadyExists,
    /// No facility of this name is registered.
    FacilityNotFound,
    /// A device of this name is registered already.
    DeviceAlreadyExists,
    /// No device of this name is registered.
    DeviceNotFound,
    /// A range is empty or beyond what a culture can bear.
    InvalidParameters,
    /// The facility is not active.
    FacilityNotActive,
    /// The device is not authorized.
    DeviceNotAuthorized,
    /// The certificate has run out.
    CertificationExpired,
}

/// Reports that a facility was registered.
#[derive(Debug)]
pub struct FacilityRegistered {
    pub facility_id: String,
    pub owner: AccountId,
}

/// Reports that a facility's registration stands elsewhere.
#[derive(Debug)]
pub struct FacilityStatusChanged {
    pub facility_id: String,
    pub new_status: FacilityStatus,
}

/// Reports that a device was registered for a facility.
#[derive(Debug)]
pub struct DeviceAuthorized {
    pub device_id: String,
    pub facility_id: String,
}

/// Reports that a device stands elsewhere.
#[derive(Debug)]
pub struct DeviceStatusChanged {
    pub device_id: String,
    pub new_status: DeviceStatus,
}

/// Reports that a facility keeps its culture in other ranges.
#[derive(Debug)]
pub struct ParametersUpdated {
    pub facility_id: String,
}

/// A range that is not empty and lies between `least` and `greatest`.
pub open spec fn spec_within(range: (u32, u32), least: u32, greatest: u32) -> bool {
    least <= range.0 < range.1 <= greatest
}

/// Tells whether a range is not empty and lies between `least` and `greatest`.
pub fn within(range: (u32, u32), least: u32, greatest: u32) -> (result: bool)
    ensures
        result == spec_within(range, least, greatest),
{
    least <= range.0 && range.0 < range.1 && range.1 <= greatest
}

impl CultivationParameters {
    /// Every range is not empty and lies within what a culture can bear, in
    /// the units of the fields: pH 500 to 1400, temperature 1500 to 4500,
    /// light up to 50000, density 500 to 10000, dissolved oxygen up to 2000,
    /// nitrate up to 1000 and salinity up to 500.
    pub open spec fn spec_is_valid(&self) -> bool {
        &&& spec_within(self.ph_range, 500, 1400)
        &&& spec_within(self.temp_range, 1500, 4500)
        &&& spec_within(self.light_range, 0, 50000)
        &&& spec_within(self.density_range, 500, 10000)
        &&& spec_within(self.dissolved_oxygen_range, 0, 2000)
        &&& spec_within(self.nitrate_range, 0, 1000)
        &&& spec_within(self.salinity_range, 0, 500)
    }

    /// The ranges that a new facility starts with.
    pub open spec fn spec_standard() -> CultivationParameters {
        CultivationParameters {
            ph_range: (850, 1050),
            temp_range: (3000, 3700),
            light_range: (2500, 10000),
            density_range: (1000, 3000),
            dissolved_oxygen_range: (600, 900),
            nitrate_range: (100, 300),
            salinity_range: (100, 200),
        }
    }

    /// The ranges that a new facility starts with.
    pub fn standard() -> (parameters: CultivationParameters)
        ensures
            parameters == Self::spec_standard(),
            parameters.spec_is_valid(),
    {
        CultivationParameters {
            ph_range: (850, 1050),
            temp_range: (3000, 3700),
            light_range: (2500, 10000),
            density_range: (1000, 3000),
            dissolved_oxygen_range: (600, 900),
            nitrate_range: (100, 300),
            salinity_range: (100, 200),
        }
    }

    /// Tells whether every range is not empty and within what a culture can
    /// bear.
    pub fn is_valid_parameters(&self) -> (result: bool)
        ensures
            result == self.spec_is_valid(),
    {
        within(self.ph_range, 500, 1400) && within(self.temp_range, 1500, 4500) && within(
            self.light_range,
            0,
            50000,
        ) && within(self.density_range, 500, 10000) && within(
            self.dissolved_oxygen_range,
            0,
            2000,
        ) && within(self.nitrate_range, 0, 1000) && within(self.salinity_range, 0, 500)
    }
}

} // verus!
