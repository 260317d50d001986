//! The registry of cultivation facilities and of their telemetry devices:
//! who may register, audit and certify, and which devices may report.
//!
//! The registry does not know who calls nor what time it is: each call is
//! told the caller and, where it records a time, the time.

use vstd::prelude::*;
use std::collections::HashMap;
use crate::cultivation::{
    Certification,
    CertificationType,
    CultivationFacility,
    CultivationMethod,
    CultivationParameters,
    DeviceAuthorized,
    DeviceStatus,
    DeviceStatusChanged,
    Error,
    FacilityRegistered,
    FacilityStatus,
    FacilityStatusChanged,
    ParametersUpdated,
    TelemetryDevice,
    Timestamp,
};
use crate::types::AccountId;

verus! {

broadcast use vstd::std_specs::hash::group_hash_axioms;

/// What the registry holds. The ranges of the facility at an index stand at
/// the same index of `parameters`.
pub struct RegistryState {
    pub owner: AccountId,
    pub facilities: Seq<CultivationFacility>,
    pub parameters: Seq<CultivationParameters>,
    pub devices: Seq<TelemetryDevice>,
    pub auditors: Map<AccountId, bool>,
    pub default_parameters: CultivationParameters,
}

/// Whether a facility of this name is registered.
pub open spec fn spec_has_facility(facilities: Seq<CultivationFacility>, id: Seq<char>) -> bool {
    exists|i: int| 0 <= i < facilities.len() && (#[trigger] facilities[i]).id@ == id
}

/// Where the facility of this name stands, if one is registered.
pub open spec fn spec_facility_index(facilities: Seq<CultivationFacility>, id: Seq<char>) -> int {
    choose|i: int| 0 <= i < facilities.len() && (#[trigger] facilities[i]).id@ == id
}

/// No two facilities have the same name.
pub open spec fn spec_distinct_facilities(facilities: Seq<CultivationFacility>) -> bool {
    forall|i: int, j: int|
        0 <= i < j < facilities.len() ==> (#[trigger] facilities[i]).id@ != (
        #[trigger] facilities[j]).id@
}

/// Whether a device of this name is registered.
pub open spec fn spec_has_device(devices: Seq<TelemetryDevice>, id: Seq<char>) -> bool {
    exists|i: int| 0 <= i < devices.len() && (#[trigger] devices[i]).device_id@ == id
}

/// Where the device of this name stands, if one is registered.
pub open spec fn spec_device_index(devices: Seq<TelemetryDevice>, id: Seq<char>) -> int {
    choose|i: int| 0 <= i < devices.len() && (#[trigger] devices[i]).device_id@ == id
}

/// No two devices have the same name.
pub open spec fn spec_distinct_devices(devices: Seq<TelemetryDevice>) -> bool {
    forall|i: int, j: int|
        0 <= i < j < devices.len() ==> (#[trigger] devices[i]).device_id@ != (
        #[trigger] devices[j]).device_id@
}

/// Whether an account is entered as an auditor and not struck off.
pub open spec fn spec_is_auditor(auditors: Map<AccountId, bool>, account: AccountId) -> bool {
    auditors.contains_key(account) && auditors[account]
}

/// The names of the facilities of `owner`, in the order of registration.
pub open spec fn spec_ids_of_owner(facilities: Seq<CultivationFacility>, owner: AccountId) -> Seq<
    String,
>
    decreases facilities.len(),
{
    if facilities.len() == 0 {
        Seq::empty()
    } else if facilities.last().owner == owner {
        spec_ids_of_owner(facilities.drop_last(), owner).push(facilities.last().id)
    } else {
        spec_ids_of_owner(facilities.drop_last(), owner)
    }
}

/// Among facilities of distinct names, the one at `i` is the one of its name.
pub proof fn lemma_facility_at(facilities: Seq<CultivationFacility>, i: int)
    requires
        spec_distinct_facilities(facilities),
        0 <= i < facilities.len(),
    ensures
        spec_has_facility(facilities, facilities[i].id@),
        spec_facility_index(facilities, facilities[i].id@) == i,
{
    let j = spec_facility_index(facilities, facilities[i].id@);
    if j < i {
        assert(facilities[j].id@ != facilities[i].id@);
    } else if i < j {
        assert(facilities[i].id@ != facilities[j].id@);
    }
}

/// Among devices of distinct names, the one at `i` is the one of its name.
pub proof fn lemma_device_at(devices: Seq<TelemetryDevice>, i: int)
    requires
        spec_distinct_devices(devices),
        0 <= i < devices.len(),
    ensures
        spec_has_device(devices, devices[i].device_id@),
        spec_device_index(devices, devices[i].device_id@) == i,
{
    let j = spec_device_index(devices, devices[i].device_id@);
    if j < i {
        assert(devices[j].device_id@ != devices[i].device_id@);
    } else if i < j {
        assert(devices[i].device_id@ != devices[j].device_id@);
    }
}

/// The facility of a name, where one is registered.
pub open spec fn spec_facility(state: RegistryState, id: Seq<char>) -> CultivationFacility {
    state.facilities[spec_facility_index(state.facilities, id)]
}

/// The device of a name, where one is registered.
pub open spec fn spec_device(state: RegistryState, id: Seq<char>) -> TelemetryDevice {
    state.devices[spec_device_index(state.devices, id)]
}

/// Why a facility's status cannot be set: only the registry's owner and the
/// auditors may, and the facility has to be registered.
pub open spec fn spec_refuses_facility_status(
    state: RegistryState,
    caller: AccountId,
    facility_id: Seq<char>,
) -> Option<Error> {
    if caller != state.owner && !spec_is_auditor(state.auditors, caller) {
        Some(Error::Unauthorized)
    } else if !spec_has_facility(state.facilities, facility_id) {
        Some(Error::FacilityNotFound)
    } else {
        None
    }
}

/// Why a device cannot be registered: its facility has to be registered,
/// owned by the caller and active, and the device's name has to be free.
pub open spec fn spec_refuses_device(
    state: RegistryState,
    caller: AccountId,
    device_id: Seq<char>,
    facility_id: Seq<char>,
) -> Option<Error> {
    if !spec_has_facility(state.facilities, facility_id) {
        Some(Error::FacilityNotFound)
    } else if spec_facility(state, facility_id).owner != caller {
        Some(Error::Unauthorized)
    } else if spec_facility(state, facility_id).status != FacilityStatus::Active {
        Some(Error::FacilityNotActive)
    } else if spec_has_device(state.devices, device_id) {
        Some(Error::DeviceAlreadyExists)
    } else {
        None
    }
}

/// Why a device's status cannot be set: the device and its facility have to
/// be registered, and only the facility's owner and the registry's may.
pub open spec fn spec_refuses_device_status(
    state: RegistryState,
    caller: AccountId,
    device_id: Seq<char>,
) -> Option<Error> {
    if !spec_has_device(state.devices, device_id) {
        Some(Error::DeviceNotFound)
    } else if !spec_has_facility(state.facilities, spec_device(state, device_id).facility_id@) {
        Some(Error::FacilityNotFound)
    } else if spec_facility(state, spec_device(state, device_id).facility_id@).owner != caller
        && caller != state.owner {
        Some(Error::Unauthorized)
    } else {
        None
    }
}

/// Why a facility's ranges cannot be set: the facility has to be registered,
/// only its owner and the auditors may, and the ranges have to be valid.
pub open spec fn spec_refuses_parameters(
    state: RegistryState,
    caller: AccountId,
    facility_id: Seq<char>,
    parameters: CultivationParameters,
) -> Option<Error> {
    if !spec_has_facility(state.facilities, facility_id) {
        Some(Error::FacilityNotFound)
    } else if spec_facility(state, facility_id).owner != caller && !spec_is_auditor(
        state.auditors,
        caller,
    ) {
        Some(Error::Unauthorized)
    } else if !parameters.spec_is_valid() {
        Some(Error::InvalidParameters)
    } else {
        None
    }
}

/// Why an auditor cannot act on a facility: the caller has to be an auditor
/// and the facility registered.
pub open spec fn spec_refuses_auditor(
    state: RegistryState,
    caller: AccountId,
    facility_id: Seq<char>,
) -> Option<Error> {
    if !spec_is_auditor(state.auditors, caller) {
        Some(Error::Unauthorized)
    } else if !spec_has_facility(state.facilities, facility_id) {
        Some(Error::FacilityNotFound)
    } else {
        None
    }
}

/// Why a device cannot report: it has to be registered and authorized.
pub open spec fn spec_refuses_activity(state: RegistryState, device_id: Seq<char>) -> Option<
    Error,
> {
    if !spec_has_device(state.devices, device_id) {
        Some(Error::DeviceNotFound)
    } else if spec_device(state, device_id).status != DeviceStatus::Authorized {
        Some(Error::DeviceNotAuthorized)
    } else {
        None
    }
}

/// A facility as it is entered: pending, without certificates, not audited.
pub open spec fn spec_entered_facility(
    facility: CultivationFacility,
    id: String,
    name: String,
    location: (i32, i32),
    capacity: u32,
    methods: Vec<CultivationMethod>,
    owner: AccountId,
    now: Timestamp,
) -> bool {
    &&& facility.id == id
    &&& facility.name == name
    &&& facility.location == location
    &&& facility.capacity == capacity
    &&& facility.certifications@ == Seq::<Certification>::empty()
    &&& facility.methods == methods
    &&& facility.status == FacilityStatus::Pending
    &&& facility.owner == owner
    &&& facility.registered_at == now
    &&& facility.last_audit == 0
}

/// A device as it is entered: authorized, and active at its registration.
pub open spec fn spec_entered_device(
    device: TelemetryDevice,
    device_id: String,
    facility_id: String,
    public_key: Vec<u8>,
    firmware_version: String,
    now: Timestamp,
) -> bool {
    &&& device.device_id == device_id
    &&& device.facility_id == facility_id
    &&& device.public_key == public_key
    &&& device.status == DeviceStatus::Authorized
    &&& device.registered_at == now
    &&& device.last_active == now
    &&& device.firmware_version == firmware_version
}

/// A facility with one more certificate, and otherwise as before.
pub open spec fn spec_certified(
    facility: CultivationFacility,
    before: CultivationFacility,
    cert_type: CertificationType,
    cert_id: String,
    issuer: String,
    valid_until: Timestamp,
) -> bool {
    &&& facility.certifications@.len() == before.certifications@.len() + 1
    &&& facility.certifications@.drop_last() == before.certifications@
    &&& facility.certifications@.last().cert_type == cert_type
    &&& facility.certifications@.last().cert_id == cert_id
    &&& facility.certifications@.last().issuer == issuer
    &&& facility.certifications@.last().valid_until == valid_until
    &&& facility.id == before.id
    &&& facility.name == before.name
    &&& facility.location == before.location
    &&& facility.capacity == before.capacity
    &&& facility.methods == before.methods
    &&& facility.status == before.status
    &&& facility.owner == before.owner
    &&& facility.registered_at == before.registered_at
    &&& facility.last_audit == before.last_audit
}

/// Replacing a facility by one of the same name keeps the names distinct.
pub proof fn lemma_facility_replaced(
    facilities: Seq<CultivationFacility>,
    i: int,
    facility: CultivationFacility,
)
    requires
        spec_distinct_facilities(facilities),
        0 <= i < facilities.len(),
        facility.id@ == facilities[i].id@,
    ensures
        spec_distinct_facilities(facilities.update(i, facility)),
        facilities.remove(i).insert(i, facility) == facilities.update(i, facility),
{
    let updated = facilities.update(i, facility);
    assert forall|j: int, k: int| 0 <= j < k < updated.len() implies (#[trigger] updated[j]).id@
        != (#[trigger] updated[k]).id@ by {
        assert(facilities[j].id@ != facilities[k].id@);
    }
    assert(facilities.remove(i).insert(i, facility) =~= updated);
}

/// Replacing a device by one of the same name keeps the names distinct.
pub proof fn lemma_device_replaced(devices: Seq<TelemetryDevice>, i: int, device: TelemetryDevice)
    requires
        spec_distinct_devices(devices),
        0 <= i < devices.len(),
        device.device_id@ == devices[i].device_id@,
    ensures
        spec_distinct_devices(devices.update(i, device)),
        devices.remove(i).insert(i, device) == devices.update(i, device),
{
    let updated = devices.update(i, device);
    assert forall|j: int, k: int| 0 <= j < k < updated.len() implies (
    #[trigger] updated[j]).device_id@ != (#[trigger] updated[k]).device_id@ by {
        assert(devices[j].device_id@ != devices[k].device_id@);
    }
    assert(devices.remove(i).insert(i, device) =~= updated);
}

/// The registry.
pub struct SpirulinaRegistry {
    owner: AccountId,
    facilities: Vec<CultivationFacility>,
    parameters: Vec<CultivationParameters>,
    devices: Vec<TelemetryDevice>,
    auditors: HashMap<AccountId, bool>,
    default_parameters: CultivationParameters,
}

impl View for SpirulinaRegistry {
    type V = RegistryState;

    closed spec fn view(&self) -> RegistryState {
        RegistryState {
            owner: self.owner,
            facilities: self.facilities@,
            parameters: self.parameters@,
            devices: self.devices@,
            auditors: self.auditors@,
            default_parameters: self.default_parameters,
        }
    }
}

impl SpirulinaRegistry {
    /// Names are distinct, every facility has its ranges, and the facilities
    /// and the devices can be counted in 32 bits.
    pub open spec fn wf(&self) -> bool {
        &&& spec_distinct_facilities(self@.facilities)
        &&& spec_distinct_devices(self@.devices)
        &&& self@.parameters.len() == self@.facilities.len()
        &&& self@.facilities.len() <= u32::MAX
        &&& self@.devices.len() <= u32::MAX
    }

    /// An empty registry that belongs to `owner`, with the standard ranges
    /// for new facilities.
    pub fn new(owner: AccountId) -> (registry: SpirulinaRegistry)
        ensures
            registry.wf(),
            registry@ == (RegistryState {
                owner,
                facilities: Seq::empty(),
                parameters: Seq::empty(),
                devices: Seq::empty(),
                auditors: Map::empty(),
                default_parameters: CultivationParameters::spec_standard(),
            }),
    {
        SpirulinaRegistry {
            owner,
            facilities: Vec::new(),
            parameters: Vec::new(),
            devices: Vec::new(),
            auditors: HashMap::new(),
            default_parameters: CultivationParameters::standard(),
        }
    }

    /// Finds the facility of a name.
    fn find_facility(&self, id: &String) -> (found: Option<usize>)
        requires
            self.wf(),
        ensures
            match found {
                Some(i) => spec_has_facility(self@.facilities, id@) && i == spec_facility_index(
                    self@.facilities,
                    id@,
                ) && i < self.facilities@.len(),
                None => !spec_has_facility(self@.facilities, id@),
            },
    {
        let mut i: usize = 0;
        while i < self.facilities.len()
            invariant
                self.wf(),
                i <= self.facilities@.len(),
                forall|j: int| 0 <= j < i ==> (#[trigger] self.facilities@[j]).id@ != id@,
            decreases self.facilities@.len() - i,
        {
            if self.facilities[i].id == *id {
                proof {
                    lemma_facility_at(self.facilities@, i as int);
                }
                return Some(i);
            }
            i += 1;
        }
        None
    }

    /// Finds the device of a name.
    fn find_device(&self, id: &String) -> (found: Option<usize>)
        requires
            self.wf(),
        ensures
            match found {
                Some(i) => spec_has_device(self@.devices, id@) && i == spec_device_index(
                    self@.devices,
                    id@,
                ) && i < self.devices@.len(),
                None => !spec_has_device(self@.devices, id@),
            },
    {
        let mut i: usize = 0;
        while i < self.devices.len()
            invariant
                self.wf(),
                i <= self.devices@.len(),
                forall|j: int| 0 <= j < i ==> (#[trigger] self.devices@[j]).device_id@ != id@,
            decreases self.devices@.len() - i,
        {
            if self.devices[i].device_id == *id {
                proof {
                    lemma_device_at(self.devices@, i as int);
                }
                return Some(i);
            }
            i += 1;
        }
        None
    }

    /// Tells whether an account is an auditor.
    pub fn is_auditor(&self, account: AccountId) -> (result: bool)
        ensures
            result == spec_is_auditor(self@.auditors, account),
    {
        match self.auditors.get(&account) {
            Some(entered) => *entered,
            None => false,
        }
    }

    /// Reads the facility of a name.
    pub fn get_facility(&self, facility_id: &String) -> (found: Option<&CultivationFacility>)
        requires
            self.wf(),
        ensures
            match found {
                Some(facility) => spec_has_facility(self@.facilities, facility_id@) && *facility
                    == self@.facilities[spec_facility_index(self@.facilities, facility_id@)],
                None => !spec_has_facility(self@.facilities, facility_id@),
            },
    {
        match self.find_facility(facility_id) {
            Some(i) => Some(&self.facilities[i]),
            None => None,
        }
    }

    /// Reads the device of a name.
    pub fn get_device(&self, device_id: &String) -> (found: Option<&TelemetryDevice>)
        requires
            self.wf(),
        ensures
            match found {
                Some(device) => spec_has_device(self@.devices, device_id@) && *device
                    == self@.devices[spec_device_index(self@.devices, device_id@)],
                None => !spec_has_device(self@.devices, device_id@),
            },
    {
        match self.find_device(device_id) {
            Some(i) => Some(&self.devices[i]),
            None => None,
        }
    }

    /// Reads the ranges of the facility of a name.
    pub fn get_parameters(&self, facility_id: &String) -> (found: Option<CultivationParameters>)
        requires
            self.wf(),
        ensures
            match found {
                Some(parameters) => spec_has_facility(self@.facilities, facility_id@) && parameters
                    == self@.parameters[spec_facility_index(self@.facilities, facility_id@)],
                None => !spec_has_facility(self@.facilities, facility_id@),
            },
    {
        match self.find_facility(facility_id) {
            Some(i) => Some(self.parameters[i]),
            None => None,
        }
    }

    /// Reads the ranges that a new facility starts with.
    pub fn get_default_parameters(&self) -> (parameters: CultivationParameters)
        ensures
            parameters == self@.default_parameters,
    {
        self.default_parameters
    }

    /// Lists the names of the facilities of `owner`, in the order of
    /// registration.
    pub fn get_facilities_by_owner(&self, owner: AccountId) -> (ids: Vec<String>)
        ensures
            ids@ == spec_ids_of_owner(self@.facilities, owner),
    {
        let mut ids: Vec<String> = Vec::new();
        let mut i: usize = 0;
        while i < self.facilities.len()
            invariant
                i <= self.facilities@.len(),
                ids@ == spec_ids_of_owner(self.facilities@.take(i as int), owner),
            decreases self.facilities@.len() - i,
        {
            proof {
                assert(self.facilities@.take(i + 1).drop_last() =~= self.facilities@.take(
                    i as int,
                ));
            }
            if self.facilities[i].owner == owner {
                ids.push(self.facilities[i].id.clone());
            }
            i += 1;
        }
        proof {
            assert(self.facilities@.take(i as int) =~= self.facilities@);
        }
        ids
    }

    /// Counts the facilities.
    pub fn get_facilities_count(&self) -> (count: u32)
        requires
            self.wf(),
        ensures
            count == self@.facilities.len(),
    {
        self.facilities.len() as u32
    }

    /// Counts the devices.
    pub fn get_devices_count(&self) -> (count: u32)
        requires
            self.wf(),
        ensures
            count == self@.devices.len(),
    {
        self.devices.len() as u32
    }

    /// Tells whether the device of a name belongs to the facility named and
    /// is authorized.
    pub fn is_device_authorized(&self, device_id: &String, facility_id: &String) -> (result: bool)
        requires
            self.wf(),
        ensures
            result == (spec_has_device(self@.devices, device_id@) && ({
                let device = self@.devices[spec_device_index(self@.devices, device_id@)];
                device.facility_id@ == facility_id@ && device.status == DeviceStatus::Authorized
            })),
    {
        match self.find_device(device_id) {
            Some(i) => self.devices[i].facility_id == *facility_id && self.devices[i].status
                == DeviceStatus::Authorized,
            None => false,
        }
    }

    /// Registers a facility of the caller, pending, with the ranges that new
    /// facilities start with.
    pub fn register_facility(
        &mut self,
        caller: AccountId,
        now: Timestamp,
        id: String,
        name: String,
        location: (i32, i32),
        capacity: u32,
        methods: Vec<CultivationMethod>,
    ) -> (result: Result<FacilityRegistered, Error>)
        requires
            old(self).wf(),
            old(self)@.facilities.len() < u32::MAX,
        ensures
            final(self).wf(),
            if spec_has_facility(old(self)@.facilities, id@) {
                result matches Err(refusal) && refusal == Error::FacilityAlreadyExists && *final(self)
                    == *old(self)
            } else {
                &&& result matches Ok(event) && event.facility_id == id && event.owner == caller
                &&& final(self)@ == (RegistryState {
                    facilities: old(self)@.facilities.push(final(self)@.facilities.last()),
                    parameters: old(self)@.parameters.push(old(self)@.default_parameters),
                    ..old(self)@
                })
                &&& spec_entered_facility(
                    final(self)@.facilities.last(),
                    id,
                    name,
                    location,
                    capacity,
                    methods,
                    caller,
                    now,
                )
            },
    {
        if self.find_facility(&id).is_some() {
            return Err(Error::FacilityAlreadyExists);
        }
        let facility_id = id.clone();
        let facility = CultivationFacility {
            id,
            name,
            location,
            capacity,
            certifications: Vec::new(),
            methods,
            status: FacilityStatus::Pending,
            owner: caller,
            registered_at: now,
            last_audit: 0,
        };
        self.facilities.push(facility);
        self.parameters.push(self.default_parameters);
        proof {
            let before = old(self)@.facilities;
            let after = final(self)@.facilities;
            assert forall|j: int, k: int| 0 <= j < k < after.len() implies (#[trigger] after[j]).id@
                != (#[trigger] after[k]).id@ by {
                assert(after[j] == before[j]);
                if k < before.len() {
                    assert(after[k] == before[k]);
                }
            }
        }
        Ok(FacilityRegistered { facility_id, owner: caller })
    }

    /// Sets where a facility's registration stands.
    pub fn update_facility_status(
        &mut self,
        caller: AccountId,
        facility_id: String,
        new_status: FacilityStatus,
    ) -> (result: Result<FacilityStatusChanged, Error>)
        requires
            old(self).wf(),
        ensures
            final(self).wf(),
            match spec_refuses_facility_status(old(self)@, caller, facility_id@) {
                Some(e) => result matches Err(refusal) && refusal == e && *final(self) == *old(self),
                None => {
                    let i = spec_facility_index(old(self)@.facilities, facility_id@);
                    &&& result matches Ok(event) && event.facility_id == facility_id
                        && event.new_status == new_status
                    &&& final(self)@ == (RegistryState {
                        facilities: old(self)@.facilities.update(
                            i,
                            CultivationFacility { status: new_status, ..old(self)@.facilities[i] },
                        ),
                        ..old(self)@
                    })
                },
            },
    {
        if caller != self.owner && !self.is_auditor(caller) {
            return Err(Error::Unauthorized);
        }
        let i = match self.find_facility(&facility_id) {
            Some(i) => i,
            None => { return Err(Error::FacilityNotFound); },
        };
        let mut facility = self.facilities.remove(i);
        facility.status = new_status;
        proof {
            lemma_facility_replaced(old(self)@.facilities, i as int, facility);
        }
        self.facilities.insert(i, facility);
        Ok(FacilityStatusChanged { facility_id, new_status })
    }

    /// Registers a device for a facility of the caller, authorized.
    pub fn register_device(
        &mut self,
        caller: AccountId,
        now: Timestamp,
        device_id: String,
        facility_id: String,
        public_key: Vec<u8>,
        firmware_version: String,
    ) -> (result: Result<DeviceAuthorized, Error>)
        requires
            old(self).wf(),
            old(self)@.devices.len() < u32::MAX,
        ensures
            final(self).wf(),
            match spec_refuses_device(old(self)@, caller, device_id@, facility_id@) {
                Some(e) => result matches Err(refusal) && refusal == e && *final(self) == *old(self),
                None => {
                    &&& result matches Ok(event) && event.device_id == device_id
                        && event.facility_id == facility_id
                    &&& final(self)@ == (RegistryState {
                        devices: old(self)@.devices.push(final(self)@.devices.last()),
                        ..old(self)@
                    })
                    &&& spec_entered_device(
                        final(self)@.devices.last(),
                        device_id,
                        facility_id,
                        public_key,
                        firmware_version,
                        now,
                    )
                },
            },
    {
        let i = match self.find_facility(&facility_id) {
            Some(i) => i,
            None => { return Err(Error::FacilityNotFound); },
        };
        if self.facilities[i].owner != caller {
            return Err(Error::Unauthorized);
        }
        if self.facilities[i].status != FacilityStatus::Active {
            return Err(Error::FacilityNotActive);
        }
        if self.find_device(&device_id).is_some() {
            return Err(Error::DeviceAlreadyExists);
        }
        let event = DeviceAuthorized {
            device_id: device_id.clone(),
            facility_id: facility_id.clone(),
        };
        let device = TelemetryDevice {
            device_id,
            facility_id,
            public_key,
            status: DeviceStatus::Authorized,
            registered_at: now,
            last_active: now,
            firmware_version,
        };
        self.devices.push(device);
        proof {
            let before = old(self)@.devices;
            let after = final(self)@.devices;
            assert forall|j: int, k: int| 0 <= j < k < after.len() implies (
            #[trigger] after[j]).device_id@ != (#[trigger] after[k]).device_id@ by {
                assert(after[j] == before[j]);
                if k < before.len() {
                    assert(after[k] == before[k]);
                }
            }
        }
        Ok(event)
    }

    /// Sets where a device stands.
    pub fn update_device_status(
        &mut self,
        caller: AccountId,
        device_id: String,
        new_status: DeviceStatus,
    ) -> (result: Result<DeviceStatusChanged, Error>)
        requires
            old(self).wf(),
        ensures
            final(self).wf(),
            match spec_refuses_device_status(old(self)@, caller, device_id@) {
                Some(e) => result matches Err(refusal) && refusal == e && *final(self) == *old(self),
                None => {
                    let i = spec_device_index(old(self)@.devices, device_id@);
                    &&& result matches Ok(event) && event.device_id == device_id
                        && event.new_status == new_status
                    &&& final(self)@ == (RegistryState {
                        devices: old(self)@.devices.update(
                            i,
                            TelemetryDevice { status: new_status, ..old(self)@.devices[i] },
                        ),
                        ..old(self)@
                    })
                },
            },
    {
        let i = match self.find_device(&device_id) {
            Some(i) => i,
            None => { return Err(Error::DeviceNotFound); },
        };
        let at = match self.find_facility(&self.devices[i].facility_id) {
            Some(at) => at,
            None => { return Err(Error::FacilityNotFound); },
        };
        if self.facilities[at].owner != caller && caller != self.owner {
            return Err(Error::Unauthorized);
        }
        let mut device = self.devices.remove(i);
        device.status = new_status;
        proof {
            lemma_device_replaced(old(self)@.devices, i as int, device);
        }
        self.devices.insert(i, device);
        Ok(DeviceStatusChanged { device_id, new_status })
    }

    /// Sets the ranges in which a facility keeps its culture.
    pub fn update_parameters(
        &mut self,
        caller: AccountId,
        facility_id: String,
        parameters: CultivationParameters,
    ) -> (result: Result<ParametersUpdated, Error>)
        requires
            old(self).wf(),
        ensures
            final(self).wf(),
            match spec_refuses_parameters(old(self)@, caller, facility_id@, parameters) {
                Some(e) => result matches Err(refusal) && refusal == e && *final(self) == *old(self),
                None => {
                    &&& result matches Ok(event) && event.facility_id == facility_id
                    &&& final(self)@ == (RegistryState {
                        parameters: old(self)@.parameters.update(
                            spec_facility_index(old(self)@.facilities, facility_id@),
                            parameters,
                        ),
                        ..old(self)@
                    })
                },
            },
    {
        let i = match self.find_facility(&facility_id) {
            Some(i) => i,
            None => { return Err(Error::FacilityNotFound); },
        };
        if self.facilities[i].owner != caller && !self.is_auditor(caller) {
            return Err(Error::Unauthorized);
        }
        if !parameters.is_valid_parameters() {
            return Err(Error::InvalidParameters);
        }
        self.parameters.set(i, parameters);
        Ok(ParametersUpdated { facility_id })
    }

    /// Enters a certificate for a facility.
    pub fn add_certification(
        &mut self,
        caller: AccountId,
        facility_id: String,
        cert_type: CertificationType,
        cert_id: String,
        issuer: String,
        valid_until: Timestamp,
    ) -> (result: Result<(), Error>)
        requires
            old(self).wf(),
        ensures
            final(self).wf(),
            match spec_refuses_auditor(old(self)@, caller, facility_id@) {
                Some(e) => result matches Err(refusal) && refusal == e && *final(self) == *old(self),
                None => {
                    let i = spec_facility_index(old(self)@.facilities, facility_id@);
                    &&& result is Ok
                    &&& final(self)@ == (RegistryState {
                        facilities: old(self)@.facilities.update(i, final(self)@.facilities[i]),
                        ..old(self)@
                    })
                    &&& spec_certified(
                        final(self)@.facilities[i],
                        old(self)@.facilities[i],
                        cert_type,
                        cert_id,
                        issuer,
                        valid_until,
                    )
                },
            },
    {
        if !self.is_auditor(caller) {
            return Err(Error::Unauthorized);
        }
        let i = match self.find_facility(&facility_id) {
            Some(i) => i,
            None => { return Err(Error::FacilityNotFound); },
        };
        let mut facility = self.facilities.remove(i);
        facility.certifications.push(Certification { cert_type, cert_id, issuer, valid_until });
        proof {
            lemma_facility_replaced(old(self)@.facilities, i as int, facility);
            assert(facility.certifications@.drop_last() =~= old(self)@.facilities[i as int].certifications@);
        }
        self.facilities.insert(i, facility);
        Ok(())
    }

    /// Records an audit of a facility at `now`.
    pub fn perform_audit(&mut self, caller: AccountId, now: Timestamp, facility_id: String) -> (result:
        Result<(), Error>)
        requires
            old(self).wf(),
        ensures
            final(self).wf(),
            match spec_refuses_auditor(old(self)@, caller, facility_id@) {
                Some(e) => result matches Err(refusal) && refusal == e && *final(self) == *old(self),
                None => {
                    let i = spec_facility_index(old(self)@.facilities, facility_id@);
                    &&& result is Ok
                    &&& final(self)@ == (RegistryState {
                        facilities: old(self)@.facilities.update(
                            i,
                            CultivationFacility { last_audit: now, ..old(self)@.facilities[i] },
                        ),
                        ..old(self)@
                    })
                },
            },
    {
        if !self.is_auditor(caller) {
            return Err(Error::Unauthorized);
        }
        let i = match self.find_facility(&facility_id) {
            Some(i) => i,
            None => { return Err(Error::FacilityNotFound); },
        };
        let mut facility = self.facilities.remove(i);
        facility.last_audit = now;
        proof {
            lemma_facility_replaced(old(self)@.facilities, i as int, facility);
        }
        self.facilities.insert(i, facility);
        Ok(())
    }

    /// Enters an account as an auditor.
    pub fn add_auditor(&mut self, caller: AccountId, auditor: AccountId) -> (result: Result<
        (),
        Error,
    >)
        requires
            old(self).wf(),
        ensures
            final(self).wf(),
            if caller != old(self)@.owner {
                result matches Err(refusal) && refusal == Error::Unauthorized && *final(self) == *old(self)
            } else {
                &&& result is Ok
                &&& final(self)@ == (RegistryState {
                    auditors: old(self)@.auditors.insert(auditor, true),
                    ..old(self)@
                })
            },
    {
        if caller != self.owner {
            return Err(Error::Unauthorized);
        }
        self.auditors.insert(auditor, true);
        Ok(())
    }

    /// Strikes an account off the auditors.
    pub fn remove_auditor(&mut self, caller: AccountId, auditor: AccountId) -> (result: Result<
        (),
        Error,
    >)
        requires
            old(self).wf(),
        ensures
            final(self).wf(),
            if caller != old(self)@.owner {
                result matches Err(refusal) && refusal == Error::Unauthorized && *final(self) == *old(self)
            } else {
                &&& result is Ok
                &&& final(self)@ == (RegistryState {
                    auditors: old(self)@.auditors.insert(auditor, false),
                    ..old(self)@
                })
            },
    {
        if caller != self.owner {
            return Err(Error::Unauthorized);
        }
        self.auditors.insert(auditor, false);
        Ok(())
    }

    /// Sets the ranges that new facilities start with.
    pub fn update_default_parameters(
        &mut self,
        caller: AccountId,
        parameters: CultivationParameters,
    ) -> (result: Result<(), Error>)
        requires
            old(self).wf(),
        ensures
            final(self).wf(),
            if caller != old(self)@.owner {
                result matches Err(refusal) && refusal == Error::Unauthorized && *final(self) == *old(self)
            } else if !parameters.spec_is_valid() {
                result matches Err(refusal) && refusal == Error::InvalidParameters && *final(self)
                    == *old(self)
            } else {
                &&& result is Ok
                &&& final(self)@ == (RegistryState { default_parameters: parameters, ..old(self)@ })
            },
    {
        if caller != self.owner {
            return Err(Error::Unauthorized);
        }
        if !parameters.is_valid_parameters() {
            return Err(Error::InvalidParameters);
        }
        self.default_parameters = parameters;
        Ok(())
    }

    /// Records that an authorized device was active at `now`.
    pub fn update_device_activity(&mut self, now: Timestamp, device_id: String) -> (result: Result<
        (),
        Error,
    >)
        requires
            old(self).wf(),
        ensures
            final(self).wf(),
            match spec_refuses_activity(old(self)@, device_id@) {
                Some(e) => result matches Err(refusal) && refusal == e && *final(self) == *old(self),
                None => {
                    let i = spec_device_index(old(self)@.devices, device_id@);
                    &&& result is Ok
                    &&& final(self)@ == (RegistryState {
                        devices: old(self)@.devices.update(
                            i,
                            TelemetryDevice { last_active: now, ..old(self)@.devices[i] },
                        ),
                        ..old(self)@
                    })
                },
            },
    {
        let i = match self.find_device(&device_id) {
            Some(i) => i,
            None => { return Err(Error::DeviceNotFound); },
        };
        if self.devices[i].status != DeviceStatus::Authorized {
            return Err(Error::DeviceNotAuthorized);
        }
        let mut device = self.devices.remove(i);
        device.last_active = now;
        proof {
            lemma_device_replaced(old(self)@.devices, i as int, device);
        }
        self.devices.insert(i, device);
        Ok(())
    }
}

} // verus!
