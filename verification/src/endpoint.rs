//! The BMC endpoints that collectors poll, and what is known of the device behind each.
//!
//! Identifiers (machine, switch, power shelf, NVLink domain, rack) are held in their
//! canonical text form.
use vstd::prelude::*;

verus! {

/// The role of a switch endpoint.
#[derive(Clone, Copy, Debug, PartialEq, Eq, Structural, Hash)]
pub enum SwitchEndpointRole {
    Host,
}

/// Where a BMC is reached: its IP address and MAC address in text form, and its port.
#[derive(Clone, Debug)]
pub struct BmcAddr {
    pub ip: String,
    pub port: Option<u16>,
    pub mac: String,
}

/// What is known of a machine behind a BMC.
#[derive(Clone, Debug)]
pub struct MachineData {
    pub machine_id: String,
    pub machine_serial: Option<String>,
    pub slot_number: Option<i32>,
    pub tray_index: Option<i32>,
    pub nvlink_domain_uuid: Option<String>,
}

/// What is known of a switch behind a BMC.
#[derive(Clone, Debug)]
pub struct SwitchData {
    pub id: Option<String>,
    pub serial: String,
    pub slot_number: Option<i32>,
    pub tray_index: Option<i32>,
    pub endpoint_role: SwitchEndpointRole,
    pub is_primary: bool,
    pub nmxt_enabled: bool,
}

/// What is known of a power shelf behind a BMC.
#[derive(Clone, Debug)]
pub struct PowerShelfData {
    pub id: Option<String>,
    pub serial: String,
}

/// The device behind a BMC endpoint.
#[derive(Clone, Debug)]
pub enum EndpointMetadata {
    Machine(MachineData),
    Switch(SwitchData),
    PowerShelf(PowerShelfData),
}

/// A BMC endpoint: its address, the device behind it when known, and its rack.
#[derive(Clone, Debug)]
pub struct BmcEndpoint {
    pub addr: BmcAddr,
    pub metadata: Option<EndpointMetadata>,
    pub rack_id: Option<String>,
}

/// The text of an optional borrowed string.
pub open spec fn opt_str_view(o: Option<&str>) -> Option<Seq<char>> {
    match o {
        Some(s) => Some(s@),
        None => None,
    }
}

/// The text of an optional string.
pub open spec fn opt_string_view(o: Option<String>) -> Option<Seq<char>> {
    match o {
        Some(s) => Some(s@),
        None => None,
    }
}

/// Copies an optional string.
pub fn copy_opt_string(o: &Option<String>) -> (r: Option<String>)
    ensures
        r == *o,
{
    match o {
        Some(s) => Some(s.clone()),
        None => None,
    }
}

/// Borrows the text of an optional string.
pub fn opt_as_str(o: &Option<String>) -> (r: Option<&str>)
    ensures
        opt_str_view(r) == opt_string_view(*o),
{
    match o {
        Some(s) => Some(s.as_str()),
        None => None,
    }
}

impl BmcAddr {
    /// A copy of this address.
    pub fn copy(&self) -> (r: BmcAddr)
        ensures
            r == *self,
    {
        BmcAddr { ip: self.ip.clone(), port: self.port, mac: self.mac.clone() }
    }
}

impl EndpointMetadata {
    /// The serial number of the device.
    pub open spec fn serial(self) -> Option<Seq<char>> {
        match self {
            EndpointMetadata::Machine(m) => opt_string_view(m.machine_serial),
            EndpointMetadata::Switch(s) => Some(s.serial@),
            EndpointMetadata::PowerShelf(p) => Some(p.serial@),
        }
    }

    pub fn serial_number(&self) -> (r: Option<&str>)
        ensures
            opt_str_view(r) == self.serial(),
    {
        match self {
            EndpointMetadata::Machine(m) => opt_as_str(&m.machine_serial),
            EndpointMetadata::Switch(s) => Some(s.serial.as_str()),
            EndpointMetadata::PowerShelf(p) => Some(p.serial.as_str()),
        }
    }

    /// A copy of this metadata.
    pub fn copy(&self) -> (r: EndpointMetadata)
        ensures
            r == *self,
    {
        match self {
            EndpointMetadata::Machine(m) => EndpointMetadata::Machine(
                MachineData {
                    machine_id: m.machine_id.clone(),
                    machine_serial: copy_opt_string(&m.machine_serial),
                    slot_number: m.slot_number,
                    tray_index: m.tray_index,
                    nvlink_domain_uuid: copy_opt_string(&m.nvlink_domain_uuid),
                },
            ),
            EndpointMetadata::Switch(s) => EndpointMetadata::Switch(
                SwitchData {
                    id: copy_opt_string(&s.id),
                    serial: s.serial.clone(),
                    slot_number: s.slot_number,
                    tray_index: s.tray_index,
                    endpoint_role: s.endpoint_role,
                    is_primary: s.is_primary,
                    nmxt_enabled: s.nmxt_enabled,
                },
            ),
            EndpointMetadata::PowerShelf(p) => EndpointMetadata::PowerShelf(
                PowerShelfData { id: copy_opt_string(&p.id), serial: p.serial.clone() },
            ),
        }
    }
}

impl BmcEndpoint {
    /// The key of the endpoint: its BMC's MAC address.
    pub open spec fn key_text(self) -> Seq<char> {
        self.addr.mac@
    }

    pub fn key(&self) -> (r: String)
        ensures
            r@ == self.key_text(),
    {
        self.addr.mac.clone()
    }
}

} // verus!
