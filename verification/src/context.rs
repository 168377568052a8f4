//! The context in which a collector emits events: which endpoint, and which device.
use vstd::prelude::*;

use crate::endpoint::{
    copy_opt_string, opt_as_str, opt_str_view, opt_string_view, BmcAddr, BmcEndpoint,
    EndpointMetadata, MachineData, PowerShelfData, SwitchData, SwitchEndpointRole,
};
use crate::events::HealthReportTarget;

verus! {

/// The endpoint that a collector polls, as attached to the events it emits.
#[derive(Clone, Debug)]
pub struct EventContext {
    pub endpoint_key: String,
    pub addr: BmcAddr,
    pub collector_type: &'static str,
    pub metadata: Option<EndpointMetadata>,
    pub rack_id: Option<String>,
}

impl EventContext {
    /// The machine behind the endpoint, if it is one.
    pub open spec fn machine(self) -> Option<MachineData> {
        match self.metadata {
            Some(EndpointMetadata::Machine(m)) => Some(m),
            _ => None,
        }
    }

    /// The switch behind the endpoint, if it is one.
    pub open spec fn switch(self) -> Option<SwitchData> {
        match self.metadata {
            Some(EndpointMetadata::Switch(s)) => Some(s),
            _ => None,
        }
    }

    /// The power shelf behind the endpoint, if it is one.
    pub open spec fn power_shelf(self) -> Option<PowerShelfData> {
        match self.metadata {
            Some(EndpointMetadata::PowerShelf(p)) => Some(p),
            _ => None,
        }
    }

    /// The kind of object that health reports from this endpoint are about.
    pub open spec fn report_target(self) -> Option<HealthReportTarget> {
        match self.metadata {
            Some(EndpointMetadata::Machine(_)) => Some(HealthReportTarget::Machine),
            Some(EndpointMetadata::PowerShelf(_)) => Some(HealthReportTarget::PowerShelf),
            Some(EndpointMetadata::Switch(_)) => Some(HealthReportTarget::Switch),
            None => None,
        }
    }

    /// The context of events from `endpoint`, collected by a collector of the given type.
    pub fn from_endpoint(endpoint: &BmcEndpoint, collector_type: &'static str) -> (r: Self)
        ensures
            r.endpoint_key@ == endpoint.key_text(),
            r.endpoint_key@ == endpoint.addr.mac@,
            r.addr == endpoint.addr,
            r.collector_type == collector_type,
            r.metadata == endpoint.metadata,
            r.rack_id == endpoint.rack_id,
    {
        EventContext {
            endpoint_key: endpoint.key(),
            addr: endpoint.addr.copy(),
            collector_type,
            metadata: match &endpoint.metadata {
                Some(m) => Some(m.copy()),
                None => None,
            },
            rack_id: copy_opt_string(&endpoint.rack_id),
        }
    }

    pub fn endpoint_key(&self) -> (r: &str)
        ensures
            r@ == self.endpoint_key@,
    {
        self.endpoint_key.as_str()
    }

    pub fn machine_id(&self) -> (r: Option<String>)
        ensures
            self.metadata matches Some(EndpointMetadata::Machine(d)) ==> r == Some(d.machine_id),
            !(self.metadata matches Some(EndpointMetadata::Machine(_))) ==> r is None,
            r == (match self.machine() {
                Some(m) => Some(m.machine_id),
                None => None,
            }),
    {
        match &self.metadata {
            Some(EndpointMetadata::Machine(machine)) => Some(machine.machine_id.clone()),
            _ => None,
        }
    }

    pub fn slot_number(&self) -> (r: Option<i32>)
        ensures
            self.metadata matches Some(EndpointMetadata::Machine(d)) ==> r == d.slot_number,
            !(self.metadata matches Some(EndpointMetadata::Machine(_))) ==> r is None,
            r == (match self.machine() {
                Some(m) => m.slot_number,
                None => None,
            }),
    {
        match &self.metadata {
            Some(EndpointMetadata::Machine(machine)) => machine.slot_number,
            _ => None,
        }
    }

    pub fn tray_index(&self) -> (r: Option<i32>)
        ensures
            self.metadata matches Some(EndpointMetadata::Machine(d)) ==> r == d.tray_index,
            !(self.metadata matches Some(EndpointMetadata::Machine(_))) ==> r is None,
            r == (match self.machine() {
                Some(m) => m.tray_index,
                None => None,
            }),
    {
        match &self.metadata {
            Some(EndpointMetadata::Machine(machine)) => machine.tray_index,
            _ => None,
        }
    }

    pub fn nvlink_domain_uuid(&self) -> (r: Option<String>)
        ensures
            self.metadata matches Some(EndpointMetadata::Machine(d)) ==> r == d.nvlink_domain_uuid,
            !(self.metadata matches Some(EndpointMetadata::Machine(_))) ==> r is None,
            r == (match self.machine() {
                Some(m) => m.nvlink_domain_uuid,
                None => None,
            }),
    {
        match &self.metadata {
            Some(EndpointMetadata::Machine(machine)) => copy_opt_string(&machine.nvlink_domain_uuid),
            _ => None,
        }
    }

    pub fn switch_id(&self) -> (r: Option<String>)
        ensures
            self.metadata matches Some(EndpointMetadata::Switch(d)) ==> r == d.id,
            !(self.metadata matches Some(EndpointMetadata::Switch(_))) ==> r is None,
            r == (match self.switch() {
                Some(s) => s.id,
                None => None,
            }),
    {
        match &self.metadata {
            Some(EndpointMetadata::Switch(switch)) => copy_opt_string(&switch.id),
            _ => None,
        }
    }

    pub fn switch_serial(&self) -> (r: Option<&str>)
        ensures
            self.metadata matches Some(EndpointMetadata::Switch(d)) ==> opt_str_view(r) == Some(d.serial@),
            !(self.metadata matches Some(EndpointMetadata::Switch(_))) ==> r is None,
            opt_str_view(r) == (match self.switch() {
                Some(s) => Some(s.serial@),
                None => None,
            }),
    {
        match &self.metadata {
            Some(EndpointMetadata::Switch(switch)) => Some(switch.serial.as_str()),
            _ => None,
        }
    }

    pub fn switch_endpoint_role(&self) -> (r: Option<SwitchEndpointRole>)
        ensures
            self.metadata matches Some(EndpointMetadata::Switch(d)) ==> r == Some(d.endpoint_role),
            !(self.metadata matches Some(EndpointMetadata::Switch(_))) ==> r is None,
            r == (match self.switch() {
                Some(s) => Some(s.endpoint_role),
                None => None,
            }),
    {
        match &self.metadata {
            Some(EndpointMetadata::Switch(switch)) => Some(switch.endpoint_role),
            _ => None,
        }
    }

    pub fn switch_is_primary(&self) -> (r: Option<bool>)
        ensures
            self.metadata matches Some(EndpointMetadata::Switch(d)) ==> r == Some(d.is_primary),
            !(self.metadata matches Some(EndpointMetadata::Switch(_))) ==> r is None,
            r == (match self.switch() {
                Some(s) => Some(s.is_primary),
                None => None,
            }),
    {
        match &self.metadata {
            Some(EndpointMetadata::Switch(switch)) => Some(switch.is_primary),
            _ => None,
        }
    }

    pub fn switch_slot_number(&self) -> (r: Option<i32>)
        ensures
            self.metadata matches Some(EndpointMetadata::Switch(d)) ==> r == d.slot_number,
            !(self.metadata matches Some(EndpointMetadata::Switch(_))) ==> r is None,
            r == (match self.switch() {
                Some(s) => s.slot_number,
                None => None,
            }),
    {
        match &self.metadata {
            Some(EndpointMetadata::Switch(switch)) => switch.slot_number,
            _ => None,
        }
    }

    pub fn switch_tray_index(&self) -> (r: Option<i32>)
        ensures
            self.metadata matches Some(EndpointMetadata::Switch(d)) ==> r == d.tray_index,
            !(self.metadata matches Some(EndpointMetadata::Switch(_))) ==> r is None,
            r == (match self.switch() {
                Some(s) => s.tray_index,
                None => None,
            }),
    {
        match &self.metadata {
            Some(EndpointMetadata::Switch(switch)) => switch.tray_index,
            _ => None,
        }
    }

    pub fn power_shelf_id(&self) -> (r: Option<String>)
        ensures
            self.metadata matches Some(EndpointMetadata::PowerShelf(d)) ==> r == d.id,
            !(self.metadata matches Some(EndpointMetadata::PowerShelf(_))) ==> r is None,
            r == (match self.power_shelf() {
                Some(p) => p.id,
                None => None,
            }),
    {
        match &self.metadata {
            Some(EndpointMetadata::PowerShelf(power_shelf)) => copy_opt_string(&power_shelf.id),
            _ => None,
        }
    }

    pub fn health_report_target(&self) -> (r: Option<HealthReportTarget>)
        ensures
            r == self.report_target(),
            self.metadata matches Some(EndpointMetadata::Machine(_)) ==> r == Some(
                HealthReportTarget::Machine,
            ),
            self.metadata matches Some(EndpointMetadata::Switch(_)) ==> r == Some(
                HealthReportTarget::Switch,
            ),
            self.metadata matches Some(EndpointMetadata::PowerShelf(_)) ==> r == Some(
                HealthReportTarget::PowerShelf,
            ),
            self.metadata is None ==> r is None,
    {
        match &self.metadata {
            Some(EndpointMetadata::Machine(_)) => Some(HealthReportTarget::Machine),
            Some(EndpointMetadata::PowerShelf(_)) => Some(HealthReportTarget::PowerShelf),
            Some(EndpointMetadata::Switch(_)) => Some(HealthReportTarget::Switch),
            None => None,
        }
    }

    pub fn serial_number(&self) -> (r: Option<&str>)
        ensures
            self.metadata matches Some(EndpointMetadata::Switch(d)) ==> r is Some && r->0@
                == d.serial@,
            self.metadata matches Some(EndpointMetadata::PowerShelf(d)) ==> r is Some && r->0@
                == d.serial@,
            self.metadata matches Some(EndpointMetadata::Machine(d)) ==> (r is Some
                <==> d.machine_serial is Some) && (r is Some ==> r->0@ == d.machine_serial->0@),
            self.metadata is None ==> r is None,
            opt_str_view(r) == (match self.metadata {
                Some(m) => m.serial(),
                None => None,
            }),
    {
        match &self.metadata {
            Some(m) => m.serial_number(),
            None => None,
        }
    }

    pub fn rack_id(&self) -> (r: Option<&str>)
        ensures
            (r is Some <==> self.rack_id is Some) && (r is Some ==> r->0@ == self.rack_id->0@),
            opt_str_view(r) == opt_string_view(self.rack_id),
    {
        opt_as_str(&self.rack_id)
    }
}

/// At most one kind of device stands behind an endpoint, and the health-report target
/// names it: a machine for the machine accessors, a switch for the switch accessors, a
/// power shelf for the power-shelf accessor, and no target when nothing is known.
pub proof fn lemma_target_names_the_device(c: EventContext)
    ensures
        c.machine() is Some <==> c.report_target() == Some(HealthReportTarget::Machine),
        c.switch() is Some <==> c.report_target() == Some(HealthReportTarget::Switch),
        c.power_shelf() is Some <==> c.report_target() == Some(HealthReportTarget::PowerShelf),
        c.report_target() is None <==> c.metadata is None,
        c.report_target() != Some(HealthReportTarget::Rack),
        (c.machine() is Some) as int + (c.switch() is Some) as int + (c.power_shelf() is Some) as int
            <= 1,
{
}

/// The serial number of a switch or a power shelf is always known; a machine's is the
/// machine serial, when there is one.
pub proof fn lemma_serial_number_of_device(c: EventContext)
    ensures
        c.switch() is Some ==> c.metadata->0.serial() == Some(c.switch()->0.serial@),
        c.power_shelf() is Some ==> c.metadata->0.serial() == Some(c.power_shelf()->0.serial@),
        c.machine() is Some ==> c.metadata->0.serial() == opt_string_view(
            c.machine()->0.machine_serial,
        ),
{
}

/// The device facts that the accessors report are those of the metadata itself: for a
/// machine, switch or power shelf behind the endpoint, that device's data, unchanged, and
/// nothing for the other kinds.
pub proof fn lemma_device_is_the_metadata(c: EventContext)
    ensures
        c.metadata matches Some(EndpointMetadata::Machine(m)) ==> c.machine() == Some(m)
            && c.switch() is None && c.power_shelf() is None,
        c.metadata matches Some(EndpointMetadata::Switch(s)) ==> c.switch() == Some(s)
            && c.machine() is None && c.power_shelf() is None,
        c.metadata matches Some(EndpointMetadata::PowerShelf(p)) ==> c.power_shelf() == Some(p)
            && c.machine() is None && c.switch() is None,
        c.metadata is None ==> c.machine() is None && c.switch() is None && c.power_shelf() is None,
{
}

} // verus!
