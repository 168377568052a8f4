use chrono::{TimeZone, Utc};
use health_routing::context::EventContext;
use health_routing::endpoint::{
    BmcAddr, BmcEndpoint, EndpointMetadata, MachineData, PowerShelfData, SwitchData,
    SwitchEndpointRole,
};
use health_routing::events::{
    Classification, HealthReport, HealthReportAlert, HealthReportSuccess, HealthReportTarget,
    OutboundAlert, OutboundClassification, Probe, ReportSource, UtcTimestamp,
};

const MACHINE_ID: &str = "fm100ht038bg3qsho433vkg684heguv282qaggmrsh2ugn1qk096n2c6hcg";
const SWITCH_ID: &str = "sw100nt038bg3qsho433vkg684heguv282qaggmrsh2ugn1qk096n2c6hcg";
const POWER_SHELF_ID: &str = "ps100ht038bg3qsho433vkg684heguv282qaggmrsh2ugn1qk096n2c6hcg";
const NVLINK_DOMAIN_ID: &str = "00000000-0000-0000-0000-000000000000";

fn classification_name(c: &OutboundClassification) -> String {
    match c {
        OutboundClassification::Reported(c) => c.as_str().to_string(),
        OutboundClassification::Hardware => "Hardware".to_string(),
    }
}

#[derive(Debug, PartialEq)]
struct AlertSummary {
    id: String,
    target: Option<String>,
    message: String,
    tenant_message: Option<String>,
    in_alert_since: bool,
    classifications: Vec<String>,
}

fn summarize_alert(alert: OutboundAlert) -> AlertSummary {
    AlertSummary {
        id: alert.id.as_str().to_string(),
        target: alert.target,
        message: alert.message,
        tenant_message: alert.tenant_message,
        in_alert_since: alert.in_alert_since.is_some(),
        classifications: alert.classifications.iter().map(classification_name).collect(),
    }
}

#[test]
fn report_source_strings() {
    let cases = [
        ("BMC sensors", ReportSource::BmcSensors, "bmc-sensors"),
        ("BMC leak detectors", ReportSource::BmcLeakDetectors, "bmc-leak-detectors"),
        ("tray leak detection", ReportSource::TrayLeakDetection, "tray-leak-detection"),
        ("rack leak detection", ReportSource::RackLeakDetection, "rack-leak-detection"),
    ];
    for (scenario, input, expect) in cases {
        assert_eq!(input.as_str(), expect, "{scenario}");
    }
}

#[test]
fn probe_conversions() {
    let cases = [
        ("sensor", Probe::Sensor, "BmcSensor", "BmcSensor"),
        ("leak detection", Probe::LeakDetection, "BmcLeakDetection", "BmcLeakDetection"),
    ];
    for (scenario, probe, as_str, health_report_id) in cases {
        let converted = HealthReportSuccess { probe_id: probe, target: None }.to_outbound();
        assert_eq!(probe.as_str(), as_str, "{scenario}");
        assert_eq!(converted.id.as_str().to_string(), health_report_id.to_string(), "{scenario}");
    }
}

#[test]
fn classification_conversions() {
    let cases = [
        ("sensor ok", Classification::SensorOk, "SensorOk"),
        ("sensor warning", Classification::SensorWarning, "SensorWarning"),
        ("sensor critical", Classification::SensorCritical, "SensorCritical"),
        ("sensor fatal", Classification::SensorFatal, "SensorFatal"),
        ("sensor failure", Classification::SensorFailure, "SensorFailure"),
        ("leak", Classification::Leak, "Leak"),
        ("leak detector", Classification::LeakDetector, "LeakDetector"),
    ];
    for (scenario, classification, expect) in cases {
        let alert = HealthReportAlert {
            probe_id: Probe::Sensor,
            target: None,
            message: String::new(),
            classifications: vec![classification],
        };
        let converted = alert.to_outbound();
        assert_eq!(classification.as_str(), expect, "{scenario}");
        assert_eq!(classification_name(&converted.classifications[0]), expect.to_string(), "{scenario}");
    }
}

#[test]
fn health_report_is_empty_cases() {
    let empty = HealthReport {
        source: ReportSource::BmcSensors,
        target: Some(HealthReportTarget::Machine),
        observed_at: None,
        successes: vec![],
        alerts: vec![],
    };
    let success = HealthReport {
        successes: vec![HealthReportSuccess { probe_id: Probe::Sensor, target: None }],
        ..empty.clone()
    };
    let alert = HealthReport {
        alerts: vec![HealthReportAlert {
            probe_id: Probe::Sensor,
            target: None,
            message: "alert".to_string(),
            classifications: vec![],
        }],
        ..empty.clone()
    };
    assert!(empty.is_empty(), "empty report");
    assert!(!success.is_empty(), "success report");
    assert!(!alert.is_empty(), "alert report");
}

#[test]
fn health_report_success_conversion() {
    let cases = [
        (
            "success with target",
            HealthReportSuccess { probe_id: Probe::Sensor, target: Some("fan0".to_string()) },
            ("BmcSensor".to_string(), Some("fan0".to_string())),
        ),
        (
            "success without target",
            HealthReportSuccess { probe_id: Probe::LeakDetection, target: None },
            ("BmcLeakDetection".to_string(), None),
        ),
    ];
    for (scenario, success, expect) in cases {
        let converted = success.to_outbound();
        assert_eq!((converted.id.as_str().to_string(), converted.target), expect, "{scenario}");
    }
}

#[test]
fn health_report_alert_conversion() {
    let with_target = HealthReportAlert {
        probe_id: Probe::Sensor,
        target: Some("fan0".to_string()),
        message: "fan warning".to_string(),
        classifications: vec![Classification::SensorWarning, Classification::SensorFailure],
    };
    let without_classifications = HealthReportAlert {
        probe_id: Probe::LeakDetection,
        target: None,
        message: "rack leak".to_string(),
        classifications: vec![],
    };
    assert_eq!(
        summarize_alert(with_target.to_outbound()),
        AlertSummary {
            id: "BmcSensor".to_string(),
            target: Some("fan0".to_string()),
            message: "fan warning".to_string(),
            tenant_message: None,
            in_alert_since: false,
            classifications: vec![
                "SensorWarning".to_string(),
                "SensorFailure".to_string(),
                "Hardware".to_string(),
            ],
        },
        "alert with target"
    );
    assert_eq!(
        summarize_alert(without_classifications.to_outbound()),
        AlertSummary {
            id: "BmcLeakDetection".to_string(),
            target: None,
            message: "rack leak".to_string(),
            tenant_message: None,
            in_alert_since: false,
            classifications: vec!["Hardware".to_string()],
        },
        "alert without classifications"
    );
}

fn timestamp(at: chrono::DateTime<Utc>) -> UtcTimestamp {
    UtcTimestamp { secs: at.timestamp(), nanos: at.timestamp_subsec_nanos() }
}

#[test]
fn health_report_conversion() {
    let observed_at = Utc
        .with_ymd_and_hms(2026, 1, 2, 3, 4, 5)
        .single()
        .expect("valid timestamp");
    for (scenario, target) in [
        ("report with success, alert, and rack target", Some(HealthReportTarget::Rack)),
        ("report with success and alert but no report target", None),
    ] {
        let report = HealthReport {
            source: ReportSource::RackLeakDetection,
            target,
            observed_at: Some(timestamp(observed_at)),
            successes: vec![HealthReportSuccess {
                probe_id: Probe::LeakDetection,
                target: Some("tray-1".to_string()),
            }],
            alerts: vec![HealthReportAlert {
                probe_id: Probe::Sensor,
                target: Some("temp0".to_string()),
                message: "temperature critical".to_string(),
                classifications: vec![Classification::SensorCritical],
            }],
        };
        let converted = report.to_outbound();
        assert_eq!(converted.source, "hardware-health.rack-leak-detection", "{scenario}");
        assert_eq!(converted.triggered_by, None, "{scenario}");
        assert_eq!(
            converted.observed_at,
            Utc.with_ymd_and_hms(2026, 1, 2, 3, 4, 5).single().map(timestamp),
            "{scenario}"
        );
        let successes: Vec<(String, Option<String>)> = converted
            .successes
            .into_iter()
            .map(|s| (s.id.as_str().to_string(), s.target))
            .collect();
        assert_eq!(
            successes,
            vec![("BmcLeakDetection".to_string(), Some("tray-1".to_string()))],
            "{scenario}"
        );
        let alerts: Vec<AlertSummary> = converted.alerts.into_iter().map(summarize_alert).collect();
        assert_eq!(
            alerts,
            vec![AlertSummary {
                id: "BmcSensor".to_string(),
                target: Some("temp0".to_string()),
                message: "temperature critical".to_string(),
                tenant_message: None,
                in_alert_since: false,
                classifications: vec!["SensorCritical".to_string(), "Hardware".to_string()],
            }],
            "{scenario}"
        );
    }
}

#[test]
fn every_source_gets_hardware_health_prefix() {
    for source in [
        ReportSource::BmcSensors,
        ReportSource::BmcLeakDetectors,
        ReportSource::TrayLeakDetection,
        ReportSource::RackLeakDetection,
    ] {
        let report = HealthReport {
            source,
            target: None,
            observed_at: None,
            successes: vec![],
            alerts: vec![],
        };
        let converted = report.to_outbound();
        assert_eq!(converted.source, format!("hardware-health.{}", source.as_str()));
        assert!(converted.successes.is_empty() && converted.alerts.is_empty());
        assert_eq!(converted.observed_at, None);
    }
}

#[derive(Clone, Copy)]
enum ContextKind {
    Empty,
    Machine,
    Switch,
    PowerShelf,
}

#[derive(Debug, PartialEq)]
struct ContextSummary {
    endpoint_key: String,
    machine_id: Option<String>,
    slot_number: Option<i32>,
    tray_index: Option<i32>,
    nvlink_domain_uuid: Option<String>,
    switch_id: Option<String>,
    switch_serial: Option<String>,
    switch_endpoint_role: Option<SwitchEndpointRole>,
    switch_is_primary: Option<bool>,
    switch_slot_number: Option<i32>,
    switch_tray_index: Option<i32>,
    power_shelf_id: Option<String>,
    health_report_target: Option<HealthReportTarget>,
    serial_number: Option<String>,
    rack_id: Option<String>,
}

fn addr() -> BmcAddr {
    BmcAddr { ip: "10.0.0.1".to_string(), port: Some(443), mac: "00:11:22:33:44:55".to_string() }
}

fn metadata(kind: ContextKind) -> Option<EndpointMetadata> {
    match kind {
        ContextKind::Empty => None,
        ContextKind::Machine => Some(EndpointMetadata::Machine(MachineData {
            machine_id: MACHINE_ID.to_string(),
            machine_serial: Some("MN-001".to_string()),
            slot_number: Some(7),
            tray_index: Some(3),
            nvlink_domain_uuid: Some(NVLINK_DOMAIN_ID.to_string()),
        })),
        ContextKind::Switch => Some(EndpointMetadata::Switch(SwitchData {
            id: Some(SWITCH_ID.to_string()),
            serial: "SW-001".to_string(),
            slot_number: Some(9),
            tray_index: Some(4),
            endpoint_role: SwitchEndpointRole::Host,
            is_primary: true,
            nmxt_enabled: true,
        })),
        ContextKind::PowerShelf => Some(EndpointMetadata::PowerShelf(PowerShelfData {
            id: Some(POWER_SHELF_ID.to_string()),
            serial: "PS-001".to_string(),
        })),
    }
}

fn context(kind: ContextKind) -> EventContext {
    EventContext {
        endpoint_key: "00:11:22:33:44:55".to_string(),
        addr: addr(),
        collector_type: "unit-test",
        metadata: metadata(kind),
        rack_id: Some("rack-1".to_string()),
    }
}

fn summarize_context(context: EventContext) -> ContextSummary {
    ContextSummary {
        endpoint_key: context.endpoint_key().to_string(),
        machine_id: context.machine_id(),
        slot_number: context.slot_number(),
        tray_index: context.tray_index(),
        nvlink_domain_uuid: context.nvlink_domain_uuid(),
        switch_id: context.switch_id(),
        switch_serial: context.switch_serial().map(str::to_string),
        switch_endpoint_role: context.switch_endpoint_role(),
        switch_is_primary: context.switch_is_primary(),
        switch_slot_number: context.switch_slot_number(),
        switch_tray_index: context.switch_tray_index(),
        power_shelf_id: context.power_shelf_id(),
        health_report_target: context.health_report_target(),
        serial_number: context.serial_number().map(str::to_string),
        rack_id: context.rack_id().map(str::to_string),
    }
}

fn empty_summary() -> ContextSummary {
    ContextSummary {
        endpoint_key: "00:11:22:33:44:55".to_string(),
        machine_id: None,
        slot_number: None,
        tray_index: None,
        nvlink_domain_uuid: None,
        switch_id: None,
        switch_serial: None,
        switch_endpoint_role: None,
        switch_is_primary: None,
        switch_slot_number: None,
        switch_tray_index: None,
        power_shelf_id: None,
        health_report_target: None,
        serial_number: None,
        rack_id: Some("rack-1".to_string()),
    }
}

#[test]
fn event_context_accessors() {
    let cases = [
        ("empty metadata", ContextKind::Empty, empty_summary()),
        (
            "machine metadata",
            ContextKind::Machine,
            ContextSummary {
                machine_id: Some(MACHINE_ID.to_string()),
                slot_number: Some(7),
                tray_index: Some(3),
                nvlink_domain_uuid: Some(NVLINK_DOMAIN_ID.to_string()),
                health_report_target: Some(HealthReportTarget::Machine),
                serial_number: Some("MN-001".to_string()),
                ..empty_summary()
            },
        ),
        (
            "switch metadata",
            ContextKind::Switch,
            ContextSummary {
                switch_id: Some(SWITCH_ID.to_string()),
                switch_serial: Some("SW-001".to_string()),
                switch_endpoint_role: Some(SwitchEndpointRole::Host),
                switch_is_primary: Some(true),
                switch_slot_number: Some(9),
                switch_tray_index: Some(4),
                health_report_target: Some(HealthReportTarget::Switch),
                serial_number: Some("SW-001".to_string()),
                ..empty_summary()
            },
        ),
        (
            "power shelf metadata",
            ContextKind::PowerShelf,
            ContextSummary {
                power_shelf_id: Some(POWER_SHELF_ID.to_string()),
                health_report_target: Some(HealthReportTarget::PowerShelf),
                serial_number: Some("PS-001".to_string()),
                ..empty_summary()
            },
        ),
    ];
    for (scenario, kind, expect) in cases {
        assert_eq!(summarize_context(context(kind)), expect, "{scenario}");
    }
}

#[test]
fn context_from_endpoint_copies_endpoint() {
    let endpoint = BmcEndpoint {
        addr: addr(),
        metadata: metadata(ContextKind::Switch),
        rack_id: Some("rack-7".to_string()),
    };
    let context = EventContext::from_endpoint(&endpoint, "sensors");
    assert_eq!(context.endpoint_key(), "00:11:22:33:44:55");
    assert_eq!(context.collector_type, "sensors");
    assert_eq!(context.addr.ip, "10.0.0.1");
    assert_eq!(context.addr.port, Some(443));
    assert_eq!(context.rack_id(), Some("rack-7"));
    assert_eq!(context.switch_serial(), Some("SW-001"));
    assert_eq!(context.health_report_target(), Some(HealthReportTarget::Switch));
    let bare = BmcEndpoint { addr: addr(), metadata: None, rack_id: None };
    let context = EventContext::from_endpoint(&bare, "logs");
    assert_eq!(context.rack_id(), None);
    assert_eq!(context.serial_number(), None);
    assert_eq!(context.health_report_target(), None);
}

#[test]
fn machine_without_serial_has_no_serial_number() {
    let mut c = context(ContextKind::Machine);
    if let Some(EndpointMetadata::Machine(m)) = c.metadata.as_mut() {
        m.machine_serial = None;
    }
    assert_eq!(c.serial_number(), None);
    assert_eq!(c.machine_id(), Some(MACHINE_ID.to_string()));
}

#[test]
fn names_are_distinct() {
    let sources = [
        ReportSource::BmcSensors,
        ReportSource::BmcLeakDetectors,
        ReportSource::TrayLeakDetection,
        ReportSource::RackLeakDetection,
    ];
    for a in sources {
        for b in sources {
            assert_eq!(a == b, a.as_str() == b.as_str());
        }
    }
    assert_ne!(Probe::Sensor.as_str(), Probe::LeakDetection.as_str());
    let classifications = [
        Classification::SensorOk,
        Classification::SensorWarning,
        Classification::SensorCritical,
        Classification::SensorFatal,
        Classification::SensorFailure,
        Classification::Leak,
        Classification::LeakDetector,
    ];
    for a in classifications {
        for b in classifications {
            assert_eq!(a == b, a.as_str() == b.as_str());
        }
    }
}

#[test]
fn hardware_marker_is_last_and_single() {
    let alert = HealthReportAlert {
        probe_id: Probe::LeakDetection,
        target: None,
        message: "leak".to_string(),
        classifications: vec![Classification::Leak, Classification::LeakDetector, Classification::Leak],
    };
    let converted = alert.to_outbound();
    assert_eq!(
        converted.classifications,
        vec![
            OutboundClassification::Reported(Classification::Leak),
            OutboundClassification::Reported(Classification::LeakDetector),
            OutboundClassification::Reported(Classification::Leak),
            OutboundClassification::Hardware,
        ]
    );
}
