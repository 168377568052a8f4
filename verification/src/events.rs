//! Records that hardware-health collectors emit, and the outbound form of a health report.
use vstd::prelude::*;
use vstd::string::*;

use crate::endpoint::{copy_opt_string, opt_string_view};

verus! {

/// The kind of object that a health report is about.
#[derive(Clone, Copy, Debug, PartialEq, Eq, Structural, Hash)]
pub enum HealthReportTarget {
    Machine,
    PowerShelf,
    Rack,
    Switch,
}

/// Which collector produced a health report.
#[derive(Clone, Copy, Debug, PartialEq, Eq, Structural, Hash)]
pub enum ReportSource {
    BmcSensors,
    BmcLeakDetectors,
    TrayLeakDetection,
    RackLeakDetection,
}

impl ReportSource {
    /// The name of the source.
    pub open spec fn name(self) -> Seq<char> {
        match self {
            ReportSource::BmcSensors => "bmc-sensors"@,
            ReportSource::BmcLeakDetectors => "bmc-leak-detectors"@,
            ReportSource::TrayLeakDetection => "tray-leak-detection"@,
            ReportSource::RackLeakDetection => "rack-leak-detection"@,
        }
    }

    pub fn as_str(self) -> (s: &'static str)
        ensures
            s@ == self.name(),
            self == ReportSource::BmcSensors ==> s@ == "bmc-sensors"@,
            self == ReportSource::BmcLeakDetectors ==> s@ == "bmc-leak-detectors"@,
            self == ReportSource::TrayLeakDetection ==> s@ == "tray-leak-detection"@,
            self == ReportSource::RackLeakDetection ==> s@ == "rack-leak-detection"@,
    {
        match self {
            ReportSource::BmcSensors => "bmc-sensors",
            ReportSource::BmcLeakDetectors => "bmc-leak-detectors",
            ReportSource::TrayLeakDetection => "tray-leak-detection",
            ReportSource::RackLeakDetection => "rack-leak-detection",
        }
    }
}

/// The health probe that a success or an alert is reported under.
#[derive(Clone, Copy, Debug, PartialEq, Eq, Structural, Hash)]
pub enum Probe {
    Sensor,
    LeakDetection,
}

impl Probe {
    /// The probe's identifier.
    pub open spec fn name(self) -> Seq<char> {
        match self {
            Probe::Sensor => "BmcSensor"@,
            Probe::LeakDetection => "BmcLeakDetection"@,
        }
    }

    pub fn as_str(self) -> (s: &'static str)
        ensures
            s@ == self.name(),
            self == Probe::Sensor ==> s@ == "BmcSensor"@,
            self == Probe::LeakDetection ==> s@ == "BmcLeakDetection"@,
    {
        match self {
            Probe::Sensor => "BmcSensor",
            Probe::LeakDetection => "BmcLeakDetection",
        }
    }
}

/// How an alert is classified.
#[derive(Clone, Copy, Debug, PartialEq, Eq, Structural, Hash)]
pub enum Classification {
    SensorOk,
    SensorWarning,
    SensorCritical,
    SensorFatal,
    SensorFailure,
    Leak,
    LeakDetector,
}

impl Classification {
    /// The classification's name.
    pub open spec fn name(self) -> Seq<char> {
        match self {
            Classification::SensorOk => "SensorOk"@,
            Classification::SensorWarning => "SensorWarning"@,
            Classification::SensorCritical => "SensorCritical"@,
            Classification::SensorFatal => "SensorFatal"@,
            Classification::SensorFailure => "SensorFailure"@,
            Classification::Leak => "Leak"@,
            Classification::LeakDetector => "LeakDetector"@,
        }
    }

    pub fn as_str(self) -> (s: &'static str)
        ensures
            s@ == self.name(),
            self == Classification::SensorOk ==> s@ == "SensorOk"@,
            self == Classification::SensorWarning ==> s@ == "SensorWarning"@,
            self == Classification::SensorCritical ==> s@ == "SensorCritical"@,
            self == Classification::SensorFatal ==> s@ == "SensorFatal"@,
            self == Classification::SensorFailure ==> s@ == "SensorFailure"@,
            self == Classification::Leak ==> s@ == "Leak"@,
            self == Classification::LeakDetector ==> s@ == "LeakDetector"@,
    {
        match self {
            Classification::SensorOk => "SensorOk",
            Classification::SensorWarning => "SensorWarning",
            Classification::SensorCritical => "SensorCritical",
            Classification::SensorFatal => "SensorFatal",
            Classification::SensorFailure => "SensorFailure",
            Classification::Leak => "Leak",
            Classification::LeakDetector => "LeakDetector",
        }
    }
}

/// A point in time in UTC: whole seconds since the Unix epoch, and nanoseconds past them.
#[derive(Clone, Copy, Debug, PartialEq, Eq, Structural, Hash)]
pub struct UtcTimestamp {
    pub secs: i64,
    pub nanos: u32,
}

/// A label attached to a metric sample, a log record or firmware information.
#[derive(Clone, Debug)]
pub struct MetricLabel {
    pub key: String,
    pub value: String,
}

/// A log line read from a BMC.
#[derive(Clone, Debug)]
pub struct LogRecord {
    pub body: String,
    pub severity: String,
    pub attributes: Vec<MetricLabel>,
}

/// The version of a firmware component.
#[derive(Clone, Debug)]
pub struct FirmwareInfo {
    pub component: String,
    pub version: String,
    pub attributes: Vec<MetricLabel>,
}

/// A probe that passed.
#[derive(Clone, Debug)]
pub struct HealthReportSuccess {
    pub probe_id: Probe,
    pub target: Option<String>,
}

/// A probe that raised an alert.
#[derive(Clone, Debug)]
pub struct HealthReportAlert {
    pub probe_id: Probe,
    pub target: Option<String>,
    pub message: String,
    pub classifications: Vec<Classification>,
}

/// The outcome of one round of health probes.
#[derive(Clone, Debug)]
pub struct HealthReport {
    pub source: ReportSource,
    pub target: Option<HealthReportTarget>,
    pub observed_at: Option<UtcTimestamp>,
    pub successes: Vec<HealthReportSuccess>,
    pub alerts: Vec<HealthReportAlert>,
}

impl HealthReport {
    /// The report holds neither a success nor an alert.
    pub open spec fn empty(self) -> bool {
        self.successes@.len() == 0 && self.alerts@.len() == 0
    }

    pub fn is_empty(&self) -> (r: bool)
        ensures
            r == self.empty(),
            r == (self.successes@.len() == 0 && self.alerts@.len() == 0),
    {
        self.successes.len() == 0 && self.alerts.len() == 0
    }
}

/// An entry of the classification list of an outbound alert.
#[derive(Clone, Copy, Debug, PartialEq, Eq, Structural, Hash)]
pub enum OutboundClassification {
    /// A classification that the collector reported.
    Reported(Classification),
    /// The marker that the alert comes from the hardware-health service.
    Hardware,
}

/// A success as the health-report service receives it.
#[derive(Clone, Debug)]
pub struct OutboundSuccess {
    pub id: Probe,
    pub target: Option<String>,
}

/// An alert as the health-report service receives it.
#[derive(Clone, Debug)]
pub struct OutboundAlert {
    pub id: Probe,
    pub target: Option<String>,
    pub in_alert_since: Option<UtcTimestamp>,
    pub message: String,
    pub tenant_message: Option<String>,
    pub classifications: Vec<OutboundClassification>,
}

/// A health report as the health-report service receives it.
#[derive(Clone, Debug)]
pub struct OutboundReport {
    pub source: String,
    pub triggered_by: Option<String>,
    pub observed_at: Option<UtcTimestamp>,
    pub successes: Vec<OutboundSuccess>,
    pub alerts: Vec<OutboundAlert>,
}

/// The classifications of an outbound alert: the reported ones in their order, then the
/// hardware marker.
pub open spec fn outbound_classifications(reported: Seq<Classification>) -> Seq<
    OutboundClassification,
> {
    reported.map_values(|c: Classification| OutboundClassification::Reported(c)).push(
        OutboundClassification::Hardware,
    )
}

/// The source name of an outbound report.
pub open spec fn outbound_source(source: ReportSource) -> Seq<char> {
    "hardware-health."@ + source.name()
}

/// `o` is the outbound form of success `s`.
pub open spec fn is_outbound_success(o: OutboundSuccess, s: HealthReportSuccess) -> bool {
    o.id == s.probe_id && o.target == s.target
}

/// `o` is the outbound form of alert `a`: same probe, target and message, not yet in alert
/// since any time, no tenant message, and the classifications with the hardware marker.
pub open spec fn is_outbound_alert(o: OutboundAlert, a: HealthReportAlert) -> bool {
    &&& o.id == a.probe_id
    &&& o.target == a.target
    &&& o.in_alert_since is None
    &&& o.message == a.message
    &&& o.tenant_message is None
    &&& o.classifications@ == outbound_classifications(a.classifications@)
}

/// `o` is the outbound form of report `r`: its source named under `hardware-health.`, not
/// triggered by anything, observed at the same time, with each success and each alert
/// converted in order. The report's target does not travel.
pub open spec fn is_outbound_report(o: OutboundReport, r: HealthReport) -> bool {
    &&& o.source@ == outbound_source(r.source)
    &&& o.triggered_by is None
    &&& o.observed_at == r.observed_at
    &&& o.successes@.len() == r.successes@.len()
    &&& forall|i: int|
        0 <= i < r.successes@.len() ==> is_outbound_success(
            #[trigger] o.successes@[i],
            r.successes@[i],
        )
    &&& o.alerts@.len() == r.alerts@.len()
    &&& forall|i: int|
        0 <= i < r.alerts@.len() ==> is_outbound_alert(#[trigger] o.alerts@[i], r.alerts@[i])
}

impl HealthReportSuccess {
    /// The outbound form of this success.
    pub fn to_outbound(&self) -> (r: OutboundSuccess)
        ensures
            is_outbound_success(r, *self),
            r.id == self.probe_id,
            r.target == self.target,
            opt_string_view(r.target) == opt_string_view(self.target),
    {
        OutboundSuccess { id: self.probe_id, target: copy_opt_string(&self.target) }
    }
}

impl HealthReportAlert {
    /// The outbound form of this alert, marked as coming from hardware health.
    pub fn to_outbound(&self) -> (r: OutboundAlert)
        ensures
            is_outbound_alert(r, *self),
            r.id == self.probe_id,
            r.target == self.target,
            r.message == self.message,
            r.message@ == self.message@,
            r.in_alert_since is None,
            r.tenant_message is None,
            r.classifications@.len() == self.classifications@.len() + 1,
            forall|m: int|
                0 <= m < self.classifications@.len() ==> #[trigger] r.classifications@[m]
                    == OutboundClassification::Reported(self.classifications@[m]),
            r.classifications@[self.classifications@.len() as int]
                == OutboundClassification::Hardware,
    {
        let mut classifications: Vec<OutboundClassification> = Vec::new();
        let mut i: usize = 0;
        while i < self.classifications.len()
            invariant
                i <= self.classifications@.len(),
                classifications@ == self.classifications@.take(i as int).map_values(
                    |c: Classification| OutboundClassification::Reported(c),
                ),
            decreases self.classifications.len() - i,
        {
            classifications.push(OutboundClassification::Reported(self.classifications[i]));
            assert(self.classifications@.take(i + 1) =~= self.classifications@.take(i as int).push(
                self.classifications@[i as int],
            ));
            i = i + 1;
        }
        assert(self.classifications@.take(i as int) =~= self.classifications@);
        classifications.push(OutboundClassification::Hardware);
        proof {
            lemma_alert_marked_hardware(self.classifications@);
        }
        OutboundAlert {
            id: self.probe_id,
            target: copy_opt_string(&self.target),
            in_alert_since: None,
            message: self.message.clone(),
            tenant_message: None,
            classifications,
        }
    }
}

impl HealthReport {
    /// The outbound form of this report.
    pub fn to_outbound(&self) -> (r: OutboundReport)
        ensures
            is_outbound_report(r, *self),
            r.source@ == "hardware-health."@ + self.source.name(),
            r.triggered_by is None,
            r.observed_at == self.observed_at,
            r.successes@.len() == self.successes@.len(),
            forall|i: int|
                0 <= i < self.successes@.len() ==> (#[trigger] r.successes@[i]).id
                    == self.successes@[i].probe_id && r.successes@[i].target
                    == self.successes@[i].target,
            r.alerts@.len() == self.alerts@.len(),
            forall|i: int|
                0 <= i < self.alerts@.len() ==> {
                    let o = #[trigger] r.alerts@[i];
                    let a = self.alerts@[i];
                    &&& o.id == a.probe_id
                    &&& o.target == a.target
                    &&& o.message@ == a.message@
                    &&& o.in_alert_since is None
                    &&& o.tenant_message is None
                    &&& o.classifications@.len() == a.classifications@.len() + 1
                    &&& forall|m: int|
                        0 <= m < a.classifications@.len() ==> #[trigger] o.classifications@[m]
                            == OutboundClassification::Reported(a.classifications@[m])
                    &&& o.classifications@[a.classifications@.len() as int]
                        == OutboundClassification::Hardware
                },
    {
        let source = String::from_str("hardware-health.").concat(self.source.as_str());
        let mut successes: Vec<OutboundSuccess> = Vec::new();
        let mut i: usize = 0;
        while i < self.successes.len()
            invariant
                i <= self.successes@.len(),
                successes@.len() == i,
                forall|j: int|
                    0 <= j < i ==> is_outbound_success(#[trigger] successes@[j], self.successes@[j]),
            decreases self.successes.len() - i,
        {
            successes.push(self.successes[i].to_outbound());
            i = i + 1;
        }
        let mut alerts: Vec<OutboundAlert> = Vec::new();
        let mut i: usize = 0;
        while i < self.alerts.len()
            invariant
                i <= self.alerts@.len(),
                alerts@.len() == i,
                forall|j: int| 0 <= j < i ==> is_outbound_alert(#[trigger] alerts@[j], self.alerts@[j]),
            decreases self.alerts.len() - i,
        {
            alerts.push(self.alerts[i].to_outbound());
            i = i + 1;
        }
        proof {
            assert forall|i: int| 0 <= i < self.alerts@.len() implies ({
                let o = #[trigger] alerts@[i];
                let a = self.alerts@[i];
                &&& o.classifications@.len() == a.classifications@.len() + 1
                &&& forall|m: int|
                    0 <= m < a.classifications@.len() ==> #[trigger] o.classifications@[m]
                        == OutboundClassification::Reported(a.classifications@[m])
                &&& o.classifications@[a.classifications@.len() as int]
                    == OutboundClassification::Hardware
            }) by {
                lemma_alert_marked_hardware(self.alerts@[i].classifications@);
            }
        }
        OutboundReport {
            source,
            triggered_by: None,
            observed_at: self.observed_at,
            successes,
            alerts,
        }
    }
}

/// Distinct report sources have distinct names.
pub proof fn lemma_report_source_names_distinct(a: ReportSource, b: ReportSource)
    requires
        a != b,
    ensures
        a.name() != b.name(),
{
    reveal_strlit("bmc-sensors");
    reveal_strlit("bmc-leak-detectors");
    reveal_strlit("tray-leak-detection");
    reveal_strlit("rack-leak-detection");
    if a.name() == b.name() {
        assert(a.name()[0] == b.name()[0]);
        assert(a.name().len() == b.name().len());
    }
}

/// Distinct probes have distinct identifiers.
pub proof fn lemma_probe_names_distinct(a: Probe, b: Probe)
    requires
        a != b,
    ensures
        a.name() != b.name(),
{
    reveal_strlit("BmcSensor");
    reveal_strlit("BmcLeakDetection");
    if a.name() == b.name() {
        assert(a.name().len() == b.name().len());
    }
}

/// Distinct classifications have distinct names.
pub proof fn lemma_classification_names_distinct(a: Classification, b: Classification)
    requires
        a != b,
    ensures
        a.name() != b.name(),
{
    reveal_strlit("SensorOk");
    reveal_strlit("SensorWarning");
    reveal_strlit("SensorCritical");
    reveal_strlit("SensorFatal");
    reveal_strlit("SensorFailure");
    reveal_strlit("Leak");
    reveal_strlit("LeakDetector");
    if a.name() == b.name() {
        assert(a.name().len() == b.name().len());
        assert(a.name()[6] == b.name()[6]);
        assert(a.name()[7] == b.name()[7]);
    }
}

/// Every outbound alert is marked as coming from hardware health: its classifications are
/// the reported ones, in their order, followed by exactly one hardware marker, last.
pub proof fn lemma_alert_marked_hardware(reported: Seq<Classification>)
    ensures
        outbound_classifications(reported).len() == reported.len() + 1,
        outbound_classifications(reported).last() == OutboundClassification::Hardware,
        forall|i: int|
            0 <= i < reported.len() ==> #[trigger] outbound_classifications(reported)[i]
                == OutboundClassification::Reported(reported[i]),
        forall|i: int|
            0 <= i < outbound_classifications(reported).len() && #[trigger] outbound_classifications(
                reported,
            )[i] == OutboundClassification::Hardware ==> i == reported.len(),
{
}

/// A report is empty exactly when its outbound form has neither successes nor alerts.
pub proof fn lemma_empty_report_converts_empty(o: OutboundReport, r: HealthReport)
    requires
        is_outbound_report(o, r),
    ensures
        r.empty() <==> (o.successes@.len() == 0 && o.alerts@.len() == 0),
{
}

/// The outbound form of a success carries the success's probe and its target unchanged.
pub proof fn lemma_outbound_success_keeps_fields(o: OutboundSuccess, s: HealthReportSuccess)
    requires
        is_outbound_success(o, s),
    ensures
        o.id == s.probe_id,
        o.target == s.target,
        opt_string_view(o.target) == opt_string_view(s.target),
{
}

/// The outbound form of an alert carries the alert's probe, target and message unchanged,
/// whatever their length; it is not in alert since any time, has no tenant message, and
/// lists the reported classifications in order followed by the hardware marker.
pub proof fn lemma_outbound_alert_keeps_fields(o: OutboundAlert, a: HealthReportAlert)
    requires
        is_outbound_alert(o, a),
    ensures
        o.id == a.probe_id,
        o.target == a.target,
        o.message@ == a.message@,
        o.in_alert_since is None,
        o.tenant_message is None,
        o.classifications@.len() == a.classifications@.len() + 1,
        forall|m: int|
            0 <= m < a.classifications@.len() ==> #[trigger] o.classifications@[m]
                == OutboundClassification::Reported(a.classifications@[m]),
        o.classifications@[a.classifications@.len() as int] == OutboundClassification::Hardware,
{
    lemma_alert_marked_hardware(a.classifications@);
}

/// The outbound form of a report names its source under `hardware-health.`, keeps the time
/// it was observed, and converts the i-th success and the i-th alert of the report into
/// its own i-th success and alert, for every i.
pub proof fn lemma_outbound_report_keeps_order(o: OutboundReport, r: HealthReport)
    requires
        is_outbound_report(o, r),
    ensures
        o.source@ == "hardware-health."@ + r.source.name(),
        o.triggered_by is None,
        o.observed_at == r.observed_at,
        o.successes@.len() == r.successes@.len(),
        forall|i: int|
            0 <= i < r.successes@.len() ==> (#[trigger] o.successes@[i]).id
                == r.successes@[i].probe_id && o.successes@[i].target == r.successes@[i].target,
        o.alerts@.len() == r.alerts@.len(),
        forall|i: int|
            0 <= i < r.alerts@.len() ==> (#[trigger] o.alerts@[i]).id == r.alerts@[i].probe_id
                && o.alerts@[i].target == r.alerts@[i].target && o.alerts@[i].message@
                == r.alerts@[i].message@,
{
}

} // verus!
