use vstd::prelude::*;
use crate::attributes::BuildConfig;
use crate::resource::SCHEMA_URL;

verus! {

/// The address of the collector that spans and log records are sent to.
pub const COLLECTOR_ENDPOINT: &'static str = "http://localhost:4317";

/// The number of seconds after which a call to the collector is given up.
pub const EXPORT_TIMEOUT_SECONDS: u64 = 3;

/// How batches are put on the wire.
#[derive(Clone, Copy, Debug, PartialEq, Eq, Structural)]
pub enum Protocol {
    Grpc,
    HttpBinary,
    HttpJson,
}

/// Which spans are recorded.
#[derive(Clone, Copy, Debug, PartialEq, Eq, Structural)]
pub enum Sampling {
    AlwaysOn,
}

/// What an exporter is built with.
#[derive(Clone, Debug)]
pub struct ExporterSettings {
    pub endpoint: String,
    pub protocol: Protocol,
    pub timeout_seconds: u64,
    pub sampling: Sampling,
}

/// The settings of both exporters, the one for spans and the one for log
/// records: the local collector, the binary remote procedure call protocol,
/// the fixed timeout, and every span recorded.
pub fn exporter_settings() -> (settings: ExporterSettings)
    ensures
        settings.endpoint@ == COLLECTOR_ENDPOINT@,
        settings.protocol == Protocol::Grpc,
        settings.timeout_seconds == EXPORT_TIMEOUT_SECONDS,
        settings.sampling == Sampling::AlwaysOn,
{
    ExporterSettings {
        endpoint: COLLECTOR_ENDPOINT.to_owned(),
        protocol: Protocol::Grpc,
        timeout_seconds: EXPORT_TIMEOUT_SECONDS,
        sampling: Sampling::AlwaysOn,
    }
}

/// The name under which the service's spans are produced.
#[derive(Clone, Debug)]
pub struct InstrumentationScope {
    pub name: String,
    pub version: String,
    pub schema_url: String,
}

/// The scope of the service's own spans: its name and version, and the
/// version of the attribute vocabulary.
pub fn init_scope(build: &BuildConfig) -> (scope: InstrumentationScope)
    ensures
        scope.name@ == build.service_name@,
        scope.version@ == build.service_version@,
        scope.schema_url@ == SCHEMA_URL@,
{
    InstrumentationScope {
        name: build.service_name.clone(),
        version: build.service_version.clone(),
        schema_url: SCHEMA_URL.to_owned(),
    }
}

} // verus!
