use vstd::prelude::*;
use crate::hex::hex_digit_value;
use crate::text::{decimal_i64, parse_decimal_i64, text_or_empty, text_or_empty_of};

verus! {

// The keys under which a resource describes the service, from the
// controlled vocabulary of the semantic conventions.

pub const CLOUD_PROVIDER: &'static str = "cloud.provider";

pub const CLOUD_PLATFORM: &'static str = "cloud.platform";

pub const CLOUD_REGION: &'static str = "cloud.region";

pub const CLOUD_RESOURCE_ID: &'static str = "cloud.resource_id";

pub const FAAS_INSTANCE: &'static str = "faas.instance";

pub const FAAS_NAME: &'static str = "faas.name";

pub const FAAS_VERSION: &'static str = "faas.version";

pub const FAAS_MAX_MEMORY: &'static str = "faas.max_memory";

pub const AWS_LOG_GROUP_NAMES: &'static str = "aws.log.group.names";

pub const SERVICE_NAME: &'static str = "service.name";

pub const SERVICE_VERSION: &'static str = "service.version";

pub const SERVICE_NAMESPACE: &'static str = "service.namespace";

pub const SERVICE_INSTANCE_ID: &'static str = "service.instance.id";

pub const TELEMETRY_SDK_NAME: &'static str = "telemetry.sdk.name";

pub const TELEMETRY_SDK_LANGUAGE: &'static str = "telemetry.sdk.language";

pub const TELEMETRY_SDK_VERSION: &'static str = "telemetry.sdk.version";

pub const DEPLOYMENT_ENVIRONMENT_NAME: &'static str = "deployment.environment.name";

pub const VCS_REF_HEAD_NAME: &'static str = "vcs.ref.head.name";

pub const VCS_REF_HEAD_REVISION: &'static str = "vcs.ref.head.revision";

pub const VCS_REF_TYPE: &'static str = "vcs.ref.type";

pub const VCS_REPOSITORY_NAME: &'static str = "vcs.repository.name";

pub const VCS_REPOSITORY_URL_FULL: &'static str = "vcs.repository.url.full";

/// The number of bytes in a megabyte.
pub const BYTES_PER_MEGABYTE: i64 = 1_048_576;

/// What an attribute says: a text, an integer, a truth value or a list of
/// texts.
#[derive(Clone, Debug)]
pub enum AttributeValue {
    Text(String),
    Integer(i64),
    Boolean(bool),
    TextArray(Vec<String>),
}

/// An attribute value as contracts speak of it.
pub enum ValueView {
    Text(Seq<char>),
    Integer(i64),
    Boolean(bool),
    TextArray(Seq<Seq<char>>),
}

/// The texts of `items`, in order.
pub open spec fn texts(items: Seq<String>) -> Seq<Seq<char>> {
    Seq::new(items.len(), |i: int| items[i]@)
}

impl View for AttributeValue {
    type V = ValueView;

    open spec fn view(&self) -> ValueView {
        match self {
            AttributeValue::Text(text) => ValueView::Text(text@),
            AttributeValue::Integer(number) => ValueView::Integer(*number),
            AttributeValue::Boolean(flag) => ValueView::Boolean(*flag),
            AttributeValue::TextArray(items) => ValueView::TextArray(texts(items@)),
        }
    }
}

/// A key and what is said under it.
#[derive(Clone, Debug)]
pub struct Attribute {
    pub key: String,
    pub value: AttributeValue,
}

impl View for Attribute {
    type V = (Seq<char>, ValueView);

    open spec fn view(&self) -> (Seq<char>, ValueView) {
        (self.key@, self.value@)
    }
}

/// The attributes of `attributes` as contracts speak of them, in order.
pub open spec fn views(attributes: Seq<Attribute>) -> Seq<(Seq<char>, ValueView)> {
    Seq::new(attributes.len(), |i: int| attributes[i]@)
}

impl Attribute {
    /// The attribute that says the text `value` under `key`.
    pub fn text(key: &str, value: String) -> (attribute: Attribute)
        ensures
            attribute@ == (key@, ValueView::Text(value@)),
    {
        Attribute { key: key.to_owned(), value: AttributeValue::Text(value) }
    }

    /// The attribute that says the integer `value` under `key`.
    pub fn integer(key: &str, value: i64) -> (attribute: Attribute)
        ensures
            attribute@ == (key@, ValueView::Integer(value)),
    {
        Attribute { key: key.to_owned(), value: AttributeValue::Integer(value) }
    }

    /// The attribute that says the truth value `value` under `key`.
    pub fn boolean(key: &str, value: bool) -> (attribute: Attribute)
        ensures
            attribute@ == (key@, ValueView::Boolean(value)),
    {
        Attribute { key: key.to_owned(), value: AttributeValue::Boolean(value) }
    }

    /// The attribute that says the texts `items` under `key`.
    pub fn text_array(key: &str, items: Vec<String>) -> (attribute: Attribute)
        ensures
            attribute@ == (key@, ValueView::TextArray(texts(items@))),
    {
        Attribute { key: key.to_owned(), value: AttributeValue::TextArray(items) }
    }
}

/// What the process finds around it when it runs on a function platform.
/// Every entry is optional.
#[derive(Clone, Debug)]
pub struct RuntimeEnvironment {
    pub function_name: Option<String>,
    pub region: Option<String>,
    pub function_version: Option<String>,
    pub memory_size: Option<String>,
    pub log_stream_name: Option<String>,
    pub log_group_name: Option<String>,
    pub function_arn: Option<String>,
}

/// What was fixed when the service was built.
#[derive(Clone, Debug)]
pub struct BuildConfig {
    pub service_name: String,
    pub service_version: String,
    pub service_namespace: String,
    pub deployment_stage: String,
    pub telemetry_sdk_version: String,
    pub vcs_ref_head_name: String,
    pub vcs_ref_head_revision: String,
    pub vcs_repository_name: String,
    pub vcs_repository_url_full: String,
}

/// The memory limit in bytes for a limit given in megabytes as decimal
/// text. A limit that is absent, is no number or does not fit 64 bits when
/// counted in bytes reads as zero.
pub open spec fn memory_limit_bytes(megabytes: Option<String>) -> i64 {
    match megabytes {
        Some(text) => match decimal_i64(text@) {
            Some(count) => if i64::MIN <= count * BYTES_PER_MEGABYTE <= i64::MAX {
                (count * BYTES_PER_MEGABYTE) as i64
            } else {
                0
            },
            None => 0,
        },
        None => 0,
    }
}

/// The memory limit in bytes for a limit given in megabytes as decimal text.
pub fn memory_limit_bytes_of(megabytes: &Option<String>) -> (bytes: i64)
    ensures
        bytes == memory_limit_bytes(*megabytes),
{
    match megabytes {
        Some(text) => match parse_decimal_i64(text.as_str()) {
            Some(count) => match count.checked_mul(BYTES_PER_MEGABYTE) {
                Some(bytes) => bytes,
                None => 0,
            },
            None => 0,
        },
        None => 0,
    }
}

/// Whether the process runs on a function platform: the platform names the
/// function, and the name is not empty.
pub open spec fn on_function_platform(environment: RuntimeEnvironment) -> bool {
    text_or_empty(environment.function_name).len() > 0
}

/// Where the process runs: on a platform that is always on, or on a
/// function platform that starts and suspends it.
#[derive(Clone, Copy, Debug, PartialEq, Eq, Structural)]
pub enum Platform {
    AlwaysOn,
    Serverless,
}

/// The platform that `environment` shows.
pub fn detect_platform(environment: &RuntimeEnvironment) -> (platform: Platform)
    ensures
        platform == if on_function_platform(*environment) {
            Platform::Serverless
        } else {
            Platform::AlwaysOn
        },
{
    match &environment.function_name {
        Some(name) => if name.as_str().is_empty() {
            Platform::AlwaysOn
        } else {
            Platform::Serverless
        },
        None => Platform::AlwaysOn,
    }
}

/// The attributes of the compute platform: none off a function platform.
pub open spec fn lambda_group(environment: RuntimeEnvironment) -> Seq<(Seq<char>, ValueView)> {
    if on_function_platform(environment) {
        seq![
            (CLOUD_PROVIDER@, ValueView::Text("aws"@)),
            (CLOUD_PLATFORM@, ValueView::Text("aws_lambda"@)),
            (CLOUD_REGION@, ValueView::Text(text_or_empty(environment.region))),
            (CLOUD_RESOURCE_ID@, ValueView::Text(text_or_empty(environment.function_arn))),
            (FAAS_INSTANCE@, ValueView::Text(text_or_empty(environment.log_stream_name))),
            (FAAS_NAME@, ValueView::Text(text_or_empty(environment.function_name))),
            (FAAS_VERSION@, ValueView::Text(text_or_empty(environment.function_version))),
            (FAAS_MAX_MEMORY@, ValueView::Integer(memory_limit_bytes(environment.memory_size))),
            (
                AWS_LOG_GROUP_NAMES@,
                ValueView::TextArray(seq![text_or_empty(environment.log_group_name)]),
            ),
        ]
    } else {
        Seq::empty()
    }
}

/// The attributes of the compute platform.
pub fn lambda_resource_attributes(environment: &RuntimeEnvironment) -> (attributes: Vec<
    Attribute,
>)
    ensures
        views(attributes@) == lambda_group(*environment),
        !on_function_platform(*environment) ==> attributes@.len() == 0,
{
    let mut attributes: Vec<Attribute> = Vec::new();
    match detect_platform(environment) {
        Platform::AlwaysOn => {
            assert(views(attributes@) =~= lambda_group(*environment));
            return attributes;
        },
        Platform::Serverless => {},
    }
    let function_name = text_or_empty_of(&environment.function_name);
    let mut log_groups: Vec<String> = Vec::new();
    log_groups.push(text_or_empty_of(&environment.log_group_name));
    assert(texts(log_groups@) =~= seq![text_or_empty(environment.log_group_name)]);
    attributes.push(Attribute::text(CLOUD_PROVIDER, "aws".to_owned()));
    attributes.push(Attribute::text(CLOUD_PLATFORM, "aws_lambda".to_owned()));
    attributes.push(Attribute::text(CLOUD_REGION, text_or_empty_of(&environment.region)));
    attributes.push(
        Attribute::text(CLOUD_RESOURCE_ID, text_or_empty_of(&environment.function_arn)),
    );
    attributes.push(Attribute::text(FAAS_INSTANCE, text_or_empty_of(&environment.log_stream_name)));
    attributes.push(Attribute::text(FAAS_NAME, function_name));
    attributes.push(Attribute::text(FAAS_VERSION, text_or_empty_of(&environment.function_version)));
    attributes.push(
        Attribute::integer(FAAS_MAX_MEMORY, memory_limit_bytes_of(&environment.memory_size)),
    );
    attributes.push(Attribute::text_array(AWS_LOG_GROUP_NAMES, log_groups));
    assert(views(attributes@) =~= lambda_group(*environment));
    attributes
}

/// The shape of an instance identifier: 36 characters, hyphens at the
/// four places where a hyphenated universally unique identifier has them,
/// lowercase hexadecimal digits elsewhere, and the version digit `4`.
pub open spec fn is_instance_id(id: Seq<char>) -> bool {
    &&& id.len() == 36
    &&& forall|i: int|
        0 <= i < 36 ==> if i == 8 || i == 13 || i == 18 || i == 23 {
            id[i] == '-'
        } else {
            hex_digit_value(#[trigger] id[i]) is Some
        }
    &&& id[14] == '4'
}

/// A fresh identifier for this run of the service, from `uuid::Uuid::new_v4`
/// and the identifier's `to_string`. The call draws random bits, so the
/// contract states the shape that every outcome has, and nothing of which
/// identifier comes: the hyphenated lowercase form of a version 4
/// identifier.
#[verifier::external_body]
fn new_instance_id() -> (id: String)
    ensures
        is_instance_id(id@),
{
    uuid::Uuid::new_v4().to_string()
}

/// The attributes of the service's identity, with `instance_id` as the
/// identifier of this run.
pub open spec fn service_group(build: BuildConfig, instance_id: Seq<char>) -> Seq<
    (Seq<char>, ValueView),
> {
    seq![
        (SERVICE_NAME@, ValueView::Text(build.service_name@)),
        (SERVICE_VERSION@, ValueView::Text(build.service_version@)),
        (SERVICE_NAMESPACE@, ValueView::Text(build.service_namespace@)),
        (SERVICE_INSTANCE_ID@, ValueView::Text(instance_id)),
    ]
}

/// The attributes of the service's identity, with a given identifier of
/// this run.
pub fn service_resource_attributes_with(build: &BuildConfig, instance_id: String) -> (attributes:
    Vec<Attribute>)
    ensures
        views(attributes@) == service_group(*build, instance_id@),
{
    let mut attributes: Vec<Attribute> = Vec::new();
    attributes.push(Attribute::text(SERVICE_NAME, build.service_name.clone()));
    attributes.push(Attribute::text(SERVICE_VERSION, build.service_version.clone()));
    attributes.push(Attribute::text(SERVICE_NAMESPACE, build.service_namespace.clone()));
    attributes.push(Attribute::text(SERVICE_INSTANCE_ID, instance_id));
    assert(views(attributes@) =~= service_group(*build, instance_id@));
    attributes
}

/// The attributes of the service's identity, with a fresh identifier of
/// this run: whichever identifier was drawn, it has the shape of one.
pub fn service_resource_attributes(build: &BuildConfig) -> (attributes: Vec<Attribute>)
    ensures
        exists|instance_id: Seq<char>|
            is_instance_id(instance_id) && views(attributes@) == #[trigger] service_group(
                *build,
                instance_id,
            ),
{
    let instance_id = new_instance_id();
    let ghost drawn = instance_id@;
    let attributes = service_resource_attributes_with(build, instance_id);
    assert(views(attributes@) == service_group(*build, drawn));
    attributes
}

/// The attributes that name the telemetry toolkit.
pub open spec fn telemetry_sdk_group(build: BuildConfig) -> Seq<(Seq<char>, ValueView)> {
    seq![
        (TELEMETRY_SDK_NAME@, ValueView::Text("opentelemetry"@)),
        (TELEMETRY_SDK_LANGUAGE@, ValueView::Text("rust"@)),
        (TELEMETRY_SDK_VERSION@, ValueView::Text(build.telemetry_sdk_version@)),
    ]
}

/// The attributes that name the telemetry toolkit.
pub fn telemetry_sdk_resource_attributes(build: &BuildConfig) -> (attributes: Vec<Attribute>)
    ensures
        views(attributes@) == telemetry_sdk_group(*build),
{
    let mut attributes: Vec<Attribute> = Vec::new();
    attributes.push(Attribute::text(TELEMETRY_SDK_NAME, "opentelemetry".to_owned()));
    attributes.push(Attribute::text(TELEMETRY_SDK_LANGUAGE, "rust".to_owned()));
    attributes.push(Attribute::text(TELEMETRY_SDK_VERSION, build.telemetry_sdk_version.clone()));
    assert(views(attributes@) =~= telemetry_sdk_group(*build));
    attributes
}

/// The attribute that names the deployment stage.
pub open spec fn deployment_environment_group(build: BuildConfig) -> Seq<(Seq<char>, ValueView)> {
    seq![(DEPLOYMENT_ENVIRONMENT_NAME@, ValueView::Text(build.deployment_stage@))]
}

/// The attribute that names the deployment stage.
pub fn deployment_environment_resource_attributes(build: &BuildConfig) -> (attributes: Vec<
    Attribute,
>)
    ensures
        views(attributes@) == deployment_environment_group(*build),
{
    let mut attributes: Vec<Attribute> = Vec::new();
    attributes.push(Attribute::text(DEPLOYMENT_ENVIRONMENT_NAME, build.deployment_stage.clone()));
    assert(views(attributes@) =~= deployment_environment_group(*build));
    attributes
}

/// The attributes of where the source came from. Every key is there, also
/// where the text under it is empty.
pub open spec fn vcs_group(build: BuildConfig) -> Seq<(Seq<char>, ValueView)> {
    seq![
        (VCS_REF_HEAD_NAME@, ValueView::Text(build.vcs_ref_head_name@)),
        (VCS_REF_HEAD_REVISION@, ValueView::Text(build.vcs_ref_head_revision@)),
        (VCS_REF_TYPE@, ValueView::Text("branch"@)),
        (VCS_REPOSITORY_NAME@, ValueView::Text(build.vcs_repository_name@)),
        (VCS_REPOSITORY_URL_FULL@, ValueView::Text(build.vcs_repository_url_full@)),
    ]
}

/// The attributes of where the source came from.
pub fn vcs_resource_attributes(build: &BuildConfig) -> (attributes: Vec<Attribute>)
    ensures
        views(attributes@) == vcs_group(*build),
{
    let mut attributes: Vec<Attribute> = Vec::new();
    attributes.push(Attribute::text(VCS_REF_HEAD_NAME, build.vcs_ref_head_name.clone()));
    attributes.push(Attribute::text(VCS_REF_HEAD_REVISION, build.vcs_ref_head_revision.clone()));
    attributes.push(Attribute::text(VCS_REF_TYPE, "branch".to_owned()));
    attributes.push(Attribute::text(VCS_REPOSITORY_NAME, build.vcs_repository_name.clone()));
    attributes.push(
        Attribute::text(VCS_REPOSITORY_URL_FULL, build.vcs_repository_url_full.clone()),
    );
    assert(views(attributes@) =~= vcs_group(*build));
    attributes
}

} // verus!
