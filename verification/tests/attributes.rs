use api_telemetry::attributes::{
    deployment_environment_resource_attributes, lambda_resource_attributes,
    detect_platform, memory_limit_bytes_of, service_resource_attributes, service_resource_attributes_with,
    telemetry_sdk_resource_attributes, vcs_resource_attributes, Attribute, AttributeValue,
    BuildConfig, Platform, RuntimeEnvironment, AWS_LOG_GROUP_NAMES, BYTES_PER_MEGABYTE, CLOUD_PLATFORM,
    CLOUD_PROVIDER, CLOUD_REGION, CLOUD_RESOURCE_ID, DEPLOYMENT_ENVIRONMENT_NAME, FAAS_INSTANCE,
    FAAS_MAX_MEMORY, FAAS_NAME, FAAS_VERSION, SERVICE_INSTANCE_ID, SERVICE_NAME,
    SERVICE_NAMESPACE, SERVICE_VERSION, TELEMETRY_SDK_LANGUAGE, TELEMETRY_SDK_NAME,
    TELEMETRY_SDK_VERSION, VCS_REF_HEAD_NAME, VCS_REF_HEAD_REVISION, VCS_REF_TYPE,
    VCS_REPOSITORY_NAME, VCS_REPOSITORY_URL_FULL,
};
use opentelemetry_semantic_conventions::resource as semconv;

fn text(value: &str) -> Option<String> {
    Some(value.to_string())
}

fn empty_environment() -> RuntimeEnvironment {
    RuntimeEnvironment {
        function_name: None,
        region: None,
        function_version: None,
        memory_size: None,
        log_stream_name: None,
        log_group_name: None,
        function_arn: None,
    }
}

fn function_environment() -> RuntimeEnvironment {
    RuntimeEnvironment {
        function_name: text("api"),
        region: text("us-east-1"),
        function_version: text("3"),
        memory_size: text("128"),
        log_stream_name: text("2026/01/01/[3]abcdef"),
        log_group_name: text("/aws/lambda/api"),
        function_arn: text("arn:aws:lambda:us-east-1:123456789012:function:api"),
    }
}

fn build() -> BuildConfig {
    BuildConfig {
        service_name: "api".to_string(),
        service_version: "0.1.2".to_string(),
        service_namespace: "sample".to_string(),
        deployment_stage: "dev".to_string(),
        telemetry_sdk_version: "0.31.0".to_string(),
        vcs_ref_head_name: "main".to_string(),
        vcs_ref_head_revision: "0123abcd".to_string(),
        vcs_repository_name: "sample".to_string(),
        vcs_repository_url_full: "https://github.com/someone/sample".to_string(),
    }
}

fn pairs(attributes: &[Attribute]) -> Vec<(String, String)> {
    attributes
        .iter()
        .map(|a| {
            let value = match &a.value {
                AttributeValue::Text(t) => format!("text:{}", t),
                AttributeValue::Integer(n) => format!("integer:{}", n),
                AttributeValue::Boolean(b) => format!("boolean:{}", b),
                AttributeValue::TextArray(items) => format!("array:{}", items.join("|")),
            };
            (a.key.clone(), value)
        })
        .collect()
}

fn expected(list: &[(&str, &str)]) -> Vec<(String, String)> {
    list.iter().map(|(k, v)| (k.to_string(), v.to_string())).collect()
}

#[test]
fn keys_are_those_of_the_semantic_conventions() {
    assert_eq!(CLOUD_PROVIDER, semconv::CLOUD_PROVIDER);
    assert_eq!(CLOUD_PLATFORM, semconv::CLOUD_PLATFORM);
    assert_eq!(CLOUD_REGION, semconv::CLOUD_REGION);
    assert_eq!(CLOUD_RESOURCE_ID, semconv::CLOUD_RESOURCE_ID);
    assert_eq!(FAAS_INSTANCE, semconv::FAAS_INSTANCE);
    assert_eq!(FAAS_NAME, semconv::FAAS_NAME);
    assert_eq!(FAAS_VERSION, semconv::FAAS_VERSION);
    assert_eq!(FAAS_MAX_MEMORY, semconv::FAAS_MAX_MEMORY);
    assert_eq!(AWS_LOG_GROUP_NAMES, semconv::AWS_LOG_GROUP_NAMES);
    assert_eq!(SERVICE_NAME, semconv::SERVICE_NAME);
    assert_eq!(SERVICE_VERSION, semconv::SERVICE_VERSION);
    assert_eq!(SERVICE_NAMESPACE, semconv::SERVICE_NAMESPACE);
    assert_eq!(SERVICE_INSTANCE_ID, semconv::SERVICE_INSTANCE_ID);
    assert_eq!(TELEMETRY_SDK_NAME, semconv::TELEMETRY_SDK_NAME);
    assert_eq!(TELEMETRY_SDK_LANGUAGE, semconv::TELEMETRY_SDK_LANGUAGE);
    assert_eq!(TELEMETRY_SDK_VERSION, semconv::TELEMETRY_SDK_VERSION);
    assert_eq!(DEPLOYMENT_ENVIRONMENT_NAME, semconv::DEPLOYMENT_ENVIRONMENT_NAME);
    assert_eq!(VCS_REF_HEAD_NAME, semconv::VCS_REF_HEAD_NAME);
    assert_eq!(VCS_REF_HEAD_REVISION, semconv::VCS_REF_HEAD_REVISION);
    assert_eq!(VCS_REF_TYPE, semconv::VCS_REF_TYPE);
    assert_eq!(VCS_REPOSITORY_NAME, semconv::VCS_REPOSITORY_NAME);
    assert_eq!(VCS_REPOSITORY_URL_FULL, semconv::VCS_REPOSITORY_URL_FULL);
}

#[test]
fn compute_platform_group_is_empty_without_a_function_name() {
    assert!(lambda_resource_attributes(&empty_environment()).is_empty());
    let mut environment = function_environment();
    environment.function_name = None;
    assert!(lambda_resource_attributes(&environment).is_empty());
    environment.function_name = text("");
    assert!(lambda_resource_attributes(&environment).is_empty());
}

#[test]
fn compute_platform_group_on_a_function_platform() {
    let attributes = lambda_resource_attributes(&function_environment());
    assert_eq!(
        pairs(&attributes),
        expected(&[
            ("cloud.provider", "text:aws"),
            ("cloud.platform", "text:aws_lambda"),
            ("cloud.region", "text:us-east-1"),
            ("cloud.resource_id", "text:arn:aws:lambda:us-east-1:123456789012:function:api"),
            ("faas.instance", "text:2026/01/01/[3]abcdef"),
            ("faas.name", "text:api"),
            ("faas.version", "text:3"),
            ("faas.max_memory", "integer:134217728"),
            ("aws.log.group.names", "array:/aws/lambda/api"),
        ])
    );
}

#[test]
fn compute_platform_group_degrades_to_empty_values() {
    let mut environment = empty_environment();
    environment.function_name = text("api");
    let attributes = lambda_resource_attributes(&environment);
    assert_eq!(
        pairs(&attributes),
        expected(&[
            ("cloud.provider", "text:aws"),
            ("cloud.platform", "text:aws_lambda"),
            ("cloud.region", "text:"),
            ("cloud.resource_id", "text:"),
            ("faas.instance", "text:"),
            ("faas.name", "text:api"),
            ("faas.version", "text:"),
            ("faas.max_memory", "integer:0"),
            ("aws.log.group.names", "array:"),
        ])
    );
    match &attributes[8].value {
        AttributeValue::TextArray(items) => assert_eq!(items, &vec![String::new()]),
        other => panic!("{:?}", other),
    }
}

#[test]
fn memory_limit_is_megabytes_times_1048576() {
    assert_eq!(BYTES_PER_MEGABYTE, 1024 * 1024);
    assert_eq!(memory_limit_bytes_of(&text("128")), 134_217_728);
    assert_eq!(memory_limit_bytes_of(&text("1")), 1_048_576);
    assert_eq!(memory_limit_bytes_of(&text("10240")), 10_737_418_240);
    assert_eq!(memory_limit_bytes_of(&text("0")), 0);
    assert_eq!(memory_limit_bytes_of(&text("+2")), 2_097_152);
    assert_eq!(memory_limit_bytes_of(&text("-1")), -1_048_576);
}

#[test]
fn memory_limit_reads_what_is_no_number_as_zero() {
    assert_eq!(memory_limit_bytes_of(&None), 0);
    assert_eq!(memory_limit_bytes_of(&text("")), 0);
    assert_eq!(memory_limit_bytes_of(&text("abc")), 0);
    assert_eq!(memory_limit_bytes_of(&text("128MB")), 0);
    assert_eq!(memory_limit_bytes_of(&text(" 128")), 0);
    assert_eq!(memory_limit_bytes_of(&text("9223372036854775808")), 0);
}

#[test]
fn memory_limit_that_does_not_fit_reads_as_zero() {
    assert_eq!(memory_limit_bytes_of(&text("8796093022207")), 9_223_372_036_853_727_232);
    assert_eq!(memory_limit_bytes_of(&text("8796093022208")), 0);
    assert_eq!(memory_limit_bytes_of(&text("-8796093022208")), i64::MIN);
    assert_eq!(memory_limit_bytes_of(&text("-8796093022209")), 0);
    assert_eq!(memory_limit_bytes_of(&text("9223372036854775807")), 0);
}

#[test]
fn service_group_with_a_given_identifier() {
    let attributes = service_resource_attributes_with(&build(), "the-id".to_string());
    assert_eq!(
        pairs(&attributes),
        expected(&[
            ("service.name", "text:api"),
            ("service.version", "text:0.1.2"),
            ("service.namespace", "text:sample"),
            ("service.instance.id", "text:the-id"),
        ])
    );
}

fn instance_id_of(attributes: &[Attribute]) -> String {
    match &attributes[3].value {
        AttributeValue::Text(id) => id.clone(),
        other => panic!("{:?}", other),
    }
}

#[test]
fn service_group_draws_a_version_4_identifier() {
    let attributes = service_resource_attributes(&build());
    assert_eq!(attributes.len(), 4);
    assert_eq!(attributes[3].key, "service.instance.id");
    let id = instance_id_of(&attributes);
    assert_eq!(id.len(), 36);
    for (i, c) in id.chars().enumerate() {
        if i == 8 || i == 13 || i == 18 || i == 23 {
            assert_eq!(c, '-');
        } else {
            assert!(c.is_ascii_digit() || ('a'..='f').contains(&c), "{}", id);
        }
    }
    assert_eq!(id.as_bytes()[14], b'4');
    let parsed = uuid::Uuid::parse_str(&id).unwrap();
    assert_eq!(parsed.get_version_num(), 4);
    assert_eq!(parsed.to_string(), id);
    assert_eq!(pairs(&attributes)[..3], pairs(&service_resource_attributes_with(&build(), id))[..3]);
}

#[test]
fn service_group_draws_a_new_identifier_each_time() {
    let first = instance_id_of(&service_resource_attributes(&build()));
    let second = instance_id_of(&service_resource_attributes(&build()));
    assert_ne!(first, second);
}

#[test]
fn toolkit_group_names_the_toolkit() {
    assert_eq!(
        pairs(&telemetry_sdk_resource_attributes(&build())),
        expected(&[
            ("telemetry.sdk.name", "text:opentelemetry"),
            ("telemetry.sdk.language", "text:rust"),
            ("telemetry.sdk.version", "text:0.31.0"),
        ])
    );
}

#[test]
fn deployment_group_names_the_stage() {
    assert_eq!(
        pairs(&deployment_environment_resource_attributes(&build())),
        expected(&[("deployment.environment.name", "text:dev")])
    );
}

#[test]
fn provenance_group_keeps_every_key() {
    assert_eq!(
        pairs(&vcs_resource_attributes(&build())),
        expected(&[
            ("vcs.ref.head.name", "text:main"),
            ("vcs.ref.head.revision", "text:0123abcd"),
            ("vcs.ref.type", "text:branch"),
            ("vcs.repository.name", "text:sample"),
            ("vcs.repository.url.full", "text:https://github.com/someone/sample"),
        ])
    );
    let mut outside_a_checkout = build();
    outside_a_checkout.vcs_ref_head_name = String::new();
    outside_a_checkout.vcs_ref_head_revision = String::new();
    outside_a_checkout.vcs_repository_name = String::new();
    outside_a_checkout.vcs_repository_url_full = String::new();
    assert_eq!(
        pairs(&vcs_resource_attributes(&outside_a_checkout)),
        expected(&[
            ("vcs.ref.head.name", "text:"),
            ("vcs.ref.head.revision", "text:"),
            ("vcs.ref.type", "text:branch"),
            ("vcs.repository.name", "text:"),
            ("vcs.repository.url.full", "text:"),
        ])
    );
}

#[test]
fn attribute_constructors_keep_key_and_value() {
    let a = Attribute::text("k", "v".to_string());
    assert_eq!(pairs(&[a]), expected(&[("k", "text:v")]));
    let b = Attribute::integer("n", -7);
    assert_eq!(pairs(&[b]), expected(&[("n", "integer:-7")]));
    let c = Attribute::boolean("f", true);
    assert_eq!(pairs(&[c]), expected(&[("f", "boolean:true")]));
    let d = Attribute::text_array("l", vec!["x".to_string(), "y".to_string()]);
    assert_eq!(pairs(&[d]), expected(&[("l", "array:x|y")]));
}

#[test]
fn platform_follows_the_function_name() {
    assert_eq!(detect_platform(&empty_environment()), Platform::AlwaysOn);
    assert_eq!(detect_platform(&function_environment()), Platform::Serverless);
    let mut environment = function_environment();
    environment.function_name = text("");
    assert_eq!(detect_platform(&environment), Platform::AlwaysOn);
    environment.function_name = text(" ");
    assert_eq!(detect_platform(&environment), Platform::Serverless);
}
