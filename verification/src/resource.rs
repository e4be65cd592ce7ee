use vstd::prelude::*;
use crate::attributes::{
    deployment_environment_group, deployment_environment_resource_attributes, is_instance_id,
    lambda_group, lambda_resource_attributes, on_function_platform, service_group,
    service_resource_attributes, service_resource_attributes_with, telemetry_sdk_group,
    telemetry_sdk_resource_attributes, vcs_group, vcs_resource_attributes, views, Attribute,
    AttributeValue, BuildConfig, RuntimeEnvironment, ValueView, SERVICE_INSTANCE_ID,
};
use crate::keyed::{distinct_keys, lemma_position_found, value_of};

verus! {

/// The version of the attribute vocabulary that resources are tagged with.
pub const SCHEMA_URL: &'static str = "https://opentelemetry.io/schemas/1.36.0";

/// The description of the running service: attributes under distinct keys,
/// and the version of the vocabulary they are drawn from. It is built once
/// and offers no way to change it.
#[derive(Clone, Debug)]
pub struct Resource {
    attributes: Vec<Attribute>,
    schema_url: String,
}

impl Resource {
    /// The attributes, in the order in which they were merged.
    pub closed spec fn entries(&self) -> Seq<(Seq<char>, ValueView)> {
        views(self.attributes@)
    }

    /// The version of the vocabulary.
    pub closed spec fn schema(&self) -> Seq<char> {
        self.schema_url@
    }

    /// No two attributes share a key.
    pub open spec fn well_formed(&self) -> bool {
        distinct_keys(self.entries())
    }

    /// The resource of `attributes`, tagged with `schema_url`; `None` when
    /// two of the attributes share a key.
    pub fn new(attributes: Vec<Attribute>, schema_url: String) -> (resource: Option<Resource>)
        ensures
            match resource {
                Some(r) => r.entries() == views(attributes@) && r.schema() == schema_url@
                    && r.well_formed(),
                None => !distinct_keys(views(attributes@)),
            },
    {
        let mut j: usize = 0;
        while j < attributes.len()
            invariant
                j <= attributes.len(),
                forall|a: int, b: int|
                    0 <= a < b < j ==> (#[trigger] views(attributes@)[a]).0 != (#[trigger] views(
                        attributes@,
                    )[b]).0,
            decreases attributes.len() - j,
        {
            let mut i: usize = 0;
            while i < j
                invariant
                    i <= j < attributes.len(),
                    forall|a: int|
                        0 <= a < i ==> (#[trigger] views(attributes@)[a]).0 != views(
                            attributes@,
                        )[j as int].0,
                decreases j - i,
            {
                if attributes[i].key == attributes[j].key {
                    assert(views(attributes@)[i as int].0 == views(attributes@)[j as int].0);
                    return None;
                }
                i += 1;
            }
            j += 1;
        }
        Some(Resource { attributes, schema_url })
    }

    /// The attributes, in the order in which they were merged.
    pub fn attributes(&self) -> (attributes: &Vec<Attribute>)
        ensures
            views(attributes@) == self.entries(),
    {
        &self.attributes
    }

    /// The version of the vocabulary.
    pub fn schema_url(&self) -> (schema_url: &String)
        ensures
            schema_url@ == self.schema(),
    {
        &self.schema_url
    }

    /// What the resource says under `key`, if anything.
    pub fn get(&self, key: &str) -> (value: Option<&AttributeValue>)
        ensures
            match value {
                Some(v) => value_of(self.entries(), key@) == Some(v@),
                None => value_of(self.entries(), key@) is None,
            },
    {
        let wanted: String = key.to_owned();
        let mut i: usize = 0;
        while i < self.attributes.len()
            invariant
                i <= self.attributes@.len(),
                wanted@ == key@,
                forall|j: int| 0 <= j < i ==> (#[trigger] self.entries()[j]).0 != key@,
            decreases self.attributes@.len() - i,
        {
            if self.attributes[i].key == wanted {
                proof {
                    lemma_position_found(self.entries(), key@, i as int);
                }
                return Some(&self.attributes[i].value);
            }
            i += 1;
        }
        proof {
            lemma_position_found(self.entries(), key@, i as int);
        }
        None
    }
}

/// Builds the resource of the service from what the process finds around
/// it and what was fixed when the service was built.
#[derive(Clone, Debug)]
pub struct LambdaResourceDetector {
    pub environment: RuntimeEnvironment,
    pub build: BuildConfig,
}

/// The attributes that `detector` finds when `instance_id` identifies this
/// run: the groups in their fixed order.
pub open spec fn detected_entries(detector: LambdaResourceDetector, instance_id: Seq<char>) -> Seq<
    (Seq<char>, ValueView),
> {
    lambda_group(detector.environment) + deployment_environment_group(detector.build)
        + service_group(detector.build, instance_id) + telemetry_sdk_group(detector.build)
        + vcs_group(detector.build)
}

/// The place of the instance identifier among the detected attributes.
pub open spec fn instance_id_position(detector: LambdaResourceDetector) -> int {
    if on_function_platform(detector.environment) {
        13
    } else {
        4
    }
}

/// The groups never share a key: what is detected has distinct keys.
pub proof fn lemma_detected_keys_distinct(detector: LambdaResourceDetector, instance_id: Seq<char>)
    ensures
        distinct_keys(detected_entries(detector, instance_id)),
{
    reveal_strlit("cloud.provider");
    reveal_strlit("cloud.platform");
    reveal_strlit("cloud.region");
    reveal_strlit("cloud.resource_id");
    reveal_strlit("faas.instance");
    reveal_strlit("faas.name");
    reveal_strlit("faas.version");
    reveal_strlit("faas.max_memory");
    reveal_strlit("aws.log.group.names");
    reveal_strlit("deployment.environment.name");
    reveal_strlit("service.name");
    reveal_strlit("service.version");
    reveal_strlit("service.namespace");
    reveal_strlit("service.instance.id");
    reveal_strlit("telemetry.sdk.name");
    reveal_strlit("telemetry.sdk.language");
    reveal_strlit("telemetry.sdk.version");
    reveal_strlit("vcs.ref.head.name");
    reveal_strlit("vcs.ref.head.revision");
    reveal_strlit("vcs.ref.type");
    reveal_strlit("vcs.repository.name");
    reveal_strlit("vcs.repository.url.full");
    let entries = detected_entries(detector, instance_id);
    assert forall|i: int, j: int| 0 <= i < j < entries.len() implies (#[trigger] entries[i]).0 != (
    #[trigger] entries[j]).0 by {
        // Every key has at least nine characters, and no two keys agree in
        // both their length and their ninth character.
        assert(entries[i].0.len() != entries[j].0.len() || entries[i].0[8] != entries[j].0[8]);
    }
}

/// Two detections under the same environment differ at most in the
/// instance identifier: the attributes have the same keys in the same
/// order, and the same values but for the one under the key of the instance
/// identifier.
pub proof fn lemma_detection_differs_only_in_instance_id(
    detector: LambdaResourceDetector,
    first_id: Seq<char>,
    second_id: Seq<char>,
)
    ensures
        detected_entries(detector, first_id).len() == detected_entries(detector, second_id).len(),
        forall|i: int|
            0 <= i < detected_entries(detector, first_id).len() ==> (#[trigger] detected_entries(
                detector,
                first_id,
            )[i]).0 == detected_entries(detector, second_id)[i].0,
        forall|i: int|
            0 <= i < detected_entries(detector, first_id).len() && i != instance_id_position(
                detector,
            ) ==> #[trigger] detected_entries(detector, first_id)[i] == detected_entries(
                detector,
                second_id,
            )[i],
        detected_entries(detector, first_id)[instance_id_position(detector)] == (
            SERVICE_INSTANCE_ID@,
            ValueView::Text(first_id),
        ),
        detected_entries(detector, second_id)[instance_id_position(detector)] == (
            SERVICE_INSTANCE_ID@,
            ValueView::Text(second_id),
        ),
{
}

/// Off a function platform no attribute of the compute platform is detected:
/// what is detected starts with the deployment stage.
pub proof fn lemma_detection_off_function_platform(
    detector: LambdaResourceDetector,
    instance_id: Seq<char>,
)
    requires
        !on_function_platform(detector.environment),
    ensures
        lambda_group(detector.environment) == Seq::<(Seq<char>, ValueView)>::empty(),
        detected_entries(detector, instance_id) == deployment_environment_group(detector.build)
            + service_group(detector.build, instance_id) + telemetry_sdk_group(detector.build)
            + vcs_group(detector.build),
{
    assert(detected_entries(detector, instance_id) =~= deployment_environment_group(detector.build)
        + service_group(detector.build, instance_id) + telemetry_sdk_group(detector.build)
        + vcs_group(detector.build));
}

impl LambdaResourceDetector {
    /// Merges the groups that are given with the other groups, in the fixed
    /// order, into a resource.
    fn merge(&self, platform: Vec<Attribute>, service: Vec<Attribute>) -> (resource: Resource)
        requires
            views(platform@) == lambda_group(self.environment),
            exists|instance_id: Seq<char>|
                views(service@) == #[trigger] service_group(self.build, instance_id),
        ensures
            resource.schema() == SCHEMA_URL@,
            resource.well_formed(),
            forall|instance_id: Seq<char>|
                views(service@) == #[trigger] service_group(self.build, instance_id)
                    ==> resource.entries() == detected_entries(*self, instance_id),
    {
        let mut attributes = platform;
        let mut stage = deployment_environment_resource_attributes(&self.build);
        let mut service = service;
        let mut toolkit = telemetry_sdk_resource_attributes(&self.build);
        let mut provenance = vcs_resource_attributes(&self.build);
        let ghost parts = (attributes@, stage@, service@, toolkit@, provenance@);
        attributes.append(&mut stage);
        attributes.append(&mut service);
        attributes.append(&mut toolkit);
        attributes.append(&mut provenance);
        proof {
            assert(views(attributes@) =~= views(parts.0) + views(parts.1) + views(parts.2) + views(
                parts.3,
            ) + views(parts.4));
            let instance_id = choose|instance_id: Seq<char>|
                views(parts.2) == #[trigger] service_group(self.build, instance_id);
            lemma_detected_keys_distinct(*self, instance_id);
        }
        Resource { attributes, schema_url: SCHEMA_URL.to_owned() }
    }

    /// The resource of the service when `instance_id` identifies this run.
    pub fn detect_with_instance_id(&self, instance_id: String) -> (resource: Resource)
        ensures
            resource.entries() == detected_entries(*self, instance_id@),
            resource.schema() == SCHEMA_URL@,
            resource.well_formed(),
    {
        let platform = lambda_resource_attributes(&self.environment);
        let service = service_resource_attributes_with(&self.build, instance_id);
        assert(views(service@) == service_group(self.build, instance_id@));
        self.merge(platform, service)
    }

    /// The resource of the service, with a fresh identifier of this run.
    /// Whichever identifier was drawn, it has the shape of one, and the
    /// resource is the one detected with it.
    pub fn detect(&self) -> (resource: Resource)
        ensures
            exists|instance_id: Seq<char>|
                is_instance_id(instance_id) && resource.entries() == #[trigger] detected_entries(
                    *self,
                    instance_id,
                ),
            resource.schema() == SCHEMA_URL@,
            resource.well_formed(),
    {
        let platform = lambda_resource_attributes(&self.environment);
        let service = service_resource_attributes(&self.build);
        let ghost instance_id = choose|instance_id: Seq<char>|
            is_instance_id(instance_id) && views(service@) == #[trigger] service_group(
                self.build,
                instance_id,
            );
        let resource = self.merge(platform, service);
        assert(resource.entries() == detected_entries(*self, instance_id));
        resource
    }
}

/// The resource of the service under `environment` and `build`, with a
/// fresh identifier of this run.
pub fn init_resource(environment: RuntimeEnvironment, build: BuildConfig) -> (resource: Resource)
    ensures
        exists|instance_id: Seq<char>|
            is_instance_id(instance_id) && resource.entries() == #[trigger] detected_entries(
                (LambdaResourceDetector { environment, build }),
                instance_id,
            ),
        resource.schema() == SCHEMA_URL@,
        resource.well_formed(),
{
    let detector = LambdaResourceDetector { environment, build };
    detector.detect()
}

} // verus!
