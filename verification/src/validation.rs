//! Contract validation between producers and consumers of events: the
//! errors it raises, schema checks, and the registry of who produces and
//! who consumes each event type. Schemas, examples and payloads are JSON
//! texts.

use vstd::prelude::*;
use crate::error::{PubSubError, PubSubResult};
use crate::platform::{check_json_schema, json_schema_outcome, json_values_equal, same_json_value};
use crate::platform::now_millis;
use crate::string_map::StringMap;

verus! {

/// Why a contract check failed.
#[derive(Debug, Clone)]
pub enum ValidationError {
    NoConsumersRegistered(String),
    SchemaCompilationFailed(String),
    SchemaValidationFailed { errors: Vec<String> },
    SerializationFailed(String),
    ContractIncompatible(String),
    ProducerNotRegistered(String),
    ConsumerValidationFailed { message: String },
    ProducerValidationFailed { message: String },
    PactBrokerFailed(String),
    VersionMismatch { expected: String, found: String },
}

/// Result of a contract check.
pub type ValidationResult<T> = Result<T, ValidationError>;

/// The texts of `items` with `sep` between each two.
pub open spec fn joined(items: Seq<Seq<char>>, sep: Seq<char>) -> Seq<char>
    decreases items.len(),
{
    if items.len() == 0 {
        Seq::<char>::empty()
    } else if items.len() == 1 {
        items[0]
    } else {
        joined(items.drop_last(), sep) + sep + items.last()
    }
}

/// The texts of a vector of strings.
pub open spec fn texts(v: Seq<String>) -> Seq<Seq<char>> {
    v.map_values(|s: String| s@)
}

/// The strings of `items` joined with `sep` between each two.
pub fn join_strings(items: &Vec<String>, sep: &str) -> (r: String)
    ensures
        r@ == joined(texts(items@), sep@),
{
    let mut out = String::new();
    let ghost all = texts(items@);
    let mut i: usize = 0;
    proof {
        assert(all.take(0) =~= Seq::<Seq<char>>::empty());
    }
    while i < items.len()
        invariant
            i <= items@.len(),
            all == texts(items@),
            out@ == joined(all.take(i as int), sep@),
        decreases items@.len() - i,
    {
        let ghost before = out@;
        if i > 0 {
            out.append(sep);
        }
        out.append(items[i].as_str());
        proof {
            let next = all.take(i + 1);
            assert(next.drop_last() =~= all.take(i as int));
            assert(next.last() == items@[i as int]@);
            if i == 0 {
                assert(before =~= Seq::<char>::empty());
                assert(out@ =~= next[0]);
            } else {
                assert(out@ =~= before + sep@ + next.last());
            }
        }
        i = i + 1;
    }
    proof {
        assert(all.take(i as int) =~= all);
    }
    out
}

impl ValidationError {
    /// The human-readable text of the error.
    pub open spec fn spec_message(&self) -> Seq<char> {
        match self {
            ValidationError::NoConsumersRegistered(t) => "No consumers registered for event type: "@
                + t@,
            ValidationError::SchemaCompilationFailed(m) => "Schema compilation failed: "@ + m@,
            ValidationError::SchemaValidationFailed { errors } => "Schema validation failed: "@
                + joined(texts(errors@), ", "@),
            ValidationError::SerializationFailed(m) => "Serialization failed: "@ + m@,
            ValidationError::ContractIncompatible(m) => "Contract incompatible: "@ + m@,
            ValidationError::ProducerNotRegistered(t) => "Producer not registered for event type: "@
                + t@,
            ValidationError::ConsumerValidationFailed { message } =>
                "Consumer contract validation failed: "@ + message@,
            ValidationError::ProducerValidationFailed { message } =>
                "Producer contract validation failed: "@ + message@,
            ValidationError::PactBrokerFailed(m) => "Pact broker communication failed: "@ + m@,
            ValidationError::VersionMismatch { expected, found } =>
                "Contract version mismatch: expected "@ + expected@ + ", found "@ + found@,
        }
    }

    /// The human-readable text of the error.
    pub fn message(&self) -> (r: String)
        ensures
            r@ == self.spec_message(),
    {
        match self {
            ValidationError::NoConsumersRegistered(t) => {
                let mut s = "No consumers registered for event type: ".to_owned();
                s.append(t.as_str());
                s
            },
            ValidationError::SchemaCompilationFailed(m) => {
                let mut s = "Schema compilation failed: ".to_owned();
                s.append(m.as_str());
                s
            },
            ValidationError::SchemaValidationFailed { errors } => {
                let mut s = "Schema validation failed: ".to_owned();
                let list = join_strings(errors, ", ");
                s.append(list.as_str());
                s
            },
            ValidationError::SerializationFailed(m) => {
                let mut s = "Serialization failed: ".to_owned();
                s.append(m.as_str());
                s
            },
            ValidationError::ContractIncompatible(m) => {
                let mut s = "Contract incompatible: ".to_owned();
                s.append(m.as_str());
                s
            },
            ValidationError::ProducerNotRegistered(t) => {
                let mut s = "Producer not registered for event type: ".to_owned();
                s.append(t.as_str());
                s
            },
            ValidationError::ConsumerValidationFailed { message } => {
                let mut s = "Consumer contract validation failed: ".to_owned();
                s.append(message.as_str());
                s
            },
            ValidationError::ProducerValidationFailed { message } => {
                let mut s = "Producer contract validation failed: ".to_owned();
                s.append(message.as_str());
                s
            },
            ValidationError::PactBrokerFailed(m) => {
                let mut s = "Pact broker communication failed: ".to_owned();
                s.append(m.as_str());
                s
            },
            ValidationError::VersionMismatch { expected, found } => {
                let mut s = "Contract version mismatch: expected ".to_owned();
                s.append(expected.as_str());
                s.append(", found ");
                s.append(found.as_str());
                s
            },
        }
    }

    /// The port error that a contract error becomes: a serialization
    /// failure stays one with its bare message, a broker failure is a network
    /// error, and every other error is a validation error of the field that
    /// it concerns ("contract", "schema", "consumer", "producer" or
    /// "version") with the error's text.
    pub open spec fn converts_to(&self, e: PubSubError) -> bool {
        match self {
            ValidationError::SerializationFailed(m) => e.is_serialization(m@),
            ValidationError::PactBrokerFailed(_) => e.is_network(self.spec_message()),
            ValidationError::SchemaCompilationFailed(_) => e.is_validation(
                "schema"@,
                self.spec_message(),
            ),
            ValidationError::SchemaValidationFailed { .. } => e.is_validation(
                "schema"@,
                self.spec_message(),
            ),
            ValidationError::ConsumerValidationFailed { .. } => e.is_validation(
                "consumer"@,
                self.spec_message(),
            ),
            ValidationError::ProducerValidationFailed { .. } => e.is_validation(
                "producer"@,
                self.spec_message(),
            ),
            ValidationError::VersionMismatch { .. } => e.is_validation(
                "version"@,
                self.spec_message(),
            ),
            _ => e.is_validation("contract"@, self.spec_message()),
        }
    }

    /// The port error that this contract error becomes.
    pub fn into_error(self) -> (r: PubSubError)
        ensures
            self.converts_to(r),
    {
        let text = self.message();
        match self {
            ValidationError::SerializationFailed(m) => PubSubError::serialization(m.as_str()),
            ValidationError::PactBrokerFailed(_) => PubSubError::network(text.as_str()),
            ValidationError::SchemaCompilationFailed(_) => PubSubError::validation(
                "schema",
                text.as_str(),
            ),
            ValidationError::SchemaValidationFailed { .. } => PubSubError::validation(
                "schema",
                text.as_str(),
            ),
            ValidationError::ConsumerValidationFailed { .. } => PubSubError::validation(
                "consumer",
                text.as_str(),
            ),
            ValidationError::ProducerValidationFailed { .. } => PubSubError::validation(
                "producer",
                text.as_str(),
            ),
            ValidationError::VersionMismatch { .. } => PubSubError::validation(
                "version",
                text.as_str(),
            ),
            _ => PubSubError::validation("contract", text.as_str()),
        }
    }
}

impl From<ValidationError> for PubSubError {
    fn from(error: ValidationError) -> (r: PubSubError)
        ensures
            error.converts_to(r),
    {
        error.into_error()
    }
}

impl vstd::std_specs::convert::FromSpecImpl<ValidationError> for PubSubError {
    /// `from` states its result in its own `ensures` (`converts_to`), over
    /// the texts of the error's strings; this spec function names one such
    /// error, not the strings themselves, so it is not claimed exact.
    open spec fn obeys_from_spec() -> bool {
        false
    }

    open spec fn from_spec(v: ValidationError) -> PubSubError {
        choose|e: PubSubError| v.converts_to(e)
    }
}

/// The result of checking an instance against a schema, given what the JSON
/// Schema check gave: `outcome` is its list of errors, or the reason the
/// schema could not be compiled.
pub fn schema_check_result(outcome: Result<Vec<String>, String>) -> (r: PubSubResult<()>)
    ensures
        match outcome {
            Err(detail) => r matches Err(e) && e.is_validation(
                "schema"@,
                "Schema compilation failed: "@ + detail@,
            ),
            Ok(errors) => if errors@.len() == 0 {
                r is Ok
            } else {
                r matches Err(e) && e.is_validation(
                    "schema"@,
                    "Schema validation failed: "@ + joined(texts(errors@), ", "@),
                )
            },
        },
{
    match outcome {
        Err(detail) => Err(ValidationError::SchemaCompilationFailed(detail).into_error()),
        Ok(errors) => {
            if errors.len() == 0 {
                Ok(())
            } else {
                Err(ValidationError::SchemaValidationFailed { errors }.into_error())
            }
        },
    }
}

/// Check the JSON text `instance_json` against the JSON Schema
/// `schema_json`.
pub fn validate_schema(schema_json: &str, instance_json: &str) -> (r: PubSubResult<()>)
    ensures
        match json_schema_outcome(schema_json@, instance_json@) {
            Err(detail) => r matches Err(e) && e.is_validation(
                "schema"@,
                "Schema compilation failed: "@ + detail,
            ),
            Ok(errors) => if errors.len() == 0 {
                r is Ok
            } else {
                r matches Err(e) && e.is_validation(
                    "schema"@,
                    "Schema validation failed: "@ + joined(errors, ", "@),
                )
            },
        },
{
    let outcome = check_json_schema(schema_json, instance_json);
    schema_check_result(outcome)
}

/// What checking an event against its schema gives: `instance` is the
/// event serialized to JSON (or the serializer's message), `schema_json` its
/// JSON Schema.
pub open spec fn instance_check_is(
    r: PubSubResult<()>,
    schema_json: Seq<char>,
    instance: Result<String, String>,
) -> bool {
    match instance {
        Err(detail) => r matches Err(e) && e.is_serialization(detail@),
        Ok(json) => match json_schema_outcome(schema_json, json@) {
            Err(detail) => r matches Err(e) && e.is_validation(
                "schema"@,
                "Schema compilation failed: "@ + detail,
            ),
            Ok(errors) => if errors.len() == 0 {
                r is Ok
            } else {
                r matches Err(e) && e.is_validation(
                    "schema"@,
                    "Schema validation failed: "@ + joined(errors, ", "@),
                )
            },
        },
    }
}

/// Check an event against its JSON Schema `schema_json`; `instance` is the
/// event serialized to JSON, or the serializer's message.
pub fn validate_instance(schema_json: &str, instance: &Result<String, String>) -> (r: PubSubResult<
    (),
>)
    ensures
        instance_check_is(r, schema_json@, *instance),
{
    match instance {
        Err(detail) => Err(ValidationError::SerializationFailed(detail.clone()).into_error()),
        Ok(json) => validate_schema(schema_json, json.as_str()),
    }
}

/// What a consumer expects to receive from a producer.
#[derive(Debug, Clone)]
pub struct PactMessageExpectation {
    pub description: String,
    pub provider_state: Option<String>,
    /// An example message, as JSON text.
    pub contents: String,
}

/// What a producer offers for verification.
#[derive(Debug, Clone)]
pub struct PactProviderVerification {
    pub event_type: String,
    /// The JSON Schema of the event, as JSON text.
    pub schema: String,
    /// An example event, as JSON text.
    pub example: String,
}

/// The expectation that a consumer of `event_type` records, with the
/// example message `contents`: "expects <type>", with provider state
/// "<type> is available".
pub fn generate_consumer_expectation(event_type: &str, contents: String) -> (r:
    PactMessageExpectation)
    ensures
        r.description@ == "expects "@ + event_type@,
        r.provider_state matches Some(p) && p@ == event_type@ + " is available"@,
        r.contents == contents,
{
    let mut description = "expects ".to_owned();
    description.append(event_type);
    let mut state = event_type.to_owned();
    state.append(" is available");
    PactMessageExpectation { description, provider_state: Some(state), contents }
}

/// The verification data that a producer of `event_type` records.
pub fn generate_provider_verification(event_type: &str, schema: String, example: String) -> (r:
    PactProviderVerification)
    ensures
        r.event_type@ == event_type@,
        r.schema == schema,
        r.example == example,
{
    PactProviderVerification { event_type: event_type.to_owned(), schema, example }
}

/// The texts of a list of names.
pub open spec fn names(v: Vec<String>) -> Seq<Seq<char>> {
    texts(v@)
}

/// Contract information for one event type.
#[derive(Debug, Clone)]
pub struct EventContract {
    pub event_type: String,
    pub producer: Option<String>,
    pub consumers: Vec<String>,
    pub has_consumer_expectations: bool,
    pub has_provider_verification: bool,
}

/// The contracts of a service, by event type.
#[derive(Debug)]
pub struct ContractReport {
    pub service_name: String,
    pub event_contracts: StringMap<EventContract>,
    /// When the report was generated, in milliseconds since the epoch.
    pub generated_at: i64,
}

/// The consumer list `consumers` with `consumer` added at the end, unless
/// it is listed already.
pub open spec fn with_consumer(consumers: Seq<Seq<char>>, consumer: Seq<char>) -> Seq<Seq<char>> {
    if consumers.contains(consumer) {
        consumers
    } else {
        consumers.push(consumer)
    }
}

/// Records which services produce and consume each event type, with their
/// contract data.
#[derive(Debug)]
pub struct ContractValidator {
    pub service_name: String,
    /// Consumers by event type; each list names a service once.
    pub registered_consumers: StringMap<Vec<String>>,
    /// The producer of each event type.
    pub registered_producers: StringMap<String>,
    /// Provider verification data by event type.
    pub provider_verifications: StringMap<PactProviderVerification>,
    /// Consumer expectations by event type.
    pub consumer_expectations: StringMap<Vec<PactMessageExpectation>>,
}

impl ContractValidator {
    /// The validator's invariant: well-formed maps, no consumer listed twice.
    pub open spec fn wf(&self) -> bool {
        &&& self.registered_consumers.wf()
        &&& self.registered_producers.wf()
        &&& self.provider_verifications.wf()
        &&& self.consumer_expectations.wf()
        &&& forall|k: Seq<char>| #[trigger]
            self.registered_consumers@.contains_key(k) ==> names(
                self.registered_consumers@[k],
            ).no_duplicates()
    }

    /// The consumers of `event_type`, in order of registration.
    pub open spec fn consumers(&self, event_type: Seq<char>) -> Seq<Seq<char>> {
        texts(self.registered_consumers.items(event_type))
    }

    /// Nothing is registered.
    pub open spec fn is_empty_registry(&self) -> bool {
        &&& self.registered_consumers@ == Map::<Seq<char>, Vec<String>>::empty()
        &&& self.registered_producers@ == Map::<Seq<char>, String>::empty()
        &&& self.provider_verifications@ == Map::<Seq<char>, PactProviderVerification>::empty()
        &&& self.consumer_expectations@ == Map::<Seq<char>, Vec<PactMessageExpectation>>::empty()
    }

    /// A validator for `service_name` with nothing registered.
    pub fn new(service_name: &str) -> (r: Self)
        ensures
            r.wf(),
            r.service_name@ == service_name@,
            r.is_empty_registry(),
    {
        ContractValidator {
            service_name: service_name.to_owned(),
            registered_consumers: StringMap::new(),
            registered_producers: StringMap::new(),
            provider_verifications: StringMap::new(),
            consumer_expectations: StringMap::new(),
        }
    }

    /// Record `consumer_service` as a consumer of `event_type`; one already
    /// recorded stays listed once.
    pub fn register_consumer(&mut self, event_type: &str, consumer_service: &str)
        requires
            old(self).wf(),
        ensures
            final(self).wf(),
            final(self).registered_consumers@.contains_key(event_type@),
            final(self).registered_consumers@ == old(self).registered_consumers@.insert(
                event_type@,
                final(self).registered_consumers@[event_type@],
            ),
            final(self).consumers(event_type@) == with_consumer(
                old(self).consumers(event_type@),
                consumer_service@,
            ),
            final(self).service_name == old(self).service_name,
            final(self).registered_producers == old(self).registered_producers,
            final(self).provider_verifications == old(self).provider_verifications,
            final(self).consumer_expectations == old(self).consumer_expectations,
    {
        proof {
            self.registered_consumers.lemma_view();
        }
        let ghost before = old(self).consumers(event_type@);
        let mut list: Vec<String> = match self.registered_consumers.get(event_type) {
            Some(v) => {
                let mut c: Vec<String> = Vec::new();
                let mut i: usize = 0;
                while i < v.len()
                    invariant
                        i <= v@.len(),
                        c@ == v@.take(i as int),
                    decreases v@.len() - i,
                {
                    c.push(v[i].clone());
                    assert(c@ =~= v@.take(i as int + 1));
                    i = i + 1;
                }
                assert(c@ =~= v@);
                c
            },
            None => Vec::new(),
        };
        assert(texts(list@) =~= before);
        let mut present = false;
        let mut i: usize = 0;
        let wanted = consumer_service.to_owned();
        while i < list.len()
            invariant
                i <= list@.len(),
                texts(list@) == before,
                wanted@ == consumer_service@,
                present == texts(list@).take(i as int).contains(consumer_service@),
            decreases list@.len() - i,
        {
            let ghost prefix = texts(list@).take(i as int);
            let ghost next = texts(list@).take(i as int + 1);
            proof {
                assert(next =~= prefix.push(list@[i as int]@));
            }
            let same = list[i] == wanted;
            if same {
                present = true;
            }
            proof {
                if same {
                    assert(next[i as int] == consumer_service@);
                } else if next.contains(consumer_service@) {
                    let j = choose|j: int| 0 <= j < next.len() && next[j] == consumer_service@;
                    assert(j < i);
                    assert(prefix[j] == consumer_service@);
                }
                if present && !same {
                    let j = choose|j: int| 0 <= j < prefix.len() && prefix[j] == consumer_service@;
                    assert(next[j] == consumer_service@);
                }
            }
            i = i + 1;
        }
        proof {
            assert(texts(list@).take(i as int) =~= texts(list@));
        }
        if !present {
            list.push(wanted);
            proof {
                assert(texts(list@) =~= before.push(consumer_service@));
            }
        }
        let ghost final_names = texts(list@);
        proof {
            if old(self).registered_consumers@.contains_key(event_type@) {
                assert(before.no_duplicates());
            } else {
                assert(before =~= Seq::<Seq<char>>::empty());
            }
            assert(final_names.no_duplicates()) by {
                if !present {
                    assert forall|a: int, b: int|
                        0 <= a < b < final_names.len() implies final_names[a] != final_names[b] by {
                        if b == final_names.len() - 1 {
                            assert(final_names[a] == before[a]);
                            assert(before.contains(before[a]));
                        }
                    }
                }
            }
        }
        self.registered_consumers.insert(event_type.to_owned(), list);
        proof {
            self.registered_consumers.lemma_view();
            assert forall|k: Seq<char>| #[trigger]
                self.registered_consumers@.contains_key(k) implies names(
                self.registered_consumers@[k],
            ).no_duplicates() by {
                if k != event_type@ {
                    assert(old(self).registered_consumers@.contains_key(k));
                }
            }
        }
    }

    /// Record `producer_service` as the producer of `event_type`, replacing
    /// any earlier one.
    pub fn register_producer(&mut self, event_type: &str, producer_service: &str)
        requires
            old(self).wf(),
        ensures
            final(self).wf(),
            final(self).registered_producers@ == old(self).registered_producers@.insert(
                event_type@,
                final(self).registered_producers@[event_type@],
            ),
            final(self).registered_producers@[event_type@]@ == producer_service@,
            final(self).service_name == old(self).service_name,
            final(self).registered_consumers == old(self).registered_consumers,
            final(self).provider_verifications == old(self).provider_verifications,
            final(self).consumer_expectations == old(self).consumer_expectations,
    {
        self.registered_producers.insert(event_type.to_owned(), producer_service.to_owned());
    }

    /// Record the expectation of `consumer_service` for events of
    /// `event_type`, with the example message `contents`, and record the
    /// service as a consumer.
    pub fn register_consumer_expectation(
        &mut self,
        event_type: &str,
        contents: String,
        consumer_service: &str,
    )
        requires
            old(self).wf(),
        ensures
            final(self).wf(),
            final(self).consumer_expectations@ == old(self).consumer_expectations@.insert(
                event_type@,
                final(self).consumer_expectations@[event_type@],
            ),
            final(self).consumer_expectations.items(event_type@).len() == old(
                self,
            ).consumer_expectations.items(event_type@).len() + 1,
            final(self).consumer_expectations.items(event_type@).drop_last() == old(
                self,
            ).consumer_expectations.items(event_type@),
            final(self).consumer_expectations.items(event_type@).last().description@ == "expects "@
                + event_type@,
            final(self).consumer_expectations.items(event_type@).last().provider_state matches Some(
                p,
            ) && p@ == event_type@ + " is available"@,
            final(self).consumer_expectations.items(event_type@).last().contents == contents,
            final(self).registered_consumers@.contains_key(event_type@),
            final(self).registered_consumers@ == old(self).registered_consumers@.insert(
                event_type@,
                final(self).registered_consumers@[event_type@],
            ),
            final(self).consumers(event_type@) == with_consumer(
                old(self).consumers(event_type@),
                consumer_service@,
            ),
            final(self).service_name == old(self).service_name,
            final(self).registered_producers == old(self).registered_producers,
            final(self).provider_verifications == old(self).provider_verifications,
    {
        let expectation = generate_consumer_expectation(event_type, contents);
        self.consumer_expectations.push_value(event_type, expectation);
        proof {
            let it = self.consumer_expectations.items(event_type@);
            assert(it.drop_last() =~= old(self).consumer_expectations.items(event_type@));
        }
        self.register_consumer(event_type, consumer_service);
    }

    /// Record the verification data of `producer_service` under its event
    /// type, replacing earlier data, and record the service as the producer.
    pub fn register_provider_verification(
        &mut self,
        verification: PactProviderVerification,
        producer_service: &str,
    )
        requires
            old(self).wf(),
        ensures
            final(self).wf(),
            final(self).provider_verifications@ == old(self).provider_verifications@.insert(
                verification.event_type@,
                verification,
            ),
            final(self).registered_producers@ == old(self).registered_producers@.insert(
                verification.event_type@,
                final(self).registered_producers@[verification.event_type@],
            ),
            final(self).registered_producers@[verification.event_type@]@ == producer_service@,
            final(self).service_name == old(self).service_name,
            final(self).registered_consumers == old(self).registered_consumers,
            final(self).consumer_expectations == old(self).consumer_expectations,
    {
        let event_type = verification.event_type.clone();
        self.provider_verifications.insert(event_type.clone(), verification);
        self.register_producer(event_type.as_str(), producer_service);
    }
}

/// The first `i + 1` elements of `s` hold `k` just when the first `i` do or
/// element `i` is `k`.
proof fn lemma_take_next_contains<A>(s: Seq<A>, i: int, k: A)
    requires
        0 <= i < s.len(),
    ensures
        s.take(i + 1).contains(k) == (s.take(i).contains(k) || s[i] == k),
{
    let next = s.take(i + 1);
    let prev = s.take(i);
    if next.contains(k) {
        let j = choose|j: int| 0 <= j < next.len() && next[j] == k;
        if j < i {
            assert(prev[j] == k);
        }
    }
    if prev.contains(k) {
        let j = choose|j: int| 0 <= j < prev.len() && prev[j] == k;
        assert(next[j] == k);
    }
    if s[i] == k {
        assert(next[i] == k);
    }
}

/// A copy of a list of strings.
pub fn copy_strings(v: &Vec<String>) -> (r: Vec<String>)
    ensures
        r@ == v@,
{
    let mut c: Vec<String> = Vec::new();
    let mut i: usize = 0;
    while i < v.len()
        invariant
            i <= v@.len(),
            c@ == v@.take(i as int),
        decreases v@.len() - i,
    {
        c.push(v[i].clone());
        assert(c@ =~= v@.take(i as int + 1));
        i = i + 1;
    }
    assert(c@ =~= v@);
    c
}

/// The result of comparing an event of type `event_type` with a producer's
/// verification data, given whether the two schemas are the same JSON value
/// (`schemas_equal`; consulted only when the event types agree).
pub fn schema_compatibility_result(
    event_type: &str,
    verification: &PactProviderVerification,
    schemas_equal: bool,
) -> (r: ValidationResult<()>)
    ensures
        verification.event_type@ != event_type@ ==> (r matches Err(
            ValidationError::ContractIncompatible(m),
        ) && m@ == "Event type mismatch: expected "@ + verification.event_type@ + ", got "@
            + event_type@),
        verification.event_type@ == event_type@ && !schemas_equal ==> (r matches Err(
            ValidationError::ContractIncompatible(m),
        ) && m@ == "Schema structures are incompatible"@),
        verification.event_type@ == event_type@ && schemas_equal ==> r is Ok,
{
    if verification.event_type != event_type.to_owned() {
        let mut m = "Event type mismatch: expected ".to_owned();
        m.append(verification.event_type.as_str());
        m.append(", got ");
        m.append(event_type);
        return Err(ValidationError::ContractIncompatible(m));
    }
    if !schemas_equal {
        return Err(ValidationError::ContractIncompatible("Schema structures are incompatible".to_owned()));
    }
    Ok(())
}

/// Compare an event of type `event_type` whose schema is `schema_json` with
/// a producer's verification data: the event types must agree and the
/// schemas must be the same JSON value.
pub fn validate_schema_compatibility(
    event_type: &str,
    schema_json: &str,
    verification: &PactProviderVerification,
) -> (r: ValidationResult<()>)
    ensures
        verification.event_type@ != event_type@ ==> (r matches Err(
            ValidationError::ContractIncompatible(m),
        ) && m@ == "Event type mismatch: expected "@ + verification.event_type@ + ", got "@
            + event_type@),
        verification.event_type@ == event_type@ && !json_values_equal(
            schema_json@,
            verification.schema@,
        ) ==> (r matches Err(ValidationError::ContractIncompatible(m)) && m@
            == "Schema structures are incompatible"@),
        verification.event_type@ == event_type@ && json_values_equal(
            schema_json@,
            verification.schema@,
        ) ==> r is Ok,
{
    if verification.event_type != event_type.to_owned() {
        return schema_compatibility_result(event_type, verification, false);
    }
    let equal = same_json_value(schema_json, verification.schema.as_str());
    schema_compatibility_result(event_type, verification, equal)
}

/// What checking a consumable event gives once a consumer is known: the
/// check against the schema, then the comparison with the producer's
/// verification data, if any.
pub open spec fn compatibility_is(
    r: PubSubResult<()>,
    v: ContractValidator,
    event_type: Seq<char>,
    schema_json: Seq<char>,
    instance: Result<String, String>,
) -> bool {
    if instance_passes(schema_json, instance) {
        match v.provider_verifications.lookup(event_type) {
            None => r is Ok,
            Some(pv) => if pv.event_type@ != event_type {
                r matches Err(e) && e.is_validation(
                    "contract"@,
                    "Contract incompatible: "@ + ("Event type mismatch: expected "@ + pv.event_type@
                        + ", got "@ + event_type),
                )
            } else if !json_values_equal(schema_json, pv.schema@) {
                r matches Err(e) && e.is_validation(
                    "contract"@,
                    "Contract incompatible: "@ + "Schema structures are incompatible"@,
                )
            } else {
                r is Ok
            },
        }
    } else {
        instance_check_is(r, schema_json, instance)
    }
}

/// The event serialized and met its schema.
pub open spec fn instance_passes(schema_json: Seq<char>, instance: Result<String, String>) -> bool {
    instance matches Ok(json) && json_schema_outcome(schema_json, json@) matches Ok(errors)
        && errors.len() == 0
}

/// The contract recorded for `event_type` in validator `v`.
pub open spec fn is_contract_of(v: ContractValidator, event_type: Seq<char>, c: EventContract) -> bool {
    &&& c.event_type@ == event_type
    &&& names(c.consumers) == v.consumers(event_type)
    &&& c.producer == v.registered_producers.lookup(event_type)
    &&& c.has_consumer_expectations == v.consumer_expectations@.contains_key(event_type)
    &&& c.has_provider_verification == v.provider_verifications@.contains_key(event_type)
}

impl ContractValidator {
    /// Check that an event of `event_type`, with schema `schema_json`,
    /// serialized to `instance`, can be consumed: some consumer is
    /// registered, the event meets the schema, and the schema agrees with the
    /// producer's verification data, if any.
    pub fn validate_consumer_compatibility(
        &self,
        event_type: &str,
        schema_json: &str,
        instance: &Result<String, String>,
    ) -> (r: PubSubResult<()>)
        requires
            self.wf(),
        ensures
            self.consumers(event_type@).len() == 0 ==> (r matches Err(e) && e.is_validation(
                "contract"@,
                "No consumers registered for event type: "@ + event_type@,
            )),
            self.consumers(event_type@).len() > 0 ==> compatibility_is(
                r,
                *self,
                event_type@,
                schema_json@,
                *instance,
            ),
    {
        let has_consumers = match self.registered_consumers.get(event_type) {
            Some(v) => v.len() > 0,
            None => false,
        };
        if !has_consumers {
            return Err(ValidationError::NoConsumersRegistered(event_type.to_owned()).into_error());
        }
        let checked = validate_instance(schema_json, instance);
        if checked.is_err() {
            return checked;
        }
        match self.provider_verifications.get(event_type) {
            Some(pv) => match validate_schema_compatibility(event_type, schema_json, pv) {
                Ok(()) => Ok(()),
                Err(e) => Err(e.into_error()),
            },
            None => Ok(()),
        }
    }

    /// The consumers of `event_type`, if any were ever registered.
    pub fn get_consumers(&self, event_type: &str) -> (r: Option<&Vec<String>>)
        requires
            self.wf(),
        ensures
            match r {
                Some(v) => self.registered_consumers@.contains_key(event_type@) && *v
                    == self.registered_consumers@[event_type@],
                None => !self.registered_consumers@.contains_key(event_type@),
            },
    {
        self.registered_consumers.get(event_type)
    }

    /// The producer of `event_type`, if one is registered.
    pub fn get_producer(&self, event_type: &str) -> (r: Option<&String>)
        requires
            self.wf(),
        ensures
            match r {
                Some(p) => self.registered_producers@.contains_key(event_type@) && *p
                    == self.registered_producers@[event_type@],
                None => !self.registered_producers@.contains_key(event_type@),
            },
    {
        self.registered_producers.get(event_type)
    }

    /// The consumer expectations for `event_type`, if any were registered.
    pub fn get_consumer_expectations(&self, event_type: &str) -> (r: Option<
        &Vec<PactMessageExpectation>,
    >)
        requires
            self.wf(),
        ensures
            match r {
                Some(v) => self.consumer_expectations@.contains_key(event_type@) && *v
                    == self.consumer_expectations@[event_type@],
                None => !self.consumer_expectations@.contains_key(event_type@),
            },
    {
        self.consumer_expectations.get(event_type)
    }

    /// The provider verification data for `event_type`, if registered.
    pub fn get_provider_verification(&self, event_type: &str) -> (r: Option<
        &PactProviderVerification,
    >)
        requires
            self.wf(),
        ensures
            match r {
                Some(p) => self.provider_verifications@.contains_key(event_type@) && *p
                    == self.provider_verifications@[event_type@],
                None => !self.provider_verifications@.contains_key(event_type@),
            },
    {
        self.provider_verifications.get(event_type)
    }

    /// The contract recorded for `event_type`.
    fn contract_for(&self, event_type: &String) -> (r: EventContract)
        requires
            self.wf(),
        ensures
            is_contract_of(*self, event_type@, r),
    {
        let consumers = match self.registered_consumers.get(event_type.as_str()) {
            Some(v) => copy_strings(v),
            None => Vec::new(),
        };
        let producer = match self.registered_producers.get(event_type.as_str()) {
            Some(p) => Some(p.clone()),
            None => None,
        };
        let has_consumer_expectations = self.consumer_expectations.contains_key(event_type.as_str());
        let has_provider_verification = self.provider_verifications.contains_key(event_type.as_str());
        let r = EventContract {
            event_type: event_type.clone(),
            producer,
            consumers,
            has_consumer_expectations,
            has_provider_verification,
        };
        assert(names(r.consumers) =~= self.consumers(event_type@));
        r
    }

    /// The contract report of the validator at time `now`: one contract per
    /// event type with a consumer or a producer registered.
    pub fn contract_report_at(&self, now: i64) -> (r: ContractReport)
        requires
            self.wf(),
        ensures
            r.service_name == self.service_name,
            r.generated_at == now,
            r.event_contracts.wf(),
            forall|k: Seq<char>| #[trigger]
                r.event_contracts@.contains_key(k) <==> (self.registered_consumers@.contains_key(k)
                    || self.registered_producers@.contains_key(k)),
            forall|k: Seq<char>| #[trigger]
                r.event_contracts@.contains_key(k) ==> is_contract_of(
                    *self,
                    k,
                    r.event_contracts@[k],
                ),
    {
        proof {
            self.registered_consumers.lemma_view();
            self.registered_producers.lemma_view();
        }
        let mut contracts: StringMap<EventContract> = StringMap::new();
        let ghost ck = self.registered_consumers.key_seq();
        let ghost pk = self.registered_producers.key_seq();
        let mut i: usize = 0;
        while i < self.registered_consumers.len()
            invariant
                self.wf(),
                ck == self.registered_consumers.key_seq(),
                i <= ck.len(),
                contracts.wf(),
                forall|k: Seq<char>| #[trigger]
                    contracts@.contains_key(k) <==> ck.take(i as int).contains(k),
                forall|k: Seq<char>| #[trigger]
                    contracts@.contains_key(k) ==> is_contract_of(*self, k, contracts@[k]),
            decreases ck.len() - i,
        {
            let key = self.registered_consumers.key_at(i);
            let c = self.contract_for(key);
            contracts.insert(key.clone(), c);
            proof {
                assert forall|k: Seq<char>| #[trigger]
                    contracts@.contains_key(k) <==> ck.take(i + 1).contains(k) by {
                    lemma_take_next_contains(ck, i as int, k);
                }
            }
            i = i + 1;
        }
        proof {
            assert(ck.take(i as int) =~= ck);
            assert(pk.take(0) =~= Seq::<Seq<char>>::empty());
        }
        let mut j: usize = 0;
        while j < self.registered_producers.len()
            invariant
                self.wf(),
                ck == self.registered_consumers.key_seq(),
                pk == self.registered_producers.key_seq(),
                j <= pk.len(),
                contracts.wf(),
                forall|k: Seq<char>| #[trigger]
                    contracts@.contains_key(k) <==> (ck.contains(k) || pk.take(j as int).contains(k)),
                forall|k: Seq<char>| #[trigger]
                    contracts@.contains_key(k) ==> is_contract_of(*self, k, contracts@[k]),
            decreases pk.len() - j,
        {
            let key = self.registered_producers.key_at(j);
            if !self.registered_consumers.contains_key(key.as_str()) {
                let c = self.contract_for(key);
                contracts.insert(key.clone(), c);
            }
            proof {
                self.registered_consumers.lemma_view();
                assert forall|k: Seq<char>| #[trigger]
                    contracts@.contains_key(k) <==> (ck.contains(k) || pk.take(j + 1).contains(k)) by {
                    lemma_take_next_contains(pk, j as int, k);
                }
            }
            j = j + 1;
        }
        proof {
            assert(pk.take(j as int) =~= pk);
        }
        ContractReport { service_name: self.service_name.clone(), event_contracts: contracts, generated_at: now }
    }

    /// The contract report of the validator, generated now.
    pub fn generate_contract_report(&self) -> (r: ContractReport)
        requires
            self.wf(),
        ensures
            r.service_name == self.service_name,
            r.event_contracts.wf(),
            forall|k: Seq<char>| #[trigger]
                r.event_contracts@.contains_key(k) <==> (self.registered_consumers@.contains_key(k)
                    || self.registered_producers@.contains_key(k)),
            forall|k: Seq<char>| #[trigger]
                r.event_contracts@.contains_key(k) ==> is_contract_of(
                    *self,
                    k,
                    r.event_contracts@[k],
                ),
    {
        self.contract_report_at(now_millis())
    }

    /// Forget every registration; the service name stays.
    pub fn clear(&mut self)
        ensures
            final(self).wf(),
            final(self).service_name == old(self).service_name,
            final(self).is_empty_registry(),
    {
        self.registered_consumers.clear();
        self.registered_producers.clear();
        self.provider_verifications.clear();
        self.consumer_expectations.clear();
    }
}

/// Lets the publish path tell contract events, whose types the
/// application marks as such, from other payloads, and check their schema.
/// Both methods have defaults for payloads that are not contract events.
pub trait PactEventValidator {
    /// Whether the payload is a contract event; `false` by default.
    fn is_pact_event(&self) -> (r: bool)
        default_ensures
            !r,
    {
        false
    }

    /// Check the payload against its schema; accepted by default.
    fn validate_pact_schema(&self) -> (r: PubSubResult<()>)
        default_ensures
            r is Ok,
    {
        Ok(())
    }
}

} // verus!
