//! The in-memory adapter with contract validation: publishing checks that
//! the event meets its schema and that some consumer is registered for its
//! type. Events arrive as their type, their JSON Schema and their JSON
//! serialization (or the serializer's message).

use vstd::prelude::*;
use crate::adapter::{activity_set, is_placeholder_status, is_published_event, is_subscription_status, subscribed, MockPubSubAdapter};
use crate::error::{PubSubError, PubSubResult};
use crate::event::EventId;
use crate::ports::{HandlerError, HandlerResult};
use crate::storage::{MockStorage, SubscriptionId};
use crate::subscription::{SubscriptionOptions, SubscriptionStatus};
use crate::platform::json_schema_outcome;
use crate::validation::{
    compatibility_is, generate_consumer_expectation, generate_provider_verification,
    instance_check_is, instance_passes, with_consumer, ContractReport, ContractValidator,
};

verus! {

/// The in-memory adapter with a contract validator.
#[derive(Debug)]
pub struct ValidatedMockAdapter {
    /// The adapter that stores published events.
    pub inner: MockPubSubAdapter,
    /// The registry of producers and consumers.
    pub validator: ContractValidator,
    pub service_name: String,
}

/// The event passes every check before publication: it serialized, meets
/// its schema, has a consumer, and agrees with the producer's verification
/// data, if any.
pub open spec fn passes_checks(
    v: ContractValidator,
    event_type: Seq<char>,
    schema_json: Seq<char>,
    instance: Result<String, String>,
) -> bool {
    &&& instance_passes(schema_json, instance)
    &&& v.consumers(event_type).len() > 0
    &&& match v.provider_verifications.lookup(event_type) {
        None => true,
        Some(pv) => pv.event_type@ == event_type && crate::platform::json_values_equal(
            schema_json,
            pv.schema@,
        ),
    }
}

/// The error that the checks before publication give when they fail: the
/// schema check first, then the consumer check, then the comparison with
/// the producer's data.
pub open spec fn check_failure_is(
    r: PubSubResult<EventId>,
    v: ContractValidator,
    event_type: Seq<char>,
    schema_json: Seq<char>,
    instance: Result<String, String>,
) -> bool {
    if !instance_passes(schema_json, instance) {
        instance_check_is(
            match r {
                Ok(_) => Ok(()),
                Err(e) => Err(e),
            },
            schema_json,
            instance,
        )
    } else if v.consumers(event_type).len() == 0 {
        r matches Err(e) && e.is_validation(
            "contract"@,
            "No consumers registered for event type: "@ + event_type,
        )
    } else {
        compatibility_is(
            match r {
                Ok(_) => Ok(()),
                Err(e) => Err(e),
            },
            v,
            event_type,
            schema_json,
            instance,
        )
    }
}

/// The message of the error for a payload that is not a contract event.
pub open spec fn not_pact_event_text(rust_type: Seq<char>) -> Seq<char> {
    "Event of type '"@ + rust_type
        + "' is not a pact event. Use pact_event! macro to define your events."@
}

impl ValidatedMockAdapter {
    /// The adapter's invariant.
    pub open spec fn wf(&self) -> bool {
        &&& self.inner.wf()
        &&& self.validator.wf()
        &&& self.validator.service_name == self.service_name
    }

    /// A validated adapter for `service_name`, with nothing stored or
    /// registered.
    pub fn new(service_name: &str) -> (r: Self)
        ensures
            r.wf(),
            r.service_name@ == service_name@,
            r.inner.storage.is_empty_storage(),
            r.validator.is_empty_registry(),
    {
        let validator = ContractValidator::new(service_name);
        let name = validator.service_name.clone();
        ValidatedMockAdapter { inner: MockPubSubAdapter::new(), validator, service_name: name }
    }

    /// A validated adapter that simulates no failures.
    pub fn reliable(service_name: &str) -> (r: Self)
        ensures
            r.wf(),
            r.service_name@ == service_name@,
            r.inner.storage.is_empty_storage(),
            r.validator.is_empty_registry(),
    {
        let validator = ContractValidator::new(service_name);
        let name = validator.service_name.clone();
        ValidatedMockAdapter { inner: MockPubSubAdapter::reliable(), validator, service_name: name }
    }

    /// The published events as (topic, JSON text) pairs: this adapter keeps
    /// none apart from its inner adapter, and returns an empty list.
    pub fn get_published_events(&self) -> (r: Vec<(String, String)>)
        ensures
            r@.len() == 0,
    {
        Vec::new()
    }

    /// Forget the published events: this adapter keeps none apart from its
    /// inner adapter, and does nothing.
    pub fn clear_published_events(&self) {
    }

    /// Record, as another service would, `consumer_service` as a consumer
    /// of `event_type`.
    pub fn simulate_consumer_registration(&mut self, event_type: &str, consumer_service: &str)
        requires
            old(self).wf(),
        ensures
            final(self).wf(),
            final(self).inner == old(self).inner,
            final(self).service_name == old(self).service_name,
            final(self).validator.registered_consumers@.contains_key(event_type@),
            final(self).validator.registered_consumers@ == old(
                self,
            ).validator.registered_consumers@.insert(
                event_type@,
                final(self).validator.registered_consumers@[event_type@],
            ),
            final(self).validator.consumers(event_type@) == with_consumer(
                old(self).validator.consumers(event_type@),
                consumer_service@,
            ),
            final(self).validator.registered_producers == old(self).validator.registered_producers,
            final(self).validator.provider_verifications == old(
                self,
            ).validator.provider_verifications,
            final(self).validator.consumer_expectations == old(self).validator.consumer_expectations,
    {
        self.validator.register_consumer(event_type, consumer_service);
    }

    /// Record, as another service would, `producer_service` as the producer
    /// of `event_type`.
    pub fn simulate_producer_registration(&mut self, event_type: &str, producer_service: &str)
        requires
            old(self).wf(),
        ensures
            final(self).wf(),
            final(self).inner == old(self).inner,
            final(self).service_name == old(self).service_name,
            final(self).validator.registered_producers@ == old(
                self,
            ).validator.registered_producers@.insert(
                event_type@,
                final(self).validator.registered_producers@[event_type@],
            ),
            final(self).validator.registered_producers@[event_type@]@ == producer_service@,
            final(self).validator.registered_consumers == old(self).validator.registered_consumers,
            final(self).validator.provider_verifications == old(
                self,
            ).validator.provider_verifications,
            final(self).validator.consumer_expectations == old(self).validator.consumer_expectations,
    {
        self.validator.register_producer(event_type, producer_service);
    }

    /// The name of the service this adapter stands for.
    pub fn service_name(&self) -> (r: &str)
        ensures
            r@ == self.service_name@,
    {
        self.service_name.as_str()
    }

    /// The contract report of this adapter's validator.
    pub fn get_contract_report(&self) -> (r: ContractReport)
        requires
            self.wf(),
        ensures
            r.service_name == self.service_name,
            r.event_contracts.wf(),
            forall|k: Seq<char>| #[trigger]
                r.event_contracts@.contains_key(k) <==> (
                self.validator.registered_consumers@.contains_key(k)
                    || self.validator.registered_producers@.contains_key(k)),
            forall|k: Seq<char>| #[trigger]
                r.event_contracts@.contains_key(k) ==> crate::validation::is_contract_of(
                    self.validator,
                    k,
                    r.event_contracts@[k],
                ),
    {
        self.validator.generate_contract_report()
    }

    /// Forget every registration.
    pub fn clear_contracts(&mut self)
        requires
            old(self).wf(),
        ensures
            final(self).wf(),
            final(self).inner == old(self).inner,
            final(self).service_name == old(self).service_name,
            final(self).validator.is_empty_registry(),
    {
        self.validator.clear();
    }

    /// Run the checks before publication, then publish the event's JSON on
    /// `topic`, with partition key `key` if one is given.
    fn publish_checked(
        &mut self,
        topic: &str,
        key: Option<&str>,
        event_type: &str,
        schema_json: &str,
        instance: Result<String, String>,
    ) -> (r: PubSubResult<EventId>)
        requires
            old(self).wf(),
            old(self).inner.room_for(topic@, 1),
        ensures
            final(self).wf(),
            final(self).validator == old(self).validator,
            final(self).service_name == old(self).service_name,
            passes_checks(old(self).validator, event_type@, schema_json@, instance) <==> r is Ok,
            !passes_checks(old(self).validator, event_type@, schema_json@, instance) ==> {
                &&& check_failure_is(r, old(self).validator, event_type@, schema_json@, instance)
                &&& final(self).inner == old(self).inner
            },
            passes_checks(old(self).validator, event_type@, schema_json@, instance) ==> {
                &&& instance matches Ok(json) && r matches Ok(id) && {
                    &&& id == final(self).inner.published(topic@).last().id
                    &&& final(self).inner.published(topic@).len() == old(self).inner.published(
                        topic@,
                    ).len() + 1
                    &&& final(self).inner.published(topic@).drop_last() == old(
                        self,
                    ).inner.published(topic@)
                    &&& is_published_event(
                        final(self).inner.published(topic@).last(),
                        topic@,
                        json,
                        match key {
                            Some(k) => Some(k@),
                            None => None,
                        },
                    )
                    &&& final(self).inner.storage.events@ == old(self).inner.storage.events@.insert(
                        topic@,
                        final(self).inner.storage.events@[topic@],
                    )
                }
            },
    {
        let checked = crate::validation::validate_instance(schema_json, &instance);
        if let Err(e) = checked {
            return Err(e);
        }
        let compatible = self.validator.validate_consumer_compatibility(
            event_type,
            schema_json,
            &instance,
        );
        if let Err(e) = compatible {
            return Err(e);
        }
        match key {
            Some(k) => self.inner.publish_with_key(topic, k, instance),
            None => self.inner.publish(topic, instance),
        }
    }

    /// Publish an event on the topic named by its type, after checking that
    /// it meets its schema and that some consumer is registered for it.
    pub fn publish_validated(
        &mut self,
        event_type: &str,
        schema_json: &str,
        instance: Result<String, String>,
    ) -> (r: PubSubResult<EventId>)
        requires
            old(self).wf(),
            old(self).inner.room_for(event_type@, 1),
        ensures
            final(self).wf(),
            final(self).validator == old(self).validator,
            passes_checks(old(self).validator, event_type@, schema_json@, instance) <==> r is Ok,
            !passes_checks(old(self).validator, event_type@, schema_json@, instance) ==> {
                &&& check_failure_is(r, old(self).validator, event_type@, schema_json@, instance)
                &&& final(self).inner == old(self).inner
            },
            passes_checks(old(self).validator, event_type@, schema_json@, instance) ==> {
                &&& instance matches Ok(json) && r matches Ok(id) && {
                    &&& id == final(self).inner.published(event_type@).last().id
                    &&& final(self).inner.published(event_type@).len() == old(
                        self,
                    ).inner.published(event_type@).len() + 1
                    &&& final(self).inner.published(event_type@).drop_last() == old(
                        self,
                    ).inner.published(event_type@)
                    &&& final(self).inner.storage.events@ == old(self).inner.storage.events@.insert(
                        event_type@,
                        final(self).inner.storage.events@[event_type@],
                    )
                    &&& is_published_event(
                        final(self).inner.published(event_type@).last(),
                        event_type@,
                        json,
                        None,
                    )
                }
            },
    {
        self.publish_checked(event_type, None, event_type, schema_json, instance)
    }

    /// Publish a contract event on `topic`: a payload that is not a contract
    /// event is refused, then `pact_schema_check` (the payload's own schema
    /// check) must pass, then the checks of `publish_validated`.
    pub fn publish_pact(
        &mut self,
        topic: &str,
        rust_type: &str,
        is_pact_event: bool,
        pact_schema_check: PubSubResult<()>,
        event_type: &str,
        schema_json: &str,
        instance: Result<String, String>,
    ) -> (r: PubSubResult<EventId>)
        requires
            old(self).wf(),
            old(self).inner.room_for(topic@, 1),
        ensures
            final(self).wf(),
            final(self).validator == old(self).validator,
            !is_pact_event ==> (r matches Err(e) && e.is_validation(
                "pact_event"@,
                not_pact_event_text(rust_type@),
            )) && final(self).inner == old(self).inner,
            is_pact_event && pact_schema_check is Err ==> r == Err::<EventId, PubSubError>(
                pact_schema_check->Err_0,
            ) && final(self).inner == old(self).inner,
            is_pact_event && pact_schema_check is Ok ==> {
                &&& passes_checks(old(self).validator, event_type@, schema_json@, instance) <==> r is Ok
                &&& !passes_checks(old(self).validator, event_type@, schema_json@, instance) ==> {
                    &&& check_failure_is(r, old(self).validator, event_type@, schema_json@, instance)
                    &&& final(self).inner == old(self).inner
                }
                &&& passes_checks(old(self).validator, event_type@, schema_json@, instance) ==> (
                instance matches Ok(json) && r matches Ok(id) && {
                    &&& id == final(self).inner.published(topic@).last().id
                    &&& final(self).inner.published(topic@).drop_last() == old(
                        self,
                    ).inner.published(topic@)
                    &&& is_published_event(final(self).inner.published(topic@).last(), topic@, json, None)
                })
            },
    {
        if !is_pact_event {
            let mut m = "Event of type '".to_owned();
            m.append(rust_type);
            m.append("' is not a pact event. Use pact_event! macro to define your events.");
            return Err(PubSubError::validation("pact_event", m.as_str()));
        }
        if let Err(e) = pact_schema_check {
            return Err(e);
        }
        self.publish_checked(topic, None, event_type, schema_json, instance)
    }

    /// Publish a contract event on `topic` with partition key `key`, with
    /// the checks of `publish_pact`.
    pub fn publish_pact_with_key(
        &mut self,
        topic: &str,
        key: &str,
        rust_type: &str,
        is_pact_event: bool,
        pact_schema_check: PubSubResult<()>,
        event_type: &str,
        schema_json: &str,
        instance: Result<String, String>,
    ) -> (r: PubSubResult<EventId>)
        requires
            old(self).wf(),
            old(self).inner.room_for(topic@, 1),
        ensures
            final(self).wf(),
            final(self).validator == old(self).validator,
            !is_pact_event ==> (r matches Err(e) && e.is_validation(
                "pact_event"@,
                not_pact_event_text(rust_type@),
            )) && final(self).inner == old(self).inner,
            is_pact_event && pact_schema_check is Err ==> r == Err::<EventId, PubSubError>(
                pact_schema_check->Err_0,
            ) && final(self).inner == old(self).inner,
            is_pact_event && pact_schema_check is Ok ==> {
                &&& passes_checks(old(self).validator, event_type@, schema_json@, instance) <==> r is Ok
                &&& !passes_checks(old(self).validator, event_type@, schema_json@, instance) ==> {
                    &&& check_failure_is(r, old(self).validator, event_type@, schema_json@, instance)
                    &&& final(self).inner == old(self).inner
                }
                &&& passes_checks(old(self).validator, event_type@, schema_json@, instance) ==> (
                instance matches Ok(json) && r matches Ok(id) && {
                    &&& id == final(self).inner.published(topic@).last().id
                    &&& final(self).inner.published(topic@).drop_last() == old(
                        self,
                    ).inner.published(topic@)
                    &&& is_published_event(
                        final(self).inner.published(topic@).last(),
                        topic@,
                        json,
                        Some(key@),
                    )
                })
            },
    {
        if !is_pact_event {
            let mut m = "Event of type '".to_owned();
            m.append(rust_type);
            m.append("' is not a pact event. Use pact_event! macro to define your events.");
            return Err(PubSubError::validation("pact_event", m.as_str()));
        }
        if let Err(e) = pact_schema_check {
            return Err(e);
        }
        self.publish_checked(topic, Some(key), event_type, schema_json, instance)
    }

    /// Record this service's provider verification for events of
    /// `event_type` (with their schema and an example), and the service as
    /// their producer.
    pub fn register_producer_contract(
        &mut self,
        event_type: &str,
        schema_json: String,
        example_json: String,
        service_name: &str,
    ) -> (r: PubSubResult<()>)
        requires
            old(self).wf(),
        ensures
            final(self).wf(),
            r is Ok,
            final(self).inner == old(self).inner,
            final(self).service_name == old(self).service_name,
            final(self).validator.service_name == old(self).validator.service_name,
            final(self).validator.provider_verifications@
                == old(self).validator.provider_verifications@.insert(
                event_type@,
                final(self).validator.provider_verifications@[event_type@],
            ),
            final(self).validator.provider_verifications@[event_type@].event_type@ == event_type@,
            final(self).validator.provider_verifications@[event_type@].schema == schema_json,
            final(self).validator.provider_verifications@[event_type@].example == example_json,
            final(self).validator.registered_producers@
                == old(self).validator.registered_producers@.insert(
                event_type@,
                final(self).validator.registered_producers@[event_type@],
            ),
            final(self).validator.registered_producers@[event_type@]@ == service_name@,
            final(self).validator.registered_consumers == old(self).validator.registered_consumers,
            final(self).validator.consumer_expectations
                == old(self).validator.consumer_expectations,
    {
        let verification = generate_provider_verification(event_type, schema_json, example_json);
        self.validator.register_provider_verification(verification, service_name);
        Ok(())
    }

    /// Record the expectation of consumer `service_name` for events of
    /// `event_type` (with an example), and the service as their consumer.
    pub fn register_consumer_contract(
        &mut self,
        event_type: &str,
        example_json: String,
        service_name: &str,
    ) -> (r: PubSubResult<()>)
        requires
            old(self).wf(),
        ensures
            final(self).wf(),
            r is Ok,
            final(self).inner == old(self).inner,
            final(self).service_name == old(self).service_name,
            final(self).validator.service_name == old(self).validator.service_name,
            final(self).validator.consumers(event_type@).contains(service_name@),
            final(self).validator.consumers(event_type@) == with_consumer(
                old(self).validator.consumers(event_type@),
                service_name@,
            ),
            final(self).validator.registered_consumers@
                == old(self).validator.registered_consumers@.insert(
                event_type@,
                final(self).validator.registered_consumers@[event_type@],
            ),
            final(self).validator.consumer_expectations@
                == old(self).validator.consumer_expectations@.insert(
                event_type@,
                final(self).validator.consumer_expectations@[event_type@],
            ),
            final(self).validator.consumer_expectations.items(event_type@).drop_last()
                == old(self).validator.consumer_expectations.items(event_type@),
            final(self).validator.consumer_expectations.items(event_type@).len() > 0,
            final(self).validator.consumer_expectations.items(event_type@).last().description@
                == "expects "@ + event_type@,
            final(self).validator.consumer_expectations.items(event_type@).last().contents
                == example_json,
            final(self).validator.registered_producers == old(self).validator.registered_producers,
            final(self).validator.provider_verifications
                == old(self).validator.provider_verifications,
    {
        self.validator.register_consumer_expectation(event_type, example_json, service_name);
        proof {
            let before = old(self).validator.consumers(event_type@);
            if !before.contains(service_name@) {
                let after = before.push(service_name@);
                assert(after[after.len() - 1] == service_name@);
            }
        }
        Ok(())
    }

    /// Check that an event of `event_type` can be consumed, as the
    /// validator does.
    pub fn validate_consumer_compatibility(
        &self,
        event_type: &str,
        schema_json: &str,
        instance: &Result<String, String>,
    ) -> (r: PubSubResult<()>)
        requires
            self.wf(),
        ensures
            self.validator.consumers(event_type@).len() == 0 ==> (r matches Err(e)
                && e.is_validation(
                "contract"@,
                "No consumers registered for event type: "@ + event_type@,
            )),
            self.validator.consumers(event_type@).len() > 0 ==> compatibility_is(
                r,
                self.validator,
                event_type@,
                schema_json@,
                *instance,
            ),
    {
        self.validator.validate_consumer_compatibility(event_type, schema_json, instance)
    }
}

/// The refusal of a payload that did not come through the contract-event
/// publisher: `before`, the payload's Rust type in quotes, then `after`.
pub open spec fn refusal_text(before: Seq<char>, rust_type: Seq<char>, after: Seq<char>) -> Seq<char> {
    before + "'"@ + rust_type + "'"@ + after
}

/// The refusal of a payload that did not come through the contract-event
/// publisher.
fn refusal(before: &str, rust_type: &str, after: &str) -> (r: PubSubError)
    ensures
        r.is_validation("pact_validation"@, refusal_text(before@, rust_type@, after@)),
{
    let mut m = before.to_owned();
    m.append("'");
    m.append(rust_type);
    m.append("'");
    m.append(after);
    PubSubError::validation("pact_validation", m.as_str())
}

impl ValidatedMockAdapter {
    /// Plain publishing is refused: this adapter publishes contract events
    /// only, through `publish_pact`.
    pub fn publish(&self, topic: &str, rust_type: &str) -> (r: PubSubResult<EventId>)
        ensures
            r matches Err(e) && e.is_validation(
                "pact_validation"@,
                refusal_text(
                    "ValidatedMockAdapter only accepts events created with pact_event! macro. For compile-time safety, use PactEventPublisher trait instead of EventPublisher. Event type: "@,
                    rust_type@,
                    ". \nCorrect usage: let adapter: &dyn PactEventPublisher = &validated_adapter; adapter.publish(topic, pact_event).await;"@,
                ),
            ),
    {
        Err(
            refusal(
                "ValidatedMockAdapter only accepts events created with pact_event! macro. For compile-time safety, use PactEventPublisher trait instead of EventPublisher. Event type: ",
                rust_type,
                ". \nCorrect usage: let adapter: &dyn PactEventPublisher = &validated_adapter; adapter.publish(topic, pact_event).await;",
            ),
        )
    }

    /// Plain publishing with a key is refused: this adapter publishes
    /// contract events only, through `publish_pact_with_key`.
    pub fn publish_with_key(&self, topic: &str, key: &str, rust_type: &str) -> (r: PubSubResult<
        EventId,
    >)
        ensures
            r matches Err(e) && e.is_validation(
                "pact_validation"@,
                refusal_text(
                    "ValidatedMockAdapter only accepts pact events. Use PactEventPublisher::publish_with_key() instead. Event type: "@,
                    rust_type@,
                    ""@,
                ),
            ),
    {
        Err(
            refusal(
                "ValidatedMockAdapter only accepts pact events. Use PactEventPublisher::publish_with_key() instead. Event type: ",
                rust_type,
                "",
            ),
        )
    }

    /// Batch publishing is refused.
    pub fn publish_batch(&self, rust_type: &str) -> (r: PubSubResult<Vec<EventId>>)
        ensures
            r matches Err(e) && e.is_validation(
                "pact_validation"@,
                refusal_text(
                    "ValidatedMockAdapter only accepts pact events. Use basic MockPubSubAdapter for batch operations with non-pact events. Event type: "@,
                    rust_type@,
                    ""@,
                ),
            ),
    {
        Err(
            refusal(
                "ValidatedMockAdapter only accepts pact events. Use basic MockPubSubAdapter for batch operations with non-pact events. Event type: ",
                rust_type,
                "",
            ),
        )
    }

    /// Transactional publishing is refused.
    pub fn publish_transactional(&self, transaction_id: &str, rust_type: &str) -> (r: PubSubResult<
        Vec<EventId>,
    >)
        ensures
            r matches Err(e) && e.is_validation(
                "pact_validation"@,
                refusal_text(
                    "ValidatedMockAdapter only accepts pact events. Use basic MockPubSubAdapter for transactional operations with non-pact events. Event type: "@,
                    rust_type@,
                    ""@,
                ),
            ),
    {
        Err(
            refusal(
                "ValidatedMockAdapter only accepts pact events. Use basic MockPubSubAdapter for transactional operations with non-pact events. Event type: ",
                rust_type,
                "",
            ),
        )
    }

    /// Publishing a complete event is refused.
    pub fn publish_event(&self, rust_type: &str) -> (r: PubSubResult<EventId>)
        ensures
            r matches Err(e) && e.is_validation(
                "pact_validation"@,
                refusal_text(
                    "ValidatedMockAdapter only accepts pact events. Use basic MockPubSubAdapter for Event<T> with non-pact payloads. Event type: "@,
                    rust_type@,
                    ""@,
                ),
            ),
    {
        Err(
            refusal(
                "ValidatedMockAdapter only accepts pact events. Use basic MockPubSubAdapter for Event<T> with non-pact payloads. Event type: ",
                rust_type,
                "",
            ),
        )
    }
}

/// What handling an event through the validating handler gives before the
/// wrapped handler runs: an event that fails its schema check is an invalid
/// event format, with the check's message as details.
pub fn handler_validation_result(check: PubSubResult<()>) -> (r: HandlerResult)
    ensures
        match check {
            Ok(()) => r is Ok,
            Err(e) => r matches Err(HandlerError::InvalidEventFormat { details }) && details@
                == e.spec_message(),
        },
{
    match check {
        Ok(()) => Ok(()),
        Err(e) => Err(HandlerError::InvalidEventFormat { details: e.message() }),
    }
}

impl ValidatedMockAdapter {
    /// Subscribe the handler named `handler_name` to `topic` through the
    /// inner adapter.
    pub fn subscribe(&mut self, topic: &str, handler_name: &str) -> (r: PubSubResult<
        SubscriptionId,
    >)
        requires
            old(self).wf(),
        ensures
            final(self).wf(),
            final(self).validator == old(self).validator,
            r matches Ok(id) && subscribed(old(self).inner, final(self).inner, id@, topic@, handler_name@),
    {
        self.inner.subscribe(topic, handler_name)
    }

    /// Subscribe with options through the inner adapter.
    pub fn subscribe_with_options(
        &mut self,
        topic: &str,
        options: SubscriptionOptions,
        handler_name: &str,
    ) -> (r: PubSubResult<SubscriptionId>)
        requires
            old(self).wf(),
        ensures
            final(self).wf(),
            final(self).validator == old(self).validator,
            r matches Ok(id) && subscribed(old(self).inner, final(self).inner, id@, topic@, handler_name@),
    {
        self.inner.subscribe_with_options(topic, options, handler_name)
    }

    /// Subscribe as a member of a consumer group through the inner adapter.
    pub fn subscribe_consumer_group(
        &mut self,
        topic: &str,
        consumer_group: &str,
        handler_name: &str,
    ) -> (r: PubSubResult<SubscriptionId>)
        requires
            old(self).wf(),
        ensures
            final(self).wf(),
            final(self).validator == old(self).validator,
            r matches Ok(id) && subscribed(old(self).inner, final(self).inner, id@, topic@, handler_name@),
    {
        self.inner.subscribe_consumer_group(topic, consumer_group, handler_name)
    }

    /// Subscribe to each of `topics` through the inner adapter.
    pub fn subscribe_multiple(&mut self, topics: Vec<String>, handler_name: &str) -> (r:
        PubSubResult<Vec<SubscriptionId>>)
        requires
            old(self).wf(),
        ensures
            final(self).wf(),
            final(self).validator == old(self).validator,
            r matches Ok(ids) && ids@.len() == topics@.len(),
            final(self).inner.storage == (MockStorage {
                subscriptions: final(self).inner.storage.subscriptions,
                ..old(self).inner.storage
            }),
    {
        self.inner.subscribe_multiple(topics, handler_name)
    }

    /// Remove a subscription through the inner adapter.
    pub fn unsubscribe(&mut self, subscription_id: &str) -> (r: PubSubResult<()>)
        requires
            old(self).wf(),
        ensures
            final(self).wf(),
            final(self).validator == old(self).validator,
            final(self).inner.storage.subscriptions@ == old(
                self,
            ).inner.storage.subscriptions@.remove(subscription_id@),
            old(self).inner.storage.subscriptions@.contains_key(subscription_id@) <==> r is Ok,
            r matches Err(e) ==> e.is_not_found("subscription"@, subscription_id@),
    {
        self.inner.unsubscribe(subscription_id)
    }

    /// Pause a subscription of the inner adapter.
    pub fn pause_subscription(&mut self, subscription_id: &str) -> (r: PubSubResult<()>)
        requires
            old(self).wf(),
        ensures
            final(self).wf(),
            final(self).validator == old(self).validator,
            final(self).service_name == old(self).service_name,
            activity_set(old(self).inner, final(self).inner, subscription_id@, false, r),
    {
        self.inner.pause_subscription(subscription_id)
    }

    /// Resume a subscription of the inner adapter.
    pub fn resume_subscription(&mut self, subscription_id: &str) -> (r: PubSubResult<()>)
        requires
            old(self).wf(),
        ensures
            final(self).wf(),
            final(self).validator == old(self).validator,
            final(self).service_name == old(self).service_name,
            activity_set(old(self).inner, final(self).inner, subscription_id@, true, r),
    {
        self.inner.resume_subscription(subscription_id)
    }

    /// The status of a subscription, as the inner adapter reports it.
    pub fn subscription_status(&self, subscription_id: &str) -> (r: PubSubResult<
        SubscriptionStatus,
    >)
        requires
            self.wf(),
        ensures
            r matches Ok(s) && match self.inner.storage.subscriptions.lookup(subscription_id@) {
                Some(sub) => is_subscription_status(s, subscription_id@, sub),
                None => is_placeholder_status(s, subscription_id@, s.created_at),
            },
    {
        self.inner.subscription_status(subscription_id)
    }

    /// Record `service_name` as a consumer of events of `event_type` (with
    /// an example), then subscribe the handler named `handler_name` to the
    /// topic named by the event type.
    pub fn subscribe_validated(
        &mut self,
        event_type: &str,
        example_json: String,
        service_name: &str,
        handler_name: &str,
    ) -> (r: PubSubResult<SubscriptionId>)
        requires
            old(self).wf(),
        ensures
            final(self).wf(),
            final(self).validator.consumers(event_type@).contains(service_name@),
            final(self).validator.consumer_expectations.items(event_type@).len() > 0,
            final(self).validator.consumer_expectations.items(event_type@).last().contents
                == example_json,
            r matches Ok(id) && subscribed(
                old(self).inner,
                final(self).inner,
                id@,
                event_type@,
                handler_name@,
            ),
    {
        let registered = self.register_consumer_contract(event_type, example_json, service_name);
        if let Err(e) = registered {
            return Err(e);
        }
        self.inner.subscribe(event_type, handler_name)
    }

    /// Publish each of `instances` (events of `event_type` with schema
    /// `schema_json`) as `publish_validated` does, in order, stopping at the
    /// first one that fails a check; those before it stay published.
    pub fn publish_validated_batch(
        &mut self,
        event_type: &str,
        schema_json: &str,
        instances: Vec<Result<String, String>>,
    ) -> (r: PubSubResult<Vec<EventId>>)
        requires
            old(self).wf(),
            old(self).inner.room_for(event_type@, instances@.len() as int),
        ensures
            final(self).wf(),
            final(self).validator == old(self).validator,
            forall|t: Seq<char>|
                #![trigger final(self).inner.published(t)]
                t != event_type@ ==> final(self).inner.published(t) == old(self).inner.published(t),
            match r {
                Ok(ids) => {
                    &&& forall|j: int|
                        0 <= j < instances@.len() ==> passes_checks(
                            old(self).validator,
                            event_type@,
                            schema_json@,
                            #[trigger] instances@[j],
                        )
                    &&& batch_published_in_order(
                        old(self).inner,
                        final(self).inner,
                        event_type@,
                        instances@,
                        instances@.len() as int,
                    )
                    &&& ids@.len() == instances@.len()
                    &&& forall|j: int|
                        0 <= j < ids@.len() ==> #[trigger] ids@[j] == final(self).inner.published(
                            event_type@,
                        )[old(self).inner.published(event_type@).len() + j].id
                },
                Err(e) => exists|k: int|
                    0 <= k < instances@.len() && first_refused(
                        old(self).validator,
                        event_type@,
                        schema_json@,
                        instances@,
                        k,
                    ) && check_failure_is(
                        Err::<EventId, PubSubError>(e),
                        old(self).validator,
                        event_type@,
                        schema_json@,
                        #[trigger] instances@[k],
                    ) && batch_published_in_order(
                        old(self).inner,
                        final(self).inner,
                        event_type@,
                        instances@,
                        k,
                    ),
            },
    {
        let n = instances.len();
        let mut ids: Vec<EventId> = Vec::new();
        let mut i: usize = 0;
        proof {
            assert(self.inner.published(event_type@).take(
                old(self).inner.published(event_type@).len() as int,
            ) =~= old(self).inner.published(event_type@));
        }
        while i < n
            invariant
                n == instances@.len(),
                i <= n,
                self.wf(),
                self.validator == old(self).validator,
                old(self).inner.room_for(event_type@, n as int),
                ids@.len() == i,
                forall|j: int|
                    0 <= j < i ==> passes_checks(
                        old(self).validator,
                        event_type@,
                        schema_json@,
                        #[trigger] instances@[j],
                    ),
                batch_published_in_order(old(self).inner, self.inner, event_type@, instances@, i as int),
                forall|j: int|
                    0 <= j < i ==> #[trigger] ids@[j] == self.inner.published(
                        event_type@,
                    )[old(self).inner.published(event_type@).len() + j].id,
                forall|t: Seq<char>|
                    #![trigger self.inner.published(t)]
                    t != event_type@ ==> self.inner.published(t) == old(self).inner.published(t),
            decreases n - i,
        {
            let ghost before = self.inner;
            let instance = match &instances[i] {
                Ok(json) => Ok(json.clone()),
                Err(d) => Err(d.clone()),
            };
            assert(instance == instances@[i as int]);
            let result = self.publish_validated(event_type, schema_json, instance);
            match result {
                Err(e) => {
                    proof {
                        assert(first_refused(
                            old(self).validator,
                            event_type@,
                            schema_json@,
                            instances@,
                            i as int,
                        ));
                    }
                    return Err(e);
                },
                Ok(id) => {
                    ids.push(id);
                    proof {
                        let base = old(self).inner.published(event_type@).len();
                        let cur = self.inner.published(event_type@);
                        assert(cur.drop_last() == before.published(event_type@));
                        assert(cur.len() == before.published(event_type@).len() + 1);
                        assert forall|j: int| 0 <= j < i + 1 implies is_published_event(
                            #[trigger] cur[base + j],
                            event_type@,
                            instances@[j]->Ok_0,
                            None,
                        ) && ids@[j] == cur[base + j].id by {
                            if j < i {
                                assert(cur[base + j] == before.published(event_type@)[base + j]);
                            }
                        }
                        assert(cur.take(base as int) =~= before.published(event_type@).take(
                            base as int,
                        ));
                        assert forall|t: Seq<char>|
                            #![trigger self.inner.published(t)]
                            t != event_type@ implies self.inner.published(t) == old(
                                self,
                            ).inner.published(t) by {
                            assert(before.published(t) == old(self).inner.published(t));
                            assert(self.inner.storage.events@.contains_key(t)
                                == before.storage.events@.contains_key(t));
                            if before.storage.events@.contains_key(t) {
                                assert(self.inner.storage.events@[t] == before.storage.events@[t]);
                            }
                        }
                    }
                },
            }
            i = i + 1;
        }
        Ok(ids)
    }
}

/// `after` is `before` with the first `k` of `instances` published on
/// `topic`, in order, each as a new event with its JSON text.
pub open spec fn batch_published_in_order(
    before: MockPubSubAdapter,
    after: MockPubSubAdapter,
    topic: Seq<char>,
    instances: Seq<Result<String, String>>,
    k: int,
) -> bool {
    &&& after.published(topic).len() == before.published(topic).len() + k
    &&& after.published(topic).take(before.published(topic).len() as int) == before.published(
        topic,
    )
    &&& forall|j: int|
        0 <= j < k ==> is_published_event(
            #[trigger] after.published(topic)[before.published(topic).len() + j],
            topic,
            instances[j]->Ok_0,
            None,
        )
}

/// Entry `k` of `instances` is the first that fails the checks before
/// publication.
pub open spec fn first_refused(
    v: ContractValidator,
    event_type: Seq<char>,
    schema_json: Seq<char>,
    instances: Seq<Result<String, String>>,
    k: int,
) -> bool {
    &&& 0 <= k < instances.len()
    &&& !passes_checks(v, event_type, schema_json, instances[k])
    &&& forall|j: int| 0 <= j < k ==> passes_checks(v, event_type, schema_json, #[trigger] instances[j])
}

} // verus!
