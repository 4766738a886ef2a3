//! The error type shared by every operation of the port.

use vstd::prelude::*;

verus! {

/// An error raised by a publish/subscribe operation.
#[derive(Debug, Clone)]
pub enum PubSubError {
    /// Input that breaks a rule; `field` names what was checked.
    Validation { field: String, message: String },
    /// A value could not be turned into or read from its serialized form.
    Serialization { message: String },
    /// The transport failed.
    Network { message: String },
    /// A named resource does not exist.
    NotFound { resource: String, id: String },
    /// The operation is not available with the present configuration.
    Configuration { message: String },
}

/// Result of a publish/subscribe operation.
pub type PubSubResult<T> = Result<T, PubSubError>;

impl PubSubError {
    /// Is this a validation error with the given field and message text?
    pub open spec fn is_validation(&self, field: Seq<char>, message: Seq<char>) -> bool {
        self matches PubSubError::Validation { field: f, message: m } && f@ == field && m@ == message
    }

    /// Is this a serialization error with the given message text?
    pub open spec fn is_serialization(&self, message: Seq<char>) -> bool {
        self matches PubSubError::Serialization { message: m } && m@ == message
    }

    /// Is this a network error with the given message text?
    pub open spec fn is_network(&self, message: Seq<char>) -> bool {
        self matches PubSubError::Network { message: m } && m@ == message
    }

    /// Is this a not-found error for the given resource kind and id?
    pub open spec fn is_not_found(&self, resource: Seq<char>, id: Seq<char>) -> bool {
        self matches PubSubError::NotFound { resource: r, id: i } && r@ == resource && i@ == id
    }

    /// Is this a configuration error with the given message text?
    pub open spec fn is_configuration(&self, message: Seq<char>) -> bool {
        self matches PubSubError::Configuration { message: m } && m@ == message
    }

    /// A validation error.
    pub fn validation(field: &str, message: &str) -> (r: Self)
        ensures
            r.is_validation(field@, message@),
    {
        PubSubError::Validation { field: field.to_owned(), message: message.to_owned() }
    }

    /// A serialization error.
    pub fn serialization(message: &str) -> (r: Self)
        ensures
            r.is_serialization(message@),
    {
        PubSubError::Serialization { message: message.to_owned() }
    }

    /// A network error.
    pub fn network(message: &str) -> (r: Self)
        ensures
            r.is_network(message@),
    {
        PubSubError::Network { message: message.to_owned() }
    }

    /// A not-found error for a resource of kind `resource` with id `id`.
    pub fn not_found(resource: &str, id: &str) -> (r: Self)
        ensures
            r.is_not_found(resource@, id@),
    {
        PubSubError::NotFound { resource: resource.to_owned(), id: id.to_owned() }
    }

    /// A configuration error.
    pub fn configuration(message: &str) -> (r: Self)
        ensures
            r.is_configuration(message@),
    {
        PubSubError::Configuration { message: message.to_owned() }
    }

    /// The human-readable text of the error.
    pub open spec fn spec_message(&self) -> Seq<char> {
        match self {
            PubSubError::Validation { field, message } => "Validation error in field '"@ + field@
                + "': "@ + message@,
            PubSubError::Serialization { message } => "Serialization error: "@ + message@,
            PubSubError::Network { message } => "Network error: "@ + message@,
            PubSubError::NotFound { resource, id } => "Not found: "@ + resource@ + " '"@ + id@
                + "'"@,
            PubSubError::Configuration { message } => "Configuration error: "@ + message@,
        }
    }

    /// The human-readable text of the error.
    pub fn message(&self) -> (r: String)
        ensures
            r@ == self.spec_message(),
    {
        match self {
            PubSubError::Validation { field, message } => {
                let mut s = "Validation error in field '".to_owned();
                s.append(field.as_str());
                s.append("': ");
                s.append(message.as_str());
                s
            },
            PubSubError::Serialization { message } => {
                let mut s = "Serialization error: ".to_owned();
                s.append(message.as_str());
                s
            },
            PubSubError::Network { message } => {
                let mut s = "Network error: ".to_owned();
                s.append(message.as_str());
                s
            },
            PubSubError::NotFound { resource, id } => {
                let mut s = "Not found: ".to_owned();
                s.append(resource.as_str());
                s.append(" '");
                s.append(id.as_str());
                s.append("'");
                s
            },
            PubSubError::Configuration { message } => {
                let mut s = "Configuration error: ".to_owned();
                s.append(message.as_str());
                s
            },
        }
    }
}

} // verus!
