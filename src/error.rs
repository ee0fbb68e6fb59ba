use vstd::prelude::*;

verus! {

/// Errors raised while building or mutating the data model.
#[derive(Debug, Clone, Copy, PartialEq, Eq, Structural)]
pub enum Error {
    /// Access and quality bits contradict each other (a fixed attribute that is writable).
    InvalidData,
    /// No attribute with the requested id exists in the cluster.
    AttributeNotFound,
    /// An attribute with the same id already exists in the cluster.
    DuplicateAttribute,
    /// The cluster already holds as many attributes as it may.
    TooManyAttributes,
    /// A value of another variant than the stored one.
    InvalidDataType,
    /// The attribute refuses the operation (a write to a fixed attribute).
    AccessDenied,
    /// The node already holds as many endpoints as it may.
    TooManyEndpoints,
    /// No endpoint with the requested id exists.
    NoEndpoint,
    /// The endpoint already holds as many clusters as it may.
    TooManyClusters,
    /// A cluster with the same id already exists on the endpoint.
    DuplicateCluster,
    /// No cluster with the requested id exists on the endpoint.
    NotFound,
}

/// Interaction Model status codes returned to the requester.
#[derive(Debug, Clone, Copy, PartialEq, Eq, Structural)]
pub enum IMStatusCode {
    Success,
    Failure,
    UnsupportedEndpoint,
    UnsupportedCluster,
    UnsupportedCommand,
    UnsupportedAttribute,
    UnsupportedAccess,
    UnsupportedRead,
    UnsupportedWrite,
    InvalidDataType,
    ConstraintError,
    Timeout,
    Busy,
}

/// The status code under which a data-model error is reported on the wire.
pub open spec fn status_of(e: Error) -> IMStatusCode {
    match e {
        Error::AttributeNotFound => IMStatusCode::UnsupportedAttribute,
        Error::InvalidDataType => IMStatusCode::InvalidDataType,
        Error::AccessDenied => IMStatusCode::UnsupportedWrite,
        Error::NoEndpoint => IMStatusCode::UnsupportedEndpoint,
        Error::NotFound => IMStatusCode::UnsupportedCluster,
        _ => IMStatusCode::Failure,
    }
}

impl Error {
    /// Maps a data-model error to its status code.
    pub fn to_status(self) -> (r: IMStatusCode)
        ensures
            r == status_of(self),
    {
        match self {
            Error::AttributeNotFound => IMStatusCode::UnsupportedAttribute,
            Error::InvalidDataType => IMStatusCode::InvalidDataType,
            Error::AccessDenied => IMStatusCode::UnsupportedWrite,
            Error::NoEndpoint => IMStatusCode::UnsupportedEndpoint,
            Error::NotFound => IMStatusCode::UnsupportedCluster,
            _ => IMStatusCode::Failure,
        }
    }
}

} // verus!
