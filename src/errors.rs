//! The errors that abort a command.
use vstd::prelude::*;

verus! {

/// An invariant that the reconciliation model depends on, found broken in
/// the data that a provider returned.
#[derive(Clone, Debug, PartialEq, Eq)]
pub enum DataViolation {
    /// A pricing query matched `count` products where exactly one was expected.
    PricingMatches { count: usize },
    /// A pricing document did not have the shape that the price lookup reads.
    PriceDocument,
    /// A mapping that had to hold exactly one entry held `count`.
    NotSingleEntry { count: usize },
    /// A recurring charge used a frequency other than hourly.
    UnsupportedFrequency { frequency: String },
    /// An instance profile has no role attached.
    ProfileWithoutRole { profile_arn: String },
    /// An instance refers to a profile that the profile listing did not hold.
    UnknownProfile { profile_arn: String },
    /// A currency amount left the range that the decimal type can hold.
    AmountOutOfRange,
}

/// The class of a failure; every class aborts the whole command.
#[derive(Clone, Debug, PartialEq, Eq)]
pub enum ErrorKind {
    /// The identity or credential check failed.
    Authentication,
    /// A provider call failed.
    Service,
    /// A structural assumption about provider data does not hold.
    DataAssumption(DataViolation),
}

/// Wraps any error that can be raised while a command runs.
#[derive(Clone, Debug, PartialEq, Eq)]
pub struct JawsError {
    pub kind: ErrorKind,
    pub message: String,
}

impl JawsError {
    /// A service error carrying the provider's message.
    pub fn new(message: String) -> (r: JawsError)
        ensures
            r.kind == ErrorKind::Service,
            r.message@ == message@,
    {
        JawsError { kind: ErrorKind::Service, message }
    }

    /// An authentication error carrying the provider's message.
    pub fn authentication(message: String) -> (r: JawsError)
        ensures
            r.kind == ErrorKind::Authentication,
            r.message@ == message@,
    {
        JawsError { kind: ErrorKind::Authentication, message }
    }

    /// A data-assumption violation, with a message that names it.
    pub fn data(violation: DataViolation) -> (r: JawsError)
        ensures
            r.kind == ErrorKind::DataAssumption(violation),
    {
        let message = match &violation {
            DataViolation::PricingMatches { .. } => String::from_str(
                "on-demand pricing search did not return exactly one product",
            ),
            DataViolation::PriceDocument => String::from_str(
                "on-demand pricing document does not hold a USD unit price",
            ),
            DataViolation::NotSingleEntry { .. } => String::from_str(
                "a pricing term mapping does not hold exactly one entry",
            ),
            DataViolation::UnsupportedFrequency { .. } => String::from_str(
                "a recurring charge has an unsupported frequency",
            ),
            DataViolation::ProfileWithoutRole { .. } => String::from_str(
                "an instance profile has no role attached",
            ),
            DataViolation::UnknownProfile { .. } => String::from_str(
                "an instance refers to an unknown instance profile",
            ),
            DataViolation::AmountOutOfRange => String::from_str(
                "a currency amount is out of range",
            ),
        };
        JawsError { kind: ErrorKind::DataAssumption(violation), message }
    }

    /// The text of the error, for display.
    pub fn to_string(&self) -> (r: String)
        ensures
            r@ == self.message@,
    {
        self.message.clone()
    }
}

} // verus!
