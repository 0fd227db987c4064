//! Reactions, messages, rates, rate cards and service requests.

use vstd::prelude::*;

verus! {

/// A reaction to a post or a comment.
#[derive(Clone, Debug)]
pub struct ReactionInput {
    pub reaction_type: ReactionType,
}

/// The kinds of reaction.
#[derive(Clone, Debug, Copy, Eq, PartialEq, Structural)]
pub enum ReactionType {
    Like,
    Dislike,
    Love,
    Haha,
    Wow,
    Sad,
    Angry,
}

/// A message sent through the contact form.
#[derive(Clone, Debug)]
pub struct MessageInput {
    pub subject: Subject,
    pub body: String,
    pub sender_name: String,
    pub sender_email: String,
    pub created_at: Option<String>,
}

/// What a message is about.
#[derive(Clone, Debug, Copy, Eq, PartialEq, Structural)]
pub enum Subject {
    JobOffer,
    Consultation,
    Feedback,
    Complaint,
    Enquiry,
    Suggestion,
}

/// The service and currency a new rate refers to.
#[derive(Clone, Debug)]
pub struct ServiceRateInputMetadata {
    pub service_id: String,
    pub currency_id: String,
}

/// A new rate card.
#[derive(Clone, Debug)]
pub struct RatecardInput {
    pub name: String,
}

/// The services a new rate card bundles.
#[derive(Clone, Debug)]
pub struct RatecardInputMetadata {
    pub service_ids: Vec<String>,
}

/// The uploaded documents and the services a new service request refers to.
#[derive(Clone, Debug)]
pub struct ServiceRequestInputMetadata {
    pub supporting_docs_file_ids: Vec<String>,
    pub service_ids: Vec<String>,
}

/// Billing periods.
#[derive(Clone, Debug, Copy, Eq, PartialEq, Structural)]
pub enum BillingInterval {
    Hourly,
    Weekly,
    Monthly,
    Annual,
    Milestone,
}

/// The request id and, when the session was renewed, the new access token of a response.
#[derive(Clone, Debug)]
pub struct GraphQLApiResponseMetadata {
    pub request_id: String,
    pub new_access_token: Option<String>,
}

} // verus!
