//! The decisions of the GraphQL resolvers: for each operation, the steps it
//! performs in order, and what it answers when a step fails.
//!
//! A resolver alternates outside work (reading the request context, calling
//! the authentication and authorization services, writing to the database)
//! with decisions. The decisions live here: [`ResolverState::advance`] takes
//! the outcome of the current step and says what to do next.

use vstd::prelude::*;

use crate::models::{
    AdminPrivilege, AllowedCreateFileExtension, AuthStatus, AuthorizationConstraint, CreateFileInfo,
    ForeignKey,
};

verus! {

/// The root of the mutations.
pub struct Mutation;

/// The root of the queries.
pub struct Query;

/// The operations of the API.
#[derive(Clone, Copy, Debug, PartialEq, Eq, Structural)]
pub enum Operation {
    CreateProfessionalDetails,
    CreateUserService,
    CreatePortfolioItem,
    CreateResumeItem,
    CreateSkill,
    CreateBlogPost,
    AddCommentToBlogPost,
    ReplyToAComment,
    ReactToBlogPost,
    ReactToBlogComment,
    SendMessage,
    EditBlogPost,
    CreateRatecard,
    CreateServiceRequest,
    CreateServiceRate,
    BookmarkBlogPost,
    UpdateBlogPostShareCount,
    FetchBlogPosts,
    FetchUserResources,
    FetchSiteResources,
    FetchSingleBlogPost,
    FetchMessages,
    FetchBillingRate,
    FetchRatecards,
    FetchServiceRates,
    FetchServiceRequests,
}

/// The pieces of outside work a resolver performs.
#[derive(Clone, Copy, Debug, PartialEq, Eq, Structural)]
pub enum Step {
    /// Read the database client from the request context.
    LoadDatabase,
    /// Read the request headers from the request context.
    LoadHeaders,
    /// Confirm the caller's session; a failure is passed on to the caller.
    Authenticate,
    /// Confirm the caller's session if there is one; without one the caller
    /// is anonymous.
    IdentifyVisitor,
    /// Ask the access-control service whether the caller meets the
    /// operation's authorization constraint.
    Authorize,
    /// Store the post's content as a file with the files service.
    StoreContentFile,
    /// Make sure the caller's user id has a record.
    LinkUser,
    /// Make sure the stored content file has a record.
    LinkContentFile,
    /// Make sure each supporting document has a record.
    LinkSupportingDocuments,
    /// Make sure the currency has a record.
    LinkCurrency,
    /// Run the operation's database statement.
    RunQuery,
    /// Read the statement's result.
    ReadResult,
    /// Highlight code and estimate reading times of the posts read.
    PostProcess,
    /// Build the response.
    Respond,
}

/// How a step went.
#[derive(Clone, Copy, Debug, PartialEq, Eq, Structural)]
pub enum Outcome {
    /// The step did its work (authorization: access granted; reading: a record came back).
    Succeeded,
    /// The step reported an error.
    Failed,
    /// Authorization was refused.
    Denied,
    /// Reading found no record.
    Empty,
}

/// An error answered to the caller: a message and the HTTP status code it
/// carries (none for a plain error).
pub struct ApiError {
    pub message: String,
    pub code: Option<u16>,
}

/// What a resolver does next.
pub enum Reply {
    /// Perform this step.
    Perform(Step),
    /// Every step succeeded: answer with the response built.
    Finish,
    /// Answer with this error.
    Reject(ApiError),
    /// Answer with the error the failed step reported.
    Propagate,
}

/// The plain view of a reply.
pub enum ReplyView {
    Perform(Step),
    Finish,
    Reject(Seq<char>, Option<u16>),
    Propagate,
}

impl Reply {
    pub open spec fn view(&self) -> ReplyView {
        match self {
            Reply::Perform(step) => ReplyView::Perform(*step),
            Reply::Finish => ReplyView::Finish,
            Reply::Reject(e) => ReplyView::Reject(e.message@, e.code),
            Reply::Propagate => ReplyView::Propagate,
        }
    }
}

/// Whether the operation is one of the mutations.
pub open spec fn is_mutation(op: Operation) -> bool {
    match op {
        Operation::FetchBlogPosts | Operation::FetchUserResources | Operation::FetchSiteResources
        | Operation::FetchSingleBlogPost | Operation::FetchMessages | Operation::FetchBillingRate
        | Operation::FetchRatecards | Operation::FetchServiceRates
        | Operation::FetchServiceRequests => false,
        _ => true,
    }
}

/// The steps each operation performs, in order.
pub open spec fn plan(op: Operation) -> Seq<Step> {
    match op {
        Operation::CreateProfessionalDetails | Operation::CreateUserService
        | Operation::CreatePortfolioItem | Operation::CreateResumeItem | Operation::CreateSkill
        | Operation::CreateRatecard => seq![
            Step::LoadDatabase,
            Step::LoadHeaders,
            Step::Authenticate,
            Step::Authorize,
            Step::LinkUser,
            Step::RunQuery,
            Step::ReadResult,
            Step::Respond,
        ],
        Operation::CreateBlogPost => seq![
            Step::LoadDatabase,
            Step::LoadHeaders,
            Step::Authenticate,
            Step::Authorize,
            Step::StoreContentFile,
            Step::LinkUser,
            Step::LinkContentFile,
            Step::RunQuery,
            Step::ReadResult,
            Step::Respond,
        ],
        Operation::AddCommentToBlogPost | Operation::ReplyToAComment | Operation::ReactToBlogPost
        | Operation::ReactToBlogComment | Operation::BookmarkBlogPost => seq![
            Step::LoadDatabase,
            Step::Authenticate,
            Step::LinkUser,
            Step::RunQuery,
            Step::ReadResult,
            Step::Respond,
        ],
        Operation::EditBlogPost | Operation::FetchServiceRequests => seq![
            Step::LoadDatabase,
            Step::LoadHeaders,
            Step::Authenticate,
            Step::Authorize,
            Step::RunQuery,
            Step::ReadResult,
            Step::Respond,
        ],
        Operation::CreateServiceRequest => seq![
            Step::LoadDatabase,
            Step::LoadHeaders,
            Step::Authenticate,
            Step::Authorize,
            Step::LinkUser,
            Step::LinkSupportingDocuments,
            Step::RunQuery,
            Step::ReadResult,
            Step::Respond,
        ],
        Operation::CreateServiceRate => seq![
            Step::LoadDatabase,
            Step::LoadHeaders,
            Step::Authenticate,
            Step::Authorize,
            Step::LinkUser,
            Step::LinkCurrency,
            Step::RunQuery,
            Step::ReadResult,
            Step::Respond,
        ],
        Operation::UpdateBlogPostShareCount => seq![
            Step::LoadDatabase,
            Step::IdentifyVisitor,
            Step::LinkUser,
            Step::RunQuery,
            Step::ReadResult,
            Step::Respond,
        ],
        Operation::FetchUserResources | Operation::FetchMessages => seq![
            Step::LoadDatabase,
            Step::Authenticate,
            Step::RunQuery,
            Step::ReadResult,
            Step::Respond,
        ],
        Operation::FetchBlogPosts | Operation::FetchSingleBlogPost => seq![
            Step::LoadDatabase,
            Step::RunQuery,
            Step::ReadResult,
            Step::PostProcess,
            Step::Respond,
        ],
        Operation::SendMessage | Operation::FetchSiteResources | Operation::FetchBillingRate
        | Operation::FetchRatecards | Operation::FetchServiceRates => seq![
            Step::LoadDatabase,
            Step::RunQuery,
            Step::ReadResult,
            Step::Respond,
        ],
    }
}

/// Whether the operation reads a list, where finding nothing is no error.
pub open spec fn reads_list(op: Operation) -> bool {
    match op {
        Operation::FetchBlogPosts | Operation::FetchUserResources | Operation::FetchSiteResources
        | Operation::FetchMessages | Operation::FetchRatecards | Operation::FetchServiceRates
        | Operation::FetchServiceRequests => true,
        _ => false,
    }
}

/// Whether the outcome of `step` lets the operation go on.
pub open spec fn passes(op: Operation, step: Step, outcome: Outcome) -> bool {
    match step {
        Step::IdentifyVisitor | Step::PostProcess => true,
        Step::ReadResult => outcome == Outcome::Succeeded || (outcome == Outcome::Empty
            && reads_list(op)),
        _ => outcome == Outcome::Succeeded,
    }
}

/// The error answered when `step` of `op` ends with `outcome` and the operation
/// cannot go on: a message and a status code, or `None` to pass the step's own
/// error on.
pub open spec fn rejection(op: Operation, step: Step, outcome: Outcome) -> Option<
    (Seq<char>, Option<u16>),
> {
    match step {
        Step::LoadDatabase | Step::LoadHeaders => Some(("Server Error"@, Some(500u16))),
        Step::Authenticate => None,
        Step::Authorize => if outcome == Outcome::Denied {
            Some(("Forbidden"@, Some(403u16)))
        } else {
            None
        },
        Step::LinkUser => match op {
            Operation::CreateProfessionalDetails => Some(("Something went wrong!"@, Some(500u16))),
            Operation::CreateUserService | Operation::CreatePortfolioItem => Some(
                ("Invalid Input Data"@, Some(400u16)),
            ),
            _ => Some(("Something went wrong"@, Some(500u16))),
        },
        Step::StoreContentFile | Step::LinkContentFile | Step::LinkSupportingDocuments
        | Step::LinkCurrency => Some(("Something went wrong"@, Some(500u16))),
        Step::RunQuery => if op == Operation::CreateBlogPost {
            Some(("Internal Server Error"@, None))
        } else if is_mutation(op) {
            Some(("Failed"@, Some(400u16)))
        } else {
            Some(("Server Error"@, Some(500u16)))
        },
        Step::ReadResult => if outcome == Outcome::Empty {
            if op == Operation::EditBlogPost || op == Operation::FetchSingleBlogPost {
                Some(("Blog post not found"@, Some(404u16)))
            } else {
                Some(("Failed"@, Some(400u16)))
            }
        } else if op == Operation::FetchSingleBlogPost {
            None
        } else if is_mutation(op) {
            Some(("Failed"@, Some(400u16)))
        } else {
            Some(("Server Error"@, Some(500u16)))
        },
        Step::Respond => Some(("Bad Request"@, Some(400u16))),
        Step::IdentifyVisitor | Step::PostProcess => None,
    }
}

/// What follows when the step at `position` of the operation's plan ends with `outcome`.
pub open spec fn next_reply(op: Operation, position: int, outcome: Outcome) -> ReplyView {
    let step = plan(op)[position];
    if passes(op, step, outcome) {
        if position + 1 < plan(op).len() {
            ReplyView::Perform(plan(op)[position + 1])
        } else {
            ReplyView::Finish
        }
    } else {
        match rejection(op, step, outcome) {
            Some((message, code)) => ReplyView::Reject(message, code),
            None => ReplyView::Propagate,
        }
    }
}

/// The authorization constraint each operation checks, if any.
pub open spec fn required_access(op: Operation) -> Option<(Seq<char>, AdminPrivilege)> {
    match op {
        Operation::CreateProfessionalDetails => Some(
            ("write:professional_details"@, AdminPrivilege::SuperAdmin),
        ),
        Operation::CreateUserService => Some(("write:service"@, AdminPrivilege::SuperAdmin)),
        Operation::CreatePortfolioItem => Some(("write:portfolio"@, AdminPrivilege::SuperAdmin)),
        Operation::CreateResumeItem => Some(("write:resume_item"@, AdminPrivilege::SuperAdmin)),
        Operation::CreateSkill => Some(("write:skill"@, AdminPrivilege::SuperAdmin)),
        Operation::CreateBlogPost | Operation::EditBlogPost => Some(
            ("write:blog_post"@, AdminPrivilege::Admin),
        ),
        Operation::CreateRatecard => Some(("write:ratecard"@, AdminPrivilege::SuperAdmin)),
        Operation::CreateServiceRequest => Some(
            ("write:service_request"@, AdminPrivilege::NoPrivilege),
        ),
        Operation::CreateServiceRate => Some(("write:service_rate"@, AdminPrivilege::NoPrivilege)),
        Operation::FetchServiceRequests => Some(("read:service_request"@, AdminPrivilege::Admin)),
        _ => None,
    }
}

/// Whether the response carries the caller's session (so that a renewed
/// access token can be handed back).
pub open spec fn answers_with_session(op: Operation) -> bool {
    match op {
        Operation::SendMessage | Operation::UpdateBlogPostShareCount | Operation::FetchBlogPosts
        | Operation::FetchSiteResources | Operation::FetchSingleBlogPost
        | Operation::FetchBillingRate | Operation::FetchRatecards
        | Operation::FetchServiceRates => false,
        _ => true,
    }
}

impl Operation {
    /// Whether this operation is one of the mutations.
    pub fn is_mutation(&self) -> (res: bool)
        ensures
            res == is_mutation(*self),
    {
        match self {
            Operation::FetchBlogPosts | Operation::FetchUserResources
            | Operation::FetchSiteResources | Operation::FetchSingleBlogPost
            | Operation::FetchMessages | Operation::FetchBillingRate | Operation::FetchRatecards
            | Operation::FetchServiceRates | Operation::FetchServiceRequests => false,
            _ => true,
        }
    }

    /// Whether this operation reads a list.
    pub fn reads_list(&self) -> (res: bool)
        ensures
            res == reads_list(*self),
    {
        match self {
            Operation::FetchBlogPosts | Operation::FetchUserResources
            | Operation::FetchSiteResources | Operation::FetchMessages | Operation::FetchRatecards
            | Operation::FetchServiceRates | Operation::FetchServiceRequests => true,
            _ => false,
        }
    }

    /// Whether the response carries the caller's session.
    pub fn answers_with_session(&self) -> (res: bool)
        ensures
            res == answers_with_session(*self),
    {
        match self {
            Operation::SendMessage | Operation::UpdateBlogPostShareCount
            | Operation::FetchBlogPosts | Operation::FetchSiteResources
            | Operation::FetchSingleBlogPost | Operation::FetchBillingRate
            | Operation::FetchRatecards | Operation::FetchServiceRates => false,
            _ => true,
        }
    }

    /// The steps this operation performs, in order.
    pub fn plan(&self) -> (res: Vec<Step>)
        ensures
            res@ == plan(*self),
    {
        match self {
            Operation::CreateProfessionalDetails | Operation::CreateUserService
            | Operation::CreatePortfolioItem | Operation::CreateResumeItem
            | Operation::CreateSkill | Operation::CreateRatecard => vec![
                Step::LoadDatabase,
                Step::LoadHeaders,
                Step::Authenticate,
                Step::Authorize,
                Step::LinkUser,
                Step::RunQuery,
                Step::ReadResult,
                Step::Respond,
            ],
            Operation::CreateBlogPost => vec![
                Step::LoadDatabase,
                Step::LoadHeaders,
                Step::Authenticate,
                Step::Authorize,
                Step::StoreContentFile,
                Step::LinkUser,
                Step::LinkContentFile,
                Step::RunQuery,
                Step::ReadResult,
                Step::Respond,
            ],
            Operation::AddCommentToBlogPost | Operation::ReplyToAComment
            | Operation::ReactToBlogPost | Operation::ReactToBlogComment
            | Operation::BookmarkBlogPost => vec![
                Step::LoadDatabase,
                Step::Authenticate,
                Step::LinkUser,
                Step::RunQuery,
                Step::ReadResult,
                Step::Respond,
            ],
            Operation::EditBlogPost | Operation::FetchServiceRequests => vec![
                Step::LoadDatabase,
                Step::LoadHeaders,
                Step::Authenticate,
                Step::Authorize,
                Step::RunQuery,
                Step::ReadResult,
                Step::Respond,
            ],
            Operation::CreateServiceRequest => vec![
                Step::LoadDatabase,
                Step::LoadHeaders,
                Step::Authenticate,
                Step::Authorize,
                Step::LinkUser,
                Step::LinkSupportingDocuments,
                Step::RunQuery,
                Step::ReadResult,
                Step::Respond,
            ],
            Operation::CreateServiceRate => vec![
                Step::LoadDatabase,
                Step::LoadHeaders,
                Step::Authenticate,
                Step::Authorize,
                Step::LinkUser,
                Step::LinkCurrency,
                Step::RunQuery,
                Step::ReadResult,
                Step::Respond,
            ],
            Operation::UpdateBlogPostShareCount => vec![
                Step::LoadDatabase,
                Step::IdentifyVisitor,
                Step::LinkUser,
                Step::RunQuery,
                Step::ReadResult,
                Step::Respond,
            ],
            Operation::FetchUserResources | Operation::FetchMessages => vec![
                Step::LoadDatabase,
                Step::Authenticate,
                Step::RunQuery,
                Step::ReadResult,
                Step::Respond,
            ],
            Operation::FetchBlogPosts | Operation::FetchSingleBlogPost => vec![
                Step::LoadDatabase,
                Step::RunQuery,
                Step::ReadResult,
                Step::PostProcess,
                Step::Respond,
            ],
            Operation::SendMessage | Operation::FetchSiteResources | Operation::FetchBillingRate
            | Operation::FetchRatecards | Operation::FetchServiceRates => vec![
                Step::LoadDatabase,
                Step::RunQuery,
                Step::ReadResult,
                Step::Respond,
            ],
        }
    }

    /// The authorization constraint this operation checks, if any.
    pub fn authorization_constraint(&self) -> (res: Option<AuthorizationConstraint>)
        ensures
            match required_access(*self) {
                Some((permission, privilege)) => res matches Some(c) && c.permissions@.len() == 1
                    && c.permissions@[0]@ == permission && c.privilege == privilege,
                None => res is None,
            },
    {
        let (permission, privilege) = match self {
            Operation::CreateProfessionalDetails => (
                "write:professional_details",
                AdminPrivilege::SuperAdmin,
            ),
            Operation::CreateUserService => ("write:service", AdminPrivilege::SuperAdmin),
            Operation::CreatePortfolioItem => ("write:portfolio", AdminPrivilege::SuperAdmin),
            Operation::CreateResumeItem => ("write:resume_item", AdminPrivilege::SuperAdmin),
            Operation::CreateSkill => ("write:skill", AdminPrivilege::SuperAdmin),
            Operation::CreateBlogPost | Operation::EditBlogPost => (
                "write:blog_post",
                AdminPrivilege::Admin,
            ),
            Operation::CreateRatecard => ("write:ratecard", AdminPrivilege::SuperAdmin),
            Operation::CreateServiceRequest => (
                "write:service_request",
                AdminPrivilege::NoPrivilege,
            ),
            Operation::CreateServiceRate => ("write:service_rate", AdminPrivilege::NoPrivilege),
            Operation::FetchServiceRequests => ("read:service_request", AdminPrivilege::Admin),
            _ => {
                return None;
            },
        };
        let mut permissions: Vec<String> = Vec::new();
        permissions.push(String::from_str(permission));
        Some(AuthorizationConstraint { permissions, privilege })
    }
}

/// Whether the outcome of `step` lets the operation go on.
fn step_passes(op: Operation, step: Step, outcome: Outcome) -> (res: bool)
    ensures
        res == passes(op, step, outcome),
{
    match step {
        Step::IdentifyVisitor | Step::PostProcess => true,
        Step::ReadResult => outcome == Outcome::Succeeded || (outcome == Outcome::Empty
            && op.reads_list()),
        _ => outcome == Outcome::Succeeded,
    }
}

fn api_error(message: &str, code: Option<u16>) -> (res: Option<ApiError>)
    ensures
        res matches Some(e) && e.message@ == message@ && e.code == code,
{
    Some(ApiError { message: String::from_str(message), code })
}

/// The error answered when `step` of `op` ends with `outcome` and cannot go on.
fn step_rejection(op: Operation, step: Step, outcome: Outcome) -> (res: Option<ApiError>)
    ensures
        match rejection(op, step, outcome) {
            Some((message, code)) => res matches Some(e) && e.message@ == message && e.code
                == code,
            None => res is None,
        },
{
    match step {
        Step::LoadDatabase | Step::LoadHeaders => api_error("Server Error", Some(500)),
        Step::Authenticate => None,
        Step::Authorize => if outcome == Outcome::Denied {
            api_error("Forbidden", Some(403))
        } else {
            None
        },
        Step::LinkUser => match op {
            Operation::CreateProfessionalDetails => api_error("Something went wrong!", Some(500)),
            Operation::CreateUserService | Operation::CreatePortfolioItem => api_error(
                "Invalid Input Data",
                Some(400),
            ),
            _ => api_error("Something went wrong", Some(500)),
        },
        Step::StoreContentFile | Step::LinkContentFile | Step::LinkSupportingDocuments
        | Step::LinkCurrency => api_error("Something went wrong", Some(500)),
        Step::RunQuery => if op == Operation::CreateBlogPost {
            api_error("Internal Server Error", None)
        } else if op.is_mutation() {
            api_error("Failed", Some(400))
        } else {
            api_error("Server Error", Some(500))
        },
        Step::ReadResult => if outcome == Outcome::Empty {
            if op == Operation::EditBlogPost || op == Operation::FetchSingleBlogPost {
                api_error("Blog post not found", Some(404))
            } else {
                api_error("Failed", Some(400))
            }
        } else if op == Operation::FetchSingleBlogPost {
            None
        } else if op.is_mutation() {
            api_error("Failed", Some(400))
        } else {
            api_error("Server Error", Some(500))
        },
        Step::Respond => api_error("Bad Request", Some(400)),
        Step::IdentifyVisitor | Step::PostProcess => None,
    }
}

/// Where a resolver stands: its operation and the position of the step it is
/// performing in the operation's plan.
#[derive(Clone, Copy, Debug)]
pub struct ResolverState {
    pub operation: Operation,
    pub position: usize,
}

impl ResolverState {
    /// Whether the position lies within the operation's plan.
    pub open spec fn is_valid(&self) -> bool {
        self.position < plan(self.operation).len()
    }

    /// The state of a resolver that starts `operation`, and its first step.
    pub fn start(operation: Operation) -> (res: (ResolverState, Step))
        ensures
            res.0.operation == operation,
            res.0.position == 0,
            res.0.is_valid(),
            res.1 == plan(operation)[0],
    {
        let steps = operation.plan();
        (ResolverState { operation, position: 0 }, steps[0])
    }

    /// The step being performed.
    pub fn current_step(&self) -> (res: Step)
        requires
            self.is_valid(),
        ensures
            res == plan(self.operation)[self.position as int],
    {
        let steps = self.operation.plan();
        steps[self.position]
    }

    /// Takes the outcome of the current step and says what to do next; the
    /// state moves to the next step when the reply is to perform it.
    pub fn advance(&self, outcome: Outcome) -> (res: (ResolverState, Reply))
        requires
            self.is_valid(),
        ensures
            res.1@ == next_reply(self.operation, self.position as int, outcome),
            res.0.operation == self.operation,
            res.1@ is Perform ==> res.0.position == self.position + 1 && res.0.is_valid(),
            !(res.1@ is Perform) ==> res.0.position == self.position,
    {
        let steps = self.operation.plan();
        let step = steps[self.position];
        if step_passes(self.operation, step, outcome) {
            if self.position + 1 < steps.len() {
                (
                    ResolverState { operation: self.operation, position: self.position + 1 },
                    Reply::Perform(steps[self.position + 1]),
                )
            } else {
                (*self, Reply::Finish)
            }
        } else {
            match step_rejection(self.operation, step, outcome) {
                Some(e) => (*self, Reply::Reject(e)),
                None => (*self, Reply::Propagate),
            }
        }
    }
}

/// A foreign key to the caller's user record.
pub fn user_link(auth: &AuthStatus) -> (res: ForeignKey)
    ensures
        res.table@ == "user_id"@,
        res.column@ == "user_id"@,
        res.foreign_key@ == auth.sub@,
{
    ForeignKey::in_table("user_id", auth.sub.as_str())
}

/// The Markdown file a new blog post's content is stored in: named after the
/// title, free unless the post is premium.
pub fn content_file_info(title: &str, content: &str, is_premium: Option<bool>) -> (res:
    CreateFileInfo)
    ensures
        res.file_name@ == title@,
        res.content@ == content@,
        res.extension == AllowedCreateFileExtension::Markdown,
        res.is_free == !(is_premium == Some(true)),
{
    let premium = match is_premium {
        Some(p) => p,
        None => false,
    };
    CreateFileInfo {
        file_name: String::from_str(title),
        content: String::from_str(content),
        extension: AllowedCreateFileExtension::Markdown,
        is_free: !premium,
    }
}

/// The user id of a visitor: the session's subject, or `anonymous` without a session.
pub fn visitor_id(auth: Option<&AuthStatus>) -> (res: String)
    ensures
        res@ == match auth {
            Some(a) => a.sub@,
            None => "anonymous"@,
        },
{
    match auth {
        Some(a) => a.sub.clone(),
        None => String::from_str("anonymous"),
    }
}

/// A record reference `table:id`.
pub fn record_reference(table: &str, id: &str) -> (res: String)
    ensures
        res@ == table@ + ":"@ + id@,
{
    String::from_str(table).concat(":").concat(id)
}

/// What to do next while linking the supporting documents of a service
/// request one at a time.
#[derive(Clone, Copy, Debug, PartialEq, Eq, Structural)]
pub enum LinkingReply {
    /// Link the document at this index.
    Link(usize),
    /// Every document is linked: the step succeeded.
    Linked,
    /// Linking a document failed: link no more, the step failed.
    Failed,
}

/// How far linking the supporting documents has come: how many there are and
/// how many are linked.
#[derive(Clone, Copy, Debug)]
pub struct DocumentLinking {
    pub total: usize,
    pub linked: usize,
}

/// The next state and reply when linking document `linked` of `total` ends
/// with `succeeded`: on success the following document is asked for, or the
/// step succeeds after the last; on failure the step fails and nothing more
/// is linked.
pub open spec fn linking_next(total: nat, linked: nat, succeeded: bool) -> (nat, LinkingReply) {
    if !succeeded {
        (linked, LinkingReply::Failed)
    } else if linked + 1 < total {
        ((linked + 1) as nat, LinkingReply::Link((linked + 1) as usize))
    } else {
        ((linked + 1) as nat, LinkingReply::Linked)
    }
}

/// The first reply for `total` documents: link the first, or succeed at once
/// when there are none.
pub open spec fn linking_first(total: nat) -> LinkingReply {
    if total == 0 {
        LinkingReply::Linked
    } else {
        LinkingReply::Link(0)
    }
}

/// The documents asked for, in order, from document `linked` on, when the
/// links asked for end with `outcomes` in turn (asking stops when they run out).
pub open spec fn documents_asked_from(total: nat, linked: nat, outcomes: Seq<bool>) -> Seq<nat>
    decreases outcomes.len(),
{
    if outcomes.len() == 0 {
        seq![linked]
    } else {
        match linking_next(total, linked, outcomes[0]).1 {
            LinkingReply::Link(_) => seq![linked] + documents_asked_from(
                total,
                (linked + 1) as nat,
                outcomes.drop_first(),
            ),
            _ => seq![linked],
        }
    }
}

/// The documents asked for, in order, when the links asked for end with
/// `outcomes` in turn.
pub open spec fn documents_asked(total: nat, outcomes: Seq<bool>) -> Seq<nat> {
    if total == 0 {
        seq![]
    } else {
        documents_asked_from(total, 0, outcomes)
    }
}

impl DocumentLinking {
    /// Whether no more documents are linked than there are.
    pub open spec fn is_valid(&self) -> bool {
        self.linked <= self.total
    }

    /// Starts linking `total` documents.
    pub fn start(total: usize) -> (res: (DocumentLinking, LinkingReply))
        ensures
            res.0.total == total,
            res.0.linked == 0,
            res.1 == linking_first(total as nat),
    {
        let reply = if total == 0 {
            LinkingReply::Linked
        } else {
            LinkingReply::Link(0)
        };
        (DocumentLinking { total, linked: 0 }, reply)
    }

    /// Takes whether linking the current document succeeded and says what to
    /// do next.
    pub fn advance(&self, succeeded: bool) -> (res: (DocumentLinking, LinkingReply))
        requires
            self.linked < self.total,
        ensures
            res.0.total == self.total,
            (res.0.linked as nat, res.1) == linking_next(
                self.total as nat,
                self.linked as nat,
                succeeded,
            ),
            res.0.is_valid(),
    {
        if !succeeded {
            (*self, LinkingReply::Failed)
        } else if self.linked + 1 < self.total {
            (
                DocumentLinking { total: self.total, linked: self.linked + 1 },
                LinkingReply::Link(self.linked + 1),
            )
        } else {
            (DocumentLinking { total: self.total, linked: self.linked + 1 }, LinkingReply::Linked)
        }
    }
}

/// The outcome of the whole linking step once linking has ended.
pub fn linking_outcome(reply: LinkingReply) -> (res: Option<Outcome>)
    ensures
        reply == LinkingReply::Linked ==> res == Some(Outcome::Succeeded),
        reply == LinkingReply::Failed ==> res == Some(Outcome::Failed),
        reply is Link ==> res is None,
{
    match reply {
        LinkingReply::Linked => Some(Outcome::Succeeded),
        LinkingReply::Failed => Some(Outcome::Failed),
        LinkingReply::Link(_) => None,
    }
}

proof fn lemma_documents_asked_from(total: nat, linked: nat, outcomes: Seq<bool>)
    requires
        linked < total,
    ensures
        ({
            let asked = documents_asked_from(total, linked, outcomes);
            &&& 1 <= asked.len()
            &&& linked + asked.len() <= total
            &&& forall|i: int| 0 <= i < asked.len() ==> #[trigger] asked[i] == linked + i
            &&& forall|i: int| 0 <= i < asked.len() - 1 ==> #[trigger] outcomes[i]
            &&& asked.len() <= outcomes.len() + 1
        }),
    decreases outcomes.len(),
{
    if outcomes.len() > 0 {
        if linking_next(total, linked, outcomes[0]).1 is Link {
            let rest = outcomes.drop_first();
            lemma_documents_asked_from(total, (linked + 1) as nat, rest);
            let asked = documents_asked_from(total, linked, outcomes);
            let tail = documents_asked_from(total, (linked + 1) as nat, rest);
            assert(asked == seq![linked] + tail);
            assert forall|i: int| 0 <= i < asked.len() implies #[trigger] asked[i] == linked + i by {
                if i > 0 {
                    assert(asked[i] == tail[i - 1]);
                }
            }
            assert forall|i: int| 0 <= i < asked.len() - 1 implies #[trigger] outcomes[i] by {
                if i > 0 {
                    assert(outcomes[i] == rest[i - 1]);
                }
            }
        }
    }
}

/// Supporting documents are linked one at a time, in order, and none after
/// one that failed: the documents asked for are the first `k` of them, and
/// every one of those but the last was linked.
pub proof fn lemma_linking_stops_at_first_failure(total: nat, outcomes: Seq<bool>)
    ensures
        ({
            let asked = documents_asked(total, outcomes);
            &&& asked.len() <= total
            &&& forall|i: int| 0 <= i < asked.len() ==> #[trigger] asked[i] == i
            &&& forall|i: int| 0 <= i < asked.len() - 1 ==> #[trigger] outcomes[i]
        }),
{
    if total > 0 {
        lemma_documents_asked_from(total, 0, outcomes);
    }
}

/// The replies of linking, in order, from `reply` on, when `linked`
/// documents are linked and the links asked for end with `outcomes` in turn.
pub open spec fn linking_replies_from(
    total: nat,
    linked: nat,
    reply: LinkingReply,
    outcomes: Seq<bool>,
) -> Seq<LinkingReply>
    decreases outcomes.len(),
{
    if reply is Link && outcomes.len() > 0 {
        let next = linking_next(total, linked, outcomes[0]);
        seq![reply] + linking_replies_from(total, next.0, next.1, outcomes.drop_first())
    } else {
        seq![reply]
    }
}

/// The replies of linking `total` documents from the start, when the links
/// asked for end with `outcomes` in turn.
pub open spec fn linking_replies(total: nat, outcomes: Seq<bool>) -> Seq<LinkingReply> {
    linking_replies_from(total, 0, linking_first(total), outcomes)
}

proof fn lemma_linking_replies_from(total: nat, linked: nat, outcomes: Seq<bool>)
    requires
        linked < total,
        total <= usize::MAX,
    ensures
        ({
            let replies = linking_replies_from(total, linked, LinkingReply::Link(linked as usize), outcomes);
            &&& replies.len() <= outcomes.len() + 1
            &&& forall|i: int| 0 <= i < replies.len() ==> (#[trigger] replies[i] matches LinkingReply::Link(k)
                ==> k == linked + i && k < total)
            &&& forall|i: int| 0 <= i < replies.len() ==> (#[trigger] replies[i] == LinkingReply::Linked
                ==> linked + i == total && forall|j: int| 0 <= j < i ==> #[trigger] outcomes[j])
            &&& forall|i: int| 0 <= i < replies.len() ==> (#[trigger] replies[i] == LinkingReply::Failed
                ==> 0 < i && !outcomes[i - 1] && forall|j: int| 0 <= j < i - 1 ==> #[trigger] outcomes[j])
        }),
    decreases outcomes.len(),
{
    let replies = linking_replies_from(total, linked, LinkingReply::Link(linked as usize), outcomes);
    if outcomes.len() > 0 {
        let next = linking_next(total, linked, outcomes[0]);
        let rest = outcomes.drop_first();
        let tail = linking_replies_from(total, next.0, next.1, rest);
        assert(replies == seq![LinkingReply::Link(linked as usize)] + tail);
        if next.1 is Link {
            lemma_linking_replies_from(total, (linked + 1) as nat, rest);
        } else {
            assert(tail == seq![next.1]);
        }
        assert forall|i: int| 0 <= i < replies.len() implies (#[trigger] replies[i] matches LinkingReply::Link(k)
            ==> k == linked + i && k < total) by {
            if i > 0 {
                assert(replies[i] == tail[i - 1]);
            }
        }
        assert forall|i: int| 0 <= i < replies.len() implies (#[trigger] replies[i] == LinkingReply::Linked
            ==> linked + i == total && forall|j: int| 0 <= j < i ==> #[trigger] outcomes[j]) by {
            if i > 0 {
                assert(replies[i] == tail[i - 1]);
                if replies[i] == LinkingReply::Linked {
                    assert forall|j: int| 0 <= j < i implies #[trigger] outcomes[j] by {
                        if j > 0 {
                            assert(outcomes[j] == rest[j - 1]);
                        }
                    }
                }
            }
        }
        assert forall|i: int| 0 <= i < replies.len() implies (#[trigger] replies[i] == LinkingReply::Failed
            ==> 0 < i && !outcomes[i - 1] && forall|j: int| 0 <= j < i - 1 ==> #[trigger] outcomes[j]) by {
            if i > 0 {
                assert(replies[i] == tail[i - 1]);
                if replies[i] == LinkingReply::Failed {
                    if i > 1 {
                        assert(outcomes[i - 1] == rest[i - 2]);
                    }
                    assert forall|j: int| 0 <= j < i - 1 implies #[trigger] outcomes[j] by {
                        if j > 0 {
                            assert(outcomes[j] == rest[j - 1]);
                        }
                    }
                }
            }
        }
    }
}

/// Each supporting document is asked for once, in order: the `i`-th reply,
/// when it asks to link a document, asks for document `i`; linking succeeds
/// only after all `total` documents were linked, and fails only right after a
/// document failed to link, every earlier one having been linked.
pub proof fn lemma_each_document_linked_once_in_order(total: nat, outcomes: Seq<bool>)
    requires
        total <= usize::MAX,
    ensures
        ({
            let replies = linking_replies(total, outcomes);
            &&& forall|i: int| 0 <= i < replies.len() ==> (#[trigger] replies[i] matches LinkingReply::Link(k)
                ==> k == i && k < total)
            &&& forall|i: int| 0 <= i < replies.len() ==> (#[trigger] replies[i] == LinkingReply::Linked
                ==> i == total && forall|j: int| 0 <= j < i ==> #[trigger] outcomes[j])
            &&& forall|i: int| 0 <= i < replies.len() ==> (#[trigger] replies[i] == LinkingReply::Failed
                ==> 0 < i && !outcomes[i - 1] && forall|j: int| 0 <= j < i - 1 ==> #[trigger] outcomes[j])
        }),
{
    if total > 0 {
        lemma_linking_replies_from(total, 0, outcomes);
    } else {
        assert(linking_replies(total, outcomes) == seq![LinkingReply::Linked]);
    }
}

/// The operations that read a list.
pub open spec fn list_reading_operation(op: Operation) -> bool {
    op == Operation::FetchBlogPosts || op == Operation::FetchUserResources || op
        == Operation::FetchSiteResources || op == Operation::FetchMessages || op
        == Operation::FetchRatecards || op == Operation::FetchServiceRates || op
        == Operation::FetchServiceRequests
}

/// Reading nothing is no error for the operations that read a list (blog
/// posts, a user's resources, the site's resources, messages, rate cards,
/// service rates, service requests): an empty read goes on exactly as a read
/// that found records. For every other operation an empty read is refused.
pub proof fn lemma_empty_list_is_answered(op: Operation, position: int)
    requires
        0 <= position < plan(op).len(),
        plan(op)[position] == Step::ReadResult,
    ensures
        list_reading_operation(op) ==> next_reply(op, position, Outcome::Empty) == next_reply(
            op,
            position,
            Outcome::Succeeded,
        ) && next_reply(op, position, Outcome::Empty) is Perform,
        !list_reading_operation(op) ==> next_reply(op, position, Outcome::Empty) is Reject,
        reads_list(op) <==> list_reading_operation(op),
{
}

/// The steps of every operation, in order.
pub proof fn lemma_plans(op: Operation)
    ensures
        op == Operation::CreateProfessionalDetails || op == Operation::CreateUserService || op
            == Operation::CreatePortfolioItem || op == Operation::CreateResumeItem || op
            == Operation::CreateSkill || op == Operation::CreateRatecard ==> plan(op) == seq![
            Step::LoadDatabase,
            Step::LoadHeaders,
            Step::Authenticate,
            Step::Authorize,
            Step::LinkUser,
            Step::RunQuery,
            Step::ReadResult,
            Step::Respond,
        ],
        op == Operation::CreateBlogPost ==> plan(op) == seq![
            Step::LoadDatabase,
            Step::LoadHeaders,
            Step::Authenticate,
            Step::Authorize,
            Step::StoreContentFile,
            Step::LinkUser,
            Step::LinkContentFile,
            Step::RunQuery,
            Step::ReadResult,
            Step::Respond,
        ],
        op == Operation::AddCommentToBlogPost || op == Operation::ReplyToAComment || op
            == Operation::ReactToBlogPost || op == Operation::ReactToBlogComment || op
            == Operation::BookmarkBlogPost ==> plan(op) == seq![
            Step::LoadDatabase,
            Step::Authenticate,
            Step::LinkUser,
            Step::RunQuery,
            Step::ReadResult,
            Step::Respond,
        ],
        op == Operation::EditBlogPost || op == Operation::FetchServiceRequests ==> plan(op) == seq![
            Step::LoadDatabase,
            Step::LoadHeaders,
            Step::Authenticate,
            Step::Authorize,
            Step::RunQuery,
            Step::ReadResult,
            Step::Respond,
        ],
        op == Operation::CreateServiceRequest ==> plan(op) == seq![
            Step::LoadDatabase,
            Step::LoadHeaders,
            Step::Authenticate,
            Step::Authorize,
            Step::LinkUser,
            Step::LinkSupportingDocuments,
            Step::RunQuery,
            Step::ReadResult,
            Step::Respond,
        ],
        op == Operation::CreateServiceRate ==> plan(op) == seq![
            Step::LoadDatabase,
            Step::LoadHeaders,
            Step::Authenticate,
            Step::Authorize,
            Step::LinkUser,
            Step::LinkCurrency,
            Step::RunQuery,
            Step::ReadResult,
            Step::Respond,
        ],
        op == Operation::UpdateBlogPostShareCount ==> plan(op) == seq![
            Step::LoadDatabase,
            Step::IdentifyVisitor,
            Step::LinkUser,
            Step::RunQuery,
            Step::ReadResult,
            Step::Respond,
        ],
        op == Operation::FetchUserResources || op == Operation::FetchMessages ==> plan(op) == seq![
            Step::LoadDatabase,
            Step::Authenticate,
            Step::RunQuery,
            Step::ReadResult,
            Step::Respond,
        ],
        op == Operation::FetchBlogPosts || op == Operation::FetchSingleBlogPost ==> plan(op)
            == seq![
            Step::LoadDatabase,
            Step::RunQuery,
            Step::ReadResult,
            Step::PostProcess,
            Step::Respond,
        ],
        op == Operation::SendMessage || op == Operation::FetchSiteResources || op
            == Operation::FetchBillingRate || op == Operation::FetchRatecards || op
            == Operation::FetchServiceRates ==> plan(op) == seq![
            Step::LoadDatabase,
            Step::RunQuery,
            Step::ReadResult,
            Step::Respond,
        ],
{
}

/// The posts read by the operations that read blog posts are post-processed
/// (highlighted, reading time estimated) right after they are read and before
/// the response is built.
pub proof fn lemma_posts_are_processed_before_responding(op: Operation)
    requires
        op == Operation::FetchBlogPosts || op == Operation::FetchSingleBlogPost,
    ensures
        exists|i: int|
            0 <= i && i + 2 < plan(op).len() && #[trigger] plan(op)[i] == Step::ReadResult
                && plan(op)[i + 1] == Step::PostProcess && plan(op)[i + 2] == Step::Respond,
{
    assert(plan(op)[2] == Step::ReadResult);
}

/// Steps that change something outside the service: files, records, the database.
pub open spec fn writes(step: Step) -> bool {
    match step {
        Step::StoreContentFile | Step::LinkUser | Step::LinkContentFile
        | Step::LinkSupportingDocuments | Step::LinkCurrency | Step::RunQuery => true,
        _ => false,
    }
}

/// Every plan starts by loading the database, ends by building the response,
/// and performs each step at most once.
pub proof fn lemma_plan_shape(op: Operation)
    ensures
        plan(op).len() >= 4,
        plan(op)[0] == Step::LoadDatabase,
        plan(op).last() == Step::Respond,
        forall|i: int, j: int|
            0 <= i < j < plan(op).len() ==> #[trigger] plan(op)[i] != #[trigger] plan(op)[j],
{
}

/// An operation checks authorization exactly when it has an authorization
/// constraint, and then right after authenticating the caller.
pub proof fn lemma_authorization_follows_authentication(op: Operation)
    ensures
        required_access(op) is Some <==> plan(op).contains(Step::Authorize),
        required_access(op) is Some ==> plan(op)[2] == Step::Authenticate && plan(op)[3]
            == Step::Authorize,
{
    if required_access(op) is Some {
        assert(plan(op)[3] == Step::Authorize);
    } else {
        assert forall|i: int| 0 <= i < plan(op).len() implies plan(op)[i] != Step::Authorize by {
        }
    }
}

/// No write happens before authorization: in every plan, each step that writes
/// comes after the authorization check, if there is one, and every mutation
/// except sending a message and sharing a post authenticates the caller first.
pub proof fn lemma_writes_after_access_checks(op: Operation, i: int, j: int)
    requires
        0 <= i < plan(op).len(),
        0 <= j < plan(op).len(),
        writes(plan(op)[j]),
    ensures
        plan(op)[i] == Step::Authorize ==> i < j,
        plan(op)[i] == Step::Authenticate ==> i < j,
        is_mutation(op) && op != Operation::SendMessage && op
            != Operation::UpdateBlogPostShareCount ==> exists|k: int|
            0 <= k < j && #[trigger] plan(op)[k] == Step::Authenticate,
{
    if is_mutation(op) && op != Operation::SendMessage && op != Operation::UpdateBlogPostShareCount {
        if plan(op)[1] == Step::Authenticate {
            assert(plan(op)[1] == Step::Authenticate);
        } else {
            assert(plan(op)[2] == Step::Authenticate);
        }
    }
}

/// A refused authorization is always answered "Forbidden" with status 403.
pub proof fn lemma_denial_is_forbidden(op: Operation, position: int)
    requires
        0 <= position < plan(op).len(),
        plan(op)[position] == Step::Authorize,
    ensures
        next_reply(op, position, Outcome::Denied) == ReplyView::Reject("Forbidden"@, Some(403u16)),
{
}

/// A step that fails never lets the operation go on, except identifying the
/// visitor (who is then anonymous) and post-processing.
pub proof fn lemma_failure_stops(op: Operation, position: int)
    requires
        0 <= position < plan(op).len(),
        plan(op)[position] != Step::IdentifyVisitor,
        plan(op)[position] != Step::PostProcess,
    ensures
        !(next_reply(op, position, Outcome::Failed) is Perform),
        !(next_reply(op, position, Outcome::Failed) is Finish),
{
}

/// An operation finishes only after its last step, the response, succeeds.
pub proof fn lemma_finish_only_after_response(op: Operation, position: int, outcome: Outcome)
    requires
        0 <= position < plan(op).len(),
        next_reply(op, position, outcome) is Finish,
    ensures
        plan(op)[position] == Step::Respond,
        outcome == Outcome::Succeeded,
{
    lemma_plan_shape(op);
}

} // verus!
