use shared_service::models::{AdminPrivilege, AllowedCreateFileExtension, AuthStatus};
use shared_service::resolvers::{
    content_file_info, linking_outcome, record_reference, user_link, visitor_id, DocumentLinking,
    LinkingReply, Operation, Outcome, Reply, ResolverState, Step,
};

const ALL: [Operation; 26] = [
    Operation::CreateProfessionalDetails,
    Operation::CreateUserService,
    Operation::CreatePortfolioItem,
    Operation::CreateResumeItem,
    Operation::CreateSkill,
    Operation::CreateBlogPost,
    Operation::AddCommentToBlogPost,
    Operation::ReplyToAComment,
    Operation::ReactToBlogPost,
    Operation::ReactToBlogComment,
    Operation::SendMessage,
    Operation::EditBlogPost,
    Operation::CreateRatecard,
    Operation::CreateServiceRequest,
    Operation::CreateServiceRate,
    Operation::BookmarkBlogPost,
    Operation::UpdateBlogPostShareCount,
    Operation::FetchBlogPosts,
    Operation::FetchUserResources,
    Operation::FetchSiteResources,
    Operation::FetchSingleBlogPost,
    Operation::FetchMessages,
    Operation::FetchBillingRate,
    Operation::FetchRatecards,
    Operation::FetchServiceRates,
    Operation::FetchServiceRequests,
];

fn state_at(operation: Operation, step: Step) -> ResolverState {
    let position = operation.plan().iter().position(|s| *s == step).unwrap();
    ResolverState { operation, position }
}

fn rejection(reply: &Reply) -> (String, Option<u16>) {
    match reply {
        Reply::Reject(e) => (e.message.clone(), e.code),
        _ => panic!("expected a rejection"),
    }
}

#[test]
fn every_operation_runs_its_plan_to_the_end_when_all_succeeds() {
    for op in ALL {
        let plan = op.plan();
        let (mut state, first) = ResolverState::start(op);
        assert_eq!(first, Step::LoadDatabase);
        assert_eq!(state.current_step(), Step::LoadDatabase);
        let mut performed = vec![first];
        loop {
            let (next, reply) = state.advance(Outcome::Succeeded);
            match reply {
                Reply::Perform(step) => {
                    performed.push(step);
                    state = next;
                    assert_eq!(state.current_step(), step);
                }
                Reply::Finish => break,
                _ => panic!("success never stops an operation"),
            }
        }
        assert_eq!(performed, plan);
        assert_eq!(*performed.last().unwrap(), Step::Respond);
    }
}

#[test]
fn refused_authorization_is_forbidden() {
    for op in ALL {
        if op.plan().contains(&Step::Authorize) {
            let (_, reply) = state_at(op, Step::Authorize).advance(Outcome::Denied);
            assert_eq!(rejection(&reply), ("Forbidden".to_string(), Some(403)));
        }
    }
}

#[test]
fn failing_authentication_passes_its_error_on() {
    let (_, reply) = state_at(Operation::FetchMessages, Step::Authenticate).advance(Outcome::Failed);
    assert!(matches!(reply, Reply::Propagate));
    let (_, reply) =
        state_at(Operation::CreateSkill, Step::Authorize).advance(Outcome::Failed);
    assert!(matches!(reply, Reply::Propagate));
}

#[test]
fn missing_context_is_a_server_error() {
    for op in ALL {
        let (_, reply) = ResolverState::start(op).0.advance(Outcome::Failed);
        assert_eq!(rejection(&reply), ("Server Error".to_string(), Some(500)));
    }
}

#[test]
fn user_link_failures_differ_per_operation() {
    let cases = [
        (Operation::CreateProfessionalDetails, "Something went wrong!", 500),
        (Operation::CreateUserService, "Invalid Input Data", 400),
        (Operation::CreatePortfolioItem, "Invalid Input Data", 400),
        (Operation::CreateResumeItem, "Something went wrong", 500),
        (Operation::BookmarkBlogPost, "Something went wrong", 500),
        (Operation::UpdateBlogPostShareCount, "Something went wrong", 500),
    ];
    for (op, message, code) in cases {
        let (_, reply) = state_at(op, Step::LinkUser).advance(Outcome::Failed);
        assert_eq!(rejection(&reply), (message.to_string(), Some(code)));
    }
}

#[test]
fn query_failures_depend_on_the_operation() {
    let (_, reply) = state_at(Operation::CreateBlogPost, Step::RunQuery).advance(Outcome::Failed);
    assert_eq!(rejection(&reply), ("Internal Server Error".to_string(), None));
    let (_, reply) = state_at(Operation::CreateSkill, Step::RunQuery).advance(Outcome::Failed);
    assert_eq!(rejection(&reply), ("Failed".to_string(), Some(400)));
    let (_, reply) = state_at(Operation::FetchRatecards, Step::RunQuery).advance(Outcome::Failed);
    assert_eq!(rejection(&reply), ("Server Error".to_string(), Some(500)));
}

#[test]
fn missing_records_are_answered_per_operation() {
    let (_, reply) = state_at(Operation::EditBlogPost, Step::ReadResult).advance(Outcome::Empty);
    assert_eq!(rejection(&reply), ("Blog post not found".to_string(), Some(404)));
    let (_, reply) =
        state_at(Operation::FetchSingleBlogPost, Step::ReadResult).advance(Outcome::Empty);
    assert_eq!(rejection(&reply), ("Blog post not found".to_string(), Some(404)));
    let (_, reply) = state_at(Operation::SendMessage, Step::ReadResult).advance(Outcome::Empty);
    assert_eq!(rejection(&reply), ("Failed".to_string(), Some(400)));
    let (_, reply) = state_at(Operation::FetchBillingRate, Step::ReadResult).advance(Outcome::Empty);
    assert_eq!(rejection(&reply), ("Failed".to_string(), Some(400)));
    let (next, reply) = state_at(Operation::FetchBlogPosts, Step::ReadResult).advance(Outcome::Empty);
    assert!(matches!(reply, Reply::Perform(Step::PostProcess)));
    assert_eq!(next.current_step(), Step::PostProcess);
}

#[test]
fn reading_failures_depend_on_the_operation() {
    let (_, reply) =
        state_at(Operation::FetchSingleBlogPost, Step::ReadResult).advance(Outcome::Failed);
    assert!(matches!(reply, Reply::Propagate));
    let (_, reply) = state_at(Operation::FetchMessages, Step::ReadResult).advance(Outcome::Failed);
    assert_eq!(rejection(&reply), ("Server Error".to_string(), Some(500)));
    let (_, reply) = state_at(Operation::CreateRatecard, Step::ReadResult).advance(Outcome::Failed);
    assert_eq!(rejection(&reply), ("Failed".to_string(), Some(400)));
}

#[test]
fn building_the_response_can_fail() {
    for op in ALL {
        let (_, reply) = state_at(op, Step::Respond).advance(Outcome::Failed);
        assert_eq!(rejection(&reply), ("Bad Request".to_string(), Some(400)));
    }
}

#[test]
fn anonymous_visitors_may_share() {
    let (next, reply) =
        state_at(Operation::UpdateBlogPostShareCount, Step::IdentifyVisitor).advance(Outcome::Failed);
    assert!(matches!(reply, Reply::Perform(Step::LinkUser)));
    assert_eq!(next.position, 2);
    assert_eq!(visitor_id(None), "anonymous");
    let auth = AuthStatus { is_auth: true, sub: "auth0|42".to_string(), current_role: "user".to_string() };
    assert_eq!(visitor_id(Some(&auth)), "auth0|42");
}

#[test]
fn authorization_constraints_per_operation() {
    let cases = [
        (Operation::CreateProfessionalDetails, "write:professional_details", AdminPrivilege::SuperAdmin),
        (Operation::CreateUserService, "write:service", AdminPrivilege::SuperAdmin),
        (Operation::CreatePortfolioItem, "write:portfolio", AdminPrivilege::SuperAdmin),
        (Operation::CreateResumeItem, "write:resume_item", AdminPrivilege::SuperAdmin),
        (Operation::CreateSkill, "write:skill", AdminPrivilege::SuperAdmin),
        (Operation::CreateBlogPost, "write:blog_post", AdminPrivilege::Admin),
        (Operation::EditBlogPost, "write:blog_post", AdminPrivilege::Admin),
        (Operation::CreateRatecard, "write:ratecard", AdminPrivilege::SuperAdmin),
        (Operation::CreateServiceRequest, "write:service_request", AdminPrivilege::NoPrivilege),
        (Operation::CreateServiceRate, "write:service_rate", AdminPrivilege::NoPrivilege),
        (Operation::FetchServiceRequests, "read:service_request", AdminPrivilege::Admin),
    ];
    for (op, permission, privilege) in cases {
        let c = op.authorization_constraint().unwrap();
        assert_eq!(c.permissions, vec![permission.to_string()]);
        assert_eq!(c.privilege, privilege);
    }
    for op in ALL {
        assert_eq!(op.authorization_constraint().is_some(), op.plan().contains(&Step::Authorize));
    }
    assert!(Operation::SendMessage.authorization_constraint().is_none());
}

#[test]
fn sessions_are_answered_where_the_caller_is_known() {
    assert!(Operation::CreateSkill.answers_with_session());
    assert!(Operation::FetchMessages.answers_with_session());
    assert!(!Operation::SendMessage.answers_with_session());
    assert!(!Operation::UpdateBlogPostShareCount.answers_with_session());
    assert!(!Operation::FetchBlogPosts.answers_with_session());
    assert!(Operation::CreateSkill.is_mutation());
    assert!(!Operation::FetchRatecards.is_mutation());
    assert!(Operation::FetchRatecards.reads_list());
    assert!(!Operation::FetchSingleBlogPost.reads_list());
}

#[test]
fn links_and_references() {
    let auth = AuthStatus { is_auth: true, sub: "user-7".to_string(), current_role: "admin".to_string() };
    let link = user_link(&auth);
    assert_eq!(link.table, "user_id");
    assert_eq!(link.column, "user_id");
    assert_eq!(link.foreign_key, "user-7");
    assert_eq!(record_reference("blog_post", "abc"), "blog_post:abc");
    assert_eq!(record_reference("comment", "x1"), "comment:x1");
}

#[test]
fn content_files_are_free_unless_premium() {
    let info = content_file_info("Title", "# Body", None);
    assert_eq!(info.file_name, "Title");
    assert_eq!(info.content, "# Body");
    assert_eq!(info.extension, AllowedCreateFileExtension::Markdown);
    assert!(info.is_free);
    assert!(content_file_info("T", "C", Some(false)).is_free);
    assert!(!content_file_info("T", "C", Some(true)).is_free);
}

#[test]
fn documents_are_linked_one_at_a_time_until_one_fails() {
    let (linking, reply) = DocumentLinking::start(3);
    assert_eq!(reply, LinkingReply::Link(0));
    let (linking, reply) = linking.advance(true);
    assert_eq!(reply, LinkingReply::Link(1));
    let (linking, reply) = linking.advance(false);
    assert_eq!(reply, LinkingReply::Failed);
    assert_eq!(linking.linked, 1);
    assert_eq!(linking_outcome(reply), Some(Outcome::Failed));
}

#[test]
fn linking_every_document_succeeds() {
    let (_, reply) = DocumentLinking::start(0);
    assert_eq!(reply, LinkingReply::Linked);
    let (linking, reply) = DocumentLinking::start(2);
    assert_eq!(reply, LinkingReply::Link(0));
    let (linking, reply) = linking.advance(true);
    assert_eq!(reply, LinkingReply::Link(1));
    let (linking, reply) = linking.advance(true);
    assert_eq!(reply, LinkingReply::Linked);
    assert_eq!(linking.linked, 2);
    assert_eq!(linking_outcome(reply), Some(Outcome::Succeeded));
    assert_eq!(linking_outcome(LinkingReply::Link(0)), None);
}
