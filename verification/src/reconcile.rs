//! Bringing the colour roles of one member into agreement with what the
//! member asked for.
//!
//! The library does not reach the guild itself. It says what is to be asked
//! of the guild next, and is told what came of it: `begin` reads a message
//! and gives the first `Step`, and `advance` takes the answer to the request
//! of one step and gives the next, until a step asks to `Finish`. Every
//! request is made once; nothing is tried again.
//!
//! Each command is worked on by itself, from the roles and the member as
//! they are fetched for it; nothing is remembered from one command to the
//! next. Two commands of one member that are worked on at the same time are
//! not kept apart: both may see the same colour role and ask to delete it,
//! and both may create a role. What is then left over is a colour role like
//! any other, and the next command of the member deletes it.

use crate::color::{displayable, displayable_color};
use crate::command::{read, read_message, Intent, IntentView, Reading, ReadingView};
use crate::notice::{rejection, rejection_notice, Notice};
use crate::roster::{
    color_role_name, find_stale_roles, make_color_role_name, roster_view, stale_roles, Member,
    MemberView, Role, RoleView,
};
use vstd::prelude::*;

verus! {

/// The roles of the guild or the member could not be had.
#[derive(Clone, Copy, Debug, PartialEq, Eq, Structural)]
pub struct DirectoryError;

/// A role could not be deleted, created or given to the member.
#[derive(Clone, Copy, Debug, PartialEq, Eq, Structural)]
pub struct MutationError;

/// What is to be asked of the guild.
#[derive(Debug, PartialEq, Eq)]
pub enum Request {
    /// Fetch the roles of the guild as they are now.
    FetchRoles,
    /// Fetch the member who wrote, with the roles held.
    FetchMember,
    /// Delete the role.
    DeleteRole { role_id: u64 },
    /// Create a role. Position 0 is just above the default role.
    CreateRole { name: String, color: u32, position: u8 },
    /// Give the role to the member.
    AssignRole { member_id: u64, role_id: u64 },
    /// Nothing more: the command is dealt with.
    Finish,
}

/// A `Request` with its text as a sequence of characters.
pub enum RequestView {
    FetchRoles,
    FetchMember,
    DeleteRole { role_id: u64 },
    CreateRole { name: Seq<char>, color: u32, position: u8 },
    AssignRole { member_id: u64, role_id: u64 },
    Finish,
}

impl View for Request {
    type V = RequestView;

    open spec fn view(&self) -> RequestView {
        match self {
            Request::FetchRoles => RequestView::FetchRoles,
            Request::FetchMember => RequestView::FetchMember,
            Request::DeleteRole { role_id } => RequestView::DeleteRole { role_id: *role_id },
            Request::CreateRole { name, color, position } => RequestView::CreateRole {
                name: name@,
                color: *color,
                position: *position,
            },
            Request::AssignRole { member_id, role_id } => RequestView::AssignRole {
                member_id: *member_id,
                role_id: *role_id,
            },
            Request::Finish => RequestView::Finish,
        }
    }
}

/// What came of a request.
#[derive(Debug, PartialEq, Eq)]
pub enum Response {
    /// The answer to `FetchRoles`.
    Roles(Result<Vec<Role>, DirectoryError>),
    /// The answer to `FetchMember`.
    Member(Result<Member, DirectoryError>),
    /// The answer to `DeleteRole`.
    Deleted(Result<(), MutationError>),
    /// The answer to `CreateRole`: the new role.
    Created(Result<Role, MutationError>),
    /// The answer to `AssignRole`.
    Assigned(Result<(), MutationError>),
}

/// A `Response` with its texts and lists as sequences.
pub enum ResponseView {
    Roles(Result<Seq<RoleView>, DirectoryError>),
    Member(Result<MemberView, DirectoryError>),
    Deleted(Result<(), MutationError>),
    Created(Result<RoleView, MutationError>),
    Assigned(Result<(), MutationError>),
}

impl View for Response {
    type V = ResponseView;

    open spec fn view(&self) -> ResponseView {
        match self {
            Response::Roles(Ok(roster)) => ResponseView::Roles(Ok(roster_view(roster@))),
            Response::Roles(Err(error)) => ResponseView::Roles(Err(*error)),
            Response::Member(Ok(member)) => ResponseView::Member(Ok(member@)),
            Response::Member(Err(error)) => ResponseView::Member(Err(*error)),
            Response::Deleted(result) => ResponseView::Deleted(*result),
            Response::Created(Ok(role)) => ResponseView::Created(Ok(role@)),
            Response::Created(Err(error)) => ResponseView::Created(Err(*error)),
            Response::Assigned(result) => ResponseView::Assigned(*result),
        }
    }
}

/// What to do next: first tell the member the notice, if there is one, then
/// make the request and hand its answer to `advance`.
#[derive(Debug, PartialEq, Eq)]
pub struct Step {
    pub notice: Option<Notice>,
    pub request: Request,
}

/// A `Step` with the view of its request.
pub struct StepView {
    pub notice: Option<Notice>,
    pub request: RequestView,
}

impl View for Step {
    type V = StepView;

    open spec fn view(&self) -> StepView {
        StepView { notice: self.notice, request: self.request@ }
    }
}

/// How far the work on one command has come. Each state but the last waits
/// for the answer to the one request that is under way.
#[derive(Debug, PartialEq, Eq)]
pub enum State {
    /// `FetchRoles` is under way.
    AwaitingRoles { intent: Intent },
    /// `FetchMember` is under way.
    AwaitingMember { intent: Intent, roster: Vec<Role> },
    /// `DeleteRole` is under way for one colour role of the member, and
    /// `remaining` are those to delete after it.
    Deleting { intent: Intent, member_id: u64, member_name: String, remaining: Vec<u64> },
    /// `CreateRole` is under way.
    Creating { member_id: u64 },
    /// `AssignRole` is under way.
    Assigning,
    /// Nothing is under way and nothing more will be asked.
    Finished,
}

/// A `State` with its texts and lists as sequences.
pub enum StateView {
    AwaitingRoles { intent: IntentView },
    AwaitingMember { intent: IntentView, roster: Seq<RoleView> },
    Deleting { intent: IntentView, member_id: u64, member_name: Seq<char>, remaining: Seq<u64> },
    Creating { member_id: u64 },
    Assigning,
    Finished,
}

impl View for State {
    type V = StateView;

    open spec fn view(&self) -> StateView {
        match self {
            State::AwaitingRoles { intent } => StateView::AwaitingRoles { intent: intent@ },
            State::AwaitingMember { intent, roster } => StateView::AwaitingMember {
                intent: intent@,
                roster: roster_view(roster@),
            },
            State::Deleting { intent, member_id, member_name, remaining } => StateView::Deleting {
                intent: intent@,
                member_id: *member_id,
                member_name: member_name@,
                remaining: remaining@,
            },
            State::Creating { member_id } => StateView::Creating { member_id: *member_id },
            State::Assigning => StateView::Assigning,
            State::Finished => StateView::Finished,
        }
    }
}

/// The end of the work, with a last notice or none.
pub open spec fn finish(notice: Option<Notice>) -> (StateView, StepView) {
    (StateView::Finished, StepView { notice, request: RequestView::Finish })
}

/// The notice for a request that failed, and none for one that did not.
pub open spec fn on_failure<T, E>(result: Result<T, E>, notice: Notice) -> Option<Notice> {
    match result {
        Ok(_) => None,
        Err(_) => Some(notice),
    }
}

/// What is asked once `remaining` are the colour roles of the member still
/// to delete: the first of them is deleted; when none is left, a member who
/// asked for a colour has the role created, and one who gave the colour up
/// is done.
pub open spec fn next_mutation(
    intent: IntentView,
    member_id: u64,
    member_name: Seq<char>,
    remaining: Seq<u64>,
) -> (StateView, RequestView) {
    if remaining.len() > 0 {
        (
            StateView::Deleting {
                intent,
                member_id,
                member_name,
                remaining: remaining.drop_first(),
            },
            RequestView::DeleteRole { role_id: remaining.first() },
        )
    } else {
        match intent {
            IntentView::Reset => (StateView::Finished, RequestView::Finish),
            IntentView::SetColor { raw, color } => (
                StateView::Creating { member_id },
                RequestView::CreateRole {
                    name: color_role_name(member_name, raw),
                    color,
                    position: 0,
                },
            ),
        }
    }
}

/// `next_mutation` as a step that tells the member `notice`.
pub open spec fn mutate(
    notice: Option<Notice>,
    intent: IntentView,
    member_id: u64,
    member_name: Seq<char>,
    remaining: Seq<u64>,
) -> (StateView, StepView) {
    let (state, request) = next_mutation(intent, member_id, member_name, remaining);
    (state, StepView { notice, request })
}

/// The first state and step for what a member asked: the roles of the guild
/// are fetched. Black is replaced before anything is asked, and the member
/// is told so.
pub open spec fn spec_start(intent: IntentView) -> (StateView, StepView) {
    match intent {
        IntentView::Reset => (
            StateView::AwaitingRoles { intent },
            StepView { notice: None, request: RequestView::FetchRoles },
        ),
        IntentView::SetColor { raw, color } => (
            StateView::AwaitingRoles {
                intent: IntentView::SetColor { raw, color: displayable(color) },
            },
            StepView {
                notice: if color == 0 {
                    Some(Notice::BlackReplaced)
                } else {
                    None
                },
                request: RequestView::FetchRoles,
            },
        ),
    }
}

/// The first state and step for a message body. A message that is no
/// command, or whose colour cannot be read, is finished at once, and nothing
/// is asked of the guild.
pub open spec fn spec_begin(content: Seq<char>) -> (StateView, StepView) {
    match read(content) {
        ReadingView::Ignored => finish(None),
        ReadingView::Rejected(error) => finish(Some(rejection(error))),
        ReadingView::Accepted(intent) => spec_start(intent),
    }
}

/// The next state and step, given the answer to the request under way.
///
/// - The roles of the guild, then the member, are fetched. If either cannot
///   be had, the member is told and the work ends.
/// - The colour roles that the member holds are deleted one after another.
///   One that cannot be deleted is reported, and the work goes on.
/// - For a member who asked for a colour, the new role is then created and,
///   only if that went well, given to the member. Either failure is reported.
/// - An answer to another request than the one under way ends the work.
pub open spec fn spec_advance(
    state: StateView,
    response: ResponseView,
) -> (StateView, StepView) {
    match (state, response) {
        (StateView::AwaitingRoles { intent }, ResponseView::Roles(Ok(roster))) => (
            StateView::AwaitingMember { intent, roster },
            StepView { notice: None, request: RequestView::FetchMember },
        ),
        (StateView::AwaitingRoles { .. }, ResponseView::Roles(Err(_))) => finish(
            Some(Notice::RolesUnavailable),
        ),
        (StateView::AwaitingMember { intent, roster }, ResponseView::Member(Ok(member))) => mutate(
            None,
            intent,
            member.id,
            member.name,
            stale_roles(member, roster),
        ),
        (StateView::AwaitingMember { .. }, ResponseView::Member(Err(_))) => finish(
            Some(Notice::MemberUnavailable),
        ),
        (
            StateView::Deleting { intent, member_id, member_name, remaining },
            ResponseView::Deleted(result),
        ) => mutate(
            on_failure(result, Notice::RemoveFailed),
            intent,
            member_id,
            member_name,
            remaining,
        ),
        (StateView::Creating { member_id }, ResponseView::Created(Ok(role))) => (
            StateView::Assigning,
            StepView {
                notice: None,
                request: RequestView::AssignRole { member_id, role_id: role.id },
            },
        ),
        (StateView::Creating { .. }, ResponseView::Created(Err(_))) => finish(
            Some(Notice::CreateFailed),
        ),
        (StateView::Assigning, ResponseView::Assigned(result)) => finish(
            on_failure(result, Notice::AssignFailed),
        ),
        _ => finish(None),
    }
}

/// Ends the work, with a last notice or none.
fn finished(notice: Option<Notice>) -> (out: (State, Step))
    ensures
        (out.0@, out.1@) == finish(notice),
{
    (State::Finished, Step { notice, request: Request::Finish })
}

/// Says what is asked once `remaining` are the colour roles still to delete.
fn mutation(
    notice: Option<Notice>,
    intent: Intent,
    member_id: u64,
    member_name: String,
    remaining: Vec<u64>,
) -> (out: (State, Step))
    ensures
        (out.0@, out.1@) == mutate(notice, intent@, member_id, member_name@, remaining@),
{
    let mut remaining = remaining;
    if remaining.len() > 0 {
        let role_id: u64 = remaining.remove(0);
        (
            State::Deleting { intent, member_id, member_name, remaining },
            Step { notice, request: Request::DeleteRole { role_id } },
        )
    } else {
        match intent {
            Intent::Reset => finished(notice),
            Intent::SetColor { raw, color } => {
                let name = make_color_role_name(member_name.as_str(), raw.as_str());
                (
                    State::Creating { member_id },
                    Step { notice, request: Request::CreateRole { name, color, position: 0 } },
                )
            },
        }
    }
}

/// Starts the work on what a member asked.
pub fn start(intent: Intent) -> (out: (State, Step))
    ensures
        (out.0@, out.1@) == spec_start(intent@),
{
    match intent {
        Intent::Reset => (
            State::AwaitingRoles { intent: Intent::Reset },
            Step { notice: None, request: Request::FetchRoles },
        ),
        Intent::SetColor { raw, color } => {
            let notice = if color == 0 {
                Some(Notice::BlackReplaced)
            } else {
                None
            };
            (
                State::AwaitingRoles {
                    intent: Intent::SetColor { raw, color: displayable_color(color) },
                },
                Step { notice, request: Request::FetchRoles },
            )
        },
    }
}

/// Reads a message body and starts the work on it.
pub fn begin(content: &str) -> (out: (State, Step))
    ensures
        (out.0@, out.1@) == spec_begin(content@),
{
    match read_message(content) {
        Reading::Ignored => finished(None),
        Reading::Rejected(error) => finished(Some(rejection_notice(error))),
        Reading::Accepted(intent) => start(intent),
    }
}

/// Takes the answer to the request under way and says what to do next.
pub fn advance(state: State, response: Response) -> (out: (State, Step))
    ensures
        (out.0@, out.1@) == spec_advance(state@, response@),
{
    match state {
        State::AwaitingRoles { intent } => match response {
            Response::Roles(Ok(roster)) => (
                State::AwaitingMember { intent, roster },
                Step { notice: None, request: Request::FetchMember },
            ),
            Response::Roles(Err(_)) => finished(Some(Notice::RolesUnavailable)),
            _ => finished(None),
        },
        State::AwaitingMember { intent, roster } => match response {
            Response::Member(Ok(member)) => {
                let stale = find_stale_roles(&member, &roster);
                mutation(None, intent, member.id, member.name, stale)
            },
            Response::Member(Err(_)) => finished(Some(Notice::MemberUnavailable)),
            _ => finished(None),
        },
        State::Deleting { intent, member_id, member_name, remaining } => match response {
            Response::Deleted(result) => {
                let notice = match result {
                    Ok(_) => None,
                    Err(_) => Some(Notice::RemoveFailed),
                };
                mutation(notice, intent, member_id, member_name, remaining)
            },
            _ => finished(None),
        },
        State::Creating { member_id } => match response {
            Response::Created(Ok(role)) => (
                State::Assigning,
                Step { notice: None, request: Request::AssignRole { member_id, role_id: role.id } },
            ),
            Response::Created(Err(_)) => finished(Some(Notice::CreateFailed)),
            _ => finished(None),
        },
        State::Assigning => match response {
            Response::Assigned(result) => {
                let notice = match result {
                    Ok(_) => None,
                    Err(_) => Some(Notice::AssignFailed),
                };
                finished(notice)
            },
            _ => finished(None),
        },
        State::Finished => finished(None),
    }
}

} // verus!
