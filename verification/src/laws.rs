//! What holds of the work on a command as a whole.
//!
//! The steps of `begin` and `advance` are strung together here into the
//! course of a whole command, and the laws say what that course is.

use crate::color::{
    displayable, hex_value, is_color_text, lemma_color_text_in_range, MAX_COLOR,
};
use crate::command::{
    classify, read, reset_word, set_word, strip_hash, CommandView, IntentView, ReadingView,
};
use crate::notice::Notice;
use crate::reconcile::{
    mutate, on_failure, spec_advance, spec_begin, DirectoryError, MutationError, RequestView,
    ResponseView, StateView, StepView,
};
use crate::roster::{
    color_role_name, is_stale, law_stale_roles_are_held_and_owned, stale_roles, MemberView,
    RoleView,
};
use vstd::prelude::*;

verus! {

/// The steps that follow from `state` as the answers `responses` come in,
/// one step for each answer, up to the step that finishes. Answers that come
/// after that are not looked at.
pub open spec fn run(state: StateView, responses: Seq<ResponseView>) -> Seq<StepView>
    decreases responses.len(),
{
    if responses.len() == 0 || state is Finished {
        Seq::empty()
    } else {
        let (next, step) = spec_advance(state, responses.first());
        seq![step] + run(next, responses.drop_first())
    }
}

/// The steps of the work on a message body: the step of `begin`, then those
/// that follow as the answers `responses` come in.
pub open spec fn session(content: Seq<char>, responses: Seq<ResponseView>) -> Seq<StepView> {
    let (state, step) = spec_begin(content);
    seq![step] + run(state, responses)
}

/// A step without a notice.
pub open spec fn quiet(request: RequestView) -> StepView {
    StepView { notice: None, request }
}

/// The answers to deletions that came out as `outcomes`.
pub open spec fn deletions(outcomes: Seq<Result<(), MutationError>>) -> Seq<ResponseView> {
    outcomes.map_values(|outcome: Result<(), MutationError>| ResponseView::Deleted(outcome))
}

/// What is asked once every colour role of the member has been dealt with:
/// the new role for a member who asked for a colour, nothing more for one
/// who gave the colour up.
pub open spec fn after_deletions(intent: IntentView, member_name: Seq<char>) -> RequestView {
    match intent {
        IntentView::Reset => RequestView::Finish,
        IntentView::SetColor { raw, color } => RequestView::CreateRole {
            name: color_role_name(member_name, raw),
            color,
            position: 0,
        },
    }
}

/// One answer brings one step, unless the work is finished.
pub proof fn lemma_run_unfolds(state: StateView, response: ResponseView, later: Seq<ResponseView>)
    ensures
        run(state, seq![response] + later) == (if state is Finished {
            Seq::<StepView>::empty()
        } else {
            seq![spec_advance(state, response).1] + run(spec_advance(state, response).0, later)
        }),
{
    assert((seq![response] + later).drop_first() == later);
}

/// Once the work is finished, no answer brings a further step.
pub proof fn law_finished_stays_finished(responses: Seq<ResponseView>)
    ensures
        run(StateView::Finished, responses) == Seq::<StepView>::empty(),
{
}

/// A message that begins with the command word asks for the colour written
/// after it.
pub proof fn lemma_set_command(rest: Seq<char>)
    ensures
        classify(set_word() + rest) == CommandView::SetColor(strip_hash(rest)),
{
    reveal_strlit(".color-set ");
    reveal_strlit(".color-reset");
    assert(reset_word()[7] == 'r');
    assert((set_word() + rest).skip(set_word().len() as int) == rest);
}

/// A leading `#` changes nothing: one to six hexadecimal digits after the
/// command word, with or without it, ask for the colour that the digits
/// denote in base 16, which is a 24-bit colour.
pub proof fn law_hash_is_optional(digits: Seq<char>)
    requires
        is_color_text(digits),
    ensures
        hex_value(digits) <= MAX_COLOR,
        read(set_word() + digits) == ReadingView::Accepted(
            IntentView::SetColor { raw: digits, color: hex_value(digits) as u32 },
        ),
        read(set_word() + seq!['#'] + digits) == read(set_word() + digits),
{
    lemma_color_text_in_range(digits);
    lemma_set_command(digits);
    lemma_set_command(seq!['#'] + digits);
    assert((seq!['#'] + digits).drop_first() == digits);
    assert(set_word() + seq!['#'] + digits == set_word() + (seq!['#'] + digits));
}

/// A message is taken for a request for a colour only if one to six
/// hexadecimal digits are written after the command word and the `#`, and
/// the colour is then what the digits denote in base 16.
pub proof fn law_accepted_colors_are_written_in_hex(
    content: Seq<char>,
    raw: Seq<char>,
    color: u32,
)
    requires
        read(content) == (ReadingView::Accepted(IntentView::SetColor { raw, color })),
    ensures
        classify(content) == CommandView::SetColor(raw),
        is_color_text(raw),
        color == hex_value(raw),
        color <= MAX_COLOR,
{
    lemma_color_text_in_range(raw);
}

/// A message that is no command is finished at once: nothing is asked of
/// the guild and the member is told nothing.
pub proof fn law_other_messages_are_ignored(content: Seq<char>, responses: Seq<ResponseView>)
    requires
        classify(content) == CommandView::Ignore,
    ensures
        session(content, responses) == seq![quiet(RequestView::Finish)],
{
}

/// A request for a colour with nothing written, after the `#` is taken off,
/// is finished at once: the member is told once that the colour is empty,
/// and nothing is asked of the guild.
pub proof fn law_empty_color_is_rejected(content: Seq<char>, responses: Seq<ResponseView>)
    requires
        classify(content) == CommandView::SetColor(Seq::empty()),
    ensures
        session(content, responses) == seq![
            (StepView { notice: Some(Notice::EmptyColor), request: RequestView::Finish }),
        ],
{
}

/// A request for a colour written as anything but one to six hexadecimal
/// digits is finished at once: the member is told once that the number is
/// invalid, and nothing is asked of the guild.
pub proof fn law_invalid_hex_is_rejected(
    content: Seq<char>,
    raw: Seq<char>,
    responses: Seq<ResponseView>,
)
    requires
        classify(content) == CommandView::SetColor(raw),
        raw.len() > 0,
        !is_color_text(raw),
    ensures
        session(content, responses) == seq![
            (StepView { notice: Some(Notice::InvalidHex), request: RequestView::Finish }),
        ],
{
}

/// Black is replaced by the darkest blue, and the member is told so with the
/// first step: before anything is asked of the guild.
pub proof fn law_black_is_replaced(content: Seq<char>, raw: Seq<char>)
    requires
        read(content) == (ReadingView::Accepted(IntentView::SetColor { raw, color: 0 })),
    ensures
        spec_begin(content) == (
            StateView::AwaitingRoles { intent: IntentView::SetColor { raw, color: 1 } },
            StepView { notice: Some(Notice::BlackReplaced), request: RequestView::FetchRoles },
        ),
{
}

/// What is said of the reading of the message is said with the first step
/// and never again: no later step tells of an empty or invalid colour, or
/// of black replaced.
pub proof fn law_reading_is_told_once(state: StateView, responses: Seq<ResponseView>, i: int)
    requires
        0 <= i < run(state, responses).len(),
    ensures
        run(state, responses)[i].notice != Some(Notice::BlackReplaced),
        run(state, responses)[i].notice != Some(Notice::EmptyColor),
        run(state, responses)[i].notice != Some(Notice::InvalidHex),
    decreases responses.len(),
{
    if i > 0 {
        let (next, step) = spec_advance(state, responses.first());
        law_reading_is_told_once(next, responses.drop_first(), i - 1);
    }
}

/// If the roles of the guild cannot be had, the member is told so and the
/// work ends with nothing deleted or created.
pub proof fn law_missing_roles_end_the_work(
    intent: IntentView,
    error: DirectoryError,
    later: Seq<ResponseView>,
)
    ensures
        run(StateView::AwaitingRoles { intent }, seq![ResponseView::Roles(Err(error))] + later)
            == seq![
            (StepView { notice: Some(Notice::RolesUnavailable), request: RequestView::Finish }),
        ],
{
    lemma_run_unfolds(StateView::AwaitingRoles { intent }, ResponseView::Roles(Err(error)), later);
}

/// If the member cannot be had, the member is told so in the channel and
/// the work ends with nothing deleted or created.
pub proof fn law_missing_member_ends_the_work(
    intent: IntentView,
    roster: Seq<RoleView>,
    error: DirectoryError,
    later: Seq<ResponseView>,
)
    ensures
        run(
            StateView::AwaitingMember { intent, roster },
            seq![ResponseView::Member(Err(error))] + later,
        ) == seq![
            (StepView { notice: Some(Notice::MemberUnavailable), request: RequestView::Finish }),
        ],
{
    lemma_run_unfolds(
        StateView::AwaitingMember { intent, roster },
        ResponseView::Member(Err(error)),
        later,
    );
}

/// Giving up the colour while holding no colour role: the roles and the
/// member are fetched, nothing is deleted or created, and the member is told
/// nothing.
pub proof fn law_reset_without_color_roles(
    roster: Seq<RoleView>,
    member: MemberView,
    later: Seq<ResponseView>,
)
    requires
        stale_roles(member, roster).len() == 0,
    ensures
        session(
            reset_word(),
            seq![ResponseView::Roles(Ok(roster)), ResponseView::Member(Ok(member))] + later,
        ) == seq![
            quiet(RequestView::FetchRoles),
            quiet(RequestView::FetchMember),
            quiet(RequestView::Finish),
        ],
{
    let roles = ResponseView::Roles(Ok(roster));
    let fetched = ResponseView::Member(Ok(member));
    let intent = IntentView::Reset;
    assert(seq![roles, fetched] + later == seq![roles] + (seq![fetched] + later));
    lemma_run_unfolds(StateView::AwaitingRoles { intent }, roles, seq![fetched] + later);
    lemma_run_unfolds(StateView::AwaitingMember { intent, roster }, fetched, later);
}

/// Giving up the colour while holding exactly one colour role: that role is
/// deleted and none is created. If the deletion fails the member is told so.
pub proof fn law_reset_deletes_the_color_role(
    roster: Seq<RoleView>,
    member: MemberView,
    role_id: u64,
    deleted: Result<(), MutationError>,
    later: Seq<ResponseView>,
)
    requires
        stale_roles(member, roster) == seq![role_id],
    ensures
        session(
            reset_word(),
            seq![
                ResponseView::Roles(Ok(roster)),
                ResponseView::Member(Ok(member)),
                ResponseView::Deleted(deleted),
            ] + later,
        ) == seq![
            quiet(RequestView::FetchRoles),
            quiet(RequestView::FetchMember),
            quiet(RequestView::DeleteRole { role_id }),
            (StepView {
                notice: on_failure(deleted, Notice::RemoveFailed),
                request: RequestView::Finish,
            }),
        ],
{
    let roles = ResponseView::Roles(Ok(roster));
    let fetched = ResponseView::Member(Ok(member));
    let gone = ResponseView::Deleted(deleted);
    let intent = IntentView::Reset;
    assert(seq![roles, fetched, gone] + later == seq![roles] + (seq![fetched] + (seq![gone]
        + later)));
    lemma_run_unfolds(
        StateView::AwaitingRoles { intent },
        roles,
        seq![fetched] + (seq![gone] + later),
    );
    lemma_run_unfolds(StateView::AwaitingMember { intent, roster }, fetched, seq![gone] + later);
    lemma_run_unfolds(
        StateView::Deleting {
            intent,
            member_id: member.id,
            member_name: member.name,
            remaining: Seq::empty(),
        },
        gone,
        later,
    );
}

/// Asking for a colour while holding one colour role: the old role is
/// deleted, then one role is created, named after the member and the colour
/// as it was written, with the colour that was read (the darkest blue for
/// black, of which the member is told once, before anything is asked), and
/// then that role is given to the member. A deletion that fails is reported
/// and does not stop the creation.
pub proof fn law_set_color_replaces_the_color_role(
    content: Seq<char>,
    raw: Seq<char>,
    color: u32,
    roster: Seq<RoleView>,
    member: MemberView,
    old_role: u64,
    deleted: Result<(), MutationError>,
    created: RoleView,
    assigned: Result<(), MutationError>,
    later: Seq<ResponseView>,
)
    requires
        read(content) == (ReadingView::Accepted(IntentView::SetColor { raw, color })),
        stale_roles(member, roster) == seq![old_role],
    ensures
        session(
            content,
            seq![
                ResponseView::Roles(Ok(roster)),
                ResponseView::Member(Ok(member)),
                ResponseView::Deleted(deleted),
                ResponseView::Created(Ok(created)),
                ResponseView::Assigned(assigned),
            ] + later,
        ) == seq![
            (StepView {
                notice: if color == 0 {
                    Some(Notice::BlackReplaced)
                } else {
                    None
                },
                request: RequestView::FetchRoles,
            }),
            quiet(RequestView::FetchMember),
            quiet(RequestView::DeleteRole { role_id: old_role }),
            (StepView {
                notice: on_failure(deleted, Notice::RemoveFailed),
                request: RequestView::CreateRole {
                    name: color_role_name(member.name, raw),
                    color: displayable(color),
                    position: 0,
                },
            }),
            quiet(RequestView::AssignRole { member_id: member.id, role_id: created.id }),
            (StepView {
                notice: on_failure(assigned, Notice::AssignFailed),
                request: RequestView::Finish,
            }),
        ],
{
    let roles = ResponseView::Roles(Ok(roster));
    let fetched = ResponseView::Member(Ok(member));
    let gone = ResponseView::Deleted(deleted);
    let made = ResponseView::Created(Ok(created));
    let given = ResponseView::Assigned(assigned);
    let intent = IntentView::SetColor { raw, color: displayable(color) };
    let r4 = seq![given] + later;
    let r3 = seq![made] + r4;
    let r2 = seq![gone] + r3;
    let r1 = seq![fetched] + r2;
    assert(seq![roles, fetched, gone, made, given] + later == seq![roles] + r1);
    lemma_run_unfolds(StateView::AwaitingRoles { intent }, roles, r1);
    lemma_run_unfolds(StateView::AwaitingMember { intent, roster }, fetched, r2);
    lemma_run_unfolds(
        StateView::Deleting {
            intent,
            member_id: member.id,
            member_name: member.name,
            remaining: Seq::empty(),
        },
        gone,
        r3,
    );
    lemma_run_unfolds(StateView::Creating { member_id: member.id }, made, r4);
    lemma_run_unfolds(StateView::Assigning, given, later);
}

/// The steps from the one that asks for the first of the deletions `stale`
/// on: each of `stale` is asked to be deleted, in order and once; each
/// failure is reported with the step after it, and stops nothing; and what
/// the member asked for comes after the last.
pub proof fn lemma_deletions_run_to_the_end(
    notice: Option<Notice>,
    intent: IntentView,
    member_id: u64,
    member_name: Seq<char>,
    stale: Seq<u64>,
    outcomes: Seq<Result<(), MutationError>>,
    later: Seq<ResponseView>,
)
    requires
        outcomes.len() == stale.len(),
    ensures
        ({
            let (state, first) = mutate(notice, intent, member_id, member_name, stale);
            let steps = seq![first] + run(state, deletions(outcomes) + later);
            &&& steps.len() > stale.len()
            &&& steps[0].notice == notice
            &&& forall|k: int|
                0 <= k < stale.len() ==> (#[trigger] steps[k]).request == (RequestView::DeleteRole {
                    role_id: stale[k],
                })
            &&& forall|k: int|
                0 < k <= stale.len() ==> (#[trigger] steps[k]).notice == on_failure(
                    outcomes[k - 1],
                    Notice::RemoveFailed,
                )
            &&& steps[stale.len() as int].request == after_deletions(intent, member_name)
        }),
    decreases stale.len(),
{
    if stale.len() > 0 {
        let (state, first) = mutate(notice, intent, member_id, member_name, stale);
        let outcome = outcomes.first();
        let answers = deletions(outcomes.drop_first()) + later;
        assert(deletions(outcomes) + later == seq![ResponseView::Deleted(outcome)] + answers);
        lemma_run_unfolds(state, ResponseView::Deleted(outcome), answers);
        lemma_deletions_run_to_the_end(
            on_failure(outcome, Notice::RemoveFailed),
            intent,
            member_id,
            member_name,
            stale.drop_first(),
            outcomes.drop_first(),
            later,
        );
    }
}

/// Every colour role that the member holds is asked to be deleted, in the
/// order in which the member holds them and once each, whatever came of the
/// deletions before it; each failure is reported with the step after it;
/// and after the last the new role is asked for, or the work ends for a
/// member who gave the colour up. The steps are those from the answer to
/// `FetchMember` on.
pub proof fn law_all_color_roles_are_deleted(
    intent: IntentView,
    roster: Seq<RoleView>,
    member: MemberView,
    outcomes: Seq<Result<(), MutationError>>,
    later: Seq<ResponseView>,
)
    requires
        outcomes.len() == stale_roles(member, roster).len(),
    ensures
        ({
            let stale = stale_roles(member, roster);
            let steps = run(
                StateView::AwaitingMember { intent, roster },
                seq![ResponseView::Member(Ok(member))] + (deletions(outcomes) + later),
            );
            &&& steps.len() > stale.len()
            &&& steps[0].notice is None
            &&& forall|k: int|
                0 <= k < stale.len() ==> (#[trigger] steps[k]).request == (RequestView::DeleteRole {
                    role_id: stale[k],
                })
            &&& forall|k: int|
                0 < k <= stale.len() ==> (#[trigger] steps[k]).notice == on_failure(
                    outcomes[k - 1],
                    Notice::RemoveFailed,
                )
            &&& steps[stale.len() as int].request == after_deletions(intent, member.name)
        }),
{
    lemma_run_unfolds(
        StateView::AwaitingMember { intent, roster },
        ResponseView::Member(Ok(member)),
        deletions(outcomes) + later,
    );
    lemma_deletions_run_to_the_end(
        None,
        intent,
        member.id,
        member.name,
        stale_roles(member, roster),
        outcomes,
        later,
    );
}

/// Every role in `remaining` is among `allowed`, where `remaining` are the
/// roles that `state` will still ask to delete.
pub open spec fn deletes_within(state: StateView, allowed: Seq<u64>) -> bool {
    match state {
        StateView::AwaitingRoles { .. } => false,
        StateView::AwaitingMember { .. } => false,
        StateView::Deleting { remaining, .. } => forall|k: int|
            0 <= k < remaining.len() ==> allowed.contains(#[trigger] remaining[k]),
        StateView::Creating { .. } => true,
        StateView::Assigning => true,
        StateView::Finished => true,
    }
}

/// From a state that will still delete only roles among `allowed`, no step
/// asks to delete another.
pub proof fn lemma_deletions_stay_within(
    state: StateView,
    allowed: Seq<u64>,
    responses: Seq<ResponseView>,
    i: int,
)
    requires
        deletes_within(state, allowed),
        0 <= i < run(state, responses).len(),
    ensures
        (run(state, responses)[i].request matches RequestView::DeleteRole { role_id }
            ==> allowed.contains(role_id)),
    decreases responses.len(),
{
    let (next, step) = spec_advance(state, responses.first());
    assert(deletes_within(next, allowed)) by {
        if let StateView::Deleting { remaining, .. } = state {
            if let StateView::Deleting { remaining: fewer, .. } = next {
                assert forall|k: int| 0 <= k < fewer.len() implies allowed.contains(
                    #[trigger] fewer[k],
                ) by {
                    assert(fewer[k] == remaining[k + 1]);
                }
            }
        }
    }
    if i > 0 {
        lemma_deletions_stay_within(next, allowed, responses.drop_first(), i - 1);
    } else if let StateView::Deleting { remaining, .. } = state {
        if remaining.len() > 0 {
            assert(allowed.contains(remaining[0]));
        }
    }
}

/// Nothing but a colour role that the member holds is ever asked to be
/// deleted: whatever the answers that come after the member was fetched,
/// each role that a step asks to delete is held by the member and known to
/// the roster as a colour role of the member.
pub proof fn law_only_color_roles_are_deleted(
    intent: IntentView,
    roster: Seq<RoleView>,
    member: MemberView,
    later: Seq<ResponseView>,
    i: int,
)
    requires
        0 <= i < run(
            StateView::AwaitingMember { intent, roster },
            seq![ResponseView::Member(Ok(member))] + later,
        ).len(),
    ensures
        (run(
            StateView::AwaitingMember { intent, roster },
            seq![ResponseView::Member(Ok(member))] + later,
        )[i].request matches RequestView::DeleteRole { role_id } ==> member.roles.contains(role_id)
            && is_stale(roster, member.name, role_id)),
{
    let stale = stale_roles(member, roster);
    let fetched = ResponseView::Member(Ok(member));
    let (state, step) = spec_advance(StateView::AwaitingMember { intent, roster }, fetched);
    lemma_run_unfolds(StateView::AwaitingMember { intent, roster }, fetched, later);
    if let RequestView::DeleteRole { role_id } = run(
        StateView::AwaitingMember { intent, roster },
        seq![fetched] + later,
    )[i].request {
        law_stale_roles_are_held_and_owned(member, roster, role_id);
        if i > 0 {
            assert(deletes_within(state, stale)) by {
                if let StateView::Deleting { remaining, .. } = state {
                    assert forall|k: int| 0 <= k < remaining.len() implies stale.contains(
                        #[trigger] remaining[k],
                    ) by {
                        assert(remaining[k] == stale[k + 1]);
                    }
                }
            }
            lemma_deletions_stay_within(state, stale, later, i - 1);
        } else {
            assert(stale.contains(stale[0]));
        }
    }
}

/// If the new role cannot be created, the member is told so and the work
/// ends: no role is given to the member, whatever answers come after.
pub proof fn law_failed_creation_ends_the_work(
    member_id: u64,
    error: MutationError,
    later: Seq<ResponseView>,
)
    ensures
        run(StateView::Creating { member_id }, seq![ResponseView::Created(Err(error))] + later)
            == seq![
            (StepView { notice: Some(Notice::CreateFailed), request: RequestView::Finish }),
        ],
{
    lemma_run_unfolds(StateView::Creating { member_id }, ResponseView::Created(Err(error)), later);
}

/// A role is given to the member only in answer to a creation that went
/// well, and it is the role that was created: in no course of the work,
/// from any state and whatever the answers, is there another assignment.
pub proof fn law_assignment_follows_creation(
    state: StateView,
    responses: Seq<ResponseView>,
    i: int,
)
    requires
        0 <= i < run(state, responses).len(),
        run(state, responses)[i].request is AssignRole,
    ensures
        i < responses.len(),
        responses[i] matches ResponseView::Created(Ok(role)) && run(
            state,
            responses,
        )[i].request->AssignRole_role_id == role.id,
    decreases responses.len(),
{
    if i > 0 {
        let (next, step) = spec_advance(state, responses.first());
        law_assignment_follows_creation(next, responses.drop_first(), i - 1);
    }
}

/// A state from which no role is created any more.
pub open spec fn past_creation(state: StateView) -> bool {
    state is Creating || state is Assigning || state is Finished
}

/// Once the new role has been asked for, no step asks for another.
pub proof fn lemma_no_second_creation(state: StateView, responses: Seq<ResponseView>, i: int)
    requires
        past_creation(state),
        0 <= i < run(state, responses).len(),
    ensures
        !(run(state, responses)[i].request is CreateRole),
    decreases responses.len(),
{
    if i > 0 {
        let (next, step) = spec_advance(state, responses.first());
        lemma_no_second_creation(next, responses.drop_first(), i - 1);
    }
}

/// At most one role is created in the work on a command: after a step that
/// asks for the new role, whatever the answers, no step asks for another.
pub proof fn law_one_creation_at_most(
    state: StateView,
    responses: Seq<ResponseView>,
    i: int,
    j: int,
)
    requires
        0 <= i < j < run(state, responses).len(),
        run(state, responses)[i].request is CreateRole,
    ensures
        !(run(state, responses)[j].request is CreateRole),
    decreases responses.len(),
{
    let (next, step) = spec_advance(state, responses.first());
    if i > 0 {
        law_one_creation_at_most(next, responses.drop_first(), i - 1, j - 1);
    } else {
        lemma_no_second_creation(next, responses.drop_first(), j - 1);
    }
}

/// The colour that `state` will still ask for, if any, can be shown: it is
/// a 24-bit colour and not black.
pub open spec fn asks_for_shown_color(state: StateView) -> bool {
    let fits = |intent: IntentView|
        intent matches IntentView::SetColor { color, .. } ==> 1 <= color <= MAX_COLOR;
    match state {
        StateView::AwaitingRoles { intent } => fits(intent),
        StateView::AwaitingMember { intent, .. } => fits(intent),
        StateView::Deleting { intent, .. } => fits(intent),
        StateView::Creating { .. } => true,
        StateView::Assigning => true,
        StateView::Finished => true,
    }
}

/// From a state that will ask only for a colour that can be shown, no step
/// asks for another.
pub proof fn lemma_shown_color_is_kept(state: StateView, responses: Seq<ResponseView>, i: int)
    requires
        asks_for_shown_color(state),
        0 <= i < run(state, responses).len(),
    ensures
        (run(state, responses)[i].request matches RequestView::CreateRole { color, .. } ==> 1
            <= color <= MAX_COLOR),
    decreases responses.len(),
{
    if i > 0 {
        let (next, step) = spec_advance(state, responses.first());
        lemma_shown_color_is_kept(next, responses.drop_first(), i - 1);
    }
}

/// Whatever the message and the answers, a role that is asked to be created
/// has a colour that can be shown: a 24-bit colour that is not black.
pub proof fn law_created_color_can_be_shown(
    content: Seq<char>,
    responses: Seq<ResponseView>,
    i: int,
)
    requires
        0 <= i < session(content, responses).len(),
    ensures
        (session(content, responses)[i].request matches RequestView::CreateRole { color, .. } ==> 1
            <= color <= MAX_COLOR),
{
    let (state, step) = spec_begin(content);
    if let ReadingView::Accepted(IntentView::SetColor { raw, color }) = read(content) {
        law_accepted_colors_are_written_in_hex(content, raw, color);
    }
    if i > 0 {
        lemma_shown_color_is_kept(state, responses, i - 1);
    }
}

/// A state of the work on giving up the colour.
pub open spec fn resetting(state: StateView) -> bool {
    match state {
        StateView::AwaitingRoles { intent } => intent is Reset,
        StateView::AwaitingMember { intent, .. } => intent is Reset,
        StateView::Deleting { intent, .. } => intent is Reset,
        StateView::Creating { .. } => false,
        StateView::Assigning => false,
        StateView::Finished => true,
    }
}

/// From a state of the work on giving up the colour no step creates a role
/// or gives one to the member.
pub proof fn lemma_reset_stays_reset(state: StateView, responses: Seq<ResponseView>, i: int)
    requires
        resetting(state),
        0 <= i < run(state, responses).len(),
    ensures
        !(run(state, responses)[i].request is CreateRole),
        !(run(state, responses)[i].request is AssignRole),
    decreases responses.len(),
{
    if i > 0 {
        let (next, step) = spec_advance(state, responses.first());
        lemma_reset_stays_reset(next, responses.drop_first(), i - 1);
    }
}

/// Giving up the colour never creates a role nor gives one to the member:
/// from the moment the roles are fetched, whatever the answers.
pub proof fn law_reset_never_creates(responses: Seq<ResponseView>, i: int)
    requires
        0 <= i < run(StateView::AwaitingRoles { intent: IntentView::Reset }, responses).len(),
    ensures
        ({
            let step = run(StateView::AwaitingRoles { intent: IntentView::Reset }, responses)[i];
            !(step.request is CreateRole) && !(step.request is AssignRole)
        }),
{
    lemma_reset_stays_reset(StateView::AwaitingRoles { intent: IntentView::Reset }, responses, i);
}

} // verus!
