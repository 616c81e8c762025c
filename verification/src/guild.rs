//! What a command leaves behind in a guild.
//!
//! The guild is modelled by what the work on a command sees of it: its
//! roles, and the member who wrote. A request that goes well changes the
//! model as it changes the guild, and the laws say in what state the
//! member's colour roles are when the work is finished.

use crate::color::displayable;
use crate::command::{read, reset_word, IntentView, ReadingView};
use crate::laws::deletions;
use crate::reconcile::{
    next_mutation, spec_advance, spec_begin, MutationError, RequestView, ResponseView, StateView,
};
use crate::roster::{
    color_role_name, is_stale, law_stale_roles_are_held_and_owned, lookup, ownership_prefix,
    stale_roles, MemberView, RoleView,
};
use vstd::prelude::*;

verus! {

/// The roles of a guild and one of its members.
pub struct GuildView {
    pub roster: Seq<RoleView>,
    pub member: MemberView,
}

/// The roles with another id than `role_id`.
pub open spec fn other_role(role_id: u64) -> spec_fn(RoleView) -> bool {
    |role: RoleView| role.id != role_id
}

/// The ids other than `role_id`.
pub open spec fn other_id(role_id: u64) -> spec_fn(u64) -> bool {
    |id: u64| id != role_id
}

/// The guild once the role `role_id` is deleted: no role has the id, and
/// the member does not hold it.
pub open spec fn without_role(guild: GuildView, role_id: u64) -> GuildView {
    GuildView {
        roster: guild.roster.filter(other_role(role_id)),
        member: MemberView {
            roles: guild.member.roles.filter(other_id(role_id)),
            ..guild.member
        },
    }
}

/// The guild once `role` is created.
pub open spec fn with_role(guild: GuildView, role: RoleView) -> GuildView {
    GuildView { roster: guild.roster.push(role), ..guild }
}

/// The guild once the member is given the role `role_id`.
pub open spec fn holding(guild: GuildView, role_id: u64) -> GuildView {
    GuildView {
        member: MemberView { roles: guild.member.roles.push(role_id), ..guild.member },
        ..guild
    }
}

/// What the answer `response` to `request` tells of the guild afterwards.
/// A request that failed, and one that only fetches, leave the guild as it
/// was.
pub open spec fn effect(
    guild: GuildView,
    request: RequestView,
    response: ResponseView,
) -> GuildView {
    match (request, response) {
        (RequestView::DeleteRole { role_id }, ResponseView::Deleted(Ok(_))) => without_role(
            guild,
            role_id,
        ),
        (RequestView::CreateRole { .. }, ResponseView::Created(Ok(role))) => with_role(guild, role),
        (RequestView::AssignRole { role_id, .. }, ResponseView::Assigned(Ok(_))) => holding(
            guild,
            role_id,
        ),
        _ => guild,
    }
}

/// The guild after the answers `responses` have come in, the first of them
/// to `request`, which is under way in `state`, and each of the others to
/// the request of the step before it.
pub open spec fn outcome(
    guild: GuildView,
    state: StateView,
    request: RequestView,
    responses: Seq<ResponseView>,
) -> GuildView
    decreases responses.len(),
{
    if responses.len() == 0 || request is Finish {
        guild
    } else {
        let (next, step) = spec_advance(state, responses.first());
        outcome(
            effect(guild, request, responses.first()),
            next,
            step.request,
            responses.drop_first(),
        )
    }
}

/// The guild after the work on a message body, as the answers `responses`
/// come in.
pub open spec fn after_command(
    guild: GuildView,
    content: Seq<char>,
    responses: Seq<ResponseView>,
) -> GuildView {
    let (state, step) = spec_begin(content);
    outcome(guild, state, step.request, responses)
}

/// `count` deletions that went well.
pub open spec fn all_deleted(count: nat) -> Seq<ResponseView> {
    deletions(Seq::new(count, |k: int| Ok::<(), MutationError>(())))
}

/// The answers of a guild that is as `guild` says and in which every
/// deletion goes well.
pub open spec fn fetched_and_deleted(guild: GuildView) -> Seq<ResponseView> {
    seq![ResponseView::Roles(Ok(guild.roster)), ResponseView::Member(Ok(guild.member))]
        + all_deleted(stale_roles(guild.member, guild.roster).len())
}

/// No role of the guild has the id, and the member does not hold it.
pub open spec fn is_fresh(guild: GuildView, role_id: u64) -> bool {
    &&& forall|i: int| 0 <= i < guild.roster.len() ==> (#[trigger] guild.roster[i]).id != role_id
    &&& !guild.member.roles.contains(role_id)
}

/// The guild once each of `pending` is deleted.
pub open spec fn purged(guild: GuildView, pending: Seq<u64>) -> GuildView
    decreases pending.len(),
{
    if pending.len() == 0 {
        guild
    } else {
        purged(without_role(guild, pending.first()), pending.drop_first())
    }
}

/// Every colour role that the member holds is among `pending`.
pub open spec fn covered(guild: GuildView, pending: Seq<u64>) -> bool {
    forall|id: u64|
        guild.member.roles.contains(id) && #[trigger] is_stale(guild.roster, guild.member.name, id)
            ==> pending.contains(id)
}

/// A role at the end of the roster is found for its id only if no role
/// before it has the id.
pub proof fn lemma_lookup_push(roster: Seq<RoleView>, role: RoleView, id: u64)
    ensures
        lookup(roster.push(role), id) == (match lookup(roster, id) {
            Some(found) => Some(found),
            None => if role.id == id {
                Some(role)
            } else {
                None
            },
        }),
    decreases roster.len(),
{
    let longer = roster.push(role);
    if roster.len() == 0 {
        assert(longer.drop_first() == roster);
    } else {
        assert(longer.drop_first() == roster.drop_first().push(role));
        lemma_lookup_push(roster.drop_first(), role, id);
    }
}

/// An id that no role has is not found.
pub proof fn lemma_lookup_absent(roster: Seq<RoleView>, id: u64)
    requires
        forall|i: int| 0 <= i < roster.len() ==> (#[trigger] roster[i]).id != id,
    ensures
        lookup(roster, id) is None,
    decreases roster.len(),
{
    if roster.len() > 0 {
        assert forall|i: int| 0 <= i < roster.drop_first().len() implies (
        #[trigger] roster.drop_first()[i]).id != id by {
            assert(roster.drop_first()[i] == roster[i + 1]);
        }
        lemma_lookup_absent(roster.drop_first(), id);
    }
}

/// Deleting one role changes nothing for the other ids.
pub proof fn lemma_lookup_without(roster: Seq<RoleView>, gone: u64, id: u64)
    requires
        id != gone,
    ensures
        lookup(roster.filter(other_role(gone)), id) == lookup(roster, id),
    decreases roster.len(),
{
    reveal(Seq::filter);
    if roster.len() > 0 {
        let earlier = roster.drop_last();
        assert(roster == earlier.push(roster.last()));
        lemma_lookup_without(earlier, gone, id);
        lemma_lookup_push(earlier, roster.last(), id);
        lemma_lookup_push(earlier.filter(other_role(gone)), roster.last(), id);
    }
}

/// The colour roles that the member holds cover themselves.
pub proof fn lemma_stale_roles_cover(guild: GuildView)
    ensures
        covered(guild, stale_roles(guild.member, guild.roster)),
{
    assert forall|id: u64|
        guild.member.roles.contains(id) && #[trigger] is_stale(
            guild.roster,
            guild.member.name,
            id,
        ) implies stale_roles(guild.member, guild.roster).contains(id) by {
        law_stale_roles_are_held_and_owned(guild.member, guild.roster, id);
    }
}

/// Deleting one of the roles that cover the member's colour roles leaves
/// the others to cover what is left.
pub proof fn lemma_covered_without(guild: GuildView, pending: Seq<u64>)
    requires
        covered(guild, pending),
        pending.len() > 0,
    ensures
        covered(without_role(guild, pending.first()), pending.drop_first()),
{
    let gone = pending.first();
    let after = without_role(guild, gone);
    assert forall|id: u64|
        after.member.roles.contains(id) && #[trigger] is_stale(
            after.roster,
            after.member.name,
            id,
        ) implies pending.drop_first().contains(id) by {
        let held = guild.member.roles;
        let i = choose|i: int| 0 <= i < after.member.roles.len() && after.member.roles[i] == id;
        held.lemma_filter_pred(other_id(gone), i);
        held.lemma_filter_contains_rev(other_id(gone), id);
        lemma_lookup_without(guild.roster, gone, id);
        assert(is_stale(guild.roster, guild.member.name, id));
        let j = choose|j: int| 0 <= j < pending.len() && pending[j] == id;
        assert(pending.drop_first()[j - 1] == id);
    }
}

/// Deleting roles makes no id less fresh, and leaves the member's name.
pub proof fn lemma_purged_keeps_fresh(guild: GuildView, pending: Seq<u64>, role_id: u64)
    requires
        is_fresh(guild, role_id),
    ensures
        is_fresh(purged(guild, pending), role_id),
        purged(guild, pending).member.name == guild.member.name,
        purged(guild, pending).member.id == guild.member.id,
    decreases pending.len(),
{
    if pending.len() > 0 {
        let gone = pending.first();
        let after = without_role(guild, gone);
        assert forall|i: int| 0 <= i < after.roster.len() implies (#[trigger] after.roster[i]).id
            != role_id by {
            let role = after.roster[i];
            guild.roster.lemma_filter_contains_rev(other_role(gone), role);
        }
        if after.member.roles.contains(role_id) {
            guild.member.roles.lemma_filter_contains_rev(other_id(gone), role_id);
        }
        lemma_purged_keeps_fresh(after, pending.drop_first(), role_id);
    }
}

/// Once every role that covers the member's colour roles is deleted, the
/// member holds no colour role.
pub proof fn lemma_purged_is_clean(guild: GuildView, pending: Seq<u64>)
    requires
        covered(guild, pending),
    ensures
        covered(purged(guild, pending), Seq::<u64>::empty()),
        stale_roles(purged(guild, pending).member, purged(guild, pending).roster).len() == 0,
    decreases pending.len(),
{
    if pending.len() > 0 {
        lemma_covered_without(guild, pending);
        lemma_purged_is_clean(without_role(guild, pending.first()), pending.drop_first());
    } else {
        let stale = stale_roles(guild.member, guild.roster);
        if stale.len() > 0 {
            law_stale_roles_are_held_and_owned(guild.member, guild.roster, stale[0]);
        }
    }
}

/// When the deletions of `pending` have all gone well, the guild is without
/// those roles, and the work goes on with what the member asked for.
pub proof fn lemma_outcome_of_deletions(
    guild: GuildView,
    intent: IntentView,
    member_id: u64,
    member_name: Seq<char>,
    pending: Seq<u64>,
    later: Seq<ResponseView>,
)
    ensures
        ({
            let (state, request) = next_mutation(intent, member_id, member_name, pending);
            let (end, last) = next_mutation(intent, member_id, member_name, Seq::empty());
            outcome(guild, state, request, all_deleted(pending.len()) + later) == outcome(
                purged(guild, pending),
                end,
                last,
                later,
            )
        }),
    decreases pending.len(),
{
    if pending.len() > 0 {
        let responses = all_deleted(pending.len()) + later;
        let rest = all_deleted(pending.drop_first().len()) + later;
        assert(responses.drop_first() == rest);
        lemma_outcome_of_deletions(
            without_role(guild, pending.first()),
            intent,
            member_id,
            member_name,
            pending.drop_first(),
            later,
        );
    }
}

/// The guild after the two fetches and the deletions, all of which went
/// well: the member holds no colour role, and what the member asked for
/// comes next.
pub proof fn lemma_outcome_of_cleanup(
    guild: GuildView,
    intent: IntentView,
    later: Seq<ResponseView>,
)
    ensures
        ({
            let stale = stale_roles(guild.member, guild.roster);
            let (end, last) = next_mutation(
                intent,
                guild.member.id,
                guild.member.name,
                Seq::empty(),
            );
            outcome(
                guild,
                StateView::AwaitingRoles { intent },
                RequestView::FetchRoles,
                fetched_and_deleted(guild) + later,
            ) == outcome(purged(guild, stale), end, last, later)
        }),
{
    let stale = stale_roles(guild.member, guild.roster);
    let roles = ResponseView::Roles(Ok(guild.roster));
    let fetched = ResponseView::Member(Ok(guild.member));
    let r2 = all_deleted(stale.len()) + later;
    let r1 = seq![fetched] + r2;
    let r0 = fetched_and_deleted(guild) + later;
    assert(r0.drop_first() == r1);
    assert(r1.drop_first() == r2);
    let (state, request) = next_mutation(intent, guild.member.id, guild.member.name, stale);
    assert(outcome(
        guild,
        StateView::AwaitingRoles { intent },
        RequestView::FetchRoles,
        r0,
    ) == outcome(
        guild,
        StateView::AwaitingMember { intent, roster: guild.roster },
        RequestView::FetchMember,
        r1,
    ));
    assert(outcome(
        guild,
        StateView::AwaitingMember { intent, roster: guild.roster },
        RequestView::FetchMember,
        r1,
    ) == outcome(guild, state, request, r2));
    lemma_outcome_of_deletions(guild, intent, guild.member.id, guild.member.name, stale, later);
}

/// Giving up the colour, when every request goes well, leaves the member
/// without a colour role, however many the member held before.
pub proof fn law_reset_leaves_no_color_role(guild: GuildView)
    ensures
        ({
            let after = after_command(guild, reset_word(), fetched_and_deleted(guild));
            stale_roles(after.member, after.roster).len() == 0
        }),
{
    let stale = stale_roles(guild.member, guild.roster);
    lemma_outcome_of_cleanup(guild, IntentView::Reset, Seq::empty());
    lemma_stale_roles_cover(guild);
    lemma_purged_is_clean(guild, stale);
}

/// Asking for a colour, when every request goes well, leaves the member
/// with exactly one colour role, the one that was created, however many
/// the member held before. The new role is named as was asked and has an
/// id that the guild did not know.
pub proof fn law_set_color_leaves_one_color_role(
    guild: GuildView,
    content: Seq<char>,
    raw: Seq<char>,
    color: u32,
    created: RoleView,
)
    requires
        read(content) == (ReadingView::Accepted(IntentView::SetColor { raw, color })),
        created.name == color_role_name(guild.member.name, raw),
        is_fresh(guild, created.id),
    ensures
        ({
            let after = after_command(
                guild,
                content,
                fetched_and_deleted(guild) + seq![
                    ResponseView::Created(Ok(created)),
                    ResponseView::Assigned(Ok(())),
                ],
            );
            &&& stale_roles(after.member, after.roster) == seq![created.id]
            &&& lookup(after.roster, created.id) == Some(created)
        }),
{
    let stale = stale_roles(guild.member, guild.roster);
    let intent = IntentView::SetColor { raw, color: displayable(color) };
    let made = ResponseView::Created(Ok(created));
    let given = ResponseView::Assigned(Ok(()));
    let later = seq![made, given];
    lemma_outcome_of_cleanup(guild, intent, later);
    lemma_stale_roles_cover(guild);
    lemma_purged_is_clean(guild, stale);
    lemma_purged_keeps_fresh(guild, stale, created.id);
    let clean = purged(guild, stale);
    let name = guild.member.name;
    let (end, last) = next_mutation(intent, guild.member.id, name, Seq::empty());
    // The creation and the assignment.
    assert(later.drop_first() == seq![given]);
    assert(seq![given].drop_first() == Seq::<ResponseView>::empty());
    let built = with_role(clean, created);
    let after = holding(built, created.id);
    assert(outcome(clean, end, last, later) == outcome(
        built,
        StateView::Assigning,
        RequestView::AssignRole { member_id: guild.member.id, role_id: created.id },
        seq![given],
    ));
    assert(outcome(after, StateView::Finished, RequestView::Finish, Seq::empty()) == after);
    assert(outcome(
        built,
        StateView::Assigning,
        RequestView::AssignRole { member_id: guild.member.id, role_id: created.id },
        seq![given],
    ) == after);
    // The new role is the member's, and no other role that is held is.
    lemma_lookup_absent(clean.roster, created.id);
    lemma_lookup_push(clean.roster, created, created.id);
    assert(ownership_prefix(name).is_prefix_of(created.name)) by {
        assert(created.name.subrange(0, ownership_prefix(name).len() as int) == ownership_prefix(
            name,
        ));
    }
    let wanted = |id: u64| is_stale(after.roster, name, id);
    let before = clean.member.roles;
    assert(before.filter(wanted).len() == 0) by {
        let kept = before.filter(wanted);
        if kept.len() > 0 {
            let id = kept[0];
            before.lemma_filter_pred(wanted, 0);
            before.lemma_filter_contains_rev(wanted, id);
            lemma_lookup_push(clean.roster, created, id);
            assert(is_stale(clean.roster, clean.member.name, id));
        }
    }
    assert(after.member.roles.filter(wanted) == seq![created.id]) by {
        reveal(Seq::filter);
        assert(after.member.roles.drop_last() == before);
    }
}

} // verus!
