//! Roles, members, and which roles of a guild are a member's colour roles.
//!
//! A colour role is known by its name alone: nothing else records to whom
//! it belongs. The name begins with `color_bot_`, the member's name and `_`.

use crate::text::starts_with;
use vstd::prelude::*;

verus! {

/// A role of the guild.
#[derive(Debug, PartialEq, Eq)]
pub struct Role {
    pub id: u64,
    pub name: String,
    /// Red, green and blue, eight bits each.
    pub color: u32,
    /// Where the role stands among the others; the default role stands lowest.
    pub position: i64,
}

/// A `Role` with its name as a sequence of characters.
pub struct RoleView {
    pub id: u64,
    pub name: Seq<char>,
    pub color: u32,
    pub position: i64,
}

impl View for Role {
    type V = RoleView;

    open spec fn view(&self) -> RoleView {
        RoleView { id: self.id, name: self.name@, color: self.color, position: self.position }
    }
}

/// A member of the guild, with the ids of the roles held.
#[derive(Debug, PartialEq, Eq)]
pub struct Member {
    pub id: u64,
    pub name: String,
    pub roles: Vec<u64>,
}

/// A `Member` with its name and roles as sequences.
pub struct MemberView {
    pub id: u64,
    pub name: Seq<char>,
    pub roles: Seq<u64>,
}

impl View for Member {
    type V = MemberView;

    open spec fn view(&self) -> MemberView {
        MemberView { id: self.id, name: self.name@, roles: self.roles@ }
    }
}

impl Clone for Role {
    fn clone(&self) -> (copy: Self)
        ensures
            copy@ == self@,
    {
        Role { id: self.id, name: self.name.clone(), color: self.color, position: self.position }
    }
}

impl Clone for Member {
    fn clone(&self) -> (copy: Self)
        ensures
            copy@ == self@,
    {
        Member { id: self.id, name: self.name.clone(), roles: self.roles.clone() }
    }
}

/// The roles of a guild, each by its view.
pub open spec fn roster_view(roles: Seq<Role>) -> Seq<RoleView> {
    roles.map_values(|role: Role| role@)
}

/// What the name of every colour role of the member named `member_name`
/// begins with.
pub open spec fn ownership_prefix(member_name: Seq<char>) -> Seq<char> {
    "color_bot_"@ + member_name + "_"@
}

/// The name of the colour role of the member named `member_name` for the
/// colour written as `raw`.
pub open spec fn color_role_name(member_name: Seq<char>, raw: Seq<char>) -> Seq<char> {
    ownership_prefix(member_name) + raw
}

/// A role of this name is a colour role of the member named `member_name`.
pub open spec fn is_owned_name(role_name: Seq<char>, member_name: Seq<char>) -> bool {
    ownership_prefix(member_name).is_prefix_of(role_name)
}

/// The first role of `roster` with the id `id`.
pub open spec fn lookup(roster: Seq<RoleView>, id: u64) -> Option<RoleView>
    decreases roster.len(),
{
    if roster.len() == 0 {
        None
    } else if roster.first().id == id {
        Some(roster.first())
    } else {
        lookup(roster.drop_first(), id)
    }
}

/// The id `id` stands in `roster` for a colour role of the member named
/// `member_name`.
pub open spec fn is_stale(roster: Seq<RoleView>, member_name: Seq<char>, id: u64) -> bool {
    match lookup(roster, id) {
        Some(role) => is_owned_name(role.name, member_name),
        None => false,
    }
}

/// The colour roles that `member` holds, in the order in which the member
/// holds them: the ids among the member's that `roster` knows as a colour
/// role of the member. An id held twice is listed twice.
pub open spec fn stale_roles(member: MemberView, roster: Seq<RoleView>) -> Seq<u64> {
    member.roles.filter(|id: u64| is_stale(roster, member.name, id))
}

/// The colour roles that a member holds are those ids among the member's
/// that the roster knows as a colour role of the member, and no others.
pub proof fn law_stale_roles_are_held_and_owned(member: MemberView, roster: Seq<RoleView>, id: u64)
    ensures
        stale_roles(member, roster).contains(id) <==> member.roles.contains(id) && is_stale(
            roster,
            member.name,
            id,
        ),
{
    let wanted = |id: u64| is_stale(roster, member.name, id);
    let stale = stale_roles(member, roster);
    if stale.contains(id) {
        let i = choose|i: int| 0 <= i < stale.len() && stale[i] == id;
        member.roles.lemma_filter_pred(wanted, i);
        member.roles.lemma_filter_contains_rev(wanted, id);
    }
    if member.roles.contains(id) && is_stale(roster, member.name, id) {
        let i = choose|i: int| 0 <= i < member.roles.len() && member.roles[i] == id;
        member.roles.lemma_filter_contains(wanted, i);
    }
}

/// Builds what the name of every colour role of the member begins with.
pub fn make_ownership_prefix(member_name: &str) -> (prefix: String)
    ensures
        prefix@ == ownership_prefix(member_name@),
{
    let mut prefix = String::from_str("color_bot_");
    prefix.append(member_name);
    prefix.append("_");
    prefix
}

/// Builds the name of the member's colour role for the colour written as
/// `raw`.
pub fn make_color_role_name(member_name: &str, raw: &str) -> (name: String)
    ensures
        name@ == color_role_name(member_name@, raw@),
{
    let mut name = make_ownership_prefix(member_name);
    name.append(raw);
    name
}

/// Finds the first role of `roster` with the id `id`.
pub fn find_role(roster: &Vec<Role>, id: u64) -> (found: Option<&Role>)
    ensures
        (match found {
            Some(role) => lookup(roster_view(roster@), id) == Some(role@),
            None => lookup(roster_view(roster@), id) is None,
        }),
{
    let ghost all = roster_view(roster@);
    let mut i: usize = 0;
    assert(all.skip(0) == all);
    while i < roster.len()
        invariant
            i <= roster.len(),
            all == roster_view(roster@),
            lookup(all, id) == lookup(all.skip(i as int), id),
        decreases roster.len() - i,
    {
        let ghost rest = all.skip(i as int);
        assert(rest.drop_first() == all.skip(i + 1));
        if roster[i].id == id {
            return Some(&roster[i]);
        }
        i = i + 1;
    }
    None
}

/// Lists the colour roles that `member` holds, in the order in which the
/// member holds them.
pub fn find_stale_roles(member: &Member, roster: &Vec<Role>) -> (stale: Vec<u64>)
    ensures
        stale@ == stale_roles(member@, roster_view(roster@)),
{
    let prefix = make_ownership_prefix(member.name.as_str());
    let ghost all = roster_view(roster@);
    let ghost wanted = |id: u64| is_stale(all, member.name@, id);
    let mut stale: Vec<u64> = Vec::new();
    let mut i: usize = 0;
    while i < member.roles.len()
        invariant
            i <= member.roles.len(),
            all == roster_view(roster@),
            prefix@ == ownership_prefix(member.name@),
            wanted == |id: u64| is_stale(all, member.name@, id),
            stale@ == member.roles@.take(i as int).filter(wanted),
        decreases member.roles.len() - i,
    {
        let id: u64 = member.roles[i];
        proof {
            reveal(Seq::filter);
            assert(member.roles@.take(i + 1).drop_last() == member.roles@.take(i as int));
        }
        let owned = match find_role(roster, id) {
            Some(role) => starts_with(role.name.as_str(), prefix.as_str()),
            None => false,
        };
        if owned {
            stale.push(id);
        }
        i = i + 1;
    }
    assert(member.roles@.take(i as int) == member.roles@);
    stale
}

} // verus!
