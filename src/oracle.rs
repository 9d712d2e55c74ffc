//! Effective permissions of a user in a channel.
use crate::model::{
    channel_wf, lemma_member_index, lemma_role_index, member_index, role_index, ChannelModel,
    Channel, Guild, GuildModel, Overwrite, RoleModel,
};
use twilight_model::channel::permission_overwrite::{PermissionOverwrite, PermissionOverwriteType};
use twilight_model::channel::ChannelType;
use twilight_model::guild::Permissions;
use twilight_model::id::Id;
use twilight_util::permission_calculator::PermissionCalculator;
use vstd::prelude::*;

verus! {

/// Permission bit that lets a user connect to, and stay in, a voice channel.
pub const CONNECT: u64 = 1048576;

/// Permission bit that lets the bot disconnect members from voice channels.
pub const MOVE_MEMBERS: u64 = 16777216;

/// Whether a permission set grants the given bit.
pub open spec fn grants(permissions: u64, flag: u64) -> bool {
    permissions & flag != 0
}

/// The effective permissions that twilight's calculator gives a guild member
/// in a channel, from the guild and user ids, the guild owner, the `@everyone`
/// role's permissions, the member's roles with their permissions, the
/// channel's type code and its overwrites.
pub uninterp spec fn channel_permissions(
    guild: u64,
    user: u64,
    owner: u64,
    everyone: u64,
    roles: Seq<(u64, u64)>,
    kind: u8,
    overwrites: Seq<Overwrite>,
) -> u64;

/// Relies on `twilight_util::permission_calculator::PermissionCalculator`
/// (`new`, `owner_id`, `in_channel`): the permissions in a channel depend on
/// these arguments alone. `Id::new` panics on zero, hence the non-zero ids.
#[verifier::external_body]
fn calculate(
    guild: u64,
    user: u64,
    owner: u64,
    everyone: u64,
    roles: &Vec<(u64, u64)>,
    kind: u8,
    overwrites: &Vec<Overwrite>,
) -> (r: u64)
    requires
        guild != 0,
        user != 0,
        owner != 0,
        forall|k: int| 0 <= k < roles@.len() ==> #[trigger] roles@[k].0 != 0,
        forall|k: int| 0 <= k < overwrites@.len() ==> #[trigger] overwrites@[k].id != 0,
    ensures
        r == channel_permissions(guild, user, owner, everyone, roles@, kind, overwrites@),
{
    let roles: Vec<_> = roles.iter().map(|&(id, p)| (Id::new(id), Permissions::from_bits_truncate(p))).collect();
    let overwrites: Vec<_> = overwrites.iter().map(|o| PermissionOverwrite {
        allow: Permissions::from_bits_truncate(o.allow),
        deny: Permissions::from_bits_truncate(o.deny),
        id: Id::new(o.id),
        kind: PermissionOverwriteType::from(o.kind),
    }).collect();
    let everyone = Permissions::from_bits_truncate(everyone);
    let calculator = PermissionCalculator::new(Id::new(guild), Id::new(user), everyone, &roles);
    calculator.owner_id(Id::new(owner)).in_channel(ChannelType::from(kind), &overwrites).bits()
}

/// Every role id in `ids` names a role of the guild.
pub open spec fn roles_resolved(roles: Seq<RoleModel>, ids: Seq<u64>) -> bool {
    forall|k: int| 0 <= k < ids.len() ==> (#[trigger] role_index(roles, ids[k])) is Some
}

/// The roles in `ids` paired with their permissions.
pub open spec fn role_pairs(roles: Seq<RoleModel>, ids: Seq<u64>) -> Seq<(u64, u64)> {
    Seq::new(ids.len(), |k: int| (ids[k], roles[role_index(roles, ids[k]).unwrap()].permissions))
}

/// The permissions of `user` in channel `c`: none when the user's member
/// record, one of its roles, or the `@everyone` role is missing.
pub open spec fn permissions_of(g: GuildModel, user: u64, c: ChannelModel) -> Option<u64> {
    match (member_index(g.members, user), role_index(g.roles, g.id)) {
        (Some(m), Some(e)) => if roles_resolved(g.roles, g.members[m].roles) {
            Some(
                channel_permissions(
                    g.id,
                    user,
                    g.owner,
                    g.roles[e].permissions,
                    role_pairs(g.roles, g.members[m].roles),
                    c.kind,
                    c.overwrites,
                ),
            )
        } else {
            None
        },
        _ => None,
    }
}

/// The permissions of `user` in channel `c` of guild `g`.
pub fn permissions_in(g: &Guild, user: u64, c: &Channel) -> (r: Option<u64>)
    requires
        g@.wf(),
        channel_wf(c@),
    ensures
        r == permissions_of(g@, user, c@),
{
    let m = match g.find_member(user) {
        Some(m) => m,
        None => return None,
    };
    let e = match g.find_role(g.id) {
        Some(e) => e,
        None => return None,
    };
    proof {
        lemma_member_index(g@.members, user);
        lemma_role_index(g@.roles, g.id);
        assert(g@.members[m as int] == g.members@[m as int]@);
        assert(g@.roles[e as int] == g.roles@[e as int]@);
    }
    let member = &g.members[m];
    let ghost ids = member.roles@;
    let mut pairs: Vec<(u64, u64)> = Vec::new();
    let mut i: usize = 0;
    while i < member.roles.len()
        invariant
            g@.wf(),
            m < g.members.len(),
            e < g.roles.len(),
            member_index(g@.members, user) == Some(m as int),
            role_index(g@.roles, g@.id) == Some(e as int),
            member@ == g@.members[m as int],
            ids == member.roles@,
            i <= ids.len(),
            pairs@.len() == i,
            forall|k: int| 0 <= k < i ==> (#[trigger] role_index(g@.roles, ids[k])) is Some,
            forall|k: int| 0 <= k < i ==> #[trigger] pairs@[k] == role_pairs(g@.roles, ids)[k],
            forall|k: int| 0 <= k < i ==> #[trigger] pairs@[k].0 != 0,
        decreases ids.len() - i,
    {
        let id = member.roles[i];
        match g.find_role(id) {
            Some(j) => {
                proof {
                    lemma_role_index(g@.roles, id);
                    assert(g@.roles[j as int] == g.roles@[j as int]@);
                    assert(crate::model::member_wf(g@.members[m as int]));
                    assert(ids[i as int] != 0);
                }
                pairs.push((id, g.roles[j].permissions));
            },
            None => {
                assert(role_index(g@.roles, ids[i as int]) is None);
                assert(g@.members[m as int].roles == ids);
                assert(!roles_resolved(g@.roles, ids));

                return None;
            },
        }
        i += 1;
    }
    proof {
        assert(pairs@ =~= role_pairs(g@.roles, ids));
        lemma_member_index(g@.members, user);
        assert(crate::model::member_wf(g@.members[m as int]));
    }
    Some(calculate(g.id, user, g.owner, g.roles[e].permissions, &pairs, c.kind, &c.overwrites))
}

} // verus!
