//! Which channels are enforced, and whether a guild enforces automatically.
use crate::model::{
    channel_wf, lemma_member_index, lemma_role_index, member_index, role_index, Channel,
    ChannelModel, Guild, GuildModel, GUILD_STAGE_VOICE, GUILD_VOICE,
};
use crate::oracle::{grants, permissions_in, permissions_of, MOVE_MEMBERS};
use vstd::prelude::*;
use vstd::string::StringExecFns;

verus! {

/// Name of the role that, held by the bot, suspends automatic enforcement.
pub const OPT_OUT_ROLE: &'static str = "no-auto-prune";

/// Voice and stage channels are the only ones enforced.
pub open spec fn voice_capable(kind: u8) -> bool {
    kind == GUILD_VOICE || kind == GUILD_STAGE_VOICE
}

/// Whether channel `c` is monitored by `bot`: it is voice-capable and the bot
/// may move members there. `None` when the bot's permissions in a
/// voice-capable channel cannot be computed from the snapshot.
pub open spec fn monitored(g: GuildModel, bot: u64, c: ChannelModel) -> Option<bool> {
    if !voice_capable(c.kind) {
        Some(false)
    } else {
        match permissions_of(g, bot, c) {
            Some(p) => Some(grants(p, MOVE_MEMBERS)),
            None => None,
        }
    }
}

/// Whether channel `c` is monitored by `bot`.
pub fn is_monitored(g: &Guild, bot: u64, c: &Channel) -> (r: Option<bool>)
    requires
        g@.wf(),
        channel_wf(c@),
    ensures
        r == monitored(g@, bot, c@),
        r == Some(true) <==> (voice_capable(c@.kind) && (permissions_of(g@, bot, c@) matches Some(
            p,
        ) && grants(p, MOVE_MEMBERS))),
{
    if c.kind != GUILD_VOICE && c.kind != GUILD_STAGE_VOICE {
        return Some(false);
    }
    match permissions_in(g, bot, c) {
        Some(p) => Some(p & MOVE_MEMBERS != 0),
        None => None,
    }
}

/// Whether role `id` is a role of the guild named as the opt-out role.
pub open spec fn is_opt_out(g: GuildModel, id: u64) -> bool {
    match role_index(g.roles, id) {
        Some(j) => g.roles[j].name == OPT_OUT_ROLE@,
        None => false,
    }
}

/// Whether one of the role ids in `roles` names the opt-out role.
pub open spec fn holds_opt_out(g: GuildModel, roles: Seq<u64>) -> bool {
    exists|k: int| 0 <= k < roles.len() && #[trigger] is_opt_out(g, roles[k])
}

/// Automatic enforcement runs in the guild only while the bot's own member
/// record is known and holds no opt-out role.
pub open spec fn auto_enforce(g: GuildModel, bot: u64) -> bool {
    match member_index(g.members, bot) {
        Some(m) => !holds_opt_out(g, g.members[m].roles),
        None => false,
    }
}

/// Whether automatic enforcement is enabled for the guild.
pub fn auto_enforce_enabled(g: &Guild, bot: u64) -> (r: bool)
    ensures
        r == auto_enforce(g@, bot),
        member_index(g@.members, bot) is None ==> !r,
{
    let m = match g.find_member(bot) {
        Some(m) => m,
        None => return false,
    };
    proof {
        lemma_member_index(g@.members, bot);
        assert(g@.members[m as int] == g.members@[m as int]@);
    }
    let member = &g.members[m];
    let sentinel = String::from_str(OPT_OUT_ROLE);
    proof {
        reveal_strlit("no-auto-prune");
    }
    let mut i: usize = 0;
    while i < member.roles.len()
        invariant
            m < g.members.len(),
            member@ == g@.members[m as int],
            member_index(g@.members, bot) == Some(m as int),
            sentinel@ == OPT_OUT_ROLE@,
            i <= member.roles.len(),
            forall|k: int| 0 <= k < i ==> !#[trigger] is_opt_out(g@, member.roles@[k]),
        decreases member.roles.len() - i,
    {
        let id = member.roles[i];
        if let Some(j) = g.find_role(id) {
            proof {
                lemma_role_index(g@.roles, id);
                assert(g@.roles[j as int] == g.roles@[j as int]@);
            }
            if g.roles[j].name == sentinel {
                assert(holds_opt_out(g@, member.roles@)) by {
                    assert(is_opt_out(g@, member.roles@[i as int]));
                }
                return false;
            }
        }
        i += 1;
    }
    true
}

} // verus!
