//! Deciding whether an update can change an outcome, and how wide the re-check is.
use crate::model::{Overwrite, GUILD_STAGE_VOICE, GUILD_VOICE};
use crate::policy::voice_capable;
use vstd::prelude::*;

verus! {

/// An update, together with the value that the cache held before it.
#[derive(Clone, Debug)]
pub enum Notification {
    /// A channel's overwrites were updated; `cached` is the list held before,
    /// if the channel was cached.
    ChannelOverwrites { channel: u64, kind: u8, overwrites: Vec<Overwrite>, cached: Option<Vec<Overwrite>> },
    /// A member's role set was updated.
    MemberRoles { user: u64 },
    /// A role's permission bits were updated; `cached` is the value held before.
    RolePermissions { role: u64, permissions: u64, cached: Option<u64> },
    /// A role was deleted.
    RoleDeleted { role: u64 },
    /// Any other update: not this engine's concern.
    Other,
}

/// How wide one re-check is.
#[derive(Clone, Copy, Debug, PartialEq, Eq, Structural)]
pub enum Scope {
    /// The users connected to one channel.
    Channel(u64),
    /// One member, wherever connected.
    Member(u64),
    /// Every monitored channel of the guild.
    Guild,
}

/// Whether the update cannot change any enforcement outcome.
pub open spec fn skips(n: Notification) -> bool {
    match n {
        Notification::ChannelOverwrites { kind, overwrites, cached, .. } => !voice_capable(kind) || (
        cached matches Some(c) && c@ == overwrites@),
        Notification::MemberRoles { .. } => false,
        Notification::RolePermissions { permissions, cached, .. } => cached == Some(permissions),
        Notification::RoleDeleted { .. } => false,
        Notification::Other => true,
    }
}

/// The scope of an update that is not skipped.
pub open spec fn scope_of(n: Notification) -> Option<Scope> {
    if skips(n) {
        None
    } else {
        match n {
            Notification::ChannelOverwrites { channel, .. } => Some(Scope::Channel(channel)),
            Notification::MemberRoles { user } => Some(Scope::Member(user)),
            Notification::RolePermissions { .. } => Some(Scope::Guild),
            Notification::RoleDeleted { .. } => Some(Scope::Guild),
            Notification::Other => None,
        }
    }
}

/// Whether two overwrite lists are identical.
pub fn same_overwrites(a: &Vec<Overwrite>, b: &Vec<Overwrite>) -> (r: bool)
    ensures
        r == (a@ == b@),
{
    if a.len() != b.len() {
        return false;
    }
    let mut i: usize = 0;
    while i < a.len()
        invariant
            a.len() == b.len(),
            i <= a.len(),
            forall|k: int| 0 <= k < i ==> a@[k] == b@[k],
        decreases a.len() - i,
    {
        if a[i] != b[i] {
            return false;
        }
        i += 1;
    }
    assert(a@ =~= b@);
    true
}

/// Whether the update can be ignored. Reads the value cached before the
/// update, so it must run before the cache applies it.
pub fn should_skip(n: &Notification) -> (r: bool)
    ensures
        r == skips(*n),
{
    match n {
        Notification::ChannelOverwrites { kind, overwrites, cached, .. } => {
            if *kind != GUILD_VOICE && *kind != GUILD_STAGE_VOICE {
                return true;
            }
            match cached {
                Some(c) => same_overwrites(c, overwrites),
                None => false,
            }
        },
        Notification::MemberRoles { .. } => false,
        Notification::RolePermissions { permissions, cached, .. } => match cached {
            Some(c) => *c == *permissions,
            None => false,
        },
        Notification::RoleDeleted { .. } => false,
        Notification::Other => true,
    }
}

/// The scope to re-check after the update, or none if it is skipped.
pub fn resolve_scope(n: &Notification) -> (r: Option<Scope>)
    ensures
        r == scope_of(*n),
{
    if should_skip(n) {
        return None;
    }
    match n {
        Notification::ChannelOverwrites { channel, .. } => Some(Scope::Channel(*channel)),
        Notification::MemberRoles { user } => Some(Scope::Member(*user)),
        Notification::RolePermissions { .. } => Some(Scope::Guild),
        Notification::RoleDeleted { .. } => Some(Scope::Guild),
        Notification::Other => None,
    }
}

/// An overwrite update identical to the cached overwrite list never yields a
/// scope, and a role deletion always yields the whole guild.
pub proof fn lemma_change_gate(n: Notification)
    ensures
        (n matches Notification::ChannelOverwrites { overwrites, cached: Some(c), .. } && c@
            == overwrites@) ==> scope_of(n) is None,
        n is RoleDeleted ==> scope_of(n) == Some(Scope::Guild),
{
}

} // verus!
