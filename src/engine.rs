//! The automatic path: what a non-skipped update re-checks.
use crate::command::prune_search;
use crate::gate::Scope;
use crate::model::{Guild, GuildModel};
use crate::policy::{auto_enforce, auto_enforce_enabled};
use crate::search::{
    channel_search_by_id, guild_search, lemma_searches_sound, member_search, removable,
    search_channel, search_guild, search_member, SearchError,
};
use vstd::prelude::*;

verus! {

/// The candidates of an automatic sweep of `scope`. Nothing is searched while
/// automatic enforcement is suspended; an unmonitored or non-voice channel
/// has no candidates; only an internal error is reported.
pub open spec fn auto_sweep(g: GuildModel, bot: u64, scope: Scope) -> Result<
    Seq<u64>,
    SearchError,
> {
    if !auto_enforce(g, bot) {
        Ok(seq![])
    } else {
        match scope {
            Scope::Channel(c) => match channel_search_by_id(g, bot, c, None) {
                Ok(found) => Ok(found),
                Err(SearchError::Internal) => Err(SearchError::Internal),
                Err(_) => Ok(seq![]),
            },
            Scope::Member(user) => member_search(g, bot, user),
            Scope::Guild => guild_search(g, bot, None),
        }
    }
}

/// The users to remove after an update of the given scope.
pub fn auto_candidates(g: &Guild, bot: u64, scope: Scope) -> (r: Result<Vec<u64>, SearchError>)
    requires
        g@.wf(),
    ensures
        r matches Ok(v) ==> auto_sweep(g@, bot, scope) == Ok::<Seq<u64>, SearchError>(v@),
        r matches Err(e) ==> auto_sweep(g@, bot, scope) == Err::<Seq<u64>, SearchError>(e),
{
    if !auto_enforce_enabled(g, bot) {
        return Ok(Vec::new());
    }
    match scope {
        Scope::Channel(c) => match search_channel(g, bot, c, None) {
            Ok(found) => Ok(found),
            Err(SearchError::Internal) => Err(SearchError::Internal),
            Err(_) => Ok(Vec::new()),
        },
        Scope::Member(user) => search_member(g, bot, user),
        Scope::Guild => search_guild(g, bot, None),
    }
}

/// A user is only ever a candidate for removal, on the automatic path as on
/// a manual prune, if it is connected to a monitored channel and lacks the
/// connect permission there.
pub proof fn lemma_only_failing_users_removed(
    g: GuildModel,
    bot: u64,
    scope: Scope,
    channel: Option<u64>,
    role: Option<u64>,
)
    ensures
        auto_sweep(g, bot, scope) matches Ok(v) ==> forall|j: int|
            0 <= j < v.len() ==> removable(g, bot, #[trigger] v[j]),
        prune_search(g, bot, channel, role) matches Ok(v) ==> forall|j: int|
            0 <= j < v.len() ==> removable(g, bot, #[trigger] v[j]),
{
    match scope {
        Scope::Channel(c) => lemma_searches_sound(g, bot, c, 0, None),
        Scope::Member(user) => lemma_searches_sound(g, bot, 0, user, None),
        Scope::Guild => lemma_searches_sound(g, bot, 0, 0, None),
    }
    match channel {
        Some(c) => lemma_searches_sound(g, bot, c, 0, role),
        None => lemma_searches_sound(g, bot, 0, 0, role),
    }
}

} // verus!
