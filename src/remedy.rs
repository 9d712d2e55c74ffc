//! What removals do to the snapshot, and how their outcomes are counted.
use crate::model::{contains_id, Guild, GuildModel, VoiceState};
use crate::oracle::permissions_of;
use crate::policy::monitored;
use crate::search::{channel_search_by_id, scan, SearchError};
use vstd::prelude::*;

verus! {

/// The voice states of `s` whose users are not in `users`, in order.
pub open spec fn remaining(s: Seq<VoiceState>, users: Seq<u64>) -> Seq<VoiceState>
    decreases s.len(),
{
    if s.len() == 0 {
        seq![]
    } else {
        let rest = remaining(s.drop_last(), users);
        if users.contains(s.last().user) {
            rest
        } else {
            rest.push(s.last())
        }
    }
}

/// The guild after every user of `users` was disconnected.
pub open spec fn disconnected(g: GuildModel, users: Seq<u64>) -> GuildModel {
    GuildModel { voice_states: remaining(g.voice_states, users), ..g }
}

/// How many removals succeeded.
pub open spec fn successes(outcomes: Seq<bool>) -> nat
    decreases outcomes.len(),
{
    if outcomes.len() == 0 {
        0
    } else {
        successes(outcomes.drop_last()) + if outcomes.last() {
            1nat
        } else {
            0nat
        }
    }
}

impl Guild {
    /// Drops the voice states of the given users, as their removal does.
    pub fn disconnect(&mut self, users: &Vec<u64>)
        ensures
            final(self)@ == disconnected(old(self)@, users@),
    {
        let ghost s = self.voice_states@;
        let mut kept: Vec<VoiceState> = Vec::new();
        let mut i: usize = 0;
        assert(s.subrange(0, 0) =~= Seq::<VoiceState>::empty());
        while i < self.voice_states.len()
            invariant
                s == self.voice_states@,
                i <= s.len(),
                kept@ == remaining(s.subrange(0, i as int), users@),
            decreases s.len() - i,
        {
            let vs = self.voice_states[i];
            assert(s.subrange(0, i + 1).drop_last() =~= s.subrange(0, i as int));
            assert(s.subrange(0, i + 1).last() == vs);
            if !contains_id(users, vs.user) {
                kept.push(vs);
            }
            i += 1;
        }
        assert(s.subrange(0, i as int) =~= s);
        self.voice_states = kept;
    }
}

/// The number of successful removals among `outcomes`.
pub fn tally(outcomes: &Vec<bool>) -> (r: usize)
    ensures
        r == successes(outcomes@),
        r <= outcomes@.len(),
{
    let ghost s = outcomes@;
    let mut count: usize = 0;
    let mut i: usize = 0;
    assert(s.subrange(0, 0) =~= Seq::<bool>::empty());
    while i < outcomes.len()
        invariant
            s == outcomes@,
            i <= s.len(),
            count == successes(s.subrange(0, i as int)),
            count <= i,
        decreases s.len() - i,
    {
        assert(s.subrange(0, i + 1).drop_last() =~= s.subrange(0, i as int));
        if outcomes[i] {
            count += 1;
        }
        i += 1;
    }
    assert(s.subrange(0, i as int) =~= s);
    count
}

/// A scan reads the guild's members, roles, id and owner, not its voice states.
proof fn lemma_scan_frame(
    g: GuildModel,
    h: GuildModel,
    s: Seq<VoiceState>,
    c: crate::model::ChannelModel,
    filter: Option<u64>,
)
    requires
        h.id == g.id,
        h.owner == g.owner,
        h.roles == g.roles,
        h.members == g.members,
    ensures
        scan(h, s, c, filter) == scan(g, s, c, filter),
    decreases s.len(),
{
    if s.len() > 0 {
        lemma_scan_frame(g, h, s.drop_last(), c, filter);
        assert(permissions_of(h, s.last().user, c) == permissions_of(g, s.last().user, c));
    }
}

/// Scanning again what is left after removing every user that a scan found
/// finds no one.
proof fn lemma_scan_remaining(
    g: GuildModel,
    s: Seq<VoiceState>,
    c: crate::model::ChannelModel,
    filter: Option<u64>,
    users: Seq<u64>,
)
    requires
        scan(g, s, c, filter) is Some,
        forall|k: int|
            0 <= k < scan(g, s, c, filter).unwrap().len() ==> users.contains(
                #[trigger] scan(g, s, c, filter).unwrap()[k],
            ),
    ensures
        scan(g, remaining(s, users), c, filter) == Some(Seq::<u64>::empty()),
    decreases s.len(),
{
    if s.len() == 0 {
        assert(remaining(s, users) =~= Seq::<VoiceState>::empty());
    } else {
        let x = s.last();
        let prev = scan(g, s.drop_last(), c, filter).unwrap();
        let all = scan(g, s, c, filter).unwrap();
        assert forall|k: int| 0 <= k < prev.len() implies users.contains(#[trigger] prev[k]) by {
            assert(all[k] == prev[k]);
        }
        lemma_scan_remaining(g, s.drop_last(), c, filter, users);
        let rest = remaining(s.drop_last(), users);
        if !users.contains(x.user) {
            assert(remaining(s, users).drop_last() =~= rest);
            if all.len() > prev.len() {
                assert(all[all.len() - 1] == x.user);
            }
        }
    }
}

/// A channel sweep run again, after every removal of the first run
/// succeeded and with nothing else changed, finds no one to remove.
pub proof fn lemma_sweep_idempotent(g: GuildModel, bot: u64, channel: u64, filter: Option<u64>)
    ensures
        channel_search_by_id(g, bot, channel, filter) matches Ok(v) ==> channel_search_by_id(
            disconnected(g, v),
            bot,
            channel,
            filter,
        ) == Ok::<Seq<u64>, SearchError>(Seq::empty()),
{
    if let Ok(v) = channel_search_by_id(g, bot, channel, filter) {
        let h = disconnected(g, v);
        let i = crate::model::channel_index(g.channels, channel).unwrap();
        let c = g.channels[i];
        assert(monitored(h, bot, c) == monitored(g, bot, c));
        assert forall|k: int| 0 <= k < v.len() implies v.contains(#[trigger] v[k]) by {}
        lemma_scan_remaining(g, g.voice_states, c, filter, v);
        lemma_scan_frame(g, h, h.voice_states, c, filter);
    }
}

} // verus!
