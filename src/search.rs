//! Finding the connected users who fail the connect check.
use crate::model::{
    channel_index, channel_wf, contains_id, lemma_channel_index, lemma_member_index,
    lemma_voice_index, member_index, voice_index, Channel, ChannelModel, Guild, GuildModel,
    VoiceState, GUILD_STAGE_VOICE, GUILD_VOICE,
};
use crate::oracle::{grants, permissions_in, permissions_of, CONNECT};
use crate::policy::{is_monitored, monitored, voice_capable};
use vstd::prelude::*;

verus! {

/// Why a search could not run.
#[derive(Clone, Copy, Debug, PartialEq, Eq, Structural)]
pub enum SearchError {
    /// The bot cannot move members in the channel.
    Unmonitored,
    /// The channel is not a voice or stage channel.
    NotAVoiceChannel,
    /// The user is not connected to a voice channel.
    NotInVoice,
    /// The snapshot lacks a channel, member or role that the search needs.
    Internal,
}

/// Whether `user` passes the role filter. No filter, or the `@everyone`
/// role (whose id is the guild's), lets every user pass.
pub open spec fn passes_filter(g: GuildModel, user: u64, filter: Option<u64>) -> bool {
    match filter {
        None => true,
        Some(role) => role == g.id || (member_index(g.members, user) matches Some(m)
            && g.members[m].roles.contains(role)),
    }
}

/// The users of `states` who are connected to `c`, pass the filter and lack
/// the connect permission there, in order; `None` when one of their
/// permissions cannot be computed.
pub open spec fn scan(
    g: GuildModel,
    states: Seq<VoiceState>,
    c: ChannelModel,
    filter: Option<u64>,
) -> Option<Seq<u64>>
    decreases states.len(),
{
    if states.len() == 0 {
        Some(seq![])
    } else {
        let vs = states.last();
        match scan(g, states.drop_last(), c, filter) {
            None => None,
            Some(found) => if vs.channel == c.id && passes_filter(g, vs.user, filter) {
                match permissions_of(g, vs.user, c) {
                    None => None,
                    Some(p) => if grants(p, CONNECT) {
                        Some(found)
                    } else {
                        Some(found.push(vs.user))
                    },
                }
            } else {
                Some(found)
            },
        }
    }
}

/// The candidates of channel `c`, or why there are none.
pub open spec fn channel_search(
    g: GuildModel,
    bot: u64,
    c: ChannelModel,
    filter: Option<u64>,
) -> Result<Seq<u64>, SearchError> {
    if !voice_capable(c.kind) {
        Err(SearchError::NotAVoiceChannel)
    } else {
        match monitored(g, bot, c) {
            None => Err(SearchError::Internal),
            Some(false) => Err(SearchError::Unmonitored),
            Some(true) => match scan(g, g.voice_states, c, filter) {
                Some(found) => Ok(found),
                None => Err(SearchError::Internal),
            },
        }
    }
}

/// The candidates of the channel with id `channel`.
pub open spec fn channel_search_by_id(
    g: GuildModel,
    bot: u64,
    channel: u64,
    filter: Option<u64>,
) -> Result<Seq<u64>, SearchError> {
    match channel_index(g.channels, channel) {
        Some(i) => channel_search(g, bot, g.channels[i], filter),
        None => Err(SearchError::Internal),
    }
}

/// The candidates of the channels `cs` in order, skipping the ones that are
/// unmonitored or not voice channels.
pub open spec fn guild_scan(
    g: GuildModel,
    bot: u64,
    cs: Seq<ChannelModel>,
    filter: Option<u64>,
) -> Result<Seq<u64>, SearchError>
    decreases cs.len(),
{
    if cs.len() == 0 {
        Ok(seq![])
    } else {
        match guild_scan(g, bot, cs.drop_last(), filter) {
            Err(e) => Err(e),
            Ok(found) => match channel_search(g, bot, cs.last(), filter) {
                Ok(more) => Ok(found + more),
                Err(SearchError::Internal) => Err(SearchError::Internal),
                Err(_) => Ok(found),
            },
        }
    }
}

/// The candidates of every monitored channel of the guild.
pub open spec fn guild_search(g: GuildModel, bot: u64, filter: Option<u64>) -> Result<
    Seq<u64>,
    SearchError,
> {
    guild_scan(g, bot, g.channels, filter)
}

/// The member `user` if connected to a monitored channel where it lacks the
/// connect permission; otherwise no one.
pub open spec fn member_search(g: GuildModel, bot: u64, user: u64) -> Result<
    Seq<u64>,
    SearchError,
> {
    match voice_index(g.voice_states, user) {
        None => Ok(seq![]),
        Some(v) => match channel_index(g.channels, g.voice_states[v].channel) {
            None => Err(SearchError::Internal),
            Some(i) => match monitored(g, bot, g.channels[i]) {
                None => Err(SearchError::Internal),
                Some(false) => Ok(seq![]),
                Some(true) => match permissions_of(g, user, g.channels[i]) {
                    None => Err(SearchError::Internal),
                    Some(p) => if grants(p, CONNECT) {
                        Ok(seq![])
                    } else {
                        Ok(seq![user])
                    },
                },
            },
        },
    }
}

/// Once a prefix of the states fails to scan, every longer prefix does.
proof fn lemma_scan_none(
    g: GuildModel,
    s: Seq<VoiceState>,
    i: int,
    c: ChannelModel,
    filter: Option<u64>,
)
    requires
        0 <= i <= s.len(),
        scan(g, s.subrange(0, i), c, filter) is None,
    ensures
        scan(g, s, c, filter) is None,
    decreases s.len(),
{
    if i == s.len() {
        assert(s.subrange(0, i) =~= s);
    } else {
        assert(s.drop_last().subrange(0, i) =~= s.subrange(0, i));
        lemma_scan_none(g, s.drop_last(), i, c, filter);
    }
}

/// Once a prefix of the channels fails with an internal error, the whole does.
proof fn lemma_guild_scan_err(
    g: GuildModel,
    bot: u64,
    cs: Seq<ChannelModel>,
    i: int,
    filter: Option<u64>,
)
    requires
        0 <= i <= cs.len(),
        guild_scan(g, bot, cs.subrange(0, i), filter) == Err::<Seq<u64>, SearchError>(
            SearchError::Internal,
        ),
    ensures
        guild_scan(g, bot, cs, filter) == Err::<Seq<u64>, SearchError>(SearchError::Internal),
    decreases cs.len(),
{
    if i == cs.len() {
        assert(cs.subrange(0, i) =~= cs);
    } else {
        assert(cs.drop_last().subrange(0, i) =~= cs.subrange(0, i));
        lemma_guild_scan_err(g, bot, cs.drop_last(), i, filter);
    }
}

/// Whether `user` passes the role filter.
fn in_filter(g: &Guild, user: u64, filter: Option<u64>) -> (r: bool)
    ensures
        r == passes_filter(g@, user, filter),
{
    match filter {
        None => true,
        Some(role) => {
            if role == g.id {
                return true;
            }
            match g.find_member(user) {
                Some(m) => {
                    proof {
                        lemma_member_index(g@.members, user);
                        assert(g@.members[m as int] == g.members@[m as int]@);
                    }
                    contains_id(&g.members[m].roles, role)
                },
                None => false,
            }
        },
    }
}

/// The users connected to `c` who pass the filter and lack the connect
/// permission there.
fn scan_states(g: &Guild, c: &Channel, filter: Option<u64>) -> (r: Option<Vec<u64>>)
    requires
        g@.wf(),
        channel_wf(c@),
    ensures
        r matches Some(v) ==> scan(g@, g@.voice_states, c@, filter) == Some(v@),
        r is None ==> scan(g@, g@.voice_states, c@, filter) is None,
{
    let ghost s = g@.voice_states;
    let mut found: Vec<u64> = Vec::new();
    let mut i: usize = 0;
    assert(s.subrange(0, 0) =~= Seq::<VoiceState>::empty());
    while i < g.voice_states.len()
        invariant
            g@.wf(),
            channel_wf(c@),
            s == g@.voice_states,
            i <= s.len(),
            scan(g@, s.subrange(0, i as int), c@, filter) == Some(found@),
        decreases s.len() - i,
    {
        let vs = g.voice_states[i];
        assert(s.subrange(0, i + 1).drop_last() =~= s.subrange(0, i as int));
        assert(s.subrange(0, i + 1).last() == vs);
        if vs.channel == c.id && in_filter(g, vs.user, filter) {
            match permissions_in(g, vs.user, c) {
                Some(p) => {
                    if p & CONNECT == 0 {
                        found.push(vs.user);
                    }
                },
                None => {
                    proof {
                        lemma_scan_none(g@, s, i + 1, c@, filter);
                    }
                    return None;
                },
            }
        }
        i += 1;
    }
    assert(s.subrange(0, i as int) =~= s);
    Some(found)
}

/// The candidates of channel `c`, or why there are none.
pub fn search_in(g: &Guild, bot: u64, c: &Channel, filter: Option<u64>) -> (r: Result<
    Vec<u64>,
    SearchError,
>)
    requires
        g@.wf(),
        channel_wf(c@),
    ensures
        r matches Ok(v) ==> channel_search(g@, bot, c@, filter) == Ok::<Seq<u64>, SearchError>(v@),
        r matches Err(e) ==> channel_search(g@, bot, c@, filter) == Err::<Seq<u64>, SearchError>(e),
{
    if c.kind != GUILD_VOICE && c.kind != GUILD_STAGE_VOICE {
        return Err(SearchError::NotAVoiceChannel);
    }
    match is_monitored(g, bot, c) {
        None => Err(SearchError::Internal),
        Some(false) => Err(SearchError::Unmonitored),
        Some(true) => match scan_states(g, c, filter) {
            Some(found) => Ok(found),
            None => Err(SearchError::Internal),
        },
    }
}

/// The candidates of the channel with id `channel`, restricted to holders of
/// `filter` if given.
pub fn search_channel(g: &Guild, bot: u64, channel: u64, filter: Option<u64>) -> (r: Result<
    Vec<u64>,
    SearchError,
>)
    requires
        g@.wf(),
    ensures
        r matches Ok(v) ==> channel_search_by_id(g@, bot, channel, filter) == Ok::<
            Seq<u64>,
            SearchError,
        >(v@),
        r matches Err(e) ==> channel_search_by_id(g@, bot, channel, filter) == Err::<
            Seq<u64>,
            SearchError,
        >(e),
{
    match g.find_channel(channel) {
        Some(i) => {
            proof {
                lemma_channel_index(g@.channels, channel);
                assert(g@.channels[i as int] == g.channels@[i as int]@);
            }
            search_in(g, bot, &g.channels[i], filter)
        },
        None => Err(SearchError::Internal),
    }
}

/// The candidates of every monitored channel of the guild, restricted to
/// holders of `filter` if given. Unmonitored and non-voice channels are
/// skipped, not reported.
pub fn search_guild(g: &Guild, bot: u64, filter: Option<u64>) -> (r: Result<Vec<u64>, SearchError>)
    requires
        g@.wf(),
    ensures
        r matches Ok(v) ==> guild_search(g@, bot, filter) == Ok::<Seq<u64>, SearchError>(v@),
        r matches Err(e) ==> guild_search(g@, bot, filter) == Err::<Seq<u64>, SearchError>(e),
{
    let ghost cs = g@.channels;
    let mut found: Vec<u64> = Vec::new();
    let mut i: usize = 0;
    assert(cs.subrange(0, 0) =~= Seq::<ChannelModel>::empty());
    while i < g.channels.len()
        invariant
            g@.wf(),
            cs == g@.channels,
            i <= cs.len(),
            guild_scan(g@, bot, cs.subrange(0, i as int), filter) == Ok::<Seq<u64>, SearchError>(
                found@,
            ),
        decreases cs.len() - i,
    {
        assert(cs.subrange(0, i + 1).drop_last() =~= cs.subrange(0, i as int));
        assert(cs.subrange(0, i + 1).last() == cs[i as int]);
        assert(cs[i as int] == g.channels@[i as int]@);
        assert(channel_wf(cs[i as int]));
        match search_in(g, bot, &g.channels[i], filter) {
            Ok(mut more) => {
                found.append(&mut more);
            },
            Err(SearchError::Internal) => {
                proof {
                    lemma_guild_scan_err(g@, bot, cs, i + 1, filter);
                }
                return Err(SearchError::Internal);
            },
            Err(_) => {},
        }
        i += 1;
    }
    assert(cs.subrange(0, i as int) =~= cs);
    Ok(found)
}

/// The member `user` if it is connected to a monitored channel and lacks the
/// connect permission there; otherwise no one.
pub fn search_member(g: &Guild, bot: u64, user: u64) -> (r: Result<Vec<u64>, SearchError>)
    requires
        g@.wf(),
    ensures
        r matches Ok(v) ==> member_search(g@, bot, user) == Ok::<Seq<u64>, SearchError>(v@),
        r matches Err(e) ==> member_search(g@, bot, user) == Err::<Seq<u64>, SearchError>(e),
{
    let v = match g.find_voice_state(user) {
        Some(v) => v,
        None => return Ok(Vec::new()),
    };
    proof {
        lemma_voice_index(g@.voice_states, user);
    }
    let i = match g.find_channel(g.voice_states[v].channel) {
        Some(i) => i,
        None => return Err(SearchError::Internal),
    };
    proof {
        lemma_channel_index(g@.channels, g@.voice_states[v as int].channel);
        assert(g@.channels[i as int] == g.channels@[i as int]@);
        assert(channel_wf(g@.channels[i as int]));
    }
    let c = &g.channels[i];
    match is_monitored(g, bot, c) {
        None => Err(SearchError::Internal),
        Some(false) => Ok(Vec::new()),
        Some(true) => match permissions_in(g, user, c) {
            None => Err(SearchError::Internal),
            Some(p) => {
                if p & CONNECT != 0 {
                    Ok(Vec::new())
                } else {
                    let mut one: Vec<u64> = Vec::new();
                    one.push(user);
                    assert(one@ =~= seq![user]);
                    Ok(one)
                }
            },
        },
    }
}

/// `user` is connected to channel `c`, per `states`, and lacks the connect
/// permission there.
pub open spec fn fails_in(g: GuildModel, states: Seq<VoiceState>, user: u64, c: ChannelModel) -> bool {
    &&& states.contains(VoiceState { user, channel: c.id })
    &&& match permissions_of(g, user, c) {
        Some(p) => !grants(p, CONNECT),
        None => false,
    }
}

/// `user` is connected to a monitored channel of the guild and lacks the
/// connect permission there: the only users that may be removed.
pub open spec fn removable(g: GuildModel, bot: u64, user: u64) -> bool {
    exists|i: int|
        0 <= i < g.channels.len() && monitored(g, bot, g.channels[i]) == Some(true)
            && #[trigger] fails_in(g, g.voice_states, user, g.channels[i])
}

/// Every user that a scan finds is connected to the channel and lacks the
/// connect permission there.
proof fn lemma_scan_sound(g: GuildModel, s: Seq<VoiceState>, c: ChannelModel, filter: Option<u64>)
    requires
        scan(g, s, c, filter) is Some,
    ensures
        forall|j: int|
            0 <= j < scan(g, s, c, filter).unwrap().len() ==> fails_in(
                g,
                s,
                #[trigger] scan(g, s, c, filter).unwrap()[j],
                c,
            ),
    decreases s.len(),
{
    if s.len() > 0 {
        let prev = s.drop_last();
        lemma_scan_sound(g, prev, c, filter);
        let r = scan(g, s, c, filter).unwrap();
        let r0 = scan(g, prev, c, filter).unwrap();
        assert forall|j: int| 0 <= j < r.len() implies fails_in(g, s, #[trigger] r[j], c) by {
            if j < r0.len() {
                assert(r[j] == r0[j]);
                assert(fails_in(g, prev, r0[j], c));
                let k = choose|k: int| 0 <= k < prev.len() && prev[k] == VoiceState { user: r0[j], channel: c.id };
                assert(s[k] == prev[k]);
            } else {
                assert(s[s.len() - 1] == VoiceState { user: r[j], channel: c.id });
            }
        }
    }
}

/// Every candidate of a channel search is removable.
proof fn lemma_channel_search_sound(g: GuildModel, bot: u64, i: int, filter: Option<u64>)
    requires
        0 <= i < g.channels.len(),
    ensures
        channel_search(g, bot, g.channels[i], filter) matches Ok(v) ==> forall|j: int|
            0 <= j < v.len() ==> removable(g, bot, #[trigger] v[j]),
{
    if let Ok(v) = channel_search(g, bot, g.channels[i], filter) {
        lemma_scan_sound(g, g.voice_states, g.channels[i], filter);
        assert forall|j: int| 0 <= j < v.len() implies removable(g, bot, #[trigger] v[j]) by {
            assert(fails_in(g, g.voice_states, v[j], g.channels[i]));
        }
    }
}

/// Every candidate of a search over the first `n` channels is removable.
proof fn lemma_guild_scan_sound(g: GuildModel, bot: u64, n: int, filter: Option<u64>)
    requires
        0 <= n <= g.channels.len(),
    ensures
        guild_scan(g, bot, g.channels.subrange(0, n), filter) matches Ok(v) ==> forall|j: int|
            0 <= j < v.len() ==> removable(g, bot, #[trigger] v[j]),
    decreases n,
{
    if n > 0 {
        let cs = g.channels.subrange(0, n);
        assert(cs.drop_last() =~= g.channels.subrange(0, n - 1));
        assert(cs.last() == g.channels[n - 1]);
        lemma_guild_scan_sound(g, bot, n - 1, filter);
        lemma_channel_search_sound(g, bot, n - 1, filter);
        if let Ok(v) = guild_scan(g, bot, cs, filter) {
            let found = guild_scan(g, bot, g.channels.subrange(0, n - 1), filter).unwrap();
            assert forall|j: int| 0 <= j < v.len() implies removable(g, bot, #[trigger] v[j]) by {
                if j < found.len() {
                    assert(v[j] == found[j]);
                } else {
                    let more = channel_search(g, bot, g.channels[n - 1], filter).unwrap();
                    assert(v[j] == more[j - found.len()]);
                }
            }
        }
    }
}

/// Only removable users are candidates of a channel, guild or member search.
pub proof fn lemma_searches_sound(g: GuildModel, bot: u64, channel: u64, user: u64, filter: Option<u64>)
    ensures
        channel_search_by_id(g, bot, channel, filter) matches Ok(v) ==> forall|j: int|
            0 <= j < v.len() ==> removable(g, bot, #[trigger] v[j]),
        guild_search(g, bot, filter) matches Ok(v) ==> forall|j: int|
            0 <= j < v.len() ==> removable(g, bot, #[trigger] v[j]),
        member_search(g, bot, user) matches Ok(v) ==> forall|j: int|
            0 <= j < v.len() ==> removable(g, bot, #[trigger] v[j]),
{
    lemma_channel_index(g.channels, channel);
    if let Some(i) = channel_index(g.channels, channel) {
        lemma_channel_search_sound(g, bot, i, filter);
    }
    assert(g.channels.subrange(0, g.channels.len() as int) =~= g.channels);
    lemma_guild_scan_sound(g, bot, g.channels.len() as int, filter);
    lemma_voice_index(g.voice_states, user);
    if let Some(v) = voice_index(g.voice_states, user) {
        let vs = g.voice_states[v];
        lemma_channel_index(g.channels, vs.channel);
        if let Some(i) = channel_index(g.channels, vs.channel) {
            if let Ok(found) = member_search(g, bot, user) {
                if found.len() > 0 {
                    assert(vs == VoiceState { user, channel: g.channels[i].id });
                    assert(fails_in(g, g.voice_states, user, g.channels[i]));
                    assert(found[0] == user);
                }
            }
        }
    }
}

} // verus!
