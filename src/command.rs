//! The manual prune: which users it removes and what it replies.
use crate::model::{channel_wf, ChannelModel, Guild, GuildModel, GUILD_STAGE_VOICE, GUILD_VOICE};
use crate::policy::{is_monitored, monitored, voice_capable};
use crate::response::{Emoji, Markdown};
use crate::search::{channel_search_by_id, guild_search, search_channel, search_guild, SearchError};
use vstd::prelude::*;
use vstd::string::StringExecFns;

verus! {

/// The candidates of a manual prune: of one channel if `channel` is given,
/// else of the whole guild, restricted to holders of `role` if given.
pub open spec fn prune_search(
    g: crate::model::GuildModel,
    bot: u64,
    channel: Option<u64>,
    role: Option<u64>,
) -> Result<Seq<u64>, SearchError> {
    match channel {
        Some(c) => channel_search_by_id(g, bot, c, role),
        None => guild_search(g, bot, role),
    }
}

/// The users that a manual prune removes. Unlike the automatic path it runs
/// whether or not automatic enforcement is suspended.
pub fn prune_candidates(g: &Guild, bot: u64, channel: Option<u64>, role: Option<u64>) -> (r: Result<
    Vec<u64>,
    SearchError,
>)
    requires
        g@.wf(),
    ensures
        r matches Ok(v) ==> prune_search(g@, bot, channel, role) == Ok::<Seq<u64>, SearchError>(
            v@,
        ),
        r matches Err(e) ==> prune_search(g@, bot, channel, role) == Err::<Seq<u64>, SearchError>(
            e,
        ),
{
    match channel {
        Some(c) => search_channel(g, bot, c, role),
        None => search_guild(g, bot, role),
    }
}

/// The character of a decimal digit.
pub open spec fn digit_char(d: nat) -> char {
    if d == 0 {
        '0'
    } else if d == 1 {
        '1'
    } else if d == 2 {
        '2'
    } else if d == 3 {
        '3'
    } else if d == 4 {
        '4'
    } else if d == 5 {
        '5'
    } else if d == 6 {
        '6'
    } else if d == 7 {
        '7'
    } else if d == 8 {
        '8'
    } else {
        '9'
    }
}

/// The decimal digits of `n`, without leading zeros.
pub open spec fn decimal(n: nat) -> Seq<char>
    decreases n,
{
    if n < 10 {
        seq![digit_char(n)]
    } else {
        decimal(n / 10).push(digit_char(n % 10))
    }
}

/// The decimal digit `d` as a string.
fn digit_str(d: u64) -> (r: &'static str)
    requires
        d < 10,
    ensures
        r@ == seq![digit_char(d as nat)],
{
    proof {
        reveal_strlit("0");
        reveal_strlit("1");
        reveal_strlit("2");
        reveal_strlit("3");
        reveal_strlit("4");
        reveal_strlit("5");
        reveal_strlit("6");
        reveal_strlit("7");
        reveal_strlit("8");
        reveal_strlit("9");
    }
    if d == 0 {
        "0"
    } else if d == 1 {
        "1"
    } else if d == 2 {
        "2"
    } else if d == 3 {
        "3"
    } else if d == 4 {
        "4"
    } else if d == 5 {
        "5"
    } else if d == 6 {
        "6"
    } else if d == 7 {
        "7"
    } else if d == 8 {
        "8"
    } else {
        "9"
    }
}

/// `n` written in decimal.
pub fn decimal_string(n: u64) -> (r: String)
    ensures
        r@ == decimal(n as nat),
    decreases n,
{
    if n < 10 {
        String::from_str(digit_str(n))
    } else {
        let mut s = decimal_string(n / 10);
        s.append(digit_str(n % 10));
        s
    }
}

/// The text shown to a user for a search error. Internal details are not shown.
pub open spec fn error_text(e: SearchError) -> Seq<char> {
    match e {
        SearchError::Unmonitored => Emoji::WARNING@ + " **Voice channel is not monitored**"@,
        SearchError::NotAVoiceChannel => Emoji::WARNING@ + " **Not a voice channel**"@,
        SearchError::NotInVoice => Emoji::WARNING@ + " **User is not in a voice channel**"@,
        SearchError::Internal => "**Internal error**"@,
    }
}

/// The reply to a manual prune: how many users were removed, or the error.
pub open spec fn reply_text(outcome: Result<usize, SearchError>) -> Seq<char> {
    match outcome {
        Ok(n) => decimal(n as nat) + " users pruned"@,
        Err(e) => error_text(e),
    }
}

/// The text shown to a user for a search error.
pub fn error_message(e: SearchError) -> (r: String)
    ensures
        r@ == error_text(e),
{
    let detail = match e {
        SearchError::Unmonitored => " **Voice channel is not monitored**",
        SearchError::NotAVoiceChannel => " **Not a voice channel**",
        SearchError::NotInVoice => " **User is not in a voice channel**",
        SearchError::Internal => return String::from_str("**Internal error**"),
    };
    let mut s = String::from_str(Emoji::WARNING);
    s.append(detail);
    s
}

/// The reply to a manual prune that removed `outcome` users or failed.
pub fn prune_reply(outcome: Result<usize, SearchError>) -> (r: String)
    ensures
        r@ == reply_text(outcome),
{
    match outcome {
        Ok(n) => {
            proof {
                reveal_strlit(" users pruned");
            }
            let mut s = decimal_string(n as u64);
            s.append(" users pruned");
            s
        },
        Err(e) => error_message(e),
    }
}

/// Which voice channels a listing shows.
#[derive(Clone, Copy, Debug, PartialEq, Eq, Structural)]
pub enum ListFilter {
    /// Every voice channel.
    All,
    /// Only the monitored ones.
    Monitored,
    /// Only the unmonitored ones.
    Unmonitored,
}

/// The ids of the voice channels among `cs` that the filter keeps, in order;
/// `None` when the filter needs the bot's permissions in a channel and they
/// cannot be computed.
pub open spec fn listed(
    g: GuildModel,
    bot: u64,
    cs: Seq<ChannelModel>,
    filter: ListFilter,
) -> Option<Seq<u64>>
    decreases cs.len(),
{
    if cs.len() == 0 {
        Some(seq![])
    } else {
        let c = cs.last();
        match listed(g, bot, cs.drop_last(), filter) {
            None => None,
            Some(ids) => if !voice_capable(c.kind) {
                Some(ids)
            } else {
                match filter {
                    ListFilter::All => Some(ids.push(c.id)),
                    _ => match monitored(g, bot, c) {
                        None => None,
                        Some(b) => if b == (filter == ListFilter::Monitored) {
                            Some(ids.push(c.id))
                        } else {
                            Some(ids)
                        },
                    },
                }
            },
        }
    }
}

/// Once a prefix of the channels cannot be listed, the whole cannot.
proof fn lemma_listed_none(
    g: GuildModel,
    bot: u64,
    cs: Seq<ChannelModel>,
    i: int,
    filter: ListFilter,
)
    requires
        0 <= i <= cs.len(),
        listed(g, bot, cs.subrange(0, i), filter) is None,
    ensures
        listed(g, bot, cs, filter) is None,
    decreases cs.len(),
{
    if i == cs.len() {
        assert(cs.subrange(0, i) =~= cs);
    } else {
        assert(cs.drop_last().subrange(0, i) =~= cs.subrange(0, i));
        lemma_listed_none(g, bot, cs.drop_last(), i, filter);
    }
}

/// The voice channels of the guild that the filter keeps.
pub fn list_channels(g: &Guild, bot: u64, filter: ListFilter) -> (r: Result<Vec<u64>, SearchError>)
    requires
        g@.wf(),
    ensures
        r matches Ok(v) ==> listed(g@, bot, g@.channels, filter) == Some(v@),
        r is Err ==> listed(g@, bot, g@.channels, filter) is None && r == Err::<Vec<u64>, SearchError>(
            SearchError::Internal,
        ),
{
    let ghost cs = g@.channels;
    let mut ids: Vec<u64> = Vec::new();
    let mut i: usize = 0;
    assert(cs.subrange(0, 0) =~= Seq::<ChannelModel>::empty());
    while i < g.channels.len()
        invariant
            g@.wf(),
            cs == g@.channels,
            i <= cs.len(),
            listed(g@, bot, cs.subrange(0, i as int), filter) == Some(ids@),
        decreases cs.len() - i,
    {
        assert(cs.subrange(0, i + 1).drop_last() =~= cs.subrange(0, i as int));
        assert(cs.subrange(0, i + 1).last() == cs[i as int]);
        assert(cs[i as int] == g.channels@[i as int]@);
        assert(channel_wf(cs[i as int]));
        let c = &g.channels[i];
        if c.kind == GUILD_VOICE || c.kind == GUILD_STAGE_VOICE {
            match filter {
                ListFilter::All => ids.push(c.id),
                _ => match is_monitored(g, bot, c) {
                    None => {
                        proof {
                            lemma_listed_none(g@, bot, cs, i + 1, filter);
                        }
                        return Err(SearchError::Internal);
                    },
                    Some(b) => {
                        let want = match filter {
                            ListFilter::Monitored => true,
                            _ => false,
                        };
                        if b == want {
                            ids.push(c.id);
                        }
                    },
                },
            }
        }
        i += 1;
    }
    assert(cs.subrange(0, i as int) =~= cs);
    Ok(ids)
}

/// One line per channel: a bullet and a mention of the channel.
pub open spec fn list_lines(ids: Seq<u64>) -> Seq<char>
    decreases ids.len(),
{
    if ids.len() == 0 {
        seq![]
    } else {
        list_lines(ids.drop_last()) + Markdown::BULLET_POINT@ + " <#"@ + decimal(ids.last() as nat)
            + ">\n"@
    }
}

/// The reply to a listing: its lines, or `none` when no channel is listed.
pub open spec fn list_text(ids: Seq<u64>) -> Seq<char> {
    if ids.len() == 0 {
        "none"@
    } else {
        list_lines(ids)
    }
}

/// The reply to a listing of the given channels.
pub fn list_reply(ids: &Vec<u64>) -> (r: String)
    ensures
        r@ == list_text(ids@),
{
    if ids.len() == 0 {
        return String::from_str("none");
    }
    let ghost s = ids@;
    let mut text = String::new();
    let mut i: usize = 0;
    assert(s.subrange(0, 0) =~= Seq::<u64>::empty());
    while i < ids.len()
        invariant
            s == ids@,
            i <= s.len(),
            text@ == list_lines(s.subrange(0, i as int)),
        decreases s.len() - i,
    {
        assert(s.subrange(0, i + 1).drop_last() =~= s.subrange(0, i as int));
        text.append(Markdown::BULLET_POINT);
        text.append(" <#");
        let digits = decimal_string(ids[i]);
        text.append(digits.as_str());
        text.append(">\n");
        i += 1;
    }
    assert(s.subrange(0, i as int) =~= s);
    text
}

} // verus!
