use voice_prune::command::{prune_candidates, prune_reply};
use voice_prune::engine::auto_candidates;
use voice_prune::gate::{resolve_scope, should_skip, Notification, Scope};
use voice_prune::model::{
    Channel, Guild, Member, Overwrite, Role, VoiceState, GUILD_STAGE_VOICE, GUILD_VOICE,
    OVERWRITE_MEMBER, OVERWRITE_ROLE,
};
use voice_prune::oracle::{permissions_in, CONNECT, MOVE_MEMBERS};
use voice_prune::policy::{auto_enforce_enabled, is_monitored};
use voice_prune::remedy::tally;
use voice_prune::search::{search_channel, search_guild, search_member, SearchError};

const GUILD: u64 = 1;
const OWNER: u64 = 99;
const BOT: u64 = 10;
const VIEW: u64 = 1 << 10;
const VOICE_X: u64 = 100;
const TEXT: u64 = 200;
const VOICE_Y: u64 = 300;
const BOT_ROLE: u64 = 50;
const ROLE_R: u64 = 60;
const OPT_OUT: u64 = 70;

fn role(id: u64, name: &str, permissions: u64) -> Role {
    Role { id, name: name.to_string(), permissions }
}

fn member(user: u64, roles: Vec<u64>) -> Member {
    Member { user, roles }
}

fn deny_connect(user: u64) -> Overwrite {
    Overwrite { id: user, kind: OVERWRITE_MEMBER, allow: 0, deny: CONNECT }
}

/// Channel X (voice, monitored) with users 20 (may connect) and 30 (denied).
fn guild() -> Guild {
    Guild {
        id: GUILD,
        owner: OWNER,
        channels: vec![
            Channel { id: VOICE_X, kind: GUILD_VOICE, overwrites: vec![deny_connect(30)] },
            Channel { id: TEXT, kind: 0, overwrites: vec![] },
        ],
        roles: vec![
            role(GUILD, "@everyone", CONNECT | VIEW),
            role(BOT_ROLE, "bot", MOVE_MEMBERS),
            role(ROLE_R, "r", 0),
            role(OPT_OUT, "no-auto-prune", 0),
        ],
        members: vec![
            member(BOT, vec![BOT_ROLE]),
            member(20, vec![]),
            member(30, vec![]),
        ],
        voice_states: vec![
            VoiceState { user: 20, channel: VOICE_X },
            VoiceState { user: 30, channel: VOICE_X },
        ],
    }
}

#[test]
fn monitored_needs_voice_kind_and_move_members() {
    let g = guild();
    assert!(g.is_well_formed());
    assert_eq!(is_monitored(&g, BOT, &g.channels[0]), Some(true));
    assert_eq!(is_monitored(&g, BOT, &g.channels[1]), Some(false));
    // a user without the move permission does not monitor the channel
    assert_eq!(is_monitored(&g, 20, &g.channels[0]), Some(false));
    let stage = Channel { id: 400, kind: GUILD_STAGE_VOICE, overwrites: vec![] };
    assert_eq!(is_monitored(&g, BOT, &stage), Some(true));
    // a bot whose move permission is denied in the channel
    let denied = Channel {
        id: 401,
        kind: GUILD_VOICE,
        overwrites: vec![Overwrite { id: BOT, kind: OVERWRITE_MEMBER, allow: 0, deny: MOVE_MEMBERS }],
    };
    assert_eq!(is_monitored(&g, BOT, &denied), Some(false));
    // the bot's member record is missing
    assert_eq!(is_monitored(&g, 12345, &g.channels[0]), None);
}

#[test]
fn calculator_applies_overwrites() {
    let g = guild();
    let everyone = CONNECT | VIEW;
    let p20 = permissions_in(&g, 20, &g.channels[0]).unwrap();
    let p30 = permissions_in(&g, 30, &g.channels[0]).unwrap();
    assert_ne!(p20 & CONNECT, 0);
    assert_eq!(p30 & CONNECT, 0);
    assert_ne!(p30, everyone);
    assert_eq!(permissions_in(&g, 12345, &g.channels[0]), None);
}

#[test]
fn scenario_channel_sweep_removes_only_the_denied_user() {
    let g = guild();
    let candidates = auto_candidates(&g, BOT, Scope::Channel(VOICE_X)).unwrap();
    assert_eq!(candidates, vec![30]);
    // the removal call for the one candidate succeeded
    assert_eq!(tally(&vec![true]), 1);
}

#[test]
fn second_channel_sweep_removes_no_one() {
    let mut g = guild();
    let first = search_channel(&g, BOT, VOICE_X, None).unwrap();
    assert_eq!(first, vec![30]);
    g.disconnect(&first);
    assert_eq!(g.voice_states, vec![VoiceState { user: 20, channel: VOICE_X }]);
    let second = search_channel(&g, BOT, VOICE_X, None).unwrap();
    assert!(second.is_empty());
}

#[test]
fn identical_overwrites_are_skipped() {
    let n = Notification::ChannelOverwrites {
        channel: VOICE_X,
        kind: GUILD_VOICE,
        overwrites: vec![deny_connect(30)],
        cached: Some(vec![deny_connect(30)]),
    };
    assert!(should_skip(&n));
    assert_eq!(resolve_scope(&n), None);
}

#[test]
fn changed_overwrites_scope_the_channel() {
    let n = Notification::ChannelOverwrites {
        channel: VOICE_X,
        kind: GUILD_VOICE,
        overwrites: vec![deny_connect(30), deny_connect(20)],
        cached: Some(vec![deny_connect(30)]),
    };
    assert_eq!(resolve_scope(&n), Some(Scope::Channel(VOICE_X)));
    let uncached = Notification::ChannelOverwrites {
        channel: VOICE_X,
        kind: GUILD_STAGE_VOICE,
        overwrites: vec![],
        cached: None,
    };
    assert_eq!(resolve_scope(&uncached), Some(Scope::Channel(VOICE_X)));
}

#[test]
fn text_channel_updates_are_skipped() {
    let n = Notification::ChannelOverwrites {
        channel: TEXT,
        kind: 0,
        overwrites: vec![deny_connect(30)],
        cached: None,
    };
    assert!(should_skip(&n));
    assert_eq!(resolve_scope(&n), None);
}

#[test]
fn role_deletion_scopes_the_guild() {
    let n = Notification::RoleDeleted { role: ROLE_R };
    assert!(!should_skip(&n));
    assert_eq!(resolve_scope(&n), Some(Scope::Guild));
}

#[test]
fn member_update_scopes_the_member() {
    let n = Notification::MemberRoles { user: 30 };
    assert_eq!(resolve_scope(&n), Some(Scope::Member(30)));
    assert_eq!(resolve_scope(&Notification::Other), None);
}

#[test]
fn scenario_equal_role_bitmask_resolves_to_no_scope() {
    let n = Notification::RolePermissions { role: ROLE_R, permissions: CONNECT, cached: Some(CONNECT) };
    assert!(should_skip(&n));
    assert_eq!(resolve_scope(&n), None);
    let changed = Notification::RolePermissions { role: ROLE_R, permissions: 0, cached: Some(CONNECT) };
    assert_eq!(resolve_scope(&changed), Some(Scope::Guild));
    let uncached = Notification::RolePermissions { role: ROLE_R, permissions: 0, cached: None };
    assert_eq!(resolve_scope(&uncached), Some(Scope::Guild));
}

#[test]
fn missing_bot_member_suspends_auto_enforcement() {
    let mut g = guild();
    assert!(auto_enforce_enabled(&g, BOT));
    g.members.remove(0);
    assert!(!auto_enforce_enabled(&g, BOT));
    assert_eq!(auto_candidates(&g, BOT, Scope::Channel(VOICE_X)), Ok(vec![]));
}

#[test]
fn opt_out_role_suspends_auto_enforcement() {
    let mut g = guild();
    g.members[0].roles.push(OPT_OUT);
    assert!(!auto_enforce_enabled(&g, BOT));
    assert_eq!(auto_candidates(&g, BOT, Scope::Guild), Ok(vec![]));
    // a manual prune still runs
    assert_eq!(prune_candidates(&g, BOT, Some(VOICE_X), None), Ok(vec![30]));
}

#[test]
fn scenario_prune_with_channel_and_role_filter() {
    let mut g = guild();
    g.members.push(member(40, vec![ROLE_R]));
    g.channels[0].overwrites.push(deny_connect(40));
    g.voice_states.push(VoiceState { user: 40, channel: VOICE_X });
    let users = prune_candidates(&g, BOT, Some(VOICE_X), Some(ROLE_R)).unwrap();
    assert_eq!(users, vec![40]);
    assert_eq!(prune_reply(Ok(tally(&vec![true]))), "1 users pruned");

    g.channels[0].overwrites.pop();
    let users = prune_candidates(&g, BOT, Some(VOICE_X), Some(ROLE_R)).unwrap();
    assert!(users.is_empty());
    assert_eq!(prune_reply(Ok(tally(&vec![]))), "0 users pruned");
}

#[test]
fn everyone_role_filter_keeps_all_users() {
    let g = guild();
    assert_eq!(prune_candidates(&g, BOT, Some(VOICE_X), Some(GUILD)), Ok(vec![30]));
    assert_eq!(prune_candidates(&g, BOT, Some(VOICE_X), Some(ROLE_R)), Ok(vec![]));
}

#[test]
fn scenario_prune_of_text_channel_is_rejected() {
    let g = guild();
    let outcome = prune_candidates(&g, BOT, Some(TEXT), None);
    assert_eq!(outcome, Err(SearchError::NotAVoiceChannel));
    assert_eq!(prune_reply(Err(SearchError::NotAVoiceChannel)), "\u{26A0}\u{FE0F} **Not a voice channel**");
}

#[test]
fn unmonitored_channel_is_an_error_for_commands_only() {
    let mut g = guild();
    g.channels.push(Channel {
        id: VOICE_Y,
        kind: GUILD_VOICE,
        overwrites: vec![
            Overwrite { id: BOT_ROLE, kind: OVERWRITE_ROLE, allow: 0, deny: MOVE_MEMBERS },
            deny_connect(50),
        ],
    });
    g.members.push(member(50, vec![]));
    g.voice_states.push(VoiceState { user: 50, channel: VOICE_Y });
    assert_eq!(prune_candidates(&g, BOT, Some(VOICE_Y), None), Err(SearchError::Unmonitored));
    assert_eq!(auto_candidates(&g, BOT, Scope::Channel(VOICE_Y)), Ok(vec![]));
    // a guild sweep skips the unmonitored channel
    assert_eq!(search_guild(&g, BOT, None), Ok(vec![30]));
}

#[test]
fn guild_sweep_covers_every_monitored_channel() {
    let mut g = guild();
    g.channels.push(Channel { id: VOICE_Y, kind: GUILD_STAGE_VOICE, overwrites: vec![deny_connect(50)] });
    g.members.push(member(50, vec![]));
    g.voice_states.push(VoiceState { user: 50, channel: VOICE_Y });
    assert_eq!(search_guild(&g, BOT, None), Ok(vec![30, 50]));
    assert_eq!(auto_candidates(&g, BOT, Scope::Guild), Ok(vec![30, 50]));
}

#[test]
fn member_sweep_finds_one_user() {
    let g = guild();
    assert_eq!(search_member(&g, BOT, 30), Ok(vec![30]));
    assert_eq!(search_member(&g, BOT, 20), Ok(vec![]));
    // not connected
    assert_eq!(search_member(&g, BOT, OWNER), Ok(vec![]));
    assert_eq!(auto_candidates(&g, BOT, Scope::Member(30)), Ok(vec![30]));
}

#[test]
fn missing_member_record_is_internal() {
    let mut g = guild();
    g.voice_states.push(VoiceState { user: 77, channel: VOICE_X });
    assert_eq!(search_channel(&g, BOT, VOICE_X, None), Err(SearchError::Internal));
    assert_eq!(search_channel(&g, BOT, 555, None), Err(SearchError::Internal));
    assert_eq!(prune_reply(Err(SearchError::Internal)), "**Internal error**");
}

#[test]
fn zero_ids_are_not_well_formed() {
    let mut g = guild();
    assert!(g.is_well_formed());
    g.channels[0].overwrites.push(deny_connect(0));
    assert!(!g.is_well_formed());
}

#[test]
fn tally_counts_successes() {
    assert_eq!(tally(&vec![]), 0);
    assert_eq!(tally(&vec![true, false, true, true]), 3);
    assert_eq!(tally(&vec![false, false]), 0);
}
