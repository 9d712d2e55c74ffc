use voice_prune::command::{
    decimal_string, error_message, list_channels, list_reply, prune_reply, ListFilter,
};
use voice_prune::model::{Channel, Guild, Member, Overwrite, Role, GUILD_VOICE, OVERWRITE_ROLE};
use voice_prune::oracle::{CONNECT, MOVE_MEMBERS};
use voice_prune::response::{Emoji, Markdown, Response, ResponseKind};
use voice_prune::search::SearchError;

fn guild() -> Guild {
    Guild {
        id: 1,
        owner: 2,
        channels: vec![
            Channel { id: 100, kind: GUILD_VOICE, overwrites: vec![] },
            Channel { id: 200, kind: 0, overwrites: vec![] },
            Channel {
                id: 300,
                kind: GUILD_VOICE,
                overwrites: vec![Overwrite { id: 1, kind: OVERWRITE_ROLE, allow: 0, deny: MOVE_MEMBERS }],
            },
        ],
        roles: vec![Role { id: 1, name: "@everyone".to_string(), permissions: CONNECT | MOVE_MEMBERS }],
        members: vec![Member { user: 10, roles: vec![] }],
        voice_states: vec![],
    }
}

#[test]
fn decimal_digits() {
    assert_eq!(decimal_string(0), "0");
    assert_eq!(decimal_string(7), "7");
    assert_eq!(decimal_string(1234567890), "1234567890");
    assert_eq!(decimal_string(u64::MAX), "18446744073709551615");
}

#[test]
fn prune_reply_counts() {
    assert_eq!(prune_reply(Ok(12)), "12 users pruned");
    assert_eq!(prune_reply(Ok(0)), "0 users pruned");
}

#[test]
fn error_messages() {
    assert_eq!(error_message(SearchError::Unmonitored), "\u{26A0}\u{FE0F} **Voice channel is not monitored**");
    assert_eq!(error_message(SearchError::NotAVoiceChannel), "\u{26A0}\u{FE0F} **Not a voice channel**");
    assert_eq!(error_message(SearchError::NotInVoice), "\u{26A0}\u{FE0F} **User is not in a voice channel**");
    assert_eq!(error_message(SearchError::Internal), "**Internal error**");
    assert!(error_message(SearchError::Unmonitored).starts_with(Emoji::WARNING));
}

#[test]
fn listing_filters_voice_channels() {
    let g = guild();
    assert_eq!(list_channels(&g, 10, ListFilter::All), Ok(vec![100, 300]));
    assert_eq!(list_channels(&g, 10, ListFilter::Monitored), Ok(vec![100]));
    assert_eq!(list_channels(&g, 10, ListFilter::Unmonitored), Ok(vec![300]));
    // the bot's permissions cannot be computed without its member record
    assert_eq!(list_channels(&g, 11, ListFilter::Monitored), Err(SearchError::Internal));
    assert_eq!(list_channels(&g, 11, ListFilter::All), Ok(vec![100, 300]));
}

#[test]
fn listing_reply() {
    assert_eq!(list_reply(&vec![]), "none");
    assert_eq!(list_reply(&vec![100, 300]), "\u{2022} <#100>\n\u{2022} <#300>\n");
    assert_eq!(Markdown::BULLET_POINT, "\u{2022}");
}

#[test]
fn responses() {
    let ack = Response::ack();
    assert_eq!(ack.kind, ResponseKind::Deferred);
    assert_eq!(ack.content, None);
    let msg = Response::message("hello".to_string());
    assert_eq!(msg.kind, ResponseKind::Message);
    assert_eq!(msg.content.as_deref(), Some("hello"));
}
