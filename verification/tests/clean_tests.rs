use std::collections::HashMap;
use dankbot::clean::{
    clean_message_content, clean_resolved_content, is_cleanable, try_clean_message_content,
    GuildInfo, MentionedChannel, MentionedUser, MessageCleaner, MessageInfo,
};

fn message(content: &str) -> MessageInfo {
    MessageInfo {
        content: content.to_string(),
        mentions: Vec::new(),
        mention_roles: Vec::new(),
        mention_channels: Vec::new(),
    }
}

fn resolved(text: &str, msg: &MessageInfo, g: &GuildInfo) -> Option<String> {
    if is_cleanable(text, msg, g) {
        Some(clean_resolved_content(text, msg, g))
    } else {
        None
    }
}

fn guild() -> GuildInfo {
    GuildInfo { member_nicks: HashMap::new(), role_names: HashMap::new(), channels: HashMap::new() }
}

fn clean(content: &str, msg: &MessageInfo, g: &GuildInfo) -> Option<String> {
    let cleaner = MessageCleaner::new().expect("patterns compile");
    let mut m = MessageInfo {
        content: content.to_string(),
        mentions: Vec::new(),
        mention_roles: Vec::new(),
        mention_channels: Vec::new(),
    };
    for u in &msg.mentions {
        m.mentions.push(MentionedUser { id: u.id, name: u.name.clone() });
    }
    m.mention_roles = msg.mention_roles.clone();
    for c in &msg.mention_channels {
        m.mention_channels.push(MentionedChannel { id: c.id, name: c.name.clone() });
    }
    try_clean_message_content(&cleaner, &m, g)
}

#[test]
fn patterns_compile() {
    assert!(MessageCleaner::new().is_some());
}

#[test]
fn links_are_shortened_to_their_host() {
    let out = clean("look at https://www.example.com/page ok", &message(""), &guild());
    assert_eq!(out.as_deref(), Some("look at example.com link ok"));
}

#[test]
fn emotes_are_named() {
    let out = clean("nice <:pog:123456> and <a:dance:42>", &message(""), &guild());
    assert_eq!(out.as_deref(), Some("nice :pog: emote and :dance: emote"));
}

#[test]
fn plain_text_passes_unchanged() {
    let out = clean("just some words here", &message(""), &guild());
    assert_eq!(out.as_deref(), Some("just some words here"));
}

#[test]
fn users_are_named_by_nickname_or_name() {
    let mut msg = message("");
    msg.mentions.push(MentionedUser { id: 42, name: "alice".to_string() });
    msg.mentions.push(MentionedUser { id: 43, name: "bob".to_string() });
    msg.mentions.push(MentionedUser { id: 44, name: "carol".to_string() });
    let mut g = guild();
    g.member_nicks.insert(42, Some("Al".to_string()));
    g.member_nicks.insert(43, None);
    let out = resolved("Hi <@42> and <@!43> and <@44>", &msg, &g);
    assert_eq!(out.as_deref(), Some("Hi @Al and @bob and @carol"));
}

#[test]
fn plain_mention_preferred_over_nick_form() {
    let mut msg = message("");
    msg.mentions.push(MentionedUser { id: 42, name: "alice".to_string() });
    let out = resolved("<@42> <@!42>", &msg, &guild());
    assert_eq!(out.as_deref(), Some("@alice <@!42>"));
}

#[test]
fn roles_are_named_or_deleted() {
    let mut msg = message("");
    msg.mention_roles.push(7);
    msg.mention_roles.push(8);
    let mut g = guild();
    g.role_names.insert(7, "mods".to_string());
    let out = resolved("<@&7> <@&8>", &msg, &g);
    assert_eq!(out.as_deref(), Some("@mods @deleted-role"));
}

#[test]
fn channels_are_named_kept_or_deleted() {
    let mut g = guild();
    g.channels.insert(5, Some("general".to_string()));
    g.channels.insert(6, None);
    let out = resolved("<#5> <#6> <#8> <#005>", &message(""), &g);
    assert_eq!(out.as_deref(), Some("general channel <#6> deleted channel general channel"));
}

#[test]
fn resolved_channel_mentions_use_discord_names() {
    let mut msg = message("");
    msg.mention_channels.push(MentionedChannel { id: 9, name: "news".to_string() });
    let mut g = guild();
    g.channels.insert(9, None);
    let out = resolved("see <#9>", &msg, &g);
    assert_eq!(out.as_deref(), Some("see news"));
}

#[test]
fn emoticons_are_spelled_out() {
    let out = resolved("owo uwu", &message(""), &guild());
    assert_eq!(out.as_deref(), Some("ohwo oowoo"));
}

#[test]
fn channel_id_zero_is_refused() {
    assert_eq!(resolved("<#0>", &message(""), &guild()), None);
}

#[test]
fn channel_id_overflow_is_refused() {
    assert_eq!(resolved("<#99999999999999999999999>", &message(""), &guild()), None);
}

#[test]
fn broken_channel_mentions_are_text() {
    let out = resolved("<#> <#12 <# 3> #4>", &message(""), &guild());
    assert_eq!(out.as_deref(), Some("<#> <#12 <# 3> #4>"));
}

#[test]
fn cleanable_text_is_cleaned_directly() {
    let cleaner = MessageCleaner::new().unwrap();
    let msg = message("owo see https://docs.rs now <#0>x");
    assert!(!is_cleanable("<#0>", &msg, &guild()));
    assert_eq!(try_clean_message_content(&cleaner, &msg, &guild()), None);
    let msg = message("owo see https://docs.rs now");
    assert_eq!(clean_message_content(&cleaner, &msg, &guild()), "ohwo see docs.rs link now");
}
