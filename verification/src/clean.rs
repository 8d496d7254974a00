//! Turning a chat message into text fit to be read aloud: links and custom
//! emotes are shortened, user, role and channel mentions are replaced by
//! names, and two emoticons are spelled out.

use vstd::prelude::*;
use std::collections::HashMap;
use crate::text::{
    all_digits, chars_of, contains, push_all, law_replace_absent, law_replace_whole,
    lemma_no_occurrence_concat, law_decimal_round_trip, is_digit, decimal, occurs_at, digits_value, occurs_in, parse_digits, replace, replaced,
    string_of,
};
use crate::mention::{
    channel_mention, channel_mention_of, channel_mentions, channel_mentions_from, channel_mentions_in, mention_end,
    lemma_channel_mentions_digits, law_channel_mention_read_back, nick_mention, nick_mention_of, role_mention, role_mention_of,
    user_mention, user_mention_of,
};
use crate::pattern::{regex_compiles, regex_replaced, TextPattern};


verus! {

broadcast use vstd::std_specs::hash::group_hash_axioms;

/// A user mentioned by a message.
pub struct MentionedUser {
    pub id: u64,
    pub name: String,
}

/// A channel that a message links to by mention, with the name Discord gives it.
pub struct MentionedChannel {
    pub id: u64,
    pub name: String,
}

/// What cleaning reads of a message.
pub struct MessageInfo {
    pub content: String,
    pub mentions: Vec<MentionedUser>,
    pub mention_roles: Vec<u64>,
    pub mention_channels: Vec<MentionedChannel>,
}

/// What cleaning reads of the guild a message was sent in.
pub struct GuildInfo {
    /// The members of the guild, each with its nickname if it has one.
    pub member_nicks: HashMap<u64, Option<String>>,
    /// The names of the roles that can be resolved.
    pub role_names: HashMap<u64, String>,
    /// The channels of the guild: `Some(name)` for a guild channel, `None`
    /// for a channel of another kind.
    pub channels: HashMap<u64, Option<String>>,
}

/// `@` followed by `name`.
pub open spec fn at_name(name: Seq<char>) -> Seq<char> {
    seq!['@'] + name
}

/// The text that stands for a mentioned user: `@` and the user's nickname
/// in the guild where there is one, else `@` and the user's name.
pub open spec fn user_label(user: MentionedUser, nicks: Map<u64, Option<String>>) -> Seq<char> {
    if nicks.contains_key(user.id) && nicks[user.id] is Some {
        at_name(nicks[user.id].unwrap()@)
    } else {
        at_name(user.name@)
    }
}

/// One user's mention replaced: the plain form `<@id>` where the text holds
/// it, else the nickname form `<@!id>`.
pub open spec fn user_step(text: Seq<char>, user: MentionedUser, nicks: Map<u64, Option<String>>) -> Seq<char> {
    let m = if occurs_in(text, user_mention(user.id)) {
        user_mention(user.id)
    } else {
        nick_mention(user.id)
    };
    replaced(text, m, user_label(user, nicks))
}

/// The mentions of `users` replaced in order.
pub open spec fn users_replaced(
    text: Seq<char>,
    users: Seq<MentionedUser>,
    nicks: Map<u64, Option<String>>,
) -> Seq<char>
    decreases users.len(),
{
    if users.len() == 0 {
        text
    } else {
        users_replaced(user_step(text, users[0], nicks), users.drop_first(), nicks)
    }
}

/// One role's mention replaced by `@` and its name, or by `@deleted-role`.
pub open spec fn role_step(text: Seq<char>, id: u64, names: Map<u64, String>) -> Seq<char> {
    let label = if names.contains_key(id) {
        at_name(names[id]@)
    } else {
        "@deleted-role"@
    };
    replaced(text, role_mention(id), label)
}

/// The mentions of `roles` replaced in order.
pub open spec fn roles_replaced(text: Seq<char>, roles: Seq<u64>, names: Map<u64, String>) -> Seq<char>
    decreases roles.len(),
{
    if roles.len() == 0 {
        text
    } else {
        roles_replaced(role_step(text, roles[0], names), roles.drop_first(), names)
    }
}

/// Every channel mention's digits name a channel id (from 1 to `u64::MAX`).
pub open spec fn channel_ids_valid(digits: Seq<Seq<char>>) -> bool {
    forall|k: int|
        0 <= k < digits.len() ==> 1 <= #[trigger] digits_value(digits[k]) && digits_value(
            digits[k],
        ) <= u64::MAX
}

/// One channel mention `<#digits>` replaced: by the channel's name and
/// ` channel` for a guild channel, left alone for a channel of another kind,
/// and replaced by `deleted channel` where the guild has no such channel.
pub open spec fn channel_step(text: Seq<char>, digits: Seq<char>, channels: Map<u64, Option<String>>) -> Seq<char> {
    let id = digits_value(digits) as u64;
    let whole = seq!['<', '#'] + digits + seq!['>'];
    if channels.contains_key(id) {
        match channels[id] {
            Some(name) => replaced(text, whole, name@ + " channel"@),
            None => text,
        }
    } else {
        replaced(text, whole, "deleted channel"@)
    }
}

/// The channel mentions `found` replaced in order.
pub open spec fn channels_replaced(
    text: Seq<char>,
    found: Seq<Seq<char>>,
    channels: Map<u64, Option<String>>,
) -> Seq<char>
    decreases found.len(),
{
    if found.len() == 0 {
        text
    } else {
        channels_replaced(channel_step(text, found[0], channels), found.drop_first(), channels)
    }
}

/// The mentions of the channels that Discord resolved replaced by their names.
pub open spec fn named_channels_replaced(text: Seq<char>, named: Seq<MentionedChannel>) -> Seq<char>
    decreases named.len(),
{
    if named.len() == 0 {
        text
    } else {
        named_channels_replaced(
            replaced(text, channel_mention(named[0].id), named[0].name@),
            named.drop_first(),
        )
    }
}

/// `owo` spelled `ohwo`, then `uwu` spelled `oowoo`.
pub open spec fn softened(text: Seq<char>) -> Seq<char> {
    replaced(replaced(text, "owo"@, "ohwo"@), "uwu"@, "oowoo"@)
}

/// The text after user and role mentions are replaced.
pub open spec fn mentions_resolved(text: Seq<char>, message: MessageInfo, guild: GuildInfo) -> Seq<char> {
    roles_replaced(
        users_replaced(text, message.mentions@, guild.member_nicks@),
        message.mention_roles@,
        guild.role_names@,
    )
}

/// Every channel mention left after user and role mentions are replaced
/// names a channel id; on other texts cleaning is not defined (the id
/// cannot be read).
pub open spec fn cleanable(text: Seq<char>, message: MessageInfo, guild: GuildInfo) -> bool {
    channel_ids_valid(channel_mentions(mentions_resolved(text, message, guild)))
}

/// The cleaned text of a message whose links and emotes were already
/// shortened into `text`.
pub open spec fn cleaned(text: Seq<char>, message: MessageInfo, guild: GuildInfo) -> Seq<char> {
    let resolved = mentions_resolved(text, message, guild);
    softened(
        named_channels_replaced(
            channels_replaced(resolved, channel_mentions(resolved), guild.channels@),
            message.mention_channels@,
        ),
    )
}

/// The text that stands for a mentioned user.
fn user_label_of(user: &MentionedUser, nicks: &HashMap<u64, Option<String>>) -> (v: Vec<char>)
    ensures
        v@ == user_label(*user, nicks@),
{
    let mut v = vec!['@'];
    match nicks.get(&user.id) {
        Some(Some(nick)) => push_all(&mut v, &chars_of(nick.as_str())),
        _ => push_all(&mut v, &chars_of(user.name.as_str())),
    }
    v
}

/// The mentions of `users` replaced in order.
fn replace_user_mentions(
    text: Vec<char>,
    users: &Vec<MentionedUser>,
    nicks: &HashMap<u64, Option<String>>,
) -> (r: Vec<char>)
    ensures
        r@ == users_replaced(text@, users@, nicks@),
{
    let mut cur = text;
    let mut i: usize = 0;
    assert(users@.skip(0) =~= users@);
    while i < users.len()
        invariant
            i <= users.len(),
            users_replaced(text@, users@, nicks@) == users_replaced(cur@, users@.skip(i as int), nicks@),
        decreases users.len() - i,
    {
        let user = &users[i];
        let mut m = user_mention_of(user.id);
        if !contains(&cur, &m) {
            m = nick_mention_of(user.id);
        }
        let label = user_label_of(user, nicks);
        let next = replace(&cur, &m, &label);
        assert(users@.skip(i as int).drop_first() =~= users@.skip(i + 1));
        assert(next@ == user_step(cur@, users@.skip(i as int)[0], nicks@));
        cur = next;
        i = i + 1;
    }
    cur
}

/// The mentions of `roles` replaced in order.
fn replace_role_mentions(text: Vec<char>, roles: &Vec<u64>, names: &HashMap<u64, String>) -> (r: Vec<char>)
    ensures
        r@ == roles_replaced(text@, roles@, names@),
{
    let mut cur = text;
    let mut i: usize = 0;
    assert(roles@.skip(0) =~= roles@);
    while i < roles.len()
        invariant
            i <= roles.len(),
            roles_replaced(text@, roles@, names@) == roles_replaced(cur@, roles@.skip(i as int), names@),
        decreases roles.len() - i,
    {
        let id = roles[i];
        let m = role_mention_of(id);
        let label = match names.get(&id) {
            Some(name) => {
                let mut v = vec!['@'];
                push_all(&mut v, &chars_of(name.as_str()));
                v
            },
            None => chars_of("@deleted-role"),
        };
        assert(roles@.skip(i as int)[0] == id);
        assert(label@ == (if names@.contains_key(id) {
            at_name(names@[id]@)
        } else {
            "@deleted-role"@
        }));
        let next = replace(&cur, &m, &label);
        assert(roles@.skip(i as int).drop_first() =~= roles@.skip(i + 1));
        assert(next@ == role_step(cur@, roles@.skip(i as int)[0], names@));
        cur = next;
        i = i + 1;
    }
    cur
}

/// The channel mentions `found` replaced in order.
fn replace_found_channels(
    text: Vec<char>,
    found: &Vec<Vec<char>>,
    channels: &HashMap<u64, Option<String>>,
    ghost_found: Ghost<Seq<Seq<char>>>,
) -> (r: Vec<char>)
    requires
        found@.len() == ghost_found@.len(),
        forall|k: int| 0 <= k < found@.len() ==> #[trigger] found@[k]@ == ghost_found@[k],
        forall|k: int| 0 <= k < ghost_found@.len() ==> all_digits(#[trigger] ghost_found@[k]),
        channel_ids_valid(ghost_found@),
    ensures
        r@ == channels_replaced(text@, ghost_found@, channels@),
{
    let ghost g = ghost_found@;
    let mut cur = text;
    let mut i: usize = 0;
    assert(g.skip(0) =~= g);
    while i < found.len()
        invariant
            i <= found.len(),
            found@.len() == g.len(),
            forall|k: int| 0 <= k < found@.len() ==> #[trigger] found@[k]@ == g[k],
            forall|k: int| 0 <= k < g.len() ==> all_digits(#[trigger] g[k]),
            channel_ids_valid(g),
            channels_replaced(text@, g, channels@) == channels_replaced(cur@, g.skip(i as int), channels@),
        decreases found.len() - i,
    {
        let digits = &found[i];
        assert(digits@ == g[i as int]);
        assert(all_digits(g[i as int]));
        let id = match parse_digits(digits) {
            Some(v) => v,
            None => {
                assert(false);
                0
            },
        };
        let mut whole = vec!['<', '#'];
        push_all(&mut whole, digits);
        whole.push('>');
        let next = match channels.get(&id) {
            Some(Some(name)) => {
                let mut label = chars_of(name.as_str());
                push_all(&mut label, &chars_of(" channel"));
                replace(&cur, &whole, &label)
            },
            Some(None) => cur,
            None => replace(&cur, &whole, &chars_of("deleted channel")),
        };
        assert(g.skip(i as int).drop_first() =~= g.skip(i + 1));
        assert(whole@ =~= seq!['<', '#'] + g[i as int] + seq!['>']);
        assert(next@ == channel_step(cur@, g.skip(i as int)[0], channels@));
        cur = next;
        i = i + 1;
    }
    cur
}

/// The mentions of the channels that Discord resolved replaced by their names.
fn replace_named_channels(text: Vec<char>, named: &Vec<MentionedChannel>) -> (r: Vec<char>)
    ensures
        r@ == named_channels_replaced(text@, named@),
{
    let mut cur = text;
    let mut i: usize = 0;
    assert(named@.skip(0) =~= named@);
    while i < named.len()
        invariant
            i <= named.len(),
            named_channels_replaced(text@, named@) == named_channels_replaced(cur@, named@.skip(i as int)),
        decreases named.len() - i,
    {
        let m = channel_mention_of(named[i].id);
        let next = replace(&cur, &m, &chars_of(named[i].name.as_str()));
        assert(named@.skip(i as int).drop_first() =~= named@.skip(i + 1));
        cur = next;
        i = i + 1;
    }
    cur
}

/// `owo` spelled `ohwo`, then `uwu` spelled `oowoo`.
fn soften(text: &Vec<char>) -> (r: Vec<char>)
    ensures
        r@ == softened(text@),
{
    let first = replace(text, &chars_of("owo"), &chars_of("ohwo"));
    replace(&first, &chars_of("uwu"), &chars_of("oowoo"))
}

/// The user and role mentions of `text` replaced.
fn resolve_mentions(text: &str, message: &MessageInfo, guild: &GuildInfo) -> (r: Vec<char>)
    ensures
        r@ == mentions_resolved(text@, *message, *guild),
{
    let users_done = replace_user_mentions(chars_of(text), &message.mentions, &guild.member_nicks);
    replace_role_mentions(users_done, &message.mention_roles, &guild.role_names)
}

/// Whether every channel mention's digits in `found` name a channel id.
fn channel_ids_ok(found: &Vec<Vec<char>>, g: Ghost<Seq<Seq<char>>>) -> (b: bool)
    requires
        found@.len() == g@.len(),
        forall|j: int| 0 <= j < found@.len() ==> #[trigger] found@[j]@ == g@[j],
        forall|j: int| 0 <= j < g@.len() ==> all_digits(#[trigger] g@[j]),
    ensures
        b == channel_ids_valid(g@),
{
    let mut k: usize = 0;
    while k < found.len()
        invariant
            k <= found.len(),
            found@.len() == g@.len(),
            forall|j: int| 0 <= j < found@.len() ==> #[trigger] found@[j]@ == g@[j],
            forall|j: int| 0 <= j < g@.len() ==> all_digits(#[trigger] g@[j]),
            forall|j: int|
                0 <= j < k ==> 1 <= #[trigger] digits_value(g@[j]) && digits_value(g@[j])
                    <= u64::MAX,
        decreases found.len() - k,
    {
        assert(found@[k as int]@ == g@[k as int]);
        match parse_digits(&found[k]) {
            Some(v) => {
                if v == 0 {
                    assert(digits_value(g@[k as int]) == 0);
                    return false;
                }
            },
            None => {
                assert(digits_value(g@[k as int]) > u64::MAX);
                return false;
            },
        }
        k = k + 1;
    }
    true
}

/// Whether the message, with its links and emotes already shortened into
/// `text`, can be cleaned: every channel mention left after user and role
/// mentions are replaced names a channel id (from 1 to `u64::MAX`).
pub fn is_cleanable(text: &str, message: &MessageInfo, guild: &GuildInfo) -> (b: bool)
    ensures
        b == cleanable(text@, *message, *guild),
{
    let resolved = resolve_mentions(text, message, guild);
    let found = channel_mentions_in(&resolved);
    proof {
        lemma_channel_mentions_digits(resolved@, 0);
    }
    channel_ids_ok(&found, Ghost(channel_mentions(resolved@)))
}

/// Cleans a message whose links and emotes were already shortened into
/// `text`: user and role mentions replaced by names, channel mentions by
/// channel names, Discord's resolved channel mentions by their names, then
/// the emoticons spelled out.
pub fn clean_resolved_content(text: &str, message: &MessageInfo, guild: &GuildInfo) -> (r: String)
    requires
        cleanable(text@, *message, *guild),
    ensures
        r@ == cleaned(text@, *message, *guild),
{
    let resolved = resolve_mentions(text, message, guild);
    let found = channel_mentions_in(&resolved);
    let ghost g = channel_mentions(resolved@);
    proof {
        lemma_channel_mentions_digits(resolved@, 0);
    }
    let channels_done = replace_found_channels(resolved, &found, &guild.channels, Ghost(g));
    let named_done = replace_named_channels(channels_done, &message.mention_channels);
    string_of(&soften(&named_done))
}

/// Links: an optional scheme and `www.`, a host ending in a dot and a top
/// level name (group 3), then an optional path.
pub open spec fn link_pattern() -> Seq<char> {
    r"(https?://)?(www\.)?([-a-zA-Z0-9@:%._\+~#=]{1,256}\.[a-zA-Z0-9()]{1,6})\b[-a-zA-Z0-9()@:%_\+.~#?&//=]*"@
}

/// Custom emotes `<:name:id>` and `<a:name:id>`; group 1 is `:name:`.
pub open spec fn emote_pattern() -> Seq<char> {
    r"<a?(:\w+:)[0-9]+>"@
}

/// The two compiled patterns with which message text is shortened.
pub struct MessageCleaner {
    links: TextPattern,
    emotes: TextPattern,
}

impl View for MessageCleaner {
    /// The sources of the link and the emote pattern.
    type V = (Seq<char>, Seq<char>);

    closed spec fn view(&self) -> (Seq<char>, Seq<char>) {
        (self.links@, self.emotes@)
    }
}

impl MessageCleaner {
    /// Compiles the link and emote patterns; `None` exactly where the regex
    /// crate refuses one of them.
    pub fn new() -> (r: Option<MessageCleaner>)
        ensures
            r is Some <==> regex_compiles(link_pattern()) && regex_compiles(emote_pattern()),
            r matches Some(c) ==> c@ == (link_pattern(), emote_pattern()),
    {
        let links = TextPattern::compile(r"(https?://)?(www\.)?([-a-zA-Z0-9@:%._\+~#=]{1,256}\.[a-zA-Z0-9()]{1,6})\b[-a-zA-Z0-9()@:%_\+.~#?&//=]*");
        let emotes = TextPattern::compile(r"<a?(:\w+:)[0-9]+>");
        match (links, emotes) {
            (Some(links), Some(emotes)) => Some(MessageCleaner { links, emotes }),
            _ => None,
        }
    }
}

/// `content` with every link replaced by its host and ` link`, then every
/// custom emote by `:name:` and ` emote`, as the cleaner's patterns do it.
pub open spec fn shortened(content: Seq<char>, patterns: (Seq<char>, Seq<char>)) -> Seq<char> {
    regex_replaced(
        patterns.1,
        regex_replaced(patterns.0, content, "${3} link"@),
        "${1} emote"@,
    )
}

/// The text of `message` made fit to be read aloud in `guild`: links and
/// emotes shortened, mentions replaced by names, emoticons spelled out.
pub fn clean_message_content(cleaner: &MessageCleaner, message: &MessageInfo, guild: &GuildInfo) -> (r: String)
    requires
        cleanable(shortened(message.content@, cleaner@), *message, *guild),
    ensures
        r@ == cleaned(shortened(message.content@, cleaner@), *message, *guild),
{
    let links_done = cleaner.links.replace_all(message.content.as_str(), "${3} link");
    let emotes_done = cleaner.emotes.replace_all(links_done.as_str(), "${1} emote");
    clean_resolved_content(emotes_done.as_str(), message, guild)
}

/// [`clean_message_content`] where the message can be cleaned; `None`
/// exactly where a channel mention in the shortened text names no channel id.
pub fn try_clean_message_content(cleaner: &MessageCleaner, message: &MessageInfo, guild: &GuildInfo) -> (r: Option<String>)
    ensures
        r is Some <==> cleanable(shortened(message.content@, cleaner@), *message, *guild),
        r matches Some(s) ==> s@ == cleaned(shortened(message.content@, cleaner@), *message, *guild),
{
    let links_done = cleaner.links.replace_all(message.content.as_str(), "${3} link");
    let emotes_done = cleaner.emotes.replace_all(links_done.as_str(), "${1} emote");
    if is_cleanable(emotes_done.as_str(), message, guild) {
        Some(clean_message_content(cleaner, message, guild))
    } else {
        None
    }
}

/// `s` holds no `<`.
pub open spec fn has_no_angle(s: Seq<char>) -> bool {
    forall|i: int| 0 <= i < s.len() ==> s[i] != '<'
}

proof fn lemma_angle_pattern_absent(s: Seq<char>, pat: Seq<char>)
    requires
        has_no_angle(s),
        pat.len() > 0,
        pat[0] == '<',
    ensures
        !occurs_in(s, pat),
{
    if exists|i: int| occurs_at(s, pat, i) {
        let i = choose|i: int| occurs_at(s, pat, i);
        assert(s.subrange(i, i + pat.len())[0] == s[i]);
    }
}

proof fn lemma_users_identity(text: Seq<char>, users: Seq<MentionedUser>, nicks: Map<u64, Option<String>>)
    requires
        has_no_angle(text),
    ensures
        users_replaced(text, users, nicks) == text,
    decreases users.len(),
{
    if users.len() > 0 {
        let u = users[0];
        lemma_angle_pattern_absent(text, user_mention(u.id));
        lemma_angle_pattern_absent(text, nick_mention(u.id));
        law_replace_absent(text, nick_mention(u.id), user_label(u, nicks));
        assert(user_step(text, u, nicks) == text);
        lemma_users_identity(text, users.drop_first(), nicks);
    }
}

proof fn lemma_roles_identity(text: Seq<char>, roles: Seq<u64>, names: Map<u64, String>)
    requires
        has_no_angle(text),
    ensures
        roles_replaced(text, roles, names) == text,
    decreases roles.len(),
{
    if roles.len() > 0 {
        let id = roles[0];
        lemma_angle_pattern_absent(text, role_mention(id));
        let label = if names.contains_key(id) {
            at_name(names[id]@)
        } else {
            "@deleted-role"@
        };
        law_replace_absent(text, role_mention(id), label);
        lemma_roles_identity(text, roles.drop_first(), names);
    }
}

proof fn lemma_named_identity(text: Seq<char>, named: Seq<MentionedChannel>)
    requires
        has_no_angle(text),
    ensures
        named_channels_replaced(text, named) == text,
    decreases named.len(),
{
    if named.len() > 0 {
        lemma_angle_pattern_absent(text, channel_mention(named[0].id));
        law_replace_absent(text, channel_mention(named[0].id), named[0].name@);
        lemma_named_identity(text, named.drop_first());
    }
}

proof fn lemma_no_channel_mentions(s: Seq<char>, i: int)
    requires
        has_no_angle(s),
    ensures
        channel_mentions_from(s, i) == Seq::<Seq<char>>::empty(),
    decreases s.len() - i,
{
    if 0 <= i < s.len() {
        assert(mention_end(s, i) is None);
        lemma_no_channel_mentions(s, i + 1);
    }
}

/// A message text with no `<` and neither `owo` nor `uwu` in it comes out
/// of cleaning unchanged, whatever the message mentions and whatever the
/// guild holds.
pub proof fn law_plain_text_unchanged(text: Seq<char>, message: MessageInfo, guild: GuildInfo)
    requires
        has_no_angle(text),
        !occurs_in(text, "owo"@),
        !occurs_in(text, "uwu"@),
    ensures
        cleanable(text, message, guild),
        cleaned(text, message, guild) == text,
{
    lemma_users_identity(text, message.mentions@, guild.member_nicks@);
    lemma_roles_identity(text, message.mention_roles@, guild.role_names@);
    assert(mentions_resolved(text, message, guild) == text);
    lemma_no_channel_mentions(text, 0);
    assert(channels_replaced(text, channel_mentions(text), guild.channels@) == text);
    lemma_named_identity(text, message.mention_channels@);
    law_replace_absent(text, "owo"@, "ohwo"@);
    law_replace_absent(text, "uwu"@, "oowoo"@);
}


/// A text free of the two emoticons, followed by characters none of which
/// is `o`, `w` or `u`, is not changed by spelling the emoticons out.
proof fn lemma_soften_concat(a: Seq<char>, b: Seq<char>)
    requires
        !occurs_in(a, "owo"@),
        !occurs_in(a, "uwu"@),
        forall|j: int| 0 <= j < b.len() ==> b[j] != 'o' && b[j] != 'w' && b[j] != 'u',
    ensures
        softened(a + b) == a + b,
{
    reveal_strlit("owo");
    reveal_strlit("uwu");
    reveal_strlit("ohwo");
    reveal_strlit("oowoo");
    lemma_no_occurrence_concat(a, b, "owo"@);
    lemma_no_occurrence_concat(a, b, "uwu"@);
    law_replace_absent(a + b, "owo"@, "ohwo"@);
    law_replace_absent(a + b, "uwu"@, "oowoo"@);
}

/// A message that is a single channel mention `<#id>`, for any id from 1 to
/// `u64::MAX`, can always be cleaned: it becomes the channel's name and
/// ` channel` where the guild has that channel (and its name has no
/// emoticon), stays as it is for a channel of another kind, and becomes
/// `deleted channel` where the guild has no such channel.
pub proof fn law_channel_mention_cleaned(id: u64, message: MessageInfo, guild: GuildInfo)
    requires
        id >= 1,
        message.mentions@.len() == 0,
        message.mention_roles@.len() == 0,
        message.mention_channels@.len() == 0,
    ensures
        cleanable(channel_mention(id), message, guild),
        !guild.channels@.contains_key(id) ==> cleaned(channel_mention(id), message, guild)
            == "deleted channel"@,
        guild.channels@.contains_key(id) && guild.channels@[id] is None ==> cleaned(
            channel_mention(id),
            message,
            guild,
        ) == channel_mention(id),
        guild.channels@.contains_key(id) && guild.channels@[id] is Some && !occurs_in(
            guild.channels@[id].unwrap()@,
            "owo"@,
        ) && !occurs_in(guild.channels@[id].unwrap()@, "uwu"@) ==> cleaned(
            channel_mention(id),
            message,
            guild,
        ) == guild.channels@[id].unwrap()@ + " channel"@,
{
    let t = channel_mention(id);
    let d = decimal(id as nat);
    law_channel_mention_read_back(id);
    law_decimal_round_trip(id as nat);
    assert(users_replaced(t, message.mentions@, guild.member_nicks@) == t);
    assert(roles_replaced(t, message.mention_roles@, guild.role_names@) == t);
    assert(mentions_resolved(t, message, guild) == t);
    let found = channel_mentions(t);
    assert(found == seq![d]);
    assert(digits_value(found[0]) == id);
    assert(channel_ids_valid(found));
    assert(found.drop_first().len() == 0);
    let x = channel_step(t, found[0], guild.channels@);
    assert(channels_replaced(t, found, guild.channels@) == channels_replaced(x, found.drop_first(), guild.channels@));
    assert(channels_replaced(x, found.drop_first(), guild.channels@) == x);
    assert(channels_replaced(t, found, guild.channels@) == channel_step(t, d, guild.channels@));
    assert(seq!['<', '#'] + d + seq!['>'] == t);
    law_replace_whole(t, "deleted channel"@);
    let after = channel_step(t, d, guild.channels@);
    assert(named_channels_replaced(after, message.mention_channels@) == after);
    reveal_strlit("deleted channel");
    reveal_strlit(" channel");
    reveal_strlit("owo");
    reveal_strlit("uwu");
    assert(!occurs_in(Seq::<char>::empty(), "owo"@));
    assert(!occurs_in(Seq::<char>::empty(), "uwu"@));
    if !guild.channels@.contains_key(id) {
        lemma_soften_concat(Seq::<char>::empty(), "deleted channel"@);
        assert(Seq::<char>::empty() + "deleted channel"@ =~= "deleted channel"@);
    } else {
        match guild.channels@[id] {
            Some(name) => {
                law_replace_whole(t, name@ + " channel"@);
                if !occurs_in(name@, "owo"@) && !occurs_in(name@, "uwu"@) {
                    lemma_soften_concat(name@, " channel"@);
                }
            },
            None => {
                assert forall|j: int| 0 <= j < t.len() implies t[j] != 'o' && t[j] != 'w' && t[j]
                    != 'u' by {
                    if 2 <= j < 2 + d.len() {
                        assert(t[j] == d[j - 2]);
                        assert(is_digit(d[j - 2]));
                    }
                }
                reveal_strlit("owo");
                reveal_strlit("uwu");
                assert(!occurs_in(Seq::<char>::empty(), "owo"@));
                assert(!occurs_in(Seq::<char>::empty(), "uwu"@));
                lemma_soften_concat(Seq::<char>::empty(), t);
                assert(Seq::<char>::empty() + t =~= t);
            },
        }
    }
}


/// Putting one character that is not the pattern's first before a text does
/// not make the pattern occur.
proof fn lemma_no_occurrence_after_char(c: char, n: Seq<char>, pat: Seq<char>)
    requires
        pat.len() > 0,
        pat[0] != c,
        !occurs_in(n, pat),
    ensures
        !occurs_in(seq![c] + n, pat),
{
    let t = seq![c] + n;
    if exists|i: int| occurs_at(t, pat, i) {
        let i = choose|i: int| occurs_at(t, pat, i);
        assert(t.subrange(i, i + pat.len())[0] == t[i]);
        if i == 0 {
            assert(t[0] == c);
        } else {
            assert(t.subrange(i, i + pat.len()) =~= n.subrange(i - 1, i - 1 + pat.len()));
            assert(occurs_at(n, pat, i - 1));
        }
    }
}

/// What the rest of cleaning does to `@` and a name free of `<` and of the
/// emoticons, with nothing else mentioned: nothing.
proof fn lemma_label_survives(label: Seq<char>, n: Seq<char>)
    requires
        label == seq!['@'] + n,
        has_no_angle(n),
        !occurs_in(n, "owo"@),
        !occurs_in(n, "uwu"@),
    ensures
        has_no_angle(label),
        channel_mentions(label) == Seq::<Seq<char>>::empty(),
        softened(label) == label,
{
    reveal_strlit("owo");
    reveal_strlit("uwu");
    reveal_strlit("ohwo");
    reveal_strlit("oowoo");
    assert(has_no_angle(label)) by {
        assert forall|i: int| 0 <= i < label.len() implies label[i] != '<' by {
            if i > 0 {
                assert(label[i] == n[i - 1]);
            }
        }
    }
    lemma_no_channel_mentions(label, 0);
    lemma_no_occurrence_after_char('@', n, "owo"@);
    lemma_no_occurrence_after_char('@', n, "uwu"@);
    law_replace_absent(label, "owo"@, "ohwo"@);
    law_replace_absent(label, "uwu"@, "oowoo"@);
}

/// A message that is a single user mention, plain `<@id>` or in nickname
/// form `<@!id>`, of the one user it mentions, becomes `@` and the user's
/// nickname in the guild where the user has one, else `@` and the user's
/// name (names free of `<` and of the emoticons).
pub proof fn law_user_mention_cleaned(user: MentionedUser, nick_form: bool, message: MessageInfo, guild: GuildInfo)
    requires
        message.mentions@ == seq![user],
        message.mention_roles@.len() == 0,
        message.mention_channels@.len() == 0,
        has_no_angle(user.name@),
        !occurs_in(user.name@, "owo"@),
        !occurs_in(user.name@, "uwu"@),
        guild.member_nicks@.contains_key(user.id) && guild.member_nicks@[user.id] is Some ==> {
            let nick = guild.member_nicks@[user.id].unwrap()@;
            has_no_angle(nick) && !occurs_in(nick, "owo"@) && !occurs_in(nick, "uwu"@)
        },
    ensures
        ({
            let text = if nick_form { nick_mention(user.id) } else { user_mention(user.id) };
            let name = if guild.member_nicks@.contains_key(user.id) && guild.member_nicks@[user.id] is Some {
                guild.member_nicks@[user.id].unwrap()@
            } else {
                user.name@
            };
            &&& cleanable(text, message, guild)
            &&& cleaned(text, message, guild) == seq!['@'] + name
        }),
{
    let text = if nick_form { nick_mention(user.id) } else { user_mention(user.id) };
    let name = if guild.member_nicks@.contains_key(user.id) && guild.member_nicks@[user.id] is Some {
        guild.member_nicks@[user.id].unwrap()@
    } else {
        user.name@
    };
    let label = user_label(user, guild.member_nicks@);
    assert(label == seq!['@'] + name);
    let d = decimal(user.id as nat);
    law_decimal_round_trip(user.id as nat);
    let um = user_mention(user.id);
    if nick_form {
        assert(!occurs_in(text, um)) by {
            if exists|i: int| occurs_at(text, um, i) {
                let i = choose|i: int| occurs_at(text, um, i);
                assert(text.subrange(i, i + um.len())[0] == text[i]);
                if i == 0 {
                    assert(text.subrange(0, um.len() as int)[2] == text[2]);
                    assert(um[2] == d[0]);
                    assert(is_digit(d[0]));
                } else if i < 3 {
                } else if i < 3 + d.len() {
                    assert(text[i] == d[i - 3]);
                    assert(is_digit(d[i - 3]));
                } else {
                }
            }
        }
    } else {
        assert(text.subrange(0, um.len() as int) =~= um);
        assert(occurs_at(text, um, 0));
    }
    law_replace_whole(text, label);
    assert(user_step(text, user, guild.member_nicks@) == label);
    assert(message.mentions@.drop_first() =~= Seq::<MentionedUser>::empty());
    assert(users_replaced(text, message.mentions@, guild.member_nicks@) == users_replaced(label, message.mentions@.drop_first(), guild.member_nicks@));
    lemma_label_survives(label, name);
    assert(roles_replaced(label, message.mention_roles@, guild.role_names@) == label);
    assert(mentions_resolved(text, message, guild) == label);
    assert(channels_replaced(label, channel_mentions(label), guild.channels@) == label);
    assert(named_channels_replaced(label, message.mention_channels@) == label);
}

/// A message that is a single role mention `<@&id>` of the role it mentions
/// becomes `@` and the role's name where the role is known (a name free of
/// `<` and of the emoticons), else `@deleted-role`.
pub proof fn law_role_mention_cleaned(id: u64, message: MessageInfo, guild: GuildInfo)
    requires
        message.mentions@.len() == 0,
        message.mention_roles@ == seq![id],
        message.mention_channels@.len() == 0,
        guild.role_names@.contains_key(id) ==> {
            let n = guild.role_names@[id]@;
            has_no_angle(n) && !occurs_in(n, "owo"@) && !occurs_in(n, "uwu"@)
        },
    ensures
        cleanable(role_mention(id), message, guild),
        cleaned(role_mention(id), message, guild) == (if guild.role_names@.contains_key(id) {
            seq!['@'] + guild.role_names@[id]@
        } else {
            seq!['@', 'd', 'e', 'l', 'e', 't', 'e', 'd', '-', 'r', 'o', 'l', 'e']
        }),
{
    reveal_strlit("@deleted-role");
    let text = role_mention(id);
    let n = if guild.role_names@.contains_key(id) {
        guild.role_names@[id]@
    } else {
        seq!['d', 'e', 'l', 'e', 't', 'e', 'd', '-', 'r', 'o', 'l', 'e']
    };
    let label = seq!['@'] + n;
    if !guild.role_names@.contains_key(id) {
        assert("@deleted-role"@ =~= label);
        reveal_strlit("owo");
        reveal_strlit("uwu");
        assert(!occurs_in(n, "owo"@)) by {
            if exists|i: int| occurs_at(n, "owo"@, i) {
                let i = choose|i: int| occurs_at(n, "owo"@, i);
                assert(n.subrange(i, i + 3)[1] == n[i + 1]);
            }
        }
        assert(!occurs_in(n, "uwu"@)) by {
            if exists|i: int| occurs_at(n, "uwu"@, i) {
                let i = choose|i: int| occurs_at(n, "uwu"@, i);
                assert(n.subrange(i, i + 3)[0] == n[i]);
            }
        }
    }
    law_replace_whole(text, label);
    assert(role_step(text, id, guild.role_names@) == label);
    assert(users_replaced(text, message.mentions@, guild.member_nicks@) == text);
    assert(message.mention_roles@.drop_first() =~= Seq::<u64>::empty());
    assert(roles_replaced(text, message.mention_roles@, guild.role_names@) == roles_replaced(label, message.mention_roles@.drop_first(), guild.role_names@));
    lemma_label_survives(label, n);
    assert(roles_replaced(label, message.mention_roles@.drop_first(), guild.role_names@) == label);
    assert(mentions_resolved(text, message, guild) == label);
    assert(channels_replaced(label, channel_mentions(label), guild.channels@) == label);
    assert(named_channels_replaced(label, message.mention_channels@) == label);
}


/// A text without mentions only has its emoticons spelled out: every
/// `owo` becomes `ohwo`, then every `uwu` becomes `oowoo`.
pub proof fn law_emoticons_spelled_out(text: Seq<char>, message: MessageInfo, guild: GuildInfo)
    requires
        has_no_angle(text),
    ensures
        cleanable(text, message, guild),
        cleaned(text, message, guild) == replaced(
            replaced(text, seq!['o', 'w', 'o'], seq!['o', 'h', 'w', 'o']),
            seq!['u', 'w', 'u'],
            seq!['o', 'o', 'w', 'o', 'o'],
        ),
{
    reveal_strlit("owo");
    reveal_strlit("uwu");
    reveal_strlit("ohwo");
    reveal_strlit("oowoo");
    assert("owo"@ =~= seq!['o', 'w', 'o']);
    assert("uwu"@ =~= seq!['u', 'w', 'u']);
    assert("ohwo"@ =~= seq!['o', 'h', 'w', 'o']);
    assert("oowoo"@ =~= seq!['o', 'o', 'w', 'o', 'o']);
    lemma_users_identity(text, message.mentions@, guild.member_nicks@);
    lemma_roles_identity(text, message.mention_roles@, guild.role_names@);
    lemma_no_channel_mentions(text, 0);
    assert(channels_replaced(text, channel_mentions(text), guild.channels@) == text);
    lemma_named_identity(text, message.mention_channels@);
}

} // verus!
