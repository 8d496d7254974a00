//! The starboard: a message that gets a ⭐ reaction is reposted as an
//! embed in the guild's starboard channel.

use vstd::prelude::*;
use vstd::string::StringExecFns;
use crate::text::{chars_of, decimal, decimal_of, push_all, same_chars, string_of};
use crate::mention::{user_mention, user_mention_of};

verus! {

/// Whether a reaction's unicode emoji is the star `⭐`.
pub fn is_star_emoji(emoji: &str) -> (b: bool)
    ensures
        b == (emoji@ == "⭐"@),
{
    same_chars(&chars_of(emoji), &chars_of("⭐"))
}

/// A channel name that marks the starboard.
pub open spec fn is_board_name(name: Seq<char>) -> bool {
    name == "starboard"@ || name == "cool-messages"@
}

/// The first of the channel `names` that marks the starboard.
pub fn starboard_channel(names: &Vec<String>) -> (r: Option<usize>)
    ensures
        r matches Some(i) ==> i < names@.len() && is_board_name(names@[i as int]@) && forall|j: int|
            0 <= j < i ==> !is_board_name(#[trigger] names@[j]@),
        r is None ==> forall|j: int| 0 <= j < names@.len() ==> !is_board_name(#[trigger] names@[j]@),
{
    let board = chars_of("starboard");
    let cool = chars_of("cool-messages");
    let mut i: usize = 0;
    while i < names.len()
        invariant
            i <= names.len(),
            board@ == "starboard"@,
            cool@ == "cool-messages"@,
            forall|j: int| 0 <= j < i ==> !is_board_name(#[trigger] names@[j]@),
        decreases names.len() - i,
    {
        let n = chars_of(names[i].as_str());
        if same_chars(&n, &board) || same_chars(&n, &cool) {
            return Some(i);
        }
        i = i + 1;
    }
    None
}

/// What the starboard reads of the starred message.
pub struct StarredMessage {
    pub id: u64,
    pub channel_id: u64,
    pub author_name: String,
    /// The author's avatar URL.
    pub author_face: String,
    pub content: String,
    /// The URL of the message's first attachment, if it has one.
    pub first_attachment_url: Option<String>,
    /// The description of the message's first embed, if it has an embed with one.
    pub first_embed_description: Option<String>,
}

/// The user who starred the message.
pub struct Submitter {
    /// The user's tag, as Discord shows it.
    pub tag: String,
    pub id: u64,
}

/// A field of an embed.
pub struct EmbedField {
    pub name: String,
    pub value: String,
    pub inline: bool,
}

/// The embed reposted to the starboard. Its timestamp is the starred
/// message's own.
pub struct StarEmbed {
    pub author_name: String,
    pub image_url: String,
    pub description: Option<String>,
    pub footer: String,
    pub fields: Vec<EmbedField>,
    pub color: u32,
}

/// The link that opens message `message` of channel `channel` in guild `guild`.
pub open spec fn message_link(guild: u64, channel: u64, message: u64) -> Seq<char> {
    "https://discord.com/channels/"@ + decimal(guild as nat) + "/"@ + decimal(channel as nat) + "/"@
        + decimal(message as nat)
}

/// The fields of the starboard embed, as (name, value, inline).
pub open spec fn star_fields(msg: StarredMessage, guild: u64, submitter: Option<Submitter>) -> Seq<(Seq<char>, Seq<char>, bool)> {
    let embed: Seq<(Seq<char>, Seq<char>, bool)> = match msg.first_embed_description {
        Some(d) => seq![("Embed"@, "> "@ + d@, false)],
        None => Seq::empty(),
    };
    let link = seq![("Quick Link"@, "[Click Here]("@ + message_link(guild, msg.channel_id, msg.id) + ")"@, true)];
    let sub: Seq<(Seq<char>, Seq<char>, bool)> = match submitter {
        Some(s) => seq![("Submitter"@, s.tag@ + " ("@ + user_mention(s.id) + ")"@, true)],
        None => Seq::empty(),
    };
    embed + link + sub
}

/// A field as (name, value, inline).
pub open spec fn field_view(f: EmbedField) -> (Seq<char>, Seq<char>, bool) {
    (f.name@, f.value@, f.inline)
}

/// The starboard's gold.
pub const STAR_COLOR: u32 = 16765448;

/// A text made of the given pieces of characters.
fn join3(a: &str, b: &Vec<char>, c: &str) -> (s: String)
    ensures
        s@ == a@ + b@ + c@,
{
    let mut v = chars_of(a);
    push_all(&mut v, b);
    push_all(&mut v, &chars_of(c));
    string_of(&v)
}

/// The embed that reposts `msg`, starred in guild `guild` by `submitter`
/// (where the starring user could be fetched): the author's name; the first
/// attachment as image, else the author's avatar; the content as
/// description where it is not empty; the message id as footer; then the
/// fields of [`star_fields`]; the starboard's color.
pub fn build_star_embed(msg: &StarredMessage, guild: u64, submitter: &Option<Submitter>) -> (e: StarEmbed)
    ensures
        e.author_name@ == msg.author_name@,
        e.image_url@ == (match msg.first_attachment_url {
            Some(u) => u@,
            None => msg.author_face@,
        }),
        e.description matches Some(d) ==> d@ == msg.content@,
        e.description is Some <==> msg.content@.len() > 0,
        e.footer@ == decimal(msg.id as nat),
        e.fields@.map_values(|f: EmbedField| field_view(f)) == star_fields(*msg, guild, *submitter),
        e.color == STAR_COLOR,
{
    let image_url = match &msg.first_attachment_url {
        Some(u) => u.clone(),
        None => msg.author_face.clone(),
    };
    let description = if !msg.content.as_str().is_empty() { Some(msg.content.clone()) } else { None };
    let mut fields: Vec<EmbedField> = Vec::new();
    match &msg.first_embed_description {
        Some(d) => {
            fields.push(EmbedField { name: String::from_str("Embed"), value: join3("> ", &chars_of(d.as_str()), ""), inline: false });
        },
        None => {},
    }
    let mut link = chars_of("https://discord.com/channels/");
    push_all(&mut link, &decimal_of(guild));
    push_all(&mut link, &chars_of("/"));
    push_all(&mut link, &decimal_of(msg.channel_id));
    push_all(&mut link, &chars_of("/"));
    push_all(&mut link, &decimal_of(msg.id));
    fields.push(EmbedField { name: String::from_str("Quick Link"), value: join3("[Click Here](", &link, ")"), inline: true });
    match submitter {
        Some(s) => {
            let mut who = chars_of(s.tag.as_str());
            push_all(&mut who, &chars_of(" ("));
            push_all(&mut who, &user_mention_of(s.id));
            fields.push(EmbedField { name: String::from_str("Submitter"), value: join3("", &who, ")"), inline: true });
        },
        None => {},
    }
    proof {
        reveal_strlit("");
        assert(fields@.map_values(|f: EmbedField| field_view(f)) =~= star_fields(*msg, guild, *submitter));
    }
    StarEmbed {
        author_name: msg.author_name.clone(),
        image_url,
        description,
        footer: string_of(&decimal_of(msg.id)),
        fields,
        color: STAR_COLOR,
    }
}


/// The fields of the starboard embed, whoever starred: an `Embed` field
/// first exactly when the message has an embed description, then the link
/// to the message; and where the starring user is known, one more field
/// naming them last, whatever the message holds.
pub proof fn law_star_fields(msg: StarredMessage, guild: u64, submitter: Submitter)
    ensures
        ({
            let without = star_fields(msg, guild, None);
            let with = star_fields(msg, guild, Some(submitter));
            &&& with == without.push(
                (
                    "Submitter"@,
                    submitter.tag@ + seq![' ', '(', '<', '@'] + decimal(submitter.id as nat) + seq![
                        '>',
                        ')',
                    ],
                    true,
                ),
            )
            &&& without.len() == (if msg.first_embed_description is Some { 2int } else { 1int })
            &&& without.last() == (
                "Quick Link"@,
                "[Click Here](https://discord.com/channels/"@ + decimal(guild as nat) + seq!['/']
                    + decimal(msg.channel_id as nat) + seq!['/'] + decimal(msg.id as nat) + seq![
                    ')',
                ],
                true,
            )
            &&& msg.first_embed_description matches Some(d) ==> without[0] == (
                "Embed"@,
                seq!['>', ' '] + d@,
                false,
            )
        }),
{
    reveal_strlit(" (");
    reveal_strlit(")");
    reveal_strlit("/");
    reveal_strlit("> ");
    reveal_strlit("[Click Here](");
    reveal_strlit("https://discord.com/channels/");
    reveal_strlit("[Click Here](https://discord.com/channels/");
    assert("[Click Here]("@ + "https://discord.com/channels/"@ =~= "[Click Here](https://discord.com/channels/"@);
    let without = star_fields(msg, guild, None);
    let with = star_fields(msg, guild, Some(submitter));
    assert(submitter.tag@ + " ("@ + user_mention(submitter.id) + ")"@ =~= submitter.tag@ + seq![
        ' ',
        '(',
        '<',
        '@',
    ] + decimal(submitter.id as nat) + seq!['>', ')']);
    assert(with =~= without.push(
        (
            "Submitter"@,
            submitter.tag@ + seq![' ', '(', '<', '@'] + decimal(submitter.id as nat) + seq!['>', ')'],
            true,
        ),
    ));
    assert("[Click Here]("@ + message_link(guild, msg.channel_id, msg.id) + ")"@ =~= "[Click Here](https://discord.com/channels/"@
        + decimal(guild as nat) + seq!['/'] + decimal(msg.channel_id as nat) + seq!['/'] + decimal(
        msg.id as nat,
    ) + seq![')']);
    match msg.first_embed_description {
        Some(d) => {
            assert("> "@ + d@ =~= seq!['>', ' '] + d@);
        },
        None => {},
    }
}


/// The starboard is the channel named `starboard` or `cool-messages`, and
/// no other.
pub proof fn law_board_names(name: Seq<char>)
    ensures
        is_board_name(name) <==> (name == seq!['s', 't', 'a', 'r', 'b', 'o', 'a', 'r', 'd'] || name
            == seq!['c', 'o', 'o', 'l', '-', 'm', 'e', 's', 's', 'a', 'g', 'e', 's']),
{
    reveal_strlit("starboard");
    reveal_strlit("cool-messages");
    assert("starboard"@ =~= seq!['s', 't', 'a', 'r', 'b', 'o', 'a', 'r', 'd']);
    assert("cool-messages"@ =~= seq!['c', 'o', 'o', 'l', '-', 'm', 'e', 's', 's', 'a', 'g', 'e', 's']);
}

} // verus!
