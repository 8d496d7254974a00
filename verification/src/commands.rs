//! How the bot answers chat messages and gateway events: which messages are
//! deleted, how a command is read out of a message, and what each command
//! does to a guild's state and answers.

use vstd::prelude::*;
use vstd::string::StringExecFns;
use crate::text::{
    chars_of, decimal, decimal_of, law_decimal_round_trip, lemma_split_nonempty, lemma_split_whole, parse_u16, parsed_u16, push_all,
    same_chars, split, split_chars, string_of,
};
use crate::guild::{guild_or_fresh, GuildRegistry, GuildView};

verus! {

/// Messages deleted on sight: exactly `L` or `l`.
pub open spec fn blacklisted(content: Seq<char>) -> bool {
    content == "L"@ || content == "l"@
}

/// Whether a message with this content is deleted on sight.
pub fn is_blacklisted(content: &str) -> (b: bool)
    ensures
        b == blacklisted(content@),
{
    let c = chars_of(content);
    same_chars(&c, &chars_of("L")) || same_chars(&c, &chars_of("l"))
}

/// The prefix that marks a command.
pub open spec fn command_prefix() -> Seq<char> {
    "d."@
}

/// A command read out of a message: its name and its arguments.
pub struct ParsedCommand {
    pub name: String,
    pub arguments: Vec<String>,
}

/// The pieces of a command message after the prefix, split at spaces.
pub open spec fn command_pieces(content: Seq<char>) -> Seq<Seq<char>> {
    split(content.skip(2), ' ')
}

/// Whether `content` starts with the command prefix.
pub open spec fn is_command(content: Seq<char>) -> bool {
    content.len() >= 2 && content.take(2) == command_prefix()
}

/// The command in a message: `None` where it does not start with `d.`;
/// else the text after the prefix split at every space, the first piece
/// being the name and the others the arguments (empty ones included).
pub fn parse_command(content: &str) -> (r: Option<ParsedCommand>)
    ensures
        r is Some <==> is_command(content@),
        r matches Some(p) ==> {
            &&& p.name@ == command_pieces(content@)[0]
            &&& p.arguments@.len() + 1 == command_pieces(content@).len()
            &&& forall|k: int|
                0 <= k < p.arguments@.len() ==> #[trigger] p.arguments@[k]@ == command_pieces(
                    content@,
                )[k + 1]
        },
{
    proof {
        reveal_strlit("d.");
    }
    let c = chars_of(content);
    if c.len() < 2 || c[0] != 'd' || c[1] != '.' {
        assert(!is_command(content@)) by {
            if content@.len() >= 2 && content@.take(2) == command_prefix() {
                assert(content@.take(2)[0] == 'd');
                assert(content@.take(2)[1] == '.');
            }
        }
        return None;
    }
    assert(content@.take(2) =~= command_prefix());
    let mut rest: Vec<char> = Vec::new();
    let mut k: usize = 2;
    while k < c.len()
        invariant
            2 <= k <= c.len(),
            rest@ == c@.subrange(2, k as int),
        decreases c.len() - k,
    {
        rest.push(c[k]);
        assert(c@.subrange(2, k as int).push(c@[k as int]) =~= c@.subrange(2, k + 1));
        k = k + 1;
    }
    assert(rest@ =~= content@.skip(2));
    let pieces = split_chars(&rest, ' ');
    proof {
        lemma_split_nonempty(rest@, ' ');
    }
    let name = string_of(&pieces[0]);
    let mut arguments: Vec<String> = Vec::new();
    let mut i: usize = 1;
    while i < pieces.len()
        invariant
            1 <= i <= pieces.len(),
            pieces@.len() == command_pieces(content@).len(),
            forall|j: int| 0 <= j < pieces@.len() ==> #[trigger] pieces@[j]@ == command_pieces(content@)[j],
            arguments@.len() + 1 == i,
            forall|j: int| 0 <= j < arguments@.len() ==> #[trigger] arguments@[j]@ == command_pieces(content@)[j + 1],
        decreases pieces.len() - i,
    {
        arguments.push(string_of(&pieces[i]));
        i = i + 1;
    }
    Some(ParsedCommand { name, arguments })
}

/// The commands the bot knows.
pub enum Command {
    Join,
    Help,
    Feedback,
    Record,
    Stop,
    Leave,
    Inspiration,
    Read,
    Volume,
    /// Any other name.
    Other,
}

/// The command a name stands for.
pub open spec fn command_named(name: Seq<char>) -> Command {
    if name == "join"@ {
        Command::Join
    } else if name == "help"@ {
        Command::Help
    } else if name == "feedback"@ {
        Command::Feedback
    } else if name == "record"@ {
        Command::Record
    } else if name == "stop"@ {
        Command::Stop
    } else if name == "leave"@ {
        Command::Leave
    } else if name == "inspiration"@ {
        Command::Inspiration
    } else if name == "read"@ {
        Command::Read
    } else if name == "volume"@ {
        Command::Volume
    } else {
        Command::Other
    }
}

/// The command a name stands for.
pub fn command_of(name: &str) -> (c: Command)
    ensures
        c == command_named(name@),
{
    let n = chars_of(name);
    if same_chars(&n, &chars_of("join")) {
        Command::Join
    } else if same_chars(&n, &chars_of("help")) {
        Command::Help
    } else if same_chars(&n, &chars_of("feedback")) {
        Command::Feedback
    } else if same_chars(&n, &chars_of("record")) {
        Command::Record
    } else if same_chars(&n, &chars_of("stop")) {
        Command::Stop
    } else if same_chars(&n, &chars_of("leave")) {
        Command::Leave
    } else if same_chars(&n, &chars_of("inspiration")) {
        Command::Inspiration
    } else if same_chars(&n, &chars_of("read")) {
        Command::Read
    } else if same_chars(&n, &chars_of("volume")) {
        Command::Volume
    } else {
        Command::Other
    }
}


/// What becomes of a chat message once it was offered for speech.
pub enum MessageRoute {
    /// Nothing more happens.
    Ignore,
    /// The message is deleted.
    Delete,
    /// The message is this command.
    Command(ParsedCommand),
}

/// Where a message goes after the speech check: messages outside guilds
/// are ignored, blacklisted ones deleted, those with the prefix read as a
/// command, and all others ignored.
pub fn route_message(in_guild: bool, content: &str) -> (r: MessageRoute)
    ensures
        !in_guild ==> r is Ignore,
        in_guild && blacklisted(content@) ==> r is Delete,
        in_guild && !blacklisted(content@) && is_command(content@) ==> r is Command,
        in_guild && !blacklisted(content@) && !is_command(content@) ==> r is Ignore,
        r matches MessageRoute::Command(p) ==> {
            &&& p.name@ == command_pieces(content@)[0]
            &&& p.arguments@.len() + 1 == command_pieces(content@).len()
            &&& forall|k: int|
                0 <= k < p.arguments@.len() ==> #[trigger] p.arguments@[k]@ == command_pieces(
                    content@,
                )[k + 1]
        },
{
    if !in_guild {
        return MessageRoute::Ignore;
    }
    if is_blacklisted(content) {
        return MessageRoute::Delete;
    }
    match parse_command(content) {
        Some(p) => MessageRoute::Command(p),
        None => MessageRoute::Ignore,
    }
}

/// What a command asks for before the bot's voice connection is consulted.
pub enum Step {
    Nothing,
    Reply(String),
    Join,
    Leave,
    Inspiration,
    ToggleRead,
    SetVolume(u16),
}

/// [`Step`] with replies as character sequences.
pub enum StepView {
    Nothing,
    Reply(Seq<char>),
    Join,
    Leave,
    Inspiration,
    ToggleRead,
    SetVolume(u16),
}

impl View for Step {
    type V = StepView;

    open spec fn view(&self) -> StepView {
        match self {
            Step::Nothing => StepView::Nothing,
            Step::Reply(t) => StepView::Reply(t@),
            Step::Join => StepView::Join,
            Step::Leave => StepView::Leave,
            Step::Inspiration => StepView::Inspiration,
            Step::ToggleRead => StepView::ToggleRead,
            Step::SetVolume(v) => StepView::SetVolume(*v),
        }
    }
}

/// What the command with this name and these arguments asks for. The
/// volume command checks its argument here, before any voice check.
pub open spec fn planned(name: Seq<char>, args: Seq<Seq<char>>) -> StepView {
    match command_named(name) {
        Command::Join => StepView::Join,
        Command::Help => StepView::Reply("You have been helped!"@),
        Command::Feedback => StepView::Reply("You have given feedback! into the void lmao"@),
        Command::Leave => StepView::Leave,
        Command::Inspiration => StepView::Inspiration,
        Command::Read => StepView::ToggleRead,
        Command::Volume => if args.len() == 0 {
            StepView::Reply("You must provide the new volume level"@)
        } else {
            match parsed_u16(args[0]) {
                Some(v) => StepView::SetVolume(v),
                None => StepView::Reply("You must provide a valid number"@),
            }
        },
        _ => StepView::Nothing,
    }
}

/// What a parsed command asks for.
pub fn plan_command(command: &ParsedCommand) -> (s: Step)
    ensures
        s@ == planned(command.name@, command.arguments@.map_values(|a: String| a@)),
{
    let ghost args = command.arguments@.map_values(|a: String| a@);
    match command_of(command.name.as_str()) {
        Command::Join => Step::Join,
        Command::Help => Step::Reply(String::from_str("You have been helped!")),
        Command::Feedback => Step::Reply(String::from_str("You have given feedback! into the void lmao")),
        Command::Leave => Step::Leave,
        Command::Inspiration => Step::Inspiration,
        Command::Read => Step::ToggleRead,
        Command::Volume => {
            if command.arguments.len() == 0 {
                Step::Reply(String::from_str("You must provide the new volume level"))
            } else {
                assert(args[0] == command.arguments@[0]@);
                match parse_u16(&chars_of(command.arguments[0].as_str())) {
                    Some(v) => Step::SetVolume(v),
                    None => Step::Reply(String::from_str("You must provide a valid number")),
                }
            }
        },
        _ => Step::Nothing,
    }
}

/// What the bot does once a step has met the guild's state.
pub enum Action {
    Nothing,
    /// Send this text to the channel of the command.
    Reply(String),
    /// Join the author's voice channel (see [`decide_join`]).
    Join,
    /// Leave the guild's voice channel and answer with [`leave_reply`].
    Leave,
}

/// [`Action`] with replies as character sequences.
pub enum ActionView {
    Nothing,
    Reply(Seq<char>),
    Join,
    Leave,
}

impl View for Action {
    type V = ActionView;

    open spec fn view(&self) -> ActionView {
        match self {
            Action::Nothing => ActionView::Nothing,
            Action::Reply(t) => ActionView::Reply(t@),
            Action::Join => ActionView::Join,
            Action::Leave => ActionView::Leave,
        }
    }
}

/// The answer to a command that needs the bot in a voice channel when it is not.
pub open spec fn not_in_voice() -> Seq<char> {
    "I must be in a voice channel first"@
}

/// The guilds' state after `step`, run for guild `guild` from channel
/// `channel` with the bot in a voice channel of the guild or not, and the
/// action that follows.
pub open spec fn step_effect(
    guilds: Map<u64, GuildView>,
    guild: u64,
    channel: u64,
    step: StepView,
    in_voice: bool,
) -> (Map<u64, GuildView>, ActionView) {
    let g = guild_or_fresh(guilds, guild);
    match step {
        StepView::Nothing => (guilds, ActionView::Nothing),
        StepView::Reply(t) => (guilds, ActionView::Reply(t)),
        StepView::Join => (guilds, ActionView::Join),
        StepView::Leave => if in_voice {
            (guilds, ActionView::Leave)
        } else {
            (guilds, ActionView::Reply(not_in_voice()))
        },
        StepView::Inspiration => if !in_voice {
            (guilds, ActionView::Reply(not_in_voice()))
        } else if g.inspiration {
            (
                guilds.insert(guild, GuildView { inspiration: false, ..g }),
                ActionView::Reply("Ending inspiration after current one."@),
            )
        } else {
            (
                guilds.insert(guild, GuildView { inspiration: true, ..g }),
                ActionView::Reply("Here comes some inspiration."@),
            )
        },
        StepView::ToggleRead => if !in_voice {
            (guilds, ActionView::Reply(not_in_voice()))
        } else if g.tts_channels.contains(channel) {
            (
                guilds.insert(guild, GuildView { tts_channels: g.tts_channels.remove(channel), ..g }),
                ActionView::Reply("Removed this channel from TTS"@),
            )
        } else {
            (
                guilds.insert(guild, GuildView { tts_channels: g.tts_channels.insert(channel), ..g }),
                ActionView::Reply("Added this channel to TTS"@),
            )
        },
        StepView::SetVolume(v) => if !in_voice {
            (guilds, ActionView::Reply(not_in_voice()))
        } else {
            (
                guilds.insert(guild, GuildView { volume: v, ..g }),
                ActionView::Reply("Successfully set TTS volume to "@ + decimal(v as nat)),
            )
        },
    }
}

/// Runs `step` for guild `guild` from channel `channel`; `in_voice` tells
/// whether the bot is in a voice channel of the guild. Guilds not known yet
/// are made fresh by the steps that change them.
pub fn perform_step(
    registry: &mut GuildRegistry,
    guild: u64,
    channel: u64,
    step: Step,
    in_voice: bool,
) -> (a: Action)
    ensures
        (final(registry)@, a@) == step_effect(old(registry)@, guild, channel, step@, in_voice),
{
    match step {
        Step::Nothing => Action::Nothing,
        Step::Reply(t) => Action::Reply(t),
        Step::Join => Action::Join,
        Step::Leave => {
            if in_voice {
                Action::Leave
            } else {
                Action::Reply(String::from_str("I must be in a voice channel first"))
            }
        },
        Step::Inspiration => {
            if !in_voice {
                return Action::Reply(String::from_str("I must be in a voice channel first"));
            }
            if registry.toggle_inspiration(guild) {
                Action::Reply(String::from_str("Here comes some inspiration."))
            } else {
                Action::Reply(String::from_str("Ending inspiration after current one."))
            }
        },
        Step::ToggleRead => {
            if !in_voice {
                return Action::Reply(String::from_str("I must be in a voice channel first"));
            }
            if registry.toggle_tts_channel(guild, channel) {
                Action::Reply(String::from_str("Added this channel to TTS"))
            } else {
                Action::Reply(String::from_str("Removed this channel from TTS"))
            }
        },
        Step::SetVolume(v) => {
            if !in_voice {
                return Action::Reply(String::from_str("I must be in a voice channel first"));
            }
            registry.set_volume(guild, v);
            let mut text = chars_of("Successfully set TTS volume to ");
            push_all(&mut text, &decimal_of(v as u64));
            Action::Reply(string_of(&text))
        },
    }
}

/// The answer after trying to leave the voice channel.
pub fn leave_reply(left: bool) -> (s: String)
    ensures
        s@ == (if left { "Left"@ } else { "Failed to leave"@ }),
{
    if left {
        String::from_str("Left")
    } else {
        String::from_str("Failed to leave")
    }
}


/// The first step of joining the author's voice channel.
pub enum JoinDecision {
    /// Answer with this text and stop.
    Reply(String),
    /// Connect to this voice channel.
    Connect(u64),
}

/// Whether and where to join: the author must be in a voice channel
/// (`author_channel`), the bot must be allowed to connect to it
/// (`can_connect`), and the bot must not be in it already (`bot_channel`).
/// The checks are made in that order; a later fact is not read where an
/// earlier check fails.
pub fn decide_join(author_channel: Option<u64>, can_connect: bool, bot_channel: Option<u64>) -> (d: JoinDecision)
    ensures
        match d {
            JoinDecision::Reply(t) => t@ == (match author_channel {
                None => "You must be in a voice channel"@,
                Some(c) => if !can_connect {
                    "I do not have permissions to join your channel"@
                } else {
                    "I am already in this channel!"@
                },
            }),
            JoinDecision::Connect(c) => author_channel == Some(c) && can_connect && bot_channel != Some(c),
        },
        d is Connect <==> (author_channel is Some && can_connect && bot_channel != author_channel),
{
    match author_channel {
        None => JoinDecision::Reply(String::from_str("You must be in a voice channel")),
        Some(c) => {
            if !can_connect {
                JoinDecision::Reply(String::from_str("I do not have permissions to join your channel"))
            } else if bot_channel == Some(c) {
                JoinDecision::Reply(String::from_str("I am already in this channel!"))
            } else {
                JoinDecision::Connect(c)
            }
        },
    }
}

/// What follows an attempt to join a voice channel.
pub struct JoinOutcome {
    pub reply: String,
    /// A speech worker must be started for the guild.
    pub start_worker: bool,
}

/// After an attempt to join the voice channel named `channel_name` of
/// guild `guild`: on success the guild's speech is started (a worker only
/// where none runs) and the bot says where it joined; on failure nothing
/// changes and the bot says so.
pub fn finish_join(registry: &mut GuildRegistry, guild: u64, joined: bool, channel_name: &str) -> (o: JoinOutcome)
    ensures
        joined ==> {
            &&& o.reply@ == "Successfully joined **"@ + channel_name@ + "**"@
            &&& o.start_worker == !guild_or_fresh(old(registry)@, guild).speaking
            &&& final(registry)@ == old(registry)@.insert(
                guild,
                GuildView { speaking: true, ..guild_or_fresh(old(registry)@, guild) },
            )
        },
        !joined ==> {
            &&& o.reply@ == "Failed to join your voice channel"@
            &&& !o.start_worker
            &&& final(registry)@ == old(registry)@
        },
{
    if joined {
        let start_worker = registry.initialize_tts(guild);
        let mut text = chars_of("Successfully joined **");
        push_all(&mut text, &chars_of(channel_name));
        push_all(&mut text, &chars_of("**"));
        JoinOutcome { reply: string_of(&text), start_worker }
    } else {
        JoinOutcome { reply: String::from_str("Failed to join your voice channel"), start_worker: false }
    }
}

/// Whether a voice state update means that the bot itself left voice: the
/// new state has no channel and belongs to the bot's own user.
pub fn bot_left_voice(new_channel: Option<u64>, user: u64, own_user: u64) -> (b: bool)
    ensures
        b == (new_channel is None && user == own_user),
{
    new_channel.is_none() && user == own_user
}

/// The activity the bot shows: `the people here | d.help`.
pub fn activity_text() -> (s: String)
    ensures
        s@ == "the people here | "@ + command_prefix() + "help"@,
{
    let mut text = chars_of("the people here | ");
    push_all(&mut text, &chars_of("d."));
    push_all(&mut text, &chars_of("help"));
    string_of(&text)
}


/// Asking to read a channel twice, with the bot in voice, leaves the
/// channels read aloud as they were, and the two answers differ: one adds,
/// the other removes.
pub proof fn law_toggle_read_twice(guilds: Map<u64, GuildView>, guild: u64, channel: u64)
    ensures
        ({
            let (m1, a1) = step_effect(guilds, guild, channel, StepView::ToggleRead, true);
            let (m2, a2) = step_effect(m1, guild, channel, StepView::ToggleRead, true);
            &&& m2 == guilds.insert(guild, guild_or_fresh(guilds, guild))
            &&& a1 != a2
        }),
{
    let g = guild_or_fresh(guilds, guild);
    let (m1, a1) = step_effect(guilds, guild, channel, StepView::ToggleRead, true);
    let (m2, a2) = step_effect(m1, guild, channel, StepView::ToggleRead, true);
    reveal_strlit("Added this channel to TTS");
    reveal_strlit("Removed this channel from TTS");
    if g.tts_channels.contains(channel) {
        assert(g.tts_channels.remove(channel).insert(channel) =~= g.tts_channels);
        assert(guild_or_fresh(m1, guild) == GuildView { tts_channels: g.tts_channels.remove(channel), ..g });
        assert(m2 =~= guilds.insert(guild, g));
        assert(a1 != a2) by {
            assert("Added this channel to TTS"@[0] != "Removed this channel from TTS"@[0]);
        }
    } else {
        assert(g.tts_channels.insert(channel).remove(channel) =~= g.tts_channels);
        assert(m2 =~= guilds.insert(guild, g));
        assert(a1 != a2) by {
            assert("Added this channel to TTS"@[0] != "Removed this channel from TTS"@[0]);
        }
    }
}

/// A command changes no guild but its own.
pub proof fn law_step_touches_own_guild_only(
    guilds: Map<u64, GuildView>,
    guild: u64,
    channel: u64,
    step: StepView,
    in_voice: bool,
    other: u64,
)
    requires
        other != guild,
    ensures
        step_effect(guilds, guild, channel, step, in_voice).0.contains_key(other) == guilds.contains_key(other),
        guilds.contains_key(other) ==> step_effect(guilds, guild, channel, step, in_voice).0[other]
            == guilds[other],
{
}

/// Without the bot in a voice channel no command changes any guild.
pub proof fn law_no_voice_no_change(guilds: Map<u64, GuildView>, guild: u64, channel: u64, step: StepView)
    ensures
        step_effect(guilds, guild, channel, step, false).0 == guilds,
{
}

/// A volume set with the bot in voice is the guild's volume afterwards.
pub proof fn law_volume_read_back(guilds: Map<u64, GuildView>, guild: u64, channel: u64, v: u16)
    ensures
        step_effect(guilds, guild, channel, StepView::SetVolume(v), true).0[guild].volume == v,
        step_effect(guilds, guild, channel, StepView::SetVolume(v), true).0.contains_key(guild),
{
}

/// A message made of the prefix and a command name without spaces is read
/// as that command with no arguments.
pub proof fn law_command_read_back(name: Seq<char>)
    requires
        forall|i: int| 0 <= i < name.len() ==> name[i] != ' ',
    ensures
        is_command(command_prefix() + name),
        command_pieces(command_prefix() + name) == seq![name],
{
    reveal_strlit("d.");
    let content = command_prefix() + name;
    assert(content.take(2) =~= command_prefix());
    assert(content.skip(2) =~= name);
    lemma_split_whole(name, ' ');
}


/// Exactly the one-letter messages `L` and `l` are deleted on sight; every
/// other message, of any length, is not.
pub proof fn law_blacklist_exact(content: Seq<char>)
    ensures
        blacklisted(content) <==> (content.len() == 1 && (content[0] == 'L' || content[0] == 'l')),
{
    reveal_strlit("L");
    reveal_strlit("l");
    if content.len() == 1 && (content[0] == 'L' || content[0] == 'l') {
        if content[0] == 'L' {
            assert(content =~= "L"@);
        } else {
            assert(content =~= "l"@);
        }
    }
}

/// Each command name asks for its own step, whatever its arguments; the
/// volume command asks to set the volume written as its first argument.
pub proof fn law_command_plans(args: Seq<Seq<char>>, v: u16)
    ensures
        planned("join"@, args) == StepView::Join,
        planned("leave"@, args) == StepView::Leave,
        planned("read"@, args) == StepView::ToggleRead,
        planned("inspiration"@, args) == StepView::Inspiration,
        planned("help"@, args) == StepView::Reply("You have been helped!"@),
        planned("feedback"@, args) == StepView::Reply("You have given feedback! into the void lmao"@),
        planned("record"@, args) == StepView::Nothing,
        planned("stop"@, args) == StepView::Nothing,
        planned(Seq::<char>::empty(), args) == StepView::Nothing,
        planned("volume"@, Seq::<Seq<char>>::empty()) == StepView::Reply(
            "You must provide the new volume level"@,
        ),
        args.len() > 0 && args[0] == decimal(v as nat) ==> planned("volume"@, args)
            == StepView::SetVolume(v),
{
    reveal_strlit("join");
    reveal_strlit("help");
    reveal_strlit("feedback");
    reveal_strlit("record");
    reveal_strlit("stop");
    reveal_strlit("leave");
    reveal_strlit("inspiration");
    reveal_strlit("read");
    reveal_strlit("volume");
    assert("leave"@ != "join"@ && "leave"@ != "help"@ && "leave"@ != "feedback"@ && "leave"@
        != "record"@ && "leave"@ != "stop"@) by {
        assert("leave"@[0] != "join"@[0]);
        assert("leave"@[0] != "help"@[0]);
        assert("leave"@.len() != "feedback"@.len());
        assert("leave"@[0] != "record"@[0]);
        assert("leave"@[0] != "stop"@[0]);
    }
    assert("read"@ != "join"@ && "read"@ != "help"@ && "read"@ != "feedback"@ && "read"@
        != "record"@ && "read"@ != "stop"@ && "read"@ != "leave"@ && "read"@ != "inspiration"@) by {
        assert("read"@[0] != "join"@[0]);
        assert("read"@[0] != "help"@[0]);
        assert("read"@[0] != "feedback"@[0]);
        assert("read"@.len() != "record"@.len());
        assert("read"@[0] != "stop"@[0]);
        assert("read"@[0] != "leave"@[0]);
        assert("read"@[0] != "inspiration"@[0]);
    }
    assert("inspiration"@ != "join"@ && "inspiration"@ != "help"@ && "inspiration"@
        != "feedback"@ && "inspiration"@ != "record"@ && "inspiration"@ != "stop"@
        && "inspiration"@ != "leave"@) by {
        assert("inspiration"@[0] != "join"@[0]);
        assert("inspiration"@[0] != "help"@[0]);
        assert("inspiration"@[0] != "feedback"@[0]);
        assert("inspiration"@[0] != "record"@[0]);
        assert("inspiration"@[0] != "stop"@[0]);
        assert("inspiration"@[0] != "leave"@[0]);
    }
    assert("help"@ != "join"@) by {
        assert("help"@[0] != "join"@[0]);
    }
    assert("feedback"@ != "join"@ && "feedback"@ != "help"@) by {
        assert("feedback"@[0] != "join"@[0]);
        assert("feedback"@[0] != "help"@[0]);
    }
    assert("record"@ != "join"@ && "record"@ != "help"@ && "record"@ != "feedback"@) by {
        assert("record"@[0] != "join"@[0]);
        assert("record"@[0] != "help"@[0]);
        assert("record"@[0] != "feedback"@[0]);
    }
    assert("stop"@ != "join"@ && "stop"@ != "help"@ && "stop"@ != "feedback"@ && "stop"@
        != "record"@) by {
        assert("stop"@[0] != "join"@[0]);
        assert("stop"@[0] != "help"@[0]);
        assert("stop"@[0] != "feedback"@[0]);
        assert("stop"@[0] != "record"@[0]);
    }
    assert("volume"@ != "join"@ && "volume"@ != "help"@ && "volume"@ != "feedback"@ && "volume"@
        != "record"@ && "volume"@ != "stop"@ && "volume"@ != "leave"@ && "volume"@
        != "inspiration"@ && "volume"@ != "read"@) by {
        assert("volume"@[0] != "join"@[0]);
        assert("volume"@[0] != "help"@[0]);
        assert("volume"@[0] != "feedback"@[0]);
        assert("volume"@[0] != "record"@[0]);
        assert("volume"@[0] != "stop"@[0]);
        assert("volume"@[0] != "leave"@[0]);
        assert("volume"@[0] != "inspiration"@[0]);
        assert("volume"@[0] != "read"@[0]);
    }
    let e = Seq::<char>::empty();
    assert(e != "join"@ && e != "help"@ && e != "feedback"@ && e != "record"@ && e != "stop"@ && e
        != "leave"@ && e != "inspiration"@ && e != "read"@ && e != "volume"@) by {
        assert(e.len() == 0);
    }
    if args.len() > 0 && args[0] == decimal(v as nat) {
        law_decimal_round_trip(v as nat);
        let d = decimal(v as nat);
        assert(!(d.len() > 1 && d[0] == '+'));
    }
}

/// Steps that need no voice connection give their answer and change no
/// guild, whether or not the bot is in a voice channel; in particular the
/// help and feedback commands are always answered.
pub proof fn law_voiceless_steps(
    guilds: Map<u64, GuildView>,
    guild: u64,
    channel: u64,
    text: Seq<char>,
    in_voice: bool,
    args: Seq<Seq<char>>,
)
    ensures
        step_effect(guilds, guild, channel, StepView::Reply(text), in_voice) == (
            guilds,
            ActionView::Reply(text),
        ),
        step_effect(guilds, guild, channel, StepView::Nothing, in_voice) == (guilds, ActionView::Nothing),
        step_effect(guilds, guild, channel, StepView::Join, in_voice) == (guilds, ActionView::Join),
        step_effect(guilds, guild, channel, planned("help"@, args), in_voice) == (
            guilds,
            ActionView::Reply("You have been helped!"@),
        ),
        step_effect(guilds, guild, channel, planned("feedback"@, args), in_voice) == (
            guilds,
            ActionView::Reply("You have given feedback! into the void lmao"@),
        ),
{
    law_command_plans(args, 0);
}

/// The voice commands, with the bot outside voice, all answer that the bot
/// must be in a voice channel first.
pub proof fn law_voice_steps_need_voice(guilds: Map<u64, GuildView>, guild: u64, channel: u64, v: u16)
    ensures
        step_effect(guilds, guild, channel, StepView::Leave, false).1 == ActionView::Reply(
            "I must be in a voice channel first"@,
        ),
        step_effect(guilds, guild, channel, StepView::ToggleRead, false).1 == ActionView::Reply(
            "I must be in a voice channel first"@,
        ),
        step_effect(guilds, guild, channel, StepView::Inspiration, false).1 == ActionView::Reply(
            "I must be in a voice channel first"@,
        ),
        step_effect(guilds, guild, channel, StepView::SetVolume(v), false).1 == ActionView::Reply(
            "I must be in a voice channel first"@,
        ),
        step_effect(guilds, guild, channel, StepView::Leave, true).1 == ActionView::Leave,
        step_effect(guilds, guild, channel, StepView::SetVolume(v), true).1 == ActionView::Reply(
            "Successfully set TTS volume to "@ + decimal(v as nat),
        ),
{
}


/// Asking for inspiration twice with the bot in voice starts it and then
/// stops it (or the other way round), leaving the guild as it was.
pub proof fn law_inspiration_twice(guilds: Map<u64, GuildView>, guild: u64, channel: u64)
    ensures
        ({
            let (m1, a1) = step_effect(guilds, guild, channel, StepView::Inspiration, true);
            let (m2, a2) = step_effect(m1, guild, channel, StepView::Inspiration, true);
            &&& m2 == guilds.insert(guild, guild_or_fresh(guilds, guild))
            &&& m1[guild].inspiration != guild_or_fresh(guilds, guild).inspiration
            &&& a1 != a2
        }),
{
    reveal_strlit("Ending inspiration after current one.");
    reveal_strlit("Here comes some inspiration.");
    let g = guild_or_fresh(guilds, guild);
    let (m1, a1) = step_effect(guilds, guild, channel, StepView::Inspiration, true);
    let (m2, a2) = step_effect(m1, guild, channel, StepView::Inspiration, true);
    assert(m2 =~= guilds.insert(guild, g));
    assert("Ending inspiration after current one."@[0] != "Here comes some inspiration."@[0]);
}


/// A message is a command exactly when it starts with `d.`, and its
/// command name and arguments are what follows, split at spaces.
pub proof fn law_command_prefix(content: Seq<char>)
    ensures
        is_command(content) <==> (content.len() >= 2 && content[0] == 'd' && content[1] == '.'),
        content.len() >= 2 ==> command_pieces(content) == split(content.subrange(2, content.len() as int), ' '),
{
    reveal_strlit("d.");
    if content.len() >= 2 && content[0] == 'd' && content[1] == '.' {
        assert(content.take(2) =~= command_prefix());
    }
    if is_command(content) {
        assert(content.take(2)[0] == content[0]);
        assert(content.take(2)[1] == content[1]);
    }
    if content.len() >= 2 {
        assert(content.skip(2) =~= content.subrange(2, content.len() as int));
    }
}

} // verus!
