//! Per-guild state: the speech volume, the channels whose messages are
//! read aloud, and whether a speech worker is running for the guild.

use vstd::prelude::*;
use std::collections::{HashMap, HashSet};
use vstd::string::StringExecFns;
use crate::voice::TtsMessage;

verus! {

broadcast use vstd::std_specs::hash::group_hash_axioms;

/// The settings a guild starts with.
pub struct GuildSettings {
    pub volume: u16,
    pub tts_channels: HashSet<u64>,
}

impl GuildSettings {
    /// Volume 1 and no channel read aloud.
    pub fn new() -> (s: GuildSettings)
        ensures
            s.volume == 1,
            s.tts_channels@ == Set::<u64>::empty(),
    {
        GuildSettings { volume: 1, tts_channels: HashSet::new() }
    }
}

/// The abstract state of a guild.
pub struct GuildView {
    pub id: u64,
    pub volume: u16,
    pub tts_channels: Set<u64>,
    /// A speech worker is running and takes messages.
    pub speaking: bool,
    pub inspiration: bool,
}

/// The state of one guild.
pub struct DankGuild {
    pub id: u64,
    pub volume: u16,
    pub tts_channels: HashSet<u64>,
    speaking: bool,
    inspiration: bool,
}

impl View for DankGuild {
    type V = GuildView;

    closed spec fn view(&self) -> GuildView {
        GuildView {
            id: self.id,
            volume: self.volume,
            tts_channels: self.tts_channels@,
            speaking: self.speaking,
            inspiration: self.inspiration,
        }
    }
}

/// Why a message could not be queued for speech.
pub enum TtsError {
    /// No speech worker runs for the guild.
    SenderMissing,
}

impl TtsError {
    /// The error's text.
    pub fn message(&self) -> (s: String)
        ensures
            s@ == "TTS sender is not present"@,
    {
        String::from_str("TTS sender is not present")
    }
}

/// The state of a guild that was just seen for the first time.
pub open spec fn fresh_guild(id: u64) -> GuildView {
    GuildView { id, volume: 1, tts_channels: Set::empty(), speaking: false, inspiration: false }
}

/// The guild with its speech worker running.
pub open spec fn tts_started(g: GuildView) -> GuildView {
    GuildView { speaking: true, ..g }
}

/// The guild after its speech is ended: where a worker ran, it is stopped
/// and no channel is read aloud any more; otherwise nothing changes.
pub open spec fn tts_ended(g: GuildView) -> GuildView {
    if g.speaking {
        GuildView { speaking: false, tts_channels: Set::empty(), ..g }
    } else {
        g
    }
}

impl DankGuild {
    /// A guild at volume 1, with no channel read aloud and no speech worker.
    pub fn new(id: u64) -> (g: DankGuild)
        ensures
            g@ == fresh_guild(id),
    {
        DankGuild { id, volume: 1, tts_channels: HashSet::new(), speaking: false, inspiration: false }
    }

    /// Whether a speech worker runs for the guild.
    pub fn is_speaking(&self) -> (b: bool)
        ensures
            b == self@.speaking,
    {
        self.speaking
    }

    /// Marks the speech worker as running. `true` where it was not running
    /// before, and the caller must start it; `false` (nothing changes) where
    /// it was already running.
    pub fn initialize_tts(&mut self) -> (start: bool)
        ensures
            start == !old(self)@.speaking,
            final(self)@ == tts_started(old(self)@),
    {
        if self.speaking {
            return false;
        }
        self.speaking = true;
        true
    }

    /// Stops the speech worker and forgets the channels read aloud; nothing
    /// changes where no worker runs.
    pub fn end_tts(&mut self)
        ensures
            final(self)@ == tts_ended(old(self)@),
    {
        if !self.speaking {
            return;
        }
        self.speaking = false;
        self.tts_channels.clear();
    }

    /// The request that queues `message` for speech, or
    /// `TtsError::SenderMissing` where no worker runs.
    pub fn say_message(&self, message: String) -> (r: Result<TtsMessage, TtsError>)
        ensures
            r is Ok <==> self@.speaking,
            r matches Ok(TtsMessage::NewMessage(m)) ==> m == message,
    {
        if !self.speaking {
            return Err(TtsError::SenderMissing);
        }
        Ok(TtsMessage::NewMessage(message))
    }

    /// Sets the volume at which messages are spoken.
    pub fn set_volume(&mut self, volume: u16)
        ensures
            final(self)@ == (GuildView { volume, ..old(self)@ }),
    {
        self.volume = volume;
    }

    /// Whether messages of `channel` are read aloud.
    pub fn reads_channel(&self, channel: u64) -> (b: bool)
        ensures
            b == self@.tts_channels.contains(channel),
    {
        self.tts_channels.contains(&channel)
    }

    /// Starts reading `channel` aloud where it was not read, and stops where
    /// it was. `true` where the channel was added.
    pub fn toggle_tts_channel(&mut self, channel: u64) -> (added: bool)
        ensures
            added == !old(self)@.tts_channels.contains(channel),
            final(self)@ == (GuildView {
                tts_channels: if added {
                    old(self)@.tts_channels.insert(channel)
                } else {
                    old(self)@.tts_channels.remove(channel)
                },
                ..old(self)@
            }),
    {
        if self.tts_channels.contains(&channel) {
            self.tts_channels.remove(&channel);
            false
        } else {
            self.tts_channels.insert(channel);
            true
        }
    }

    /// Stops the inspiration feature where it runs (`false`), and marks it
    /// as running where it does not (`true`: the caller starts it).
    pub fn toggle_inspiration(&mut self) -> (started: bool)
        ensures
            started == !old(self)@.inspiration,
            final(self)@ == (GuildView { inspiration: started, ..old(self)@ }),
    {
        self.inspiration = !self.inspiration;
        self.inspiration
    }
}


/// The guild kept under `id`, or the state of a guild seen for the first time.
pub open spec fn guild_or_fresh(guilds: Map<u64, GuildView>, id: u64) -> GuildView {
    if guilds.contains_key(id) {
        guilds[id]
    } else {
        fresh_guild(id)
    }
}

/// The state of every guild the bot has met, by guild id.
pub struct GuildRegistry {
    guilds: HashMap<u64, DankGuild>,
}

impl View for GuildRegistry {
    type V = Map<u64, GuildView>;

    closed spec fn view(&self) -> Map<u64, GuildView> {
        self.guilds@.map_values(|g: DankGuild| g@)
    }
}

impl GuildRegistry {
    /// Every guild is kept under its own id.
    #[verifier::type_invariant]
    closed spec fn keyed_by_id(&self) -> bool {
        forall|k: u64| #[trigger] self.guilds@.contains_key(k) ==> self.guilds@[k].id == k
    }

    /// A registry that knows no guild.
    pub fn new() -> (r: GuildRegistry)
        ensures
            r@ == Map::<u64, GuildView>::empty(),
    {
        let r = GuildRegistry { guilds: HashMap::new() };
        assert(r@ =~= Map::<u64, GuildView>::empty());
        r
    }

    /// The guild kept under `id`, if any.
    pub fn guild(&self, id: u64) -> (r: Option<&DankGuild>)
        ensures
            r is Some <==> self@.contains_key(id),
            r matches Some(g) ==> g@ == self@[id] && self@[id].id == id,
    {
        proof {
            use_type_invariant(self);
        }
        self.guilds.get(&id)
    }

    /// Takes the guild kept under `id` out of the registry, or makes a fresh one.
    fn take_or_new(&mut self, id: u64) -> (g: DankGuild)
        ensures
            g@ == guild_or_fresh(old(self)@, id),
            g.id == id,
            final(self)@ == old(self)@.remove(id),
    {
        proof {
            use_type_invariant(&*self);
        }
        let mut guilds: HashMap<u64, DankGuild> = HashMap::new();
        std::mem::swap(&mut guilds, &mut self.guilds);
        let taken = guilds.remove(&id);
        self.guilds = guilds;
        proof {
            assert(self@ =~= old(self)@.remove(id));
        }
        match taken {
            Some(g) => g,
            None => DankGuild::new(id),
        }
    }

    /// Keeps `g` under its id.
    fn put(&mut self, g: DankGuild)
        ensures
            final(self)@ == old(self)@.insert(g.id, g@),
    {
        proof {
            use_type_invariant(&*self);
        }
        let ghost gv = g@;
        let id = g.id;
        let mut guilds: HashMap<u64, DankGuild> = HashMap::new();
        std::mem::swap(&mut guilds, &mut self.guilds);
        guilds.insert(id, g);
        self.guilds = guilds;
        proof {
            assert(self@ =~= old(self)@.insert(id, gv));
        }
    }

    /// [`DankGuild::initialize_tts`] on the guild `id`, made fresh where it
    /// was not known. `true` where the caller must start a speech worker.
    pub fn initialize_tts(&mut self, id: u64) -> (start: bool)
        ensures
            start == !guild_or_fresh(old(self)@, id).speaking,
            final(self)@ == old(self)@.insert(id, tts_started(guild_or_fresh(old(self)@, id))),
    {
        let mut g = self.take_or_new(id);
        let start = g.initialize_tts();
        self.put(g);
        proof {
            assert(final(self)@ =~= old(self)@.insert(id, tts_started(guild_or_fresh(old(self)@, id))));
        }
        start
    }

    /// [`DankGuild::set_volume`] on the guild `id`, made fresh where it was not known.
    pub fn set_volume(&mut self, id: u64, volume: u16)
        ensures
            final(self)@ == old(self)@.insert(id, GuildView { volume, ..guild_or_fresh(old(self)@, id) }),
    {
        let mut g = self.take_or_new(id);
        g.set_volume(volume);
        self.put(g);
        proof {
            assert(final(self)@ =~= old(self)@.insert(id, GuildView { volume, ..guild_or_fresh(old(self)@, id) }));
        }
    }

    /// [`DankGuild::toggle_tts_channel`] on the guild `id`, made fresh where
    /// it was not known. `true` where the channel was added.
    pub fn toggle_tts_channel(&mut self, id: u64, channel: u64) -> (added: bool)
        ensures
            added == !guild_or_fresh(old(self)@, id).tts_channels.contains(channel),
            final(self)@ == old(self)@.insert(
                id,
                GuildView {
                    tts_channels: if added {
                        guild_or_fresh(old(self)@, id).tts_channels.insert(channel)
                    } else {
                        guild_or_fresh(old(self)@, id).tts_channels.remove(channel)
                    },
                    ..guild_or_fresh(old(self)@, id)
                },
            ),
    {
        let mut g = self.take_or_new(id);
        let added = g.toggle_tts_channel(channel);
        let ghost gv = g@;
        self.put(g);
        proof {
            assert(final(self)@ =~= old(self)@.insert(id, gv));
        }
        added
    }

    /// [`DankGuild::toggle_inspiration`] on the guild `id`, made fresh where
    /// it was not known. `true` where the feature was started.
    pub fn toggle_inspiration(&mut self, id: u64) -> (started: bool)
        ensures
            started == !guild_or_fresh(old(self)@, id).inspiration,
            final(self)@ == old(self)@.insert(
                id,
                GuildView { inspiration: started, ..guild_or_fresh(old(self)@, id) },
            ),
    {
        let mut g = self.take_or_new(id);
        let started = g.toggle_inspiration();
        let ghost gv = g@;
        self.put(g);
        proof {
            assert(final(self)@ =~= old(self)@.insert(id, gv));
        }
        started
    }

    /// [`DankGuild::end_tts`] on the guild `id` where it is known; nothing
    /// changes where it is not.
    pub fn end_tts(&mut self, id: u64)
        ensures
            final(self)@ == (if old(self)@.contains_key(id) && old(self)@[id].speaking {
                old(self)@.insert(id, tts_ended(old(self)@[id]))
            } else {
                old(self)@
            }),
    {
        proof {
            use_type_invariant(&*self);
        }
        if !self.guilds.contains_key(&id) {
            return;
        }
        let mut g = self.take_or_new(id);
        g.end_tts();
        let ghost gv = g@;
        self.put(g);
        proof {
            if old(self)@[id].speaking {
                assert(final(self)@ =~= old(self)@.insert(id, gv));
            } else {
                assert(final(self)@ =~= old(self)@);
            }
        }
    }

    /// Whether the messages of `channel` in guild `id` are read aloud: the
    /// guild is known and reads that channel.
    pub fn reads_channel(&self, id: u64, channel: u64) -> (b: bool)
        ensures
            b == (self@.contains_key(id) && self@[id].tts_channels.contains(channel)),
    {
        match self.guilds.get(&id) {
            Some(g) => g.reads_channel(channel),
            None => false,
        }
    }
}


/// Once a guild's speech is ended, no worker runs and no channel is read
/// aloud, whatever state it was in while speaking.
pub proof fn law_ended_is_silent(g: GuildView, channel: u64)
    requires
        g.speaking,
    ensures
        !tts_ended(g).speaking,
        !tts_ended(g).tts_channels.contains(channel),
        tts_ended(g).volume == g.volume,
        tts_ended(g).id == g.id,
{
}

/// Starting speech twice is starting it once, and so is ending it twice.
pub proof fn law_start_end_idempotent(g: GuildView)
    ensures
        tts_started(tts_started(g)) == tts_started(g),
        tts_ended(tts_ended(g)) == tts_ended(g),
{
    if g.speaking {
        assert(tts_ended(tts_ended(g)) == tts_ended(g));
    }
}

/// After speech is started a message can be queued, and after it is ended
/// none can until speech is started again.
pub proof fn law_speech_follows_start_and_end(g: GuildView)
    ensures
        tts_started(g).speaking,
        !tts_ended(tts_started(g)).speaking,
        tts_started(tts_ended(g)).speaking,
{
}


/// A guild seen for the first time speaks at volume 1, reads no channel
/// aloud, runs no speech worker and no inspiration; and once known, a guild
/// is what the registry keeps, not a fresh one.
pub proof fn law_fresh_guild(guilds: Map<u64, GuildView>, id: u64, channel: u64)
    ensures
        fresh_guild(id).id == id,
        fresh_guild(id).volume == 1,
        !fresh_guild(id).tts_channels.contains(channel),
        !fresh_guild(id).speaking,
        !fresh_guild(id).inspiration,
        !guilds.contains_key(id) ==> guild_or_fresh(guilds, id) == fresh_guild(id),
        guilds.contains_key(id) ==> guild_or_fresh(guilds, id) == guilds[id],
{
}

} // verus!
