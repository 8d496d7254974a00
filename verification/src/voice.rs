//! The speech side of the bot: the text-to-speech request URL, the
//! arguments handed to `ffmpeg`, and what the speech worker does with
//! each queued message.

use vstd::prelude::*;
use vstd::string::StringExecFns;
use vstd::utf8::encode_utf8;
use percent_encoding::{utf8_percent_encode, NON_ALPHANUMERIC};

verus! {

/// `b` is an ASCII letter or digit.
pub open spec fn is_ascii_alnum(b: u8) -> bool {
    (48 <= b && b <= 57) || (65 <= b && b <= 90) || (97 <= b && b <= 122)
}

/// The upper-case hexadecimal digit for `n < 16`.
pub open spec fn hex_upper(n: u8) -> char {
    if n < 10 {
        (n + 48) as char
    } else {
        (n + 55) as char
    }
}

/// One byte in percent-encoding: letters and digits stay, every other byte becomes `%XX`.
pub open spec fn percent_byte(b: u8) -> Seq<char> {
    if is_ascii_alnum(b) {
        seq![b as char]
    } else {
        seq!['%', hex_upper(b / 16), hex_upper(b % 16)]
    }
}

/// The percent-encoding of `bytes` with every byte but ASCII letters and digits escaped.
pub open spec fn percent_encoded(bytes: Seq<u8>) -> Seq<char>
    decreases bytes.len(),
{
    if bytes.len() == 0 {
        Seq::empty()
    } else {
        percent_byte(bytes[0]) + percent_encoded(bytes.drop_first())
    }
}

/// `percent_encoding::utf8_percent_encode` with the set `NON_ALPHANUMERIC`,
/// rendered with `to_string`: the UTF-8 bytes of `text`, each ASCII letter
/// or digit kept and every other byte written as `%` and two upper-case
/// hexadecimal digits.
#[verifier::external_body]
fn percent_encode_text(text: &str) -> (r: String)
    ensures
        r@ == percent_encoded(encode_utf8(text@)),
{
    utf8_percent_encode(text, NON_ALPHANUMERIC).to_string()
}

/// The text-to-speech service that reads a message aloud, up to the query text.
pub open spec fn tts_endpoint() -> Seq<char> {
    "https://translate.google.com/translate_tts?ie=UTF-8&client=tw-ob&tl=en&q="@
}

/// The URL whose audio speaks `message` in English.
pub open spec fn tts_url_spec(message: Seq<char>) -> Seq<char> {
    tts_endpoint() + percent_encoded(encode_utf8(message))
}

/// The URL whose audio speaks `message` in English.
pub fn tts_url(message: &str) -> (url: String)
    ensures
        url@ == tts_url_spec(message@),
{
    let mut url = String::from_str("https://translate.google.com/translate_tts?ie=UTF-8&client=tw-ob&tl=en&q=");
    let encoded = percent_encode_text(message);
    url.append(encoded.as_str());
    url
}

/// A percent-encoded text holds only ASCII letters, digits and `%`, so it
/// can stand in a URL's query unescaped.
pub proof fn law_percent_encoded_url_safe(bytes: Seq<u8>)
    ensures
        forall|i: int|
            0 <= i < percent_encoded(bytes).len() ==> {
                let c = #[trigger] percent_encoded(bytes)[i];
                c == '%' || ('0' <= c && c <= '9') || ('A' <= c && c <= 'Z') || ('a' <= c
                    && c <= 'z')
            },
    decreases bytes.len(),
{
    if bytes.len() > 0 {
        law_percent_encoded_url_safe(bytes.drop_first());
        let b = bytes[0];
        let head = percent_byte(b);
        let rest = percent_encoded(bytes.drop_first());
        assert(percent_encoded(bytes) == head + rest);
        assert(b / 16 < 16 && b % 16 < 16);
        assert forall|i: int| 0 <= i < head.len() implies {
            let c = #[trigger] head[i];
            c == '%' || ('0' <= c && c <= '9') || ('A' <= c && c <= 'Z') || ('a' <= c && c <= 'z')
        } by {
            if !is_ascii_alnum(b) && i > 0 {
                let n: u8 = if i == 1 { b / 16 } else { b % 16 };
                assert(head[i] == hex_upper(n));
            }
        }
        assert forall|i: int| 0 <= i < percent_encoded(bytes).len() implies {
            let c = #[trigger] percent_encoded(bytes)[i];
            c == '%' || ('0' <= c && c <= '9') || ('A' <= c && c <= 'Z') || ('a' <= c && c <= 'z')
        } by {
            if i < head.len() {
                assert(percent_encoded(bytes)[i] == head[i]);
            } else {
                assert(percent_encoded(bytes)[i] == rest[i - head.len()]);
            }
        }
    }
}


/// A request queued for a guild's speech worker.
pub enum TtsMessage {
    /// Read this text aloud.
    NewMessage(String),
}

/// What the speech worker does for one queued message: play the audio at
/// `url`, and change the track's volume to `volume` where it is set.
pub struct PlayPlan {
    pub url: String,
    pub volume: Option<u16>,
}

/// The plan for speaking `message` at the guild's current `volume`:
/// the track's volume is changed only where it differs from the default 1.
pub fn plan_playback(message: &TtsMessage, volume: u16) -> (plan: PlayPlan)
    ensures
        match message {
            TtsMessage::NewMessage(text) => plan.url@ == tts_url_spec(text@),
        },
        plan.volume == (if volume != 1 { Some(volume) } else { None::<u16> }),
{
    match message {
        TtsMessage::NewMessage(text) => PlayPlan {
            url: tts_url(text.as_str()),
            volume: if volume != 1 { Some(volume) } else { None },
        },
    }
}

/// The audio encodings that `ffmpeg` is asked to produce.
pub enum AudioFormat {
    /// Raw signed 16-bit little-endian PCM, as spoken messages are played.
    Pcm,
    /// MP3.
    Mp3,
}

/// The arguments with which `ffmpeg` reads `url` and writes 48 kHz stereo
/// audio in `format` to its standard output.
pub open spec fn ffmpeg_args_spec(url: Seq<char>, format: AudioFormat) -> Seq<Seq<char>> {
    let (container, codec) = match format {
        AudioFormat::Pcm => ("s16le"@, "pcm_s16le"@),
        AudioFormat::Mp3 => ("mp3"@, "mp3"@),
    };
    seq!["-i"@, url, "-f"@, container, "-ac"@, "2"@, "-ar"@, "48000"@, "-acodec"@, codec, "-"@]
}

/// The arguments with which `ffmpeg` reads `url` and writes 48 kHz stereo
/// audio in `format` to its standard output.
pub fn ffmpeg_arguments(url: &str, format: AudioFormat) -> (args: Vec<String>)
    ensures
        args@.map_values(|a: String| a@) == ffmpeg_args_spec(url@, format),
{
    let (container, codec) = match format {
        AudioFormat::Pcm => (String::from_str("s16le"), String::from_str("pcm_s16le")),
        AudioFormat::Mp3 => (String::from_str("mp3"), String::from_str("mp3")),
    };
    let mut args: Vec<String> = Vec::new();
    args.push(String::from_str("-i"));
    args.push(String::from_str(url));
    args.push(String::from_str("-f"));
    args.push(container);
    args.push(String::from_str("-ac"));
    args.push(String::from_str("2"));
    args.push(String::from_str("-ar"));
    args.push(String::from_str("48000"));
    args.push(String::from_str("-acodec"));
    args.push(codec);
    args.push(String::from_str("-"));
    assert(args@.map_values(|a: String| a@) =~= ffmpeg_args_spec(url@, format));
    args
}


/// The value of an upper-case hexadecimal digit (`None` for any other character).
pub open spec fn hex_value(c: char) -> Option<int> {
    if '0' <= c && c <= '9' {
        Some(c as int - 48)
    } else if 'A' <= c && c <= 'F' {
        Some(c as int - 55)
    } else {
        None
    }
}

/// Percent-encoding keeps ASCII letters and digits as they are and writes
/// every other byte as `%` and two upper-case hexadecimal digits that give
/// the byte back.
pub proof fn law_percent_byte_decodes(b: u8)
    ensures
        is_ascii_alnum(b) ==> percent_byte(b) == seq![b as char],
        !is_ascii_alnum(b) ==> {
            let e = percent_byte(b);
            &&& e.len() == 3
            &&& e[0] == '%'
            &&& hex_value(e[1]) is Some
            &&& hex_value(e[2]) is Some
            &&& hex_value(e[1]).unwrap() * 16 + hex_value(e[2]).unwrap() == b
        },
{
    let hi = b / 16;
    let lo = b % 16;
    assert(hi < 16 && lo < 16);
    assert(hi * 16 + lo == b);
    assert(hex_upper(hi) as int == if hi < 10 { hi + 48 } else { hi + 55 });
    assert(hex_upper(lo) as int == if lo < 10 { lo + 48 } else { lo + 55 });
}

/// ASCII letters and digits are encoded as themselves.
proof fn lemma_alnum_encoding(message: Seq<char>)
    requires
        forall|i: int|
            0 <= i < message.len() ==> ('0' <= #[trigger] message[i] && message[i] <= '9') || ('A'
                <= message[i] && message[i] <= 'Z') || ('a' <= message[i] && message[i] <= 'z'),
    ensures
        percent_encoded(encode_utf8(message)) == message,
    decreases message.len(),
{
    if message.len() > 0 {
        let rest = message.drop_first();
        lemma_alnum_encoding(rest);
        let c = message[0];
        let v = c as u32;
        assert(v < 128);
        assert(vstd::utf8::has_width_1_encoding(v)) by (bit_vector)
            requires
                v < 128,
        ;
        let b = vstd::utf8::leading_byte_width_1(v);
        assert(b == v as u8) by (bit_vector)
            requires
                v < 128,
                b == vstd::utf8::leading_byte_width_1(v),
        ;
        assert(encode_utf8(message) == seq![b] + encode_utf8(rest));
        assert(is_ascii_alnum(b));
        assert(b as char == c);
        assert(percent_encoded(seq![b] + encode_utf8(rest)) == percent_byte(b) + percent_encoded(encode_utf8(rest))) by {
            assert((seq![b] + encode_utf8(rest)).drop_first() =~= encode_utf8(rest));
        }
        assert(seq![c] + rest =~= message);
    } else {
        assert(encode_utf8(message) =~= Seq::<u8>::empty());
    }
}

/// The speech URL is the service's address followed by the encoded message,
/// and a message made only of ASCII letters and digits stands in it as it is.
pub proof fn law_tts_url_alnum(message: Seq<char>)
    requires
        forall|i: int|
            0 <= i < message.len() ==> ('0' <= #[trigger] message[i] && message[i] <= '9') || ('A'
                <= message[i] && message[i] <= 'Z') || ('a' <= message[i] && message[i] <= 'z'),
    ensures
        tts_url_spec(message) == "https://translate.google.com/translate_tts?ie=UTF-8&client=tw-ob&tl=en&q="@
            + message,
{
    lemma_alnum_encoding(message);
}


/// `ffmpeg` reads from `url` and writes two channels at 48000 Hz to its
/// standard output: raw signed 16-bit little-endian samples for speech,
/// MP3 otherwise.
pub proof fn law_ffmpeg_args(url: Seq<char>)
    ensures
        ({
            let pcm = ffmpeg_args_spec(url, AudioFormat::Pcm);
            let mp3 = ffmpeg_args_spec(url, AudioFormat::Mp3);
            &&& pcm.len() == 11 && mp3.len() == 11
            &&& pcm[0] == seq!['-', 'i'] && pcm[1] == url
            &&& pcm[2] == seq!['-', 'f'] && pcm[3] == seq!['s', '1', '6', 'l', 'e']
            &&& pcm[4] == seq!['-', 'a', 'c'] && pcm[5] == seq!['2']
            &&& pcm[6] == seq!['-', 'a', 'r'] && pcm[7] == seq!['4', '8', '0', '0', '0']
            &&& pcm[8] == seq!['-', 'a', 'c', 'o', 'd', 'e', 'c']
            &&& pcm[9] == seq!['p', 'c', 'm', '_', 's', '1', '6', 'l', 'e']
            &&& pcm[10] == seq!['-']
            &&& mp3[3] == seq!['m', 'p', '3'] && mp3[9] == seq!['m', 'p', '3']
            &&& forall|i: int| 0 <= i < 11 && i != 3 && i != 9 ==> #[trigger] mp3[i] == pcm[i]
        }),
{
    reveal_strlit("-i");
    reveal_strlit("-f");
    reveal_strlit("s16le");
    reveal_strlit("-ac");
    reveal_strlit("2");
    reveal_strlit("-ar");
    reveal_strlit("48000");
    reveal_strlit("-acodec");
    reveal_strlit("pcm_s16le");
    reveal_strlit("-");
    reveal_strlit("mp3");
    assert("-i"@ =~= seq!['-', 'i']);
    assert("-f"@ =~= seq!['-', 'f']);
    assert("s16le"@ =~= seq!['s', '1', '6', 'l', 'e']);
    assert("-ac"@ =~= seq!['-', 'a', 'c']);
    assert("2"@ =~= seq!['2']);
    assert("-ar"@ =~= seq!['-', 'a', 'r']);
    assert("48000"@ =~= seq!['4', '8', '0', '0', '0']);
    assert("-acodec"@ =~= seq!['-', 'a', 'c', 'o', 'd', 'e', 'c']);
    assert("pcm_s16le"@ =~= seq!['p', 'c', 'm', '_', 's', '1', '6', 'l', 'e']);
    assert("-"@ =~= seq!['-']);
    assert("mp3"@ =~= seq!['m', 'p', '3']);
}

} // verus!
