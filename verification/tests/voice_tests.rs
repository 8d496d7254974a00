use dankbot::voice::{ffmpeg_arguments, plan_playback, tts_url, AudioFormat, TtsMessage};

#[test]
fn tts_url_encodes_query() {
    assert_eq!(
        tts_url("hello world?"),
        "https://translate.google.com/translate_tts?ie=UTF-8&client=tw-ob&tl=en&q=hello%20world%3F"
    );
}

#[test]
fn tts_url_encodes_utf8_bytes_upper_case() {
    assert_eq!(
        tts_url("é-_~Z9"),
        "https://translate.google.com/translate_tts?ie=UTF-8&client=tw-ob&tl=en&q=%C3%A9%2D%5F%7EZ9"
    );
}

#[test]
fn tts_url_empty_message() {
    assert_eq!(tts_url(""), "https://translate.google.com/translate_tts?ie=UTF-8&client=tw-ob&tl=en&q=");
}

#[test]
fn encoded_url_is_query_safe() {
    let url = tts_url("a b&c=d/é⭐\n");
    let q = &url["https://translate.google.com/translate_tts?ie=UTF-8&client=tw-ob&tl=en&q=".len()..];
    assert!(q.chars().all(|c| c == '%' || c.is_ascii_alphanumeric()));
}

#[test]
fn playback_keeps_default_volume() {
    let plan = plan_playback(&TtsMessage::NewMessage("hi".to_string()), 1);
    assert_eq!(plan.volume, None);
    assert_eq!(plan.url, tts_url("hi"));
    let plan = plan_playback(&TtsMessage::NewMessage("hi".to_string()), 3);
    assert_eq!(plan.volume, Some(3));
    let plan = plan_playback(&TtsMessage::NewMessage("hi".to_string()), 0);
    assert_eq!(plan.volume, Some(0));
}

#[test]
fn ffmpeg_arguments_for_speech() {
    let args = ffmpeg_arguments("http://x", AudioFormat::Pcm);
    assert_eq!(
        args,
        vec!["-i", "http://x", "-f", "s16le", "-ac", "2", "-ar", "48000", "-acodec", "pcm_s16le", "-"]
    );
}

#[test]
fn ffmpeg_arguments_for_mp3() {
    let args = ffmpeg_arguments("u", AudioFormat::Mp3);
    assert_eq!(args, vec!["-i", "u", "-f", "mp3", "-ac", "2", "-ar", "48000", "-acodec", "mp3", "-"]);
}
