use dankbot::commands::{
    activity_text, bot_left_voice, command_of, decide_join, finish_join, is_blacklisted,
    leave_reply, parse_command, perform_step, plan_command, Action, Command, JoinDecision,
    ParsedCommand, Step,
};
use dankbot::commands::{route_message, MessageRoute};
use dankbot::guild::GuildRegistry;

fn plan(content: &str) -> Step {
    plan_command(&parse_command(content).expect("a command"))
}

fn reply(a: Action) -> String {
    match a {
        Action::Reply(t) => t,
        _ => panic!("expected a reply"),
    }
}

#[test]
fn blacklist_is_exact() {
    assert!(is_blacklisted("L"));
    assert!(is_blacklisted("l"));
    assert!(!is_blacklisted("LL"));
    assert!(!is_blacklisted("L "));
    assert!(!is_blacklisted(""));
}

#[test]
fn commands_need_the_prefix() {
    assert!(parse_command("help").is_none());
    assert!(parse_command("d").is_none());
    assert!(parse_command("D.help").is_none());
    let p = parse_command("d.").unwrap();
    assert_eq!(p.name, "");
    assert!(p.arguments.is_empty());
}

#[test]
fn command_arguments_split_at_spaces() {
    let p = parse_command("d.volume 50  x").unwrap();
    assert_eq!(p.name, "volume");
    assert_eq!(p.arguments, vec!["50", "", "x"]);
    let p = parse_command("d.join").unwrap();
    assert_eq!(p.name, "join");
    assert!(p.arguments.is_empty());
}

#[test]
fn command_names() {
    assert!(matches!(command_of("join"), Command::Join));
    assert!(matches!(command_of("help"), Command::Help));
    assert!(matches!(command_of("feedback"), Command::Feedback));
    assert!(matches!(command_of("record"), Command::Record));
    assert!(matches!(command_of("stop"), Command::Stop));
    assert!(matches!(command_of("leave"), Command::Leave));
    assert!(matches!(command_of("inspiration"), Command::Inspiration));
    assert!(matches!(command_of("read"), Command::Read));
    assert!(matches!(command_of("volume"), Command::Volume));
    assert!(matches!(command_of("Help"), Command::Other));
}

#[test]
fn fixed_replies() {
    assert!(matches!(plan("d.help"), Step::Reply(t) if t == "You have been helped!"));
    assert!(matches!(plan("d.feedback"), Step::Reply(t) if t == "You have given feedback! into the void lmao"));
    assert!(matches!(plan("d.record"), Step::Nothing));
    assert!(matches!(plan("d.stop"), Step::Nothing));
    assert!(matches!(plan("d.nope"), Step::Nothing));
    assert!(matches!(plan("d.help me"), Step::Reply(_)));
}

#[test]
fn volume_arguments_are_checked_first() {
    assert!(matches!(plan("d.volume"), Step::Reply(t) if t == "You must provide the new volume level"));
    assert!(matches!(plan("d.volume loud"), Step::Reply(t) if t == "You must provide a valid number"));
    assert!(matches!(plan("d.volume 70000"), Step::Reply(t) if t == "You must provide a valid number"));
    assert!(matches!(plan("d.volume  5"), Step::Reply(t) if t == "You must provide a valid number"));
    assert!(matches!(plan("d.volume 5"), Step::SetVolume(5)));
    assert!(matches!(plan("d.volume +12 more"), Step::SetVolume(12)));
}

#[test]
fn voice_commands_need_voice() {
    let mut r = GuildRegistry::new();
    for step in [Step::Leave, Step::Inspiration, Step::ToggleRead, Step::SetVolume(3)] {
        let a = perform_step(&mut r, 1, 2, step, false);
        assert_eq!(reply(a), "I must be in a voice channel first");
    }
    assert!(r.guild(1).is_none());
    assert!(matches!(perform_step(&mut r, 1, 2, Step::Leave, true), Action::Leave));
    assert!(matches!(perform_step(&mut r, 1, 2, Step::Join, false), Action::Join));
    assert!(matches!(perform_step(&mut r, 1, 2, Step::Nothing, true), Action::Nothing));
}

#[test]
fn read_toggles_the_channel() {
    let mut r = GuildRegistry::new();
    assert_eq!(reply(perform_step(&mut r, 1, 2, Step::ToggleRead, true)), "Added this channel to TTS");
    assert!(r.reads_channel(1, 2));
    assert_eq!(reply(perform_step(&mut r, 1, 2, Step::ToggleRead, true)), "Removed this channel from TTS");
    assert!(!r.reads_channel(1, 2));
}

#[test]
fn volume_is_set_and_reported() {
    let mut r = GuildRegistry::new();
    assert_eq!(reply(perform_step(&mut r, 1, 2, Step::SetVolume(65535), true)), "Successfully set TTS volume to 65535");
    assert_eq!(r.guild(1).unwrap().volume, 65535);
}

#[test]
fn inspiration_alternates() {
    let mut r = GuildRegistry::new();
    assert_eq!(reply(perform_step(&mut r, 1, 2, Step::Inspiration, true)), "Here comes some inspiration.");
    assert_eq!(reply(perform_step(&mut r, 1, 2, Step::Inspiration, true)), "Ending inspiration after current one.");
}

#[test]
fn join_checks_in_order() {
    assert!(matches!(decide_join(None, true, None), JoinDecision::Reply(t) if t == "You must be in a voice channel"));
    assert!(matches!(decide_join(Some(5), false, Some(5)), JoinDecision::Reply(t) if t == "I do not have permissions to join your channel"));
    assert!(matches!(decide_join(Some(5), true, Some(5)), JoinDecision::Reply(t) if t == "I am already in this channel!"));
    assert!(matches!(decide_join(Some(5), true, Some(6)), JoinDecision::Connect(5)));
    assert!(matches!(decide_join(Some(5), true, None), JoinDecision::Connect(5)));
}

#[test]
fn join_result_starts_speech_once() {
    let mut r = GuildRegistry::new();
    let o = finish_join(&mut r, 9, true, "Lounge");
    assert_eq!(o.reply, "Successfully joined **Lounge**");
    assert!(o.start_worker);
    assert!(r.guild(9).unwrap().is_speaking());
    let o = finish_join(&mut r, 9, true, "Lounge");
    assert!(!o.start_worker);
    let o = finish_join(&mut r, 8, false, "X");
    assert_eq!(o.reply, "Failed to join your voice channel");
    assert!(!o.start_worker);
    assert!(r.guild(8).is_none());
}

#[test]
fn leave_replies() {
    assert_eq!(leave_reply(true), "Left");
    assert_eq!(leave_reply(false), "Failed to leave");
}

#[test]
fn voice_exit_of_the_bot() {
    assert!(bot_left_voice(None, 3, 3));
    assert!(!bot_left_voice(Some(1), 3, 3));
    assert!(!bot_left_voice(None, 4, 3));
}

#[test]
fn activity() {
    assert_eq!(activity_text(), "the people here | d.help");
}

#[test]
fn parsed_command_fields_are_public() {
    let p = ParsedCommand { name: "volume".to_string(), arguments: vec!["9".to_string()] };
    assert!(matches!(plan_command(&p), Step::SetVolume(9)));
}

#[test]
fn routing_of_messages() {
    assert!(matches!(route_message(false, "d.help"), MessageRoute::Ignore));
    assert!(matches!(route_message(true, "L"), MessageRoute::Delete));
    assert!(matches!(route_message(false, "L"), MessageRoute::Ignore));
    assert!(matches!(route_message(true, "hello"), MessageRoute::Ignore));
    match route_message(true, "d.read now") {
        MessageRoute::Command(p) => {
            assert_eq!(p.name, "read");
            assert_eq!(p.arguments, vec!["now"]);
        }
        _ => panic!("expected a command"),
    }
}
