use dankbot::starboard::{
    build_star_embed, is_star_emoji, starboard_channel, StarredMessage, Submitter, STAR_COLOR,
};

fn starred() -> StarredMessage {
    StarredMessage {
        id: 3,
        channel_id: 2,
        author_name: "alice".to_string(),
        author_face: "https://cdn/face.png".to_string(),
        content: "great post".to_string(),
        first_attachment_url: None,
        first_embed_description: None,
    }
}

#[test]
fn only_the_star_counts() {
    assert!(is_star_emoji("⭐"));
    assert!(!is_star_emoji("🌟"));
    assert!(!is_star_emoji(""));
}

#[test]
fn first_board_channel_is_chosen() {
    let names = vec!["general".to_string(), "cool-messages".to_string(), "starboard".to_string()];
    assert_eq!(starboard_channel(&names), Some(1));
    let names = vec!["general".to_string(), "Starboard".to_string()];
    assert_eq!(starboard_channel(&names), None);
    assert_eq!(starboard_channel(&Vec::new()), None);
}

#[test]
fn minimal_embed() {
    let e = build_star_embed(&starred(), 1, &None);
    assert_eq!(e.author_name, "alice");
    assert_eq!(e.image_url, "https://cdn/face.png");
    assert_eq!(e.description.as_deref(), Some("great post"));
    assert_eq!(e.footer, "3");
    assert_eq!(e.color, STAR_COLOR);
    assert_eq!(e.color, 16765448);
    assert_eq!(e.fields.len(), 1);
    assert_eq!(e.fields[0].name, "Quick Link");
    assert_eq!(e.fields[0].value, "[Click Here](https://discord.com/channels/1/2/3)");
    assert!(e.fields[0].inline);
}

#[test]
fn full_embed() {
    let mut m = starred();
    m.content = String::new();
    m.first_attachment_url = Some("https://cdn/pic.png".to_string());
    m.first_embed_description = Some("quoted".to_string());
    let e = build_star_embed(&m, 10, &Some(Submitter { tag: "bob#0001".to_string(), id: 5 }));
    assert_eq!(e.image_url, "https://cdn/pic.png");
    assert!(e.description.is_none());
    assert_eq!(e.fields.len(), 3);
    assert_eq!(e.fields[0].name, "Embed");
    assert_eq!(e.fields[0].value, "> quoted");
    assert!(!e.fields[0].inline);
    assert_eq!(e.fields[1].value, "[Click Here](https://discord.com/channels/10/2/3)");
    assert_eq!(e.fields[2].name, "Submitter");
    assert_eq!(e.fields[2].value, "bob#0001 (<@5>)");
    assert!(e.fields[2].inline);
}
