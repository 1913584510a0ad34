use twitchchat::twitch::Capability;
use twitchcat::bot::{
    Bot, ChatEvent, ChatMessage, TwitchChannel, get_channels, get_env, get_token, get_username,
    join_report, on_chat_event, print_term_string, split_at_commas, term_string,
};
use twitchcat::color::Rgb;
use twitchcat::login::{ConfigError, token_is_checkable};

const PALETTE: [(u8, u8, u8); 15] = [
    (0x00, 0x00, 0xFF), (0x8A, 0x2B, 0xE2), (0x5F, 0x9E, 0xA0), (0xD2, 0x69, 0x1E),
    (0xFF, 0x7F, 0x50), (0x1E, 0x90, 0xFF), (0xB2, 0x22, 0x22), (0xDA, 0xA5, 0x20),
    (0x00, 0x80, 0x00), (0xFF, 0x69, 0xB4), (0xFF, 0x45, 0x00), (0xFF, 0x00, 0x00),
    (0x2E, 0x8B, 0x57), (0x00, 0xFF, 0x7F), (0xAD, 0xFF, 0x2F),
];

fn in_palette(c: Rgb) -> bool {
    PALETTE.iter().any(|&(r, g, b)| c == Rgb { r, g, b })
}

fn chan(name: &str, r: u8, g: u8, b: u8) -> TwitchChannel {
    TwitchChannel::new(name.to_string(), Some(Rgb { r, g, b }))
}

fn msg(channel: &str, name: &str, data: &str, color: Option<Rgb>) -> ChatMessage {
    ChatMessage {
        channel: channel.to_string(),
        name: name.to_string(),
        data: data.to_string(),
        color,
    }
}

#[test]
fn new_channel_keeps_given_color() {
    let c = chan("museun", 1, 2, 3);
    assert_eq!(c.name, "museun");
    assert_eq!(c.color, Rgb { r: 1, g: 2, b: 3 });
    assert_eq!(*c.msg_rate, 0);
    assert_eq!(c.to_string(), "museun");
}

#[test]
fn new_channel_without_color_draws_from_palette() {
    for _ in 0..50 {
        let c = TwitchChannel::new("x".to_string(), None);
        assert!(in_palette(c.color), "{:?}", c.color);
        assert_eq!(*c.msg_rate, 0);
    }
}

#[test]
fn print_term_string_layout() {
    let c = chan("museun", 255, 0, 0);
    let m = msg("#museun", "alice", "hello", Some(Rgb { r: 0, g: 128, b: 7 }));
    assert_eq!(
        print_term_string(&c, &m),
        "[#\x1b[38;2;255;0;0mmuseun\x1b[0m] \x1b[38;2;0;128;7malice\x1b[0m: hello"
    );
    let plain = msg("#museun", "bob", "hi", None);
    assert_eq!(
        print_term_string(&c, &plain),
        "[#\x1b[38;2;255;0;0mmuseun\x1b[0m] \x1b[38;2;255;255;255mbob\x1b[0m: hi"
    );
}

#[test]
fn term_string_finds_first_channel_or_falls_back() {
    let list = vec![chan("a", 1, 1, 1), chan("b", 2, 2, 2), chan("b", 3, 3, 3)];
    let m = msg("#b", "u", "t", None);
    assert_eq!(term_string(&list, &m), print_term_string(&list[1], &m));
    let other = msg("#zzz", "u", "t", None);
    assert_eq!(
        term_string(&list, &other),
        "[#\x1b[38;2;255;255;255mna\x1b[0m] \x1b[38;2;255;255;255mu\x1b[0m: t"
    );
}

#[test]
fn split_at_commas_cases() {
    assert_eq!(split_at_commas("a,b"), vec!["a", "b"]);
    assert_eq!(split_at_commas(""), vec![""]);
    assert_eq!(split_at_commas("a,,b"), vec!["a", "", "b"]);
    assert_eq!(split_at_commas(","), vec!["", ""]);
    assert_eq!(split_at_commas("é,ü"), vec!["é", "ü"]);
    let s = "x,yy,,zzz,";
    assert_eq!(split_at_commas(s), s.split(',').collect::<Vec<_>>());
}

#[test]
fn env_values_and_errors() {
    assert_eq!(get_env("K", Some("v".to_string())), Ok("v".to_string()));
    assert_eq!(get_env("K", None), Err("you need to set the K env var.".to_string()));
    assert_eq!(get_username(None), Err("you need to set the TWITCH_NAME env var.".to_string()));
    assert_eq!(get_token(None), Err("you need to set the TWITCH_TOKEN env var.".to_string()));
    assert_eq!(get_username(Some("me".to_string())), Ok("me".to_string()));
}

#[test]
fn get_channels_splits_and_colors() {
    let list = get_channels(Some("museun,strager".to_string())).unwrap();
    assert_eq!(list.len(), 2);
    assert_eq!(list[0].name, "museun");
    assert_eq!(list[1].name, "strager");
    assert!(list.iter().all(|c| in_palette(c.color) && *c.msg_rate == 0));
    match get_channels(None) {
        Err(e) => assert_eq!(e, "you need to set the TWITCH_CHANNEL env var."),
        Ok(_) => panic!("expected an error"),
    }
}

#[test]
fn add_channel_refuses_duplicate_names() {
    let mut bot = Bot::new();
    assert_eq!(bot.channel_list().len(), 0);
    assert_eq!(bot.add_channel(chan("a", 0, 0, 0)), Ok(()));
    assert_eq!(bot.add_channel(chan("b", 0, 0, 0)), Ok(()));
    assert_eq!(bot.add_channel(chan("a", 9, 9, 9)), Err("already joined channel".to_string()));
    let names: Vec<&str> = bot.channel_list().iter().map(|c| c.name.as_str()).collect();
    assert_eq!(names, vec!["a", "b"]);
    assert_eq!(bot.channel_list()[0].color, Rgb { r: 0, g: 0, b: 0 });
}

#[test]
fn set_channels_from_value_or_notice() {
    let mut bot = Bot::new();
    assert_eq!(bot.set_channels(Some("x,y,z".to_string())), None);
    assert_eq!(bot.channel_list().len(), 3);
    assert_eq!(bot.channel_list()[2].name, "z");
    assert_eq!(
        bot.set_channels(None),
        Some("no channels provided (you need to set the TWITCH_CHANNEL env var.)".to_string())
    );
    assert!(bot.channel_list().is_empty());
}

#[test]
fn set_config_follows_builder_rules() {
    let token = format!("oauth:{}", "a".repeat(30));
    let mut bot = Bot::new();
    assert_eq!(bot.set_config("me".to_string(), token.clone()), Ok(()));
    assert_eq!(bot.user_config().name, "me");
    assert_eq!(bot.set_config(String::new(), token.clone()), Err(ConfigError::InvalidName));
    assert_eq!(bot.set_config("me".to_string(), "short".to_string()), Err(ConfigError::InvalidToken));
    assert_eq!(
        bot.set_config("justinfan1234".to_string(), token),
        Err(ConfigError::PartialAnonymous)
    );
    assert_eq!(
        bot.set_config("justinfan1234".to_string(), "justinfan1234".to_string()),
        Ok(())
    );
    assert_eq!(bot.user_config().name, "justinfan1234");
}

#[test]
fn token_checkability() {
    assert!(token_is_checkable("justinfan1234"));
    assert!(token_is_checkable("short"));
    assert!(token_is_checkable(&format!("oauth:{}", "a".repeat(30))));
    // The accented letter takes bytes 5 and 6, so byte 6 is inside it.
    let bad = format!("oauth\u{e9}{}", "a".repeat(29));
    assert_eq!(bad.len(), 36);
    assert!(!token_is_checkable(&bad));
}

#[test]
fn chat_events() {
    let list = vec![chan("a", 1, 2, 3), chan("b", 4, 5, 6), chan("a", 7, 8, 9)];
    let m = msg("#a", "u", "hey", None);
    let r = on_chat_event(&list, &ChatEvent::Message(m.clone()));
    assert_eq!(r.lines, vec![print_term_string(&list[0], &m), print_term_string(&list[2], &m)]);
    assert_eq!(r.forwards, 3);
    assert!(!r.stop);
    let r = on_chat_event(&list, &ChatEvent::Message(msg("a", "u", "hey", None)));
    assert!(r.lines.is_empty());
    let r = on_chat_event(&list, &ChatEvent::Eof);
    assert_eq!(r.lines, vec!["EOF".to_string()]);
    assert!(r.stop);
    let r = on_chat_event(&list, &ChatEvent::Quit);
    assert_eq!(r.lines, vec!["Bye".to_string()]);
    assert!(!r.stop);
    let r = on_chat_event(&list, &ChatEvent::Other);
    assert!(r.lines.is_empty() && r.forwards == 0 && !r.stop);
}

#[test]
fn join_reports() {
    assert_eq!(join_report(&"abc".to_string(), true), "Joined #abc");
    assert_eq!(join_report(&"abc".to_string(), false), "error joining #abc");
}

#[test]
fn new_bot_logs_in_anonymously() {
    let mut bot = Bot::new();
    assert_eq!(bot.user_config().name, "justinfan1234");
    assert_eq!(bot.user_config().token, "justinfan1234");
    assert!(bot.user_config().is_anonymous());
    assert_eq!(bot.set_config(String::new(), "x".to_string()), Err(ConfigError::InvalidName));
    assert!(bot.user_config().is_anonymous());
}

#[test]
fn logins_ask_for_all_capabilities() {
    let all = vec![Capability::Membership, Capability::Tags, Capability::Commands];
    let mut bot = Bot::new();
    assert_eq!(bot.user_config().capabilities, all);
    let token = format!("oauth:{}", "b".repeat(30));
    assert_eq!(bot.set_config("me".to_string(), token), Ok(()));
    assert_eq!(bot.user_config().capabilities, all);
    assert_eq!(bot.user_config().token, format!("oauth:{}", "b".repeat(30)));
}

#[test]
fn add_and_set_channels_keep_login() {
    let token = format!("oauth:{}", "c".repeat(30));
    let mut bot = Bot::new();
    bot.set_config("me".to_string(), token).unwrap();
    bot.add_channel(chan("a", 0, 0, 0)).unwrap();
    assert!(bot.add_channel(chan("a", 0, 0, 0)).is_err());
    bot.set_channels(None);
    assert_eq!(bot.user_config().name, "me");
}

#[test]
fn stored_login_is_the_built_config() {
    let token = format!("oauth:{}", "d".repeat(30));
    let expected = twitchchat::UserConfig::builder()
        .name("me")
        .token(token.clone())
        .enable_all_capabilities()
        .build()
        .unwrap();
    let anonymous = twitchchat::UserConfig::builder()
        .name("justinfan1234")
        .token("justinfan1234")
        .enable_all_capabilities()
        .build()
        .unwrap();
    let mut bot = Bot::new();
    assert_eq!(*bot.user_config(), anonymous);
    bot.add_channel(chan("a", 0, 0, 0)).unwrap();
    assert_eq!(bot.set_config("me".to_string(), token), Ok(()));
    assert_eq!(*bot.user_config(), expected);
    assert_eq!(bot.channel_list().len(), 1);
}

#[test]
fn login_checkability() {
    let bad = format!("oauth\u{e9}{}", "a".repeat(29));
    assert!(!twitchcat::login::login_is_checkable("me", &bad));
    assert!(twitchcat::login::login_is_checkable("", &bad));
    let mut bot = Bot::new();
    assert_eq!(bot.set_config(String::new(), bad), Err(ConfigError::InvalidName));
}
