use twitchcat::bot::{Bot, TwitchChannel};
use twitchcat::color::Rgb;
use twitchcat::controller::{Action, BotController, ControllerCommand, Prompt, UnknownCommandError};

fn texts(actions: &[Action]) -> Vec<String> {
    actions
        .iter()
        .map(|a| match a {
            Action::Print(s) => format!("print:{}", s),
            Action::PrintLine(s) => format!("line:{}", s),
            Action::RunBot => "run".to_string(),
            Action::Quit => "quit".to_string(),
        })
        .collect()
}

#[test]
fn parse_commands() {
    assert_eq!(ControllerCommand::from_str("help"), Ok(ControllerCommand::HELP));
    assert_eq!(ControllerCommand::from_str("quit"), Ok(ControllerCommand::QUIT));
    assert_eq!(ControllerCommand::from_str("start"), Ok(ControllerCommand::START));
    assert_eq!(ControllerCommand::from_str("config"), Ok(ControllerCommand::CONFIG));
    assert_eq!(ControllerCommand::from_str("stop"), Ok(ControllerCommand::STOP));
    assert_eq!(ControllerCommand::from_str("Help"), Err("not a command: Help".to_string()));
    assert_eq!(ControllerCommand::from_str(""), Err("not a command: ".to_string()));
}

#[test]
fn unknown_command_error_text() {
    let e = UnknownCommandError {};
    assert_eq!(e.description(), "failed to parse bool");
    assert_eq!(e.to_string(), "provided string was not `true` or `false`");
}

#[test]
fn help_quit_stop_unknown() {
    let bot = Bot::new();
    let s = BotController::on_command(&bot, "help");
    assert_eq!(
        texts(&s.actions),
        vec!["line:'quit' quit", "line:'help'", "line:'start'", "line:'config' => add a channel"]
    );
    assert!(matches!(s.next, Prompt::Command));
    for q in ["quit", "stop"] {
        let s = BotController::on_command(&bot, q);
        assert_eq!(texts(&s.actions), vec!["line:bye", "quit"]);
    }
    let s = BotController::on_command(&bot, "dance");
    assert!(s.actions.is_empty());
    assert!(matches!(s.next, Prompt::Command));
}

#[test]
fn start_lists_channels() {
    let mut bot = Bot::new();
    bot.add_channel(TwitchChannel::new("a".to_string(), None)).unwrap();
    bot.add_channel(TwitchChannel::new("bb".to_string(), None)).unwrap();
    let s = BotController::on_command(&bot, "start");
    assert_eq!(
        texts(&s.actions),
        vec!["print:starting with 2 channels: ", "print:a,", "print:bb,", "run", "line:done"]
    );
}

#[test]
fn config_asks_then_adds() {
    let mut bot = Bot::new();
    let s = BotController::on_command(&bot, "config");
    assert!(s.actions.is_empty());
    match s.next {
        Prompt::Channel(q) => assert_eq!(q, "add channel (blank for no)?"),
        Prompt::Command => panic!("expected a channel prompt"),
    }
    let out = BotController::on_channel_input(&mut bot, String::new());
    assert!(out.is_empty());
    assert!(bot.channel_list().is_empty());

    let out = BotController::on_channel_input(&mut bot, "museun".to_string());
    assert_eq!(texts(&out), vec!["line:=> [#\x1b[38;2;0;0;255mmuseun\x1b[0m]"]);
    assert_eq!(bot.channel_list().len(), 1);
    assert_eq!(bot.channel_list()[0].color, Rgb { r: 0, g: 0, b: 255 });

    let out = BotController::on_channel_input(&mut bot, "museun".to_string());
    assert_eq!(
        texts(&out),
        vec![
            "line:=> [#\x1b[38;2;0;0;255mmuseun\x1b[0m]",
            "line:failed to add channel: already joined channel"
        ]
    );
    assert_eq!(bot.channel_list().len(), 1);
}

#[test]
fn controller_channel_round_trip() {
    let c = BotController::new();
    c.comm_out.send("hello".to_string()).unwrap();
    assert_eq!(c.comm_in.recv().unwrap(), "hello");
}

#[test]
fn config_answers_listed_at_start() {
    let mut bot = Bot::new();
    for a in ["x", "", "y", "x", "z", "y"] {
        BotController::on_channel_input(&mut bot, a.to_string());
    }
    let s = BotController::on_command(&bot, "start");
    assert_eq!(
        texts(&s.actions),
        vec!["print:starting with 3 channels: ", "print:x,", "print:y,", "print:z,", "run", "line:done"]
    );
}

#[test]
fn typed_line_is_forwarded() {
    let bot = Bot::new();
    for line in ["help", "dance", ""] {
        let s = BotController::on_command(&bot, line);
        assert_eq!(s.forward, line);
    }
}
