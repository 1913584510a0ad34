//! The command prompt that drives the bot: which command a typed line is,
//! and what the prompt does about it. Reading lines and printing is left to
//! the caller, which performs the actions in order.

use std::sync::mpsc::{Receiver, Sender};
use vstd::prelude::*;
use vstd::string::StringExecFns;
use crate::bot::{Bot, TwitchChannel, channel_names, has_channel_named};
use crate::color::{Rgb, parse_twitch_color};
use crate::comms::{receiver_channel, sender_channel, string_channel};
use crate::text::{colored, colored_string, decimal, decimal_string};

verus! {

/// The commands the prompt knows.
#[derive(Clone, Copy, Debug, PartialEq, Eq, Structural)]
pub enum ControllerCommand {
    QUIT,
    HELP,
    CONFIG,
    START,
    STOP,
    UNKNWON,
}

/// The command a line names, if it names one exactly.
pub open spec fn command_named(s: Seq<char>) -> Option<ControllerCommand> {
    if s == "help"@ {
        Some(ControllerCommand::HELP)
    } else if s == "quit"@ {
        Some(ControllerCommand::QUIT)
    } else if s == "start"@ {
        Some(ControllerCommand::START)
    } else if s == "config"@ {
        Some(ControllerCommand::CONFIG)
    } else if s == "stop"@ {
        Some(ControllerCommand::STOP)
    } else {
        None
    }
}

/// The word that names a command (none for the unknown one).
pub open spec fn command_word(c: ControllerCommand) -> Seq<char> {
    match c {
        ControllerCommand::HELP => "help"@,
        ControllerCommand::QUIT => "quit"@,
        ControllerCommand::START => "start"@,
        ControllerCommand::CONFIG => "config"@,
        ControllerCommand::STOP => "stop"@,
        ControllerCommand::UNKNWON => Seq::empty(),
    }
}

/// The command a typed line counts as: the one it names, else the unknown one.
pub open spec fn command_of_line(s: Seq<char>) -> ControllerCommand {
    match command_named(s) {
        Some(c) => c,
        None => ControllerCommand::UNKNWON,
    }
}

impl ControllerCommand {
    /// The command that `s` names exactly; any other line is refused with
    /// `not a command: ` and the line.
    pub fn from_str(s: &str) -> (r: Result<ControllerCommand, String>)
        ensures
            command_named(s@) matches Some(c) ==> r == Ok::<ControllerCommand, String>(c),
            command_named(s@) is None ==> (r matches Err(e) && e@ == "not a command: "@ + s@),
    {
        let line = String::from_str(s);
        if line == String::from_str("help") {
            Ok(ControllerCommand::HELP)
        } else if line == String::from_str("quit") {
            Ok(ControllerCommand::QUIT)
        } else if line == String::from_str("start") {
            Ok(ControllerCommand::START)
        } else if line == String::from_str("config") {
            Ok(ControllerCommand::CONFIG)
        } else if line == String::from_str("stop") {
            Ok(ControllerCommand::STOP)
        } else {
            let mut e = String::from_str("not a command: ");
            e.append(s);
            Err(e)
        }
    }
}

/// Each command's word reads back as that command.
pub proof fn command_words_read_back(c: ControllerCommand)
    requires
        c != ControllerCommand::UNKNWON,
    ensures
        command_named(command_word(c)) == Some(c),
{
    reveal_strlit("help");
    reveal_strlit("quit");
    reveal_strlit("start");
    reveal_strlit("config");
    reveal_strlit("stop");
    assert("help"@[0] != "quit"@[0]);
    assert("help"@.len() != "start"@.len());
    assert("help"@.len() != "config"@.len());
    assert("help"@ != "stop"@);
    assert("quit"@ != "start"@);
    assert("quit"@ != "config"@);
    assert("quit"@ != "stop"@);
    assert("start"@ != "config"@);
    assert("start"@ != "stop"@);
    assert("config"@ != "stop"@);
}

/// The error a failed parse of a boolean reports.
#[derive(Debug)]
pub struct UnknownCommandError {}

impl UnknownCommandError {
    /// The short description of the error.
    pub fn description(&self) -> (s: &'static str)
        ensures
            s@ == "failed to parse bool"@,
    {
        "failed to parse bool"
    }

    /// The error as a message.
    pub fn to_string(&self) -> (s: String)
        ensures
            s@ == "provided string was not `true` or `false`"@,
    {
        String::from_str("provided string was not `true` or `false`")
    }
}

/// One thing the prompt does.
#[derive(Debug)]
pub enum Action {
    /// Print text, with no line break.
    Print(String),
    /// Print a line.
    PrintLine(String),
    /// Run the bot until its connection ends, reporting a failure.
    RunBot,
    /// Leave the prompt.
    Quit,
}

/// An action with its text as a sequence of characters.
pub enum ActionView {
    Print(Seq<char>),
    PrintLine(Seq<char>),
    RunBot,
    Quit,
}

/// The view of an action.
pub open spec fn action_view(a: Action) -> ActionView {
    match a {
        Action::Print(s) => ActionView::Print(s@),
        Action::PrintLine(s) => ActionView::PrintLine(s@),
        Action::RunBot => ActionView::RunBot,
        Action::Quit => ActionView::Quit,
    }
}

/// The views of a list of actions.
pub open spec fn action_views(v: Seq<Action>) -> Seq<ActionView> {
    v.map_values(|a: Action| action_view(a))
}

/// What the prompt reads next.
#[derive(Debug)]
pub enum Prompt {
    /// A command, after the caller's usual prompt.
    Command,
    /// A channel name to add, after this question.
    Channel(String),
}

/// What the prompt does about one typed command: first it passes the typed
/// line on its channel (`forward`), then it performs `actions`.
#[derive(Debug)]
pub struct Step {
    pub forward: String,
    pub actions: Vec<Action>,
    pub next: Prompt,
}

/// The help text, one line per command.
pub open spec fn help_actions() -> Seq<ActionView> {
    seq![
        ActionView::PrintLine("'quit' quit"@),
        ActionView::PrintLine("'help'"@),
        ActionView::PrintLine("'start'"@),
        ActionView::PrintLine("'config' => add a channel"@),
    ]
}

/// Starting the bot: say how many channels it watches and list them, each
/// followed by a comma, then run it and say when it is done.
pub open spec fn start_actions(list: Seq<TwitchChannel>) -> Seq<ActionView> {
    seq![ActionView::Print("starting with "@ + decimal(list.len()) + " channels: "@)]
        + Seq::new(list.len(), |i: int| ActionView::Print(list[i].name@ + ","@))
        + seq![ActionView::RunBot, ActionView::PrintLine("done"@)]
}

/// Leaving the prompt.
pub open spec fn quit_actions() -> Seq<ActionView> {
    seq![ActionView::PrintLine("bye"@), ActionView::Quit]
}

/// What the prompt does for command `c` while the bot watches `list`.
pub open spec fn command_actions(c: ControllerCommand, list: Seq<TwitchChannel>) -> Seq<ActionView> {
    match c {
        ControllerCommand::HELP => help_actions(),
        ControllerCommand::QUIT => quit_actions(),
        ControllerCommand::STOP => quit_actions(),
        ControllerCommand::START => start_actions(list),
        ControllerCommand::CONFIG => Seq::empty(),
        ControllerCommand::UNKNWON => Seq::empty(),
    }
}

/// The colour of channels added at the prompt: twitchchat's `Blue`.
pub open spec fn prompt_channel_color() -> Rgb {
    Rgb { r: 0, g: 0, b: 255 }
}

/// The prompt that drives the bot, with the channel its lines are echoed on.
pub struct BotController {
    pub comm_in: Receiver<String>,
    pub comm_out: Sender<String>,
}

impl BotController {
    /// A prompt with a fresh channel for its lines: its two ends belong to
    /// one channel, so what is sent on `comm_out` arrives at `comm_in`.
    pub fn new() -> (c: BotController)
        ensures
            sender_channel(c.comm_out) == receiver_channel(c.comm_in),
    {
        let (tx, rx) = string_channel();
        BotController { comm_in: rx, comm_out: tx }
    }

    /// What the prompt does about the typed line `input` while `bot` watches
    /// its channels (after passing the line on its channel), and what it
    /// reads next: a channel name after `config`,
    /// else another command.
    pub fn on_command(bot: &Bot, input: &str) -> (s: Step)
        ensures
            s.forward@ == input@,
            action_views(s.actions@) == command_actions(command_of_line(input@), bot.watched()),
            command_of_line(input@) == ControllerCommand::CONFIG ==> (s.next matches Prompt::Channel(q)
                && q@ == "add channel (blank for no)?"@),
            command_of_line(input@) != ControllerCommand::CONFIG ==> s.next is Command,
    {
        let cmd = match ControllerCommand::from_str(input) {
            Ok(c) => c,
            Err(_) => ControllerCommand::UNKNWON,
        };
        let mut actions: Vec<Action> = Vec::new();
        match cmd {
            ControllerCommand::HELP => {
                actions.push(Action::PrintLine(String::from_str("'quit' quit")));
                actions.push(Action::PrintLine(String::from_str("'help'")));
                actions.push(Action::PrintLine(String::from_str("'start'")));
                actions.push(Action::PrintLine(String::from_str("'config' => add a channel")));
                assert(action_views(actions@) =~= help_actions());
                Step { forward: String::from_str(input), actions, next: Prompt::Command }
            },
            ControllerCommand::QUIT | ControllerCommand::STOP => {
                actions.push(Action::PrintLine(String::from_str("bye")));
                actions.push(Action::Quit);
                assert(action_views(actions@) =~= quit_actions());
                Step { forward: String::from_str(input), actions, next: Prompt::Command }
            },
            ControllerCommand::START => {
                let list = bot.channel_list();
                let mut head = String::from_str("starting with ");
                head.append(decimal_string(list.len() as u64).as_str());
                head.append(" channels: ");
                actions.push(Action::Print(head));
                let mut i: usize = 0;
                while i < list.len()
                    invariant
                        i <= list@.len(),
                        action_views(actions@) =~= seq![
                            ActionView::Print(
                                "starting with "@ + decimal(list@.len()) + " channels: "@,
                            ),
                        ] + Seq::new(i as nat, |k: int| ActionView::Print(list@[k].name@ + ","@)),
                    decreases list.len() - i,
                {
                    let ghost before = action_views(actions@);
                    let mut item = list[i].to_string();
                    item.append(",");
                    actions.push(Action::Print(item));
                    assert(action_views(actions@) =~= before.push(
                        ActionView::Print(list@[i as int].name@ + ","@),
                    ));
                    i = i + 1;
                }
                actions.push(Action::RunBot);
                actions.push(Action::PrintLine(String::from_str("done")));
                assert(action_views(actions@) =~= start_actions(bot.watched()));
                Step { forward: String::from_str(input), actions, next: Prompt::Command }
            },
            ControllerCommand::CONFIG => {
                assert(action_views(actions@) =~= Seq::<ActionView>::empty());
                Step { forward: String::from_str(input), actions, next: Prompt::Channel(String::from_str("add channel (blank for no)?")) }
            },
            ControllerCommand::UNKNWON => {
                assert(action_views(actions@) =~= Seq::<ActionView>::empty());
                Step { forward: String::from_str(input), actions, next: Prompt::Command }
            },
        }
    }

    /// What the prompt does with the channel name typed after `config`:
    /// nothing for a blank line; otherwise it echoes the name as it will be
    /// shown (in blue) and adds a channel of that name in blue to the bot,
    /// reporting the refusal when the bot watches one of that name already.
    pub fn on_channel_input(bot: &mut Bot, input: String) -> (actions: Vec<Action>)
        ensures
            input@.len() == 0 ==> actions@.len() == 0 && final(bot).watched() == old(bot).watched(),
            input@.len() != 0 ==> {
                let echo = ActionView::PrintLine("=> "@ + colored(input@, prompt_channel_color()));
                if has_channel_named(old(bot).watched(), input@) {
                    &&& final(bot).watched() == old(bot).watched()
                    &&& action_views(actions@) == seq![
                        echo,
                        ActionView::PrintLine(
                            "failed to add channel: "@ + "already joined channel"@,
                        ),
                    ]
                } else {
                    &&& final(bot).watched().len() == old(bot).watched().len() + 1
                    &&& final(bot).watched().drop_last() == old(bot).watched()
                    &&& final(bot).watched().last().name@ == input@
                    &&& final(bot).watched().last().color == prompt_channel_color()
                    &&& *final(bot).watched().last().msg_rate == 0
                    &&& action_views(actions@) == seq![echo]
                }
            },
            channel_step(old(bot).watched(), input@, final(bot).watched()),
            final(bot).same_apart_from_channels(*old(bot)),
    {
        let mut actions: Vec<Action> = Vec::new();
        if input.as_str().is_empty() {
            proof {
                Bot::lemma_same_apart_from_channels_reflexive(*bot);
            }
            return actions;
        }
        proof {
            reveal_strlit("Blue");
            assert("Blue"@ =~= seq!['B', 'l', 'u', 'e']);
        }
        let blue = match parse_twitch_color("Blue") {
            Some(k) => k,
            None => {
                assert(false);
                Rgb { r: 0, g: 0, b: 255 }
            },
        };
        let ch = TwitchChannel::new(input, Some(blue));
        let mut echo = String::from_str("=> ");
        echo.append(colored_string(&ch.name, blue).as_str());
        actions.push(Action::PrintLine(echo));
        match bot.add_channel(ch) {
            Ok(()) => {},
            Err(e) => {
                let mut msg = String::from_str("failed to add channel: ");
                msg.append(e.as_str());
                actions.push(Action::PrintLine(msg));
            },
        }
        proof {
            if !has_channel_named(old(bot).watched(), input@) {
                assert(final(bot).watched().drop_last() =~= old(bot).watched());
            }
        }
        actions
    }
}


/// What a channel name typed after `config` does to the list of watched
/// channels: a blank line or a name already watched leaves it as it was;
/// any other name is appended, in blue.
pub open spec fn channel_step(
    before: Seq<TwitchChannel>,
    input: Seq<char>,
    after: Seq<TwitchChannel>,
) -> bool {
    if input.len() == 0 || has_channel_named(before, input) {
        after == before
    } else {
        &&& after.len() == before.len() + 1
        &&& after.drop_last() == before
        &&& after.last().name@ == input
        &&& after.last().color == prompt_channel_color()
    }
}

/// The answers kept by a run of `config` prompts: each non-blank answer, the
/// first time it is given, in the order given.
pub open spec fn first_answers(answers: Seq<Seq<char>>) -> Seq<Seq<char>>
    decreases answers.len(),
{
    if answers.len() == 0 {
        Seq::empty()
    } else {
        let kept = first_answers(answers.drop_last());
        let a = answers.last();
        if a.len() == 0 || kept.contains(a) {
            kept
        } else {
            kept.push(a)
        }
    }
}

/// A channel list holds a channel called `name` exactly when its names
/// include `name`.
proof fn lemma_named_iff_in_names(list: Seq<TwitchChannel>, name: Seq<char>)
    ensures
        has_channel_named(list, name) <==> channel_names(list).contains(name),
{
    if has_channel_named(list, name) {
        let i = choose|i: int| 0 <= i < list.len() && list[i].name@ == name;
        assert(channel_names(list)[i] == name);
    }
    if channel_names(list).contains(name) {
        let i = choose|i: int| 0 <= i < channel_names(list).len() && channel_names(list)[i] == name;
        assert(list[i].name@ == name);
    }
}

/// After the first `k` answers of a run that starts with no channel, the
/// watched names are the kept answers among them.
proof fn lemma_first_answers_prefix(
    answers: Seq<Seq<char>>,
    lists: Seq<Seq<TwitchChannel>>,
    k: int,
)
    requires
        lists.len() == answers.len() + 1,
        lists[0].len() == 0,
        forall|i: int|
            0 <= i < answers.len() ==> channel_step(lists[i], #[trigger] answers[i], lists[i + 1]),
        0 <= k <= answers.len(),
    ensures
        channel_names(lists[k]) == first_answers(answers.subrange(0, k)),
    decreases k,
{
    if k == 0 {
        assert(channel_names(lists[0]) =~= Seq::<Seq<char>>::empty());
    } else {
        lemma_first_answers_prefix(answers, lists, k - 1);
        let pre = answers.subrange(0, k);
        assert(pre.drop_last() =~= answers.subrange(0, k - 1));
        assert(pre.last() == answers[k - 1]);
        let before = lists[k - 1];
        let after = lists[k];
        assert(channel_step(before, answers[k - 1], after));
        lemma_named_iff_in_names(before, answers[k - 1]);
        if !(answers[k - 1].len() == 0 || has_channel_named(before, answers[k - 1])) {
            assert(channel_names(after) =~= channel_names(before).push(answers[k - 1])) by {
                assert forall|j: int| 0 <= j < before.len() implies after[j] == before[j] by {
                    assert(after.drop_last()[j] == after[j]);
                }
            }
        }
    }
}

/// Over a run of prompts that starts with no channel and answers `config`
/// with `answers`, the bot ends up watching the non-blank answers, each
/// once, in the order first given; `start` then lists exactly those.
pub proof fn config_answers_are_listed(answers: Seq<Seq<char>>, lists: Seq<Seq<TwitchChannel>>)
    requires
        lists.len() == answers.len() + 1,
        lists[0].len() == 0,
        forall|i: int|
            0 <= i < answers.len() ==> channel_step(lists[i], #[trigger] answers[i], lists[i + 1]),
    ensures
        channel_names(lists.last()) == first_answers(answers),
        ({
            let kept = first_answers(answers);
            start_actions(lists.last()) == seq![
                ActionView::Print("starting with "@ + decimal(kept.len()) + " channels: "@),
            ] + Seq::new(kept.len(), |i: int| ActionView::Print(kept[i] + ","@)) + seq![
                ActionView::RunBot,
                ActionView::PrintLine("done"@),
            ]
        }),
{
    lemma_first_answers_prefix(answers, lists, answers.len() as int);
    assert(answers.subrange(0, answers.len() as int) =~= answers);
    let last = lists.last();
    let kept = first_answers(answers);
    assert(channel_names(last).len() == last.len());
    assert(Seq::new(last.len(), |i: int| ActionView::Print(last[i].name@ + ","@)) =~= Seq::new(
        kept.len(),
        |i: int| ActionView::Print(kept[i] + ","@),
    )) by {
        assert forall|i: int| 0 <= i < last.len() implies last[i].name@ == kept[i] by {
            assert(channel_names(last)[i] == last[i].name@);
        }
    }
}

} // verus!
