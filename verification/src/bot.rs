//! The bot's side: the channels it watches, how a chat line is rendered for
//! the terminal, what it does with each event of the chat connection, and
//! the login it uses.

use rand::seq::SliceRandom;
use std::sync::mpsc::{Receiver, Sender};
use twitchchat::UserConfig;
use vstd::prelude::*;
use vstd::string::{StringExecFns, StrSliceExecFns};
use crate::comms::{receiver_channel, sender_channel, string_channel};
use crate::login::{ConfigError, LoginCapability, all_capabilities, anonymous_login, build_anonymous_login, build_login, built_config, login_checkable, login_outcome};
pub use crate::text::colored_string;
use crate::text::{colored, paint, painted};
use crate::color::{
    Rgb, white, palette_color, palette_len, palette_strings, parse_twitch_color,
    is_hash_hex, hash_hex_is_ascii, ascii_color_parse_safe,
};

verus! {

/// A chat channel being watched, with the colour its name is shown in.
#[derive(Clone, Debug)]
pub struct TwitchChannel {
    pub name: String,
    pub color: Rgb,
    /// Messages per second; starts at zero.
    pub msg_rate: Box<i8>,
}

/// Picks one entry of `options` with rand's `SliceRandom::choose`, driven by
/// the thread-local generator.
///
/// Trusted: from rand's source, `choose` returns `None` exactly on an empty
/// slice and otherwise one of its elements; which one is left to chance.
#[verifier::external_body]
fn choose_at_random<'a>(options: &[&'a str]) -> (r: Option<&'a str>)
    ensures
        options@.len() == 0 <==> r is None,
        r matches Some(x) ==> exists|i: int| 0 <= i < options@.len() && options@[i] == x,
{
    let mut rng = rand::thread_rng();
    options.choose(&mut rng).copied()
}

impl TwitchChannel {
    /// A channel called `name`, shown in `color`, or in a colour picked at
    /// random from the palette when none is given.
    pub fn new(name: String, color: Option<Rgb>) -> (c: TwitchChannel)
        ensures
            c.name@ == name@,
            *c.msg_rate == 0,
            color matches Some(k) ==> c.color == k,
            color is None ==> exists|i: int| 0 <= i < palette_len() && c.color == palette_color(i),
    {
        let chan_color = match color {
            Some(k) => k,
            None => {
                let options = palette_strings();
                match choose_at_random(options.as_slice()) {
                    Some(hex) => {
                        let ghost i = choose|i: int| 0 <= i < options@.len() && options@[i] == hex;
                        assert(is_hash_hex(options@[i]@));
                        proof {
                            hash_hex_is_ascii(hex@);
                            ascii_color_parse_safe(hex@);
                        }
                        match parse_twitch_color(hex) {
                            Some(k) => {
                                assert(k == palette_color(i));
                                k
                            },
                            None => {
                                assert(false);
                                Rgb { r: 255, g: 255, b: 255 }
                            },
                        }
                    },
                    None => {
                        assert(false);
                        Rgb { r: 255, g: 255, b: 255 }
                    },
                }
            },
        };
        TwitchChannel { name, color: chan_color, msg_rate: Box::new(0) }
    }

    /// The channel as it is written in a list: its name.
    pub fn to_string(&self) -> (s: String)
        ensures
            s@ == self.name@,
    {
        self.name.clone()
    }
}

/// A chat message as the watcher reads it.
#[derive(Clone, Debug)]
pub struct ChatMessage {
    /// The channel it was sent in, with its leading `#`.
    pub channel: String,
    /// Who sent it.
    pub name: String,
    /// What was said.
    pub data: String,
    /// The sender's colour, when the message carries one.
    pub color: Option<Rgb>,
}

/// The colour a message's sender is shown in: theirs, else white.
pub open spec fn sender_color(m: ChatMessage) -> Rgb {
    match m.color {
        Some(k) => k,
        None => white(),
    }
}

/// The terminal line for message `m` shown under a channel called `name` in
/// colour `c`: the coloured channel, a space, the coloured sender, `: ` and
/// the text.
pub open spec fn chat_line(name: Seq<char>, c: Rgb, m: ChatMessage) -> Seq<char> {
    colored(name, c) + seq![' '] + painted(sender_color(m), m.name@) + seq![':', ' '] + m.data@
}

/// `i` is the first position in `list` of a channel called `target`.
pub open spec fn first_named(list: Seq<TwitchChannel>, target: Seq<char>, i: int) -> bool {
    &&& 0 <= i < list.len()
    &&& list[i].name@ == target
    &&& forall|j: int| 0 <= j < i ==> list[j].name@ != target
}

/// The name of a message's channel without its leading `#`.
pub open spec fn bare_channel(m: ChatMessage) -> Seq<char> {
    m.channel@.drop_first()
}

/// The line for `m` under the first channel of `list` that it was sent in,
/// or under a white channel called `na` when none of them is.
pub open spec fn listed_chat_line(list: Seq<TwitchChannel>, m: ChatMessage) -> Seq<char> {
    if exists|i: int| first_named(list, bare_channel(m), i) {
        let i = choose|i: int| first_named(list, bare_channel(m), i);
        chat_line(list[i].name@, list[i].color, m)
    } else {
        chat_line(seq!['n', 'a'], white(), m)
    }
}

/// The terminal line for message `pm`, under `channel`.
pub fn print_term_string(channel: &TwitchChannel, pm: &ChatMessage) -> (s: String)
    ensures
        s@ == chat_line(channel.name@, channel.color, *pm),
{
    proof {
        reveal_strlit(" ");
        reveal_strlit(": ");
    }
    let sender = match pm.color {
        Some(k) => k,
        None => Rgb { r: 255, g: 255, b: 255 },
    };
    let mut s = colored_string(&channel.name, channel.color);
    s.append(" ");
    s.append(paint(sender, pm.name.as_str()).as_str());
    s.append(": ");
    s.append(pm.data.as_str());
    assert(s@ =~= chat_line(channel.name@, channel.color, *pm));
    s
}

/// The terminal line for message `pm`, under the first channel of
/// `chan_list` it was sent in (a white `na` when there is none).
pub fn term_string(chan_list: &Vec<TwitchChannel>, pm: &ChatMessage) -> (s: String)
    requires
        pm.channel@.len() > 0,
        (pm.channel@[0] as u32) < 128,
    ensures
        s@ == listed_chat_line(chan_list@, *pm),
{
    proof {
        reveal_strlit("na");
    }
    let whole = pm.channel.as_str();
    let target = String::from_str(whole.substring_char(1, whole.unicode_len()));
    assert(target@ =~= bare_channel(*pm));
    let mut i: usize = 0;
    while i < chan_list.len()
        invariant
            0 <= i <= chan_list@.len(),
            target@ == bare_channel(*pm),
            forall|j: int| 0 <= j < i ==> chan_list@[j].name@ != target@,
        decreases chan_list.len() - i,
    {
        if chan_list[i].name == target {
            let s = print_term_string(&chan_list[i], pm);
            assert(first_named(chan_list@, target@, i as int));
            proof {
                let k = choose|k: int| first_named(chan_list@, bare_channel(*pm), k);
                assert(k == i);
            }
            return s;
        }
        i = i + 1;
    }
    let fallback = TwitchChannel {
        name: String::from_str("na"),
        color: Rgb { r: 255, g: 255, b: 255 },
        msg_rate: Box::new(0),
    };
    let s = print_term_string(&fallback, pm);
    assert(forall|k: int| !first_named(chan_list@, bare_channel(*pm), k));
    s
}

/// The names of a list of channels, in order.
pub open spec fn channel_names(list: Seq<TwitchChannel>) -> Seq<Seq<char>> {
    Seq::new(list.len(), |i: int| list[i].name@)
}

/// No two channels of the list share a name.
pub open spec fn names_distinct(list: Seq<TwitchChannel>) -> bool {
    forall|i: int, j: int|
        0 <= i < list.len() && 0 <= j < list.len() && i != j ==> list[i].name@ != list[j].name@
}

/// Some channel of the list is called `name`.
pub open spec fn has_channel_named(list: Seq<TwitchChannel>, name: Seq<char>) -> bool {
    exists|i: int| 0 <= i < list.len() && list[i].name@ == name
}

/// `parts` written one after another with a comma between each two.
pub open spec fn joined_by_commas(parts: Seq<Seq<char>>) -> Seq<char>
    decreases parts.len(),
{
    if parts.len() == 0 {
        seq![]
    } else if parts.len() == 1 {
        parts[0]
    } else {
        joined_by_commas(parts.drop_last()) + seq![','] + parts.last()
    }
}

/// Each part is free of commas.
pub open spec fn comma_free(parts: Seq<Seq<char>>) -> bool {
    forall|i: int| 0 <= i < parts.len() ==> !(#[trigger] parts[i]).contains(',')
}

/// The pieces that `s.split(",")` gives: at least one, none holding a comma,
/// and joined by commas they give back `s`.
pub open spec fn comma_pieces(s: Seq<char>, parts: Seq<Seq<char>>) -> bool {
    &&& parts.len() >= 1
    &&& comma_free(parts)
    &&& joined_by_commas(parts) == s
}

/// Extending the last of the pieces by one character extends the joined text.
proof fn lemma_join_extend_last(parts: Seq<Seq<char>>, last: Seq<char>, c: char)
    ensures
        joined_by_commas(parts.push(last.push(c))) == joined_by_commas(parts.push(last)).push(c),
{
    let a = parts.push(last.push(c));
    let b = parts.push(last);
    assert(a.drop_last() =~= parts);
    assert(b.drop_last() =~= parts);
    if parts.len() == 0 {
        assert(joined_by_commas(a) == a[0]);
    } else {
        assert(joined_by_commas(a) =~= joined_by_commas(parts) + seq![','] + last.push(c));
        assert(joined_by_commas(b) =~= joined_by_commas(parts) + seq![','] + last);
    }
}

/// Closing the last piece at a comma and opening an empty one.
proof fn lemma_join_new_piece(parts: Seq<Seq<char>>, last: Seq<char>)
    ensures
        joined_by_commas(parts.push(last).push(Seq::empty())) == joined_by_commas(
            parts.push(last),
        ).push(','),
{
    let a = parts.push(last).push(Seq::<char>::empty());
    assert(a.drop_last() =~= parts.push(last));
    assert(joined_by_commas(a) =~= joined_by_commas(parts.push(last)) + seq![','] + Seq::<
        char,
    >::empty());
}

/// Joining more than one piece puts a comma right after the join of all but
/// the last.
proof fn lemma_join_shape(parts: Seq<Seq<char>>)
    requires
        parts.len() > 1,
    ensures
        joined_by_commas(parts) == joined_by_commas(parts.drop_last()) + seq![','] + parts.last(),
        joined_by_commas(parts).len() == joined_by_commas(parts.drop_last()).len() + 1
            + parts.last().len(),
        joined_by_commas(parts)[joined_by_commas(parts.drop_last()).len() as int] == ',',
{
}

/// Cutting text at its commas has one answer: two lists of comma-free
/// pieces (at least one each) that join to the same text are the same list.
pub proof fn comma_pieces_unique(s: Seq<char>, a: Seq<Seq<char>>, b: Seq<Seq<char>>)
    requires
        comma_pieces(s, a),
        comma_pieces(s, b),
    ensures
        a == b,
    decreases a.len(),
{
    if a.len() == 1 && b.len() == 1 {
        assert(a =~= b);
    } else if a.len() == 1 {
        lemma_join_shape(b);
        let k = joined_by_commas(b.drop_last()).len() as int;
        assert(a[0] == s);
        assert(a[0][k] == ',');
        assert(!a[0].contains(','));
    } else if b.len() == 1 {
        lemma_join_shape(a);
        let k = joined_by_commas(a.drop_last()).len() as int;
        assert(b[0] == s);
        assert(b[0][k] == ',');
        assert(!b[0].contains(','));
    } else {
        lemma_join_shape(a);
        lemma_join_shape(b);
        let a1 = a.drop_last();
        let b1 = b.drop_last();
        let la = a.last();
        let lb = b.last();
        let ka = joined_by_commas(a1).len() as int;
        let kb = joined_by_commas(b1).len() as int;
        assert(!la.contains(',')) by {
            assert(la == a[a.len() - 1]);
        }
        assert(!lb.contains(',')) by {
            assert(lb == b[b.len() - 1]);
        }
        if la.len() < lb.len() {
            let j = lb.len() - la.len() - 1;
            assert(s[ka] == ',');
            assert(s[kb + 1 + j] == lb[j]);
            assert(kb + 1 + j == ka);
            assert(lb[j] == ',');
        } else if lb.len() < la.len() {
            let j = la.len() - lb.len() - 1;
            assert(s[kb] == ',');
            assert(s[ka + 1 + j] == la[j]);
            assert(ka + 1 + j == kb);
            assert(la[j] == ',');
        } else {
            assert(la =~= lb) by {
                assert forall|j: int| 0 <= j < la.len() implies la[j] == lb[j] by {
                    assert(s[ka + 1 + j] == la[j]);
                    assert(s[kb + 1 + j] == lb[j]);
                }
            }
            assert(joined_by_commas(a1) =~= joined_by_commas(b1)) by {
                assert forall|j: int| 0 <= j < ka implies joined_by_commas(a1)[j]
                    == joined_by_commas(b1)[j] by {
                    assert(s[j] == joined_by_commas(a1)[j]);
                    assert(s[j] == joined_by_commas(b1)[j]);
                }
            }
            assert(comma_free(a1)) by {
                assert forall|i: int| 0 <= i < a1.len() implies !(#[trigger] a1[i]).contains(',') by {
                    assert(a1[i] == a[i]);
                }
            }
            assert(comma_free(b1)) by {
                assert forall|i: int| 0 <= i < b1.len() implies !(#[trigger] b1[i]).contains(',') by {
                    assert(b1[i] == b[i]);
                }
            }
            comma_pieces_unique(joined_by_commas(a1), a1, b1);
            assert(a =~= a1.push(la));
            assert(b =~= b1.push(lb));
        }
    }
}

/// `s` cut at each comma, as `str::split(",")` cuts it.
pub fn split_at_commas(s: &str) -> (parts: Vec<String>)
    ensures
        comma_pieces(s@, parts@.map_values(|p: String| p@)),
{
    let n = s.unicode_len();
    let mut parts: Vec<String> = Vec::new();
    let mut start: usize = 0;
    let mut i: usize = 0;
    while i < n
        invariant
            n == s@.len(),
            start <= i <= n,
            comma_free(parts@.map_values(|p: String| p@)),
            !s@.subrange(start as int, i as int).contains(','),
            joined_by_commas(parts@.map_values(|p: String| p@).push(s@.subrange(start as int, i as int)))
                == s@.subrange(0, i as int),
        decreases n - i,
    {
        let ghost views = parts@.map_values(|p: String| p@);
        let ghost last = s@.subrange(start as int, i as int);
        let c = s.get_char(i);
        if c == ',' {
            let piece = String::from_str(s.substring_char(start, i));
            parts.push(piece);
            proof {
                lemma_join_new_piece(views, last);
                assert(parts@.map_values(|p: String| p@) =~= views.push(last));
                assert(s@.subrange(0, i + 1) =~= s@.subrange(0, i as int).push(','));
                assert(s@.subrange((i + 1) as int, (i + 1) as int) =~= Seq::<char>::empty());
                assert forall|k: int| 0 <= k < views.push(last).len() implies !(#[trigger] views.push(
                    last,
                )[k]).contains(',') by {
                    if k < views.len() {
                        assert(views.push(last)[k] == views[k]);
                    }
                }
            }
            start = i + 1;
        } else {
            proof {
                lemma_join_extend_last(views, last, c);
                assert(s@.subrange(start as int, i + 1) =~= last.push(c));
                assert(s@.subrange(0, i + 1) =~= s@.subrange(0, i as int).push(c));
                assert forall|k: int| 0 <= k < last.push(c).len() implies last.push(c)[k] != ',' by {
                    if k < last.len() {
                        assert(last.push(c)[k] == last[k]);
                        assert(!last.contains(','));
                    }
                }
            }
        }
        i = i + 1;
    }
    let ghost views = parts@.map_values(|p: String| p@);
    let piece = String::from_str(s.substring_char(start, n));
    parts.push(piece);
    proof {
        assert(parts@.map_values(|p: String| p@) =~= views.push(s@.subrange(start as int, n as int)));
        assert(s@.subrange(0, n as int) =~= s@);
        let all = parts@.map_values(|p: String| p@);
        assert forall|k: int| 0 <= k < all.len() implies !(#[trigger] all[k]).contains(',') by {
            if k < views.len() {
                assert(all[k] == views[k]);
            }
        }
    }
    parts
}

/// The text of the error for an unset environment variable `key`.
pub open spec fn unset_var_message(key: Seq<char>) -> Seq<char> {
    seq!['y', 'o', 'u', ' ', 'n', 'e', 'e', 'd', ' ', 't', 'o', ' ', 's', 'e', 't', ' ', 't', 'h', 'e', ' ']
        + key + seq![' ', 'e', 'n', 'v', ' ', 'v', 'a', 'r', '.']
}

/// What reading environment variable `key` comes to, given its value
/// (`None` where it is unset or not valid unicode): the value, or an error
/// that says to set it.
pub open spec fn env_result(key: Seq<char>, value: Option<String>, r: Result<String, String>) -> bool {
    match value {
        Some(v) => r matches Ok(x) && x@ == v@,
        None => r matches Err(e) && e@ == unset_var_message(key),
    }
}

/// The value of environment variable `key`, or the error to report when it
/// is unset.
pub fn get_env(key: &str, value: Option<String>) -> (r: Result<String, String>)
    ensures
        env_result(key@, value, r),
{
    proof {
        reveal_strlit("you need to set the ");
        reveal_strlit(" env var.");
    }
    match value {
        Some(v) => Ok(v),
        None => {
            let mut e = String::from_str("you need to set the ");
            e.append(key);
            e.append(" env var.");
            assert(e@ =~= unset_var_message(key@));
            Err(e)
        },
    }
}

/// The login name, from `TWITCH_NAME`.
pub fn get_username(value: Option<String>) -> (r: Result<String, String>)
    ensures
        env_result("TWITCH_NAME"@, value, r),
{
    get_env("TWITCH_NAME", value)
}

/// The login token, from `TWITCH_TOKEN`.
pub fn get_token(value: Option<String>) -> (r: Result<String, String>)
    ensures
        env_result("TWITCH_TOKEN"@, value, r),
{
    get_env("TWITCH_TOKEN", value)
}

/// The channels named, comma-separated, in `TWITCH_CHANNEL`, each in a
/// colour from the palette.
pub fn get_channels(value: Option<String>) -> (r: Result<Vec<TwitchChannel>, String>)
    ensures
        value is None ==> (r matches Err(e) && e@ == unset_var_message("TWITCH_CHANNEL"@)),
        value matches Some(v) ==> (r matches Ok(list) && comma_pieces(v@, channel_names(list@))
            && fresh_palette_channels(list@)),
{
    let list = get_env("TWITCH_CHANNEL", value)?;
    let parts = split_at_commas(list.as_str());
    let ghost views = parts@.map_values(|p: String| p@);
    let mut channels: Vec<TwitchChannel> = Vec::new();
    let mut i: usize = 0;
    while i < parts.len()
        invariant
            i <= parts@.len(),
            views == parts@.map_values(|p: String| p@),
            channels@.len() == i,
            forall|k: int| 0 <= k < i ==> #[trigger] channels@[k].name@ == views[k],
            fresh_palette_channels(channels@),
        decreases parts.len() - i,
    {
        let c = TwitchChannel::new(parts[i].clone(), None);
        channels.push(c);
        i = i + 1;
    }
    assert(channel_names(channels@) =~= views);
    Ok(channels)
}

/// Every channel of the list has a palette colour and no message rate yet.
pub open spec fn fresh_palette_channels(list: Seq<TwitchChannel>) -> bool {
    forall|k: int|
        0 <= k < list.len() ==> *(#[trigger] list[k]).msg_rate == 0 && exists|p: int|
            0 <= p < palette_len() && list[k].color == palette_color(p)
}

/// The bot: the login it joins chat with and the channels it watches.
#[derive(Debug)]
pub struct Bot {
    user_config: UserConfig,
    login_name: String,
    login_token: String,
    login_capabilities: Vec<LoginCapability>,
    channels: Vec<TwitchChannel>,
    comms_in: Receiver<String>,
    comms_out: Sender<String>,
    running: bool,
}

impl Bot {
    /// A bot that watches no channel yet and logs in anonymously.
    pub fn new() -> (b: Bot)
        ensures
            b.watched().len() == 0,
            !b.is_running(),
            b.login_name() == anonymous_login(),
            b.login_token() == anonymous_login(),
            b.login_capabilities() == all_capabilities(),
            b.login_config() == built_config(anonymous_login(), anonymous_login()),
            b.comms_linked(),
    {
        let login = build_anonymous_login().unwrap();
        let (comms_out, comms_in) = string_channel();
        Bot {
            user_config: login.config,
            login_name: login.name,
            login_token: login.token,
            login_capabilities: login.capabilities,
            channels: Vec::new(),
            running: false,
            comms_in,
            comms_out,
        }
    }

    /// The login the bot joins chat with.
    pub closed spec fn login_config(&self) -> UserConfig {
        self.user_config
    }

    /// The name the bot's login holds.
    pub closed spec fn login_name(&self) -> Seq<char> {
        self.login_name@
    }

    /// The token the bot's login holds.
    pub closed spec fn login_token(&self) -> Seq<char> {
        self.login_token@
    }

    /// The capabilities the bot's login asks for.
    pub closed spec fn login_capabilities(&self) -> Seq<LoginCapability> {
        self.login_capabilities@
    }

    /// The bot's two string-channel ends belong to one channel: what it
    /// sends on its outgoing end arrives at its incoming end.
    pub closed spec fn comms_linked(&self) -> bool {
        sender_channel(self.comms_out) == receiver_channel(self.comms_in)
    }

    /// `self` and `other` differ at most in their login: same channels, same
    /// string-channel ends, same running state.
    pub closed spec fn same_apart_from_login(&self, other: Bot) -> bool {
        &&& self.channels@ == other.channels@
        &&& self.comms_in == other.comms_in
        &&& self.comms_out == other.comms_out
        &&& self.running == other.running
    }

    /// Every bot differs at most in its channels from itself.
    pub proof fn lemma_same_apart_from_channels_reflexive(b: Bot)
        ensures
            b.same_apart_from_channels(b),
    {
    }

    /// `self` and `other` differ at most in the channels they watch: same
    /// login, same string-channel ends, same running state.
    pub closed spec fn same_apart_from_channels(&self, other: Bot) -> bool {
        &&& self.user_config == other.user_config
        &&& self.login_name@ == other.login_name@
        &&& self.login_token@ == other.login_token@
        &&& self.login_capabilities@ == other.login_capabilities@
        &&& self.comms_in == other.comms_in
        &&& self.comms_out == other.comms_out
        &&& self.running == other.running
    }

    /// The channels the bot watches, in the order they were added.
    pub closed spec fn watched(&self) -> Seq<TwitchChannel> {
        self.channels@
    }

    /// The channels the bot watches.
    pub fn channel_list(&self) -> (r: &Vec<TwitchChannel>)
        ensures
            r@ == self.watched(),
    {
        &self.channels
    }

    /// Whether the bot is running.
    pub closed spec fn is_running(&self) -> bool {
        self.running
    }

    /// The login the bot joins chat with.
    pub fn user_config(&self) -> (c: &UserConfig)
        ensures
            *c == self.login_config(),
    {
        &self.user_config
    }

    /// Starts watching `channel`, unless a channel of that name is watched
    /// already: then the list stays as it was and the error says so.
    pub fn add_channel(&mut self, channel: TwitchChannel) -> (r: Result<(), String>)
        ensures
            r is Err <==> has_channel_named(old(self).watched(), channel.name@),
            r matches Err(e) ==> e@ == "already joined channel"@ && final(self).watched()
                == old(self).watched(),
            r is Ok ==> final(self).watched() == old(self).watched().push(channel),
            names_distinct(old(self).watched()) ==> names_distinct(final(self).watched()),
            final(self).same_apart_from_channels(*old(self)),
    {
        let mut i: usize = 0;
        while i < self.channels.len()
            invariant
                i <= self.channels@.len(),
                self.channels@ == old(self).watched(),
                forall|k: int| 0 <= k < i ==> self.channels@[k].name@ != channel.name@,
            decreases self.channels.len() - i,
        {
            if self.channels[i].name == channel.name {
                return Err(String::from_str("already joined channel"));
            }
            i = i + 1;
        }
        self.channels.push(channel);
        Ok(())
    }

    /// Logs in as `username` with `token` from now on. A login that
    /// twitchchat refuses leaves the bot as it was and gives the reason.
    pub fn set_config(&mut self, username: String, token: String) -> (r: Result<(), ConfigError>)
        requires
            login_checkable(username@, token@),
        ensures
            r == login_outcome(username@, token@),
            r is Ok ==> final(self).login_config() == built_config(username@, token@),
            r is Ok ==> final(self).login_name() == username@ && final(self).login_token()
                == token@,
            r is Ok ==> final(self).login_capabilities() == all_capabilities(),
            r is Ok ==> final(self).same_apart_from_login(*old(self)),
            r is Err ==> final(self).same_apart_from_channels(*old(self)),
            final(self).watched() == old(self).watched(),
            final(self).is_running() == old(self).is_running(),
            final(self).comms_linked() == old(self).comms_linked(),
    {
        match build_login(username.as_str(), token.as_str()) {
            Ok(l) => {
                self.user_config = l.config;
                self.login_name = l.name;
                self.login_token = l.token;
                self.login_capabilities = l.capabilities;
                Ok(())
            },
            Err(e) => Err(e),
        }
    }

    /// Watches the channels listed in `TWITCH_CHANNEL` (given as `value`),
    /// or none when it is unset; then the notice to show says why.
    pub fn set_channels(&mut self, value: Option<String>) -> (notice: Option<String>)
        ensures
            value matches Some(v) ==> notice is None && comma_pieces(
                v@,
                channel_names(final(self).watched()),
            ) && fresh_palette_channels(final(self).watched()),
            value is None ==> final(self).watched().len() == 0 && (notice matches Some(n) && n@
                == seq!['n', 'o', ' ', 'c', 'h', 'a', 'n', 'n', 'e', 'l', 's', ' ', 'p', 'r', 'o', 'v', 'i', 'd', 'e', 'd', ' ', '(']
                + unset_var_message("TWITCH_CHANNEL"@) + seq![')']),
            final(self).same_apart_from_channels(*old(self)),
    {
        proof {
            reveal_strlit("no channels provided (");
            reveal_strlit(")");
        }
        match get_channels(value) {
            Ok(list) => {
                self.channels = list;
                None
            },
            Err(e) => {
                self.channels = Vec::new();
                let mut n = String::from_str("no channels provided (");
                n.append(e.as_str());
                n.append(")");
                Some(n)
            },
        }
    }
}

/// A channel just added is found by its name: a second channel of that name
/// is then refused by `add_channel`.
pub proof fn added_channel_is_found(list: Seq<TwitchChannel>, c: TwitchChannel)
    ensures
        has_channel_named(list.push(c), c.name@),
{
    assert(list.push(c)[list.len() as int] == c);
}

/// A message shown against a channel list appears under the first listed
/// channel it was sent in, exactly as `print_term_string` shows it there.
pub proof fn listed_line_is_channel_line(list: Seq<TwitchChannel>, m: ChatMessage, i: int)
    requires
        first_named(list, bare_channel(m), i),
    ensures
        listed_chat_line(list, m) == chat_line(list[i].name@, list[i].color, m),
{
    let k = choose|k: int| first_named(list, bare_channel(m), k);
    assert(k == i);
}

/// The line for a message ends with the message's whole text, and what
/// stands before the text depends only on the channel it is shown under and
/// on the sender's name and colour: two messages from the same sender give
/// lines that differ only in their text.
pub proof fn chat_line_ends_with_text(name: Seq<char>, c: Rgb, m1: ChatMessage, m2: ChatMessage)
    requires
        m1.name@ == m2.name@,
        m1.color == m2.color,
    ensures
        ({
            let l1 = chat_line(name, c, m1);
            let l2 = chat_line(name, c, m2);
            &&& l1.len() >= m1.data@.len()
            &&& l1.subrange(l1.len() - m1.data@.len(), l1.len() as int) == m1.data@
            &&& l1.subrange(0, l1.len() - m1.data@.len()) == l2.subrange(
                0,
                l2.len() - m2.data@.len(),
            )
        }),
{
    let p = colored(name, c) + seq![' '] + painted(sender_color(m1), m1.name@) + seq![':', ' '];
    let l1 = chat_line(name, c, m1);
    let l2 = chat_line(name, c, m2);
    assert(l1 =~= p + m1.data@);
    assert(l2 =~= p + m2.data@);
    assert(l1.subrange(l1.len() - m1.data@.len(), l1.len() as int) =~= m1.data@);
    assert(l1.subrange(0, l1.len() - m1.data@.len()) =~= p);
    assert(l2.subrange(0, l2.len() - m2.data@.len()) =~= p);
}

/// A message is shown under the first channel of the list, wherever in the
/// list it stands, whose name is the message's channel without its `#`.
pub proof fn listed_line_under_first_match(list: Seq<TwitchChannel>, m: ChatMessage, i: int)
    requires
        0 <= i < list.len(),
        list[i].name@ == m.channel@.drop_first(),
        forall|j: int| 0 <= j < i ==> list[j].name@ != m.channel@.drop_first(),
    ensures
        listed_chat_line(list, m) == chat_line(list[i].name@, list[i].color, m),
{
    assert(first_named(list, bare_channel(m), i));
    let k = choose|k: int| first_named(list, bare_channel(m), k);
    if k < i {
        assert(list[k].name@ != m.channel@.drop_first());
    } else if k > i {
        assert(list[i].name@ != bare_channel(m));
    }
}

/// Only when no channel of the whole list has the message's channel name is
/// the message shown under a white `na`.
pub proof fn listed_line_without_match(list: Seq<TwitchChannel>, m: ChatMessage)
    requires
        forall|j: int| 0 <= j < list.len() ==> list[j].name@ != m.channel@.drop_first(),
    ensures
        listed_chat_line(list, m) == chat_line(seq!['n', 'a'], Rgb { r: 255, g: 255, b: 255 }, m),
{
    assert(forall|k: int| !first_named(list, bare_channel(m), k));
}

/// The lines for a list of channels cut in two are the lines for the first
/// part followed by those for the second.
pub proof fn matching_lines_split(a: Seq<TwitchChannel>, b: Seq<TwitchChannel>, m: ChatMessage)
    ensures
        matching_lines(a + b, m) == matching_lines(a, m) + matching_lines(b, m),
    decreases b.len(),
{
    if b.len() == 0 {
        assert(a + b =~= a);
        assert(matching_lines(b, m) =~= Seq::<Seq<char>>::empty());
        assert(matching_lines(a, m) + matching_lines(b, m) =~= matching_lines(a, m));
    } else {
        matching_lines_split(a, b.drop_last(), m);
        assert((a + b).drop_last() =~= a + b.drop_last());
        assert((a + b).last() == b.last());
        let ca = matching_lines(a, m);
        let rb = matching_lines(b.drop_last(), m);
        if m.channel@ == seq!['#'] + b.last().name@ {
            assert(ca + rb.push(chat_line(b.last().name@, b.last().color, m)) =~= (ca + rb).push(
                chat_line(b.last().name@, b.last().color, m),
            ));
        }
    }
}

/// One channel gets the message's line exactly when the message was sent
/// in it: the message's channel is `#` followed by the channel's name, no
/// more and no less.
pub proof fn matching_lines_single(c: TwitchChannel, m: ChatMessage)
    ensures
        matching_lines(seq![c], m) == (if m.channel@ == seq!['#'] + c.name@ {
            seq![chat_line(c.name@, c.color, m)]
        } else {
            Seq::<Seq<char>>::empty()
        }),
{
    assert(seq![c].drop_last() =~= Seq::<TwitchChannel>::empty());
    assert(seq![c].last() == c);
    assert(matching_lines(Seq::<TwitchChannel>::empty(), m) =~= Seq::<Seq<char>>::empty());
    assert(Seq::<Seq<char>>::empty().push(chat_line(c.name@, c.color, m)) =~= seq![
        chat_line(c.name@, c.color, m),
    ]);
}

/// What the chat connection reports.
#[derive(Clone, Debug)]
pub enum ChatEvent {
    /// A chat message.
    Message(ChatMessage),
    /// The connection reached its end.
    Eof,
    /// The connection was asked to quit.
    Quit,
    /// Anything else.
    Other,
}

/// What the watcher does about one event: print `lines`, pass the message on
/// `forwards` times, and stop reading when `stop` is set.
#[derive(Debug)]
pub struct Reaction {
    pub lines: Vec<String>,
    pub forwards: usize,
    pub stop: bool,
}

/// The lines for message `m`, one for each channel of `list` it was sent in,
/// in the order of the list.
pub open spec fn matching_lines(list: Seq<TwitchChannel>, m: ChatMessage) -> Seq<Seq<char>>
    decreases list.len(),
{
    if list.len() == 0 {
        seq![]
    } else {
        let rest = matching_lines(list.drop_last(), m);
        let c = list.last();
        if m.channel@ == seq!['#'] + c.name@ {
            rest.push(chat_line(c.name@, c.color, m))
        } else {
            rest
        }
    }
}

/// The views of a list of strings.
pub open spec fn string_views(v: Seq<String>) -> Seq<Seq<char>> {
    v.map_values(|s: String| s@)
}

/// How the watcher answers `event` while it watches `channels`: a message
/// gets a line under each channel it was sent in and is passed on once per
/// watched channel; the end of the stream prints `EOF` and stops; a quit
/// prints `Bye`; anything else is passed over.
pub fn on_chat_event(channels: &Vec<TwitchChannel>, event: &ChatEvent) -> (r: Reaction)
    ensures
        match *event {
            ChatEvent::Message(m) => string_views(r.lines@) == matching_lines(channels@, m)
                && r.forwards == channels@.len() && !r.stop,
            ChatEvent::Eof => string_views(r.lines@) == seq![seq!['E', 'O', 'F']] && r.forwards
                == 0 && r.stop,
            ChatEvent::Quit => string_views(r.lines@) == seq![seq!['B', 'y', 'e']] && r.forwards
                == 0 && !r.stop,
            ChatEvent::Other => r.lines@.len() == 0 && r.forwards == 0 && !r.stop,
        },
{
    proof {
        reveal_strlit("EOF");
        reveal_strlit("Bye");
        reveal_strlit("#");
    }
    match event {
        ChatEvent::Message(pm) => {
            let mut lines: Vec<String> = Vec::new();
            let mut i: usize = 0;
            while i < channels.len()
                invariant
                    i <= channels@.len(),
                    string_views(lines@) == matching_lines(channels@.subrange(0, i as int), *pm),
                decreases channels.len() - i,
            {
                let chan = &channels[i];
                proof {
                    reveal_strlit("#");
                }
                let mut tagged = String::from_str("#");
                tagged.append(chan.name.as_str());
                assert(tagged@ =~= seq!['#'] + chan.name@);
                assert(channels@.subrange(0, i + 1).last() == *chan);
                assert(channels@.subrange(0, i + 1).drop_last() =~= channels@.subrange(0, i as int));
                let ghost before = lines@;
                if pm.channel == tagged {
                    lines.push(print_term_string(chan, pm));
                    assert(string_views(lines@) =~= string_views(before).push(
                        chat_line(chan.name@, chan.color, *pm),
                    ));
                }
                i = i + 1;
            }
            assert(channels@.subrange(0, channels@.len() as int) =~= channels@);
            Reaction { lines, forwards: channels.len(), stop: false }
        },
        ChatEvent::Eof => {
            let mut lines: Vec<String> = Vec::new();
            lines.push(String::from_str("EOF"));
            assert(string_views(lines@) =~~= seq![seq!['E', 'O', 'F']]);
            Reaction { lines, forwards: 0, stop: true }
        },
        ChatEvent::Quit => {
            let mut lines: Vec<String> = Vec::new();
            lines.push(String::from_str("Bye"));
            assert(string_views(lines@) =~~= seq![seq!['B', 'y', 'e']]);
            Reaction { lines, forwards: 0, stop: false }
        },
        ChatEvent::Other => Reaction { lines: Vec::new(), forwards: 0, stop: false },
    }
}

/// The line that reports joining channel `name`: `Joined #name`, or
/// `error joining #name` when the join failed.
pub fn join_report(name: &String, joined: bool) -> (s: String)
    ensures
        joined ==> s@ == seq!['J', 'o', 'i', 'n', 'e', 'd', ' ', '#'] + name@,
        !joined ==> s@ == seq!['e', 'r', 'r', 'o', 'r', ' ', 'j', 'o', 'i', 'n', 'i', 'n', 'g', ' ', '#'] + name@,
{
    proof {
        reveal_strlit("Joined #");
        reveal_strlit("error joining #");
    }
    let mut s = if joined {
        String::from_str("Joined #")
    } else {
        String::from_str("error joining #")
    };
    s.append(name.as_str());
    s
}

} // verus!
