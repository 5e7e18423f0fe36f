//! The command interpreter: splitting a line into tokens, the alias table,
//! and the help text.

use vstd::prelude::*;
use vstd::string::StrSliceExecFns;
use vstd::string::StringExecFns;
use crate::text::{chars_of, is_whitespace, is_whitespace_char, same_text, texts};

verus! {

/// `s` without the white space at its end.
pub open spec fn trim_end(s: Seq<char>) -> Seq<char>
    decreases s.len(),
{
    if s.len() > 0 && is_whitespace(s.last()) {
        trim_end(s.drop_last())
    } else {
        s
    }
}

/// The pieces of `s` between its spaces. Every space ends one piece and starts
/// the next, so `n` spaces give `n + 1` pieces, some of them possibly empty.
pub open spec fn split_spaces(s: Seq<char>) -> Seq<Seq<char>>
    decreases s.len(),
{
    if s.len() == 0 {
        seq![Seq::<char>::empty()]
    } else {
        let before = split_spaces(s.drop_last());
        if s.last() == ' ' {
            before.push(Seq::<char>::empty())
        } else {
            before.drop_last().push(before.last().push(s.last()))
        }
    }
}

/// The tokens of an input line: the command first, then its arguments.
pub open spec fn tokens_of(line: Seq<char>) -> Seq<Seq<char>> {
    split_spaces(trim_end(line))
}

/// The tokens, written one after the other with a space between neighbours.
pub open spec fn joined(tokens: Seq<Seq<char>>) -> Seq<char>
    decreases tokens.len(),
{
    if tokens.len() == 0 {
        Seq::<char>::empty()
    } else if tokens.len() == 1 {
        tokens[0]
    } else {
        joined(tokens.drop_last()) + seq![' '] + tokens.last()
    }
}

/// What is trimmed is white space and nothing else: `trim_end(s)` begins `s`,
/// does not end in white space, and only white space follows it in `s`.
pub proof fn lemma_trim_end(s: Seq<char>)
    ensures
        trim_end(s).len() <= s.len(),
        trim_end(s) == s.take(trim_end(s).len() as int),
        trim_end(s).len() > 0 ==> !is_whitespace(trim_end(s).last()),
        forall|k: int| trim_end(s).len() <= k < s.len() ==> is_whitespace(s[k]),
    decreases s.len(),
{
    if s.len() > 0 && is_whitespace(s.last()) {
        let rest = s.drop_last();
        lemma_trim_end(rest);
        let n = trim_end(s).len() as int;
        assert(rest.take(n) =~= s.take(n));
        assert forall|k: int| n <= k < s.len() implies is_whitespace(s[k]) by {
            if k < rest.len() {
                assert(rest[k] == s[k]);
            }
        }
    } else {
        assert(s.take(s.len() as int) =~= s);
    }
}

/// Splitting undoes joining: no token holds a space, and the tokens joined
/// by single spaces are the text that was split.
pub proof fn lemma_split_spaces(s: Seq<char>)
    ensures
        split_spaces(s).len() >= 1,
        joined(split_spaces(s)) == s,
        forall|k: int| 0 <= k < split_spaces(s).len() ==> !split_spaces(s)[k].contains(' '),
    decreases s.len(),
{
    let tokens = split_spaces(s);
    if s.len() == 0 {
        assert(joined(tokens) =~= s);
    } else {
        let before = split_spaces(s.drop_last());
        lemma_split_spaces(s.drop_last());
        assert(s =~= s.drop_last().push(s.last()));
        if s.last() == ' ' {
            assert(tokens.drop_last() =~= before);
            assert(joined(tokens) =~= s);
        } else {
            let grown = before.last().push(s.last());
            if before.len() == 1 {
                assert(joined(tokens) =~= s);
            } else {
                assert(tokens.drop_last() =~= before.drop_last());
                assert(joined(tokens) =~= joined(before).push(s.last()));
            }
            assert forall|k: int| 0 <= k < tokens.len() implies !tokens[k].contains(' ') by {
                if k == tokens.len() - 1 {
                    assert forall|j: int| 0 <= j < grown.len() implies grown[j] != ' ' by {
                        if j < before.last().len() {
                            assert(before.last().contains(before.last()[j]));
                        }
                    }
                } else {
                    assert(tokens[k] == before[k]);
                }
            }
        }
    }
}

/// Length of `chars` without the white space at its end.
fn trimmed_len(chars: &Vec<char>) -> (end: usize)
    ensures
        end <= chars.len(),
        chars@.take(end as int) == trim_end(chars@),
{
    let mut end: usize = chars.len();
    assert(chars@.take(end as int) =~= chars@);
    while end > 0 && is_whitespace_char(chars[end - 1])
        invariant
            end <= chars.len(),
            trim_end(chars@.take(end as int)) == trim_end(chars@),
        decreases end,
    {
        assert(chars@.take(end as int).drop_last() =~= chars@.take(end - 1));
        end = end - 1;
    }
    end
}

/// Splits a line into its tokens.
pub fn tokenize(line: &str) -> (tokens: Vec<String>)
    ensures
        texts(tokens@) == tokens_of(line@),
        tokens.len() >= 1,
{
    let chars = chars_of(line);
    let end = trimmed_len(&chars);
    let ghost body = trim_end(line@);
    let mut tokens: Vec<String> = Vec::new();
    let mut start: usize = 0;
    let mut i: usize = 0;
    assert(body.take(0) =~= Seq::<char>::empty());
    assert(texts(tokens@).push(body.subrange(0, 0)) =~= seq![Seq::<char>::empty()]);
    while i < end
        invariant
            chars@ == line@,
            end <= chars.len(),
            body == chars@.take(end as int),
            start <= i <= end,
            split_spaces(body.take(i as int)) == texts(tokens@).push(
                body.subrange(start as int, i as int),
            ),
        decreases end - i,
    {
        let ghost seen = body.take(i as int);
        let ghost next = body.take(i + 1);
        assert(next.drop_last() =~= seen);
        assert(next.last() == chars@[i as int]);
        if chars[i] == ' ' {
            let piece = line.substring_char(start, i).to_owned();
            assert(piece@ =~= body.subrange(start as int, i as int));
            let ghost earlier = tokens@;
            tokens.push(piece);
            assert(texts(tokens@) =~= texts(earlier).push(piece@));
            start = i + 1;
            assert(body.subrange(start as int, i + 1) =~= Seq::<char>::empty());
        } else {
            assert(body.subrange(start as int, i + 1) =~= body.subrange(
                start as int,
                i as int,
            ).push(chars@[i as int]));
            assert(texts(tokens@).push(body.subrange(start as int, i as int)).drop_last()
                =~= texts(tokens@));
        }
        i = i + 1;
    }
    assert(body.take(end as int) =~= body);
    let piece = line.substring_char(start, end).to_owned();
    assert(piece@ =~= body.subrange(start as int, end as int));
    let ghost earlier = tokens@;
    tokens.push(piece);
    assert(texts(tokens@) =~= texts(earlier).push(piece@));
    tokens
}

/// The commands that act on the session, one for each group of aliases.
#[derive(Clone, Copy, Debug, PartialEq, Eq, Structural)]
pub enum Verb {
    Play,
    Mute,
    Next,
    Volume,
    Raise,
    Lower,
    Shuffle,
    Exit,
}

/// The names under which a command is known. The first is its canonical name.
pub open spec fn verb_aliases(verb: Verb) -> Seq<Seq<char>> {
    match verb {
        Verb::Play => seq!["play"@, "unpause"@, "p"@],
        Verb::Mute => seq!["mute"@, "silence"@, "t"@],
        Verb::Next => seq!["next"@, "skip"@, "n"@],
        Verb::Volume => seq!["volume"@, "vol"@, "v"@],
        Verb::Raise => seq!["raise"@, "incr"@, "r"@],
        Verb::Lower => seq!["lower"@, "decr"@, "l"@],
        Verb::Shuffle => seq!["shuffle"@, "random"@, "h"@],
        Verb::Exit => seq!["exit"@, "end"@, "e"@],
    }
}

/// The heading of a command's help entry.
pub open spec fn verb_title(verb: Verb) -> Seq<char> {
    match verb {
        Verb::Play => "Play"@,
        Verb::Mute => "Mute"@,
        Verb::Next => "Next"@,
        Verb::Volume => "Volume"@,
        Verb::Raise => "Raise"@,
        Verb::Lower => "Lower"@,
        Verb::Shuffle => "Shuffle"@,
        Verb::Exit => "Exit"@,
    }
}

/// What a command's help entry says it does.
pub open spec fn verb_description(verb: Verb) -> Seq<char> {
    match verb {
        Verb::Play => "Pause the audio"@,
        Verb::Mute => "Toggle between mute/unmute"@,
        Verb::Next => "Play the next audio in the queue"@,
        Verb::Volume => "Get the audio volume"@,
        Verb::Raise => "Raise the volume by (volume) or 20%"@,
        Verb::Lower => "Lower the volume by (volume) or 20%"@,
        Verb::Shuffle => "Toggle between shuffle/no shuffle"@,
        Verb::Exit => "Stop the audio player"@,
    }
}

/// The command that a token names, if any.
pub open spec fn verb_of(token: Seq<char>) -> Option<Verb> {
    if verb_aliases(Verb::Play).contains(token) {
        Some(Verb::Play)
    } else if verb_aliases(Verb::Mute).contains(token) {
        Some(Verb::Mute)
    } else if verb_aliases(Verb::Next).contains(token) {
        Some(Verb::Next)
    } else if verb_aliases(Verb::Volume).contains(token) {
        Some(Verb::Volume)
    } else if verb_aliases(Verb::Raise).contains(token) {
        Some(Verb::Raise)
    } else if verb_aliases(Verb::Lower).contains(token) {
        Some(Verb::Lower)
    } else if verb_aliases(Verb::Shuffle).contains(token) {
        Some(Verb::Shuffle)
    } else if verb_aliases(Verb::Exit).contains(token) {
        Some(Verb::Exit)
    } else {
        None
    }
}

impl Verb {
    /// The three names of this command, the canonical one first.
    pub fn aliases(self) -> (names: Vec<&'static str>)
        ensures
            names@.map_values(|name: &'static str| name@) == verb_aliases(self),
            names.len() == 3,
    {
        let names: Vec<&'static str> = match self {
            Verb::Play => vec!["play", "unpause", "p"],
            Verb::Mute => vec!["mute", "silence", "t"],
            Verb::Next => vec!["next", "skip", "n"],
            Verb::Volume => vec!["volume", "vol", "v"],
            Verb::Raise => vec!["raise", "incr", "r"],
            Verb::Lower => vec!["lower", "decr", "l"],
            Verb::Shuffle => vec!["shuffle", "random", "h"],
            Verb::Exit => vec!["exit", "end", "e"],
        };
        assert(names@.map_values(|name: &'static str| name@) =~= verb_aliases(self));
        names
    }

    /// The heading of this command's help entry.
    pub fn title(self) -> (title: &'static str)
        ensures
            title@ == verb_title(self),
    {
        match self {
            Verb::Play => "Play",
            Verb::Mute => "Mute",
            Verb::Next => "Next",
            Verb::Volume => "Volume",
            Verb::Raise => "Raise",
            Verb::Lower => "Lower",
            Verb::Shuffle => "Shuffle",
            Verb::Exit => "Exit",
        }
    }

    /// What this command's help entry says it does.
    pub fn description(self) -> (description: &'static str)
        ensures
            description@ == verb_description(self),
    {
        match self {
            Verb::Play => "Pause the audio",
            Verb::Mute => "Toggle between mute/unmute",
            Verb::Next => "Play the next audio in the queue",
            Verb::Volume => "Get the audio volume",
            Verb::Raise => "Raise the volume by (volume) or 20%",
            Verb::Lower => "Lower the volume by (volume) or 20%",
            Verb::Shuffle => "Toggle between shuffle/no shuffle",
            Verb::Exit => "Stop the audio player",
        }
    }

    /// Whether `token` is one of this command's names.
    pub fn answers_to(self, token: &str) -> (named: bool)
        ensures
            named == verb_aliases(self).contains(token@),
    {
        let names = self.aliases();
        let ghost views = names@.map_values(|name: &'static str| name@);
        let mut k: usize = 0;
        while k < names.len()
            invariant
                k <= names.len(),
                views == names@.map_values(|name: &'static str| name@),
                views == verb_aliases(self),
                forall|j: int| 0 <= j < k ==> views[j] != token@,
            decreases names.len() - k,
        {
            if same_text(names[k], token) {
                assert(views[k as int] == token@);
                return true;
            }
            k = k + 1;
        }
        false
    }
}

/// Finds the command that a token names.
pub fn resolve(token: &str) -> (verb: Option<Verb>)
    ensures
        verb == verb_of(token@),
{
    if Verb::Play.answers_to(token) {
        Some(Verb::Play)
    } else if Verb::Mute.answers_to(token) {
        Some(Verb::Mute)
    } else if Verb::Next.answers_to(token) {
        Some(Verb::Next)
    } else if Verb::Volume.answers_to(token) {
        Some(Verb::Volume)
    } else if Verb::Raise.answers_to(token) {
        Some(Verb::Raise)
    } else if Verb::Lower.answers_to(token) {
        Some(Verb::Lower)
    } else if Verb::Shuffle.answers_to(token) {
        Some(Verb::Shuffle)
    } else if Verb::Exit.answers_to(token) {
        Some(Verb::Exit)
    } else {
        None
    }
}

/// What a `help` line asks for.
#[derive(Clone, Copy, Debug, PartialEq, Eq, Structural)]
pub enum HelpTopic {
    /// `help` alone: the list of all commands.
    Summary,
    /// `help` with the name of a command: that command's entry.
    About(Verb),
    /// `help` with a word that names no command: nothing is printed.
    Nothing,
}

/// What an input line asks for.
#[derive(Clone, Copy, Debug, PartialEq, Eq, Structural)]
pub enum Command {
    Help(HelpTopic),
    Do(Verb),
    /// The first token names no command.
    Unknown,
}

/// The command that a line's tokens spell.
pub open spec fn command_of(tokens: Seq<Seq<char>>) -> Command {
    if tokens[0] == "help"@ {
        if tokens.len() > 1 {
            match verb_of(tokens[1]) {
                Some(verb) => Command::Help(HelpTopic::About(verb)),
                None => Command::Help(HelpTopic::Nothing),
            }
        } else {
            Command::Help(HelpTopic::Summary)
        }
    } else {
        match verb_of(tokens[0]) {
            Some(verb) => Command::Do(verb),
            None => Command::Unknown,
        }
    }
}

/// The first argument among a line's tokens, if it has one.
pub open spec fn argument_of(tokens: Seq<Seq<char>>) -> Option<Seq<char>> {
    if tokens.len() > 1 {
        Some(tokens[1])
    } else {
        None
    }
}

/// An interpreted input line: the command and the text of its first argument.
#[derive(Debug, PartialEq, Eq)]
pub struct Request {
    pub command: Command,
    pub argument: Option<String>,
}

/// The mathematical content of a [`Request`].
pub struct RequestView {
    pub command: Command,
    pub argument: Option<Seq<char>>,
}

impl View for Request {
    type V = RequestView;

    open spec fn view(&self) -> RequestView {
        RequestView {
            command: self.command,
            argument: match self.argument {
                Some(text) => Some(text@),
                None => None,
            },
        }
    }
}

impl Clone for Request {
    fn clone(&self) -> (copy: Request)
        ensures
            copy == *self,
    {
        let argument: Option<String> = match &self.argument {
            Some(text) => Some(text.clone()),
            None => None,
        };
        Request { command: self.command, argument }
    }
}

/// The request that a line makes.
pub open spec fn request_of(line: Seq<char>) -> RequestView {
    RequestView {
        command: command_of(tokens_of(line)),
        argument: argument_of(tokens_of(line)),
    }
}

/// Interprets one input line.
pub fn parse(line: &str) -> (request: Request)
    ensures
        request@ == request_of(line@),
{
    let tokens = tokenize(line);
    assert(texts(tokens@)[0] == tokens@[0]@);
    let argument: Option<String> = if tokens.len() > 1 {
        assert(texts(tokens@)[1] == tokens@[1]@);
        Some(tokens[1].clone())
    } else {
        None
    };
    let command = if same_text(tokens[0].as_str(), "help") {
        if tokens.len() > 1 {
            match resolve(tokens[1].as_str()) {
                Some(verb) => Command::Help(HelpTopic::About(verb)),
                None => Command::Help(HelpTopic::Nothing),
            }
        } else {
            Command::Help(HelpTopic::Summary)
        }
    } else {
        match resolve(tokens[0].as_str()) {
            Some(verb) => Command::Do(verb),
            None => Command::Unknown,
        }
    };
    Request { command, argument }
}

/// The list of all commands, line by line.
pub open spec fn help_summary() -> Seq<Seq<char>> {
    seq![
        "List of commands:"@,
        "- help (command): Display this help message, or more info about the command"@,
        "- play: Play/Unpause the audio"@,
        "- pause: Pause the audio"@,
        "- mute: Toggle between mute/unmute"@,
        "- next: Play the next audio in the queue"@,
        "- volume: Get the audio volume"@,
        "- raise (volume): Raise the volume by (volume) or 20%"@,
        "- lower (volume): Lower the volume by (volume) or 20%"@,
        "- shuffle: Toggle between shuffle/no shuffle"@,
        "- exit: Stop the audio player"@,
    ]
}

/// The help entry of one command: an empty line, the heading, the aliases
/// and the description.
pub open spec fn help_entry(verb: Verb) -> Seq<Seq<char>> {
    seq![
        Seq::<char>::empty(),
        " "@ + verb_title(verb),
        "- aliases: "@ + verb_aliases(verb)[0] + ", "@ + verb_aliases(verb)[1] + ", "@
            + verb_aliases(verb)[2],
        "- description: "@ + verb_description(verb),
    ]
}

/// The lines that answer a `help` line.
pub open spec fn help_text(topic: HelpTopic) -> Seq<Seq<char>> {
    match topic {
        HelpTopic::Summary => help_summary(),
        HelpTopic::About(verb) => help_entry(verb),
        HelpTopic::Nothing => Seq::<Seq<char>>::empty(),
    }
}

/// Writes the list of all commands.
fn summary_lines() -> (lines: Vec<String>)
    ensures
        texts(lines@) == help_summary(),
{
    let lines: Vec<String> = vec![
        String::from_str("List of commands:"),
        String::from_str(
            "- help (command): Display this help message, or more info about the command",
        ),
        String::from_str("- play: Play/Unpause the audio"),
        String::from_str("- pause: Pause the audio"),
        String::from_str("- mute: Toggle between mute/unmute"),
        String::from_str("- next: Play the next audio in the queue"),
        String::from_str("- volume: Get the audio volume"),
        String::from_str("- raise (volume): Raise the volume by (volume) or 20%"),
        String::from_str("- lower (volume): Lower the volume by (volume) or 20%"),
        String::from_str("- shuffle: Toggle between shuffle/no shuffle"),
        String::from_str("- exit: Stop the audio player"),
    ];
    assert(texts(lines@) =~= help_summary());
    lines
}

/// Writes the help entry of one command.
fn entry_lines(verb: Verb) -> (lines: Vec<String>)
    ensures
        texts(lines@) == help_entry(verb),
{
    let names = verb.aliases();
    let ghost views = names@.map_values(|name: &'static str| name@);
    assert(views[0] == names@[0]@ && views[1] == names@[1]@ && views[2] == names@[2]@);
    let mut heading = String::from_str(" ");
    heading.append(verb.title());
    let mut aliases = String::from_str("- aliases: ");
    aliases.append(names[0]);
    aliases.append(", ");
    aliases.append(names[1]);
    aliases.append(", ");
    aliases.append(names[2]);
    let mut description = String::from_str("- description: ");
    description.append(verb.description());
    let lines: Vec<String> = vec![String::new(), heading, aliases, description];
    assert(texts(lines@) =~= help_entry(verb));
    lines
}

/// Writes the lines that answer a `help` line.
pub fn help_lines(topic: HelpTopic) -> (lines: Vec<String>)
    ensures
        texts(lines@) == help_text(topic),
{
    match topic {
        HelpTopic::Summary => summary_lines(),
        HelpTopic::About(verb) => entry_lines(verb),
        HelpTopic::Nothing => {
            let lines: Vec<String> = Vec::new();
            assert(texts(lines@) =~= Seq::<Seq<char>>::empty());
            lines
        },
    }
}

/// Makes the characters of every name in the alias table known.
proof fn reveal_names()
    ensures
        "help"@ == seq!['h', 'e', 'l', 'p'],
        verb_aliases(Verb::Play) == seq![
            seq!['p', 'l', 'a', 'y'],
            seq!['u', 'n', 'p', 'a', 'u', 's', 'e'],
            seq!['p'],
        ],
        verb_aliases(Verb::Mute) == seq![
            seq!['m', 'u', 't', 'e'],
            seq!['s', 'i', 'l', 'e', 'n', 'c', 'e'],
            seq!['t'],
        ],
        verb_aliases(Verb::Next) == seq![
            seq!['n', 'e', 'x', 't'],
            seq!['s', 'k', 'i', 'p'],
            seq!['n'],
        ],
        verb_aliases(Verb::Volume) == seq![
            seq!['v', 'o', 'l', 'u', 'm', 'e'],
            seq!['v', 'o', 'l'],
            seq!['v'],
        ],
        verb_aliases(Verb::Raise) == seq![
            seq!['r', 'a', 'i', 's', 'e'],
            seq!['i', 'n', 'c', 'r'],
            seq!['r'],
        ],
        verb_aliases(Verb::Lower) == seq![
            seq!['l', 'o', 'w', 'e', 'r'],
            seq!['d', 'e', 'c', 'r'],
            seq!['l'],
        ],
        verb_aliases(Verb::Shuffle) == seq![
            seq!['s', 'h', 'u', 'f', 'f', 'l', 'e'],
            seq!['r', 'a', 'n', 'd', 'o', 'm'],
            seq!['h'],
        ],
        verb_aliases(Verb::Exit) == seq![
            seq!['e', 'x', 'i', 't'],
            seq!['e', 'n', 'd'],
            seq!['e'],
        ],
{
    reveal_strlit("help");
    reveal_strlit("play");
    reveal_strlit("unpause");
    reveal_strlit("p");
    reveal_strlit("mute");
    reveal_strlit("silence");
    reveal_strlit("t");
    reveal_strlit("next");
    reveal_strlit("skip");
    reveal_strlit("n");
    reveal_strlit("volume");
    reveal_strlit("vol");
    reveal_strlit("v");
    reveal_strlit("raise");
    reveal_strlit("incr");
    reveal_strlit("r");
    reveal_strlit("lower");
    reveal_strlit("decr");
    reveal_strlit("l");
    reveal_strlit("shuffle");
    reveal_strlit("random");
    reveal_strlit("h");
    reveal_strlit("exit");
    reveal_strlit("end");
    reveal_strlit("e");
    assert("help"@ =~= seq!['h', 'e', 'l', 'p']);
    assert("play"@ =~= seq!['p', 'l', 'a', 'y']);
    assert("unpause"@ =~= seq!['u', 'n', 'p', 'a', 'u', 's', 'e']);
    assert("p"@ =~= seq!['p']);
    assert("mute"@ =~= seq!['m', 'u', 't', 'e']);
    assert("silence"@ =~= seq!['s', 'i', 'l', 'e', 'n', 'c', 'e']);
    assert("t"@ =~= seq!['t']);
    assert("next"@ =~= seq!['n', 'e', 'x', 't']);
    assert("skip"@ =~= seq!['s', 'k', 'i', 'p']);
    assert("n"@ =~= seq!['n']);
    assert("volume"@ =~= seq!['v', 'o', 'l', 'u', 'm', 'e']);
    assert("vol"@ =~= seq!['v', 'o', 'l']);
    assert("v"@ =~= seq!['v']);
    assert("raise"@ =~= seq!['r', 'a', 'i', 's', 'e']);
    assert("incr"@ =~= seq!['i', 'n', 'c', 'r']);
    assert("r"@ =~= seq!['r']);
    assert("lower"@ =~= seq!['l', 'o', 'w', 'e', 'r']);
    assert("decr"@ =~= seq!['d', 'e', 'c', 'r']);
    assert("l"@ =~= seq!['l']);
    assert("shuffle"@ =~= seq!['s', 'h', 'u', 'f', 'f', 'l', 'e']);
    assert("random"@ =~= seq!['r', 'a', 'n', 'd', 'o', 'm']);
    assert("h"@ =~= seq!['h']);
    assert("exit"@ =~= seq!['e', 'x', 'i', 't']);
    assert("end"@ =~= seq!['e', 'n', 'd']);
    assert("e"@ =~= seq!['e']);
}

/// No name stands for two commands, and `help` stands for none: a token is
/// among the aliases of a command exactly when it resolves to that command.
pub proof fn lemma_alias_names_one_command(verb: Verb, token: Seq<char>)
    ensures
        verb_aliases(verb).contains(token) <==> verb_of(token) == Some(verb),
        verb_of("help"@) is None,
{
    reveal_names();
    lemma_help_is_no_alias();
    if verb_aliases(verb).contains(token) {
        let k = choose|k: int| 0 <= k < verb_aliases(verb).len() && verb_aliases(verb)[k] == token;
        lemma_alias_resolves(verb, k);
    }
}

/// `help` is the name of no command.
proof fn lemma_help_is_no_alias()
    ensures
        verb_of("help"@) is None,
{
    reveal_names();
    let t = "help"@;
    assert(t.len() == 4 && t[0] == 'h' && t[1] == 'e' && t[2] == 'l' && t[3] == 'p');
    assert forall|verb: Verb| !(#[trigger] verb_aliases(verb)).contains(t) by {
        let names = verb_aliases(verb);
        assert forall|k: int| 0 <= k < names.len() implies names[k] != t by {
            let name = names[k];
            if name.len() == 4 {
                assert(name[0] != 'h' || name[1] != 'e');
            }
        }
    }
}

/// Each name in the alias table resolves to the command it is listed under.
proof fn lemma_alias_resolves(verb: Verb, k: int)
    requires
        0 <= k < 3,
    ensures
        verb_of(verb_aliases(verb)[k]) == Some(verb),
{
    reveal_names();
    let t = verb_aliases(verb)[k];
    assert(verb_aliases(verb).contains(t));
    assert forall|other: Verb| other != verb implies !(#[trigger] verb_aliases(other)).contains(
        t,
    ) by {
        let names = verb_aliases(other);
        assert forall|j: int| 0 <= j < names.len() implies names[j] != t by {
            let name = names[j];
            if name.len() == t.len() {
                assert(name[0] != t[0] || name[1] != t[1]);
            }
        }
    }
}

/// Alias equivalence: two lines whose first tokens are names of the same
/// command, and whose other tokens agree, make the same request.
pub proof fn lemma_alias_equivalence(line_a: Seq<char>, line_b: Seq<char>, verb: Verb)
    requires
        verb_aliases(verb).contains(tokens_of(line_a)[0]),
        verb_aliases(verb).contains(tokens_of(line_b)[0]),
        tokens_of(line_a).skip(1) == tokens_of(line_b).skip(1),
    ensures
        request_of(line_a) == request_of(line_b),
        request_of(line_a).command == Command::Do(verb),
{
    let a = tokens_of(line_a);
    let b = tokens_of(line_b);
    lemma_split_spaces(trim_end(line_a));
    lemma_split_spaces(trim_end(line_b));
    lemma_alias_names_one_command(verb, a[0]);
    lemma_alias_names_one_command(verb, b[0]);
    assert(a.skip(1).len() == b.skip(1).len());
    if a.len() > 1 {
        assert(a[1] == a.skip(1)[0]);
        assert(b[1] == b.skip(1)[0]);
    }
}

} // verus!
