use taup::command::{
    help_lines, parse, resolve, tokenize, Command, HelpTopic, Request, Verb,
};

fn all_verbs() -> Vec<Verb> {
    vec![
        Verb::Play,
        Verb::Mute,
        Verb::Next,
        Verb::Volume,
        Verb::Raise,
        Verb::Lower,
        Verb::Shuffle,
        Verb::Exit,
    ]
}

#[test]
fn tokenize_splits_on_single_spaces() {
    assert_eq!(tokenize("raise 50"), vec!["raise", "50"]);
    assert_eq!(tokenize("help play now"), vec!["help", "play", "now"]);
    assert_eq!(tokenize("play"), vec!["play"]);
}

#[test]
fn tokenize_keeps_empty_tokens_between_adjacent_spaces() {
    assert_eq!(tokenize("raise  50"), vec!["raise", "", "50"]);
    assert_eq!(tokenize(" play"), vec!["", "play"]);
    assert_eq!(tokenize("  x"), vec!["", "", "x"]);
}

#[test]
fn tokenize_trims_trailing_whitespace_only() {
    assert_eq!(tokenize("play\n"), vec!["play"]);
    assert_eq!(tokenize("play \t\r\n"), vec!["play"]);
    assert_eq!(tokenize("raise 50   "), vec!["raise", "50"]);
    assert_eq!(tokenize("play\u{3000}"), vec!["play"]);
    assert_eq!(tokenize("\tplay"), vec!["\tplay"]);
    assert_eq!(tokenize("a\tb"), vec!["a\tb"]);
}

#[test]
fn tokenize_of_an_empty_line_is_one_empty_token() {
    assert_eq!(tokenize(""), vec![""]);
    assert_eq!(tokenize("\n"), vec![""]);
    assert_eq!(tokenize("   "), vec![""]);
}

#[test]
fn tokenize_agrees_with_the_standard_split() {
    let lines = [
        "", " ", "a", "a b", "a  b", " a b ", "raise 12.5\n", "help  x  y", "é ♪ ü", "x\u{a0}y z\u{2003}",
        "  lead", "tab\there now",
    ];
    for line in lines {
        let expected: Vec<String> = line.trim_end().split(" ").map(|t| t.to_string()).collect();
        assert_eq!(tokenize(line), expected, "{:?}", line);
    }
}

#[test]
fn every_alias_resolves_to_its_command() {
    let table = [
        (Verb::Play, ["play", "unpause", "p"]),
        (Verb::Mute, ["mute", "silence", "t"]),
        (Verb::Next, ["next", "skip", "n"]),
        (Verb::Volume, ["volume", "vol", "v"]),
        (Verb::Raise, ["raise", "incr", "r"]),
        (Verb::Lower, ["lower", "decr", "l"]),
        (Verb::Shuffle, ["shuffle", "random", "h"]),
        (Verb::Exit, ["exit", "end", "e"]),
    ];
    for (verb, names) in table {
        assert_eq!(verb.aliases(), names.to_vec());
        for name in names {
            assert_eq!(resolve(name), Some(verb));
            assert!(verb.answers_to(name));
            for other in all_verbs() {
                if other != verb {
                    assert!(!other.answers_to(name));
                }
            }
        }
    }
}

#[test]
fn words_outside_the_table_resolve_to_nothing() {
    for word in ["", "xyz", "help", "pause", "Play", "PLAY", "play ", "pl", "quit", "stop"] {
        assert_eq!(resolve(word), None, "{:?}", word);
    }
}

#[test]
fn parse_recognizes_commands_and_keeps_the_first_argument() {
    assert_eq!(
        parse("raise 50"),
        Request { command: Command::Do(Verb::Raise), argument: Some("50".to_string()) }
    );
    assert_eq!(parse("play\n"), Request { command: Command::Do(Verb::Play), argument: None });
    assert_eq!(
        parse("l 5 6 7"),
        Request { command: Command::Do(Verb::Lower), argument: Some("5".to_string()) }
    );
    assert_eq!(
        parse("raise  50"),
        Request { command: Command::Do(Verb::Raise), argument: Some(String::new()) }
    );
}

#[test]
fn parse_of_play_aliases_is_identical() {
    let canonical = parse("play");
    assert_eq!(canonical.command, Command::Do(Verb::Play));
    assert_eq!(parse("p"), canonical);
    assert_eq!(parse("unpause"), canonical);
    assert_eq!(parse("p\n"), canonical);
}

#[test]
fn parse_of_exit_aliases_is_identical() {
    let canonical = parse("exit");
    assert_eq!(canonical.command, Command::Do(Verb::Exit));
    assert_eq!(parse("end"), canonical);
    assert_eq!(parse("e"), canonical);
}

#[test]
fn parse_does_not_recognize_other_words() {
    assert_eq!(parse("xyz").command, Command::Unknown);
    assert_eq!(parse("").command, Command::Unknown);
    assert_eq!(parse(" play").command, Command::Unknown);
    assert_eq!(parse("pause").command, Command::Unknown);
    assert_eq!(parse("Play").command, Command::Unknown);
    assert_eq!(
        parse("xyz 1"),
        Request { command: Command::Unknown, argument: Some("1".to_string()) }
    );
}

#[test]
fn parse_of_help_lines() {
    assert_eq!(parse("help").command, Command::Help(HelpTopic::Summary));
    assert_eq!(parse("help\n").command, Command::Help(HelpTopic::Summary));
    assert_eq!(parse("help vol").command, Command::Help(HelpTopic::About(Verb::Volume)));
    assert_eq!(parse("help e").command, Command::Help(HelpTopic::About(Verb::Exit)));
    assert_eq!(parse("help xyz").command, Command::Help(HelpTopic::Nothing));
    assert_eq!(parse("help help").command, Command::Help(HelpTopic::Nothing));
    assert_eq!(parse("help  play").command, Command::Help(HelpTopic::Nothing));
}

#[test]
fn help_summary_lists_every_command() {
    assert_eq!(
        help_lines(HelpTopic::Summary),
        vec![
            "List of commands:",
            "- help (command): Display this help message, or more info about the command",
            "- play: Play/Unpause the audio",
            "- pause: Pause the audio",
            "- mute: Toggle between mute/unmute",
            "- next: Play the next audio in the queue",
            "- volume: Get the audio volume",
            "- raise (volume): Raise the volume by (volume) or 20%",
            "- lower (volume): Lower the volume by (volume) or 20%",
            "- shuffle: Toggle between shuffle/no shuffle",
            "- exit: Stop the audio player",
        ]
    );
}

#[test]
fn help_entry_shows_title_aliases_and_description() {
    assert_eq!(
        help_lines(HelpTopic::About(Verb::Play)),
        vec!["", " Play", "- aliases: play, unpause, p", "- description: Pause the audio"]
    );
    assert_eq!(
        help_lines(HelpTopic::About(Verb::Raise)),
        vec![
            "",
            " Raise",
            "- aliases: raise, incr, r",
            "- description: Raise the volume by (volume) or 20%",
        ]
    );
    assert_eq!(
        help_lines(HelpTopic::About(Verb::Exit)),
        vec!["", " Exit", "- aliases: exit, end, e", "- description: Stop the audio player"]
    );
}

#[test]
fn help_entries_are_built_from_the_alias_table() {
    for verb in all_verbs() {
        let names = verb.aliases();
        let lines = help_lines(HelpTopic::About(verb));
        assert_eq!(lines.len(), 4);
        assert_eq!(lines[0], "");
        assert_eq!(lines[1], format!(" {}", verb.title()));
        assert_eq!(lines[2], format!("- aliases: {}, {}, {}", names[0], names[1], names[2]));
        assert_eq!(lines[3], format!("- description: {}", verb.description()));
    }
}

#[test]
fn help_for_an_unknown_word_prints_nothing() {
    assert_eq!(help_lines(HelpTopic::Nothing), Vec::<String>::new());
}
