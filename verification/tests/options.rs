use fibonacci::{get_opts, Flags, Halt};

fn plain() -> Flags {
    Flags { is_progression: false, is_strict: false, print_index: false }
}

fn command(args: &[&str]) -> Vec<String> {
    args.iter().map(|arg| arg.to_string()).collect()
}

fn texts(list: &[&str]) -> Vec<String> {
    command(list)
}

#[test]
fn long_options_set_their_switches() {
    let mut flags = plain();
    let mut diagnostics = Vec::new();
    let kept = get_opts(
        command(&["fibonacci", "--progression", "--print-index", "--strict", "7"]),
        &mut flags,
        &mut diagnostics,
    );
    assert_eq!(kept, Ok(texts(&["7"])));
    assert_eq!(flags, Flags { is_progression: true, is_strict: true, print_index: true });
    assert!(diagnostics.is_empty());
}

#[test]
fn short_options_set_their_switches() {
    let mut flags = plain();
    let mut diagnostics = Vec::new();
    let kept = get_opts(command(&["fibonacci", "-p", "10"]), &mut flags, &mut diagnostics);
    assert_eq!(kept, Ok(texts(&["10"])));
    assert_eq!(flags, Flags { is_progression: true, is_strict: false, print_index: false });

    let mut flags = plain();
    let kept = get_opts(command(&["fibonacci", "-i", "10"]), &mut flags, &mut diagnostics);
    assert_eq!(kept, Ok(texts(&["10"])));
    assert_eq!(flags, Flags { is_progression: false, is_strict: false, print_index: true });

    let mut flags = plain();
    let kept = get_opts(command(&["fibonacci", "-s", "10"]), &mut flags, &mut diagnostics);
    assert_eq!(kept, Ok(texts(&["10"])));
    assert_eq!(flags, Flags { is_progression: false, is_strict: true, print_index: false });
    assert!(diagnostics.is_empty());
}

#[test]
fn short_options_come_in_bundles() {
    let mut flags = plain();
    let mut diagnostics = Vec::new();
    let kept = get_opts(command(&["fibonacci", "-pi", "3", "4"]), &mut flags, &mut diagnostics);
    assert_eq!(kept, Ok(texts(&["3", "4"])));
    assert_eq!(flags, Flags { is_progression: true, is_strict: false, print_index: true });
    assert!(diagnostics.is_empty());
}

#[test]
fn switches_already_set_stay_set() {
    let mut flags = Flags { is_progression: false, is_strict: true, print_index: false };
    let mut diagnostics = Vec::new();
    let kept = get_opts(command(&["fibonacci", "-i", "3"]), &mut flags, &mut diagnostics);
    assert_eq!(kept, Ok(texts(&["3"])));
    assert_eq!(flags, Flags { is_progression: false, is_strict: true, print_index: true });
}

#[test]
fn arguments_keep_their_order_around_options() {
    let mut flags = plain();
    let mut diagnostics = Vec::new();
    let kept = get_opts(
        command(&["fibonacci", "5", "-p", "abc", "--print-index", "+7", " 8 "]),
        &mut flags,
        &mut diagnostics,
    );
    assert_eq!(kept, Ok(texts(&["5", "abc", "+7", " 8 "])));
    assert_eq!(flags, Flags { is_progression: true, is_strict: false, print_index: true });
}

#[test]
fn the_program_name_is_passed_over() {
    let mut flags = plain();
    let mut diagnostics = Vec::new();
    assert_eq!(get_opts(command(&["--help"]), &mut flags, &mut diagnostics), Ok(Vec::new()));
    assert_eq!(get_opts(command(&["-p"]), &mut flags, &mut diagnostics), Ok(Vec::new()));
    assert_eq!(get_opts(command(&["12"]), &mut flags, &mut diagnostics), Ok(Vec::new()));
    assert_eq!(get_opts(Vec::new(), &mut flags, &mut diagnostics), Ok(Vec::new()));
    assert_eq!(flags, plain());
    assert!(diagnostics.is_empty());
}

#[test]
fn an_empty_argument_and_a_lone_dash_count_for_nothing() {
    let mut flags = plain();
    let mut diagnostics = Vec::new();
    let kept = get_opts(command(&["fibonacci", "", "-", "9", ""]), &mut flags, &mut diagnostics);
    assert_eq!(kept, Ok(texts(&["9"])));
    assert_eq!(flags, plain());
    assert!(diagnostics.is_empty());
}

#[test]
fn an_unknown_long_option_leaves_a_diagnostic() {
    let mut flags = plain();
    let mut diagnostics = Vec::new();
    let kept = get_opts(command(&["fibonacci", "--bogus", "10"]), &mut flags, &mut diagnostics);
    assert_eq!(kept, Ok(texts(&["10"])));
    assert_eq!(diagnostics, texts(&["Invalid Option: --bogus"]));
    assert_eq!(flags, plain());
}

#[test]
fn two_dashes_alone_are_an_unknown_option() {
    let mut flags = plain();
    let mut diagnostics = Vec::new();
    let kept = get_opts(command(&["fibonacci", "--", "10"]), &mut flags, &mut diagnostics);
    assert_eq!(kept, Ok(texts(&["10"])));
    assert_eq!(diagnostics, texts(&["Invalid Option: --"]));
}

#[test]
fn a_long_option_is_matched_whole() {
    let mut flags = plain();
    let mut diagnostics = Vec::new();
    let kept = get_opts(
        command(&["fibonacci", "--progressions", "--help ", "--Strict", "--p"]),
        &mut flags,
        &mut diagnostics,
    );
    assert_eq!(kept, Ok(Vec::new()));
    assert_eq!(
        diagnostics,
        texts(&[
            "Invalid Option: --progressions",
            "Invalid Option: --help ",
            "Invalid Option: --Strict",
            "Invalid Option: --p",
        ])
    );
    assert_eq!(flags, plain());
}

#[test]
fn an_unknown_short_option_leaves_a_diagnostic_of_its_own() {
    let mut flags = plain();
    let mut diagnostics = Vec::new();
    let kept = get_opts(command(&["fibonacci", "-xpy", "10"]), &mut flags, &mut diagnostics);
    assert_eq!(kept, Ok(texts(&["10"])));
    assert_eq!(diagnostics, texts(&["Invalid Option: x", "Invalid Option: y"]));
    assert_eq!(flags, Flags { is_progression: true, is_strict: false, print_index: false });
}

#[test]
fn an_unknown_short_option_may_be_any_character() {
    let mut flags = plain();
    let mut diagnostics = Vec::new();
    let kept = get_opts(command(&["fibonacci", "-\u{e9}i\u{1f600}-"]), &mut flags, &mut diagnostics);
    assert_eq!(kept, Ok(Vec::new()));
    assert_eq!(
        diagnostics,
        texts(&["Invalid Option: \u{e9}", "Invalid Option: \u{1f600}", "Invalid Option: -"])
    );
    assert_eq!(flags, Flags { is_progression: false, is_strict: false, print_index: true });
}

#[test]
fn diagnostics_are_added_behind_those_already_there() {
    let mut flags = plain();
    let mut diagnostics = texts(&["earlier"]);
    let kept = get_opts(command(&["fibonacci", "-z"]), &mut flags, &mut diagnostics);
    assert_eq!(kept, Ok(Vec::new()));
    assert_eq!(diagnostics, texts(&["earlier", "Invalid Option: z"]));
}

#[test]
fn a_strict_run_ends_at_an_unknown_option() {
    let mut flags = plain();
    let mut diagnostics = Vec::new();
    let kept = get_opts(
        command(&["fibonacci", "--strict", "5", "--bogus", "-p", "--worse", "6"]),
        &mut flags,
        &mut diagnostics,
    );
    assert_eq!(kept, Err(Halt::InvalidOption));
    assert_eq!(diagnostics, texts(&["Invalid Option: --bogus"]));
    assert_eq!(flags, Flags { is_progression: false, is_strict: true, print_index: false });
}

#[test]
fn a_run_is_strict_only_from_the_strict_option_on() {
    let mut flags = plain();
    let mut diagnostics = Vec::new();
    let kept = get_opts(
        command(&["fibonacci", "--bogus", "--strict", "5"]),
        &mut flags,
        &mut diagnostics,
    );
    assert_eq!(kept, Ok(texts(&["5"])));
    assert_eq!(diagnostics, texts(&["Invalid Option: --bogus"]));
    assert!(flags.is_strict);

    let mut flags = plain();
    let mut diagnostics = Vec::new();
    let kept = get_opts(command(&["fibonacci", "-xspyi", "5"]), &mut flags, &mut diagnostics);
    assert_eq!(kept, Err(Halt::InvalidOption));
    assert_eq!(diagnostics, texts(&["Invalid Option: x", "Invalid Option: y"]));
    assert_eq!(flags, Flags { is_progression: true, is_strict: true, print_index: false });
}

#[test]
fn a_run_that_begins_strict_ends_at_the_first_unknown_option() {
    let mut flags = Flags { is_progression: false, is_strict: true, print_index: false };
    let mut diagnostics = Vec::new();
    let kept = get_opts(command(&["fibonacci", "-q", "5"]), &mut flags, &mut diagnostics);
    assert_eq!(kept, Err(Halt::InvalidOption));
    assert_eq!(diagnostics, texts(&["Invalid Option: q"]));
}

#[test]
fn help_ends_the_run() {
    for option in ["--help", "-h", "-?"] {
        let mut flags = plain();
        let mut diagnostics = Vec::new();
        let kept = get_opts(
            command(&["fibonacci", "-i", "5", option, "--bogus", "-p"]),
            &mut flags,
            &mut diagnostics,
        );
        assert_eq!(kept, Err(Halt::Help));
        assert!(diagnostics.is_empty());
        assert_eq!(flags, Flags { is_progression: false, is_strict: false, print_index: true });
    }
}

#[test]
fn version_ends_the_run() {
    for option in ["--version", "-v"] {
        let mut flags = plain();
        let mut diagnostics = Vec::new();
        let kept = get_opts(
            command(&["fibonacci", "--bogus", option, "--help"]),
            &mut flags,
            &mut diagnostics,
        );
        assert_eq!(kept, Err(Halt::Version));
        assert_eq!(diagnostics, texts(&["Invalid Option: --bogus"]));
        assert_eq!(flags, plain());
    }
}

#[test]
fn a_bundle_ends_at_help_or_version() {
    let mut flags = plain();
    let mut diagnostics = Vec::new();
    let kept = get_opts(command(&["fibonacci", "-phix"]), &mut flags, &mut diagnostics);
    assert_eq!(kept, Err(Halt::Help));
    assert!(diagnostics.is_empty());
    assert_eq!(flags, Flags { is_progression: true, is_strict: false, print_index: false });

    let mut flags = plain();
    let kept = get_opts(command(&["fibonacci", "-ivh"]), &mut flags, &mut diagnostics);
    assert_eq!(kept, Err(Halt::Version));
    assert_eq!(flags, Flags { is_progression: false, is_strict: false, print_index: true });
}

#[test]
fn only_an_invalid_option_fails_the_process() {
    assert_eq!(Halt::Help.exit_code(), 0);
    assert_eq!(Halt::Version.exit_code(), 0);
    assert_eq!(Halt::InvalidOption.exit_code(), 1);
}
