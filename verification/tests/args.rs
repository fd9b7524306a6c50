use steg::{parse_args, ArgsError, Options};

fn command_line(args: &[&str]) -> Vec<String> {
    args.iter().map(|a| String::from(*a)).collect()
}

fn options(input: &str, medium: &str) -> Options {
    Options { path_to_input: String::from(input), path_to_medium: String::from(medium) }
}

#[test]
fn program_name_alone_is_no_arguments() {
    assert_eq!(parse_args(command_line(&["steg"])), Err(ArgsError::NoArguments));
}

#[test]
fn empty_command_line_gives_empty_options() {
    assert_eq!(parse_args(Vec::new()), Ok(options("", "")));
}

#[test]
fn short_flags_name_both_paths() {
    assert_eq!(
        parse_args(command_line(&["steg", "-i", "secret.txt", "-m", "image.bmp"])),
        Ok(options("secret.txt", "image.bmp"))
    );
}

#[test]
fn long_flags_name_both_paths() {
    assert_eq!(
        parse_args(command_line(&["steg", "--medium", "image.bmp", "--input", "secret.txt"])),
        Ok(options("secret.txt", "image.bmp"))
    );
    assert_eq!(
        parse_args(command_line(&["steg", "--decode", "out.bmp"])),
        Ok(options("out.bmp", ""))
    );
}

#[test]
fn a_path_may_look_like_a_flag() {
    assert_eq!(parse_args(command_line(&["steg", "-i", "-m"])), Ok(options("-m", "")));
    assert_eq!(parse_args(command_line(&["steg", "-m", "--help"])), Ok(options("", "--help")));
    assert_eq!(parse_args(command_line(&["steg", "-m", ""])), Ok(options("", "")));
}

#[test]
fn a_repeated_flag_appends_to_the_path() {
    assert_eq!(
        parse_args(command_line(&["steg", "-i", "a", "--input", "b", "-m", "c", "-m", "d"])),
        Ok(options("ab", "cd"))
    );
}

#[test]
fn help_is_reported() {
    assert_eq!(parse_args(command_line(&["steg", "-h"])), Err(ArgsError::HelpRequested));
    assert_eq!(parse_args(command_line(&["steg", "--help"])), Err(ArgsError::HelpRequested));
    assert_eq!(
        parse_args(command_line(&["steg", "-i", "a", "--help", "-m"])),
        Err(ArgsError::HelpRequested)
    );
}

#[test]
fn flag_without_a_path_is_reported() {
    assert_eq!(
        parse_args(command_line(&["steg", "-i"])),
        Err(ArgsError::MissingInputPath { index: 1 })
    );
    assert_eq!(
        parse_args(command_line(&["steg", "-i", "a", "--decode"])),
        Err(ArgsError::MissingInputPath { index: 3 })
    );
    assert_eq!(
        parse_args(command_line(&["steg", "-i", "a", "-m"])),
        Err(ArgsError::MissingMediumPath { index: 3 })
    );
    assert_eq!(
        parse_args(command_line(&["steg", "--medium"])),
        Err(ArgsError::MissingMediumPath { index: 1 })
    );
}

#[test]
fn unknown_flag_is_reported() {
    assert_eq!(
        parse_args(command_line(&["steg", "-x"])),
        Err(ArgsError::UnknownFlag { index: 1 })
    );
    assert_eq!(
        parse_args(command_line(&["steg", "-i", "a", "--Input", "b"])),
        Err(ArgsError::UnknownFlag { index: 3 })
    );
    assert_eq!(parse_args(command_line(&["steg", "-"])), Err(ArgsError::UnknownFlag { index: 1 }));
}

#[test]
fn argument_that_is_no_flag_is_reported() {
    assert_eq!(
        parse_args(command_line(&["steg", "image.bmp"])),
        Err(ArgsError::UnknownArgument { index: 1 })
    );
    assert_eq!(
        parse_args(command_line(&["steg", "-i", "a", "b"])),
        Err(ArgsError::UnknownArgument { index: 3 })
    );
}

#[test]
fn empty_argument_is_reported() {
    assert_eq!(
        parse_args(command_line(&["steg", ""])),
        Err(ArgsError::EmptyArgument { index: 1 })
    );
    assert_eq!(
        parse_args(command_line(&["steg", "-m", "a", ""])),
        Err(ArgsError::EmptyArgument { index: 3 })
    );
}

#[test]
fn the_first_fault_wins() {
    assert_eq!(
        parse_args(command_line(&["steg", "-x", "plain", "-h"])),
        Err(ArgsError::UnknownFlag { index: 1 })
    );
    assert_eq!(
        parse_args(command_line(&["steg", "plain", "-x"])),
        Err(ArgsError::UnknownArgument { index: 1 })
    );
}

#[test]
fn program_name_is_not_read() {
    assert_eq!(parse_args(command_line(&["--help", "-m", "c.png"])), Ok(options("", "c.png")));
    assert_eq!(parse_args(command_line(&["", "-m", "c.png"])), Ok(options("", "c.png")));
}
