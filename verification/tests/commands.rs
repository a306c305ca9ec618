use rustless::app::App;
use rustless::command::{Command, CommandCharacter};
use rustless::help;

#[test]
fn sigils_name_their_modes() {
    assert_eq!(CommandCharacter::Normal.as_char(), ':');
    assert_eq!(CommandCharacter::Search.as_char(), '/');
    assert_eq!(CommandCharacter::MatchLines.as_char(), '&');
    assert_eq!(CommandCharacter::ChangeFile.as_char(), ';');
}

#[test]
fn command_character_recognizes_only_sigils() {
    assert_eq!(CommandCharacter::command_character('/'), Some(CommandCharacter::Search));
    assert_eq!(CommandCharacter::command_character('&'), Some(CommandCharacter::MatchLines));
    assert_eq!(CommandCharacter::command_character(';'), Some(CommandCharacter::ChangeFile));
    assert_eq!(CommandCharacter::command_character(':'), Some(CommandCharacter::Normal));
    assert_eq!(CommandCharacter::command_character('x'), None);
}

#[test]
fn prompt_is_sigil_then_buffer() {
    let mut command = Command::new(CommandCharacter::Search);
    assert_eq!(command.get_prompt(), "/");
    command.command_text = "pat".to_string();
    assert_eq!(command.get_prompt(), "/pat");
}

#[test]
fn build_without_argument_fails_with_usage() {
    let args = vec!["rustless".to_string()];
    let result = App::build(&args);
    assert_eq!(result.err(), Some(help::USAGE));
}

#[test]
fn build_takes_the_first_argument() {
    let args = vec!["rustless".to_string(), "notes.txt".to_string(), "extra".to_string()];
    let app = App::build(&args).unwrap();
    assert_eq!(app.input, "notes.txt".to_string());
}
