//! The command prompt: which command mode is active (none, search, filter,
//! change-file) and the characters typed since the mode was entered.
//!
//! A mode is named by its sigil character: `:` for the idle prompt, `/` for
//! search, `&` for filter, `;` for change-file.  The rendered prompt is the
//! sigil followed by the typed text.

use vstd::prelude::*;

verus! {

#[derive(PartialEq, Eq, Structural, Clone, Copy, Debug)]
pub enum CommandCharacter {
    Normal,
    Search,
    MatchLines,
    ChangeFile,
}

/// The sigil character that names a command mode and prefixes its prompt.
pub open spec fn sigil_of(prompt: CommandCharacter) -> char {
    match prompt {
        CommandCharacter::Normal => ':',
        CommandCharacter::Search => '/',
        CommandCharacter::MatchLines => '&',
        CommandCharacter::ChangeFile => ';',
    }
}

/// The command mode a typed character selects, if any.
pub open spec fn mode_of_char(character: char) -> Option<CommandCharacter> {
    if character == ':' {
        Some(CommandCharacter::Normal)
    } else if character == '/' {
        Some(CommandCharacter::Search)
    } else if character == '&' {
        Some(CommandCharacter::MatchLines)
    } else if character == ';' {
        Some(CommandCharacter::ChangeFile)
    } else {
        None
    }
}

impl CommandCharacter {
    pub fn as_char(&self) -> (r: char)
        ensures
            r == sigil_of(*self),
    {
        match self {
            CommandCharacter::Normal => ':',
            CommandCharacter::Search => '/',
            CommandCharacter::MatchLines => '&',
            CommandCharacter::ChangeFile => ';',
        }
    }

    pub fn command_character(character: char) -> (r: Option<CommandCharacter>)
        ensures
            r == mode_of_char(character),
    {
        match character {
            ':' => Some(CommandCharacter::Normal),
            '/' => Some(CommandCharacter::Search),
            '&' => Some(CommandCharacter::MatchLines),
            ';' => Some(CommandCharacter::ChangeFile),
            _ => None,
        }
    }
}

pub struct Command {
    pub prompt: CommandCharacter,
    pub command_text: String,
}

impl Command {
    /// A freshly entered command mode: the chosen sigil and an empty buffer.
    pub fn new(prompt_in: CommandCharacter) -> (r: Command)
        ensures
            r.prompt == prompt_in,
            r.command_text@ == Seq::<char>::empty(),
    {
        Command { prompt: prompt_in, command_text: String::new() }
    }

    /// The one-line prompt shown on screen: the sigil, then the typed text.
    pub fn get_prompt(&self) -> (r: String)
        ensures
            r@ == seq![sigil_of(self.prompt)] + self.command_text@,
    {
        let sigil: &'static str = match self.prompt {
            CommandCharacter::Normal => ":",
            CommandCharacter::Search => "/",
            CommandCharacter::MatchLines => "&",
            CommandCharacter::ChangeFile => ";",
        };
        proof {
            reveal_strlit(":");
            reveal_strlit("/");
            reveal_strlit("&");
            reveal_strlit(";");
            assert(sigil@ =~= seq![sigil_of(self.prompt)]);
        }
        let rendered = String::from_str(sigil);
        rendered.concat(self.command_text.as_str())
    }
}

} // verus!
