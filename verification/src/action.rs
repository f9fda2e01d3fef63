//! What a line asks of the interaction as a whole, whatever the world holds.

use crate::env::{error_message, error_text, help_message, help_text, quit_message, quit_text};
use crate::parser::{Keyword, OutputAction, Token};
use vstd::prelude::*;
use vstd::string::*;

verus! {

/// What a line asks of the interaction.
#[derive(Clone, Copy, PartialEq, Eq, Structural, Debug)]
pub enum Action {
    Error,
    Quit,
    Help,
    Other,
}

/// What the tokens of a line ask of the interaction. A line without tokens,
/// one that ends in an error, and one that does not begin with a keyword are
/// errors; `Quit` and `Help` at the beginning are themselves; every other
/// keyword at the beginning is left to the world.
pub open spec fn action_of(tokens: Seq<Token>) -> Action {
    if tokens.len() == 0 || tokens.last() is Error {
        Action::Error
    } else {
        match tokens[0] {
            Token::Keyword(Keyword::Quit) => Action::Quit,
            Token::Keyword(Keyword::Help) => Action::Help,
            Token::Keyword(_) => Action::Other,
            _ => Action::Error,
        }
    }
}

/// The text that shows an action.
pub open spec fn action_text(action: Action) -> Seq<char> {
    match action {
        Action::Error => "Action::Error"@,
        Action::Other => "Action::Other"@,
        Action::Help => "Action::Help"@,
        Action::Quit => "Action::Quit"@,
    }
}

/// What an action says to the user, where it says anything.
pub open spec fn said(action: Action) -> Option<Seq<char>> {
    match action {
        Action::Error => Some(error_text()),
        Action::Quit => Some(quit_text()),
        Action::Help => Some(help_text()),
        Action::Other => None,
    }
}

impl Action {
    /// What the tokens of a line ask of the interaction.
    pub fn of(output: &Vec<OutputAction>) -> (r: Action)
        ensures
            r == action_of(output.deep_view()),
    {
        let n = output.len();
        if n == 0 {
            return Action::Error;
        }
        assert(output.deep_view().last() == output[n as int - 1]@);
        assert(output.deep_view()[0] == output[0]@);
        match &output[n - 1] {
            OutputAction::Error => {
                return Action::Error;
            },
            _ => {},
        }
        match &output[0] {
            OutputAction::Keyword(k) => match k {
                Keyword::Quit => Action::Quit,
                Keyword::Help => Action::Help,
                _ => Action::Other,
            },
            _ => Action::Error,
        }
    }

    /// The text that shows the action.
    pub fn to_text(&self) -> (r: String)
        ensures
            r@ == action_text(*self),
    {
        match self {
            Action::Error => String::from_str("Action::Error"),
            Action::Other => String::from_str("Action::Other"),
            Action::Help => String::from_str("Action::Help"),
            Action::Quit => String::from_str("Action::Quit"),
        }
    }
}

/// Carries out a parsed line without a world: returns whether the
/// interaction goes on, and what is to be said, if anything. Only `Quit`
/// ends the interaction.
pub fn execute(output: &Vec<OutputAction>) -> (r: (bool, Option<String>))
    ensures
        r.0 == (action_of(output.deep_view()) != Action::Quit),
        match r.1 {
            Some(text) => said(action_of(output.deep_view())) == Some(text@),
            None => said(action_of(output.deep_view())) is None,
        },
{
    match Action::of(output) {
        Action::Error => (true, Some(error_message())),
        Action::Quit => (false, Some(quit_message())),
        Action::Help => (true, Some(help_message())),
        Action::Other => (true, None),
    }
}

} // verus!
