//! The command of a line: its keywords and the names of its objects.

use crate::parser::{keyword_text, parse, Keyword, OutputAction, StateModel, Token};
use vstd::prelude::*;
use vstd::string::*;

verus! {

/// The keywords among the tokens, in their order.
pub open spec fn keywords_of(tokens: Seq<Token>) -> Seq<Keyword>
    decreases tokens.len(),
{
    if tokens.len() == 0 {
        Seq::empty()
    } else {
        let front = keywords_of(tokens.drop_last());
        match tokens.last() {
            Token::Keyword(k) => front.push(k),
            _ => front,
        }
    }
}

/// The object names among the tokens, in their order.
pub open spec fn objects_of(tokens: Seq<Token>) -> Seq<Seq<char>>
    decreases tokens.len(),
{
    if tokens.len() == 0 {
        Seq::empty()
    } else {
        let front = objects_of(tokens.drop_last());
        match tokens.last() {
            Token::Object(name) => front.push(name),
            _ => front,
        }
    }
}

/// The keywords among the tokens, in their order.
pub fn get_all_keywords(output: &Vec<OutputAction>) -> (r: Vec<Keyword>)
    ensures
        r@ == keywords_of(output.deep_view()),
{
    let mut keywords: Vec<Keyword> = Vec::new();
    let ghost tokens = output.deep_view();
    assert(tokens.take(0) =~= Seq::<Token>::empty());
    for i in 0..output.len()
        invariant
            tokens == output.deep_view(),
            keywords@ == keywords_of(tokens.take(i as int)),
    {
        proof {
            assert(tokens.take(i as int + 1).drop_last() == tokens.take(i as int));
            assert(tokens.take(i as int + 1).last() == output[i as int]@);
        }
        match &output[i] {
            OutputAction::Keyword(k) => {
                keywords.push(*k);
            },
            _ => {},
        }
    }
    assert(tokens.take(output.len() as int) == tokens);
    keywords
}

/// The object names among the tokens, in their order.
pub fn get_all_objects(output: &Vec<OutputAction>) -> (r: Vec<String>)
    ensures
        r.deep_view() == objects_of(output.deep_view()),
{
    let mut objects: Vec<String> = Vec::new();
    let ghost tokens = output.deep_view();
    assert(tokens.take(0) =~= Seq::<Token>::empty());
    assert(objects.deep_view() =~= Seq::<Seq<char>>::empty());
    for i in 0..output.len()
        invariant
            tokens == output.deep_view(),
            objects.deep_view() == objects_of(tokens.take(i as int)),
    {
        proof {
            assert(tokens.take(i as int + 1).drop_last() == tokens.take(i as int));
            assert(tokens.take(i as int + 1).last() == output[i as int]@);
        }
        match &output[i] {
            OutputAction::Object(name) => {
                let ghost before = objects.deep_view();
                objects.push(name.clone());
                assert(objects.deep_view() =~= before.push(name@));
            },
            _ => {},
        }
    }
    assert(tokens.take(output.len() as int) == tokens);
    objects
}

/// The keywords of two lists of tokens, one after the other, are the
/// keywords of the first and then those of the second.
pub proof fn lemma_keywords_concat(a: Seq<Token>, b: Seq<Token>)
    ensures
        keywords_of(a + b) == keywords_of(a) + keywords_of(b),
    decreases b.len(),
{
    if b.len() == 0 {
        assert(a + b =~= a);
        assert(keywords_of(a) + keywords_of(b) =~= keywords_of(a));
    } else {
        lemma_keywords_concat(a, b.drop_last());
        assert((a + b).drop_last() =~= a + b.drop_last());
        assert((a + b).last() == b.last());
        match b.last() {
            Token::Keyword(k) => {
                assert(keywords_of(a + b) =~= keywords_of(a) + keywords_of(b));
            },
            _ => {},
        }
    }
}

/// The command of a line: the keywords of the line and the names of its
/// objects, each in the order of the line.
#[derive(Debug)]
pub struct Command {
    pub keywords: Vec<Keyword>,
    pub objects: Vec<String>,
}

/// The mathematical value of a command.
pub struct CommandModel {
    pub keywords: Seq<Keyword>,
    pub objects: Seq<Seq<char>>,
}

impl View for Command {
    type V = CommandModel;

    open spec fn view(&self) -> CommandModel {
        CommandModel { keywords: self.keywords@, objects: self.objects.deep_view() }
    }
}

/// The command of the tokens of a line. A line that ends in an error has no
/// command.
pub open spec fn command_of(tokens: Seq<Token>) -> Option<CommandModel> {
    if tokens.len() > 0 && tokens.last() is Error {
        None
    } else {
        Some(CommandModel { keywords: keywords_of(tokens), objects: objects_of(tokens) })
    }
}

/// Parsing is a function of the line: two parses of one line by one grammar
/// give the same tokens and the same command.
pub proof fn lemma_parse_deterministic(
    table: Seq<StateModel>,
    line: Seq<char>,
    first: Seq<Token>,
    second: Seq<Token>,
)
    requires
        first == parse(table, line),
        second == parse(table, line),
    ensures
        first == second,
        command_of(first) == command_of(second),
{
}

/// The names of a command, each between single quotes, with a comma and a
/// space between neighbours.
pub open spec fn quoted(names: Seq<Seq<char>>) -> Seq<char>
    decreases names.len(),
{
    if names.len() == 0 {
        Seq::empty()
    } else if names.len() == 1 {
        seq!['\''] + names[0] + seq!['\'']
    } else {
        quoted(names.drop_last()) + seq![',', ' ', '\''] + names.last() + seq!['\'']
    }
}

/// The text that shows a command: its first keyword, and its objects where
/// it has any.
pub open spec fn command_text(command: CommandModel) -> Seq<char> {
    if command.keywords.len() == 0 {
        "No keyword defined"@
    } else if command.objects.len() == 0 {
        "Keyword: "@ + keyword_text(command.keywords[0])
    } else {
        "Keyword: "@ + keyword_text(command.keywords[0]) + " / Objects: "@ + quoted(
            command.objects,
        )
    }
}

impl Command {
    /// Reduces the tokens of a line to its command. A line that ends in an
    /// error has none.
    pub fn reduce(output: &Vec<OutputAction>) -> (r: Option<Command>)
        ensures
            match r {
                Some(command) => command_of(output.deep_view()) == Some(command@),
                None => command_of(output.deep_view()) is None,
            },
    {
        let n = output.len();
        if n > 0 {
            assert(output.deep_view().last() == output[n as int - 1]@);
            match &output[n - 1] {
                OutputAction::Error => {
                    return None;
                },
                _ => {},
            }
        }
        Some(Command { keywords: get_all_keywords(output), objects: get_all_objects(output) })
    }

    /// Whether the command has a keyword.
    pub fn status(&self) -> (r: bool)
        ensures
            r == (self@.keywords.len() > 0),
    {
        self.keywords.len() > 0
    }

    /// The first keyword of the command.
    pub fn keyword(&self) -> (r: Option<Keyword>)
        ensures
            r == if self@.keywords.len() > 0 {
                Some(self@.keywords[0])
            } else {
                None
            },
    {
        if self.keywords.len() > 0 {
            Some(self.keywords[0])
        } else {
            None
        }
    }

    /// The text that shows the command.
    pub fn to_text(&self) -> (r: String)
        ensures
            r@ == command_text(self@),
    {
        if self.keywords.len() == 0 {
            return String::from_str("No keyword defined");
        }
        let mut text = String::from_str("Keyword: ");
        text.append(self.keywords[0].to_text().as_str());
        let n = self.objects.len();
        if n == 0 {
            return text;
        }
        text.append(" / Objects: ");
        let ghost start = text@;
        let ghost names = self.objects.deep_view();
        proof {
            reveal_strlit("'");
            reveal_strlit(", '");
            assert("'"@ =~= seq!['\'']);
            assert(", '"@ =~= seq![',', ' ', '\'']);
            assert(names.take(0) =~= Seq::<Seq<char>>::empty());
            assert(text@ =~= start + quoted(names.take(0)));
        }
        for i in 0..n
            invariant
                n == self.objects.len(),
                names == self.objects.deep_view(),
                "'"@ == seq!['\''],
                ", '"@ == seq![',', ' ', '\''],
                text@ == start + quoted(names.take(i as int)),
        {
            proof {
                assert(names.take(i as int + 1).drop_last() == names.take(i as int));
                assert(names.take(i as int + 1).last() == self.objects[i as int]@);
            }
            if i == 0 {
                text.append("'");
            } else {
                text.append(", '");
            }
            text.append(self.objects[i].as_str());
            text.append("'");
            proof {
                assert(text@ =~= start + quoted(names.take(i as int + 1)));
            }
        }
        assert(names.take(n as int) == names);
        text
    }
}

/// Something that answers a command, and may change by it.
pub trait HandleCommand: Sized {
    /// What a command does: the next state and the answer.
    spec fn answer(&self, command: CommandModel) -> (Self, Seq<char>);

    /// Answers a command.
    fn resolve_command(&mut self, command: &Command) -> (r: String)
        ensures
            (*final(self), r@) == old(self).answer(command@),
    ;
}

/// The handler for commands that nothing else answers.
#[derive(Debug)]
pub struct DefaultCommandHandler {}

/// The answer of the default handler: a fixed text for the first keyword of
/// the command, and another where there is none.
pub open spec fn default_answer(command: CommandModel) -> Seq<char> {
    if command.keywords.len() == 0 {
        "Don't understand what you want to do?"@
    } else {
        match command.keywords[0] {
            Keyword::GoThrough => "Can't go there"@,
            Keyword::Help => "Get a little help to my friends"@,
            Keyword::Open => "Don't know how to open that"@,
            Keyword::OpenWith => "Don't know how to open that"@,
            Keyword::Quit => "Goodbye cruel world!"@,
            Keyword::Take => "Can't take that"@,
            Keyword::View => "Can't see anything"@,
        }
    }
}

impl DefaultCommandHandler {
    /// The default handler.
    pub fn new() -> (r: DefaultCommandHandler)
        ensures
            r == (DefaultCommandHandler {  }),
    {
        DefaultCommandHandler {  }
    }
}

impl HandleCommand for DefaultCommandHandler {
    open spec fn answer(&self, command: CommandModel) -> (DefaultCommandHandler, Seq<char>) {
        (*self, default_answer(command))
    }

    fn resolve_command(&mut self, command: &Command) -> (r: String) {
        match command.keyword() {
            None => String::from_str("Don't understand what you want to do?"),
            Some(keyword) => match keyword {
                Keyword::GoThrough => String::from_str("Can't go there"),
                Keyword::Help => String::from_str("Get a little help to my friends"),
                Keyword::Open => String::from_str("Don't know how to open that"),
                Keyword::OpenWith => String::from_str("Don't know how to open that"),
                Keyword::Quit => String::from_str("Goodbye cruel world!"),
                Keyword::Take => String::from_str("Can't take that"),
                Keyword::View => String::from_str("Can't see anything"),
            },
        }
    }
}

} // verus!
