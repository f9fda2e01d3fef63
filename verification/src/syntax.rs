//! A reading of the tokens of a line as actions, each with the object it
//! acts on where it has one.

use crate::parser::{Keyword, OutputAction, Token};
use vstd::prelude::*;
use vstd::string::*;

verus! {

/// One action of a line.
#[derive(PartialEq, Eq, Debug)]
pub enum SyntaxRule {
    Error,
    Action(Keyword),
    ActionOnObject(Keyword, String),
}

/// The mathematical value of a `SyntaxRule`.
pub enum SyntaxModel {
    Error,
    Action(Keyword),
    ActionOnObject(Keyword, Seq<char>),
}

impl View for SyntaxRule {
    type V = SyntaxModel;

    open spec fn view(&self) -> SyntaxModel {
        match self {
            SyntaxRule::Error => SyntaxModel::Error,
            SyntaxRule::Action(k) => SyntaxModel::Action(*k),
            SyntaxRule::ActionOnObject(k, name) => SyntaxModel::ActionOnObject(*k, name@),
        }
    }
}

impl DeepView for SyntaxRule {
    type V = SyntaxModel;

    open spec fn deep_view(&self) -> SyntaxModel {
        self@
    }
}

/// The action that a keyword and the object seen last make: none without a
/// keyword.
pub open spec fn flush(keyword: Option<Keyword>, object: Option<Seq<char>>) -> Seq<SyntaxModel> {
    match keyword {
        Some(k) => match object {
            Some(name) => seq![SyntaxModel::ActionOnObject(k, name)],
            None => seq![SyntaxModel::Action(k)],
        },
        None => Seq::empty(),
    }
}

/// The actions of the tokens from `from` on, given the actions found so far,
/// the keyword that waits for its object, and the object seen last.
///
/// A keyword closes the action of the keyword before it; an object is
/// remembered, and stays remembered for the keywords that follow; an object
/// before the first keyword is forgotten at that keyword. The reading stops
/// at the first empty token. An error anywhere before that makes the whole
/// line an error.
pub open spec fn analysis(
    tokens: Seq<Token>,
    from: int,
    found: Seq<SyntaxModel>,
    keyword: Option<Keyword>,
    object: Option<Seq<char>>,
) -> Seq<SyntaxModel>
    decreases tokens.len() - from,
{
    if from < 0 || from >= tokens.len() {
        found + flush(keyword, object)
    } else {
        match tokens[from] {
            Token::Nothing => found + flush(keyword, object),
            Token::Error => seq![SyntaxModel::Error],
            Token::Keyword(k) => analysis(
                tokens,
                from + 1,
                found + flush(keyword, object),
                Some(k),
                if keyword is Some {
                    object
                } else {
                    None
                },
            ),
            Token::Object(name) => analysis(tokens, from + 1, found, keyword, Some(name)),
        }
    }
}

/// The actions of the tokens of a line.
pub open spec fn syntax_of(tokens: Seq<Token>) -> Seq<SyntaxModel> {
    analysis(tokens, 0, Seq::empty(), None, None)
}

/// Writes out the action that a keyword and the object seen last make.
fn push_action(rules: &mut Vec<SyntaxRule>, keyword: Option<Keyword>, object: Option<&String>)
    ensures
        final(rules).deep_view() == old(rules).deep_view() + flush(
            keyword,
            match object {
                Some(name) => Some(name@),
                None => None,
            },
        ),
{
    let ghost before = rules.deep_view();
    match keyword {
        Some(k) => {
            match object {
                Some(name) => {
                    rules.push(SyntaxRule::ActionOnObject(k, name.clone()));
                    assert(rules.deep_view() =~= before + seq![
                        SyntaxModel::ActionOnObject(k, name@),
                    ]);
                },
                None => {
                    rules.push(SyntaxRule::Action(k));
                    assert(rules.deep_view() =~= before + seq![SyntaxModel::Action(k)]);
                },
            }
        },
        None => {
            assert(rules.deep_view() =~= before + Seq::<SyntaxModel>::empty());
        },
    }
}

/// Reads the tokens of a line as actions.
pub fn analyze_syntax(output: &Vec<OutputAction>) -> (r: Vec<SyntaxRule>)
    ensures
        r.deep_view() == syntax_of(output.deep_view()),
{
    let mut rules: Vec<SyntaxRule> = Vec::new();
    let mut pushed_keyword: Option<Keyword> = None;
    let mut pushed_object: Option<&String> = None;
    let n = output.len();
    let mut i: usize = 0;
    let ghost tokens = output.deep_view();
    assert(rules.deep_view() =~= Seq::<SyntaxModel>::empty());
    while i < n
        invariant
            i <= n,
            n == output.len(),
            tokens == output.deep_view(),
            syntax_of(tokens) == analysis(
                tokens,
                i as int,
                rules.deep_view(),
                pushed_keyword,
                match pushed_object {
                    Some(name) => Some(name@),
                    None => None,
                },
            ),
        decreases n - i,
    {
        assert(tokens[i as int] == output[i as int]@);
        match &output[i] {
            OutputAction::Nothing => {
                push_action(&mut rules, pushed_keyword, pushed_object);
                return rules;
            },
            OutputAction::Error => {
                let mut failed: Vec<SyntaxRule> = Vec::new();
                failed.push(SyntaxRule::Error);
                assert(failed.deep_view() =~= seq![SyntaxModel::Error]);
                return failed;
            },
            OutputAction::Keyword(keyword) => {
                push_action(&mut rules, pushed_keyword, pushed_object);
                if pushed_keyword.is_none() {
                    pushed_object = None;
                }
                pushed_keyword = Some(*keyword);
            },
            OutputAction::Object(object) => {
                pushed_object = Some(object);
            },
        }
        i += 1;
    }
    push_action(&mut rules, pushed_keyword, pushed_object);
    rules
}

} // verus!
