//! The table-driven parser: a grammar of named states, the engine that runs
//! it over the words of a line, and the merging of object words into names.

use crate::grammar::{grammar, lemma_grammar_well_formed, lemma_parse_reads, reading};
use crate::text::{join, same_text, tokenize, words_of};
use vstd::prelude::*;
use vstd::string::*;

verus! {

/// The verbs that the grammar recognises.
#[derive(Clone, Copy, PartialEq, Eq, Structural, Debug)]
pub enum Keyword {
    Help,
    Quit,
    Open,
    OpenWith,
    View,
    Take,
    GoThrough,
}

/// What a rule does to the current state.
#[derive(Debug)]
pub enum StateAction {
    Keep,
    Move(String),
    End,
}

/// What a rule does to the current word.
#[derive(Clone, Copy, PartialEq, Eq, Structural, Debug)]
pub enum InputAction {
    Keep,
    Next,
}

/// What a rule emits.
#[derive(Debug)]
pub enum OutputAction {
    Nothing,
    Error,
    Keyword(Keyword),
    Object(String),
}

/// The mathematical value of an `OutputAction`.
pub enum Token {
    Nothing,
    Error,
    Keyword(Keyword),
    Object(Seq<char>),
}

/// The mathematical value of a `StateAction`.
pub enum Jump {
    Keep,
    Move(Seq<char>),
    End,
}

/// The mathematical value of a `RuleResult`.
pub struct Effect {
    pub jump: Jump,
    pub advance: bool,
    pub emit: Token,
}

impl View for OutputAction {
    type V = Token;

    open spec fn view(&self) -> Token {
        match self {
            OutputAction::Nothing => Token::Nothing,
            OutputAction::Error => Token::Error,
            OutputAction::Keyword(k) => Token::Keyword(*k),
            OutputAction::Object(text) => Token::Object(text@),
        }
    }
}

impl DeepView for OutputAction {
    type V = Token;

    open spec fn deep_view(&self) -> Token {
        self@
    }
}

impl View for StateAction {
    type V = Jump;

    open spec fn view(&self) -> Jump {
        match self {
            StateAction::Keep => Jump::Keep,
            StateAction::Move(name) => Jump::Move(name@),
            StateAction::End => Jump::End,
        }
    }
}

impl Clone for OutputAction {
    fn clone(&self) -> (r: OutputAction)
        ensures
            r@ == self@,
    {
        match self {
            OutputAction::Nothing => OutputAction::Nothing,
            OutputAction::Error => OutputAction::Error,
            OutputAction::Keyword(k) => OutputAction::Keyword(*k),
            OutputAction::Object(text) => OutputAction::Object(text.clone()),
        }
    }
}

impl Clone for StateAction {
    fn clone(&self) -> (r: StateAction)
        ensures
            r@ == self@,
    {
        match self {
            StateAction::Keep => StateAction::Keep,
            StateAction::Move(name) => StateAction::Move(name.clone()),
            StateAction::End => StateAction::End,
        }
    }
}

impl PartialEq for OutputAction {
    fn eq(&self, other: &Self) -> (r: bool) {
        match (self, other) {
            (OutputAction::Nothing, OutputAction::Nothing) => true,
            (OutputAction::Error, OutputAction::Error) => true,
            (OutputAction::Keyword(k1), OutputAction::Keyword(k2)) => *k1 == *k2,
            (OutputAction::Object(txt1), OutputAction::Object(txt2)) => *txt1 == *txt2,
            _ => false,
        }
    }
}

impl vstd::std_specs::cmp::PartialEqSpecImpl for OutputAction {
    open spec fn obeys_eq_spec() -> bool {
        true
    }

    open spec fn eq_spec(&self, other: &Self) -> bool {
        self@ == other@
    }
}

impl PartialEq for StateAction {
    fn eq(&self, other: &Self) -> (r: bool) {
        match (self, other) {
            (StateAction::Keep, StateAction::Keep) => true,
            (StateAction::End, StateAction::End) => true,
            (StateAction::Move(txt1), StateAction::Move(txt2)) => *txt1 == *txt2,
            _ => false,
        }
    }
}

impl vstd::std_specs::cmp::PartialEqSpecImpl for StateAction {
    open spec fn obeys_eq_spec() -> bool {
        true
    }

    open spec fn eq_spec(&self, other: &Self) -> bool {
        self@ == other@
    }
}

/// The three effects of a rule: on the state, on the input, and on the output.
pub type RuleResult = (StateAction, InputAction, OutputAction);

/// The mathematical value of the three effects of a rule.
pub open spec fn effect_of(result: RuleResult) -> Effect {
    Effect { jump: result.0@, advance: result.1 == InputAction::Next, emit: result.2@ }
}

/// The text that shows a keyword.
pub open spec fn keyword_text(keyword: Keyword) -> Seq<char> {
    match keyword {
        Keyword::Help => "Help"@,
        Keyword::Quit => "Quit"@,
        Keyword::Open => "Open"@,
        Keyword::OpenWith => "With"@,
        Keyword::View => "View"@,
        Keyword::Take => "Take"@,
        Keyword::GoThrough => "GoThrough"@,
    }
}

/// The text that shows a token.
pub open spec fn token_text(token: Token) -> Seq<char> {
    match token {
        Token::Nothing => "OutputAction::None"@,
        Token::Error => "OutputAction::Error"@,
        Token::Keyword(k) => "OutputAction::Keyword: "@ + keyword_text(k),
        Token::Object(text) => "OutputAction::Object: "@ + text,
    }
}

impl Keyword {
    /// The text that shows the keyword.
    pub fn to_text(&self) -> (r: String)
        ensures
            r@ == keyword_text(*self),
    {
        match self {
            Keyword::Help => String::from_str("Help"),
            Keyword::Quit => String::from_str("Quit"),
            Keyword::Open => String::from_str("Open"),
            Keyword::OpenWith => String::from_str("With"),
            Keyword::View => String::from_str("View"),
            Keyword::Take => String::from_str("Take"),
            Keyword::GoThrough => String::from_str("GoThrough"),
        }
    }
}

impl OutputAction {
    /// The text that shows the token.
    pub fn to_text(&self) -> (r: String)
        ensures
            r@ == token_text(self@),
    {
        match self {
            OutputAction::Nothing => String::from_str("OutputAction::None"),
            OutputAction::Error => String::from_str("OutputAction::Error"),
            OutputAction::Keyword(k) => {
                let mut text = String::from_str("OutputAction::Keyword: ");
                text.append(k.to_text().as_str());
                text
            },
            OutputAction::Object(name) => {
                let mut text = String::from_str("OutputAction::Object: ");
                text.append(name.as_str());
                text
            },
        }
    }
}

/// The mathematical value of a rule: the word it answers to and its effects.
pub struct RuleModel {
    pub input: Seq<char>,
    pub effect: Effect,
}

/// The mathematical value of a state: its name, its rules in order, and the
/// effects of the rule that applies when no other does.
pub struct StateModel {
    pub name: Seq<char>,
    pub rules: Seq<RuleModel>,
    pub fallback: Effect,
}

/// One rule of a state: the word it answers to, and its three effects.
pub struct StateRule {
    input: String,
    result: RuleResult,
}

impl View for StateRule {
    type V = RuleModel;

    closed spec fn view(&self) -> RuleModel {
        RuleModel { input: self.input@, effect: effect_of(self.result) }
    }
}

impl DeepView for StateRule {
    type V = RuleModel;

    open spec fn deep_view(&self) -> RuleModel {
        self@
    }
}

/// The effects of a rule that changes nothing.
pub open spec fn idle() -> Effect {
    Effect { jump: Jump::Keep, advance: false, emit: Token::Nothing }
}

/// The rule that answers to `word` with a keyword: it moves to `target` and
/// takes the next word.
pub open spec fn keyword_rule_model(word: Seq<char>, target: Seq<char>, keyword: Keyword) -> RuleModel {
    RuleModel {
        input: word,
        effect: Effect { jump: Jump::Move(target), advance: true, emit: Token::Keyword(keyword) },
    }
}

impl StateRule {
    /// A rule that answers to `name` and changes nothing.
    pub fn rule(name: &str) -> (r: StateRule)
        ensures
            r@ == (RuleModel { input: name@, effect: idle() }),
    {
        StateRule {
            input: String::from_str(name),
            result: (StateAction::Keep, InputAction::Keep, OutputAction::Nothing),
        }
    }

    /// A rule for the place of the default rule; the word it answers to is empty.
    pub fn default_rule() -> (r: StateRule)
        ensures
            r@ == (RuleModel { input: Seq::empty(), effect: idle() }),
    {
        proof {
            reveal_strlit("");
        }
        assert(""@ =~= Seq::<char>::empty());
        Self::rule("")
    }

    /// A rule that answers to `name` with a keyword, moves to `next_state`
    /// and takes the next word.
    pub fn keyword_rule(name: &str, next_state: &str, keyword: Keyword) -> (r: StateRule)
        ensures
            r@ == keyword_rule_model(name@, next_state@, keyword),
    {
        Self::rule(name).set_move_state(next_state).set_next_input().set_keyword_output(keyword)
    }

    /// A default rule that ends the parse and emits nothing.
    pub fn end_rule() -> (r: StateRule)
        ensures
            r@ == (RuleModel {
                input: Seq::empty(),
                effect: Effect { jump: Jump::End, advance: false, emit: Token::Nothing },
            }),
    {
        Self::default_rule().set_end_state()
    }

    /// A default rule that ends the parse with an error.
    pub fn error_rule() -> (r: StateRule)
        ensures
            r@ == (RuleModel {
                input: Seq::empty(),
                effect: Effect { jump: Jump::End, advance: false, emit: Token::Error },
            }),
    {
        Self::default_rule().set_end_state().set_error_output()
    }

    /// The same rule, but it ends the parse.
    pub fn set_end_state(self) -> (r: StateRule)
        ensures
            r@ == (RuleModel { effect: Effect { jump: Jump::End, ..self@.effect }, ..self@ }),
    {
        let mut rule = self;
        rule.result.0 = StateAction::End;
        rule
    }

    /// The same rule, but it moves to the state named `text`.
    pub fn set_move_state(self, text: &str) -> (r: StateRule)
        ensures
            r@ == (RuleModel { effect: Effect { jump: Jump::Move(text@), ..self@.effect }, ..self@ }),
    {
        let mut rule = self;
        rule.result.0 = StateAction::Move(String::from_str(text));
        rule
    }

    /// The same rule, but it takes the next word.
    pub fn set_next_input(self) -> (r: StateRule)
        ensures
            r@ == (RuleModel { effect: Effect { advance: true, ..self@.effect }, ..self@ }),
    {
        let mut rule = self;
        rule.result.1 = InputAction::Next;
        rule
    }

    /// The same rule, but it emits an error.
    pub fn set_error_output(self) -> (r: StateRule)
        ensures
            r@ == (RuleModel { effect: Effect { emit: Token::Error, ..self@.effect }, ..self@ }),
    {
        let mut rule = self;
        rule.result.2 = OutputAction::Error;
        rule
    }

    /// The same rule, but it emits `keyword`.
    pub fn set_keyword_output(self, keyword: Keyword) -> (r: StateRule)
        ensures
            r@ == (RuleModel {
                effect: Effect { emit: Token::Keyword(keyword), ..self@.effect },
                ..self@
            }),
    {
        let mut rule = self;
        rule.result.2 = OutputAction::Keyword(keyword);
        rule
    }

    /// The same rule, but it emits an object word. The text stored here is a
    /// placeholder: the word that the rule is applied to takes its place.
    pub fn set_object_output(self) -> (r: StateRule)
        ensures
            r@ == (RuleModel {
                effect: Effect { emit: Token::Object(Seq::empty()), ..self@.effect },
                ..self@
            }),
    {
        let mut rule = self;
        rule.result.2 = OutputAction::Object(String::new());
        rule
    }
}

/// The effects of a rule once it is applied to a word: an object takes the
/// word as its text, everything else stays.
pub open spec fn instantiate(effect: Effect, word: Seq<char>) -> Effect {
    Effect {
        emit: match effect.emit {
            Token::Object(_) => Token::Object(word),
            other => other,
        },
        ..effect
    }
}

/// The effects that a list of rules gives for a word: those of the first rule
/// that answers to exactly this word, or else the fallback.
pub open spec fn pick(rules: Seq<RuleModel>, fallback: Effect, word: Seq<char>) -> Effect
    decreases rules.len(),
{
    if rules.len() == 0 {
        fallback
    } else if rules[0].input == word {
        rules[0].effect
    } else {
        pick(rules.drop_first(), fallback, word)
    }
}

impl StateModel {
    /// What the state does with a word.
    pub open spec fn apply(self, word: Seq<char>) -> Effect {
        instantiate(pick(self.rules, self.fallback, word), word)
    }
}

/// A named state of the grammar.
pub struct State {
    name: String,
    rules: Vec<StateRule>,
    default_rule: StateRule,
}

impl View for State {
    type V = StateModel;

    closed spec fn view(&self) -> StateModel {
        StateModel {
            name: self.name@,
            rules: self.rules.deep_view(),
            fallback: self.default_rule@.effect,
        }
    }
}

impl DeepView for State {
    type V = StateModel;

    open spec fn deep_view(&self) -> StateModel {
        self@
    }
}

impl State {
    /// A state without rules, whose default rule changes nothing.
    pub fn build(name: &str) -> (r: State)
        ensures
            r@ == (StateModel { name: name@, rules: Seq::empty(), fallback: idle() }),
    {
        let state = State {
            name: String::from_str(name),
            rules: Vec::new(),
            default_rule: StateRule::default_rule(),
        };
        assert(state.rules.deep_view() =~= Seq::<RuleModel>::empty());
        state
    }

    /// The same state with one more rule, tried after those it already has.
    pub fn add_rule(self, rule: StateRule) -> (r: State)
        ensures
            r@ == (StateModel { rules: self@.rules.push(rule@), ..self@ }),
    {
        let mut state = self;
        state.rules.push(rule);
        assert(state.rules.deep_view() =~= self.rules.deep_view().push(rule@));
        state
    }

    /// The same state with another default rule.
    pub fn set_default_rule(self, rule: StateRule) -> (r: State)
        ensures
            r@ == (StateModel { fallback: rule@.effect, ..self@ }),
    {
        let mut state = self;
        state.default_rule = rule;
        state
    }

    /// The text that shows the state.
    pub fn to_text(&self) -> (r: String)
        ensures
            r@ == "State: "@ + self@.name,
    {
        let mut text = String::from_str("State: ");
        text.append(self.name.as_str());
        text
    }

    /// A copy of the effects of a rule, applied to the word `text`.
    pub fn clone_and_replace_output(&self, text: &str, rule_result: &RuleResult) -> (r:
        RuleResult)
        ensures
            effect_of(r) == instantiate(effect_of(*rule_result), text@),
    {
        let emit = match &rule_result.2 {
            OutputAction::Object(_) => OutputAction::Object(String::from_str(text)),
            other => other.clone(),
        };
        (rule_result.0.clone(), rule_result.1, emit)
    }

    /// What the state does with the word `text`: the effects of its first rule
    /// for exactly this word, or else those of its default rule.
    pub fn next_state(&self, text: &str) -> (r: RuleResult)
        ensures
            effect_of(r) == self@.apply(text@),
    {
        let n = self.rules.len();
        let mut i: usize = 0;
        assert(self@.rules.subrange(0, n as int) == self@.rules);
        while i < n
            invariant
                i <= n,
                n == self.rules.len(),
                pick(self@.rules, self@.fallback, text@) == pick(
                    self@.rules.subrange(i as int, n as int),
                    self@.fallback,
                    text@,
                ),
            decreases n - i,
        {
            let rule = &self.rules[i];
            proof {
                let rest = self@.rules.subrange(i as int, n as int);
                assert(rest[0] == rule@);
                assert(rest.drop_first() == self@.rules.subrange(i as int + 1, n as int));
            }
            if same_text(text, rule.input.as_str()) {
                return self.clone_and_replace_output(text, &rule.result);
            }
            i += 1;
        }
        self.clone_and_replace_output(text, &self.default_rule.result)
    }
}

/// The position of the first state called `name`, looking from `from` on.
pub open spec fn find_from(table: Seq<StateModel>, name: Seq<char>, from: int) -> Option<int>
    decreases table.len() - from,
{
    if from < 0 || from >= table.len() {
        None
    } else if table[from].name == name {
        Some(from)
    } else {
        find_from(table, name, from + 1)
    }
}

/// The position of the first state called `name`.
pub open spec fn find(table: Seq<StateModel>, name: Seq<char>) -> Option<int> {
    find_from(table, name, 0)
}

/// The word at a position of the line; past the last word it is the empty
/// word, which tells the grammar that the line has ended.
pub open spec fn word_at(words: Seq<Seq<char>>, pos: int) -> Seq<char> {
    if 0 <= pos < words.len() {
        words[pos]
    } else {
        Seq::empty()
    }
}

/// What an emission adds to the output.
pub open spec fn emitted(token: Token) -> Seq<Token> {
    if token is Nothing {
        Seq::empty()
    } else {
        seq![token]
    }
}

/// The name of the state in which every parse starts.
pub open spec fn initial_name() -> Seq<char> {
    "initial_state"@
}

/// The tokens that the grammar emits from state `cur` on, reading the words
/// from position `pos`. A step emits first, then changes state, then takes
/// the next word. The run stops at a rule that ends it; it also stops where a
/// rule would neither move to a later state nor take a further word.
pub open spec fn run(table: Seq<StateModel>, words: Seq<Seq<char>>, cur: int, pos: int) -> Seq<
    Token,
>
    decreases table.len() - cur, words.len() - pos,
{
    if cur < 0 || cur >= table.len() || pos < 0 || pos > words.len() {
        Seq::empty()
    } else {
        let effect = table[cur].apply(word_at(words, pos));
        let out = emitted(effect.emit);
        let next = if effect.advance && pos < words.len() {
            pos + 1
        } else {
            pos
        };
        match effect.jump {
            Jump::End => out,
            Jump::Keep => if next > pos {
                out + run(table, words, cur, next)
            } else {
                out
            },
            Jump::Move(name) => match find(table, name) {
                Some(t) => if cur < t < table.len() {
                    out + run(table, words, t, next)
                } else {
                    out
                },
                None => out,
            },
        }
    }
}

/// Neighbouring object words merged into one object, its text the words with
/// one space between them; every other token stays where it is and keeps the
/// objects on its two sides apart.
pub open spec fn merge(tokens: Seq<Token>) -> Seq<Token>
    decreases tokens.len(),
{
    if tokens.len() == 0 {
        Seq::empty()
    } else {
        let front = merge(tokens.drop_last());
        match tokens.last() {
            Token::Object(text) => if front.len() > 0 && front.last() is Object {
                front.drop_last().push(Token::Object(front.last()->Object_0.push(' ') + text))
            } else {
                front.push(tokens.last())
            },
            other => front.push(other),
        }
    }
}

/// The tokens of the words of a line: the grammar runs over the words from
/// the initial state, and neighbouring object words are merged.
pub open spec fn parse_words(table: Seq<StateModel>, words: Seq<Seq<char>>) -> Seq<Token> {
    match find(table, initial_name()) {
        Some(start) => merge(run(table, words, start, 0)),
        None => Seq::empty(),
    }
}

/// The tokens of a line: those of its words.
pub open spec fn parse(table: Seq<StateModel>, line: Seq<char>) -> Seq<Token> {
    parse_words(table, words_of(line))
}

/// Whether some rule of the list answers to `word`.
pub open spec fn answers_to(rules: Seq<RuleModel>, word: Seq<char>) -> bool {
    exists|k: int| 0 <= k < rules.len() && #[trigger] rules[k].input == word
}

/// Whether applying a rule of state `cur` brings the parse closer to its end:
/// the rule ends it, or moves to a state that exists and stands later in the
/// table, or stays and takes a further word. `at_end` says that the rule may
/// be the one that meets the end of the line, where no further word is left.
pub open spec fn settles(table: Seq<StateModel>, cur: int, effect: Effect, at_end: bool) -> bool {
    match effect.jump {
        Jump::End => true,
        Jump::Keep => effect.advance && !at_end,
        Jump::Move(name) => match find(table, name) {
            Some(t) => cur < t < table.len(),
            None => false,
        },
    }
}

/// Whether every rule of the state at `cur` settles.
pub open spec fn state_settles(table: Seq<StateModel>, cur: int) -> bool {
    let state = table[cur];
    &&& forall|k: int|
        0 <= k < state.rules.len() ==> settles(
            table,
            cur,
            (#[trigger] state.rules[k]).effect,
            state.rules[k].input.len() == 0,
        )
    &&& settles(table, cur, state.fallback, !answers_to(state.rules, Seq::empty()))
}

/// A table is well formed when it has an initial state and every rule of
/// every state settles: each parse then ends, and each state that a rule
/// names exists.
pub open spec fn well_formed(table: Seq<StateModel>) -> bool {
    &&& find(table, initial_name()) is Some
    &&& forall|cur: int| 0 <= cur < table.len() ==> #[trigger] state_settles(table, cur)
}

/// The effects picked for a word are those of a rule that answers to it, or
/// the fallback where no rule does.
pub proof fn lemma_pick(rules: Seq<RuleModel>, fallback: Effect, word: Seq<char>)
    ensures
        (exists|k: int|
            0 <= k < rules.len() && (#[trigger] rules[k]).input == word && pick(
                rules,
                fallback,
                word,
            ) == rules[k].effect) || (!answers_to(rules, word) && pick(rules, fallback, word)
            == fallback),
    decreases rules.len(),
{
    if rules.len() > 0 && rules[0].input != word {
        let rest = rules.drop_first();
        lemma_pick(rest, fallback, word);
        if !answers_to(rest, word) {
            assert forall|k: int| 0 <= k < rules.len() implies (#[trigger] rules[k]).input
                != word by {
                if k > 0 {
                    assert(rest[k - 1].input != word);
                }
            }
        } else {
            let k = choose|k: int|
                0 <= k < rest.len() && (#[trigger] rest[k]).input == word && pick(
                    rest,
                    fallback,
                    word,
                ) == rest[k].effect;
            assert(rules[k + 1] == rest[k]);
        }
    }
}

/// The object tokens of a list of words.
pub open spec fn objects(texts: Seq<Seq<char>>) -> Seq<Token> {
    Seq::new(texts.len(), |i: int| Token::Object(texts[i]))
}

/// One or more object words in a row merge into exactly one object, whose
/// text is the words in their order with one space between neighbours.
pub proof fn lemma_merge_objects(texts: Seq<Seq<char>>)
    requires
        texts.len() >= 1,
    ensures
        merge(objects(texts)) == seq![Token::Object(join(texts))],
    decreases texts.len(),
{
    let tokens = objects(texts);
    assert(tokens.drop_last() =~= objects(texts.drop_last()));
    assert(tokens.last() == Token::Object(texts.last()));
    if texts.len() == 1 {
        assert(merge(tokens.drop_last()) =~= Seq::<Token>::empty());
        assert(merge(tokens) =~= seq![Token::Object(join(texts))]);
    } else {
        lemma_merge_objects(texts.drop_last());
        assert(merge(tokens) =~= seq![Token::Object(join(texts))]);
    }
}

/// A token that is no object is never merged across: what stands before it
/// and what stands after it are merged each on its own, and the token stays
/// between them.
pub proof fn lemma_merge_boundary(before: Seq<Token>, token: Token, after: Seq<Token>)
    requires
        !(token is Object),
    ensures
        merge(before + seq![token] + after) == merge(before) + seq![token] + merge(after),
    decreases after.len(),
{
    let all = before + seq![token] + after;
    if after.len() == 0 {
        assert(all.drop_last() =~= before);
        assert(merge(after) =~= Seq::<Token>::empty());
        assert(merge(all) =~= merge(before) + seq![token] + merge(after));
    } else {
        let shorter = after.drop_last();
        lemma_merge_boundary(before, token, shorter);
        assert(all.drop_last() =~= before + seq![token] + shorter);
        assert(all.last() == after.last());
        let front = merge(before) + seq![token] + merge(shorter);
        if merge(shorter).len() > 0 {
            assert(front.last() == merge(shorter).last());
            assert(front.drop_last() =~= merge(before) + seq![token] + merge(shorter).drop_last());
        } else {
            assert(front.last() == token);
        }
        assert(merge(all) =~= merge(before) + seq![token] + merge(after));
    }
}

/// The merged tokens so far, while the input is read from left to right:
/// what has been written out, and the object name that is still growing.
pub open spec fn merged_so_far(written: Seq<Token>, pending: Option<Seq<char>>) -> Seq<Token> {
    match pending {
        Some(text) => written.push(Token::Object(text)),
        None => written,
    }
}

/// The grammar: its states, in the order of the table.
pub struct StateMachine {
    states: Vec<State>,
}

impl View for StateMachine {
    type V = Seq<StateModel>;

    closed spec fn view(&self) -> Seq<StateModel> {
        self.states.deep_view()
    }
}

impl StateMachine {
    /// Every grammar is well formed: each state that a rule names exists,
    /// and each parse ends.
    #[verifier::type_invariant]
    spec fn wf(&self) -> bool {
        well_formed(self@)
    }

    /// Builds the grammar of the interpreter.
    pub fn build() -> (r: StateMachine)
        ensures
            r@ == grammar(),
    {
        let rest = "default_intermediate_state";
        let initial = State::build("initial_state")
            .add_rule(StateRule::keyword_rule("help", rest, Keyword::Help))
            .add_rule(StateRule::keyword_rule("?", rest, Keyword::Help))
            .add_rule(StateRule::keyword_rule("exit", rest, Keyword::Quit))
            .add_rule(StateRule::keyword_rule("quit", rest, Keyword::Quit))
            .add_rule(StateRule::keyword_rule("view", rest, Keyword::View))
            .add_rule(StateRule::keyword_rule("take", rest, Keyword::Take))
            .add_rule(StateRule::keyword_rule("open", "i_open", Keyword::Open))
            .add_rule(StateRule::rule("go").set_move_state("i_go").set_next_input())
            .set_default_rule(StateRule::default_rule().set_move_state("unknown_state"));
        let go = State::build("i_go")
            .add_rule(StateRule::keyword_rule("through", rest, Keyword::GoThrough))
            .set_default_rule(StateRule::error_rule());
        let open = State::build("i_open")
            .add_rule(StateRule::rule("").set_move_state("f_open"))
            .add_rule(StateRule::rule("with").set_move_state("i_openwith"))
            .set_default_rule(StateRule::default_rule().set_next_input().set_object_output());
        let open_with = State::build("i_openwith")
            .set_default_rule(StateRule::keyword_rule("with", rest, Keyword::OpenWith));
        let objects = State::build(rest)
            .add_rule(StateRule::rule("").set_move_state("default_final_state"))
            .set_default_rule(StateRule::default_rule().set_next_input().set_object_output());
        let objects_end = State::build("default_final_state")
            .set_default_rule(StateRule::end_rule());
        let open_end = State::build("f_open").set_default_rule(StateRule::end_rule());
        let unknown = State::build("unknown_state").set_default_rule(StateRule::error_rule());
        proof {
            reveal_strlit("");
            assert(""@ =~= Seq::<char>::empty());
            let g = grammar();
            assert(initial@.rules =~= g[0].rules);
            assert(go@.rules =~= g[1].rules);
            assert(open@.rules =~= g[2].rules);
            assert(open_with@.rules =~= g[3].rules);
            assert(objects@.rules =~= g[4].rules);
            assert(objects_end@.rules =~= g[5].rules);
            assert(open_end@.rules =~= g[6].rules);
            assert(unknown@.rules =~= g[7].rules);
        }
        let states = vec![initial, go, open, open_with, objects, objects_end, open_end, unknown];
        proof {
            assert(states.deep_view() =~= grammar());
            lemma_grammar_well_formed();
        }
        StateMachine { states }
    }

    /// The position of the first state called `name`, if there is one.
    pub fn find_by_name(&self, name: &str) -> (r: Option<usize>)
        ensures
            match r {
                Some(t) => find(self@, name@) == Some(t as int) && t < self@.len(),
                None => find(self@, name@) is None,
            },
    {
        let n = self.states.len();
        let mut i: usize = 0;
        while i < n
            invariant
                i <= n,
                n == self.states.len(),
                find(self@, name@) == find_from(self@, name@, i as int),
            decreases n - i,
        {
            assert(self@[i as int] == self.states[i as int]@);
            if same_text(name, self.states[i].name.as_str()) {
                return Some(i);
            }
            i += 1;
        }
        None
    }

    /// Merges neighbouring object words into one object whose text is the
    /// words with one space between them. Every other token is kept in place.
    pub fn mix_output_state(&self, output: Vec<OutputAction>) -> (r: Vec<OutputAction>)
        ensures
            r.deep_view() == merge(output.deep_view()),
    {
        let mut new_output: Vec<OutputAction> = Vec::new();
        let mut pending: Option<String> = None;
        let n = output.len();
        let mut i: usize = 0;
        let ghost tokens = output.deep_view();
        assert(tokens.take(0) =~= Seq::<Token>::empty());
        assert(new_output.deep_view() =~= Seq::<Token>::empty());
        while i < n
            invariant
                i <= n,
                n == output.len(),
                tokens == output.deep_view(),
                merge(tokens.take(i as int)) == merged_so_far(
                    new_output.deep_view(),
                    match pending {
                        Some(text) => Some(text@),
                        None => None,
                    },
                ),
                pending is None ==> new_output.len() == 0 || !(new_output.deep_view().last() is Object),
            decreases n - i,
        {
            let ghost written = new_output.deep_view();
            proof {
                assert(tokens.take(i as int + 1).drop_last() == tokens.take(i as int));
                assert(tokens.take(i as int + 1).last() == output[i as int]@);
                reveal_strlit(" ");
                assert(" "@ =~= seq![' ']);
            }
            match &output[i] {
                OutputAction::Object(text) => {
                    pending = match pending {
                        Some(name) => {
                            let ghost before = name@;
                            let mut name = name;
                            name.append(" ");
                            name.append(text.as_str());
                            proof {
                                assert(written.push(Token::Object(before)).drop_last() == written);
                                assert(name@ =~= before.push(' ') + text@);
                            }
                            Some(name)
                        },
                        None => Some(text.clone()),
                    };
                },
                other => {
                    match pending {
                        Some(name) => {
                            new_output.push(OutputAction::Object(name));
                            pending = None;
                        },
                        None => {},
                    }
                    new_output.push(other.clone());
                    proof {
                        assert(new_output.deep_view() =~= merge(tokens.take(i as int)).push(other@));
                    }
                },
            }
            i += 1;
        }
        assert(tokens.take(n as int) == tokens);
        let ghost written = new_output.deep_view();
        match pending {
            Some(name) => {
                new_output.push(OutputAction::Object(name));
                assert(new_output.deep_view() =~= written.push(Token::Object(name@)));
            },
            None => {},
        }
        new_output
    }

    /// Parses a line: the line is split into lowercase words, which are
    /// parsed. With the grammar of the interpreter, the result is the reading
    /// of the words.
    pub fn parse_line(&self, text: &str) -> (r: Vec<OutputAction>)
        ensures
            r.deep_view() == parse(self@, text@),
            self@ == grammar() ==> r.deep_view() == reading(words_of(text@)),
    {
        let words = tokenize(text);
        self.parse_words(&words)
    }

    /// Parses the words of a line: the grammar runs over them from the
    /// initial state, and neighbouring object words are merged into object
    /// names. With the grammar of the interpreter, the result is the reading
    /// of the words.
    pub fn parse_words(&self, words: &Vec<String>) -> (r: Vec<OutputAction>)
        ensures
            r.deep_view() == parse_words(self@, words.deep_view()),
            self@ == grammar() ==> r.deep_view() == reading(words.deep_view()),
    {
        proof {
            use_type_invariant(self);
            lemma_parse_reads(words.deep_view());
        }
        let n = words.len();
        let ghost ws = words.deep_view();
        let mut output: Vec<OutputAction> = Vec::new();
        let start = match self.find_by_name("initial_state") {
            Some(t) => t,
            None => {
                return output;
            },
        };
        let mut cur: usize = start;
        let mut pos: usize = 0;
        let mut running = true;
        assert(output.deep_view() =~= Seq::<Token>::empty());
        assert(output.deep_view() + run(self@, ws, cur as int, pos as int) =~= run(
            self@,
            ws,
            cur as int,
            pos as int,
        ));
        while running
            invariant
                well_formed(self@),
                ws == words.deep_view(),
                n == words.len(),
                cur < self@.len(),
                pos <= n,
                running ==> run(self@, ws, start as int, 0) == output.deep_view() + run(
                    self@,
                    ws,
                    cur as int,
                    pos as int,
                ),
                !running ==> run(self@, ws, start as int, 0) == output.deep_view(),
            decreases
                    (if running {
                        1int
                    } else {
                        0int
                    }),
                    self@.len() - cur,
                    n - pos,
        {
            let ghost before = output.deep_view();
            let word: &str = if pos < n {
                words[pos].as_str()
            } else {
                ""
            };
            proof {
                reveal_strlit("");
                assert(word@ =~= word_at(ws, pos as int));
                assert(self@[cur as int] == self.states[cur as int]@);
                lemma_pick(self@[cur as int].rules, self@[cur as int].fallback, word@);
                assert(state_settles(self@, cur as int));
            }
            let (jump, input, emit) = self.states[cur].next_state(word);
            let ghost effect = self@[cur as int].apply(word@);
            match emit {
                OutputAction::Nothing => {},
                other => {
                    output.push(other);
                },
            }
            assert(output.deep_view() =~= before + emitted(effect.emit));
            let ghost step = run(self@, ws, cur as int, pos as int);
            match jump {
                StateAction::Keep => {},
                StateAction::Move(name) => {
                    match self.find_by_name(name.as_str()) {
                        Some(t) => {
                            cur = t;
                        },
                        None => {
                            running = false;
                        },
                    }
                },
                StateAction::End => {
                    running = false;
                },
            }
            if running {
                match input {
                    InputAction::Keep => {},
                    InputAction::Next => {
                        if pos < n {
                            pos += 1;
                        }
                    },
                }
                assert(step == emitted(effect.emit) + run(self@, ws, cur as int, pos as int));
                assert(before + (emitted(effect.emit) + run(self@, ws, cur as int, pos as int))
                    =~= output.deep_view() + run(self@, ws, cur as int, pos as int));
            } else {
                assert(step == emitted(effect.emit));
            }
        }
        self.mix_output_state(output)
    }
}

} // verus!
