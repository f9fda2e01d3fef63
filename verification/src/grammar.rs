//! The grammar of the interpreter: its table of states, what it says read as
//! sentences, and the proof that the two agree.

use crate::parser::{
    answers_to, find, find_from, keyword_rule_model, lemma_merge_boundary, lemma_merge_objects,
    merge, objects, parse_words, pick, run, state_settles, well_formed, word_at, Effect, Jump, Keyword,
    RuleModel, StateModel, Token,
};
use crate::command::{keywords_of, lemma_keywords_concat};
use crate::env::recognised;
use crate::text::join;
use vstd::prelude::*;
use vstd::string::*;

verus! {

/// The effects of a rule that moves to the state `target` and keeps the word.
pub open spec fn move_to(target: Seq<char>) -> Effect {
    Effect { jump: Jump::Move(target), advance: false, emit: Token::Nothing }
}

/// The effects of a rule that emits the word as an object, takes the next
/// word and stays.
pub open spec fn collect_object() -> Effect {
    Effect { jump: Jump::Keep, advance: true, emit: Token::Object(Seq::empty()) }
}

/// The effects of a rule that ends the parse and emits `emit`.
pub open spec fn end_with(emit: Token) -> Effect {
    Effect { jump: Jump::End, advance: false, emit }
}

/// The grammar of the interpreter. A line is a verb and what follows it:
/// `help`, `?`, `exit`, `quit`, `view` and `take` are followed by object
/// words; `open` is followed by object words and, after the word `with`,
/// by more object words; `go` must be followed by `through` and then by
/// object words. Anything else is an error. An empty word ends the line.
pub open spec fn grammar() -> Seq<StateModel> {
    let rest = "default_intermediate_state"@;
    seq![
        StateModel {
            name: "initial_state"@,
            rules: seq![
                keyword_rule_model("help"@, rest, Keyword::Help),
                keyword_rule_model("?"@, rest, Keyword::Help),
                keyword_rule_model("exit"@, rest, Keyword::Quit),
                keyword_rule_model("quit"@, rest, Keyword::Quit),
                keyword_rule_model("view"@, rest, Keyword::View),
                keyword_rule_model("take"@, rest, Keyword::Take),
                keyword_rule_model("open"@, "i_open"@, Keyword::Open),
                RuleModel {
                    input: "go"@,
                    effect: Effect { jump: Jump::Move("i_go"@), advance: true, emit: Token::Nothing },
                },
            ],
            fallback: move_to("unknown_state"@),
        },
        StateModel {
            name: "i_go"@,
            rules: seq![keyword_rule_model("through"@, rest, Keyword::GoThrough)],
            fallback: end_with(Token::Error),
        },
        StateModel {
            name: "i_open"@,
            rules: seq![
                RuleModel { input: Seq::empty(), effect: move_to("f_open"@) },
                RuleModel { input: "with"@, effect: move_to("i_openwith"@) },
            ],
            fallback: collect_object(),
        },
        StateModel {
            name: "i_openwith"@,
            rules: Seq::empty(),
            fallback: keyword_rule_model("with"@, rest, Keyword::OpenWith).effect,
        },
        StateModel {
            name: rest,
            rules: seq![RuleModel { input: Seq::empty(), effect: move_to("default_final_state"@) }],
            fallback: collect_object(),
        },
        StateModel {
            name: "default_final_state"@,
            rules: Seq::empty(),
            fallback: end_with(Token::Nothing),
        },
        StateModel { name: "f_open"@, rules: Seq::empty(), fallback: end_with(Token::Nothing) },
        StateModel { name: "unknown_state"@, rules: Seq::empty(), fallback: end_with(Token::Error) },
    ]
}

/// A state is the one found by name when it has the name and no earlier
/// state has it.
pub proof fn lemma_found(table: Seq<StateModel>, name: Seq<char>, from: int, t: int)
    requires
        0 <= from <= t < table.len(),
        table[t].name == name,
        forall|j: int| from <= j < t ==> (#[trigger] table[j]).name != name,
    ensures
        find_from(table, name, from) == Some(t),
    decreases t - from,
{
    if from < t {
        lemma_found(table, name, from + 1, t);
    }
}

/// Where each state of the grammar stands in its table.
pub proof fn lemma_grammar_places()
    ensures
        grammar().len() == 8,
        find(grammar(), "initial_state"@) == Some(0int),
        find(grammar(), "i_go"@) == Some(1int),
        find(grammar(), "i_open"@) == Some(2int),
        find(grammar(), "i_openwith"@) == Some(3int),
        find(grammar(), "default_intermediate_state"@) == Some(4int),
        find(grammar(), "default_final_state"@) == Some(5int),
        find(grammar(), "f_open"@) == Some(6int),
        find(grammar(), "unknown_state"@) == Some(7int),
{
    reveal_strlit("initial_state");
    reveal_strlit("i_go");
    reveal_strlit("i_open");
    reveal_strlit("i_openwith");
    reveal_strlit("default_intermediate_state");
    reveal_strlit("default_final_state");
    reveal_strlit("f_open");
    reveal_strlit("unknown_state");
    let g = grammar();
    assert("initial_state"@.len() == 13);
    assert("i_go"@.len() == 4);
    assert("i_open"@.len() == 6);
    assert("i_openwith"@.len() == 10);
    assert("default_intermediate_state"@.len() == 26);
    assert("default_final_state"@.len() == 19);
    assert("f_open"@.len() == 6);
    assert("unknown_state"@.len() == 13);
    assert("i_open"@[0] != "f_open"@[0]);
    assert("initial_state"@[0] != "unknown_state"@[0]);
    lemma_found(g, "initial_state"@, 0, 0);
    lemma_found(g, "i_go"@, 0, 1);
    lemma_found(g, "i_open"@, 0, 2);
    lemma_found(g, "i_openwith"@, 0, 3);
    lemma_found(g, "default_intermediate_state"@, 0, 4);
    lemma_found(g, "default_final_state"@, 0, 5);
    lemma_found(g, "f_open"@, 0, 6);
    lemma_found(g, "unknown_state"@, 0, 7);
}

/// The grammar is well formed: every state that a rule names exists, and
/// every parse ends.
pub proof fn lemma_grammar_well_formed()
    ensures
        well_formed(grammar()),
{
    lemma_grammar_places();
    let g = grammar();
    assert(answers_to(g[2].rules, Seq::empty())) by {
        assert(g[2].rules[0].input == Seq::<char>::empty());
    }
    assert(answers_to(g[4].rules, Seq::empty())) by {
        assert(g[4].rules[0].input == Seq::<char>::empty());
    }
    assert(state_settles(g, 0));
    assert(state_settles(g, 1));
    assert(state_settles(g, 2));
    assert(state_settles(g, 3));
    assert(state_settles(g, 4));
    assert(state_settles(g, 5));
    assert(state_settles(g, 6));
    assert(state_settles(g, 7));
}

/// The words of a name: the words from a position on, up to the first empty
/// word or the end of the line.
pub open spec fn phrase(words: Seq<Seq<char>>, from: int) -> Seq<Seq<char>>
    decreases words.len() - from,
{
    if from < 0 || from >= words.len() || words[from].len() == 0 {
        Seq::empty()
    } else {
        seq![words[from]] + phrase(words, from + 1)
    }
}

/// The words of the name after `open`: the words from a position on, up to
/// the first word `with`, the first empty word or the end of the line.
pub open spec fn target(words: Seq<Seq<char>>, from: int) -> Seq<Seq<char>>
    decreases words.len() - from,
{
    if from < 0 || from >= words.len() || words[from].len() == 0 || words[from] == "with"@ {
        Seq::empty()
    } else {
        seq![words[from]] + target(words, from + 1)
    }
}

/// The position after the word `with` that ends the name after `open`, if
/// the name ends there.
pub open spec fn key_from(words: Seq<Seq<char>>, from: int) -> Option<int>
    decreases words.len() - from,
{
    if from < 0 || from >= words.len() || words[from].len() == 0 {
        None
    } else if words[from] == "with"@ {
        Some(from + 1)
    } else {
        key_from(words, from + 1)
    }
}

/// The tokens that the words of a line stand for, before object words are
/// merged. The first word is the verb and decides what may follow: `help`,
/// `?`, `exit`, `quit`, `view` and `take` are followed by the words of a
/// name; `open` by the words of a name and, after the word `with`, by the
/// words of a second name; `go` by `through` and the words of a name. A line
/// that begins with no verb is an error, and so is `go` without `through`.
pub open spec fn sentence(words: Seq<Seq<char>>) -> Seq<Token> {
    let verb = word_at(words, 0);
    if verb == "help"@ || verb == "?"@ {
        seq![Token::Keyword(Keyword::Help)] + objects(phrase(words, 1))
    } else if verb == "exit"@ || verb == "quit"@ {
        seq![Token::Keyword(Keyword::Quit)] + objects(phrase(words, 1))
    } else if verb == "view"@ {
        seq![Token::Keyword(Keyword::View)] + objects(phrase(words, 1))
    } else if verb == "take"@ {
        seq![Token::Keyword(Keyword::Take)] + objects(phrase(words, 1))
    } else if verb == "open"@ {
        seq![Token::Keyword(Keyword::Open)] + objects(target(words, 1)) + match key_from(words, 1) {
            Some(at) => seq![Token::Keyword(Keyword::OpenWith)] + objects(phrase(words, at)),
            None => Seq::empty(),
        }
    } else if verb == "go"@ {
        if word_at(words, 1) == "through"@ {
            seq![Token::Keyword(Keyword::GoThrough)] + objects(phrase(words, 2))
        } else {
            seq![Token::Error]
        }
    } else {
        seq![Token::Error]
    }
}

/// The object that the words of a name make: none without words, else one
/// object whose text is the words with one space between neighbours.
pub open spec fn named(words: Seq<Seq<char>>) -> Seq<Token> {
    if words.len() == 0 {
        Seq::empty()
    } else {
        seq![Token::Object(join(words))]
    }
}

/// The tokens of a line of words, with each name as one object.
pub open spec fn reading(words: Seq<Seq<char>>) -> Seq<Token> {
    let verb = word_at(words, 0);
    if verb == "help"@ || verb == "?"@ {
        seq![Token::Keyword(Keyword::Help)] + named(phrase(words, 1))
    } else if verb == "exit"@ || verb == "quit"@ {
        seq![Token::Keyword(Keyword::Quit)] + named(phrase(words, 1))
    } else if verb == "view"@ {
        seq![Token::Keyword(Keyword::View)] + named(phrase(words, 1))
    } else if verb == "take"@ {
        seq![Token::Keyword(Keyword::Take)] + named(phrase(words, 1))
    } else if verb == "open"@ {
        seq![Token::Keyword(Keyword::Open)] + named(target(words, 1)) + match key_from(words, 1) {
            Some(at) => seq![Token::Keyword(Keyword::OpenWith)] + named(phrase(words, at)),
            None => Seq::empty(),
        }
    } else if verb == "go"@ {
        if word_at(words, 1) == "through"@ {
            seq![Token::Keyword(Keyword::GoThrough)] + named(phrase(words, 2))
        } else {
            seq![Token::Error]
        }
    } else {
        seq![Token::Error]
    }
}

/// The objects of a word and more words are the object of the word and the
/// objects of the others.
proof fn lemma_objects_cons(word: Seq<char>, rest: Seq<Seq<char>>)
    ensures
        objects(seq![word] + rest) == seq![Token::Object(word)] + objects(rest),
{
    assert(objects(seq![word] + rest) =~= seq![Token::Object(word)] + objects(rest));
}

/// The states that end a parse emit nothing, but for the state of unknown
/// verbs, which emits an error.
proof fn lemma_final_states(words: Seq<Seq<char>>, pos: int)
    requires
        0 <= pos <= words.len(),
    ensures
        run(grammar(), words, 5, pos) == Seq::<Token>::empty(),
        run(grammar(), words, 6, pos) == Seq::<Token>::empty(),
        run(grammar(), words, 7, pos) == seq![Token::Error],
{
    let g = grammar();
    let word = word_at(words, pos);
    assert(pick(g[5].rules, g[5].fallback, word) == g[5].fallback);
    assert(pick(g[6].rules, g[6].fallback, word) == g[6].fallback);
    assert(pick(g[7].rules, g[7].fallback, word) == g[7].fallback);
}

/// From the state that collects objects, the table emits the words of a name.
proof fn lemma_objects_state(words: Seq<Seq<char>>, pos: int)
    requires
        0 <= pos <= words.len(),
    ensures
        run(grammar(), words, 4, pos) == objects(phrase(words, pos)),
    decreases words.len() - pos,
{
    let g = grammar();
    let word = word_at(words, pos);
    lemma_grammar_places();
    reveal_with_fuel(pick, 3);
    if word.len() == 0 {
        assert(word =~= Seq::<char>::empty());
        lemma_final_states(words, pos);
        assert(run(g, words, 4, pos) =~= objects(phrase(words, pos)));
    } else {
        assert(pick(g[4].rules, g[4].fallback, word) == g[4].fallback);
        lemma_objects_state(words, pos + 1);
        lemma_objects_cons(word, phrase(words, pos + 1));
        assert(run(g, words, 4, pos) =~= objects(phrase(words, pos)));
    }
}

/// From the state after `open`, the table emits what may follow `open`.
proof fn lemma_open_state(words: Seq<Seq<char>>, pos: int)
    requires
        0 <= pos <= words.len(),
    ensures
        run(grammar(), words, 2, pos) == objects(target(words, pos)) + match key_from(words, pos) {
            Some(at) => seq![Token::Keyword(Keyword::OpenWith)] + objects(phrase(words, at)),
            None => Seq::empty(),
        },
    decreases words.len() - pos,
{
    let g = grammar();
    let word = word_at(words, pos);
    let tail = objects(target(words, pos)) + match key_from(words, pos) {
        Some(at) => seq![Token::Keyword(Keyword::OpenWith)] + objects(phrase(words, at)),
        None => Seq::empty(),
    };
    lemma_grammar_places();
    reveal_with_fuel(pick, 3);
    reveal_strlit("with");
    if word.len() == 0 {
        assert(word =~= Seq::<char>::empty());
        lemma_final_states(words, pos);
        assert(run(g, words, 2, pos) =~= tail);
    } else if word == "with"@ {
        assert(pick(g[3].rules, g[3].fallback, word) == g[3].fallback);
        lemma_objects_state(words, pos + 1);
        assert(run(g, words, 3, pos) =~= seq![Token::Keyword(Keyword::OpenWith)] + objects(
            phrase(words, pos + 1),
        ));
        assert(run(g, words, 2, pos) =~= tail);
    } else {
        assert(pick(g[2].rules, g[2].fallback, word) == g[2].fallback);
        lemma_open_state(words, pos + 1);
        lemma_objects_cons(word, target(words, pos + 1));
        assert(run(g, words, 2, pos) =~= tail);
    }
}

/// The table of the parser and the sentences of the grammar agree: run from
/// its initial state, the table emits the tokens of the sentence.
pub proof fn lemma_grammar_reads_sentences(words: Seq<Seq<char>>)
    ensures
        find(grammar(), "initial_state"@) == Some(0int),
        run(grammar(), words, 0, 0) == sentence(words),
{
    let g = grammar();
    let verb = word_at(words, 0);
    lemma_grammar_places();
    reveal_with_fuel(pick, 10);
    reveal_strlit("help");
    reveal_strlit("?");
    reveal_strlit("exit");
    reveal_strlit("quit");
    reveal_strlit("view");
    reveal_strlit("take");
    reveal_strlit("open");
    reveal_strlit("go");
    reveal_strlit("through");
    assert("help"@.len() == 4 && "?"@.len() == 1 && "exit"@.len() == 4 && "quit"@.len() == 4);
    assert("view"@.len() == 4 && "take"@.len() == 4 && "open"@.len() == 4);
    assert("go"@.len() == 2 && "through"@.len() == 7);
    if verb == "help"@ || verb == "?"@ || verb == "exit"@ || verb == "quit"@ || verb == "view"@
        || verb == "take"@ {
        assert(words.len() > 0);
        lemma_objects_state(words, 1);
        assert(run(g, words, 0, 0) =~= sentence(words));
    } else if verb == "open"@ {
        assert(words.len() > 0);
        lemma_open_state(words, 1);
        assert(run(g, words, 0, 0) =~= sentence(words));
    } else if verb == "go"@ {
        assert(words.len() > 0);
        let next = word_at(words, 1);
        assert(run(g, words, 0, 0) =~= run(g, words, 1, 1));
        reveal_with_fuel(pick, 3);
        if next == "through"@ {
            assert(words.len() > 1);
            lemma_objects_state(words, 2);
            assert(run(g, words, 1, 1) =~= sentence(words));
        } else {
            assert(pick(g[1].rules, g[1].fallback, next) == g[1].fallback);
            assert(run(g, words, 1, 1) =~= sentence(words));
        }
    } else {
        assert(pick(g[0].rules, g[0].fallback, verb) == g[0].fallback);
        lemma_final_states(words, 0);
        assert(run(g, words, 0, 0) =~= sentence(words));
    }
}

/// The object words of a name merge into the object that the name makes.
pub proof fn lemma_merge_name(words: Seq<Seq<char>>)
    ensures
        merge(objects(words)) == named(words),
{
    if words.len() == 0 {
        assert(objects(words) =~= Seq::<Token>::empty());
    } else {
        lemma_merge_objects(words);
    }
}

/// Merging keeps a keyword at the head of the tokens and merges the rest.
proof fn lemma_merge_after_keyword(keyword: Keyword, rest: Seq<Token>)
    ensures
        merge(seq![Token::Keyword(keyword)] + rest) == seq![Token::Keyword(keyword)] + merge(rest),
{
    let head = seq![Token::Keyword(keyword)];
    lemma_merge_boundary(Seq::empty(), Token::Keyword(keyword), rest);
    assert(Seq::<Token>::empty() + head + rest =~= head + rest);
    assert(merge(Seq::<Token>::empty()) =~= Seq::<Token>::empty());
    assert(merge(Seq::<Token>::empty()) + head + merge(rest) =~= head + merge(rest));
}

/// Merged, the tokens of a sentence are its reading: the keywords stay, and
/// the words of each name become one object.
pub proof fn lemma_merge_sentence(words: Seq<Seq<char>>)
    ensures
        merge(sentence(words)) == reading(words),
{
    let verb = word_at(words, 0);
    lemma_merge_name(phrase(words, 1));
    lemma_merge_name(phrase(words, 2));
    lemma_merge_name(target(words, 1));
    if verb == "help"@ || verb == "?"@ {
        lemma_merge_after_keyword(Keyword::Help, objects(phrase(words, 1)));
    } else if verb == "exit"@ || verb == "quit"@ {
        lemma_merge_after_keyword(Keyword::Quit, objects(phrase(words, 1)));
    } else if verb == "view"@ {
        lemma_merge_after_keyword(Keyword::View, objects(phrase(words, 1)));
    } else if verb == "take"@ {
        lemma_merge_after_keyword(Keyword::Take, objects(phrase(words, 1)));
    } else if verb == "open"@ {
        let head = objects(target(words, 1));
        match key_from(words, 1) {
            Some(at) => {
                let key = objects(phrase(words, at));
                lemma_merge_name(phrase(words, at));
                lemma_merge_boundary(head, Token::Keyword(Keyword::OpenWith), key);
                let with = Token::Keyword(Keyword::OpenWith);
                assert(head + (seq![with] + key) =~= head + seq![with] + key);
                lemma_merge_after_keyword(Keyword::Open, head + (seq![with] + key));
                assert(seq![Token::Keyword(Keyword::Open)] + head + (seq![with] + key) =~= seq![
                    Token::Keyword(Keyword::Open),
                ] + (head + (seq![with] + key)));
                assert(merge(sentence(words)) =~= reading(words));
            },
            None => {
                lemma_merge_after_keyword(Keyword::Open, head);
                assert(seq![Token::Keyword(Keyword::Open)] + head + Seq::<Token>::empty() =~= seq![
                    Token::Keyword(Keyword::Open),
                ] + head);
                assert(merge(sentence(words)) =~= reading(words));
            },
        }
    } else if verb == "go"@ && word_at(words, 1) == "through"@ {
        lemma_merge_after_keyword(Keyword::GoThrough, objects(phrase(words, 2)));
    } else {
        let error = seq![Token::Error];
        assert(error.drop_last() =~= Seq::<Token>::empty());
        assert(merge(error.drop_last()) =~= Seq::<Token>::empty());
        assert(merge(error) =~= error);
    }
}

/// A name holds no keyword.
proof fn lemma_name_has_no_keyword(words: Seq<Seq<char>>)
    ensures
        keywords_of(named(words)) == Seq::<Keyword>::empty(),
{
    let tokens = named(words);
    if words.len() > 0 {
        assert(tokens.drop_last() =~= Seq::<Token>::empty());
        assert(keywords_of(tokens.drop_last()) =~= Seq::<Keyword>::empty());
    }
}

/// The keywords of a keyword and a name are the keyword alone.
proof fn lemma_keyword_and_name(keyword: Keyword, words: Seq<Seq<char>>)
    ensures
        keywords_of(seq![Token::Keyword(keyword)] + named(words)) == seq![keyword],
{
    let head = seq![Token::Keyword(keyword)];
    assert(head.drop_last() =~= Seq::<Token>::empty());
    assert(keywords_of(head.drop_last()) =~= Seq::<Keyword>::empty());
    assert(head.last() == Token::Keyword(keyword));
    assert(keywords_of(head) =~= seq![keyword]);
    lemma_name_has_no_keyword(words);
    lemma_keywords_concat(head, named(words));
    assert(seq![keyword] + Seq::<Keyword>::empty() =~= seq![keyword]);
}

/// Every reading holds a token. An error is the only token of its reading;
/// every other reading holds a list of keywords that the interpreter acts
/// on, and never the empty token.
pub proof fn lemma_reading_is_a_command(words: Seq<Seq<char>>)
    ensures
        reading(words).len() >= 1,
        forall|i: int| 0 <= i < reading(words).len() ==> !(#[trigger] reading(words)[i] is Nothing),
        reading(words).last() is Error ==> reading(words) == seq![Token::Error],
        !(reading(words).last() is Error) ==> recognised(keywords_of(reading(words))),
{
    let verb = word_at(words, 0);
    let tokens = reading(words);
    lemma_keyword_and_name(Keyword::Help, phrase(words, 1));
    lemma_keyword_and_name(Keyword::Quit, phrase(words, 1));
    lemma_keyword_and_name(Keyword::View, phrase(words, 1));
    lemma_keyword_and_name(Keyword::Take, phrase(words, 1));
    lemma_keyword_and_name(Keyword::GoThrough, phrase(words, 2));
    lemma_keyword_and_name(Keyword::Open, target(words, 1));
    if verb == "open"@ {
        match key_from(words, 1) {
            Some(at) => {
                let head = seq![Token::Keyword(Keyword::Open)] + named(target(words, 1));
                let tail = seq![Token::Keyword(Keyword::OpenWith)] + named(phrase(words, at));
                lemma_keyword_and_name(Keyword::OpenWith, phrase(words, at));
                lemma_keywords_concat(head, tail);
                assert(seq![Keyword::Open] + seq![Keyword::OpenWith] =~= seq![
                    Keyword::Open,
                    Keyword::OpenWith,
                ]);
            },
            None => {
                let head = seq![Token::Keyword(Keyword::Open)] + named(target(words, 1));
                assert(head + Seq::<Token>::empty() =~= head);
            },
        }
    }
}

/// What parsing gives with the grammar of the interpreter: the reading of
/// the words.
pub proof fn lemma_parse_reads(words: Seq<Seq<char>>)
    ensures
        parse_words(grammar(), words) == reading(words),
{
    lemma_grammar_reads_sentences(words);
    lemma_merge_sentence(words);
}

} // verus!
