//! The world registry and the resolution of commands against it.

use crate::base::{agrees, BaseObject, Capability, Door};
use crate::command::{command_of, keywords_of, objects_of, Command, CommandModel};
use crate::parser::{Keyword, OutputAction, Token};
use crate::text::{contains, lemma_first_absent, lemma_too_short, same_name, names_match};
use vstd::prelude::*;
use vstd::string::*;

verus! {

/// The text of the help.
pub open spec fn help_text() -> Seq<char> {
    "This help, right now, doesn't help too much."@
}

/// The text that answers a line which was not understood.
pub open spec fn error_text() -> Seq<char> {
    "Cannot understand what are you trying to do."@
}

/// The text of the farewell.
pub open spec fn quit_text() -> Seq<char> {
    "Good bye, cruel world."@
}

/// The text that answers a name which no entity has.
pub open spec fn cannot_find(name: Seq<char>) -> Seq<char> {
    "Cannot find "@ + name + "."@
}

/// The help.
pub fn help_message() -> (r: String)
    ensures
        r@ == help_text(),
{
    String::from_str("This help, right now, doesn't help too much.")
}

/// The answer to a line which was not understood.
pub fn error_message() -> (r: String)
    ensures
        r@ == error_text(),
{
    String::from_str("Cannot understand what are you trying to do.")
}

/// The farewell.
pub fn quit_message() -> (r: String)
    ensures
        r@ == quit_text(),
{
    String::from_str("Good bye, cruel world.")
}

/// The position of the first entity whose name is `name`, whatever the case
/// of the letters, looking from `from` on.
pub open spec fn position_from<T: BaseObject>(objects: Seq<T>, name: Seq<char>, from: int) -> Option<
    int,
>
    decreases objects.len() - from,
{
    if from < 0 || from >= objects.len() {
        None
    } else if same_name(objects[from].name_text(), name) {
        Some(from)
    } else {
        position_from(objects, name, from + 1)
    }
}

/// The position of the first entity whose name is `name`, whatever the case
/// of the letters.
pub open spec fn position<T: BaseObject>(objects: Seq<T>, name: Seq<char>) -> Option<int> {
    position_from(objects, name, 0)
}

/// What a capability that takes one entity does to it. Opening with a key
/// takes two entities and is no such capability.
pub open spec fn single<T: BaseObject>(entity: T, capability: Capability) -> Option<(T, Seq<char>)> {
    if capability == Capability::OpenWith {
        None
    } else {
        entity.respond(capability, None)
    }
}

/// The outcome of a capability on the entity at a position: the answer and
/// the entities after it. Where the entity lacks the capability, the answer
/// is `unsupported` and the entities stay as they are. Otherwise the entity
/// answers, and its next state takes its place.
pub open spec fn act_at<T: BaseObject>(
    objects: Seq<T>,
    at: int,
    capability: Capability,
    unsupported: Seq<char>,
) -> (Seq<char>, Seq<T>) {
    match single(objects[at], capability) {
        None => (unsupported, objects),
        Some((state, text)) => (text, objects.update(at, state)),
    }
}

/// The outcome of a command on one entity: the answer and the entities after
/// it. The first name is the target. Without a name the answer is `prompt`;
/// where no entity has the name, the answer says so; in both cases the
/// entities stay as they are. Otherwise the capability acts on the first
/// entity of that name.
pub open spec fn with_one<T: BaseObject>(
    objects: Seq<T>,
    names: Seq<Seq<char>>,
    prompt: Seq<char>,
    capability: Capability,
    unsupported: Seq<char>,
) -> (Seq<char>, Seq<T>) {
    if names.len() == 0 {
        (prompt, objects)
    } else {
        match position(objects, names[0]) {
            None => (cannot_find(names[0]), objects),
            Some(at) => act_at(objects, at, capability, unsupported),
        }
    }
}

/// The outcome of opening the entity at one position with the entity at
/// another as the key. Where the target cannot be opened with a key, the
/// answer is `unsupported` and the entities stay as they are. Otherwise the
/// target answers; its next state is written to its place, and then the key,
/// as it was, to the key's place: where both positions are one, the entity
/// stays as it was.
pub open spec fn open_at<T: BaseObject>(
    objects: Seq<T>,
    at: int,
    key_at: int,
    unsupported: Seq<char>,
) -> (Seq<char>, Seq<T>) {
    match objects[at].respond(Capability::OpenWith, Some(objects[key_at])) {
        None => (unsupported, objects),
        Some((state, text)) => (text, objects.update(at, state).update(key_at, objects[key_at])),
    }
}

/// The outcome of opening one entity with another. The first name is the
/// target, the second the key. A missing name is answered with its prompt,
/// and the first name that no entity has is reported; in these cases the
/// entities stay as they are. Otherwise the first entity of the first name
/// is opened with the first entity of the second.
pub open spec fn with_two<T: BaseObject>(
    objects: Seq<T>,
    names: Seq<Seq<char>>,
    prompt: Seq<char>,
    key_prompt: Seq<char>,
    unsupported: Seq<char>,
) -> (Seq<char>, Seq<T>) {
    if names.len() == 0 {
        (prompt, objects)
    } else if names.len() == 1 {
        (key_prompt, objects)
    } else {
        match (position(objects, names[0]), position(objects, names[1])) {
            (Some(at), Some(key_at)) => open_at(objects, at, key_at, unsupported),
            (Some(_), None) => (cannot_find(names[1]), objects),
            _ => (cannot_find(names[0]), objects),
        }
    }
}

/// The outcome of a command on the entities: whether the interaction goes
/// on, the answer, and the entities after it.
///
/// The keywords of the command decide: `Quit` alone ends the interaction,
/// `Help` alone gives the help, `Open`, `View`, `Take` and `GoThrough` alone
/// act on the first object of the command, and `Open` followed by `OpenWith`
/// opens the first object with the second. Every other list of keywords is
/// not understood.
pub open spec fn dispatch<T: BaseObject>(objects: Seq<T>, command: CommandModel) -> (
    bool,
    Seq<char>,
    Seq<T>,
) {
    let keywords = command.keywords;
    let names = command.objects;
    if keywords == seq![Keyword::Quit] {
        (false, quit_text(), objects)
    } else if keywords == seq![Keyword::Help] {
        (true, help_text(), objects)
    } else if keywords == seq![Keyword::Open] {
        let (text, after) = with_one(
            objects,
            names,
            "What do you want to open?"@,
            Capability::Open,
            "Oops! Cannot open that"@,
        );
        (true, text, after)
    } else if keywords == seq![Keyword::Open, Keyword::OpenWith] {
        let (text, after) = with_two(
            objects,
            names,
            "What do you want to open?"@,
            "What do you want to use to open?"@,
            "Oops! Cannot open that"@,
        );
        (true, text, after)
    } else if keywords == seq![Keyword::View] {
        let (text, after) = with_one(
            objects,
            names,
            "What do you want to view?"@,
            Capability::View,
            "Oops! Cannot view that. It seems to be invisible!"@,
        );
        (true, text, after)
    } else if keywords == seq![Keyword::Take] {
        let (text, after) = with_one(
            objects,
            names,
            "What do you want to take?"@,
            Capability::Take,
            "Oops! Cannot take that"@,
        );
        (true, text, after)
    } else if keywords == seq![Keyword::GoThrough] {
        let (text, after) = with_one(
            objects,
            names,
            "What do you want to go through?"@,
            Capability::GoThrough,
            "Oops! Cannot go through that"@,
        );
        (true, text, after)
    } else {
        (true, error_text(), objects)
    }
}

/// The outcome of a parsed line on the entities. A line that ends in an
/// error has no command and is not understood; every other line is
/// reduced to its command, which is carried out.
pub open spec fn resolve<T: BaseObject>(objects: Seq<T>, tokens: Seq<Token>) -> (
    bool,
    Seq<char>,
    Seq<T>,
) {
    match command_of(tokens) {
        Some(command) => dispatch(objects, command),
        None => (true, error_text(), objects),
    }
}

/// Whether a list of keywords is one that the interpreter acts on.
pub open spec fn recognised(keywords: Seq<Keyword>) -> bool {
    ||| keywords == seq![Keyword::Quit]
    ||| keywords == seq![Keyword::Help]
    ||| keywords == seq![Keyword::Open]
    ||| keywords == seq![Keyword::Open, Keyword::OpenWith]
    ||| keywords == seq![Keyword::View]
    ||| keywords == seq![Keyword::Take]
    ||| keywords == seq![Keyword::GoThrough]
}

/// Whether the names that the keywords ask for are there and each denotes
/// an entity: none for `Quit` and `Help`, two for `Open` with `OpenWith`,
/// one for the others.
pub open spec fn resolvable<T: BaseObject>(
    objects: Seq<T>,
    keywords: Seq<Keyword>,
    names: Seq<Seq<char>>,
) -> bool {
    if keywords == seq![Keyword::Quit] || keywords == seq![Keyword::Help] {
        true
    } else if keywords == seq![Keyword::Open, Keyword::OpenWith] {
        names.len() >= 2 && position(objects, names[0]) is Some && position(objects, names[1])
            is Some
    } else {
        names.len() >= 1 && position(objects, names[0]) is Some
    }
}

/// Whether no entity ever answers with a text that holds the answer to a
/// line which was not understood.
pub open spec fn plain_spoken<T: BaseObject>(objects: Seq<T>) -> bool {
    forall|i: int, capability: Capability, key: Option<T>|
        0 <= i < objects.len() ==> match #[trigger] objects[i].respond(capability, key) {
            Some((_, text)) => !contains(text, error_text()),
            None => true,
        }
}

/// None of the fixed answers of the interpreter holds the answer to a line
/// which was not understood.
pub proof fn lemma_fixed_answers()
    ensures
        !contains(quit_text(), error_text()),
        !contains(help_text(), error_text()),
        !contains("Oops! Cannot open that"@, error_text()),
        !contains("Oops! Cannot view that. It seems to be invisible!"@, error_text()),
        !contains("Oops! Cannot take that"@, error_text()),
        !contains("Oops! Cannot go through that"@, error_text()),
{
    reveal_strlit("Cannot understand what are you trying to do.");
    reveal_strlit("This help, right now, doesn't help too much.");
    reveal_strlit("Good bye, cruel world.");
    reveal_strlit("Oops! Cannot open that");
    reveal_strlit("Oops! Cannot view that. It seems to be invisible!");
    reveal_strlit("Oops! Cannot take that");
    reveal_strlit("Oops! Cannot go through that");
    assert(error_text().len() == 44);
    lemma_too_short(quit_text(), error_text());
    lemma_first_absent(help_text(), error_text());
    lemma_too_short("Oops! Cannot open that"@, error_text());
    lemma_first_absent("Oops! Cannot view that. It seems to be invisible!"@, error_text());
    lemma_too_short("Oops! Cannot take that"@, error_text());
    lemma_too_short("Oops! Cannot go through that"@, error_text());
}

/// Every list of keywords that the interpreter does not act on is answered
/// with exactly the text for a line which was not understood; the
/// interaction goes on and the entities stay as they are.
pub proof fn lemma_unrecognised<T: BaseObject>(objects: Seq<T>, tokens: Seq<Token>)
    requires
        !recognised(keywords_of(tokens)),
    ensures
        resolve(objects, tokens) == (true, error_text(), objects),
{
}

/// Every list of keywords that the interpreter acts on, with names that
/// denote entities, is answered with a text that does not hold the text for
/// a line which was not understood, as long as no entity answers with it.
pub proof fn lemma_recognised<T: BaseObject>(objects: Seq<T>, tokens: Seq<Token>)
    requires
        tokens.len() == 0 || !(tokens.last() is Error),
        recognised(keywords_of(tokens)),
        resolvable(objects, keywords_of(tokens), objects_of(tokens)),
        plain_spoken(objects),
    ensures
        !contains(resolve(objects, tokens).1, error_text()),
{
    lemma_fixed_answers();
    let keywords = keywords_of(tokens);
    let names = objects_of(tokens);
    if keywords == seq![Keyword::Quit] || keywords == seq![Keyword::Help] {
    } else if keywords == seq![Keyword::Open, Keyword::OpenWith] {
        let at = position(objects, names[0])->0;
        let key_at = position(objects, names[1])->0;
        lemma_position_from(objects, names[0], 0);
        lemma_position_from(objects, names[1], 0);
        let reply = objects[at].respond(Capability::OpenWith, Some(objects[key_at]));
    } else {
        let at = position(objects, names[0])->0;
        lemma_position_from(objects, names[0], 0);
        assert(keywords.len() == 1);
        let capability = match keywords[0] {
            Keyword::Open => Capability::Open,
            Keyword::View => Capability::View,
            Keyword::Take => Capability::Take,
            _ => Capability::GoThrough,
        };
        let reply = objects[at].respond(capability, None);
    }
}

/// Doors are plain spoken, as long as no description of a door holds the
/// text for a line which was not understood.
pub proof fn lemma_doors_plain_spoken(objects: Seq<Door>)
    requires
        forall|i: int|
            0 <= i < objects.len() ==> !contains(
                (#[trigger] objects[i]).description@,
                error_text(),
            ),
    ensures
        plain_spoken(objects),
{
    reveal_strlit("Cannot understand what are you trying to do.");
    reveal_strlit("It's already opened.");
    reveal_strlit("You open the door.");
    reveal_strlit("You need some key to open that door.");
    reveal_strlit("You don't need a key to unlock that door.");
    reveal_strlit("This is not the right key to unlock the door.");
    reveal_strlit("## Not implemented yet ##");
    assert(error_text().len() == 44);
    lemma_too_short("It's already opened."@, error_text());
    lemma_too_short("You open the door."@, error_text());
    lemma_too_short("You need some key to open that door."@, error_text());
    lemma_too_short("You don't need a key to unlock that door."@, error_text());
    lemma_first_absent("This is not the right key to unlock the door."@, error_text());
    lemma_too_short("## Not implemented yet ##"@, error_text());
    assert forall|i: int, capability: Capability, key: Option<Door>|
        0 <= i < objects.len() implies match #[trigger] objects[i].respond(capability, key) {
        Some((_, text)) => !contains(text, error_text()),
        None => true,
    } by {
        assert(!contains(objects[i].description@, error_text()));
    }
}

/// No line adds an entity to the registry or removes one from it.
pub proof fn lemma_resolve_keeps_count<T: BaseObject>(objects: Seq<T>, tokens: Seq<Token>)
    ensures
        resolve(objects, tokens).2.len() == objects.len(),
{
    let names = objects_of(tokens);
    if names.len() > 0 {
        lemma_position_from(objects, names[0], 0);
    }
    if names.len() > 1 {
        lemma_position_from(objects, names[1], 0);
    }
}

/// Every door keeps its name, its description and its key, whatever the
/// line; only whether it is locked may change.
pub proof fn lemma_doors_keep_names(objects: Seq<Door>, tokens: Seq<Token>)
    ensures
        forall|i: int|
            0 <= i < objects.len() ==> {
                let after = #[trigger] resolve(objects, tokens).2[i];
                &&& after.name == objects[i].name
                &&& after.description == objects[i].description
                &&& after.locked_by == objects[i].locked_by
            },
{
    let names = objects_of(tokens);
    if names.len() > 0 {
        lemma_position_from(objects, names[0], 0);
    }
    if names.len() > 1 {
        lemma_position_from(objects, names[1], 0);
    }
}

/// An entity found by name stands in the registry, at or after the place
/// where the search began.
pub proof fn lemma_position_from<T: BaseObject>(objects: Seq<T>, name: Seq<char>, from: int)
    requires
        0 <= from,
    ensures
        match position_from(objects, name, from) {
            Some(at) => from <= at < objects.len() && same_name(objects[at].name_text(), name),
            None => true,
        },
    decreases objects.len() - from,
{
    if from < objects.len() && !same_name(objects[from].name_text(), name) {
        lemma_position_from(objects, name, from + 1);
    }
}

/// Calls a capability that takes one entity.
pub fn invoke<T: BaseObject>(entity: &mut T, capability: Capability) -> (r: Option<String>)
    ensures
        agrees(*old(entity), *final(entity), r, single(*old(entity), capability)),
{
    match capability {
        Capability::View => entity.view(),
        Capability::Open => entity.open(),
        Capability::OpenWith => None,
        Capability::Take => entity.take(),
        Capability::GoThrough => entity.go_through(),
    }
}

/// The world registry: the entities of the world, in a fixed order.
pub struct Environment<T: BaseObject> {
    objects: Vec<T>,
}

impl<T: BaseObject> View for Environment<T> {
    type V = Seq<T>;

    closed spec fn view(&self) -> Seq<T> {
        self.objects@
    }
}

impl Environment<Door> {
    /// The world at the start: one locked door, the "Main Door", which asks
    /// for no key.
    pub fn new() -> (r: Environment<Door>)
        ensures
            r@.len() == 1,
            r@[0].name@ == "Main Door"@,
            r@[0].description@ == "It's just a main door"@,
            r@[0].is_locked,
            r@[0].locked_by is None,
    {
        let door = Door::boxed(
            String::from_str("Main Door"),
            String::from_str("It's just a main door"),
            true,
            None,
        );
        let mut objects: Vec<Door> = Vec::new();
        objects.push(*door);
        Environment { objects }
    }
}

impl<T: BaseObject> Environment<T> {
    /// A world of the given entities.
    pub fn with_objects(objects: Vec<T>) -> (r: Environment<T>)
        ensures
            r@ == objects@,
    {
        Environment { objects }
    }

    /// The number of entities.
    pub fn len(&self) -> (r: usize)
        ensures
            r == self@.len(),
    {
        self.objects.len()
    }

    /// The entity at a position.
    pub fn get(&self, at: usize) -> (r: Option<&T>)
        ensures
            at < self@.len() ==> r == Some(&self@[at as int]),
            at >= self@.len() ==> r is None,
    {
        if at < self.objects.len() {
            Some(&self.objects[at])
        } else {
            None
        }
    }

    /// The position of the first entity whose name is `name`, whatever the
    /// case of the letters.
    pub fn find_position(&self, name: &str) -> (r: Option<usize>)
        ensures
            match r {
                Some(at) => position(self@, name@) == Some(at as int) && at < self@.len(),
                None => position(self@, name@) is None,
            },
    {
        let n = self.objects.len();
        let mut i: usize = 0;
        while i < n
            invariant
                i <= n,
                n == self.objects.len(),
                position(self@, name@) == position_from(self@, name@, i as int),
            decreases n - i,
        {
            if names_match(self.objects[i].name(), name) {
                return Some(i);
            }
            i += 1;
        }
        None
    }

    /// Calls a capability on the entity at a position. The capability runs
    /// on a copy of the entity, which is then written back to its place.
    pub fn one_obj_at(&mut self, at: usize, capability: Capability, unsupported: &str) -> (r:
        String)
        requires
            at < old(self)@.len(),
        ensures
            (r@, final(self)@) == act_at(old(self)@, at as int, capability, unsupported@),
    {
        let mut copy = self.objects[at].clone();
        let reply = invoke(&mut copy, capability);
        match reply {
            Some(text) => {
                self.objects.set(at, copy);
                text
            },
            None => String::from_str(unsupported),
        }
    }

    /// Opens the entity at one position with the entity at another. The
    /// capability runs on copies of both, which are then written back, the
    /// target first and the key after it.
    pub fn two_objs_at(&mut self, at: usize, key_at: usize, unsupported: &str) -> (r: String)
        requires
            at < old(self)@.len(),
            key_at < old(self)@.len(),
        ensures
            (r@, final(self)@) == open_at(old(self)@, at as int, key_at as int, unsupported@),
    {
        let mut obj1 = self.objects[at].clone();
        let obj2 = self.objects[key_at].clone();
        let reply = obj1.open_with(&obj2);
        match reply {
            Some(text) => {
                self.objects.set(at, obj1);
                self.objects.set(key_at, obj2);
                text
            },
            None => String::from_str(unsupported),
        }
    }

    /// Resolves the first name to an entity and calls the capability on it.
    pub fn one_obj_fn(
        &mut self,
        objects: &Vec<String>,
        null_obj_err: &str,
        capability: Capability,
        unsupported: &str,
    ) -> (r: String)
        ensures
            (r@, final(self)@) == with_one(
                old(self)@,
                objects.deep_view(),
                null_obj_err@,
                capability,
                unsupported@,
            ),
    {
        if objects.len() == 0 {
            return String::from_str(null_obj_err);
        }
        let obj_name = objects[0].as_str();
        assert(objects.deep_view()[0] == obj_name@);
        match self.find_position(obj_name) {
            Some(at) => self.one_obj_at(at, capability, unsupported),
            None => {
                let mut text = String::from_str("Cannot find ");
                text.append(obj_name);
                text.append(".");
                text
            },
        }
    }

    /// Resolves the first two names to entities and opens the first with the
    /// second.
    pub fn two_objs_fn(
        &mut self,
        objects: &Vec<String>,
        null_obj1_err: &str,
        null_obj2_err: &str,
        unsupported: &str,
    ) -> (r: String)
        ensures
            (r@, final(self)@) == with_two(
                old(self)@,
                objects.deep_view(),
                null_obj1_err@,
                null_obj2_err@,
                unsupported@,
            ),
    {
        if objects.len() == 0 {
            return String::from_str(null_obj1_err);
        }
        if objects.len() == 1 {
            return String::from_str(null_obj2_err);
        }
        let obj_name1 = objects[0].as_str();
        let obj_name2 = objects[1].as_str();
        assert(objects.deep_view()[0] == obj_name1@);
        assert(objects.deep_view()[1] == obj_name2@);
        let pos1 = self.find_position(obj_name1);
        let pos2 = self.find_position(obj_name2);
        match (pos1, pos2) {
            (Some(at), Some(key_at)) => self.two_objs_at(at, key_at, unsupported),
            (Some(_), None) => {
                let mut text = String::from_str("Cannot find ");
                text.append(obj_name2);
                text.append(".");
                text
            },
            _ => {
                let mut text = String::from_str("Cannot find ");
                text.append(obj_name1);
                text.append(".");
                text
            },
        }
    }

    /// Carries out a parsed line: returns whether the interaction goes on,
    /// and the answer.
    pub fn execute(&mut self, output: &Vec<OutputAction>) -> (r: (bool, String))
        ensures
            (r.0, r.1@, final(self)@) == resolve(old(self)@, output.deep_view()),
    {
        match Command::reduce(output) {
            Some(command) => self.resolve_command(&command),
            None => (true, error_message()),
        }
    }

    /// Carries out a command: returns whether the interaction goes on, and
    /// the answer.
    pub fn resolve_command(&mut self, command: &Command) -> (r: (bool, String))
        ensures
            (r.0, r.1@, final(self)@) == dispatch(old(self)@, command@),
    {
        let keywords = &command.keywords;
        let objects = &command.objects;
        if keywords.len() == 1 {
            assert(keywords@ =~= seq![keywords@[0]]);
            match keywords[0] {
                Keyword::Quit => (false, quit_message()),
                Keyword::Help => (true, help_message()),
                Keyword::Open => (
                    true,
                    self.one_obj_fn(
                        objects,
                        "What do you want to open?",
                        Capability::Open,
                        "Oops! Cannot open that",
                    ),
                ),
                Keyword::View => (
                    true,
                    self.one_obj_fn(
                        objects,
                        "What do you want to view?",
                        Capability::View,
                        "Oops! Cannot view that. It seems to be invisible!",
                    ),
                ),
                Keyword::Take => (
                    true,
                    self.one_obj_fn(
                        objects,
                        "What do you want to take?",
                        Capability::Take,
                        "Oops! Cannot take that",
                    ),
                ),
                Keyword::GoThrough => (
                    true,
                    self.one_obj_fn(
                        objects,
                        "What do you want to go through?",
                        Capability::GoThrough,
                        "Oops! Cannot go through that",
                    ),
                ),
                Keyword::OpenWith => (true, error_message()),
            }
        } else if keywords.len() == 2 && keywords[0] == Keyword::Open && keywords[1]
            == Keyword::OpenWith {
            assert(keywords@ =~= seq![Keyword::Open, Keyword::OpenWith]);
            (
                true,
                self.two_objs_fn(
                    objects,
                    "What do you want to open?",
                    "What do you want to use to open?",
                    "Oops! Cannot open that",
                ),
            )
        } else {
            (true, error_message())
        }
    }
}

} // verus!
