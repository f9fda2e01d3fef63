//! Entities of the world and what can be done with them.

use crate::text::same_text;
use vstd::prelude::*;
use vstd::string::*;

verus! {

/// The things that can be done with an entity.
#[derive(Clone, Copy, PartialEq, Eq, Structural, Debug)]
pub enum Capability {
    View,
    Open,
    OpenWith,
    Take,
    GoThrough,
}

/// Whether a call of a capability did what the entity's model says: where the
/// model gives a new state and a text, the entity is in that state and the
/// text is returned; where the entity lacks the capability, nothing is
/// returned and the entity is as before.
pub open spec fn agrees<T>(
    before: T,
    after: T,
    reply: Option<String>,
    expected: Option<(T, Seq<char>)>,
) -> bool {
    match expected {
        Some((state, text)) => reply is Some && reply->0@ == text && after == state,
        None => reply is None && after == before,
    }
}

/// An entity of the world. It has a name, by which it is found, and a
/// description. Each capability is optional: an entity that lacks one
/// answers a call of it with `None` and stays as it is.
pub trait BaseObject: Sized {
    /// The name of the entity.
    spec fn name_text(&self) -> Seq<char>;

    /// The description of the entity.
    spec fn description_text(&self) -> Seq<char>;

    /// What a capability does to the entity: its next state and the text
    /// that it answers with, or `None` where the entity lacks the
    /// capability. `key` is the second entity of `Capability::OpenWith`.
    spec fn respond(&self, capability: Capability, key: Option<Self>) -> Option<(Self, Seq<char>)>;

    /// The name of the entity.
    fn name(&self) -> (r: &str)
        ensures
            r@ == self.name_text(),
    ;

    /// The description of the entity.
    fn description(&self) -> (r: &str)
        ensures
            r@ == self.description_text(),
    ;

    /// A copy of the entity.
    fn clone(&self) -> (r: Self)
        ensures
            r == *self,
    ;

    /// Looks at the entity.
    fn view(&mut self) -> (r: Option<String>)
        ensures
            agrees(*old(self), *final(self), r, old(self).respond(Capability::View, None)),
    ;

    /// Opens the entity.
    fn open(&mut self) -> (r: Option<String>)
        ensures
            agrees(*old(self), *final(self), r, old(self).respond(Capability::Open, None)),
    ;

    /// Opens the entity with another entity as the key.
    fn open_with(&mut self, key: &Self) -> (r: Option<String>)
        ensures
            agrees(
                *old(self),
                *final(self),
                r,
                old(self).respond(Capability::OpenWith, Some(*key)),
            ),
    ;

    /// Takes the entity.
    fn take(&mut self) -> (r: Option<String>)
        ensures
            agrees(*old(self), *final(self), r, old(self).respond(Capability::Take, None)),
    ;

    /// Goes through the entity.
    fn go_through(&mut self) -> (r: Option<String>)
        ensures
            agrees(*old(self), *final(self), r, old(self).respond(Capability::GoThrough, None)),
    ;
}

/// A door. It may be locked, and a locked door may ask for a key, which it
/// knows by name.
#[derive(Debug)]
pub struct Door {
    pub name: String,
    pub description: String,
    pub is_locked: bool,
    pub locked_by: Option<String>,
}

/// What opening a door does: an unlocked door is already open; a locked door
/// that asks for no key is unlocked; one that asks for a key stays locked.
pub open spec fn door_opened(door: Door) -> (Door, Seq<char>) {
    if !door.is_locked {
        (door, "It's already opened."@)
    } else if door.locked_by is None {
        (Door { is_locked: false, ..door }, "You open the door."@)
    } else {
        (door, "You need some key to open that door."@)
    }
}

/// The answer of a door that is opened with the entity called `key_name`.
/// The door itself stays as it is.
pub open spec fn door_opened_with(door: Door, key_name: Seq<char>) -> Seq<char> {
    if !door.is_locked {
        "It's already opened."@
    } else if door.locked_by is None {
        "You don't need a key to unlock that door."@
    } else if door.locked_by->0@ == key_name {
        "You open the door."@
    } else {
        "This is not the right key to unlock the door."@
    }
}

impl Door {
    /// A door on the heap.
    pub fn boxed(name: String, description: String, is_locked: bool, locked_by: Option<String>) -> (r:
        Box<Door>)
        ensures
            *r == (Door { name, description, is_locked, locked_by }),
    {
        Box::new(Door { name, description, is_locked, locked_by })
    }
}

impl BaseObject for Door {
    open spec fn name_text(&self) -> Seq<char> {
        self.name@
    }

    open spec fn description_text(&self) -> Seq<char> {
        self.description@
    }

    open spec fn respond(&self, capability: Capability, key: Option<Door>) -> Option<
        (Door, Seq<char>),
    > {
        match capability {
            Capability::View => Some((*self, self.description@)),
            Capability::Open => Some(door_opened(*self)),
            Capability::OpenWith => match key {
                Some(k) => Some((*self, door_opened_with(*self, k.name@))),
                None => None,
            },
            Capability::Take => None,
            Capability::GoThrough => Some((*self, "## Not implemented yet ##"@)),
        }
    }

    fn name(&self) -> (r: &str) {
        self.name.as_str()
    }

    fn description(&self) -> (r: &str) {
        self.description.as_str()
    }

    fn clone(&self) -> (r: Door) {
        Door {
            name: self.name.clone(),
            description: self.description.clone(),
            is_locked: self.is_locked,
            locked_by: match &self.locked_by {
                Some(key) => Some(key.clone()),
                None => None,
            },
        }
    }

    fn view(&mut self) -> (r: Option<String>) {
        Some(self.description.clone())
    }

    fn open(&mut self) -> (r: Option<String>) {
        if !self.is_locked {
            Some(String::from_str("It's already opened."))
        } else if self.locked_by.is_none() {
            self.is_locked = false;
            Some(String::from_str("You open the door."))
        } else {
            Some(String::from_str("You need some key to open that door."))
        }
    }

    fn open_with(&mut self, key: &Door) -> (r: Option<String>) {
        if !self.is_locked {
            Some(String::from_str("It's already opened."))
        } else {
            match &self.locked_by {
                None => Some(String::from_str("You don't need a key to unlock that door.")),
                Some(wanted) => {
                    if same_text(wanted.as_str(), key.name.as_str()) {
                        Some(String::from_str("You open the door."))
                    } else {
                        Some(String::from_str("This is not the right key to unlock the door."))
                    }
                },
            }
        }
    }

    fn take(&mut self) -> (r: Option<String>) {
        None
    }

    fn go_through(&mut self) -> (r: Option<String>) {
        Some(String::from_str("## Not implemented yet ##"))
    }
}

} // verus!
