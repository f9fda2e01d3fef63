//! Entities that answer commands themselves: a door, and a door with a lock.

use crate::command::{default_answer, Command, CommandModel, DefaultCommandHandler, HandleCommand};
use crate::parser::Keyword;
use crate::text::same_text;
use vstd::prelude::*;
use vstd::string::*;

verus! {

/// Something with a name.
pub trait Name {
    /// The name.
    spec fn name_text(&self) -> Seq<char>;

    /// The name.
    fn name(&self) -> (r: String)
        ensures
            r@ == self.name_text(),
    ;
}

/// Something that can be opened.
pub trait Open: Sized {
    /// What opening does: the next state and the answer.
    spec fn opened(&self) -> (Self, Seq<char>);

    /// Opens it.
    fn open(&mut self) -> (r: String)
        ensures
            (*final(self), r@) == old(self).opened(),
    ;
}

/// Something that can be opened with a key, which is given by its name.
pub trait OpenWith: Sized {
    /// What opening with a key does: the next state and the answer.
    spec fn opened_with(&self, key: Seq<char>) -> (Self, Seq<char>);

    /// Opens it with the key called `key`.
    fn open_with(&mut self, key: &str) -> (r: String)
        ensures
            (*final(self), r@) == old(self).opened_with(key@),
    ;
}

/// Something that can be taken.
pub trait Take: Sized {
    /// What taking does: the next state and the answer.
    spec fn taken(&self) -> (Self, Seq<char>);

    /// Takes it.
    fn take(&mut self) -> (r: String)
        ensures
            (*final(self), r@) == old(self).taken(),
    ;
}

/// Something that one can go through.
pub trait GoThrough: Sized {
    /// What going through does: the next state and the answer.
    spec fn gone_through(&self) -> (Self, Seq<char>);

    /// Goes through it.
    fn go_through(&mut self) -> (r: String)
        ensures
            (*final(self), r@) == old(self).gone_through(),
    ;
}

/// Whether a door is open.
#[derive(Clone, Copy, PartialEq, Eq, Structural, Debug)]
pub enum DoorState {
    Opened,
    Closed,
}

/// A door without a lock.
#[derive(Debug)]
pub struct Door {
    pub name: String,
    pub state: DoorState,
}

impl Door {
    /// A closed door.
    pub fn new(name: &str) -> (r: Door)
        ensures
            r.name@ == name@,
            r.state == DoorState::Closed,
    {
        Door { name: String::from_str(name), state: DoorState::Closed }
    }
}

impl Name for Door {
    open spec fn name_text(&self) -> Seq<char> {
        self.name@
    }

    fn name(&self) -> (r: String) {
        self.name.clone()
    }
}

impl Open for Door {
    open spec fn opened(&self) -> (Door, Seq<char>) {
        if self.state == DoorState::Closed {
            (Self { state: DoorState::Opened, ..*self }, "You open the door"@)
        } else {
            (*self, "The door is already opened"@)
        }
    }

    fn open(&mut self) -> (r: String) {
        if self.state == DoorState::Closed {
            self.state = DoorState::Opened;
            String::from_str("You open the door")
        } else {
            String::from_str("The door is already opened")
        }
    }
}

impl HandleCommand for Door {
    open spec fn answer(&self, command: CommandModel) -> (Door, Seq<char>) {
        if command.keywords.len() > 0 && command.keywords[0] == Keyword::Open {
            self.opened()
        } else {
            (*self, default_answer(command))
        }
    }

    fn resolve_command(&mut self, command: &Command) -> (r: String) {
        match command.keyword() {
            Some(Keyword::Open) => self.open(),
            _ => {
                let mut handler = DefaultCommandHandler::new();
                handler.resolve_command(command)
            },
        }
    }
}

/// A door with a lock, which one key opens. The key is known by its name.
#[derive(Debug)]
pub struct LockedDoor {
    pub name: String,
    pub state: DoorState,
    pub key: String,
}

impl LockedDoor {
    /// A closed door that the key called `key` opens.
    pub fn new(name: &str, key: &str) -> (r: LockedDoor)
        ensures
            r.name@ == name@,
            r.state == DoorState::Closed,
            r.key@ == key@,
    {
        LockedDoor {
            name: String::from_str(name),
            state: DoorState::Closed,
            key: String::from_str(key),
        }
    }
}

impl Name for LockedDoor {
    open spec fn name_text(&self) -> Seq<char> {
        self.name@
    }

    fn name(&self) -> (r: String) {
        self.name.clone()
    }
}

impl Open for LockedDoor {
    open spec fn opened(&self) -> (LockedDoor, Seq<char>) {
        if self.state == DoorState::Closed {
            (*self, "The door is locked"@)
        } else {
            (*self, "The door is already opened"@)
        }
    }

    fn open(&mut self) -> (r: String) {
        if self.state == DoorState::Closed {
            String::from_str("The door is locked")
        } else {
            String::from_str("The door is already opened")
        }
    }
}

impl OpenWith for LockedDoor {
    open spec fn opened_with(&self, key: Seq<char>) -> (LockedDoor, Seq<char>) {
        if self.state == DoorState::Closed {
            if self.key@ == key {
                (Self { state: DoorState::Opened, ..*self }, "You open the door"@)
            } else {
                (*self, "The door is locked. Try another key"@)
            }
        } else {
            (*self, "The door is already opened"@)
        }
    }

    fn open_with(&mut self, key: &str) -> (r: String) {
        if self.state == DoorState::Closed {
            if same_text(self.key.as_str(), key) {
                self.state = DoorState::Opened;
                String::from_str("You open the door")
            } else {
                String::from_str("The door is locked. Try another key")
            }
        } else {
            String::from_str("The door is already opened")
        }
    }
}

/// The name of the key in a command: its first object, or the empty name.
pub open spec fn key_of(command: CommandModel) -> Seq<char> {
    if command.objects.len() > 0 {
        command.objects[0]
    } else {
        Seq::empty()
    }
}

impl HandleCommand for LockedDoor {
    open spec fn answer(&self, command: CommandModel) -> (LockedDoor, Seq<char>) {
        if command.keywords.len() > 0 && command.keywords[0] == Keyword::Open {
            self.opened()
        } else if command.keywords.len() > 0 && command.keywords[0] == Keyword::OpenWith {
            self.opened_with(key_of(command))
        } else {
            (*self, default_answer(command))
        }
    }

    fn resolve_command(&mut self, command: &Command) -> (r: String) {
        match command.keyword() {
            Some(Keyword::Open) => self.open(),
            Some(Keyword::OpenWith) => {
                proof {
                    reveal_strlit("");
                    assert(""@ =~= Seq::<char>::empty());
                }
                let key: &str = if command.objects.len() > 0 {
                    assert(command@.objects[0] == command.objects[0]@);
                    command.objects[0].as_str()
                } else {
                    ""
                };
                self.open_with(key)
            },
            _ => {
                let mut handler = DefaultCommandHandler::new();
                handler.resolve_command(command)
            },
        }
    }
}

} // verus!
