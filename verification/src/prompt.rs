//! One turn of the interaction: from a line to its answer.

use crate::base::BaseObject;
use crate::env::{resolve, Environment};
use crate::parser::{parse, StateMachine, StateModel};
use vstd::prelude::*;
use vstd::string::*;

verus! {

/// What one line does: nothing where the line is empty; otherwise whether
/// the interaction goes on, the answer, and the entities after it.
pub open spec fn turn_of<T: BaseObject>(
    table: Seq<StateModel>,
    objects: Seq<T>,
    line: Seq<char>,
) -> Option<(bool, Seq<char>, Seq<T>)> {
    if line.len() == 0 {
        None
    } else {
        Some(resolve(objects, parse(table, line)))
    }
}

/// Takes one line of the user: an empty line is passed over; every other
/// line is parsed and carried out, and its answer is returned with the word
/// on whether the interaction goes on.
pub fn turn<T: BaseObject>(machine: &StateMachine, world: &mut Environment<T>, line: &str) -> (r:
    Option<(bool, String)>)
    ensures
        match r {
            Some((goes_on, text)) => turn_of(machine@, old(world)@, line@) == Some(
                (goes_on, text@, final(world)@),
            ),
            None => turn_of(machine@, old(world)@, line@) is None && final(world)@ == old(world)@,
        },
{
    if line.is_empty() {
        None
    } else {
        let output = machine.parse_line(line);
        Some(world.execute(&output))
    }
}

} // verus!
