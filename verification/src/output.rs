use vstd::prelude::*;

use crate::model::{Thing, ThingList};

verus! {

/// What a command produces.
#[derive(Debug)]
pub enum Output {
    Lists { lists: Vec<ThingList> },
    Thing { thing: Thing },
    Things { things: Vec<Thing> },
    Deleted { deleted: bool, thing: Thing },
    Opened { opened: bool, thing: Thing },
}

} // verus!
