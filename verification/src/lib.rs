use vstd::prelude::*;

pub mod clock;
pub mod keyed;
pub mod names;
pub mod protocol;
pub mod server;
pub mod util;
pub mod world;

verus! {

} // verus!
