use vstd::prelude::*;

pub mod cache;
pub mod diff;
pub mod dom;
pub mod fmt;
pub mod input;
pub mod kinds;
pub mod particle;
pub mod router;
pub mod signal_addrs;
pub mod spatial;
pub mod text;
pub mod timer;
pub mod vdom;
pub mod webgl;

verus! {

} // verus!
