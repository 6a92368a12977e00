//! The closed set of notification sounds, each naming an entry of the
//! application's fixed audio asset table.

use vstd::prelude::*;

verus! {

/// A notification sound. The set is closed: configuration loaded from disk
/// with any other value is rejected by the loader.
#[derive(Clone, Copy, Debug, PartialEq, Eq, Structural)]
pub enum Sound {
    Bubble,
    Pop,
    Tic,
}

} // verus!
