//! Hot-patch indirection and live component migration.
//!
//! A running entity-component simulation keeps executing while its logic and
//! data layout change under it. Two cooperating subsystems share the idea that
//! identity survives a patch while the implementation does not:
//!
//! - a function-pointer table plus an indirection layer, so that every
//!   scheduled system resolves its current body through a stable identity, and
//! - a migration engine, which detects shape changes of registered record
//!   types after a patch and converts every live instance in place.

use vstd::prelude::*;

verus! {

/// Event published at most once per tick, meaning "at least one function body
/// changed since the previous tick". Zero payload; ephemeral.
#[derive(Clone, Copy, Debug, PartialEq, Eq, Structural)]
pub struct HotPatched;

} // verus!

pub mod channel;
pub mod installer;
pub mod migration;
pub mod notifier;
pub mod table;
pub mod tick;
