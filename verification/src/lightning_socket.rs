//! The path of lightningd's RPC socket, awaited from the RPC thread.

use vstd::prelude::*;
use crate::init_info::Resolution;

verus! {

/// The state of the socket path that the RPC thread sends: awaited on the
/// channel, or arrived and kept (see [`Resolution`]).
pub type LightningSocketState = Resolution<String>;

} // verus!
