//! Wire-protocol core of an iSCSI initiator: header codecs for response
//! PDUs and the decisions of the request/response call protocol.
use vstd::prelude::*;

pub mod client;
pub mod common;
pub mod error;
pub mod opcode;
pub mod pdu;
pub mod reject;
pub mod text;

verus! {

} // verus!
