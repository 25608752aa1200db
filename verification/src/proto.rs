//! Generic interface for protocol decoders.

use vstd::prelude::*;
use crate::cmd::Command;

verus! {

/// Interface of a decoded protocol unit: its raw payload, command tag and
/// wire sequence number, plus a parse step for the protocol-specific body.
pub trait Protocol: Sized {
    fn get_payload(&self) -> Vec<u8>;

    fn get_cmd(&self) -> Command;

    fn get_seq(&self) -> u8;

    fn parse(&self) -> Result<(), String>;
}

} // verus!
