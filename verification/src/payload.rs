//! A classified TCP payload: the database kind it was matched to, together
//! with the raw application bytes.

use vstd::prelude::*;
use crate::DBType;

verus! {

/// A TCP payload tagged with the database kind of the flow it belongs to.
#[derive(Clone, Debug)]
pub struct Payload(pub DBType, pub Vec<u8>);

impl Payload {
    pub fn new(db_type: DBType, payload: Vec<u8>) -> (r: Payload)
        ensures
            r.0 == db_type,
            r.1@ == payload@,
    {
        Payload(db_type, payload)
    }

    pub fn get_db_type(&self) -> (r: DBType)
        ensures
            r == self.0,
    {
        self.0
    }

    pub fn get_payload(&self) -> (r: Vec<u8>)
        ensures
            r@ == self.1@,
    {
        self.1.clone()
    }
}

} // verus!
