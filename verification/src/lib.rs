//! Passive observer for database wire protocols.
//!
//! The library decodes captured link-layer frames down to TCP payloads,
//! classifies them against a configured port map, tracks per-connection
//! sessions, and decodes the MySQL client/server protocol into typed
//! packets.

use vstd::prelude::*;

pub mod cmd;
pub mod config;
pub mod frame;
pub mod mysql;
pub mod payload;
pub mod proto;
pub mod session;

verus! {

/// A protocol command tag, kept as the raw wire byte.
#[derive(Debug, Clone, Default)]
pub struct Command(pub u8);

impl From<u8> for Command {
    fn from(v: u8) -> (r: Self) {
        Command(v)
    }
}

impl vstd::std_specs::convert::FromSpecImpl<u8> for Command {
    open spec fn obeys_from_spec() -> bool {
        true
    }

    open spec fn from_spec(v: u8) -> Command {
        Command(v)
    }
}

/// The database families the observer can classify traffic into.
#[derive(Clone, Copy, Debug, PartialEq, Eq, Structural)]
pub enum DBType {
    MySQL,
    Unknown,
}

impl DBType {
    /// Parses a database-kind name, the inverse of [`DBType::name`].
    pub fn from_str(s: &str) -> (r: Option<DBType>)
        ensures
            s@ == "MySQL"@ ==> r == Some(DBType::MySQL),
            s@ == "Unknown"@ ==> r == Some(DBType::Unknown),
            s@ != "MySQL"@ && s@ != "Unknown"@ ==> r is None,
    {
        proof {
            reveal_strlit("MySQL");
            reveal_strlit("Unknown");
            assert("MySQL"@.len() == 5);
            assert("Unknown"@.len() == 7);
            assert("MySQL"@ != "Unknown"@);
        }
        let owned = s.to_owned();
        if owned == "MySQL".to_owned() {
            Some(DBType::MySQL)
        } else if owned == "Unknown".to_owned() {
            Some(DBType::Unknown)
        } else {
            None
        }
    }

    /// The display name of the database kind.
    pub fn name(&self) -> (r: &'static str)
        ensures
            *self == DBType::MySQL ==> r@ == "MySQL"@,
            *self == DBType::Unknown ==> r@ == "Unknown"@,
    {
        match *self {
            DBType::MySQL => "MySQL",
            DBType::Unknown => "Unknown",
        }
    }
}

/// Common view over a decoded database wire packet, implemented by the
/// request and response packet types of each supported protocol.
pub trait DBPacket: Sized {
    spec fn spec_db_type(&self) -> DBType;

    spec fn spec_command(&self) -> Command;

    spec fn spec_payload(&self) -> Seq<u8>;

    spec fn spec_seq(&self) -> u8;

    spec fn spec_len(&self) -> u32;

    spec fn spec_is_request(&self) -> bool;

    fn db_type(&self) -> (r: DBType)
        ensures
            r == self.spec_db_type(),
    ;

    fn get_command(&self) -> (r: Command)
        ensures
            r.0 == self.spec_command().0,
    ;

    fn get_payload(&self) -> (r: Vec<u8>)
        ensures
            r@ == self.spec_payload(),
    ;

    fn get_seq(&self) -> (r: u8)
        ensures
            r == self.spec_seq(),
    ;

    fn get_len(&self) -> (r: u32)
        ensures
            r == self.spec_len(),
    ;

    fn is_request(&self) -> (r: bool)
        ensures
            r == self.spec_is_request(),
    ;
}

} // verus!
