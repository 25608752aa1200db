//! Observer configuration: capture device, BPF expression, and the map from
//! TCP ports to the database kind expected on them.

use vstd::prelude::*;
use crate::DBType;

verus! {

/// Looks a port up in an association list of `(port, kind)` entries,
/// returning the kind of the first matching entry.
pub open spec fn port_lookup(entries: Seq<(u16, DBType)>, port: u16) -> Option<DBType>
    decreases entries.len(),
{
    if entries.len() == 0 {
        None
    } else if entries[0].0 == port {
        Some(entries[0].1)
    } else {
        port_lookup(entries.skip(1), port)
    }
}

proof fn lemma_port_lookup_step(entries: Seq<(u16, DBType)>, port: u16, i: int)
    requires
        0 <= i < entries.len(),
        entries[i].0 != port,
    ensures
        port_lookup(entries.skip(i), port) == port_lookup(entries.skip(i + 1), port),
{
    assert(entries.skip(i).skip(1) =~= entries.skip(i + 1));
}

/// Configuration of one observer instance.
#[derive(Debug, Clone)]
pub struct Config {
    /// BPF filter expression handed to the capture handle.
    pub bpf: String,
    /// Name of the interface to capture on.
    pub device: String,
    /// Map from TCP port to the database kind served on that port.
    pub support_db: Vec<(u16, DBType)>,
}

impl Config {
    /// The database kind configured for `port`, if any.
    pub open spec fn spec_db_for(&self, port: u16) -> Option<DBType> {
        port_lookup(self.support_db@, port)
    }

    /// True when `port` is in the configured port map.
    pub open spec fn maps_port(&self, port: u16) -> bool {
        self.spec_db_for(port) is Some
    }

    /// Looks `port` up in the configured port map.
    pub fn db_for(&self, port: u16) -> (r: Option<DBType>)
        ensures
            r == self.spec_db_for(port),
    {
        let n = self.support_db.len();
        let mut i: usize = 0;
        assert(self.support_db@.skip(0) =~= self.support_db@);
        while i < n
            invariant
                0 <= i <= n,
                n == self.support_db@.len(),
                port_lookup(self.support_db@, port) == port_lookup(self.support_db@.skip(i as int), port),
            decreases n - i,
        {
            let (p, d) = self.support_db[i];
            if p == port {
                assert(port_lookup(self.support_db@.skip(i as int), port) == Some(d));
                return Some(d);
            }
            proof {
                lemma_port_lookup_step(self.support_db@, port, i as int);
            }
            i += 1;
        }
        assert(self.support_db@.skip(n as int) =~= Seq::<(u16, DBType)>::empty());
        None
    }
}

} // verus!
