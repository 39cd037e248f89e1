//! Connect options: the host's configuration table for opening a
//! connection.
//!
//! Recognized keys are `database`, `fetchSize` and `maxConnections`;
//! unrecognized keys are ignored, and so is a recognized key whose value
//! has the wrong shape. Anything other than a table (or nothing at all) is
//! a configuration error.

use vstd::prelude::*;

use crate::errors::BridgeError;
use crate::errors::VBridgeError;
use crate::host::HostKey;
use crate::host::HostNumber;
use crate::host::HostValue;
use crate::host::VHost;
use crate::host::VKey;
use crate::host::VNum;
use crate::host::host_entries_view;

verus! {

/// Options for opening a connection, after parsing: the target database,
/// the result-batch size hint, and the connection-pool cap. `None` leaves
/// the engine's default in force.
#[derive(PartialEq, Eq, Debug)]
pub struct ConnectOptions {
    pub database: Option<String>,
    pub fetch_size: Option<u64>,
    pub max_connections: Option<u64>,
}

/// Spec-level mirror of `ConnectOptions`.
pub struct VConnectOptions {
    pub database: Option<Seq<char>>,
    pub fetch_size: Option<u64>,
    pub max_connections: Option<u64>,
}

impl View for ConnectOptions {
    type V = VConnectOptions;

    open spec fn view(&self) -> VConnectOptions {
        VConnectOptions {
            database: match self.database {
                Some(s) => Some(s@),
                None => None,
            },
            fetch_size: self.fetch_size,
            max_connections: self.max_connections,
        }
    }
}

/// No option set: every engine default in force.
pub open spec fn default_options() -> VConnectOptions {
    VConnectOptions { database: None, fetch_size: None, max_connections: None }
}

/// What one table entry does to the options: a recognized key with a value
/// of the right shape sets its option, everything else changes nothing.
pub open spec fn apply_option(acc: VConnectOptions, e: (VKey, VHost)) -> VConnectOptions {
    if e.0 == VKey::Str("database"@) {
        match e.1 {
            VHost::Str(s) => VConnectOptions { database: Some(s), ..acc },
            _ => acc,
        }
    } else if e.0 == VKey::Str("fetchSize"@) {
        match e.1 {
            VHost::Num(VNum::Whole(v)) => if 0 <= v {
                VConnectOptions { fetch_size: Some(v as u64), ..acc }
            } else {
                acc
            },
            _ => acc,
        }
    } else if e.0 == VKey::Str("maxConnections"@) {
        match e.1 {
            VHost::Num(VNum::Whole(v)) => if 0 <= v {
                VConnectOptions { max_connections: Some(v as u64), ..acc }
            } else {
                acc
            },
            _ => acc,
        }
    } else {
        acc
    }
}

/// The options a table's entries leave behind, scanned in entry order with
/// a later entry overriding an earlier one.
pub open spec fn scan_options(entries: Seq<(VKey, VHost)>, acc: VConnectOptions) -> VConnectOptions
    decreases entries,
{
    if entries.len() == 0 {
        acc
    } else {
        scan_options(entries.drop_first(), apply_option(acc, entries[0]))
    }
}

/// What parsing the connect options yields: nothing given means defaults, a
/// table is scanned, anything else is the configuration error.
pub open spec fn parse_options(h: VHost) -> Result<VConnectOptions, VBridgeError> {
    match h {
        VHost::Nil => Ok(default_options()),
        VHost::Table(entries) => Ok(scan_options(entries, default_options())),
        _ => Err(VBridgeError::Configuration("connect options must be a table"@)),
    }
}

/// The view of an exec parse result.
pub open spec fn options_result_view(r: Result<ConnectOptions, BridgeError>) -> Result<
    VConnectOptions,
    VBridgeError,
> {
    match r {
        Ok(o) => Ok(o@),
        Err(e) => Err(e@),
    }
}

/// Is this key the given name?
fn key_is_name(key: &HostKey, name: &str) -> (r: bool)
    ensures
        r == (key@ == VKey::Str(name@)),
{
    match key {
        HostKey::Str(s) => {
            let n = name.to_owned();
            s.eq(&n)
        },
        _ => false,
    }
}

/// Parse the host's connect options, exactly as `parse_options` states:
/// defaults for nothing, a scan for a table, and the configuration error
/// for any other value.
pub fn parse_connect_options(opts: &HostValue) -> (r: Result<ConnectOptions, BridgeError>)
    ensures
        options_result_view(r) == parse_options(opts@),
{
    match opts {
        HostValue::Nil => Ok(
            ConnectOptions { database: None, fetch_size: None, max_connections: None },
        ),
        HostValue::Table(entries) => {
            let ghost hv = host_entries_view(entries@);
            let n = entries.len();
            let mut acc = ConnectOptions { database: None, fetch_size: None, max_connections: None };
            let mut i: usize = 0;
            proof {
                crate::host::lemma_host_entries_view(entries@);
                assert(hv.subrange(0, n as int) =~= hv);
                assert(acc@ == default_options());
            }
            while i < n
                invariant
                    i <= n,
                    n == entries.len(),
                    hv == host_entries_view(entries@),
                    hv.len() == n as int,
                    scan_options(hv, default_options()) == scan_options(
                        hv.subrange(i as int, n as int),
                        acc@,
                    ),
                decreases n - i,
            {
                proof {
                    crate::host::lemma_host_entries_view(entries@);
                    assert(hv.subrange(i as int, n as int)[0] == hv[i as int]);
                    assert(hv.subrange(i as int, n as int).drop_first() =~= hv.subrange(
                        i as int + 1,
                        n as int,
                    ));
                }
                let entry = &entries[i];
                if key_is_name(&entry.0, "database") {
                    match &entry.1 {
                        HostValue::Str(s) => {
                            acc = ConnectOptions { database: Some(s.clone()), ..acc };
                        },
                        _ => {},
                    }
                } else if key_is_name(&entry.0, "fetchSize") {
                    match &entry.1 {
                        HostValue::Num(HostNumber::Whole(v)) => {
                            if 0 <= *v {
                                acc = ConnectOptions { fetch_size: Some(*v as u64), ..acc };
                            }
                        },
                        _ => {},
                    }
                } else if key_is_name(&entry.0, "maxConnections") {
                    match &entry.1 {
                        HostValue::Num(HostNumber::Whole(v)) => {
                            if 0 <= *v {
                                acc = ConnectOptions { max_connections: Some(*v as u64), ..acc };
                            }
                        },
                        _ => {},
                    }
                }
                i += 1;
            }
            proof {
                assert(hv.subrange(n as int, n as int) =~= Seq::empty());
                assert(hv.subrange(0, n as int) =~= hv);
            }
            Ok(acc)
        },
        _ => {
            let msg = "connect options must be a table".to_owned();
            Err(BridgeError::Configuration(msg))
        },
    }
}

} // verus!
