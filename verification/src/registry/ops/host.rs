//! The host that an operation's laws speak of: what a store and a set of live
//! sessions hold, and how they answer.
//!
//! Every action may fail. One that fails changes nothing.
use vstd::prelude::*;

use crate::bus::{InstalledServer, McpTool};
use crate::error::Error;

verus! {

/// What a host holds.
pub struct HostModel {
    /// The installs, by identifier.
    pub records: Map<Seq<char>, InstalledServer>,
    /// The credentials of each install.
    pub env: Map<Seq<char>, Map<Seq<char>, Seq<char>>>,
    /// The installs with a live session.
    pub live: Set<Seq<char>>,
    /// The installs whose latest failure to connect is on record.
    pub failures: Set<Seq<char>>,
}

/// Whether every record stands under its own identifier.
pub open spec fn keyed(h: HostModel) -> bool {
    forall|id: Seq<char>| #[trigger]
        h.records.contains_key(id) ==> h.records[id].server_id@ == id
}

/// Whether a record has this name.
pub open spec fn has_name(h: HostModel, id: Seq<char>, name: Seq<char>) -> bool {
    h.records.contains_key(id) && h.records[id].qualified_name@ == name
}

/// Whether no service is installed twice.
pub open spec fn one_per_name(h: HostModel) -> bool {
    forall|a: Seq<char>, b: Seq<char>|
        h.records.contains_key(a) && h.records.contains_key(b) && (
        #[trigger] h.records[a]).qualified_name@ == (#[trigger] h.records[b]).qualified_name@ ==> a
            == b
}

/// The credentials of an install.
pub open spec fn stored_env(h: HostModel, id: Seq<char>) -> Map<Seq<char>, Seq<char>> {
    if h.env.contains_key(id) {
        h.env[id]
    } else {
        Map::empty()
    }
}

/// Whether an install's record names exactly the credentials that are stored
/// for it.
pub open spec fn names_match(h: HostModel, id: Seq<char>) -> bool {
    h.records.contains_key(id) ==> crate::text::texts(h.records[id].env_keys@)
        == crate::env::names_of(stored_env(h, id))
}

/// The host with these credentials stored.
pub open spec fn with_env(
    h: HostModel,
    id: Seq<char>,
    env: Map<Seq<char>, Seq<char>>,
) -> HostModel {
    HostModel { env: h.env.insert(id, env), ..h }
}

/// The host with this record in place of the one it has under `id`, where it
/// has one.
pub open spec fn with_record(h: HostModel, id: Seq<char>, record: InstalledServer) -> HostModel {
    if h.records.contains_key(id) {
        HostModel { records: h.records.insert(id, record), ..h }
    } else {
        h
    }
}

/// What looking a name up may answer.
pub open spec fn find_answers(
    h: HostModel,
    name: Seq<char>,
    reply: Result<Option<InstalledServer>, Error>,
) -> bool {
    match reply {
        Ok(Some(record)) => has_name(h, record.server_id@, name) && h.records[record.server_id@]
            == record,
        Ok(None) => forall|id: Seq<char>| !#[trigger] has_name(h, id, name),
        Err(_) => true,
    }
}

/// Whether an error says that an identifier names no install.
pub open spec fn unknown_install(error: Error, id: Seq<char>) -> bool {
    error matches Error::UnknownServer { server } && server@ == id
}

/// Whether an error says that the store could not do what was asked of it.
pub open spec fn store_failed(error: Error) -> bool {
    error is Store || error is StoreIo
}

/// What reading an install may answer: its record where there is one, and that
/// it is unknown where there is none, unless the store cannot be read.
pub open spec fn get_answers(
    h: HostModel,
    id: Seq<char>,
    reply: Result<InstalledServer, Error>,
) -> bool {
    match reply {
        Ok(record) => h.records.contains_key(id) && h.records[id] == record,
        Err(e) => store_failed(e) || (!h.records.contains_key(id) && unknown_install(e, id)),
    }
}

/// What reading an install's credentials may answer.
pub open spec fn load_answers(
    h: HostModel,
    id: Seq<char>,
    reply: Result<crate::env::EnvMap, Error>,
) -> bool {
    match reply {
        Ok(env) => env@ == stored_env(h, id),
        Err(_) => true,
    }
}

/// What writing comes to: the change, or an error and no change.
pub open spec fn writes(
    h: HostModel,
    changed: HostModel,
    then: HostModel,
    reply: Result<(), Error>,
) -> bool {
    match reply {
        Ok(_) => then == changed,
        Err(_) => then == h,
    }
}

/// The host without a recorded failure of an install.
pub open spec fn without_failure(h: HostModel, id: Seq<char>) -> HostModel {
    HostModel { failures: h.failures.remove(id), ..h }
}

/// The host without a live session for an install.
pub open spec fn without_session(h: HostModel, id: Seq<char>) -> HostModel {
    HostModel { live: h.live.remove(id), ..h }
}

/// Whether two hosts hold the same records, but for when each install last
/// connected.
pub open spec fn same_records(h: HostModel, then: HostModel) -> bool {
    &&& then.records.dom() == h.records.dom()
    &&& forall|id: Seq<char>| #[trigger]
        h.records.contains_key(id) ==> then.records[id] == (InstalledServer {
            last_connected_at: then.records[id].last_connected_at,
            ..h.records[id]
        })
}

/// What dialling an install comes to: a live session, or an error that is put
/// on record and no session that was not there before. When it last connected
/// may be noted, and an earlier failure forgotten.
pub open spec fn dials(
    h: HostModel,
    id: Seq<char>,
    then: HostModel,
    reply: Result<Vec<McpTool>, Error>,
) -> bool {
    &&& then.env == h.env
    &&& same_records(h, then)
    &&& match reply {
        Ok(_) => then.live == h.live.insert(id) && then.failures.remove(id) == h.failures.remove(
            id,
        ),
        Err(_) => then.live == h.live && then.failures == h.failures.insert(id),
    }
}

/// What inserting a record, on condition that its name is absent, comes to.
pub open spec fn inserts(
    h: HostModel,
    record: InstalledServer,
    then: HostModel,
    reply: Result<bool, Error>,
) -> bool {
    match reply {
        Ok(inserted) => if inserted {
            &&& forall|id: Seq<char>| !#[trigger] has_name(h, id, record.qualified_name@)
            &&& !h.records.contains_key(record.server_id@)
            &&& then == (HostModel {
                records: h.records.insert(record.server_id@, record),
                ..h
            })
        } else {
            &&& exists|id: Seq<char>| #[trigger] has_name(h, id, record.qualified_name@)
            &&& then == h
        },
        Err(_) => then == h,
    }
}

} // verus!
