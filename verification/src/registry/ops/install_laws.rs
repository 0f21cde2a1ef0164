//! What holds of every install.
use vstd::prelude::*;

use super::host::HostModel;
use super::installing::{FindExisting, FindWinner, Insert, InstallStep};
use crate::bus::{InstallOutcome, InstalledServer, RegistryServerDetail};
use crate::env::EnvMap;
use crate::error::Error;

verus! {

/// Whether a host that does what `step` wants comes to hold `then`, and its
/// answer leads to `next`. While a catalog is asked, others may write to the
/// store.
pub open spec fn moves(h: HostModel, step: InstallStep, then: HostModel, next: InstallStep) -> bool {
    match step {
        InstallStep::FindExisting(s) => then == h && exists|
            reply: Result<Option<InstalledServer>, Error>,
        |
            super::host::find_answers(h, s.name@, reply) && #[trigger] super::installing::after_find(
                s,
                reply,
                next,
            ),
        InstallStep::FetchDetail(s) => super::host::keyed(then) && super::host::one_per_name(then)
            && exists|reply: Result<RegistryServerDetail, Error>, id: Seq<char>, at: i64| #[trigger]
            super::installing::after_detail(s, reply, id, at, next),
        InstallStep::Insert(s) => exists|reply: Result<bool, Error>|
            super::host::inserts(h, s.server, then, reply)
                && #[trigger] super::installing::after_insert(s, reply, next),
        InstallStep::FindWinner(s) => then == h && exists|
            reply: Result<Option<InstalledServer>, Error>,
        |
            super::host::find_answers(h, s.name@, reply)
                && #[trigger] super::installing::after_winner(s, reply, next),
        InstallStep::StoreEnv(s) => exists|reply: Result<(), Error>|
            super::host::writes(
                h,
                super::host::with_env(h, s.server.server_id@, s.env@),
                then,
                reply,
            ) && #[trigger] super::installing::after_env(s, reply, next),
        InstallStep::LoadEnv(s) => then == h && exists|reply: Result<EnvMap, Error>|
            super::host::load_answers(h, s.existing.server_id@, reply)
                && #[trigger] super::installing::after_load(s, reply, next),
        InstallStep::StoreMerged(s) => exists|reply: Result<(), Error>|
            super::host::writes(
                h,
                super::host::with_env(h, s.existing.server_id@, s.merged@),
                then,
                reply,
            ) && #[trigger] super::installing::after_merge(s, reply, next),
        InstallStep::StoreNames(s) => exists|reply: Result<(), Error>|
            super::host::writes(
                h,
                super::host::with_record(
                    h,
                    s.existing.server_id@,
                    InstalledServer { env_keys: s.names, ..h.records[s.existing.server_id@] },
                ),
                then,
                reply,
            ) && #[trigger] super::installing::after_names(s, reply, next),
        InstallStep::StoreConfig(s) => exists|reply: Result<(), Error>|
            super::host::writes(
                h,
                super::host::with_record(
                    h,
                    s.existing.server_id@,
                    InstalledServer {
                        config: Some(s.config),
                        ..h.records[s.existing.server_id@]
                    },
                ),
                then,
                reply,
            ) && #[trigger] super::installing::after_config(s, reply, next),
        InstallStep::Done(_) => false,
    }
}

/// Whether `count` moves lead from one step to another.
pub open spec fn runs(
    h: HostModel,
    step: InstallStep,
    then: HostModel,
    last: InstallStep,
    count: nat,
) -> bool
    decreases count,
{
    if count == 0 {
        then == h && last == step
    } else {
        exists|mid: HostModel, next: InstallStep| #[trigger]
            moves(h, step, mid, next) && runs(mid, next, then, last, (count - 1) as nat)
    }
}

/// A bound on how many moves an install still takes.
pub open spec fn moves_left(step: InstallStep) -> nat {
    match step {
        InstallStep::FindExisting(_) => 8,
        InstallStep::FetchDetail(_) => 7,
        InstallStep::Insert(_) => 6,
        InstallStep::FindWinner(_) => 5,
        InstallStep::LoadEnv(_) => 4,
        InstallStep::StoreMerged(_) => 3,
        InstallStep::StoreNames(_) => 2,
        InstallStep::StoreConfig(_) => 1,
        InstallStep::StoreEnv(_) => 1,
        InstallStep::Done(_) => 0,
    }
}

/// An install always ends: every move brings it nearer its end.
pub proof fn an_install_ends(
    h: HostModel,
    step: InstallStep,
    then: HostModel,
    last: InstallStep,
    count: nat,
)
    requires
        runs(h, step, then, last, count),
    ensures
        count + moves_left(last) <= moves_left(step),
    decreases count,
{
    if count > 0 {
        let (mid, next) = choose|mid: HostModel, next: InstallStep| #[trigger]
            moves(h, step, mid, next) && runs(mid, next, then, last, (count - 1) as nat);
        assert(moves_left(next) < moves_left(step));
        an_install_ends(mid, next, then, last, (count - 1) as nat);
    }
}

/// No install writes a second record for a service, whoever else writes to the
/// store while a catalog is asked.
pub proof fn no_service_is_installed_twice(
    h: HostModel,
    step: InstallStep,
    then: HostModel,
    last: InstallStep,
    count: nat,
)
    requires
        super::host::keyed(h),
        super::host::one_per_name(h),
        runs(h, step, then, last, count),
    ensures
        super::host::keyed(then),
        super::host::one_per_name(then),
    decreases count,
{
    if count > 0 {
        let (mid, next) = choose|mid: HostModel, next: InstallStep| #[trigger]
            moves(h, step, mid, next) && runs(mid, next, then, last, (count - 1) as nat);
        lemma_one_move(h, step, mid, next);
        no_service_is_installed_twice(mid, next, then, last, (count - 1) as nat);
    }
}

proof fn lemma_one_move(h: HostModel, step: InstallStep, then: HostModel, next: InstallStep)
    requires
        super::host::keyed(h),
        super::host::one_per_name(h),
        moves(h, step, then, next),
    ensures
        super::host::keyed(then),
        super::host::one_per_name(then),
{
    match step {
        InstallStep::Insert(s) => {
            let reply = choose|reply: Result<bool, Error>|
                super::host::inserts(h, s.server, then, reply)
                    && #[trigger] super::installing::after_insert(s, reply, next);
            if reply == Ok::<bool, Error>(true) {
                assert forall|a: Seq<char>, b: Seq<char>|
                    then.records.contains_key(a) && then.records.contains_key(b) && (
                    #[trigger] then.records[a]).qualified_name@ == (
                    #[trigger] then.records[b]).qualified_name@ implies a == b by {
                    let id = s.server.server_id@;
                    if a != id && b == id {
                        assert(!super::host::has_name(h, a, s.server.qualified_name@));
                    } else if a == id && b != id {
                        assert(!super::host::has_name(h, b, s.server.qualified_name@));
                    } else if a != id && b != id {
                        assert(h.records[a].qualified_name@ == h.records[b].qualified_name@);
                    }
                }
            }
        },
        InstallStep::StoreNames(s) => {
            lemma_same_names(
                h,
                s.existing.server_id@,
                InstalledServer { env_keys: s.names, ..h.records[s.existing.server_id@] },
                then,
            );
        },
        InstallStep::StoreConfig(s) => {
            lemma_same_names(
                h,
                s.existing.server_id@,
                InstalledServer { config: Some(s.config), ..h.records[s.existing.server_id@] },
                then,
            );
        },
        _ => {},
    }
}

proof fn lemma_same_names(
    h: HostModel,
    id: Seq<char>,
    record: InstalledServer,
    then: HostModel,
)
    requires
        super::host::keyed(h),
        super::host::one_per_name(h),
        h.records.contains_key(id) ==> record.server_id@ == id && record.qualified_name@
            == h.records[id].qualified_name@,
        then == h || then == super::host::with_record(h, id, record),
    ensures
        super::host::keyed(then),
        super::host::one_per_name(then),
{
    assert forall|a: Seq<char>, b: Seq<char>|
        then.records.contains_key(a) && then.records.contains_key(b) && (
        #[trigger] then.records[a]).qualified_name@ == (
        #[trigger] then.records[b]).qualified_name@ implies a == b by {
        assert(h.records[a].qualified_name@ == h.records[b].qualified_name@);
    }
}

/// The credentials of an install with what was given laid over them.
pub open spec fn merged(
    base: HostModel,
    id: Seq<char>,
    env: Map<Seq<char>, Seq<char>>,
) -> Map<Seq<char>, Seq<char>> {
    super::host::stored_env(base, id).union_prefer_right(env)
}

/// Whether any credentials were given.
pub open spec fn given(env: Map<Seq<char>, Seq<char>>) -> bool {
    env != Map::<Seq<char>, Seq<char>>::empty()
}

/// Whether refreshing `existing` took a host from `base` to `h`, leaving
/// `server` as the record: credentials merged and named, the configuration
/// replaced where one was given, and nothing else touched.
pub open spec fn refreshed(
    base: HostModel,
    existing: InstalledServer,
    env: Map<Seq<char>, Seq<char>>,
    config: Option<serde_json::Value>,
    h: HostModel,
    server: InstalledServer,
) -> bool {
    let id = existing.server_id@;
    &&& h == (HostModel {
        records: base.records.insert(id, server),
        env: if given(env) {
            base.env.insert(id, merged(base, id, env))
        } else {
            base.env
        },
        ..base
    })
    &&& server == (InstalledServer {
        env_keys: server.env_keys,
        config: match config {
            Some(value) => Some(value),
            None => existing.config,
        },
        ..existing
    })
    &&& if given(env) {
        crate::text::texts(server.env_keys@) == crate::env::names_of(merged(base, id, env))
    } else {
        server.env_keys == existing.env_keys
    }
}

/// How far refreshing `existing` has come.
spec fn refreshing(
    base: HostModel,
    existing: InstalledServer,
    env: Map<Seq<char>, Seq<char>>,
    config: Option<serde_json::Value>,
    h: HostModel,
    step: InstallStep,
) -> bool {
    let id = existing.server_id@;
    match step {
        InstallStep::LoadEnv(s) => h == base && s.existing == existing && s.env@ == env && s.config
            == config && given(env),
        InstallStep::StoreMerged(s) => h == base && s.existing == existing && s.merged@ == merged(
            base,
            id,
            env,
        ) && s.config == config && given(env),
        InstallStep::StoreNames(s) => h == super::host::with_env(base, id, merged(base, id, env))
            && s.existing == existing && crate::text::texts(s.names@) == crate::env::names_of(
            merged(base, id, env),
        ) && s.config == config && given(env),
        InstallStep::StoreConfig(s) => config == Some(s.config) && refreshed(
            base,
            existing,
            env,
            None,
            h,
            s.existing,
        ),
        InstallStep::Done(Ok(outcome)) => outcome.already_installed && refreshed(
            base,
            existing,
            env,
            config,
            h,
            outcome.server,
        ),
        InstallStep::Done(Err(_)) => true,
        _ => false,
    }
}

proof fn lemma_refresh_begins(
    base: HostModel,
    existing: InstalledServer,
    env: EnvMap,
    config: Option<serde_json::Value>,
    step: InstallStep,
)
    requires
        base.records.contains_key(existing.server_id@),
        base.records[existing.server_id@] == existing,
        super::installing::refreshes(existing, env, config, step),
    ensures
        refreshing(base, existing, env@, config, base, step),
{
    assert(base.records.insert(existing.server_id@, existing) =~= base.records);
}

proof fn lemma_refresh_moves(
    base: HostModel,
    existing: InstalledServer,
    env: Map<Seq<char>, Seq<char>>,
    config: Option<serde_json::Value>,
    h: HostModel,
    step: InstallStep,
    then: HostModel,
    next: InstallStep,
)
    requires
        base.records.contains_key(existing.server_id@),
        base.records[existing.server_id@] == existing,
        refreshing(base, existing, env, config, h, step),
        moves(h, step, then, next),
    ensures
        refreshing(base, existing, env, config, then, next),
{
    let id = existing.server_id@;
    assert(base.records.insert(id, existing) =~= base.records);
    match step {
        InstallStep::StoreMerged(s) => {
            let reply = choose|reply: Result<(), Error>|
                super::host::writes(
                    h,
                    super::host::with_env(h, s.existing.server_id@, s.merged@),
                    then,
                    reply,
                ) && #[trigger] super::installing::after_merge(s, reply, next);
            assert(super::installing::after_merge(s, reply, next));
        },
        InstallStep::StoreNames(s) => {
            let renamed = InstalledServer { env_keys: s.names, ..existing };
            assert(h.records[id] == existing);
        },
        InstallStep::StoreConfig(s) => {
            let configured = InstalledServer { config: Some(s.config), ..s.existing };
            assert(h.records[id] == s.existing);
            assert(base.records.insert(id, s.existing).insert(id, configured)
                =~= base.records.insert(id, configured));
        },
        _ => {},
    }
}

proof fn lemma_refresh_runs(
    base: HostModel,
    existing: InstalledServer,
    env: Map<Seq<char>, Seq<char>>,
    config: Option<serde_json::Value>,
    h: HostModel,
    step: InstallStep,
    then: HostModel,
    last: InstallStep,
    count: nat,
)
    requires
        base.records.contains_key(existing.server_id@),
        base.records[existing.server_id@] == existing,
        refreshing(base, existing, env, config, h, step),
        runs(h, step, then, last, count),
    ensures
        refreshing(base, existing, env, config, then, last),
    decreases count,
{
    if count > 0 {
        let (mid, next) = choose|mid: HostModel, next: InstallStep| #[trigger]
            moves(h, step, mid, next) && runs(mid, next, then, last, (count - 1) as nat);
        lemma_refresh_moves(base, existing, env, config, h, step, mid, next);
        lemma_refresh_runs(
            base,
            existing,
            env,
            config,
            mid,
            next,
            then,
            last,
            (count - 1) as nat,
        );
    }
}

/// Installing what is installed already refreshes its record: no record is
/// added, the credentials that were given are laid over those that were there,
/// and what is reported is what the store then holds.
pub proof fn installing_again_refreshes_the_record(
    base: HostModel,
    s: FindExisting,
    existing: InstalledServer,
    step: InstallStep,
    then: HostModel,
    outcome: InstallOutcome,
    count: nat,
)
    requires
        super::host::find_answers(base, s.name@, Ok(Some(existing))),
        super::installing::after_find(s, Ok(Some(existing)), step),
        runs(base, step, then, InstallStep::Done(Ok(outcome)), count),
    ensures
        outcome.already_installed,
        refreshed(base, existing, s.env@, s.config, then, outcome.server),
{
    lemma_refresh_begins(base, existing, s.env, s.config, step);
    lemma_refresh_runs(
        base,
        existing,
        s.env@,
        s.config,
        base,
        step,
        then,
        InstallStep::Done(Ok(outcome)),
        count,
    );
}

/// Losing the race for a name refreshes the winner's record, in the same way.
pub proof fn losing_a_race_refreshes_the_winner(
    base: HostModel,
    s: FindWinner,
    winner: InstalledServer,
    step: InstallStep,
    then: HostModel,
    outcome: InstallOutcome,
    count: nat,
)
    requires
        super::host::find_answers(base, s.name@, Ok(Some(winner))),
        super::installing::after_winner(s, Ok(Some(winner)), step),
        runs(base, step, then, InstallStep::Done(Ok(outcome)), count),
    ensures
        outcome.already_installed,
        refreshed(base, winner, s.env@, s.config, then, outcome.server),
{
    lemma_refresh_begins(base, winner, s.env, s.config, step);
    lemma_refresh_runs(
        base,
        winner,
        s.env@,
        s.config,
        base,
        step,
        then,
        InstallStep::Done(Ok(outcome)),
        count,
    );
}

/// A refresh erases no credential: each that was stored is still there, with
/// the value that was given for it or else the one it had.
pub proof fn refreshing_erases_no_credential(
    base: HostModel,
    existing: InstalledServer,
    env: Map<Seq<char>, Seq<char>>,
    config: Option<serde_json::Value>,
    h: HostModel,
    server: InstalledServer,
    name: Seq<char>,
)
    requires
        refreshed(base, existing, env, config, h, server),
        super::host::stored_env(base, existing.server_id@).contains_key(name) || env.contains_key(
            name,
        ),
    ensures
        ({
            let kept = super::host::stored_env(h, existing.server_id@);
            kept.contains_key(name) && kept[name] == if env.contains_key(name) {
                env[name]
            } else {
                super::host::stored_env(base, existing.server_id@)[name]
            }
        }),
{
}

/// A refresh leaves a record that names exactly the credentials stored for it,
/// if it did so before.
pub proof fn a_refreshed_record_names_its_credentials(
    base: HostModel,
    existing: InstalledServer,
    env: Map<Seq<char>, Seq<char>>,
    config: Option<serde_json::Value>,
    h: HostModel,
    server: InstalledServer,
)
    requires
        base.records.contains_key(existing.server_id@),
        base.records[existing.server_id@] == existing,
        super::host::names_match(base, existing.server_id@),
        refreshed(base, existing, env, config, h, server),
    ensures
        super::host::names_match(h, existing.server_id@),
{
}

/// How far installing a new record has come.
spec fn adding(base: HostModel, s: Insert, h: HostModel, step: InstallStep) -> bool {
    let id = s.server.server_id@;
    match step {
        InstallStep::Insert(now) => now == s && h == base,
        InstallStep::StoreEnv(now) => now.server == s.server && now.env == s.env && h == (
        HostModel { records: base.records.insert(id, s.server), ..base })
            && !base.records.contains_key(id),
        InstallStep::Done(Ok(outcome)) => outcome == (InstallOutcome {
            server: s.server,
            already_installed: false,
        }) && h == (HostModel {
            records: base.records.insert(id, s.server),
            env: base.env.insert(id, s.env@),
            ..base
        }) && !base.records.contains_key(id),
        InstallStep::Done(Err(_)) => true,
        _ => false,
    }
}

proof fn lemma_adding_runs(
    base: HostModel,
    s: Insert,
    h: HostModel,
    step: InstallStep,
    then: HostModel,
    last: InstallStep,
    count: nat,
)
    requires
        forall|id: Seq<char>| !#[trigger]
            super::host::has_name(base, id, s.server.qualified_name@),
        adding(base, s, h, step),
        runs(h, step, then, last, count),
    ensures
        adding(base, s, then, last),
    decreases count,
{
    if count > 0 {
        let (mid, next) = choose|mid: HostModel, next: InstallStep| #[trigger]
            moves(h, step, mid, next) && runs(mid, next, then, last, (count - 1) as nat);
        assert(adding(base, s, mid, next));
        lemma_adding_runs(base, s, mid, next, then, last, (count - 1) as nat);
    }
}

/// Installing what is not installed adds exactly one record, turned on, under
/// an identifier that was free, with exactly the credentials that were given,
/// and what is reported is what the store then holds.
pub proof fn installing_adds_one_record(
    base: HostModel,
    s: Insert,
    then: HostModel,
    outcome: InstallOutcome,
    count: nat,
)
    requires
        forall|id: Seq<char>| !#[trigger]
            super::host::has_name(base, id, s.server.qualified_name@),
        runs(base, InstallStep::Insert(s), then, InstallStep::Done(Ok(outcome)), count),
    ensures
        outcome == (InstallOutcome { server: s.server, already_installed: false }),
        !base.records.contains_key(s.server.server_id@),
        then == (HostModel {
            records: base.records.insert(s.server.server_id@, s.server),
            env: base.env.insert(s.server.server_id@, s.env@),
            ..base
        }),
        crate::text::texts(s.server.env_keys@) == crate::env::names_of(s.env@)
            ==> super::host::names_match(then, s.server.server_id@),
{
    lemma_adding_runs(
        base,
        s,
        base,
        InstallStep::Insert(s),
        then,
        InstallStep::Done(Ok(outcome)),
        count,
    );
}

/// In full: after installing again, the store has the same installs as before,
/// and of the others nothing differs. The record kept its identifier, its name,
/// its setting and how it is reached; it has the configuration that was given,
/// or else its own; and it is what was reported. Sessions are left alone.
pub proof fn installing_again_in_full(
    base: HostModel,
    s: FindExisting,
    existing: InstalledServer,
    step: InstallStep,
    then: HostModel,
    outcome: InstallOutcome,
    count: nat,
    other: Seq<char>,
)
    requires
        super::host::find_answers(base, s.name@, Ok(Some(existing))),
        super::installing::after_find(s, Ok(Some(existing)), step),
        runs(base, step, then, InstallStep::Done(Ok(outcome)), count),
        other != existing.server_id@,
    ensures
        ({
            let id = existing.server_id@;
            let kept = then.records[id];
            &&& outcome.already_installed
            &&& outcome.server == kept
            &&& then.records.dom() == base.records.dom()
            &&& base.records.contains_key(other) ==> then.records[other] == base.records[other]
            &&& super::host::stored_env(then, other) == super::host::stored_env(base, other)
            &&& then.live == base.live
            &&& then.failures == base.failures
            &&& kept.server_id == existing.server_id
            &&& kept.qualified_name@ == s.name@
            &&& kept.qualified_name == existing.qualified_name
            &&& kept.display_name == existing.display_name
            &&& kept.description == existing.description
            &&& kept.icon_url == existing.icon_url
            &&& kept.command_kind == existing.command_kind
            &&& kept.command == existing.command
            &&& kept.args == existing.args
            &&& kept.installed_at == existing.installed_at
            &&& kept.last_connected_at == existing.last_connected_at
            &&& kept.transport == existing.transport
            &&& kept.enabled == existing.enabled
            &&& s.config is Some ==> kept.config == s.config
            &&& s.config is None ==> kept.config == existing.config
            &&& forall|name: Seq<char>| #[trigger]
                super::host::stored_env(then, id).contains_key(name) <==> s.env@.contains_key(name)
                    || super::host::stored_env(base, id).contains_key(name)
            &&& forall|name: Seq<char>| #[trigger]
                s.env@.contains_key(name) ==> super::host::stored_env(then, id)[name]
                    == s.env@[name]
            &&& forall|name: Seq<char>|
                !s.env@.contains_key(name) && #[trigger] super::host::stored_env(
                    base,
                    id,
                ).contains_key(name) ==> super::host::stored_env(then, id)[name]
                    == super::host::stored_env(base, id)[name]
        }),
{
    installing_again_refreshes_the_record(base, s, existing, step, then, outcome, count);
    assert(then.records.dom() =~= base.records.dom());
}

} // verus!
