//! What operators can count on: how the relay is started, tuned, swept and counted.

use crate::encoding::{base64url, decoded, law_texts_stand_for_their_bytes};
use crate::paths::{joined, System};
use crate::relay::admin::{unit_hint, SettingDef};
use crate::relay::bootstrap::{
    decode_key, env_bool, env_opt, load_secret_key, Bootstrap, BootstrapError, Environment,
    KeySource,
};
use crate::relay::command::{
    is_wanted, probe_request, setting_line, settings_command, SettingsCommand,
};
use crate::relay::counts::{
    authentication_moves, connection_moves, issue_moves, opening, operator_moves, proof_moves,
    reading_moves, registration_moves, revocation, Moved,
};
use crate::relay::error::Refusal;
use crate::relay::maintenance::{retention_cutoff, Cause, Next, Sweep};
use crate::relay::metrics::{Counter, Gauge, Metrics};
use crate::relay::step::StepModel;
use crate::relay::storage::{migrate, storage_files, AddedColumn, Applied, StoragePragmas};
use crate::relay::terminals::{OpenCount, OpenStep};
use crate::text::{ends_in, lowered, texts, trimmed};
use vstd::prelude::*;

verus! {

/// What came of a request is counted as that and as nothing else.
pub proof fn law_outcomes_are_counted_apart<Q, T>(
    asked: Q,
    granted: T,
    refusal: Refusal,
    claimed: bool,
)
    ensures
        ({
            let ask = StepModel::<Q, T>::Ask(asked);
            let done = StepModel::<Q, T>::Done(granted);
            let refused = StepModel::<Q, T>::Refuse(refusal);
            let limited = refusal.code == "rate_limited"@;
            &&& authentication_moves(done).auth_successes
            &&& !authentication_moves(done).auth_failures
            &&& !authentication_moves(refused).auth_successes
            &&& authentication_moves(refused).auth_failures <==> !limited
            &&& authentication_moves(refused).rate_limited_requests <==> limited
            &&& !authentication_moves(ask).auth_successes
            &&& !authentication_moves(ask).auth_failures
            &&& issue_moves(done).challenges_issued
            &&& !issue_moves(refused).challenges_issued
            &&& issue_moves(refused).rate_limited_requests <==> limited
            &&& !issue_moves(ask).challenges_issued
            &&& proof_moves(done, claimed).challenges_consumed <==> claimed
            &&& !proof_moves(done, claimed).auth_failures
            &&& proof_moves(refused, claimed).challenges_consumed <==> claimed
            &&& proof_moves(refused, claimed).auth_failures <==> claimed && !limited
            &&& proof_moves(refused, claimed).rate_limited_requests <==> limited
            &&& !proof_moves(ask, claimed).challenges_consumed
            &&& registration_moves(done, claimed).challenges_consumed <==> claimed
            &&& registration_moves(refused, claimed).challenges_consumed <==> claimed
            &&& registration_moves(refused, claimed).auth_failures <==> refusal.code
                == "signature_invalid"@
            &&& !registration_moves(done, claimed).auth_failures
            &&& connection_moves(refused).rate_limited_requests <==> limited
            &&& !connection_moves(done).rate_limited_requests
            &&& operator_moves(Ok::<T, Refusal>(granted)).auth_successes
            &&& !operator_moves(Ok::<T, Refusal>(granted)).auth_failures
            &&& !operator_moves(Err::<T, Refusal>(refusal)).auth_successes
            &&& operator_moves(Err::<T, Refusal>(refusal)).auth_failures <==> refusal.code
                == "unauthorized"@
            &&& reading_moves(Err(refusal), claimed).auth_failures <==> claimed && refusal.code
                == "unauthorized"@
            &&& !reading_moves(Ok(()), claimed).auth_failures
        }),
{
}

/// A request for a terminal is counted by how it ended, and a device is counted as revoked
/// when it is newly revoked.
pub proof fn law_openings_and_revocations_are_counted(
    step: OpenStep,
    moved: Moved,
    changed: bool,
    gone: Moved,
)
    requires
        call_ensures(opening, (&step,), moved),
        call_ensures(revocation, (changed,), gone),
    ensures
        step is Opened ==> moved.open_requests == OpenCount::Opened,
        step matches OpenStep::Refuse { error, pending, counted } ==> moved.open_requests
            == counted,
        step is Ask || step is Again ==> moved.open_requests == OpenCount::Nowhere,
        !moved.auth_failures && !moved.auth_successes && !moved.device_revocations,
        gone.device_revocations <==> changed,
        gone.open_requests == OpenCount::Nowhere,
{
}

/// Each counter moves by one when it is moved, and no other counter moves.
pub proof fn law_counters_move_by_one(moved: Moved)
    ensures
        forall|m: &mut Metrics| #[trigger]
            call_ensures(Metrics::count, (m, moved), ()) ==> {
                &&& m.auth_failures@ < u64::MAX ==> final(m).auth_failures@ == m.auth_failures@ + (
                if moved.auth_failures {
                    1int
                } else {
                    0
                })
                &&& m.auth_successes@ < u64::MAX ==> final(m).auth_successes@ == m.auth_successes@
                    + (if moved.auth_successes {
                    1int
                } else {
                    0
                })
                &&& m.challenges_issued@ < u64::MAX ==> final(m).challenges_issued@
                    == m.challenges_issued@ + (if moved.challenges_issued {
                    1int
                } else {
                    0
                })
                &&& m.challenges_consumed@ < u64::MAX ==> final(m).challenges_consumed@
                    == m.challenges_consumed@ + (if moved.challenges_consumed {
                    1int
                } else {
                    0
                })
                &&& m.rate_limited_requests@ < u64::MAX ==> final(m).rate_limited_requests@
                    == m.rate_limited_requests@ + (if moved.rate_limited_requests {
                    1int
                } else {
                    0
                })
                &&& m.device_revocations@ < u64::MAX ==> final(m).device_revocations@
                    == m.device_revocations@ + (if moved.device_revocations {
                    1int
                } else {
                    0
                })
                &&& m.terminal_open_requests_opened@ < u64::MAX ==> final(m).terminal_open_requests_opened@ == m.terminal_open_requests_opened@ + (
                if moved.open_requests == OpenCount::Opened {
                    1int
                } else {
                    0
                })
                &&& m.terminal_open_requests_refused@ < u64::MAX ==> final(m).terminal_open_requests_refused@ == m.terminal_open_requests_refused@ + (
                if moved.open_requests == OpenCount::Refused {
                    1int
                } else {
                    0
                })
                &&& m.terminal_open_requests_unavailable@ < u64::MAX ==> final(m).terminal_open_requests_unavailable@ == m.terminal_open_requests_unavailable@ + (
                if moved.open_requests == OpenCount::Unavailable {
                    1int
                } else {
                    0
                })
                &&& m.terminal_open_requests_timeout@ < u64::MAX ==> final(m).terminal_open_requests_timeout@ == m.terminal_open_requests_timeout@ + (
                if moved.open_requests == OpenCount::TimedOut {
                    1int
                } else {
                    0
                })
                &&& final(m).http_requests == m.http_requests
                &&& final(m).quota_terminals_deleted == m.quota_terminals_deleted
            },
{
}

/// Every answer is a request more, and a failed one if its status says so; every deletion
/// counts for its own cause.
pub proof fn law_answers_and_deletions_are_counted(status: u16)
    ensures
        forall|m: &mut Metrics| #[trigger]
            call_ensures(Metrics::count_answer, (m, status), ()) ==> {
                &&& m.http_requests@ < u64::MAX ==> final(m).http_requests@ == m.http_requests@ + 1
                &&& 400 <= status < 600 && m.http_requests_failed@ < u64::MAX ==> final(m).http_requests_failed@ == m.http_requests_failed@ + 1
                &&& !(400 <= status < 600) ==> final(m).http_requests_failed@
                    == m.http_requests_failed@
            },
        forall|m: &mut Metrics| #[trigger]
            call_ensures(Metrics::count_deletion, (m, Cause::Retention), ()) ==> {
                &&& m.retention_terminals_deleted@ < u64::MAX ==> final(m).retention_terminals_deleted@ == m.retention_terminals_deleted@ + 1
                &&& final(m).quota_terminals_deleted@ == m.quota_terminals_deleted@
            },
        forall|m: &mut Metrics| #[trigger]
            call_ensures(Metrics::count_deletion, (m, Cause::Quota), ()) ==> {
                &&& m.quota_terminals_deleted@ < u64::MAX ==> final(m).quota_terminals_deleted@
                    == m.quota_terminals_deleted@ + 1
                &&& final(m).retention_terminals_deleted@ == m.retention_terminals_deleted@
            },
{
}

/// Counters only rise, by what is added; gauges rise and fall, and what is taken away again
/// leaves no trace.
pub proof fn law_counters_rise_and_gauges_settle(n: u64, v: i64)
    ensures
        forall|c: &mut Counter| #[trigger]
            call_ensures(Counter::add, (c, n), ()) && c@ + n <= u64::MAX ==> final(c)@ == c@ + n,
        forall|c: &mut Counter| #[trigger]
            call_ensures(Counter::inc, (c,), ()) && c@ < u64::MAX ==> final(c)@ == c@ + 1,
        forall|g: &mut Gauge| #[trigger] call_ensures(Gauge::set, (g, v), ()) ==> final(g)@ == v,
        forall|g: &mut Gauge| #[trigger]
            call_ensures(Gauge::add, (g, v), ()) && i64::MIN <= g@ + v <= i64::MAX ==> final(g)@
                == g@ + v,
        forall|g: &mut Gauge| #[trigger]
            call_ensures(Gauge::sub, (g, v), ()) && i64::MIN <= g@ - v <= i64::MAX ==> final(g)@
                == g@ - v,
        forall|g: &mut Gauge| #[trigger]
            call_ensures(Gauge::inc, (g,), ()) && i64::MIN <= g@ < i64::MAX ==> final(g)@ == g@ + 1,
        forall|g: &mut Gauge| #[trigger]
            call_ensures(Gauge::dec, (g,), ()) && i64::MIN < g@ <= i64::MAX ==> final(g)@ == g@ - 1,
{
}

/// A sweep deletes every expired terminal, in turn, before it measures; it deletes closed
/// ones, in turn, only while there is more than the quota; and it ends as exceeded only
/// when none is left to delete.
pub proof fn law_sweeps_delete_in_turn(sweep: Sweep, quota: u64, next: Next)
    requires
        call_ensures(Sweep::next, (&sweep, quota), next),
    ensures
        ({
            let over = sweep.used is Some && sweep.used->0 > quota;
            let expired = sweep.expired_gone < sweep.expired@.len();
            &&& expired ==> next == (Next::Delete {
                terminal_id: sweep.expired@[sweep.expired_gone as int],
                cause: Cause::Retention,
            })
            &&& !expired && sweep.used is None ==> next == Next::Measure
            &&& !expired && sweep.used is Some && !over ==> next == (Next::Done { exceeded: false })
            &&& !expired && over && sweep.closed is None ==> next == Next::ListClosed
            &&& !expired && over && sweep.closed is Some && sweep.closed_gone < (
            sweep.closed->0)@.len() ==> next == (Next::Delete {
                terminal_id: (sweep.closed->0)@[sweep.closed_gone as int],
                cause: Cause::Quota,
            })
            &&& !expired && over && sweep.closed is Some && sweep.closed_gone >= (
            sweep.closed->0)@.len() ==> next == (Next::Done { exceeded: true })
        }),
{
}

/// After a deletion the storage is measured again, and the sweep is one terminal further.
pub proof fn law_sweeps_get_on(quota: u64)
    ensures
        forall|sweep: &mut Sweep|
            #![trigger call_ensures(Sweep::deleted, (sweep, quota), ())]
            call_ensures(Sweep::deleted, (sweep, quota), ()) ==> {
                &&& final(sweep).used is None
                &&& sweep.expired_gone < sweep.expired@.len() ==> final(sweep).expired_gone
                    == sweep.expired_gone + 1 && final(sweep).closed_gone == sweep.closed_gone
                &&& sweep.expired_gone >= sweep.expired@.len() && sweep.used is Some
                    && sweep.used->0 > quota && sweep.closed is Some && sweep.closed_gone < (
                sweep.closed->0)@.len() ==> final(sweep).closed_gone == sweep.closed_gone + 1
                    && final(sweep).expired_gone == sweep.expired_gone
            },
{
}

/// What was closed longer ago than the retention, in seconds, is over it.
pub proof fn law_retention_is_in_seconds(now: i64, seconds: i64, cutoff: i64)
    requires
        i64::MIN <= now - seconds * 1000 <= i64::MAX,
        call_ensures(retention_cutoff, (now, seconds), cutoff),
    ensures
        now - cutoff == seconds * 1000,
{
}

/// The tuning is applied as it is set: the wait in milliseconds, never below zero, and the
/// cache in kibibytes, which the database takes as a negative number.
pub proof fn law_tuning_is_applied_as_set(pragmas: StoragePragmas, applied: Applied)
    requires
        pragmas.cache_size_kib > i64::MIN,
        call_ensures(StoragePragmas::apply, (&pragmas,), applied),
    ensures
        applied.synchronous@ == pragmas.synchronous@,
        pragmas.busy_timeout_ms >= 0 ==> applied.busy_timeout_ms == pragmas.busy_timeout_ms,
        pragmas.busy_timeout_ms < 0 ==> applied.busy_timeout_ms == 0,
        applied.cache_size + pragmas.cache_size_kib == 0,
        applied.wal_autocheckpoint == pragmas.wal_autocheckpoint_pages,
{
}

/// Changed tuning is noticed by everyone who applied the one before, and unchanged tuning
/// is applied by nobody again.
pub proof fn law_changed_tuning_is_noticed(
    synchronous: &str,
    busy: i64,
    cache: i64,
    pages: i64,
    changed: bool,
)
    ensures
        forall|p: &mut StoragePragmas| #[trigger]
            call_ensures(
                StoragePragmas::update,
                (p, synchronous, busy, cache, pages),
                changed,
            ) ==> {
                &&& final(p).synchronous@ == synchronous@
                &&& final(p).busy_timeout_ms == busy
                &&& final(p).cache_size_kib == cache
                &&& final(p).wal_autocheckpoint_pages == pages
                &&& changed <==> !(p.synchronous@ == synchronous@ && p.busy_timeout_ms == busy
                    && p.cache_size_kib == cache && p.wal_autocheckpoint_pages == pages)
                &&& changed <==> final(p).generation != p.generation
            },
        forall|p: StoragePragmas, applied: u64, stale: bool| #[trigger]
            call_ensures(StoragePragmas::is_stale, (&p, applied), stale) ==> (stale <==> applied
                != p.generation),
{
    assert forall|p: &mut StoragePragmas| #[trigger]
        call_ensures(
            StoragePragmas::update,
            (p, synchronous, busy, cache, pages),
            changed,
        ) implies final(p).synchronous@ == synchronous@ && (changed <==> !(p.synchronous@
        == synchronous@ && p.busy_timeout_ms == busy && p.cache_size_kib == cache
        && p.wal_autocheckpoint_pages == pages)) by {
        let after = final(p)@;
        let before = p@;
        assert(after == before <==> after.synchronous == before.synchronous && after.busy_timeout_ms
            == before.busy_timeout_ms && after.cache_size_kib == before.cache_size_kib
            && after.wal_autocheckpoint_pages == before.wal_autocheckpoint_pages);
    }
}

/// A column is added to its own table if and only if it is missing.
pub proof fn law_missing_columns_are_added(
    added: AddedColumn,
    existing: &[String],
    statement: Option<String>,
)
    requires
        call_ensures(migrate, (&added, existing), statement),
    ensures
        statement is None <==> texts(existing@).contains(added.column@),
        statement is Some ==> (statement->0)@ == "ALTER TABLE "@ + added.table@ + " ADD COLUMN "@
            + added.column@ + " "@ + added.definition@,
{
}

/// What the storage takes up is the database and its two companions.
pub proof fn law_storage_is_three_files(path: &str, files: Vec<String>)
    requires
        call_ensures(storage_files, (path,), files),
    ensures
        files@.len() == 3,
        files@[0]@ == path@,
        files@[1]@ == path@ + "-wal"@,
        files@[2]@ == path@ + "-shm"@,
{
    assert(texts(files@).len() == files@.len());
    assert(texts(files@)[0] == files@[0]@);
    assert(texts(files@)[1] == files@[1]@);
    assert(texts(files@)[2] == files@[2]@);
}

/// What is blank in the environment counts as missing, and the rest counts trimmed.
pub proof fn law_blank_values_count_as_missing(value: Option<String>, kept: Option<String>)
    requires
        call_ensures(env_opt, (&value,), kept),
    ensures
        kept is Some <==> value is Some && trimmed((value->0)@).len() > 0,
        kept is Some ==> (kept->0)@ == trimmed((value->0)@),
{
}

/// A switch is on for four words, in any case, and off for everything else.
pub proof fn law_switches_are_on_for_yes(value: Option<String>, on: bool)
    requires
        call_ensures(env_bool, (&value,), on),
    ensures
        on <==> value is Some && trimmed((value->0)@).len() > 0 && {
            let word = lowered(trimmed((value->0)@));
            word == "1"@ || word == "true"@ || word == "yes"@ || word == "on"@
        },
{
}

/// A key in the environment wins over one in a named file, and that over the one in the
/// data directory.
pub proof fn law_keys_are_found_in_turn(
    system: System,
    inline: Option<String>,
    file: Option<String>,
    dir: &str,
    source: KeySource,
)
    requires
        call_ensures(load_secret_key, (system, &inline, &file, dir), source),
    ensures
        ({
            let has_inline = inline is Some && trimmed((inline->0)@).len() > 0;
            let has_file = file is Some && trimmed((file->0)@).len() > 0;
            &&& has_inline ==> (source matches KeySource::Inline(raw) && raw@ == trimmed(
                (inline->0)@,
            ))
            &&& !has_inline && has_file ==> (source matches KeySource::File { path, source }
                && path@ == trimmed((file->0)@))
            &&& !has_inline && !has_file ==> (source matches KeySource::Generated { path } && path@
                == joined(system, dir@, "bootstrap.key"@))
        }),
{
    let shown = source@;
}

/// The text of 32 bytes is a key, those bytes; the text of any other number of them is
/// none.
pub proof fn law_keys_are_32_bytes(
    key: Seq<u8>,
    raw: &str,
    name: &str,
    result: Result<[u8; 32], BootstrapError>,
)
    requires
        raw@ == base64url(key),
        call_ensures(decode_key, (raw, name), result),
    ensures
        result is Ok <==> key.len() == 32,
        result is Ok ==> result->Ok_0@ == key,
{
    law_texts_stand_for_their_bytes(key);
    assert(decoded(raw@) == Some(key));
}

/// What the environment says is taken, and what it leaves out is what is documented: the
/// data directory, the database in it, the instance's name and where recovery listens.
pub proof fn law_bootstrap_values_are_as_documented(
    system: System,
    environment: Environment,
    key: [u8; 32],
    fresh_id: &str,
    bootstrap: Bootstrap,
)
    requires
        call_ensures(Bootstrap::from_env, (system, &environment, key, fresh_id), bootstrap),
    ensures
        environment.data_dir is None ==> bootstrap.data_dir@ == "/var/lib/terminal-relay"@,
        environment.data_dir is Some && trimmed((environment.data_dir->0)@).len() > 0
            ==> bootstrap.data_dir@ == trimmed((environment.data_dir->0)@),
        environment.db_path is None ==> bootstrap.db_path@ == joined(
            system,
            bootstrap.data_dir@,
            "relay.db"@,
        ),
        environment.db_path is Some && trimmed((environment.db_path->0)@).len() > 0
            ==> bootstrap.db_path@ == trimmed((environment.db_path->0)@),
        bootstrap.secret_key@ == key@,
        environment.operator_token is None ==> bootstrap.operator_token_seed is None,
        environment.operator_token is Some && trimmed((environment.operator_token->0)@).len() > 0
            ==> bootstrap.operator_token_seed is Some && (bootstrap.operator_token_seed->0)@
            == trimmed((environment.operator_token->0)@),
        environment.instance_id is Some && trimmed((environment.instance_id->0)@).len() > 0
            ==> bootstrap.instance_id@ == trimmed((environment.instance_id->0)@),
        environment.instance_id is None && environment.hostname is Some ==> bootstrap.instance_id@
            == (environment.hostname->0)@,
        environment.instance_id is None && environment.hostname is None ==> bootstrap.instance_id@
            == fresh_id@,
        environment.recovery_mode is None ==> !bootstrap.recovery_mode,
        environment.recovery_listen is None ==> bootstrap.recovery_listen@ == "127.0.0.1:8081"@,
        environment.recovery_listen is Some && trimmed((environment.recovery_listen->0)@).len() > 0
            ==> bootstrap.recovery_listen@ == trimmed((environment.recovery_listen->0)@),
{
}

/// A text that ends in another has its last characters.
proof fn lemma_end(text: Seq<char>, end: Seq<char>)
    requires
        end.len() >= 3,
    ensures
        ends_in(text, end) ==> {
            &&& text.len() >= end.len()
            &&& text[text.len() - 1] == end[end.len() - 1]
            &&& text[text.len() - 2] == end[end.len() - 2]
            &&& text[text.len() - 3] == end[end.len() - 3]
        },
{
    if ends_in(text, end) {
        let back = text.skip(text.len() - end.len());
        assert(back[end.len() - 1] == text[text.len() - 1]);
        assert(back[end.len() - 2] == text[text.len() - 2]);
        assert(back[end.len() - 3] == text[text.len() - 3]);
    }
}

/// A number's unit is told by the end of its setting's name.
pub proof fn law_units_are_told_by_the_name(name: &str, hint: &'static str)
    requires
        call_ensures(unit_hint, (name,), hint),
    ensures
        ends_in(name@, "_bytes"@) ==> hint@ == "bytes"@,
        ends_in(name@, "_ms"@) ==> hint@ == "milliseconds"@,
        ends_in(name@, "_seconds"@) ==> hint@ == "seconds"@,
        ends_in(name@, "_pages"@) ==> hint@ == "pages"@,
        ends_in(name@, "_kib"@) ==> hint@ == "kibibytes"@,
        !ends_in(name@, "_bytes"@) && !ends_in(name@, "_ms"@) && !ends_in(name@, "_seconds"@)
            && !ends_in(name@, "_pages"@) && !ends_in(name@, "_kib"@) ==> hint@ == "count"@,
{
    reveal_strlit("_bytes");
    reveal_strlit("_ms");
    reveal_strlit("_seconds");
    reveal_strlit("_pages");
    reveal_strlit("_kib");
    lemma_end(name@, "_bytes"@);
    lemma_end(name@, "_ms"@);
    lemma_end(name@, "_seconds"@);
    lemma_end(name@, "_pages"@);
    lemma_end(name@, "_kib"@);
}

/// A setting that is printed shows its value, and a secret only how it is configured; all
/// are printed where none is asked for by name.
pub proof fn law_printed_settings_keep_secrets(
    def: SettingDef,
    form: &str,
    value: &str,
    line: String,
    wanted: &[String],
    asked: bool,
    name: &str,
)
    requires
        call_ensures(setting_line, (&def, form, value), line),
        call_ensures(is_wanted, (name, wanted), asked),
    ensures
        def.secret ==> line@ == def.name@ + " = <"@ + form@ + ">"@,
        !def.secret ==> line@ == def.name@ + " = "@ + value@,
        asked <==> wanted@.len() == 0 || texts(wanted@).contains(name@),
{
}

/// Without arguments, or asked to, the command prints settings; asked to set some, it
/// applies them; anything else it refuses.
pub proof fn law_settings_are_read_and_set(
    args: &[String],
    result: Result<SettingsCommand, String>,
)
    requires
        call_ensures(settings_command, (args,), result),
    ensures
        args@.len() == 0 ==> (result matches Ok(SettingsCommand::Print(wanted)) && wanted@.len()
            == 0),
        args@.len() > 0 && args@[0]@ == "get"@ ==> (result matches Ok(
            SettingsCommand::Print(wanted),
        ) && texts(wanted@) == texts(args@).skip(1)),
        args@.len() > 0 && args@[0]@ == "set"@ ==> !(result matches Ok(SettingsCommand::Print(_))),
        args@.len() == 1 && args@[0]@ == "set"@ ==> result is Err,
        args@.len() > 0 && args@[0]@ != "get"@ && args@[0]@ != "set"@ ==> result is Err,
{
    reveal_strlit("get");
    reveal_strlit("set");
    assert("get"@[0] != "set"@[0]);
    if let Ok(SettingsCommand::Print(wanted)) = result {
        assert(texts(wanted@).len() == wanted@.len());
    }
    if args@.len() == 1 {
        assert(texts(args@).len() == 1);
    }
}

/// A probe asks the target for the path and for nothing else, over a connection that ends
/// with it.
pub proof fn law_probes_ask_for_their_path(target: &str, path: &str, request: String)
    requires
        call_ensures(probe_request, (target, path), request),
    ensures
        request@ == "GET "@ + path@ + " HTTP/1.1\r\nHost: "@ + target@
            + "\r\nConnection: close\r\n\r\n"@,
{
}

} // verus!
