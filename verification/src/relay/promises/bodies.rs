//! What is read in the bodies that requests are answered with.

use crate::ids::{uuid_text, Uuid};
use crate::json::reading::{
    has_integer, has_member, has_number, has_text, has_texts, has_truth, is_in_order, is_value,
    lemma_array_is_list, lemma_has_integer, lemma_has_number, lemma_joined_in_order,
    lemma_list_is_value, lemma_members_in_order, lemma_object_is_value, lemma_ordered_members,
    lemma_values, may_have_text,
};
use crate::json::{
    array_text, comes_first, comes_first_at, is_name, is_orderly, json_string, list_text,
    object_text, some_member, text_or_null, truth_text,
};
use crate::relay::admin::{
    bound_text, closing_members, default_text, described, entry_members, flush_now, get_audit,
    get_settings, leading_members, patch_settings, recorded, setting_json, setting_members,
    shown_value, unit, AuditEntry, DefModel, DefaultValue, Setting,
};
use crate::relay::auth::identity_json;
use crate::relay::devices::{device_json, revoked_json, DeviceTimes};
use crate::relay::error::ApiError;
use crate::relay::ops::ready_json;
use crate::relay::repo::Device;
use crate::relay::ws::ticket_json;
use crate::text::{decimal, option_view, signed_decimal, texts};
use vstd::prelude::*;

verus! {

proof fn lemma_device_names()
    ensures
        is_name("created_at"@),
        is_name("device_id"@),
        is_name("identity_id"@),
        is_name("key"@),
        is_name("last_seen_at"@),
        is_name("name"@),
        is_name("publisher_connected"@),
        is_name("revoked_at"@),
        is_name("role"@),
        is_name("terminal_open_supported"@),
        comes_first("created_at"@, "device_id"@),
        comes_first("device_id"@, "identity_id"@),
        comes_first("identity_id"@, "key"@),
        comes_first("key"@, "last_seen_at"@),
        comes_first("last_seen_at"@, "name"@),
        comes_first("name"@, "publisher_connected"@),
        comes_first("publisher_connected"@, "revoked_at"@),
        comes_first("revoked_at"@, "role"@),
        comes_first("role"@, "terminal_open_supported"@),
{
    reveal_strlit("created_at");
    reveal_strlit("device_id");
    reveal_strlit("identity_id");
    reveal_strlit("key");
    reveal_strlit("last_seen_at");
    reveal_strlit("name");
    reveal_strlit("publisher_connected");
    reveal_strlit("revoked_at");
    reveal_strlit("role");
    reveal_strlit("terminal_open_supported");
    assert(is_name("created_at"@));
    assert(is_name("device_id"@));
    assert(is_name("identity_id"@));
    assert(is_name("key"@));
    assert(is_name("last_seen_at"@));
    assert(is_name("name"@));
    assert(is_name("publisher_connected"@));
    assert(is_name("revoked_at"@));
    assert(is_name("role"@));
    assert(is_name("terminal_open_supported"@));
    assert("created_at"@.take(0) =~= "device_id"@.take(0));
    assert(comes_first_at("created_at"@, "device_id"@, 0));
    assert("device_id"@.take(0) =~= "identity_id"@.take(0));
    assert(comes_first_at("device_id"@, "identity_id"@, 0));
    assert("identity_id"@.take(0) =~= "key"@.take(0));
    assert(comes_first_at("identity_id"@, "key"@, 0));
    assert("key"@.take(0) =~= "last_seen_at"@.take(0));
    assert(comes_first_at("key"@, "last_seen_at"@, 0));
    assert("last_seen_at"@.take(0) =~= "name"@.take(0));
    assert(comes_first_at("last_seen_at"@, "name"@, 0));
    assert("name"@.take(0) =~= "publisher_connected"@.take(0));
    assert(comes_first_at("name"@, "publisher_connected"@, 0));
    assert("publisher_connected"@.take(0) =~= "revoked_at"@.take(0));
    assert(comes_first_at("publisher_connected"@, "revoked_at"@, 0));
    assert("revoked_at"@.take(1) =~= "role"@.take(1));
    assert(comes_first_at("revoked_at"@, "role"@, 1));
    assert("role"@.take(0) =~= "terminal_open_supported"@.take(0));
    assert(comes_first_at("role"@, "terminal_open_supported"@, 0));
}

proof fn lemma_key_names()
    ensures
        is_name("algorithm"@),
        is_name("fingerprint"@),
        comes_first("algorithm"@, "fingerprint"@),
{
    reveal_strlit("algorithm");
    reveal_strlit("fingerprint");
    assert(is_name("algorithm"@));
    assert(is_name("fingerprint"@));
    assert("algorithm"@.take(0) =~= "fingerprint"@.take(0));
    assert(comes_first_at("algorithm"@, "fingerprint"@, 0));
}

proof fn lemma_key_reads(algorithm: Seq<char>, fingerprint: Seq<char>)
    ensures
        ({
            let key = object_text(
                seq![
                    ("algorithm"@, json_string(algorithm)),
                    ("fingerprint"@, json_string(fingerprint)),
                ],
            );
            &&& has_text(key, "algorithm"@, algorithm)
            &&& has_text(key, "fingerprint"@, fingerprint)
            &&& is_value(key)
        }),
{
    lemma_key_names();
    lemma_values();
    let list = seq![
        ("algorithm"@, json_string(algorithm)),
        ("fingerprint"@, json_string(fingerprint)),
    ];
    assert(list[0].0 == "algorithm"@);
    assert(list[1].0 == "fingerprint"@);
    assert(is_orderly(list));
    lemma_members_in_order(list);
    lemma_object_is_value(list);
}

/// The description of a device tells its ID, its owner, its name, its key, its role and its
/// times, whether its publisher is connected, and that it can be asked for a terminal if
/// and only if that is enabled and its publisher supports it.
pub proof fn law_devices_are_described(
    device: Device,
    times: DeviceTimes,
    connected: bool,
    enabled: bool,
    supported: bool,
    json: String,
)
    requires
        call_ensures(device_json, (&device, &times, connected, enabled, supported), json),
    ensures
        has_text(json@, "created_at"@, times.created_at@),
        has_text(json@, "device_id"@, uuid_text(device.device_id.value)),
        has_text(json@, "identity_id"@, device.identity_id@),
        exists|key: Seq<char>| #[trigger]
            has_member(json@, "key"@, key) && has_text(key, "algorithm"@, device.algorithm@)
                && has_text(key, "fingerprint"@, device.key_fingerprint@),
        may_have_text(json@, "last_seen_at"@, option_view(times.last_seen_at)),
        has_text(json@, "name"@, device.name@),
        has_truth(json@, "publisher_connected"@, connected),
        may_have_text(json@, "revoked_at"@, option_view(times.revoked_at)),
        has_text(json@, "role"@, device.role.word()),
        has_truth(json@, "terminal_open_supported"@, enabled && supported),
{
    lemma_device_names();
    lemma_values();
    let key = object_text(
        seq![
            ("algorithm"@, json_string(device.algorithm@)),
            ("fingerprint"@, json_string(device.key_fingerprint@)),
        ],
    );
    lemma_key_reads(device.algorithm@, device.key_fingerprint@);
    let list = seq![
        ("created_at"@, json_string(times.created_at@)),
        ("device_id"@, json_string(uuid_text(device.device_id.value))),
        ("identity_id"@, json_string(device.identity_id@)),
        ("key"@, key),
        ("last_seen_at"@, text_or_null(option_view(times.last_seen_at))),
        ("name"@, json_string(device.name@)),
        ("publisher_connected"@, truth_text(connected)),
        ("revoked_at"@, text_or_null(option_view(times.revoked_at))),
        ("role"@, json_string(device.role.word())),
        ("terminal_open_supported"@, truth_text(enabled && supported)),
    ];
    assert(list[0].0 == "created_at"@);
    assert(list[1].0 == "device_id"@);
    assert(list[2].0 == "identity_id"@);
    assert(list[3].0 == "key"@);
    assert(list[4].0 == "last_seen_at"@);
    assert(list[5].0 == "name"@);
    assert(list[6].0 == "publisher_connected"@);
    assert(list[7].0 == "revoked_at"@);
    assert(list[8].0 == "role"@);
    assert(list[9].0 == "terminal_open_supported"@);
    assert(is_orderly(list));
    lemma_members_in_order(list);
}

proof fn lemma_revoked_names()
    ensures
        is_name("device_id"@),
        is_name("revoked_at"@),
        comes_first("device_id"@, "revoked_at"@),
{
    reveal_strlit("device_id");
    reveal_strlit("revoked_at");
    assert(is_name("device_id"@));
    assert(is_name("revoked_at"@));
    assert("device_id"@.take(0) =~= "revoked_at"@.take(0));
    assert(comes_first_at("device_id"@, "revoked_at"@, 0));
}

/// The answer to a revocation tells which device was revoked, and when.
pub proof fn law_revocations_are_described(
    device_id: Uuid,
    revoked_at: &str,
    json: String,
)
    requires
        call_ensures(revoked_json, (device_id, revoked_at), json),
    ensures
        has_text(json@, "device_id"@, uuid_text(device_id.value)),
        has_text(json@, "revoked_at"@, revoked_at@),
{
    lemma_revoked_names();
    lemma_values();
    let list = seq![
        ("device_id"@, json_string(uuid_text(device_id.value))),
        ("revoked_at"@, json_string(revoked_at@)),
    ];
    assert(list[0].0 == "device_id"@);
    assert(list[1].0 == "revoked_at"@);
    assert(is_orderly(list));
    lemma_members_in_order(list);
}

proof fn lemma_identity_names()
    ensures
        is_name("created_at"@),
        is_name("identity_id"@),
        comes_first("created_at"@, "identity_id"@),
{
    reveal_strlit("created_at");
    reveal_strlit("identity_id");
    assert(is_name("created_at"@));
    assert(is_name("identity_id"@));
    assert("created_at"@.take(0) =~= "identity_id"@.take(0));
    assert(comes_first_at("created_at"@, "identity_id"@, 0));
}

/// The answer to a registration tells the identity's ID, and since when it is known.
pub proof fn law_identities_are_described(
    identity_id: &str,
    created_at: &str,
    json: String,
)
    requires
        call_ensures(identity_json, (identity_id, created_at), json),
    ensures
        has_text(json@, "created_at"@, created_at@),
        has_text(json@, "identity_id"@, identity_id@),
{
    lemma_identity_names();
    lemma_values();
    let list = seq![
        ("created_at"@, json_string(created_at@)),
        ("identity_id"@, json_string(identity_id@)),
    ];
    assert(list[0].0 == "created_at"@);
    assert(list[1].0 == "identity_id"@);
    assert(is_orderly(list));
    lemma_members_in_order(list);
}

proof fn lemma_ticket_names()
    ensures
        is_name("expires_at"@),
        is_name("path"@),
        is_name("ticket"@),
        comes_first("expires_at"@, "path"@),
        comes_first("path"@, "ticket"@),
{
    reveal_strlit("expires_at");
    reveal_strlit("path");
    reveal_strlit("ticket");
    assert(is_name("expires_at"@));
    assert(is_name("path"@));
    assert(is_name("ticket"@));
    assert("expires_at"@.take(0) =~= "path"@.take(0));
    assert(comes_first_at("expires_at"@, "path"@, 0));
    assert("path"@.take(0) =~= "ticket"@.take(0));
    assert(comes_first_at("path"@, "ticket"@, 0));
}

/// Whoever gets a ticket is told the ticket itself, the path that it is for, and until when
/// it can be used.
pub proof fn law_tickets_are_described(
    ticket: &str,
    path: &str,
    expires_at: &str,
    json: String,
)
    requires
        call_ensures(ticket_json, (ticket, path, expires_at), json),
    ensures
        has_text(json@, "expires_at"@, expires_at@),
        has_text(json@, "path"@, path@),
        has_text(json@, "ticket"@, ticket@),
{
    lemma_ticket_names();
    lemma_values();
    let list = seq![
        ("expires_at"@, json_string(expires_at@)),
        ("path"@, json_string(path@)),
        ("ticket"@, json_string(ticket@)),
    ];
    assert(list[0].0 == "expires_at"@);
    assert(list[1].0 == "path"@);
    assert(list[2].0 == "ticket"@);
    assert(is_orderly(list));
    lemma_members_in_order(list);
}

proof fn lemma_ready_names()
    ensures
        is_name("settings_revision"@),
        is_name("status"@),
        comes_first("settings_revision"@, "status"@),
{
    reveal_strlit("settings_revision");
    reveal_strlit("status");
    assert(is_name("settings_revision"@));
    assert(is_name("status"@));
    assert("settings_revision"@.take(1) =~= "status"@.take(1));
    assert(comes_first_at("settings_revision"@, "status"@, 1));
}

/// A relay that is ready says so, with the revision of its settings.
pub proof fn law_ready_relays_tell_their_revision(
    revision: i64,
    json: String,
)
    requires
        call_ensures(ready_json, (revision,), json),
    ensures
        has_integer(json@, "settings_revision"@, revision as int),
        has_text(json@, "status"@, "ready"@),
{
    lemma_ready_names();
    lemma_values();
    let list = seq![
        ("settings_revision"@, signed_decimal(revision as int)),
        ("status"@, json_string("ready"@)),
    ];
    assert(list[0].0 == "settings_revision"@);
    assert(list[1].0 == "status"@);
    assert(is_orderly(list));
    lemma_members_in_order(list);
    lemma_has_integer(json@, "settings_revision"@, revision as int);
}

proof fn lemma_error_names()
    ensures
        is_name("code"@),
        is_name("message"@),
        is_name("request_id"@),
        comes_first("code"@, "message"@),
        comes_first("message"@, "request_id"@),
{
    reveal_strlit("code");
    reveal_strlit("message");
    reveal_strlit("request_id");
    assert(is_name("code"@));
    assert(is_name("message"@));
    assert(is_name("request_id"@));
    assert("code"@.take(0) =~= "message"@.take(0));
    assert(comes_first_at("code"@, "message"@, 0));
    assert("message"@.take(0) =~= "request_id"@.take(0));
    assert(comes_first_at("message"@, "request_id"@, 0));
}

proof fn lemma_envelope_names()
    ensures
        is_name("error"@),
{
    reveal_strlit("error");
    assert(is_name("error"@));
}

/// Every refusal is answered with its code, its message and the ID of the request.
pub proof fn law_refusals_are_described(error: ApiError, request_id: &str, body: String)
    requires
        call_ensures(ApiError::to_json, (&error, request_id), body),
    ensures
        exists|inner: Seq<char>| #[trigger]
            has_member(body@, "error"@, inner) && has_text(inner, "code"@, error.code@) && has_text(
                inner,
                "message"@,
                error.message@,
            ) && has_text(inner, "request_id"@, request_id@),
{
    lemma_error_names();
    lemma_envelope_names();
    lemma_values();
    let inner = seq![
        ("code"@, json_string(error.code@)),
        ("message"@, json_string(error.message@)),
        ("request_id"@, json_string(request_id@)),
    ];
    assert(inner[0].0 == "code"@);
    assert(inner[1].0 == "message"@);
    assert(inner[2].0 == "request_id"@);
    assert(is_orderly(inner));
    lemma_members_in_order(inner);
    lemma_object_is_value(inner);
    let outer = seq![("error"@, object_text(inner))];
    assert(outer[0].0 == "error"@);
    assert(is_orderly(outer));
    lemma_members_in_order(outer);
}

proof fn lemma_flush_names()
    ensures
        is_name("flushed_bytes"@),
        is_name("storage_healthy"@),
        comes_first("flushed_bytes"@, "storage_healthy"@),
{
    reveal_strlit("flushed_bytes");
    reveal_strlit("storage_healthy");
    assert(is_name("flushed_bytes"@));
    assert(is_name("storage_healthy"@));
    assert("flushed_bytes"@.take(0) =~= "storage_healthy"@.take(0));
    assert(comes_first_at("flushed_bytes"@, "storage_healthy"@, 0));
}

/// The answer to a checkpoint tells how much it wrote, and that storage is healthy if and
/// only if it does not fail.
pub proof fn law_checkpoints_are_described(
    flushed: u64,
    failing: bool,
    json: String,
)
    requires
        call_ensures(flush_now, (flushed, failing), json),
    ensures
        has_number(json@, "flushed_bytes"@, flushed as nat),
        has_truth(json@, "storage_healthy"@, !failing),
{
    lemma_flush_names();
    lemma_values();
    let list = seq![
        ("flushed_bytes"@, decimal(flushed as nat)),
        ("storage_healthy"@, truth_text(!failing)),
    ];
    assert(list[0].0 == "flushed_bytes"@);
    assert(list[1].0 == "storage_healthy"@);
    assert(is_orderly(list));
    lemma_members_in_order(list);
    lemma_has_number(json@, "flushed_bytes"@, flushed as nat);
}

proof fn lemma_entry_names()
    ensures
        is_name("at"@),
        is_name("detail"@),
        is_name("new_value_hash"@),
        is_name("old_value_hash"@),
        is_name("operator"@),
        is_name("outcome"@),
        is_name("revision"@),
        is_name("setting"@),
        comes_first("at"@, "detail"@),
        comes_first("detail"@, "new_value_hash"@),
        comes_first("new_value_hash"@, "old_value_hash"@),
        comes_first("old_value_hash"@, "operator"@),
        comes_first("operator"@, "outcome"@),
        comes_first("outcome"@, "revision"@),
        comes_first("revision"@, "setting"@),
{
    reveal_strlit("at");
    reveal_strlit("detail");
    reveal_strlit("new_value_hash");
    reveal_strlit("old_value_hash");
    reveal_strlit("operator");
    reveal_strlit("outcome");
    reveal_strlit("revision");
    reveal_strlit("setting");
    assert(is_name("at"@));
    assert(is_name("detail"@));
    assert(is_name("new_value_hash"@));
    assert(is_name("old_value_hash"@));
    assert(is_name("operator"@));
    assert(is_name("outcome"@));
    assert(is_name("revision"@));
    assert(is_name("setting"@));
    assert("at"@.take(0) =~= "detail"@.take(0));
    assert(comes_first_at("at"@, "detail"@, 0));
    assert("detail"@.take(0) =~= "new_value_hash"@.take(0));
    assert(comes_first_at("detail"@, "new_value_hash"@, 0));
    assert("new_value_hash"@.take(0) =~= "old_value_hash"@.take(0));
    assert(comes_first_at("new_value_hash"@, "old_value_hash"@, 0));
    assert("old_value_hash"@.take(1) =~= "operator"@.take(1));
    assert(comes_first_at("old_value_hash"@, "operator"@, 1));
    assert("operator"@.take(1) =~= "outcome"@.take(1));
    assert(comes_first_at("operator"@, "outcome"@, 1));
    assert("outcome"@.take(0) =~= "revision"@.take(0));
    assert(comes_first_at("outcome"@, "revision"@, 0));
    assert("revision"@.take(0) =~= "setting"@.take(0));
    assert(comes_first_at("revision"@, "setting"@, 0));
}

/// An entry of the record tells when and by whom which setting was changed, from what to
/// what, in which revision and with what outcome.
pub proof fn law_changes_are_described(
    entry: AuditEntry,
)
    ensures
        ({
            let json = object_text(entry_members(entry@));
            &&& has_text(json, "at"@, entry.at@)
            &&& may_have_text(json, "detail"@, option_view(entry.detail))
            &&& may_have_text(json, "new_value_hash"@, option_view(entry.new_value_hash))
            &&& may_have_text(json, "old_value_hash"@, option_view(entry.old_value_hash))
            &&& has_text(json, "operator"@, entry.operator@)
            &&& has_text(json, "outcome"@, entry.outcome@)
            &&& has_integer(json, "revision"@, entry.revision as int)
            &&& has_text(json, "setting"@, entry.setting@)
            &&& is_value(json)
        }),
{
    lemma_entry_names();
    lemma_values();
    let list = seq![
        ("at"@, json_string(entry.at@)),
        ("detail"@, text_or_null(option_view(entry.detail))),
        ("new_value_hash"@, text_or_null(option_view(entry.new_value_hash))),
        ("old_value_hash"@, text_or_null(option_view(entry.old_value_hash))),
        ("operator"@, json_string(entry.operator@)),
        ("outcome"@, json_string(entry.outcome@)),
        ("revision"@, signed_decimal(entry.revision as int)),
        ("setting"@, json_string(entry.setting@)),
    ];
    assert(list[0].0 == "at"@);
    assert(list[1].0 == "detail"@);
    assert(list[2].0 == "new_value_hash"@);
    assert(list[3].0 == "old_value_hash"@);
    assert(list[4].0 == "operator"@);
    assert(list[5].0 == "outcome"@);
    assert(list[6].0 == "revision"@);
    assert(list[7].0 == "setting"@);
    assert(is_orderly(list));
    lemma_members_in_order(list);
    lemma_has_integer(object_text(list), "revision"@, entry.revision as int);
    lemma_object_is_value(list);
}

proof fn lemma_entries_names()
    ensures
        is_name("entries"@),
{
    reveal_strlit("entries");
    assert(is_name("entries"@));
}

/// The record lists its entries one by one, in their order.
pub proof fn law_the_record_is_complete(entries: Vec<AuditEntry>, json: String)
    requires
        call_ensures(get_audit, (&entries,), json),
    ensures
        exists|list: Seq<Seq<char>>| #[trigger]
            has_member(json@, "entries"@, list_text(list)) && list.len() == entries@.len()
                && forall|i: int|
                0 <= i < list.len() ==> has_text(#[trigger] list[i], "setting"@, entries@[i].setting@)
                    && has_text(list[i], "operator"@, entries@[i].operator@) && has_integer(
                    list[i],
                    "revision"@,
                    entries@[i].revision as int,
                ),
{
    lemma_entries_names();
    let inner = recorded(entries@);
    assert forall|i: int| 0 <= i < inner.len() implies is_value(
        #[trigger] inner[i],
    ) && has_text(inner[i], "setting"@, entries@[i].setting@) && has_text(
        inner[i],
        "operator"@,
        entries@[i].operator@,
    ) && has_integer(inner[i], "revision"@, entries@[i].revision as int) by {
        law_changes_are_described(entries@[i]);
    }
    lemma_list_is_value(inner);
    let list = seq![("entries"@, list_text(inner))];
    assert(list[0].0 == "entries"@);
    assert(is_orderly(list));
    lemma_members_in_order(list);
}

proof fn lemma_setting_names()
    ensures
        is_name("allowed"@),
        is_name("configured"@),
        is_name("default"@),
        is_name("description"@),
        is_name("maximum"@),
        is_name("minimum"@),
        is_name("name"@),
        is_name("reload"@),
        is_name("secret"@),
        is_name("secret_form"@),
        is_name("type"@),
        is_name("unit_hint"@),
        is_name("value"@),
        comes_first("allowed"@, "configured"@),
        comes_first("configured"@, "default"@),
        comes_first("default"@, "description"@),
        comes_first("description"@, "maximum"@),
        comes_first("maximum"@, "minimum"@),
        comes_first("minimum"@, "name"@),
        comes_first("name"@, "reload"@),
        comes_first("reload"@, "secret"@),
        comes_first("secret"@, "secret_form"@),
        comes_first("secret_form"@, "type"@),
        comes_first("type"@, "unit_hint"@),
        comes_first("unit_hint"@, "value"@),
        comes_first("allowed"@, "default"@),
        comes_first("configured"@, "default"@),
        comes_first("default"@, "description"@),
        comes_first("description"@, "minimum"@),
        comes_first("description"@, "name"@),
        comes_first("maximum"@, "name"@),
        comes_first("secret"@, "type"@),
        comes_first("secret_form"@, "type"@),
        comes_first("type"@, "value"@),
        comes_first("unit_hint"@, "value"@),
{
    reveal_strlit("allowed");
    reveal_strlit("configured");
    reveal_strlit("default");
    reveal_strlit("description");
    reveal_strlit("maximum");
    reveal_strlit("minimum");
    reveal_strlit("name");
    reveal_strlit("reload");
    reveal_strlit("secret");
    reveal_strlit("secret_form");
    reveal_strlit("type");
    reveal_strlit("unit_hint");
    reveal_strlit("value");
    assert(is_name("allowed"@));
    assert(is_name("configured"@));
    assert(is_name("default"@));
    assert(is_name("description"@));
    assert(is_name("maximum"@));
    assert(is_name("minimum"@));
    assert(is_name("name"@));
    assert(is_name("reload"@));
    assert(is_name("secret"@));
    assert(is_name("secret_form"@));
    assert(is_name("type"@));
    assert(is_name("unit_hint"@));
    assert(is_name("value"@));
    assert("allowed"@.take(0) =~= "configured"@.take(0));
    assert(comes_first_at("allowed"@, "configured"@, 0));
    assert("configured"@.take(0) =~= "default"@.take(0));
    assert(comes_first_at("configured"@, "default"@, 0));
    assert("default"@.take(2) =~= "description"@.take(2));
    assert(comes_first_at("default"@, "description"@, 2));
    assert("description"@.take(0) =~= "maximum"@.take(0));
    assert(comes_first_at("description"@, "maximum"@, 0));
    assert("maximum"@.take(1) =~= "minimum"@.take(1));
    assert(comes_first_at("maximum"@, "minimum"@, 1));
    assert("minimum"@.take(0) =~= "name"@.take(0));
    assert(comes_first_at("minimum"@, "name"@, 0));
    assert("name"@.take(0) =~= "reload"@.take(0));
    assert(comes_first_at("name"@, "reload"@, 0));
    assert("reload"@.take(0) =~= "secret"@.take(0));
    assert(comes_first_at("reload"@, "secret"@, 0));
    assert("secret"@.take(6) =~= "secret_form"@.take(6));
    assert(comes_first_at("secret"@, "secret_form"@, 6));
    assert("secret_form"@.take(0) =~= "type"@.take(0));
    assert(comes_first_at("secret_form"@, "type"@, 0));
    assert("type"@.take(0) =~= "unit_hint"@.take(0));
    assert(comes_first_at("type"@, "unit_hint"@, 0));
    assert("unit_hint"@.take(0) =~= "value"@.take(0));
    assert(comes_first_at("unit_hint"@, "value"@, 0));
    assert("allowed"@.take(0) =~= "default"@.take(0));
    assert(comes_first_at("allowed"@, "default"@, 0));
    assert("configured"@.take(0) =~= "default"@.take(0));
    assert(comes_first_at("configured"@, "default"@, 0));
    assert("default"@.take(2) =~= "description"@.take(2));
    assert(comes_first_at("default"@, "description"@, 2));
    assert("description"@.take(0) =~= "minimum"@.take(0));
    assert(comes_first_at("description"@, "minimum"@, 0));
    assert("description"@.take(0) =~= "name"@.take(0));
    assert(comes_first_at("description"@, "name"@, 0));
    assert("maximum"@.take(0) =~= "name"@.take(0));
    assert(comes_first_at("maximum"@, "name"@, 0));
    assert("secret"@.take(0) =~= "type"@.take(0));
    assert(comes_first_at("secret"@, "type"@, 0));
    assert("secret_form"@.take(0) =~= "type"@.take(0));
    assert(comes_first_at("secret_form"@, "type"@, 0));
    assert("type"@.take(0) =~= "value"@.take(0));
    assert(comes_first_at("type"@, "value"@, 0));
    assert("unit_hint"@.take(0) =~= "value"@.take(0));
    assert(comes_first_at("unit_hint"@, "value"@, 0));
}

/// A default is one value.
proof fn lemma_default_is_value(value: DefaultValue<Seq<char>, Seq<Seq<char>>>)
    ensures
        is_value(default_text(value)),
{
    lemma_values();
    match value {
        DefaultValue::List(list) => {
            lemma_array_is_list(list);
        },
        _ => {},
    }
}

proof fn lemma_leading_reads(def: DefModel, form: Seq<char>) -> (list: Seq<(Seq<char>, Seq<char>)>)
    ensures
        list == leading_members(def, form),
        is_in_order(list),
        list.len() > 0,
        list.last().0 == "description"@ || list.last().0 == "maximum"@ || list.last().0
            == "minimum"@,
        list.contains(("default"@, default_text(def.default_value))),
        list.contains(("description"@, json_string(def.description))),
        def.allowed is Some ==> list.contains(("allowed"@, array_text(def.allowed->0))),
        def.secret ==> list.contains(("configured"@, truth_text(form != "unset"@))),
        def.max is Some ==> list.contains(("maximum"@, signed_decimal(def.max->0 as int))),
        def.min is Some ==> list.contains(("minimum"@, signed_decimal(def.min->0 as int))),
{
    lemma_setting_names();
    lemma_values();
    lemma_default_is_value(def.default_value);
    if def.allowed is Some {
        lemma_array_is_list(def.allowed->0);
    }
    let allowed = some_member(
        "allowed"@,
        match def.allowed {
            Some(allowed) => Some(array_text(allowed)),
            None => None,
        },
    );
    let configured = some_member(
        "configured"@,
        if def.secret {
            Some(truth_text(form != "unset"@))
        } else {
            None
        },
    );
    let own = seq![
        ("default"@, default_text(def.default_value)),
        ("description"@, json_string(def.description)),
    ];
    let max = some_member("maximum"@, bound_text(def.max));
    let min = some_member("minimum"@, bound_text(def.min));
    assert(own[0].0 == "default"@ && own[1].0 == "description"@);
    assert(is_in_order(allowed) && is_in_order(configured) && is_in_order(own) && is_in_order(max)
        && is_in_order(min));
    if def.allowed is Some {
        assert(allowed[0] == ("allowed"@, array_text(def.allowed->0)));
    }
    if def.secret {
        assert(configured[0] == ("configured"@, truth_text(form != "unset"@)));
    }
    if def.max is Some {
        assert(max[0] == ("maximum"@, signed_decimal(def.max->0 as int)));
    }
    if def.min is Some {
        assert(min[0] == ("minimum"@, signed_decimal(def.min->0 as int)));
    }
    lemma_joined_in_order(allowed, configured);
    let front = allowed + configured;
    lemma_joined_in_order(front, own);
    let front = front + own;
    assert(front.last() == own.last());
    lemma_joined_in_order(front, max);
    let front = front + max;
    assert(front.last() == (if max.len() > 0 {
        max.last()
    } else {
        own.last()
    }));
    lemma_joined_in_order(front, min);
    front + min
}

proof fn lemma_closing_reads(def: DefModel, form: Seq<char>, stored: Option<Seq<char>>) -> (list: Seq<
    (Seq<char>, Seq<char>),
>)
    requires
        stored is Some ==> is_value(stored->0),
    ensures
        list == closing_members(def, form, stored),
        is_in_order(list),
        list.len() > 0,
        list[0].0 == "name"@,
        list.contains(("name"@, json_string(def.name))),
        list.contains(("reload"@, json_string(def.reload))),
        list.contains(("secret"@, truth_text(def.secret))),
        def.secret ==> list.contains(("secret_form"@, json_string(form))),
        list.contains(("type"@, json_string(def.kind))),
        def.is_int ==> list.contains(("unit_hint"@, json_string(unit(def.name)))),
        list.contains(("value"@, shown_value(def, stored))),
{
    lemma_setting_names();
    lemma_values();
    lemma_default_is_value(def.default_value);
    let own = seq![
        ("name"@, json_string(def.name)),
        ("reload"@, json_string(def.reload)),
        ("secret"@, truth_text(def.secret)),
    ];
    let told = some_member(
        "secret_form"@,
        if def.secret {
            Some(json_string(form))
        } else {
            None
        },
    );
    let kind = seq![("type"@, json_string(def.kind))];
    let hint = some_member(
        "unit_hint"@,
        if def.is_int {
            Some(json_string(unit(def.name)))
        } else {
            None
        },
    );
    let value = seq![("value"@, shown_value(def, stored))];
    assert(own[0].0 == "name"@ && own[1].0 == "reload"@ && own[2].0 == "secret"@);
    assert(kind[0].0 == "type"@ && value[0].0 == "value"@);
    assert(own[0] == ("name"@, json_string(def.name)));
    assert(own[1] == ("reload"@, json_string(def.reload)));
    assert(own[2] == ("secret"@, truth_text(def.secret)));
    assert(kind[0] == ("type"@, json_string(def.kind)));
    assert(value[0] == ("value"@, shown_value(def, stored)));
    assert(is_in_order(own) && is_in_order(told) && is_in_order(kind) && is_in_order(hint)
        && is_in_order(value));
    if def.secret {
        assert(told[0] == ("secret_form"@, json_string(form)));
    }
    if def.is_int {
        assert(hint[0] == ("unit_hint"@, json_string(unit(def.name))));
    }
    lemma_joined_in_order(own, told);
    let front = own + told;
    assert(front.last() == (if told.len() > 0 {
        told.last()
    } else {
        own.last()
    }));
    lemma_joined_in_order(front, kind);
    let front = front + kind;
    assert(front.last() == kind.last());
    lemma_joined_in_order(front, hint);
    let front = front + hint;
    assert(front.last() == (if hint.len() > 0 {
        hint.last()
    } else {
        kind.last()
    }));
    lemma_joined_in_order(front, value);
    front + value
}

/// What an operator reads of a setting: what it is called and does, what it may be, and
/// its value, which is the stored one or else the default, unless it is a secret; of a
/// secret, whether and how it is configured.
pub open spec fn tells_of(json: Seq<char>, setting: Setting) -> bool {
    let def = setting.def;
    &&& has_text(json, "name"@, def.name@)
    &&& has_text(json, "description"@, def.description@)
    &&& has_text(json, "reload"@, def.reload@)
    &&& has_text(json, "type"@, def.kind@)
    &&& has_truth(json, "secret"@, def.secret)
    &&& def.secret ==> {
        &&& has_member(json, "value"@, "null"@)
        &&& has_text(json, "secret_form"@, setting.secret_form@)
        &&& has_truth(json, "configured"@, setting.secret_form@ != "unset"@)
    }
    &&& !def.secret && setting.stored is Some ==> has_member(
        json,
        "value"@,
        (setting.stored->0)@,
    )
    &&& !def.secret && setting.stored is None ==> exists|value: Seq<char>| #[trigger]
        has_member(json, "value"@, value) && has_member(json, "default"@, value)
    &&& def.min is Some ==> has_integer(json, "minimum"@, def.min->0 as int)
    &&& def.max is Some ==> has_integer(json, "maximum"@, def.max->0 as int)
    &&& def.allowed is Some ==> has_texts(json, "allowed"@, texts((def.allowed->0)@))
    &&& match def.default_value {
        DefaultValue::Bool(value) => has_truth(json, "default"@, value),
        DefaultValue::Int(value) => has_integer(json, "default"@, value as int),
        DefaultValue::Str(value) => has_text(json, "default"@, value@),
        DefaultValue::List(value) => has_texts(json, "default"@, texts(value@)),
    }
    &&& is_value(json)
}

/// A stored value is one value.
pub open spec fn is_stored_well(setting: Setting) -> bool {
    setting.stored is Some ==> is_value((setting.stored->0)@)
}

/// A setting is described as it is.
pub proof fn law_settings_are_described(setting: Setting, form: &str, json: String)
    requires
        is_stored_well(setting),
        form@ == setting.secret_form@,
        call_ensures(setting_json, (&setting.def, form, &setting.stored), json),
    ensures
        tells_of(json@, setting),
{
    lemma_setting_reads(setting);
}

proof fn lemma_setting_has(def: DefModel, form: Seq<char>, stored: Option<Seq<char>>)
    requires
        stored is Some ==> is_value(stored->0),
    ensures
        ({
            let json = object_text(setting_members(def, form, stored));
            &&& is_value(json)
            &&& has_member(json, "default"@, default_text(def.default_value))
            &&& has_member(json, "description"@, json_string(def.description))
            &&& has_member(json, "name"@, json_string(def.name))
            &&& has_member(json, "reload"@, json_string(def.reload))
            &&& has_member(json, "secret"@, truth_text(def.secret))
            &&& has_member(json, "type"@, json_string(def.kind))
            &&& has_member(json, "value"@, shown_value(def, stored))
            &&& def.secret ==> has_member(json, "secret_form"@, json_string(form))
            &&& def.secret ==> has_member(json, "configured"@, truth_text(form != "unset"@))
            &&& def.max is Some ==> has_member(
                json,
                "maximum"@,
                signed_decimal(def.max->0 as int),
            )
            &&& def.min is Some ==> has_member(
                json,
                "minimum"@,
                signed_decimal(def.min->0 as int),
            )
            &&& def.allowed is Some ==> has_member(json, "allowed"@, array_text(def.allowed->0))
        }),
{
    let leading = lemma_leading_reads(def, form);
    let closing = lemma_closing_reads(def, form, stored);
    lemma_setting_names();
    lemma_joined_in_order(leading, closing);
    let list = leading + closing;
    lemma_ordered_members(list);
    assert(list.contains(("default"@, default_text(def.default_value))));
    assert(list.contains(("description"@, json_string(def.description))));
    assert(list.contains(("name"@, json_string(def.name))));
    assert(list.contains(("reload"@, json_string(def.reload))));
    assert(list.contains(("secret"@, truth_text(def.secret))));
    assert(list.contains(("type"@, json_string(def.kind))));
    assert(list.contains(("value"@, shown_value(def, stored))));
    assert(def.secret ==> list.contains(("secret_form"@, json_string(form))));
    assert(def.secret ==> list.contains(("configured"@, truth_text(form != "unset"@))));
    assert(def.max is Some ==> list.contains(
        ("maximum"@, signed_decimal(def.max->0 as int)),
    ));
    assert(def.min is Some ==> list.contains(
        ("minimum"@, signed_decimal(def.min->0 as int)),
    ));
    assert(def.allowed is Some ==> list.contains(("allowed"@, array_text(def.allowed->0))));
}

proof fn lemma_default_reads(json: Seq<char>, value: DefaultValue)
    requires
        has_member(json, "default"@, default_text(value@)),
    ensures
        match value {
            DefaultValue::Bool(value) => has_truth(json, "default"@, value),
            DefaultValue::Int(value) => has_integer(json, "default"@, value as int),
            DefaultValue::Str(value) => has_text(json, "default"@, value@),
            DefaultValue::List(value) => has_texts(json, "default"@, texts(value@)),
        },
{
    match value {
        DefaultValue::Int(value) => {
            lemma_has_integer(json, "default"@, value as int);
        },
        DefaultValue::List(value) => {
            lemma_array_is_list(texts(value@));
        },
        _ => {},
    }
}

proof fn lemma_setting_reads(setting: Setting)
    requires
        is_stored_well(setting),
    ensures
        tells_of(
            object_text(
                setting_members(setting.def@, setting.secret_form@, option_view(setting.stored)),
            ),
            setting,
        ),
{
    let def = setting.def@;
    let form = setting.secret_form@;
    let stored = option_view(setting.stored);
    lemma_setting_has(def, form, stored);
    let json = object_text(setting_members(def, form, stored));
    if def.max is Some {
        lemma_has_integer(json, "maximum"@, def.max->0 as int);
    }
    if def.min is Some {
        lemma_has_integer(json, "minimum"@, def.min->0 as int);
    }
    if def.allowed is Some {
        lemma_array_is_list(def.allowed->0);
    }
    lemma_default_reads(json, setting.def.default_value);
}

proof fn lemma_described_reads(settings: Seq<Setting>)
    requires
        forall|i: int| 0 <= i < settings.len() ==> is_stored_well(#[trigger] settings[i]),
    ensures
        described(settings).len() == settings.len(),
        forall|i: int|
            0 <= i < settings.len() ==> tells_of(#[trigger] described(settings)[i], settings[i]),
        is_value(list_text(described(settings))),
{
    let list = described(settings);
    assert forall|i: int| 0 <= i < list.len() implies tells_of(#[trigger] list[i], settings[i]) by {
        lemma_setting_reads(settings[i]);
    }
    assert forall|i: int| 0 <= i < list.len() implies is_value(#[trigger] list[i]) by {
        assert(tells_of(list[i], settings[i]));
    }
    lemma_list_is_value(list);
}

proof fn lemma_settings_names()
    ensures
        is_name("committed_revision"@),
        is_name("instance_id"@),
        is_name("revision"@),
        is_name("schema_version"@),
        is_name("settings"@),
        comes_first("committed_revision"@, "instance_id"@),
        comes_first("instance_id"@, "revision"@),
        comes_first("revision"@, "schema_version"@),
        comes_first("schema_version"@, "settings"@),
{
    reveal_strlit("committed_revision");
    reveal_strlit("instance_id");
    reveal_strlit("revision");
    reveal_strlit("schema_version");
    reveal_strlit("settings");
    assert(is_name("committed_revision"@));
    assert(is_name("instance_id"@));
    assert(is_name("revision"@));
    assert(is_name("schema_version"@));
    assert(is_name("settings"@));
    assert("committed_revision"@.take(0) =~= "instance_id"@.take(0));
    assert(comes_first_at("committed_revision"@, "instance_id"@, 0));
    assert("instance_id"@.take(0) =~= "revision"@.take(0));
    assert(comes_first_at("instance_id"@, "revision"@, 0));
    assert("revision"@.take(0) =~= "schema_version"@.take(0));
    assert(comes_first_at("revision"@, "schema_version"@, 0));
    assert("schema_version"@.take(1) =~= "settings"@.take(1));
    assert(comes_first_at("schema_version"@, "settings"@, 1));
}

/// An operator who asks for the settings is told of each of them, in their order, and of
/// the revision in force, beside the committed one where that is known.
pub proof fn law_operators_read_every_setting(
    revision: i64,
    committed: Option<i64>,
    schema_version: i64,
    instance_id: &str,
    settings: Vec<Setting>,
    json: String,
)
    requires
        forall|i: int| 0 <= i < settings@.len() ==> is_stored_well(#[trigger] settings@[i]),
        call_ensures(
            get_settings,
            (revision, committed, schema_version, instance_id, &settings),
            json,
        ),
    ensures
        has_integer(json@, "revision"@, revision as int),
        committed is Some ==> has_integer(json@, "committed_revision"@, committed->0 as int),
        committed is None ==> has_integer(json@, "committed_revision"@, revision as int),
        has_integer(json@, "schema_version"@, schema_version as int),
        has_text(json@, "instance_id"@, instance_id@),
        exists|list: Seq<Seq<char>>| #[trigger]
            has_member(json@, "settings"@, list_text(list)) && list.len() == settings@.len()
                && forall|i: int| 0 <= i < list.len() ==> tells_of(#[trigger] list[i], settings@[i]),
{
    lemma_settings_names();
    lemma_values();
    lemma_described_reads(settings@);
    let known = match committed {
        Some(committed) => committed,
        None => revision,
    };
    let list = seq![
        ("committed_revision"@, signed_decimal(known as int)),
        ("instance_id"@, json_string(instance_id@)),
        ("revision"@, signed_decimal(revision as int)),
        ("schema_version"@, signed_decimal(schema_version as int)),
        ("settings"@, list_text(described(settings@))),
    ];
    assert(list[0].0 == "committed_revision"@);
    assert(list[1].0 == "instance_id"@);
    assert(list[2].0 == "revision"@);
    assert(list[3].0 == "schema_version"@);
    assert(list[4].0 == "settings"@);
    assert(is_orderly(list));
    lemma_members_in_order(list);
    lemma_has_integer(json@, "committed_revision"@, known as int);
    lemma_has_integer(json@, "revision"@, revision as int);
    lemma_has_integer(json@, "schema_version"@, schema_version as int);
}

proof fn lemma_patched_names()
    ensures
        is_name("changed"@),
        is_name("revision"@),
        is_name("settings"@),
        comes_first("changed"@, "revision"@),
        comes_first("revision"@, "settings"@),
{
    reveal_strlit("changed");
    reveal_strlit("revision");
    reveal_strlit("settings");
    assert(is_name("changed"@));
    assert(is_name("revision"@));
    assert(is_name("settings"@));
    assert("changed"@.take(0) =~= "revision"@.take(0));
    assert(comes_first_at("changed"@, "revision"@, 0));
    assert("revision"@.take(0) =~= "settings"@.take(0));
    assert(comes_first_at("revision"@, "settings"@, 0));
}

/// An operator who changed settings is told which ones changed, in which revision, and what
/// they all are now.
pub proof fn law_operators_read_what_changed(
    revision: i64,
    changed: Vec<String>,
    settings: Vec<Setting>,
    json: String,
)
    requires
        forall|i: int| 0 <= i < settings@.len() ==> is_stored_well(#[trigger] settings@[i]),
        call_ensures(patch_settings, (revision, &changed, &settings), json),
    ensures
        has_integer(json@, "revision"@, revision as int),
        has_texts(json@, "changed"@, texts(changed@)),
        exists|list: Seq<Seq<char>>| #[trigger]
            has_member(json@, "settings"@, list_text(list)) && list.len() == settings@.len()
                && forall|i: int| 0 <= i < list.len() ==> tells_of(#[trigger] list[i], settings@[i]),
{
    lemma_patched_names();
    lemma_values();
    lemma_described_reads(settings@);
    lemma_array_is_list(texts(changed@));
    let list = seq![
        ("changed"@, array_text(texts(changed@))),
        ("revision"@, signed_decimal(revision as int)),
        ("settings"@, list_text(described(settings@))),
    ];
    assert(list[0].0 == "changed"@);
    assert(list[1].0 == "revision"@);
    assert(list[2].0 == "settings"@);
    assert(is_orderly(list));
    lemma_members_in_order(list);
    lemma_has_integer(json@, "revision"@, revision as int);
}

} // verus!
