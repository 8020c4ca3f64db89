//! What can be counted on of what is stored and read back.

use crate::ids::{uuid_text, Uuid};
use crate::relay::crypto::{DeviceRole, Operation, PrincipalKind, PublicKey};
use crate::relay::error::ApiResult;
use crate::relay::repo::{
    as_offset, as_stored, binds_view, checkpoint_chunk, claim_challenge, consume_ticket, expiry,
    insert_device, insert_terminal, insert_ticket, list_devices, list_terminals,
    rewrite_straddling, rows_written, stored_role, stored_state, upsert_identity, Bind,
    ChallengeClaim, Chunk, Cursor, Device, Identity, StoredChallenge, StoredTicket,
    TerminalCheckpoint, TerminalFilters, TerminalRow, TerminalState, TicketRecord,
    DEVICE_COLUMNS, TERMINAL_COLUMNS,
};
use crate::text::{decimal, is_word, lemma_words_of_spaced, option_view, texts};
use vstd::prelude::*;

verus! {

/// An identity is created once: registering its key again gives the same identity, with
/// the time of its first registration.
pub proof fn law_identities_are_created_once(
    key: PublicKey,
    now: i64,
    later: i64,
    first: (Identity, bool),
    again: (Identity, bool),
)
    requires
        call_ensures(upsert_identity, (&key, None::<i64>, now), first),
        call_ensures(upsert_identity, (&key, Some(first.0.created_at), later), again),
    ensures
        first.1,
        !again.1,
        first.0.created_at == now,
        again.0.created_at == now,
        again.0.identity_id@ == first.0.identity_id@,
{
}

/// A new device belongs to the identity that registered it, has the key, the name and the
/// role that it was registered with, was not seen yet and is not revoked.
pub proof fn law_new_devices_are_as_registered(
    device_id: Uuid,
    identity_id: &str,
    key: PublicKey,
    name: &str,
    role: DeviceRole,
    now: i64,
    device: Device,
    fingerprint: String,
)
    requires
        call_ensures(insert_device, (device_id, identity_id, &key, name, role, now), device),
        call_ensures(PublicKey::fingerprint, (&key,), fingerprint),
    ensures
        device.device_id == device_id,
        device.identity_id@ == identity_id@,
        device.algorithm@ == key.algorithm@,
        device.public_key@ == key.bytes@,
        device.key_fingerprint@ == fingerprint@,
        device.name@ == name@,
        device.role == role,
        device.created_at == now,
        device.last_seen_at is None,
        device.revoked_at is None,
{
}

/// A new terminal is open and empty, and otherwise what its publisher says.
pub proof fn law_new_terminals_are_open_and_empty(
    terminal_id: Uuid,
    device_id: Uuid,
    identity_id: &str,
    local_ref: &str,
    label: &str,
    cols: Option<u32>,
    rows: Option<u32>,
    term: Option<String>,
    process_label: Option<String>,
    accepts_input: bool,
    now: i64,
    row: TerminalRow,
)
    requires
        call_ensures(
            insert_terminal,
            (
                terminal_id,
                device_id,
                identity_id,
                local_ref,
                label,
                cols,
                rows,
                &term,
                &process_label,
                accepts_input,
                now,
            ),
            row,
        ),
    ensures
        row.state == TerminalState::Open,
        row.durable_offset == 0,
        row.earliest_offset == 0,
        row.closed_at is None,
        row.close_reason is None,
        row.terminal_id == terminal_id,
        row.device_id == device_id,
        row.identity_id@ == identity_id@,
        row.local_ref@ == local_ref@,
        row.label@ == label@,
        row.cols == cols,
        row.rows == rows,
        option_view(row.term) == option_view(term),
        option_view(row.process_label) == option_view(process_label),
        row.accepts_input == accepts_input,
        row.created_at == now,
        row.last_activity_at == now,
{
    let shown = row@;
    assert(shown.close_reason is None);
}

/// A challenge is claimed if and only if it is there, was not claimed before, has not
/// expired and is for a known operation; it is claimed as it was stored, and an attempt
/// uses it up.
pub proof fn law_challenges_are_claimed_as_stored(
    stored: StoredChallenge,
    challenge_id: &str,
    now: i64,
    result: (ChallengeClaim, bool),
    missing: (ChallengeClaim, bool),
)
    requires
        call_ensures(claim_challenge, (Some(stored), challenge_id, now), result),
        call_ensures(claim_challenge, (None::<StoredChallenge>, challenge_id, now), missing),
    ensures
        missing.0 is Unknown,
        !missing.1,
        result.1 <==> !stored.consumed,
        result.0 is AlreadyConsumed <==> stored.consumed,
        result.0 is Expired <==> !stored.consumed && stored.expires_at < now,
        stored.operation@ == "register_identity"@ || stored.operation@ == "authenticate_identity"@
            || stored.operation@ == "register_device"@ || stored.operation@
            == "authenticate_device"@ ==> (result.0 is Claimed <==> !stored.consumed && now
            <= stored.expires_at),
        (result.0 matches ChallengeClaim::Claimed(record) ==> {
            &&& record.challenge_id@ == challenge_id@
            &&& stored.operation@ == (match record.operation {
                Operation::RegisterIdentity => "register_identity"@,
                Operation::AuthenticateIdentity => "authenticate_identity"@,
                Operation::RegisterDevice => "register_device"@,
                Operation::AuthenticateDevice => "authenticate_device"@,
            })
            &&& record.algorithm@ == stored.algorithm@
            &&& record.public_key@ == stored.public_key@
            &&& record.key_fingerprint@ == stored.key_fingerprint@
            &&& option_view(record.owner_identity_id) == option_view(stored.owner_identity_id)
            &&& option_view(record.device_key_fingerprint) == option_view(
                stored.device_key_fingerprint,
            )
            &&& record.challenge@ == stored.challenge@
            &&& record.expires_at == stored.expires_at
        }),
{
    if let ChallengeClaim::Claimed(record) = result.0 {
        assert(result.0@->Claimed_0 == record@);
    }
}

/// A ticket gives back, on its path and until it expires, whom it was made for, with the
/// scopes that it was made with; and only once.
pub proof fn law_tickets_give_back_their_authority(
    kind: PrincipalKind,
    principal_id: &str,
    identity_id: &str,
    path: &str,
    other: &str,
    scopes: Vec<String>,
    expires_at: i64,
    now: i64,
    row: StoredTicket,
    used: (Option<TicketRecord>, bool),
    elsewhere: (Option<TicketRecord>, bool),
)
    requires
        forall|i: int| 0 <= i < scopes@.len() ==> is_word((#[trigger] scopes@[i])@),
        other@ != path@,
        call_ensures(
            insert_ticket,
            (kind, principal_id, identity_id, path, &scopes, expires_at),
            row,
        ),
        call_ensures(consume_ticket, (Some(row), path, now), used),
        call_ensures(consume_ticket, (Some(row), other, now), elsewhere),
    ensures
        used.1,
        used.0 is Some <==> now <= expires_at,
        (used.0 matches Some(record) ==> {
            &&& record.principal_kind == kind
            &&& record.principal_id@ == principal_id@
            &&& record.identity_id@ == identity_id@
            &&& texts(record.scopes@) == texts(scopes@)
        }),
        elsewhere.1,
        elsewhere.0 is None,
{
    assert forall|i: int| 0 <= i < texts(scopes@).len() implies is_word(
        #[trigger] texts(scopes@)[i],
    ) by {
        assert(is_word(scopes@[i]@));
    }
    lemma_words_of_spaced(texts(scopes@));
    reveal_strlit("identity");
    reveal_strlit("device");
    assert("identity"@.len() == 8 && "device"@.len() == 6);
    if let Some(record) = used.0 {
        assert(option_view(used.0)->0 == record@);
    }
}

/// What expires after so many seconds expires then, to the millisecond.
pub proof fn law_expiry_is_in_seconds(now: i64, seconds: i64, expires: i64)
    requires
        i64::MIN <= now + seconds * 1000 <= i64::MAX,
        call_ensures(expiry, (now, seconds), expires),
    ensures
        expires - now == seconds * 1000,
{
}

/// Offsets are stored as they are, as far as storage reaches.
pub proof fn law_offsets_read_back(offset: u64, stored: i64, again: u64)
    requires
        offset <= i64::MAX,
        call_ensures(as_stored, (offset,), stored),
        call_ensures(as_offset, (stored,), again),
    ensures
        stored == offset,
        again == offset,
{
}

/// A checkpoint appends exactly the bytes that it carries, from where they begin up to
/// what is durable then; one without bytes appends nothing.
pub proof fn law_checkpoints_append_what_they_carry(
    checkpoint: TerminalCheckpoint,
    chunk: Option<Chunk>,
)
    requires
        checkpoint.chunk_start <= i64::MAX,
        checkpoint.durable_offset <= i64::MAX,
        call_ensures(checkpoint_chunk, (&checkpoint,), chunk),
    ensures
        chunk is Some <==> checkpoint.chunk@.len() > 0,
        (chunk matches Some(chunk) ==> {
            &&& chunk.bytes@ == checkpoint.chunk@
            &&& chunk.start == checkpoint.chunk_start
            &&& chunk.end == checkpoint.durable_offset
        }),
{
    if let Some(chunk) = chunk {
        assert(option_view(Some(chunk))->0 == chunk@);
    }
}

/// A chunk that eviction cuts into keeps its end, and the bytes from the cut on; nothing is
/// left of one that ends before it.
pub proof fn law_evicted_chunks_keep_their_rest(
    chunk: Chunk,
    earliest: i64,
    rewritten: Option<Chunk>,
)
    requires
        chunk.start <= earliest,
        chunk.end - chunk.start == chunk.bytes@.len(),
        call_ensures(rewrite_straddling, (&chunk, earliest), rewritten),
    ensures
        rewritten is Some <==> earliest < chunk.end,
        (rewritten matches Some(rest) ==> {
            &&& rest.start == earliest
            &&& rest.end == chunk.end
            &&& rest.bytes@.len() == chunk.end - earliest
            &&& forall|i: int|
                0 <= i < rest.bytes@.len() ==> #[trigger] rest.bytes@[i] == chunk.bytes@[earliest
                    - chunk.start + i]
        }),
{
    if let Some(rest) = rewritten {
        assert(option_view(Some(rest))->0 == rest@);
    }
}

/// The terminal's own row is always written; a chunk that is appended is one more, one
/// that is rewritten is two more, and each that is evicted one more.
pub proof fn law_rows_written_add_up(
    appended: bool,
    evicted: u32,
    rewritten: bool,
    none: u64,
    rows: u64,
)
    requires
        call_ensures(rows_written, (false, 0, false), none),
        call_ensures(rows_written, (appended, evicted, rewritten), rows),
    ensures
        none == 1,
        rows == none + evicted + (if appended {
            1int
        } else {
            0
        }) + (if rewritten {
            2int
        } else {
            0
        }),
{
}

/// What cannot be read as a role is a publisher's, and what cannot be read as a state is
/// closed.
pub proof fn law_unknown_words_are_read_safely(
    word: &str,
    role: DeviceRole,
    state: TerminalState,
)
    requires
        call_ensures(stored_role, (word,), role),
        call_ensures(stored_state, (word,), state),
    ensures
        role == DeviceRole::Client <==> word@ == "client"@,
        role == DeviceRole::Both <==> word@ == "both"@,
        state == TerminalState::Open <==> word@ == "open"@,
{
    reveal_strlit("publisher");
    reveal_strlit("client");
    reveal_strlit("both");
    assert("publisher"@.len() == 9 && "client"@.len() == 6 && "both"@.len() == 4);
    assert(DeviceRole::Client.word() == "client"@ && DeviceRole::Both.word() == "both"@
        && DeviceRole::Publisher.word() == "publisher"@);
}

/// A cursor that is handed out is understood when it comes back.
pub proof fn law_cursors_read_back(
    timestamp: &str,
    id: &str,
    raw: String,
    text: &str,
    result: ApiResult<Cursor>,
)
    requires
        !timestamp@.contains('|'),
        call_ensures(Cursor::encode, (timestamp, id), raw),
        text@ == raw@,
        call_ensures(Cursor::decode, (text,), result),
    ensures
        result matches Ok(cursor) && cursor.timestamp@ == timestamp@ && cursor.id@ == id@,
{
    if let Ok(cursor) = result {
        assert(cursor@.timestamp == timestamp@ && cursor@.id == id@);
    }
}

proof fn lemma_small_numbers()
    ensures
        decimal(2) == "2"@,
        decimal(3) == "3"@,
        decimal(4) == "4"@,
        decimal(5) == "5"@,
        decimal(6) == "6"@,
{
    reveal_with_fuel(decimal, 2);
    reveal_strlit("2");
    reveal_strlit("3");
    reveal_strlit("4");
    reveal_strlit("5");
    reveal_strlit("6");
    assert(decimal(2) =~= "2"@);
    assert(decimal(3) =~= "3"@);
    assert(decimal(4) =~= "4"@);
    assert(decimal(5) =~= "5"@);
    assert(decimal(6) =~= "6"@);
}

/// The terminals that are listed are those of the identity and, where that was asked for,
/// of one device or in one state: every value stands where the query has its number. They
/// come in the order of their creation, from behind the cursor on, up to the limit.
pub proof fn law_terminals_are_listed_by_their_owner(
    identity_id: &str,
    filters: TerminalFilters,
    cursor: Option<Cursor>,
    limit: i64,
    query: (String, Vec<Bind>),
)
    requires
        call_ensures(list_terminals, (identity_id, &filters, &cursor, limit), query),
    ensures
        ({
            let base = "SELECT "@ + TERMINAL_COLUMNS@
                + " FROM terminals WHERE identity_id = ?1"@;
            let binds = binds_view(query.1@);
            &&& binds[0] == Bind::Text(identity_id@)
            &&& binds.last() == Bind::<Seq<char>>::Number(limit)
            &&& filters.device_id is None && filters.state is None && cursor is None ==> {
                &&& query.0@ == base + " ORDER BY created_at, terminal_id LIMIT ?2"@
                &&& binds.len() == 2
            }
            &&& filters.device_id is Some && filters.state is None && cursor is None ==> {
                &&& query.0@ == base + " AND device_id = ?2"@
                    + " ORDER BY created_at, terminal_id LIMIT ?3"@
                &&& binds.len() == 3
                &&& binds[1] == Bind::Text(uuid_text((filters.device_id->0).value))
            }
            &&& filters.device_id is None && filters.state is Some && cursor is None ==> {
                &&& query.0@ == base + " AND state = ?2"@
                    + " ORDER BY created_at, terminal_id LIMIT ?3"@
                &&& binds.len() == 3
                &&& filters.state->0 == TerminalState::Open ==> binds[1] == Bind::Text("open"@)
                &&& filters.state->0 == TerminalState::Closed ==> binds[1] == Bind::Text("closed"@)
            }
            &&& filters.device_id is None && filters.state is None && cursor is Some ==> {
                &&& query.0@ == base
                    + " AND (created_at > ?2 OR (created_at = ?2 AND terminal_id > ?3))"@
                    + " ORDER BY created_at, terminal_id LIMIT ?4"@
                &&& binds.len() == 4
                &&& binds[1] == Bind::Text((cursor->0).timestamp@)
                &&& binds[2] == Bind::Text((cursor->0).id@)
            }
            &&& filters.device_id is Some && filters.state is Some && cursor is Some ==> {
                &&& query.0@ == base + " AND device_id = ?2"@ + " AND state = ?3"@
                    + " AND (created_at > ?4 OR (created_at = ?4 AND terminal_id > ?5))"@
                    + " ORDER BY created_at, terminal_id LIMIT ?6"@
                &&& binds.len() == 6
                &&& binds[1] == Bind::Text(uuid_text((filters.device_id->0).value))
                &&& filters.state->0 == TerminalState::Open ==> binds[2] == Bind::Text("open"@)
                &&& filters.state->0 == TerminalState::Closed ==> binds[2] == Bind::Text("closed"@)
                &&& binds[3] == Bind::Text((cursor->0).timestamp@)
                &&& binds[4] == Bind::Text((cursor->0).id@)
            }
        }),
{
    lemma_small_numbers();
    let base = "SELECT "@ + TERMINAL_COLUMNS@ + " FROM terminals WHERE identity_id = ?1"@;
    assert forall|front: Seq<char>| #[trigger]
        (front + " AND device_id = ?"@) + "2"@ == front + " AND device_id = ?2"@ by {
        reveal_strlit(" AND device_id = ?");
        reveal_strlit(" AND device_id = ?2");
        reveal_strlit("2");
        assert((front + " AND device_id = ?"@) + "2"@ =~= front + " AND device_id = ?2"@);
    }
    assert forall|front: Seq<char>| #[trigger] (front + " AND state = ?"@) + "2"@ == front
        + " AND state = ?2"@ by {
        reveal_strlit(" AND state = ?");
        reveal_strlit(" AND state = ?2");
        reveal_strlit("2");
        assert((front + " AND state = ?"@) + "2"@ =~= front + " AND state = ?2"@);
    }
    assert forall|front: Seq<char>| #[trigger] (front + " AND state = ?"@) + "3"@ == front
        + " AND state = ?3"@ by {
        reveal_strlit(" AND state = ?");
        reveal_strlit(" AND state = ?3");
        reveal_strlit("3");
        assert((front + " AND state = ?"@) + "3"@ =~= front + " AND state = ?3"@);
    }
    lemma_limits();
    lemma_behind();
}

proof fn lemma_limits()
    ensures
        forall|front: Seq<char>| #[trigger]
            (front + " ORDER BY created_at, terminal_id LIMIT ?"@) + "2"@ == front
                + " ORDER BY created_at, terminal_id LIMIT ?2"@,
        forall|front: Seq<char>| #[trigger]
            (front + " ORDER BY created_at, terminal_id LIMIT ?"@) + "3"@ == front
                + " ORDER BY created_at, terminal_id LIMIT ?3"@,
        forall|front: Seq<char>| #[trigger]
            (front + " ORDER BY created_at, terminal_id LIMIT ?"@) + "4"@ == front
                + " ORDER BY created_at, terminal_id LIMIT ?4"@,
        forall|front: Seq<char>| #[trigger]
            (front + " ORDER BY created_at, terminal_id LIMIT ?"@) + "6"@ == front
                + " ORDER BY created_at, terminal_id LIMIT ?6"@,
{
    reveal_strlit(" ORDER BY created_at, terminal_id LIMIT ?");
    reveal_strlit(" ORDER BY created_at, terminal_id LIMIT ?2");
    reveal_strlit(" ORDER BY created_at, terminal_id LIMIT ?3");
    reveal_strlit(" ORDER BY created_at, terminal_id LIMIT ?4");
    reveal_strlit(" ORDER BY created_at, terminal_id LIMIT ?6");
    reveal_strlit("2");
    reveal_strlit("3");
    reveal_strlit("4");
    reveal_strlit("6");
    let limit = " ORDER BY created_at, terminal_id LIMIT ?"@;
    assert forall|front: Seq<char>| #[trigger] (front + limit) + "2"@ == front
        + " ORDER BY created_at, terminal_id LIMIT ?2"@ by {
        assert((front + limit) + "2"@ =~= front + " ORDER BY created_at, terminal_id LIMIT ?2"@);
    }
    assert forall|front: Seq<char>| #[trigger] (front + limit) + "3"@ == front
        + " ORDER BY created_at, terminal_id LIMIT ?3"@ by {
        assert((front + limit) + "3"@ =~= front + " ORDER BY created_at, terminal_id LIMIT ?3"@);
    }
    assert forall|front: Seq<char>| #[trigger] (front + limit) + "4"@ == front
        + " ORDER BY created_at, terminal_id LIMIT ?4"@ by {
        assert((front + limit) + "4"@ =~= front + " ORDER BY created_at, terminal_id LIMIT ?4"@);
    }
    assert forall|front: Seq<char>| #[trigger] (front + limit) + "6"@ == front
        + " ORDER BY created_at, terminal_id LIMIT ?6"@ by {
        assert((front + limit) + "6"@ =~= front + " ORDER BY created_at, terminal_id LIMIT ?6"@);
    }
}

proof fn lemma_behind()
    ensures
        forall|front: Seq<char>|
            #![trigger front + " AND (created_at > ?"@]
            front + " AND (created_at > ?"@ + "2"@ + " OR (created_at = ?"@ + "2"@
                + " AND terminal_id > ?"@ + "3"@ + "))"@ == front
                + " AND (created_at > ?2 OR (created_at = ?2 AND terminal_id > ?3))"@,
        forall|front: Seq<char>|
            #![trigger front + " AND (created_at > ?"@]
            front + " AND (created_at > ?"@ + "4"@ + " OR (created_at = ?"@ + "4"@
                + " AND terminal_id > ?"@ + "5"@ + "))"@ == front
                + " AND (created_at > ?4 OR (created_at = ?4 AND terminal_id > ?5))"@,
{
    reveal_strlit(" AND (created_at > ?");
    reveal_strlit(" OR (created_at = ?");
    reveal_strlit(" AND terminal_id > ?");
    reveal_strlit("))");
    reveal_strlit("2");
    reveal_strlit("3");
    reveal_strlit("4");
    reveal_strlit("5");
    reveal_strlit(" AND (created_at > ?2 OR (created_at = ?2 AND terminal_id > ?3))");
    reveal_strlit(" AND (created_at > ?4 OR (created_at = ?4 AND terminal_id > ?5))");
    assert forall|front: Seq<char>|
        #![trigger front + " AND (created_at > ?"@]
        front + " AND (created_at > ?"@ + "2"@ + " OR (created_at = ?"@ + "2"@
            + " AND terminal_id > ?"@ + "3"@ + "))"@ == front
            + " AND (created_at > ?2 OR (created_at = ?2 AND terminal_id > ?3))"@ by {
        assert(front + " AND (created_at > ?"@ + "2"@ + " OR (created_at = ?"@ + "2"@
            + " AND terminal_id > ?"@ + "3"@ + "))"@ =~= front
            + " AND (created_at > ?2 OR (created_at = ?2 AND terminal_id > ?3))"@);
    }
    assert forall|front: Seq<char>|
        #![trigger front + " AND (created_at > ?"@]
        front + " AND (created_at > ?"@ + "4"@ + " OR (created_at = ?"@ + "4"@
            + " AND terminal_id > ?"@ + "5"@ + "))"@ == front
            + " AND (created_at > ?4 OR (created_at = ?4 AND terminal_id > ?5))"@ by {
        assert(front + " AND (created_at > ?"@ + "4"@ + " OR (created_at = ?"@ + "4"@
            + " AND terminal_id > ?"@ + "5"@ + "))"@ =~= front
            + " AND (created_at > ?4 OR (created_at = ?4 AND terminal_id > ?5))"@);
    }
}

/// The devices that are listed are those of the identity that are not revoked, in the order
/// of their creation, from behind the cursor on, up to the limit.
pub proof fn law_devices_are_listed_by_their_owner(
    identity_id: &str,
    cursor: Option<Cursor>,
    limit: i64,
    query: (String, Vec<Bind>),
)
    requires
        call_ensures(list_devices, (identity_id, &cursor, limit), query),
    ensures
        ({
            let base = "SELECT "@ + DEVICE_COLUMNS@
                + " FROM devices WHERE identity_id = ?1 AND revoked_at IS NULL"@;
            let binds = binds_view(query.1@);
            &&& binds[0] == Bind::Text(identity_id@)
            &&& cursor is None ==> {
                &&& query.0@ == base + " ORDER BY created_at, device_id LIMIT ?2"@
                &&& binds.len() == 2
                &&& binds[1] == Bind::<Seq<char>>::Number(limit)
            }
            &&& cursor is Some ==> {
                &&& query.0@ == base
                    + " AND (created_at > ?2 OR (created_at = ?2 AND device_id > ?3)) ORDER BY created_at, device_id LIMIT ?4"@
                &&& binds.len() == 4
                &&& binds[1] == Bind::Text((cursor->0).timestamp@)
                &&& binds[2] == Bind::Text((cursor->0).id@)
                &&& binds[3] == Bind::<Seq<char>>::Number(limit)
            }
        }),
{
}

} // verus!
