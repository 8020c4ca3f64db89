//! Durable state: what is kept, what a stored row means, and what is written next.
//!
//! The database itself belongs to the program around the library. It runs the queries
//! and hands the rows in; what a row comes to, and what is to be written because of it,
//! is decided here. Points in time are milliseconds since the epoch.

use crate::encoding;
use crate::encoding::{b64_decode, b64_encode, base64url, decoded};
use crate::ids::{uuid_text, Uuid};
use crate::relay::crypto::{DeviceRole, KeyModel, Operation, PrincipalKind, PublicKey};
use crate::relay::error::{outcome, ApiError, ApiResult, Refusal};
use crate::relay::metrics::wrapped;
use crate::text;
use crate::text::{
    decimal, is_word, lemma_words_of_spaced, option_view, spaced, split_at_first, texts, words_of,
};
use vstd::prelude::*;
use vstd::utf8::*;

verus! {

/// An offset as it is stored: the signed number with the same bits.
pub fn as_stored(offset: u64) -> (stored: i64)
    ensures
        stored == wrapped(offset as int),
{
    if offset <= 0x7fff_ffff_ffff_ffff {
        offset as i64
    } else {
        let over: u64 = offset - 0x8000_0000_0000_0000;
        i64::MIN + over as i64
    }
}

/// A stored offset as it is used: never below zero.
pub open spec fn read_offset(stored: i64) -> nat {
    if stored < 0 {
        0
    } else {
        stored as nat
    }
}

/// A stored offset as it is used: never below zero.
pub fn as_offset(stored: i64) -> (offset: u64)
    ensures
        offset == read_offset(stored),
{
    if stored < 0 {
        0
    } else {
        stored as u64
    }
}

/// A registered identity.
#[derive(Debug, Clone)]
pub struct Identity {
    pub identity_id: String,
    pub created_at: i64,
}

/// Registers a key, or finds the identity that it already is. `existing` is when the
/// identity was created, if it is registered. Returns the identity, and whether it has
/// to be inserted. Registering the same key again is no error and gives the same
/// identity.
pub fn upsert_identity(key: &PublicKey, existing: Option<i64>, now: i64) -> (result: (
    Identity,
    bool,
))
    ensures
        result.0.identity_id@ == crate::publisher::crypto::fingerprint_text(
            key.algorithm@,
            key.bytes@,
        ),
        result.1 == (existing is None),
        result.0.created_at == (match existing {
            Some(created_at) => created_at,
            None => now,
        }),
{
    let identity_id = key.fingerprint();
    match existing {
        Some(created_at) => (Identity { identity_id, created_at }, false),
        None => (Identity { identity_id, created_at: now }, true),
    }
}

/// A registered device.
#[derive(Debug, Clone)]
pub struct Device<S = String, B = Vec<u8>> {
    pub device_id: Uuid,
    pub identity_id: S,
    pub algorithm: S,
    pub public_key: B,
    pub key_fingerprint: S,
    pub name: S,
    pub created_at: i64,
    pub last_seen_at: Option<i64>,
    pub revoked_at: Option<i64>,
    pub role: DeviceRole,
}

impl View for Device {
    type V = Device<Seq<char>, Seq<u8>>;

    open spec fn view(&self) -> Device<Seq<char>, Seq<u8>> {
        Device {
            device_id: self.device_id,
            identity_id: self.identity_id@,
            algorithm: self.algorithm@,
            public_key: self.public_key@,
            key_fingerprint: self.key_fingerprint@,
            name: self.name@,
            created_at: self.created_at,
            last_seen_at: self.last_seen_at,
            revoked_at: self.revoked_at,
            role: self.role,
        }
    }
}

/// The role that a stored word means. A row without a known role is a publisher's: roles
/// came later than devices.
pub fn stored_role(word: &str) -> (role: DeviceRole)
    ensures
        role.word() == word@ || (role == DeviceRole::Publisher && forall|other: DeviceRole|
            word@ != #[trigger] other.word()),
{
    match DeviceRole::parse(word) {
        Some(role) => role,
        None => DeviceRole::Publisher,
    }
}

/// A new device for a key.
pub fn insert_device(
    device_id: Uuid,
    identity_id: &str,
    key: &PublicKey,
    name: &str,
    role: DeviceRole,
    now: i64,
) -> (device: Device)
    ensures
        device@ == (Device {
            device_id,
            identity_id: identity_id@,
            algorithm: key.algorithm@,
            public_key: key.bytes@,
            key_fingerprint: crate::publisher::crypto::fingerprint_text(
                key.algorithm@,
                key.bytes@,
            ),
            name: name@,
            created_at: now,
            last_seen_at: None,
            revoked_at: None,
            role,
        }),
{
    let public_key = encoding::copy_of(key.bytes.as_slice(), 0, key.bytes.len());
    assert(public_key@ =~= key.bytes@);
    Device {
        device_id,
        identity_id: identity_id.to_owned(),
        algorithm: key.algorithm.as_str().to_owned(),
        public_key,
        key_fingerprint: key.fingerprint(),
        name: name.to_owned(),
        created_at: now,
        last_seen_at: None,
        revoked_at: None,
        role,
    }
}

/// Whether a terminal is being published.
#[derive(Debug, Clone, Copy, PartialEq, Eq, Structural)]
pub enum TerminalState {
    Open,
    Closed,
}

impl TerminalState {
    /// The word that stands for the state in requests and in the database.
    pub open spec fn word(self) -> Seq<char> {
        match self {
            TerminalState::Open => "open"@,
            TerminalState::Closed => "closed"@,
        }
    }

    pub fn as_str(&self) -> (word: &'static str)
        ensures
            word@ == self.word(),
    {
        match self {
            TerminalState::Open => "open",
            TerminalState::Closed => "closed",
        }
    }

    pub fn parse(s: &str) -> (state: Option<Self>)
        ensures
            state is Some ==> s@ == state->0.word(),
            state is None ==> forall|other: TerminalState| s@ != #[trigger] other.word(),
    {
        if text::same(s, "open") {
            Some(TerminalState::Open)
        } else if text::same(s, "closed") {
            Some(TerminalState::Closed)
        } else {
            None
        }
    }
}

/// Different states have different words, so a stored state reads back as itself.
pub proof fn law_state_words_differ(a: TerminalState, b: TerminalState)
    requires
        a.word() == b.word(),
    ensures
        a == b,
{
    reveal_strlit("open");
    reveal_strlit("closed");
    assert("open"@.len() == 4 && "closed"@.len() == 6);
}

/// The state that a stored word means: anything unknown is closed.
pub fn stored_state(word: &str) -> (state: TerminalState)
    ensures
        state == TerminalState::Open <==> word@ == "open"@,
{
    proof {
        law_state_words_differ(TerminalState::Open, TerminalState::Open);
        reveal_strlit("open");
        reveal_strlit("closed");
        assert("open"@.len() == 4 && "closed"@.len() == 6);
        assert(TerminalState::Open.word() == "open"@);
    }
    match TerminalState::parse(word) {
        Some(state) => state,
        None => TerminalState::Closed,
    }
}

/// A terminal as it is stored.
#[derive(Debug, Clone)]
pub struct TerminalRow<S = String> {
    pub terminal_id: Uuid,
    pub device_id: Uuid,
    pub identity_id: S,
    pub label: S,
    pub local_ref: S,
    pub state: TerminalState,
    pub cols: Option<u32>,
    pub rows: Option<u32>,
    pub term: Option<S>,
    pub process_label: Option<S>,
    pub accepts_input: bool,
    pub created_at: i64,
    pub last_activity_at: i64,
    pub closed_at: Option<i64>,
    pub close_reason: Option<S>,
    pub durable_offset: u64,
    pub earliest_offset: u64,
}

impl View for TerminalRow {
    type V = TerminalRow<Seq<char>>;

    open spec fn view(&self) -> TerminalRow<Seq<char>> {
        TerminalRow {
            terminal_id: self.terminal_id,
            device_id: self.device_id,
            identity_id: self.identity_id@,
            label: self.label@,
            local_ref: self.local_ref@,
            state: self.state,
            cols: self.cols,
            rows: self.rows,
            term: option_view(self.term),
            process_label: option_view(self.process_label),
            accepts_input: self.accepts_input,
            created_at: self.created_at,
            last_activity_at: self.last_activity_at,
            closed_at: self.closed_at,
            close_reason: option_view(self.close_reason),
            durable_offset: self.durable_offset,
            earliest_offset: self.earliest_offset,
        }
    }
}

/// A new terminal: open, with nothing in it.
pub fn insert_terminal(
    terminal_id: Uuid,
    device_id: Uuid,
    identity_id: &str,
    local_ref: &str,
    label: &str,
    cols: Option<u32>,
    rows: Option<u32>,
    term: &Option<String>,
    process_label: &Option<String>,
    accepts_input: bool,
    now: i64,
) -> (row: TerminalRow)
    ensures
        row@ == (TerminalRow {
            terminal_id,
            device_id,
            identity_id: identity_id@,
            label: label@,
            local_ref: local_ref@,
            state: TerminalState::Open,
            cols,
            rows,
            term: option_view(*term),
            process_label: option_view(*process_label),
            accepts_input,
            created_at: now,
            last_activity_at: now,
            closed_at: None,
            close_reason: None,
            durable_offset: 0,
            earliest_offset: 0,
        }),
{
    TerminalRow {
        terminal_id,
        device_id,
        identity_id: identity_id.to_owned(),
        label: label.to_owned(),
        local_ref: local_ref.to_owned(),
        state: TerminalState::Open,
        cols,
        rows,
        term: text::copy_option(term),
        process_label: text::copy_option(process_label),
        accepts_input,
        created_at: now,
        last_activity_at: now,
        closed_at: None,
        close_reason: None,
        durable_offset: 0,
        earliest_offset: 0,
    }
}

/// Which terminals to list.
#[derive(Debug)]
pub struct TerminalFilters {
    pub device_id: Option<Uuid>,
    pub state: Option<TerminalState>,
}

/// One value of a query.
#[derive(Debug)]
pub enum Bind<S = String> {
    Text(S),
    Number(i64),
}

impl View for Bind {
    type V = Bind<Seq<char>>;

    open spec fn view(&self) -> Bind<Seq<char>> {
        match self {
            Bind::Text(text) => Bind::Text(text@),
            Bind::Number(number) => Bind::Number(*number),
        }
    }
}

/// The values in a list, over sequences.
pub open spec fn binds_view(list: Seq<Bind>) -> Seq<Bind<Seq<char>>> {
    Seq::new(list.len(), |i: int| list[i]@)
}

/// A query and its values.
pub struct QueryModel {
    pub sql: Seq<char>,
    pub binds: Seq<Bind<Seq<char>>>,
}

impl QueryModel {
    /// The query with one more condition, whose value takes the next place.
    pub open spec fn and(self, condition: Seq<char>, bind: Bind<Seq<char>>) -> QueryModel {
        QueryModel {
            sql: self.sql + condition + decimal(self.binds.len() + 1),
            binds: self.binds.push(bind),
        }
    }
}

/// The columns of a terminal, in the order in which they are read.
pub const TERMINAL_COLUMNS: &'static str =
    "terminal_id, device_id, identity_id, label, local_ref, state, cols, rows, term, process_label, created_at, last_activity_at, closed_at, close_reason, durable_offset, earliest_offset, accepts_input";

/// The query that lists an identity's terminals: one page, in the order of their
/// creation, from behind the cursor on.
pub open spec fn terminals_query(
    identity_id: Seq<char>,
    device_id: Option<Uuid>,
    state: Option<TerminalState>,
    cursor: Option<Cursor<Seq<char>>>,
    limit: i64,
) -> QueryModel {
    let base = QueryModel {
        sql: "SELECT "@ + TERMINAL_COLUMNS@ + " FROM terminals WHERE identity_id = ?1"@,
        binds: seq![Bind::Text(identity_id)],
    };
    let by_device = match device_id {
        Some(id) => base.and(" AND device_id = ?"@, Bind::Text(uuid_text(id.value))),
        None => base,
    };
    let by_state = match state {
        Some(state) => by_device.and(" AND state = ?"@, Bind::Text(state.word())),
        None => by_device,
    };
    let behind = match cursor {
        Some(cursor) => {
            let at = decimal(by_state.binds.len() + 1);
            QueryModel {
                sql: by_state.sql + " AND (created_at > ?"@ + at + " OR (created_at = ?"@ + at
                    + " AND terminal_id > ?"@ + decimal(by_state.binds.len() + 2) + "))"@,
                binds: by_state.binds.push(Bind::Text(cursor.timestamp)).push(
                    Bind::Text(cursor.id),
                ),
            }
        },
        None => by_state,
    };
    behind.and(" ORDER BY created_at, terminal_id LIMIT ?"@, Bind::Number(limit))
}

fn add_condition(sql: String, binds: &mut Vec<Bind>, condition: &str, bind: Bind) -> (longer: String)
    requires
        old(binds)@.len() < 10,
    ensures
        longer@ == sql@ + condition@ + decimal(old(binds)@.len() + 1),
        binds_view(final(binds)@) == binds_view(old(binds)@).push(bind@),
        final(binds)@.len() == old(binds)@.len() + 1,
{
    let ghost before = binds_view(binds@);
    binds.push(bind);
    assert(binds_view(binds@) =~= before.push(bind@));
    sql.concat(condition).concat(text::decimal_of(binds.len() as u64).as_str())
}

/// Builds the query that lists an identity's terminals.
pub fn list_terminals(
    identity_id: &str,
    filters: &TerminalFilters,
    cursor: &Option<Cursor>,
    limit: i64,
) -> (query: (String, Vec<Bind>))
    ensures
        terminals_query(
            identity_id@,
            filters.device_id,
            filters.state,
            option_view(*cursor),
            limit,
        ) == (QueryModel { sql: query.0@, binds: binds_view(query.1@) }),
{
    let sql = "SELECT ".to_owned().concat(TERMINAL_COLUMNS).concat(
        " FROM terminals WHERE identity_id = ?1",
    );
    let mut binds: Vec<Bind> = Vec::new();
    binds.push(Bind::Text(identity_id.to_owned()));
    assert(binds_view(binds@) =~= seq![Bind::Text(identity_id@)]);
    let ghost base = QueryModel { sql: sql@, binds: binds_view(binds@) };
    let sql = match filters.device_id {
        Some(id) => add_condition(sql, &mut binds, " AND device_id = ?", Bind::Text(id.to_text())),
        None => sql,
    };
    let sql = match filters.state {
        Some(state) => add_condition(
            sql,
            &mut binds,
            " AND state = ?",
            Bind::Text(state.as_str().to_owned()),
        ),
        None => sql,
    };
    let ghost by_state = QueryModel { sql: sql@, binds: binds_view(binds@) };
    let sql = match cursor {
        Some(cursor) => {
            binds.push(Bind::Text(cursor.timestamp.as_str().to_owned()));
            let at = text::decimal_of(binds.len() as u64);
            binds.push(Bind::Text(cursor.id.as_str().to_owned()));
            let id_at = text::decimal_of(binds.len() as u64);
            assert(binds_view(binds@) =~= by_state.binds.push(Bind::Text(cursor.timestamp@)).push(
                Bind::Text(cursor.id@),
            ));
            sql.concat(" AND (created_at > ?").concat(at.as_str()).concat(
                " OR (created_at = ?",
            ).concat(at.as_str()).concat(" AND terminal_id > ?").concat(id_at.as_str()).concat("))")
        },
        None => sql,
    };
    let sql = add_condition(
        sql,
        &mut binds,
        " ORDER BY created_at, terminal_id LIMIT ?",
        Bind::Number(limit),
    );
    (sql, binds)
}

/// The columns of a device, in the order in which they are read.
pub const DEVICE_COLUMNS: &'static str =
    "device_id, identity_id, algorithm, public_key, key_fingerprint, name, created_at, last_seen_at, revoked_at, role";

/// The query that lists an identity's devices that are not revoked: one page, in the order
/// of their creation, from behind the cursor on.
pub open spec fn devices_query(
    identity_id: Seq<char>,
    cursor: Option<Cursor<Seq<char>>>,
    limit: i64,
) -> QueryModel {
    let base = "SELECT "@ + DEVICE_COLUMNS@
        + " FROM devices WHERE identity_id = ?1 AND revoked_at IS NULL"@;
    match cursor {
        Some(cursor) => QueryModel {
            sql: base
                + " AND (created_at > ?2 OR (created_at = ?2 AND device_id > ?3)) ORDER BY created_at, device_id LIMIT ?4"@,
            binds: seq![
                Bind::Text(identity_id),
                Bind::Text(cursor.timestamp),
                Bind::Text(cursor.id),
                Bind::Number(limit),
            ],
        },
        None => QueryModel {
            sql: base + " ORDER BY created_at, device_id LIMIT ?2"@,
            binds: seq![Bind::Text(identity_id), Bind::Number(limit)],
        },
    }
}

/// Builds the query that lists an identity's devices.
pub fn list_devices(identity_id: &str, cursor: &Option<Cursor>, limit: i64) -> (query: (
    String,
    Vec<Bind>,
))
    ensures
        devices_query(identity_id@, option_view(*cursor), limit) == (QueryModel {
            sql: query.0@,
            binds: binds_view(query.1@),
        }),
{
    let base = "SELECT ".to_owned().concat(DEVICE_COLUMNS).concat(
        " FROM devices WHERE identity_id = ?1 AND revoked_at IS NULL",
    );
    match cursor {
        Some(cursor) => {
            let binds = vec![
                Bind::Text(identity_id.to_owned()),
                Bind::Text(cursor.timestamp.as_str().to_owned()),
                Bind::Text(cursor.id.as_str().to_owned()),
                Bind::Number(limit),
            ];
            assert(binds_view(binds@) =~= seq![
                Bind::Text(identity_id@),
                Bind::Text(cursor.timestamp@),
                Bind::Text(cursor.id@),
                Bind::Number(limit),
            ]);
            let sql = base.concat(
                " AND (created_at > ?2 OR (created_at = ?2 AND device_id > ?3)) ORDER BY created_at, device_id LIMIT ?4",
            );
            (sql, binds)
        },
        None => {
            let binds = vec![Bind::Text(identity_id.to_owned()), Bind::Number(limit)];
            assert(binds_view(binds@) =~= seq![Bind::Text(identity_id@), Bind::Number(limit)]);
            (base.concat(" ORDER BY created_at, device_id LIMIT ?2"), binds)
        },
    }
}

/// Where a list continues. Callers see only base64url text.
#[derive(Debug)]
pub struct Cursor<S = String> {
    pub timestamp: S,
    pub id: S,
}

impl View for Cursor {
    type V = Cursor<Seq<char>>;

    open spec fn view(&self) -> Cursor<Seq<char>> {
        Cursor { timestamp: self.timestamp@, id: self.id@ }
    }
}

/// What a cursor's text comes to.
pub open spec fn read_cursor(raw: Seq<char>) -> Result<Cursor<Seq<char>>, Refusal> {
    opened_cursor(decoded(raw))
}

/// What a cursor comes to. `bytes` is what its text decodes to.
pub open spec fn opened_cursor(bytes: Option<Seq<u8>>) -> Result<Cursor<Seq<char>>, Refusal> {
    match bytes {
        Some(bytes) => if valid_utf8(bytes) {
            match split_at_first(decode_utf8(bytes), '|') {
                Some((timestamp, id)) => Ok(Cursor { timestamp, id }),
                None => Err(Refusal::invalid("malformed cursor"@)),
            }
        } else {
            Err(Refusal::invalid("malformed cursor"@))
        },
        None => Err(Refusal::invalid("malformed cursor"@)),
    }
}

impl Cursor {
    /// The text of a cursor. It reads back as the same cursor, as long as the timestamp
    /// holds no separator.
    pub fn encode(timestamp: &str, id: &str) -> (raw: String)
        ensures
            raw@ == base64url(encode_utf8(timestamp@ + "|"@ + id@)),
            !timestamp@.contains('|') ==> read_cursor(raw@) == Ok::<Cursor<Seq<char>>, Refusal>(
                Cursor { timestamp: timestamp@, id: id@ },
            ),
    {
        let joined = timestamp.to_owned().concat("|").concat(id);
        proof {
            encode_utf8_valid_utf8(joined@);
            encode_utf8_decode_utf8(joined@);
            reveal_strlit("|");
            if !timestamp@.contains('|') {
                let at = timestamp@.len() as int;
                assert(joined@[at] == '|');
                assert forall|i: int| 0 <= i < at implies joined@[i] != '|' by {
                    assert(timestamp@.contains(timestamp@[i]));
                }
                text::lemma_first_of(joined@, '|', at);
                assert(joined@.take(at) =~= timestamp@);
                assert(joined@.skip(at + 1) =~= id@);
            }
        }
        b64_encode(joined.as_str().as_bytes())
    }

    pub fn decode(raw: &str) -> (result: ApiResult<Self>)
        ensures
            outcome(result) == read_cursor(raw@),
    {
        Cursor::from_decoded(b64_decode(raw))
    }

    /// Reads a cursor from what its text decodes to.
    pub fn from_decoded(bytes: Option<Vec<u8>>) -> (result: ApiResult<Self>)
        ensures
            outcome(result) == opened_cursor(option_view(bytes)),
    {
        let bytes = match bytes {
            Some(bytes) => bytes,
            None => return Err(ApiError::invalid("malformed cursor")),
        };
        let text = match text::utf8_text(bytes) {
            Some(text) => text,
            None => return Err(ApiError::invalid("malformed cursor")),
        };
        match text::split_once(text.as_str(), '|') {
            Some((timestamp, id)) => Ok(Cursor { timestamp, id }),
            None => Err(ApiError::invalid("malformed cursor")),
        }
    }
}

/// A stretch of a terminal's output as it is stored.
#[derive(Debug)]
pub struct Chunk<B = Vec<u8>> {
    pub start: i64,
    pub end: i64,
    pub bytes: B,
}

impl View for Chunk {
    type V = Chunk<Seq<u8>>;

    open spec fn view(&self) -> Chunk<Seq<u8>> {
        Chunk { start: self.start, end: self.end, bytes: self.bytes@ }
    }
}

/// The chunks in a list, over sequences.
pub open spec fn chunks_view(list: Seq<Chunk>) -> Seq<Chunk<Seq<u8>>> {
    Seq::new(list.len(), |i: int| list[i]@)
}

/// The bytes from `expected` on, read off some chunks in the order of their start; or
/// the offset of the first gap.
pub open spec fn read_chunks(chunks: Seq<Chunk<Seq<u8>>>, expected: nat) -> Result<Seq<u8>, nat>
    decreases chunks.len(),
{
    if chunks.len() == 0 {
        Ok(Seq::empty())
    } else {
        let start = read_offset(chunks[0].start);
        let bytes = chunks[0].bytes;
        let rest = chunks.drop_first();
        if start > expected {
            Err(expected)
        } else if expected - start >= bytes.len() {
            read_chunks(rest, expected)
        } else {
            match read_chunks(rest, start + bytes.len()) {
                Ok(more) => Ok(bytes.skip(expected - start) + more),
                Err(gap) => Err(gap),
            }
        }
    }
}

/// The refusal to replay output with a hole in it.
pub open spec fn gap_refusal(terminal_id: Uuid, offset: nat) -> Refusal {
    Refusal::internal(
        "terminal "@ + uuid_text(terminal_id.value) + " has a gap in stored output at offset "@
            + decimal(offset),
    )
}

/// Contiguous retained output of a terminal, used to rebuild what is held in memory
/// after a restart. `rows` are its chunks that end behind `earliest_offset`, in the order
/// of their start. A gap is reported instead of silently leaving a hole in the replay.
pub fn load_terminal_output(terminal_id: Uuid, rows: &Vec<Chunk>, earliest_offset: u64) -> (result:
    ApiResult<Vec<u8>>)
    ensures
        match result {
            Ok(bytes) => read_chunks(chunks_view(rows@), earliest_offset as nat) == Ok::<
                Seq<u8>,
                nat,
            >(bytes@),
            Err(error) => read_chunks(chunks_view(rows@), earliest_offset as nat) matches Err(
                gap,
            ) && error@ == gap_refusal(terminal_id, gap),
        },
{
    let mut out: Vec<u8> = Vec::new();
    let mut expected: u128 = earliest_offset as u128;
    let mut index: usize = 0;
    let ghost chunks = chunks_view(rows@);
    let ghost whole = read_chunks(chunks, earliest_offset as nat);
    assert(chunks.skip(0) =~= chunks);
    proof {
        match whole {
            Ok(bytes) => {
                assert(out@ + bytes =~= bytes);
            },
            Err(gap) => {},
        }
    }
    while index < rows.len()
        invariant
            index <= rows@.len(),
            chunks == chunks_view(rows@),
            expected < 0x2_0000_0000_0000_0000,
            whole == read_chunks(chunks, earliest_offset as nat),
            whole == (match read_chunks(chunks.skip(index as int), expected as nat) {
                Ok(more) => Ok::<Seq<u8>, nat>(out@ + more),
                Err(gap) => Err::<Seq<u8>, nat>(gap),
            }),
        decreases rows@.len() - index,
    {
        let ghost left = chunks.skip(index as int);
        let row = &rows[index];
        proof {
            assert(left[0] == row@);
            assert(left.drop_first() =~= chunks.skip(index + 1));
        }
        let start: u64 = as_offset(row.start);
        if start as u128 > expected {
            let words = "terminal ".to_owned().concat(terminal_id.to_text().as_str()).concat(
                " has a gap in stored output at offset ",
            ).concat(text::wide_decimal_of(expected).as_str());
            return Err(ApiError::internal(words.as_str()));
        }
        let skip: u128 = expected - start as u128;
        if skip < row.bytes.len() as u128 {
            let rest = encoding::copy_of(row.bytes.as_slice(), skip as usize, row.bytes.len());
            assert(rest@ =~= row.bytes@.skip(skip as int));
            let ghost before = out@;
            encoding::put_bytes(&mut out, rest.as_slice());
            expected = start as u128 + row.bytes.len() as u128;
            proof {
                match read_chunks(chunks.skip(index + 1), expected as nat) {
                    Ok(more) => {
                        assert(before + (rest@ + more) =~= out@ + more);
                    },
                    Err(gap) => {},
                }
            }
        }
        index = index + 1;
    }
    proof {
        assert(chunks.skip(index as int) =~= Seq::empty());
        assert(out@ + Seq::<u8>::empty() =~= out@);
    }
    Ok(out)
}

/// One terminal's contribution to a checkpoint transaction.
#[derive(Debug)]
pub struct TerminalCheckpoint<S = String, B = Vec<u8>> {
    pub terminal_id: Uuid,
    /// Offset of the first byte in `chunk`.
    pub chunk_start: u64,
    pub chunk: B,
    pub earliest_offset: u64,
    /// Offset immediately after the last byte in `chunk`.
    pub durable_offset: u64,
    pub last_activity: i64,
    /// When set, the terminal is marked closed in the same transaction, so a subscriber
    /// can never see it closed before its final bytes are committed.
    pub close_reason: Option<S>,
}

impl View for TerminalCheckpoint {
    type V = TerminalCheckpoint<Seq<char>, Seq<u8>>;

    open spec fn view(&self) -> TerminalCheckpoint<Seq<char>, Seq<u8>> {
        TerminalCheckpoint {
            terminal_id: self.terminal_id,
            chunk_start: self.chunk_start,
            chunk: self.chunk@,
            earliest_offset: self.earliest_offset,
            durable_offset: self.durable_offset,
            last_activity: self.last_activity,
            close_reason: option_view(self.close_reason),
        }
    }
}

/// The chunk that a checkpoint appends, if it has any output.
pub open spec fn appended(checkpoint: TerminalCheckpoint<Seq<char>, Seq<u8>>) -> Option<
    Chunk<Seq<u8>>,
> {
    if checkpoint.chunk.len() == 0 {
        None
    } else {
        Some(
            Chunk {
                start: wrapped(checkpoint.chunk_start as int) as i64,
                end: wrapped(checkpoint.durable_offset as int) as i64,
                bytes: checkpoint.chunk,
            },
        )
    }
}

/// A chunk across the edge of the retained range, without its evicted front; `None`
/// where that leaves nothing to rewrite.
pub open spec fn trimmed_chunk(chunk: Chunk<Seq<u8>>, earliest: i64) -> Option<Chunk<Seq<u8>>> {
    let skip = if earliest < chunk.start {
        0
    } else {
        earliest - chunk.start
    };
    if skip < chunk.bytes.len() {
        Some(Chunk { start: earliest, end: chunk.end, bytes: chunk.bytes.skip(skip) })
    } else {
        None
    }
}

/// The new chunk of a checkpoint. Output is appended as a chunk of its own rather than
/// by rewriting what is retained.
pub fn checkpoint_chunk(checkpoint: &TerminalCheckpoint) -> (chunk: Option<Chunk>)
    ensures
        option_view(chunk) == appended(checkpoint@),
{
    if checkpoint.chunk.len() == 0 {
        return None;
    }
    let bytes = encoding::copy_of(checkpoint.chunk.as_slice(), 0, checkpoint.chunk.len());
    assert(bytes@ =~= checkpoint.chunk@);
    Some(
        Chunk {
            start: as_stored(checkpoint.chunk_start),
            end: as_stored(checkpoint.durable_offset),
            bytes,
        },
    )
}

/// The chunk that replaces the one across the edge of the retained range.
pub fn rewrite_straddling(chunk: &Chunk, earliest: i64) -> (rewritten: Option<Chunk>)
    ensures
        option_view(rewritten) == trimmed_chunk(chunk@, earliest),
{
    let skip: i128 = if earliest < chunk.start {
        0
    } else {
        earliest as i128 - chunk.start as i128
    };
    if skip < chunk.bytes.len() as i128 {
        let bytes = encoding::copy_of(chunk.bytes.as_slice(), skip as usize, chunk.bytes.len());
        assert(bytes@ =~= chunk.bytes@.skip(skip as int));
        Some(Chunk { start: earliest, end: chunk.end, bytes })
    } else {
        None
    }
}

/// How many rows the checkpoint of one terminal writes: the new chunk, the evicted ones,
/// the two of a rewrite, and the terminal itself.
pub fn rows_written(appended: bool, evicted: u32, rewritten: bool) -> (rows: u64)
    ensures
        rows == (if appended {
            1int
        } else {
            0int
        }) + evicted + (if rewritten {
            2int
        } else {
            0int
        }) + 1,
{
    let first: u64 = if appended {
        1
    } else {
        0
    };
    let last: u64 = if rewritten {
        2
    } else {
        0
    };
    first + evicted as u64 + last + 1
}

/// The chunks of a terminal without those that end at or below `earliest`, and without
/// the evicted front of the one across it. This is what deleting by range and rewriting
/// the straddling chunk leave.
pub open spec fn evicted(chunks: Seq<Chunk<Seq<u8>>>, earliest: i64) -> Seq<Chunk<Seq<u8>>>
    decreases chunks.len(),
{
    if chunks.len() == 0 {
        Seq::empty()
    } else {
        let rest = evicted(chunks.drop_last(), earliest);
        let last = chunks.last();
        if last.end <= earliest {
            rest
        } else if last.start < earliest {
            match trimmed_chunk(last, earliest) {
                Some(trimmed) => rest.push(trimmed),
                None => rest.push(last),
            }
        } else {
            rest.push(last)
        }
    }
}

/// The chunks of a terminal after a checkpoint.
pub open spec fn committed(
    chunks: Seq<Chunk<Seq<u8>>>,
    checkpoint: TerminalCheckpoint<Seq<char>, Seq<u8>>,
) -> Seq<Chunk<Seq<u8>>> {
    let longer = match appended(checkpoint) {
        Some(chunk) => chunks.push(chunk),
        None => chunks,
    };
    evicted(longer, wrapped(checkpoint.earliest_offset as int) as i64)
}

/// The chunks hold the output `content`, which begins at `start`: each begins where the
/// one before it ends, none is empty, and together they are the content.
pub open spec fn holds_output(chunks: Seq<Chunk<Seq<u8>>>, start: int, content: Seq<u8>) -> bool
    decreases chunks.len(),
{
    if chunks.len() == 0 {
        content.len() == 0
    } else {
        let last = chunks.last();
        &&& 0 <= last.start
        &&& last.end == last.start + last.bytes.len()
        &&& 0 < last.bytes.len() <= content.len()
        &&& last.end == start + content.len()
        &&& last.bytes == content.skip(content.len() - last.bytes.len())
        &&& holds_output(
            chunks.drop_last(),
            start,
            content.take(content.len() - last.bytes.len()),
        )
    }
}

/// Chunks that hold output read back as that output, from any offset in it on.
proof fn lemma_holds_reads(
    chunks: Seq<Chunk<Seq<u8>>>,
    start: int,
    content: Seq<u8>,
    more: Seq<Chunk<Seq<u8>>>,
    from: int,
)
    requires
        holds_output(chunks, start, content),
        0 <= start <= from <= start + content.len(),
    ensures
        read_chunks(chunks + more, from as nat) == (match read_chunks(
            more,
            (start + content.len()) as nat,
        ) {
            Ok(rest) => Ok::<Seq<u8>, nat>(content.skip(from - start) + rest),
            Err(gap) => Err::<Seq<u8>, nat>(gap),
        }),
    decreases chunks.len(),
{
    if chunks.len() == 0 {
        assert(chunks + more =~= more);
        assert(content.skip(from - start) =~= Seq::empty());
        match read_chunks(more, from as nat) {
            Ok(rest) => {
                assert(content.skip(from - start) + rest =~= rest);
            },
            Err(gap) => {},
        }
    } else {
        let last = chunks.last();
        let before = chunks.drop_last();
        let front = content.take(content.len() - last.bytes.len());
        let behind = seq![last] + more;
        assert(before + behind =~= chunks + more);
        assert(behind.drop_first() =~= more);
        let end = start + content.len();
        assert(last.start == start + front.len());
        if from <= last.start {
            lemma_holds_reads(before, start, front, behind, from);
            assert(last.bytes.skip(0) =~= last.bytes);
            match read_chunks(more, end as nat) {
                Ok(rest) => {
                    assert(front.skip(from - start) + (last.bytes + rest) =~= content.skip(
                        from - start,
                    ) + rest);
                },
                Err(gap) => {},
            }
        } else {
            lemma_passes_over(before, start, front, behind, from);
            assert(last.bytes.skip(from - last.start) =~= content.skip(from - start));
            if from == end {
                assert(content.skip(from - start) =~= Seq::empty());
                match read_chunks(more, end as nat) {
                    Ok(rest) => {
                        assert(content.skip(from - start) + rest =~= rest);
                    },
                    Err(gap) => {},
                }
            }
        }
    }
}

/// Chunks that end at or below an offset are passed over when reading from there.
proof fn lemma_passes_over(
    chunks: Seq<Chunk<Seq<u8>>>,
    start: int,
    content: Seq<u8>,
    more: Seq<Chunk<Seq<u8>>>,
    from: int,
)
    requires
        holds_output(chunks, start, content),
        0 <= start,
        start + content.len() <= from,
    ensures
        read_chunks(chunks + more, from as nat) == read_chunks(more, from as nat),
    decreases chunks.len(),
{
    if chunks.len() == 0 {
        assert(chunks + more =~= more);
    } else {
        let last = chunks.last();
        let front = content.take(content.len() - last.bytes.len());
        let behind = seq![last] + more;
        assert(chunks.drop_last() + behind =~= chunks + more);
        assert(behind.drop_first() =~= more);
        lemma_passes_over(chunks.drop_last(), start, front, behind, from);
    }
}

/// Evicting from chunks that hold output leaves chunks that hold the rest of it.
proof fn lemma_evicted_holds(
    chunks: Seq<Chunk<Seq<u8>>>,
    start: int,
    content: Seq<u8>,
    earliest: i64,
)
    requires
        holds_output(chunks, start, content),
        0 <= start <= earliest,
    ensures
        earliest <= start + content.len() ==> holds_output(
            evicted(chunks, earliest),
            earliest as int,
            content.skip(earliest - start),
        ),
        earliest > start + content.len() ==> evicted(chunks, earliest).len() == 0,
    decreases chunks.len(),
{
    if chunks.len() > 0 {
        let last = chunks.last();
        let before = chunks.drop_last();
        let front = content.take(content.len() - last.bytes.len());
        let kept = evicted(before, earliest);
        lemma_evicted_holds(before, start, front, earliest);
        assert(last.start == start + front.len());
        if last.end <= earliest {
            if earliest == last.end {
                assert(earliest > start + front.len());
                assert(kept.len() == 0);
                assert(content.skip(earliest - start).len() == 0);
            }
        } else if last.start < earliest {
            assert(kept.len() == 0);
            let trimmed = trimmed_chunk(last, earliest)->0;
            let rest = content.skip(earliest - start);
            assert(trimmed.bytes =~= rest);
            assert(evicted(chunks, earliest).drop_last() =~= Seq::empty());
            assert(rest.take(rest.len() - trimmed.bytes.len()) =~= Seq::empty());
            assert(rest.skip(rest.len() - trimmed.bytes.len()) =~= rest);
            assert(holds_output(Seq::empty(), earliest as int, rest.take(0)));
        } else {
            let rest = content.skip(earliest - start);
            assert(evicted(chunks, earliest).drop_last() =~= kept);
            assert(rest.take(rest.len() - last.bytes.len()) =~= front.skip(earliest - start));
            assert(rest.skip(rest.len() - last.bytes.len()) =~= last.bytes);
        }
    } else if earliest == start {
        assert(content.skip(0).len() == 0);
    }
}

/// What was written is read back: after a checkpoint that continues the stored output,
/// reading from the checkpoint's earliest offset gives exactly the old output and the new
/// from that offset on, without a gap. Evicting, trimming and appending lose nothing that
/// is retained.
pub proof fn law_committed_output_reads_back(
    chunks: Seq<Chunk<Seq<u8>>>,
    start: int,
    content: Seq<u8>,
    checkpoint: TerminalCheckpoint<Seq<char>, Seq<u8>>,
)
    requires
        holds_output(chunks, start, content),
        0 <= start <= checkpoint.earliest_offset <= checkpoint.durable_offset,
        checkpoint.chunk_start == start + content.len(),
        checkpoint.durable_offset == checkpoint.chunk_start + checkpoint.chunk.len(),
        checkpoint.durable_offset <= i64::MAX,
    ensures
        holds_output(
            committed(chunks, checkpoint),
            checkpoint.earliest_offset as int,
            (content + checkpoint.chunk).skip(checkpoint.earliest_offset - start),
        ),
        read_chunks(committed(chunks, checkpoint), checkpoint.earliest_offset as nat) == Ok::<
            Seq<u8>,
            nat,
        >((content + checkpoint.chunk).skip(checkpoint.earliest_offset - start)),
{
    let whole = content + checkpoint.chunk;
    let earliest = checkpoint.earliest_offset as i64;
    let longer = match appended(checkpoint) {
        Some(chunk) => chunks.push(chunk),
        None => chunks,
    };
    if checkpoint.chunk.len() == 0 {
        assert(whole =~= content);
    } else {
        assert(longer.drop_last() =~= chunks);
        assert(whole.take(whole.len() - checkpoint.chunk.len()) =~= content);
        assert(whole.skip(whole.len() - checkpoint.chunk.len()) =~= checkpoint.chunk);
    }
    assert(holds_output(longer, start, whole));
    lemma_evicted_holds(longer, start, whole, earliest);
    let kept = committed(chunks, checkpoint);
    let rest = whole.skip(checkpoint.earliest_offset - start);
    let none = Seq::<Chunk<Seq<u8>>>::empty();
    lemma_holds_reads(kept, earliest as int, rest, none, earliest as int);
    assert(kept + none =~= kept);
    assert(read_chunks(none, (earliest + rest.len()) as nat) == Ok::<Seq<u8>, nat>(Seq::empty()));
    assert(rest.skip(0) + Seq::<u8>::empty() =~= rest);
}

/// A challenge that was handed out.
#[derive(Debug)]
pub struct ChallengeRecord<S = String, B = Vec<u8>> {
    pub challenge_id: S,
    pub operation: Operation,
    pub algorithm: S,
    pub public_key: B,
    pub key_fingerprint: S,
    pub owner_identity_id: Option<S>,
    pub device_key_fingerprint: Option<S>,
    pub challenge: B,
    pub expires_at: i64,
}

impl View for ChallengeRecord {
    type V = ChallengeRecord<Seq<char>, Seq<u8>>;

    open spec fn view(&self) -> ChallengeRecord<Seq<char>, Seq<u8>> {
        ChallengeRecord {
            challenge_id: self.challenge_id@,
            operation: self.operation,
            algorithm: self.algorithm@,
            public_key: self.public_key@,
            key_fingerprint: self.key_fingerprint@,
            owner_identity_id: option_view(self.owner_identity_id),
            device_key_fingerprint: option_view(self.device_key_fingerprint),
            challenge: self.challenge@,
            expires_at: self.expires_at,
        }
    }
}

impl ChallengeRecord {
    /// The key that the challenge was handed out to.
    pub fn key(&self) -> (key: PublicKey)
        ensures
            key@ == (KeyModel { algorithm: self.algorithm@, bytes: self.public_key@ }),
    {
        let bytes = encoding::copy_of(self.public_key.as_slice(), 0, self.public_key.len());
        assert(bytes@ =~= self.public_key@);
        PublicKey::from_stored(self.algorithm.as_str(), bytes)
    }
}

/// A challenge as it is stored.
#[derive(Debug)]
pub struct StoredChallenge<S = String, B = Vec<u8>> {
    pub operation: S,
    pub algorithm: S,
    pub public_key: B,
    pub key_fingerprint: S,
    pub owner_identity_id: Option<S>,
    pub device_key_fingerprint: Option<S>,
    pub challenge: B,
    pub expires_at: i64,
    /// It has been used.
    pub consumed: bool,
}

impl View for StoredChallenge {
    type V = StoredChallenge<Seq<char>, Seq<u8>>;

    open spec fn view(&self) -> StoredChallenge<Seq<char>, Seq<u8>> {
        StoredChallenge {
            operation: self.operation@,
            algorithm: self.algorithm@,
            public_key: self.public_key@,
            key_fingerprint: self.key_fingerprint@,
            owner_identity_id: option_view(self.owner_identity_id),
            device_key_fingerprint: option_view(self.device_key_fingerprint),
            challenge: self.challenge@,
            expires_at: self.expires_at,
            consumed: self.consumed,
        }
    }
}

/// The outcome of trying to claim a challenge for verification.
#[derive(Debug)]
pub enum ChallengeClaim<S = String, B = Vec<u8>> {
    Claimed(ChallengeRecord<S, B>),
    AlreadyConsumed,
    Expired,
    Unknown,
}

impl View for ChallengeClaim {
    type V = ChallengeClaim<Seq<char>, Seq<u8>>;

    open spec fn view(&self) -> ChallengeClaim<Seq<char>, Seq<u8>> {
        match self {
            ChallengeClaim::Claimed(record) => ChallengeClaim::Claimed(record@),
            ChallengeClaim::AlreadyConsumed => ChallengeClaim::AlreadyConsumed,
            ChallengeClaim::Expired => ChallengeClaim::Expired,
            ChallengeClaim::Unknown => ChallengeClaim::Unknown,
        }
    }
}

/// The operation that a stored word means, if it means one.
pub open spec fn stored_operation(word: Seq<char>) -> Option<Operation> {
    if word == Operation::RegisterIdentity.word() {
        Some(Operation::RegisterIdentity)
    } else if word == Operation::AuthenticateIdentity.word() {
        Some(Operation::AuthenticateIdentity)
    } else if word == Operation::RegisterDevice.word() {
        Some(Operation::RegisterDevice)
    } else if word == Operation::AuthenticateDevice.word() {
        Some(Operation::AuthenticateDevice)
    } else {
        None
    }
}

/// What claiming a challenge comes to, and whether it has to be marked as used.
pub open spec fn claimed(
    row: Option<StoredChallenge<Seq<char>, Seq<u8>>>,
    challenge_id: Seq<char>,
    now: i64,
) -> (ChallengeClaim<Seq<char>, Seq<u8>>, bool) {
    match row {
        None => (ChallengeClaim::Unknown, false),
        Some(row) => if row.consumed {
            (ChallengeClaim::AlreadyConsumed, false)
        } else if row.expires_at < now {
            (ChallengeClaim::Expired, true)
        } else {
            match stored_operation(row.operation) {
                None => (ChallengeClaim::Unknown, true),
                Some(operation) => (
                    ChallengeClaim::Claimed(
                        ChallengeRecord {
                            challenge_id,
                            operation,
                            algorithm: row.algorithm,
                            public_key: row.public_key,
                            key_fingerprint: row.key_fingerprint,
                            owner_identity_id: row.owner_identity_id,
                            device_key_fingerprint: row.device_key_fingerprint,
                            challenge: row.challenge,
                            expires_at: row.expires_at,
                        },
                    ),
                    true,
                ),
            }
        },
    }
}

/// Claims a challenge for verification. Returns what it comes to, and whether the stored
/// challenge has to be marked as used at once.
///
/// It is used up before its signature is looked at, so the first attempt invalidates it
/// whether that attempt succeeds or fails.
pub fn claim_challenge(row: Option<StoredChallenge>, challenge_id: &str, now: i64) -> (result: (
    ChallengeClaim,
    bool,
))
    ensures
        (result.0@, result.1) == claimed(option_view(row), challenge_id@, now),
{
    let row = match row {
        Some(row) => row,
        None => return (ChallengeClaim::Unknown, false),
    };
    if row.consumed {
        return (ChallengeClaim::AlreadyConsumed, false);
    }
    if row.expires_at < now {
        return (ChallengeClaim::Expired, true);
    }
    proof {
        assert forall|a: Operation, b: Operation| #[trigger] a.word() == #[trigger] b.word()
            implies a == b by {
            crate::relay::crypto::law_operation_words_differ(a, b);
        }
    }
    match Operation::parse(row.operation.as_str()) {
        None => (ChallengeClaim::Unknown, true),
        Some(operation) => (
            ChallengeClaim::Claimed(
                ChallengeRecord {
                    challenge_id: challenge_id.to_owned(),
                    operation,
                    algorithm: row.algorithm,
                    public_key: row.public_key,
                    key_fingerprint: row.key_fingerprint,
                    owner_identity_id: row.owner_identity_id,
                    device_key_fingerprint: row.device_key_fingerprint,
                    challenge: row.challenge,
                    expires_at: row.expires_at,
                },
            ),
            true,
        ),
    }
}

/// A challenge is good for one attempt: once an attempt has reached it, every later
/// claim of it finds it used, at whatever time.
pub proof fn law_challenges_are_claimed_once(
    row: StoredChallenge<Seq<char>, Seq<u8>>,
    challenge_id: Seq<char>,
    now: i64,
    later: i64,
)
    ensures
        claimed(Some(row), challenge_id, now).0 is Claimed ==> claimed(
            Some(row),
            challenge_id,
            now,
        ).1,
        !row.consumed ==> claimed(Some(row), challenge_id, now).1,
        claimed(Some(StoredChallenge { consumed: true, ..row }), challenge_id, later) == (
            ChallengeClaim::<Seq<char>, Seq<u8>>::AlreadyConsumed,
            false,
        ),
{
}

/// The authority that a ticket stands for.
#[derive(Debug)]
pub struct TicketRecord<S = String, L = Vec<String>> {
    pub principal_kind: PrincipalKind,
    pub principal_id: S,
    pub identity_id: S,
    pub scopes: L,
}

impl View for TicketRecord {
    type V = TicketRecord<Seq<char>, Seq<Seq<char>>>;

    open spec fn view(&self) -> TicketRecord<Seq<char>, Seq<Seq<char>>> {
        TicketRecord {
            principal_kind: self.principal_kind,
            principal_id: self.principal_id@,
            identity_id: self.identity_id@,
            scopes: texts(self.scopes@),
        }
    }
}

/// A ticket as it is stored.
#[derive(Debug)]
pub struct StoredTicket<S = String> {
    pub principal_kind: S,
    pub principal_id: S,
    pub identity_id: S,
    pub path: S,
    /// The scopes, separated by spaces.
    pub scopes: S,
    /// `None` where the stored time cannot be read.
    pub expires_at: Option<i64>,
    /// It has been used.
    pub consumed: bool,
}

impl View for StoredTicket {
    type V = StoredTicket<Seq<char>>;

    open spec fn view(&self) -> StoredTicket<Seq<char>> {
        StoredTicket {
            principal_kind: self.principal_kind@,
            principal_id: self.principal_id@,
            identity_id: self.identity_id@,
            path: self.path@,
            scopes: self.scopes@,
            expires_at: self.expires_at,
            consumed: self.consumed,
        }
    }
}

/// What using a ticket for a path comes to, and whether it has to be marked as used.
pub open spec fn used_ticket(row: Option<StoredTicket<Seq<char>>>, path: Seq<char>, now: i64) -> (
    Option<TicketRecord<Seq<char>, Seq<Seq<char>>>>,
    bool,
) {
    match row {
        None => (None, false),
        Some(row) => if row.consumed {
            (None, false)
        } else if row.path != path || row.expires_at is None || row.expires_at->0 < now {
            (None, true)
        } else {
            (
                Some(
                    TicketRecord {
                        principal_kind: if row.principal_kind == PrincipalKind::Device.word() {
                            PrincipalKind::Device
                        } else {
                            PrincipalKind::Identity
                        },
                        principal_id: row.principal_id,
                        identity_id: row.identity_id,
                        scopes: words_of(row.scopes),
                    },
                ),
                true,
            )
        },
    }
}

/// Uses a ticket for exactly one path. Returns the authority it stands for, and whether
/// the stored ticket has to be marked as used.
///
/// Any attempt uses it up, matching or not, so a ticket cannot be tried against several
/// paths.
pub fn consume_ticket(row: Option<StoredTicket>, path: &str, now: i64) -> (result: (
    Option<TicketRecord>,
    bool,
))
    ensures
        (option_view(result.0), result.1) == used_ticket(option_view(row), path@, now),
{
    let row = match row {
        Some(row) => row,
        None => return (None, false),
    };
    if row.consumed {
        return (None, false);
    }
    if !text::same(row.path.as_str(), path) {
        return (None, true);
    }
    match row.expires_at {
        Some(expires_at) => {
            if expires_at < now {
                return (None, true);
            }
        },
        None => return (None, true),
    }
    let principal_kind = if text::same(row.principal_kind.as_str(), "device") {
        PrincipalKind::Device
    } else {
        PrincipalKind::Identity
    };
    let record = TicketRecord {
        principal_kind,
        principal_id: row.principal_id,
        identity_id: row.identity_id,
        scopes: text::split_words(row.scopes.as_str()),
    };
    (Some(record), true)
}

/// The moment at which something that is made now and lives for so many seconds expires.
pub fn expiry(now: i64, ttl_seconds: i64) -> (expires: i64)
    requires
        i64::MIN <= now + ttl_seconds * 1000 <= i64::MAX,
    ensures
        expires == now + ttl_seconds * 1000,
{
    (now as i128 + ttl_seconds as i128 * 1000) as i64
}

/// A new ticket for a path.
pub fn insert_ticket(
    principal_kind: PrincipalKind,
    principal_id: &str,
    identity_id: &str,
    path: &str,
    scopes: &Vec<String>,
    expires_at: i64,
) -> (row: StoredTicket)
    ensures
        row@ == (StoredTicket {
            principal_kind: principal_kind.word(),
            principal_id: principal_id@,
            identity_id: identity_id@,
            path: path@,
            scopes: spaced(texts(scopes@)),
            expires_at: Some(expires_at),
            consumed: false,
        }),
{
    StoredTicket {
        principal_kind: principal_kind.as_str().to_owned(),
        principal_id: principal_id.to_owned(),
        identity_id: identity_id.to_owned(),
        path: path.to_owned(),
        scopes: text::join_words(scopes),
        expires_at: Some(expires_at),
        consumed: false,
    }
}

/// A ticket stands for exactly the authority that it was made with, once, for its path
/// and until it expires: what is read back is what was stored, and a second attempt finds
/// it used.
pub proof fn law_tickets_work_once(
    ticket: StoredTicket<Seq<char>>,
    kind: PrincipalKind,
    scopes: Seq<Seq<char>>,
    now: i64,
    later: i64,
)
    requires
        ticket.principal_kind == kind.word(),
        ticket.scopes == spaced(scopes),
        forall|i: int| 0 <= i < scopes.len() ==> is_word(#[trigger] scopes[i]),
        !ticket.consumed,
        ticket.expires_at is Some,
        now <= ticket.expires_at->0,
    ensures
        used_ticket(Some(ticket), ticket.path, now) == (
            Some(
                TicketRecord {
                    principal_kind: kind,
                    principal_id: ticket.principal_id,
                    identity_id: ticket.identity_id,
                    scopes,
                },
            ),
            true,
        ),
        used_ticket(Some(StoredTicket { consumed: true, ..ticket }), ticket.path, later) == (
            None::<TicketRecord<Seq<char>, Seq<Seq<char>>>>,
            false,
        ),
{
    lemma_words_of_spaced(scopes);
    reveal_strlit("identity");
    reveal_strlit("device");
    assert("identity"@.len() == 8 && "device"@.len() == 6);
}

/// A ticket that is tried for another path gives nothing and is used up by the attempt.
pub proof fn law_tickets_cannot_be_probed(
    ticket: StoredTicket<Seq<char>>,
    path: Seq<char>,
    now: i64,
)
    requires
        path != ticket.path,
        !ticket.consumed,
    ensures
        used_ticket(Some(ticket), path, now) == (
            None::<TicketRecord<Seq<char>, Seq<Seq<char>>>>,
            true,
        ),
{
}

/// A sealed signing key as it is stored.
#[derive(Debug)]
pub struct StoredSigningKey {
    pub kid: String,
    pub nonce: Vec<u8>,
    pub ciphertext: Vec<u8>,
    pub created_at: i64,
    pub active: bool,
    /// When the key stops verifying; a key that is still active does not.
    pub not_after: Option<i64>,
}

/// A response that was remembered under an idempotency key.
#[derive(Debug)]
pub struct IdempotentResponse<S = String> {
    pub request_hash: S,
    pub status: u16,
    pub body: S,
}

impl View for IdempotentResponse {
    type V = IdempotentResponse<Seq<char>>;

    open spec fn view(&self) -> IdempotentResponse<Seq<char>> {
        IdempotentResponse {
            request_hash: self.request_hash@,
            status: self.status,
            body: self.body@,
        }
    }
}

} // verus!
