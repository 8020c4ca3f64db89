//! How the database is tuned, and how an old one is brought up to date.

use crate::text;
use crate::text::texts;
use vstd::prelude::*;

verus! {

/// Per-connection tuning, driven entirely by settings.
///
/// `generation` moves on whenever anything changes. A pooled connection that has applied
/// an older one applies the tuning again when it is handed out, so that a change takes
/// effect without a restart.
#[derive(Debug)]
pub struct StoragePragmas {
    pub generation: u64,
    pub synchronous: String,
    pub busy_timeout_ms: i64,
    pub cache_size_kib: i64,
    pub wal_autocheckpoint_pages: i64,
}

/// What the tuning consists of.
pub struct Tuning {
    pub synchronous: Seq<char>,
    pub busy_timeout_ms: i64,
    pub cache_size_kib: i64,
    pub wal_autocheckpoint_pages: i64,
}

impl View for StoragePragmas {
    type V = Tuning;

    open spec fn view(&self) -> Tuning {
        Tuning {
            synchronous: self.synchronous@,
            busy_timeout_ms: self.busy_timeout_ms,
            cache_size_kib: self.cache_size_kib,
            wal_autocheckpoint_pages: self.wal_autocheckpoint_pages,
        }
    }
}

impl Default for StoragePragmas {
    fn default() -> (pragmas: Self)
        ensures
            pragmas.generation == 1,
            pragmas@ == (Tuning {
                synchronous: "normal"@,
                busy_timeout_ms: 5000,
                cache_size_kib: 8192,
                wal_autocheckpoint_pages: 4000,
            }),
    {
        Self {
            generation: 1,
            synchronous: "normal".to_owned(),
            busy_timeout_ms: 5000,
            cache_size_kib: 8192,
            wal_autocheckpoint_pages: 4000,
        }
    }
}

/// What a connection is told, each under the name that it goes by.
#[derive(Debug)]
pub struct Applied {
    pub synchronous: String,
    pub busy_timeout_ms: u64,
    /// Negative: a budget in kibibytes rather than a number of pages.
    pub cache_size: i64,
    pub wal_autocheckpoint: i64,
}

impl StoragePragmas {
    /// Takes over the tuning of the current settings; says whether anything changed.
    pub fn update(
        &mut self,
        synchronous: &str,
        busy_timeout_ms: i64,
        cache_size_kib: i64,
        wal_autocheckpoint_pages: i64,
    ) -> (changed: bool)
        ensures
            final(self)@ == (Tuning {
                synchronous: synchronous@,
                busy_timeout_ms,
                cache_size_kib,
                wal_autocheckpoint_pages,
            }),
            changed == (final(self)@ != old(self)@),
            final(self).generation == (if !changed {
                old(self).generation as int
            } else if old(self).generation == u64::MAX {
                0
            } else {
                old(self).generation + 1
            }),
    {
        let same_mode = text::same(self.synchronous.as_str(), synchronous);
        let changed: bool = !same_mode || self.busy_timeout_ms != busy_timeout_ms
            || self.cache_size_kib != cache_size_kib || self.wal_autocheckpoint_pages
            != wal_autocheckpoint_pages;
        if !same_mode {
            self.synchronous = synchronous.to_owned();
        }
        self.busy_timeout_ms = busy_timeout_ms;
        self.cache_size_kib = cache_size_kib;
        self.wal_autocheckpoint_pages = wal_autocheckpoint_pages;
        if changed {
            self.generation = self.generation.wrapping_add(1);
        }
        changed
    }

    /// Whether a connection that has applied the given generation has to apply the
    /// tuning again.
    pub fn is_stale(&self, applied: u64) -> (stale: bool)
        ensures
            stale == (applied != self.generation),
    {
        applied != self.generation
    }

    /// What a connection is told.
    pub fn apply(&self) -> (applied: Applied)
        requires
            self.cache_size_kib > i64::MIN,
        ensures
            applied.synchronous@ == self@.synchronous,
            applied.busy_timeout_ms == (if self.busy_timeout_ms < 0 {
                0
            } else {
                self.busy_timeout_ms as int
            }),
            applied.cache_size == -self.cache_size_kib,
            applied.wal_autocheckpoint == self.wal_autocheckpoint_pages,
    {
        Applied {
            synchronous: self.synchronous.as_str().to_owned(),
            busy_timeout_ms: if self.busy_timeout_ms < 0 {
                0
            } else {
                self.busy_timeout_ms as u64
            },
            cache_size: -self.cache_size_kib,
            wal_autocheckpoint: self.wal_autocheckpoint_pages,
        }
    }
}

/// A column that databases lack which were created before it was added.
#[derive(Debug)]
pub struct AddedColumn {
    pub table: &'static str,
    pub column: &'static str,
    pub definition: &'static str,
}

/// The columns that were added since the first schema, in order.
pub open spec fn added_columns() -> Seq<(Seq<char>, Seq<char>, Seq<char>)> {
    seq![
        ("devices"@, "role"@, "TEXT NOT NULL DEFAULT 'publisher'"@),
        ("terminals"@, "accepts_input"@, "INTEGER NOT NULL DEFAULT 0"@),
        ("terminals"@, "origin"@, "TEXT NOT NULL DEFAULT 'publisher'"@),
        ("terminals"@, "requested_by_principal"@, "TEXT"@),
    ]
}

/// The columns that were added since the first schema, in order: what a device may do,
/// whether a terminal takes input, and who caused a terminal to exist.
pub fn columns_to_add() -> (columns: Vec<AddedColumn>)
    ensures
        columns@.map_values(|added: AddedColumn| (added.table@, added.column@, added.definition@))
            == added_columns(),
{
    let columns = vec![
        AddedColumn {
            table: "devices",
            column: "role",
            definition: "TEXT NOT NULL DEFAULT 'publisher'",
        },
        AddedColumn {
            table: "terminals",
            column: "accepts_input",
            definition: "INTEGER NOT NULL DEFAULT 0",
        },
        AddedColumn {
            table: "terminals",
            column: "origin",
            definition: "TEXT NOT NULL DEFAULT 'publisher'",
        },
        AddedColumn { table: "terminals", column: "requested_by_principal", definition: "TEXT" },
    ];
    assert(columns@.map_values(
        |added: AddedColumn| (added.table@, added.column@, added.definition@),
    ) =~= added_columns());
    columns
}

/// The statement that adds a column to a table with the given columns; none where the
/// table has it already, so that every step can be taken again.
pub fn migrate(added: &AddedColumn, existing: &[String]) -> (statement: Option<String>)
    ensures
        crate::text::option_view(statement) == (if texts(existing@).contains(added.column@) {
            None
        } else {
            Some(
                "ALTER TABLE "@ + added.table@ + " ADD COLUMN "@ + added.column@ + " "@
                    + added.definition@,
            )
        }),
{
    if text::holds(existing, added.column) {
        None
    } else {
        Some(
            "ALTER TABLE ".to_owned().concat(added.table).concat(" ADD COLUMN ").concat(
                added.column,
            ).concat(" ").concat(added.definition),
        )
    }
}

/// The statement that lists the columns of a column's table.
pub fn table_info(added: &AddedColumn) -> (statement: String)
    ensures
        statement@ == "PRAGMA table_info("@ + added.table@ + ")"@,
{
    "PRAGMA table_info(".to_owned().concat(added.table).concat(")")
}

/// The files that a database takes up: itself, its log and the log's index.
pub fn storage_files(path: &str) -> (files: Vec<String>)
    ensures
        texts(files@) == seq![path@, path@ + "-wal"@, path@ + "-shm"@],
{
    let files = vec![
        path.to_owned(),
        path.to_owned().concat("-wal"),
        path.to_owned().concat("-shm"),
    ];
    assert(texts(files@) =~= seq![path@, path@ + "-wal"@, path@ + "-shm"@]);
    files
}

} // verus!
