//! The store's schema and statements: the file table, the external-content
//! full-text table over it, the three triggers that keep both in step, the
//! three secondary indexes, the lazily invalidating upsert and the ranked
//! queries.
use vstd::prelude::*;
use crate::indexer::TxStatement;

verus! {

/// The file table: one row per indexed file, keyed by a dense integer id.
pub const FILES_TABLE_SQL: &'static str = "CREATE TABLE IF NOT EXISTS files (
    id INTEGER PRIMARY KEY,
    path TEXT UNIQUE NOT NULL,
    filename TEXT,
    content_hash TEXT,
    mtime INTEGER,
    size INTEGER,
    indexed_at INTEGER,
    content TEXT
)";

/// The full-text table over the file table: columns in the order
/// (filename, path, content), `porter unicode61` tokenizer, no column sizes.
pub const FTS_TABLE_SQL: &'static str = "CREATE VIRTUAL TABLE IF NOT EXISTS files_fts USING fts5(
    filename, path, content,
    content='files',
    content_rowid='id',
    tokenize='porter unicode61',
    columnsize=0
)";

/// Adds the full-text row of a new file row.
pub const INSERT_TRIGGER_SQL: &'static str = "CREATE TRIGGER IF NOT EXISTS files_ai AFTER INSERT ON files BEGIN
    INSERT INTO files_fts(rowid, filename, path, content)
    VALUES (new.id, new.filename, new.path, new.content);
END";

/// Replaces the full-text row of an updated file row (delete, then insert).
pub const UPDATE_TRIGGER_SQL: &'static str = "CREATE TRIGGER IF NOT EXISTS files_au AFTER UPDATE ON files BEGIN
    INSERT INTO files_fts(files_fts, rowid, filename, path, content)
    VALUES('delete', old.id, old.filename, old.path, old.content);
    INSERT INTO files_fts(rowid, filename, path, content)
    VALUES (new.id, new.filename, new.path, new.content);
END";

/// Removes the full-text row of a deleted file row.
pub const DELETE_TRIGGER_SQL: &'static str = "CREATE TRIGGER IF NOT EXISTS files_ad AFTER DELETE ON files BEGIN
    INSERT INTO files_fts(files_fts, rowid, filename, path, content)
    VALUES('delete', old.id, old.filename, old.path, old.content);
END";

pub const MTIME_INDEX_SQL: &'static str = "CREATE INDEX IF NOT EXISTS idx_files_mtime ON files(mtime)";

pub const PATH_INDEX_SQL: &'static str = "CREATE INDEX IF NOT EXISTS idx_files_path ON files(path)";

pub const HASH_INDEX_SQL: &'static str = "CREATE INDEX IF NOT EXISTS idx_files_hash ON files(content_hash)";

/// Insert-or-update of one file that leaves the row (and so its
/// full-text row and `indexed_at`) untouched when the content hash is the
/// stored one. Parameters: path, filename, content hash, mtime, size,
/// indexed_at, content.
pub const UPSERT_SQL: &'static str = "INSERT INTO files (path, filename, content_hash, mtime, size, indexed_at, content)
VALUES (?, ?, ?, ?, ?, ?, ?)
ON CONFLICT(path) DO UPDATE SET
    filename = excluded.filename,
    content_hash = excluded.content_hash,
    mtime = excluded.mtime,
    size = excluded.size,
    indexed_at = excluded.indexed_at,
    content = excluded.content
WHERE excluded.content_hash != (SELECT content_hash FROM files WHERE path = excluded.path)";

/// Full-text MATCH on the path column, ranked by BM25 with weights
/// filename 100, path 50, content 1 (lower is better).
pub const SEARCH_PATHS_SQL: &'static str = "SELECT path, bm25(files_fts, 100.0, 50.0, 1.0) FROM files_fts
WHERE path MATCH ?1 ORDER BY bm25(files_fts, 100.0, 50.0, 1.0) LIMIT ?2";

/// Full-text MATCH on all columns, ranked as `SEARCH_PATHS_SQL`.
pub const SEARCH_ALL_SQL: &'static str = "SELECT path, bm25(files_fts, 100.0, 50.0, 1.0) FROM files_fts
WHERE files_fts MATCH ?1 ORDER BY bm25(files_fts, 100.0, 50.0, 1.0) LIMIT ?2";

/// Case-insensitive filename substring match: exact names first, then
/// prefixes, then the rest, shorter names first. Parameters: the escaped
/// LIKE term, the plain term, the limit.
pub const FILENAME_CONTAINS_SQL: &'static str = "SELECT path FROM files
WHERE filename LIKE '%' || ?1 || '%' ESCAPE '\\' COLLATE NOCASE
ORDER BY
    CASE WHEN LOWER(filename) = LOWER(?2) THEN 0
         WHEN LOWER(filename) LIKE LOWER(?1) || '%' ESCAPE '\\' THEN 1
         ELSE 2 END,
    length(filename)
LIMIT ?3";

/// Counts of the eight schema objects, in the order of `SchemaCheck::from_counts`.
pub const SCHEMA_CHECK_SQL: &'static str = "SELECT
    (SELECT COUNT(*) FROM sqlite_master WHERE type='table' AND name='files'),
    (SELECT COUNT(*) FROM sqlite_master WHERE type='table' AND name='files_fts'),
    (SELECT COUNT(*) FROM sqlite_master WHERE type='trigger' AND name='files_ai'),
    (SELECT COUNT(*) FROM sqlite_master WHERE type='trigger' AND name='files_au'),
    (SELECT COUNT(*) FROM sqlite_master WHERE type='trigger' AND name='files_ad'),
    (SELECT COUNT(*) FROM sqlite_master WHERE type='index' AND name='idx_files_mtime'),
    (SELECT COUNT(*) FROM sqlite_master WHERE type='index' AND name='idx_files_path'),
    (SELECT COUNT(*) FROM sqlite_master WHERE type='index' AND name='idx_files_hash')";

/// The statements that create the schema, in order: tables, triggers, indexes.
pub fn schema_statements() -> (r: [&'static str; 8])
    ensures
        r@[0] == FILES_TABLE_SQL && r@[1] == FTS_TABLE_SQL && r@[2] == INSERT_TRIGGER_SQL
            && r@[3] == UPDATE_TRIGGER_SQL && r@[4] == DELETE_TRIGGER_SQL && r@[5]
            == MTIME_INDEX_SQL && r@[6] == PATH_INDEX_SQL && r@[7] == HASH_INDEX_SQL,
{
    [
        FILES_TABLE_SQL,
        FTS_TABLE_SQL,
        INSERT_TRIGGER_SQL,
        UPDATE_TRIGGER_SQL,
        DELETE_TRIGGER_SQL,
        MTIME_INDEX_SQL,
        PATH_INDEX_SQL,
        HASH_INDEX_SQL,
    ]
}

/// The full-text query for a search over paths only or over all columns.
pub fn search_sql(paths_only: bool) -> (r: &'static str)
    ensures
        r == if paths_only { SEARCH_PATHS_SQL } else { SEARCH_ALL_SQL },
{
    if paths_only {
        SEARCH_PATHS_SQL
    } else {
        SEARCH_ALL_SQL
    }
}

/// The text of a transaction statement.
pub fn tx_sql(s: TxStatement) -> (r: &'static str)
    ensures
        r@ == match s {
            TxStatement::BeginImmediate => "BEGIN IMMEDIATE"@,
            TxStatement::Commit => "COMMIT"@,
            TxStatement::Rollback => "ROLLBACK"@,
        },
{
    match s {
        TxStatement::BeginImmediate => "BEGIN IMMEDIATE",
        TxStatement::Commit => "COMMIT",
        TxStatement::Rollback => "ROLLBACK",
    }
}

} // verus!
