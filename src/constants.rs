//! File names and the database identity stamp.
use vstd::prelude::*;

verus! {

/// Default database filename.
pub const DB_NAME: &'static str = ".ffts-index.db";

/// WAL mode shm file suffix.
pub const DB_SHM_SUFFIX: &'static str = "-shm";

/// WAL mode wal file suffix.
pub const DB_WAL_SUFFIX: &'static str = "-wal";

/// Temporary file suffix during reindex.
pub const DB_TMP_SUFFIX: &'static str = ".tmp";

/// WAL mode shm file name.
pub const DB_SHM_NAME: &'static str = ".ffts-index.db-shm";

/// WAL mode wal file name.
pub const DB_WAL_NAME: &'static str = ".ffts-index.db-wal";

/// Temporary file name during reindex.
pub const DB_TMP_NAME: &'static str = ".ffts-index.db.tmp";

/// Temporary file glob for gitignore entries (covers suffix variants).
pub const DB_TMP_GLOB: &'static str = ".ffts-index.db.tmp*";

/// The `application_id` stamped into every database this indexer creates.
pub const EXPECTED_APPLICATION_ID: u32 = 0xA17E_6D42;

/// `EXPECTED_APPLICATION_ID` as the signed 32-bit value of the same bit pattern,
/// the form in which the store's header field holds it.
pub const APPLICATION_ID_I32: i32 = -1585550014;

/// Reads the store's signed header field as the unsigned identifier of the
/// same bit pattern.
pub fn application_id_from_stored(v: i32) -> (r: u32)
    ensures
        r as int == if v >= 0 { v as int } else { v + 0x1_0000_0000 },
{
    if v >= 0 {
        v as u32
    } else {
        (v as i64 + 0x1_0000_0000i64) as u32
    }
}

/// Writes an identifier as the signed header value of the same bit pattern.
pub fn application_id_to_stored(id: u32) -> (r: i32)
    ensures
        r as int == if id < 0x8000_0000 { id as int } else { id - 0x1_0000_0000 },
{
    if id < 0x8000_0000 {
        id as i32
    } else {
        (id as i64 - 0x1_0000_0000i64) as i32
    }
}

/// The stored form of the expected identifier reads back as that identifier.
pub proof fn lemma_application_id_stamp()
    ensures
        APPLICATION_ID_I32 + 0x1_0000_0000 == EXPECTED_APPLICATION_ID as int,
        APPLICATION_ID_I32 < 0,
{
}

} // verus!
