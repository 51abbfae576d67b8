//! Project initialization: the ignore-file entries the indexer needs and
//! the report printed after an initialization.
use vstd::prelude::*;
use crate::constants::{DB_NAME, DB_SHM_NAME, DB_TMP_GLOB, DB_WAL_NAME};
use crate::number::{decimal, decimal_string};
use crate::query::{trim, trim_ws};
use crate::text::{chars_of, string_from_str, string_of};

verus! {

/// Required ignore-file entries: the database, its two WAL companions and
/// the temporary files of atomic operations.
pub fn gitignore_entries() -> (r: [&'static str; 4])
    ensures
        r@[0]@ == DB_NAME@,
        r@[1]@ == DB_SHM_NAME@,
        r@[2]@ == DB_WAL_NAME@,
        r@[3]@ == DB_TMP_GLOB@,
{
    [DB_NAME, DB_SHM_NAME, DB_WAL_NAME, DB_TMP_GLOB]
}

/// Result of an ignore-file update.
#[derive(Debug, Clone, Copy, PartialEq, Eq, Structural)]
pub enum GitignoreResult {
    /// Created a new file with this many entries.
    Created(usize),
    /// Added this many entries to an existing file.
    Updated(usize),
    /// All entries already present.
    AlreadyComplete,
}

/// Result of an init operation.
#[derive(Debug, Clone, Copy, PartialEq, Eq, Structural)]
pub struct InitResult {
    pub gitignore: GitignoreResult,
    pub database_created: bool,
    pub files_indexed: usize,
}

/// The lines of `s`, split at `\n`.
pub open spec fn lines_of(s: Seq<char>) -> Seq<Seq<char>>
    decreases s.len(),
{
    if s.len() == 0 {
        seq![Seq::empty()]
    } else if s.last() == '\n' {
        lines_of(s.drop_last()).push(Seq::empty())
    } else {
        let l = lines_of(s.drop_last());
        l.update(l.len() - 1, l.last().push(s.last()))
    }
}

/// Whether some line of `content`, trimmed, is exactly `entry`.
pub open spec fn has_entry(content: Seq<char>, entry: Seq<char>) -> bool {
    exists|i: int| 0 <= i < lines_of(content).len() && trim(#[trigger] lines_of(content)[i]) == entry
}

fn line_matches(cur: &Vec<char>, entry: &str) -> (r: bool)
    ensures
        r == (trim(cur@) == entry@),
{
    let s = string_of(cur);
    let t = trim_ws(s.as_str());
    crate::db::str_eq(t.as_str(), entry)
}

/// Whether an ignore file's content lists `entry` on a line of its own
/// (surrounding whitespace aside).
pub fn gitignore_has_entry(content: &str, entry: &str) -> (r: bool)
    ensures
        r == has_entry(content@, entry@),
{
    let cs = chars_of(content);
    let mut cur: Vec<char> = Vec::new();
    let ghost mut done: Seq<Seq<char>> = Seq::empty();
    let mut i: usize = 0;
    while i < cs.len()
        invariant
            i <= cs.len(),
            cs@ == content@,
            done.push(cur@) == lines_of(cs@.subrange(0, i as int)),
            forall|k: int| 0 <= k < done.len() ==> trim(#[trigger] done[k]) != entry@,
        decreases cs.len() - i,
    {
        let ghost pre = cs@.subrange(0, i as int);
        assert(cs@.subrange(0, i + 1).drop_last() =~= pre);
        if cs[i] == '\n' {
            if line_matches(&cur, entry) {
                proof {
                    lemma_lines_keep(cs@, i as int);
                    assert(lines_of(cs@)[done.len() as int] == cur@);
                }
                return true;
            }
            proof {
                done = done.push(cur@);
            }
            cur = Vec::new();
            assert(done.push(cur@) =~= lines_of(cs@.subrange(0, i + 1)));
        } else {
            cur.push(cs[i]);
            assert(done.push(cur@) =~= lines_of(cs@.subrange(0, i + 1)));
        }
        i = i + 1;
    }
    assert(cs@.subrange(0, cs.len() as int) =~= cs@);
    let last = line_matches(&cur, entry);
    proof {
        let l = lines_of(cs@);
        if !last {
            assert forall|k: int| 0 <= k < l.len() implies trim(#[trigger] l[k]) != entry@ by {
                if k < done.len() {
                    assert(l[k] == done[k]);
                }
            }
        } else {
            assert(l[l.len() - 1] == cur@);
        }
    }
    last
}

proof fn lemma_lines_keep(cs: Seq<char>, i: int)
    requires
        0 <= i < cs.len(),
        cs[i] == '\n',
    ensures
        forall|k: int|
            0 <= k < lines_of(cs.subrange(0, i)).len() ==> #[trigger] lines_of(cs)[k] == lines_of(
                cs.subrange(0, i),
            )[k],
        lines_of(cs).len() > lines_of(cs.subrange(0, i)).len(),
{
    lemma_lines_prefix(cs, i, cs.len() as int);
    assert(cs.subrange(0, cs.len() as int) =~= cs);
}

proof fn lemma_lines_prefix(cs: Seq<char>, i: int, j: int)
    requires
        0 <= i < j <= cs.len(),
        cs[i] == '\n',
    ensures
        lines_of(cs.subrange(0, j)).len() > lines_of(cs.subrange(0, i)).len(),
        forall|k: int|
            0 <= k < lines_of(cs.subrange(0, i)).len() ==> #[trigger] lines_of(cs.subrange(0, j))[k]
                == lines_of(cs.subrange(0, i))[k],
    decreases j - i,
{
    if j == i + 1 {
        assert(cs.subrange(0, j).drop_last() =~= cs.subrange(0, i));
    } else {
        lemma_lines_prefix(cs, i, j - 1);
        assert(cs.subrange(0, j).drop_last() =~= cs.subrange(0, j - 1));
    }
}

/// The required entries that an ignore file's content lacks, in the order
/// of `gitignore_entries`.
pub fn missing_gitignore_entries(content: &str) -> (r: Vec<&'static str>)
    ensures
        crate::db::names(r@) == crate::db::listed(!has_entry(content@, DB_NAME@), DB_NAME@)
            + crate::db::listed(!has_entry(content@, DB_SHM_NAME@), DB_SHM_NAME@)
            + crate::db::listed(!has_entry(content@, DB_WAL_NAME@), DB_WAL_NAME@)
            + crate::db::listed(!has_entry(content@, DB_TMP_GLOB@), DB_TMP_GLOB@),
{
    let mut missing: Vec<&'static str> = Vec::new();
    let entries = gitignore_entries();
    let mut i: usize = 0;
    let ghost es = seq![DB_NAME@, DB_SHM_NAME@, DB_WAL_NAME@, DB_TMP_GLOB@];
    let ghost mut acc: Seq<Seq<char>> = Seq::empty();
    while i < 4
        invariant
            i <= 4,
            entries@.len() == 4,
            es == seq![DB_NAME@, DB_SHM_NAME@, DB_WAL_NAME@, DB_TMP_GLOB@],
            forall|k: int| 0 <= k < 4 ==> (#[trigger] entries@[k])@ == es[k],
            crate::db::names(missing@) == missing_prefix(content@, es, i as int),
        decreases 4 - i,
    {
        let e = entries[i];
        let ghost before = missing@;
        if !gitignore_has_entry(content, e) {
            missing.push(e);
        }
        assert(crate::db::names(missing@) =~= crate::db::names(before) + crate::db::listed(
            !has_entry(content@, es[i as int]),
            es[i as int],
        ));
        i = i + 1;
    }
    assert(missing_prefix(content@, es, 0) =~= Seq::<Seq<char>>::empty());
    let ghost l0 = crate::db::listed(!has_entry(content@, es[0]), es[0]);
    let ghost l1 = crate::db::listed(!has_entry(content@, es[1]), es[1]);
    let ghost l2 = crate::db::listed(!has_entry(content@, es[2]), es[2]);
    let ghost l3 = crate::db::listed(!has_entry(content@, es[3]), es[3]);
    assert(missing_prefix(content@, es, 1) =~= l0);
    assert(missing_prefix(content@, es, 2) =~= l0 + l1);
    assert(missing_prefix(content@, es, 3) =~= l0 + l1 + l2);
    assert(missing_prefix(content@, es, 4) =~= l0 + l1 + l2 + l3);
    assert(missing_prefix(content@, es, 4) =~= crate::db::listed(!has_entry(content@, DB_NAME@), DB_NAME@)
        + crate::db::listed(!has_entry(content@, DB_SHM_NAME@), DB_SHM_NAME@)
        + crate::db::listed(!has_entry(content@, DB_WAL_NAME@), DB_WAL_NAME@)
        + crate::db::listed(!has_entry(content@, DB_TMP_GLOB@), DB_TMP_GLOB@));
    missing
}

/// The missing entries among the first `n` of `es`.
pub open spec fn missing_prefix(content: Seq<char>, es: Seq<Seq<char>>, n: int) -> Seq<Seq<char>>
    decreases n,
{
    if n <= 0 {
        Seq::empty()
    } else {
        missing_prefix(content, es, n - 1) + crate::db::listed(!has_entry(content, es[n - 1]), es[n - 1])
    }
}

/// The comment line that introduces the indexer's entries.
pub const GITIGNORE_HEADER: &'static str = "# ffts-grep database files";

/// Each entry on a line of its own.
pub open spec fn entry_lines(m: Seq<Seq<char>>) -> Seq<char>
    decreases m.len(),
{
    if m.len() == 0 {
        Seq::empty()
    } else {
        entry_lines(m.drop_last()) + m.last() + seq!['\n']
    }
}

/// The ignore file after adding `missing` to `existing`: a final newline
/// is supplied if absent; the header comment (after a blank line, when the
/// file is not empty) is added unless already present; then one entry per line.
pub open spec fn gitignore_update(existing: Seq<char>, missing: Seq<Seq<char>>) -> Seq<char> {
    let base = if existing.len() > 0 && existing.last() != '\n' {
        existing.push('\n')
    } else {
        existing
    };
    let head = if crate::indexer::contains_str(existing, GITIGNORE_HEADER@) {
        base
    } else {
        (if base.len() > 0 {
            base.push('\n')
        } else {
            base
        }) + GITIGNORE_HEADER@ + seq!['\n']
    };
    head + entry_lines(missing)
}

/// The new content of an ignore file that lacks the entries `missing`.
pub fn gitignore_with_entries(existing: &str, missing: &Vec<&'static str>) -> (r: String)
    ensures
        r@ == gitignore_update(existing@, crate::db::names(missing@)),
{
    let mut content = string_from_str(existing);
    let cs = chars_of(existing);
    if cs.len() > 0 && cs[cs.len() - 1] != '\n' {
        crate::text::push_char(&mut content, '\n');
    }
    if !crate::indexer::str_contains(existing, GITIGNORE_HEADER) {
        if cs.len() > 0 {
            crate::text::push_char(&mut content, '\n');
        }
        content = content.concat(GITIGNORE_HEADER);
        crate::text::push_char(&mut content, '\n');
    }
    let ghost head = content@;
    let ghost m = crate::db::names(missing@);
    let mut i: usize = 0;
    while i < missing.len()
        invariant
            i <= missing.len(),
            m == crate::db::names(missing@),
            content@ == head + entry_lines(m.subrange(0, i as int)),
        decreases missing.len() - i,
    {
        content = content.concat(missing[i]);
        crate::text::push_char(&mut content, '\n');
        assert(m.subrange(0, i + 1).drop_last() =~= m.subrange(0, i as int));
        assert(m.subrange(0, i + 1).last() == missing@[i as int]@);
        i = i + 1;
        assert(content@ =~= head + entry_lines(m.subrange(0, i as int)));
    }
    assert(m.subrange(0, missing.len() as int) =~= m);
    content
}

// ---------------------------------------------------------------------
// The init report
// ---------------------------------------------------------------------

/// The text reported after an initialization (nothing when quiet).
pub open spec fn init_report(r: InitResult, quiet: bool) -> Seq<char> {
    if quiet {
        Seq::empty()
    } else {
        let ignore_line = match r.gitignore {
            GitignoreResult::Created(n) => "\u{2713} .gitignore: Created with "@ + decimal(n as nat)
                + " entries\n"@,
            GitignoreResult::Updated(n) => "\u{2713} .gitignore: Added "@ + decimal(n as nat)
                + " entries\n"@,
            GitignoreResult::AlreadyComplete => "\u{2713} .gitignore: Already configured\n"@,
        };
        let db_line = if r.database_created {
            "\u{2713} Database: Created "@ + DB_NAME@ + " ("@ + decimal(r.files_indexed as nat)
                + " files)\n"@
        } else if r.files_indexed > 0 {
            "\u{2713} Database: Already exists ("@ + decimal(r.files_indexed as nat) + " files)\n"@
        } else {
            Seq::empty()
        };
        let created_ignore = r.gitignore matches GitignoreResult::Created(_);
        let hint = if r.database_created || created_ignore {
            "\nTo use with file explorers or editors, run:\n  ffts-grep search <query>\n"@
        } else {
            Seq::empty()
        };
        let summary = if r.database_created || !(r.gitignore matches GitignoreResult::AlreadyComplete) {
            "Initialization complete.\n"@
        } else {
            "Already initialized.\n"@
        };
        "\n"@ + ignore_line + db_line + hint + "\n"@ + summary
    }
}

/// The report of an initialization: the ignore-file status, the database
/// status, a usage hint when something was created, and a summary line.
pub fn output_init_result(result: &InitResult, quiet: bool) -> (r: String)
    ensures
        r@ == init_report(*result, quiet),
{
    if quiet {
        return String::new();
    }
    let ignore_line = match result.gitignore {
        GitignoreResult::Created(n) => {
            let d = decimal_string(n as u64);
            string_from_str("\u{2713} .gitignore: Created with ").concat(d.as_str()).concat(" entries\n")
        },
        GitignoreResult::Updated(n) => {
            let d = decimal_string(n as u64);
            string_from_str("\u{2713} .gitignore: Added ").concat(d.as_str()).concat(" entries\n")
        },
        GitignoreResult::AlreadyComplete => string_from_str("\u{2713} .gitignore: Already configured\n"),
    };
    let db_line = if result.database_created {
        let d = decimal_string(result.files_indexed as u64);
        string_from_str("\u{2713} Database: Created ").concat(DB_NAME).concat(" (").concat(d.as_str()).concat(
            " files)\n",
        )
    } else if result.files_indexed > 0 {
        let d = decimal_string(result.files_indexed as u64);
        string_from_str("\u{2713} Database: Already exists (").concat(d.as_str()).concat(" files)\n")
    } else {
        String::new()
    };
    let created_ignore = match result.gitignore {
        GitignoreResult::Created(_) => true,
        _ => false,
    };
    let hint = if result.database_created || created_ignore {
        string_from_str("\nTo use with file explorers or editors, run:\n  ffts-grep search <query>\n")
    } else {
        String::new()
    };
    let complete = match result.gitignore {
        GitignoreResult::AlreadyComplete => false,
        _ => true,
    };
    let summary = if result.database_created || complete {
        string_from_str("Initialization complete.\n")
    } else {
        string_from_str("Already initialized.\n")
    };
    let out = string_from_str("\n").concat(ignore_line.as_str()).concat(db_line.as_str()).concat(
        hint.as_str(),
    ).concat("\n").concat(summary.as_str());
    out
}

} // verus!
