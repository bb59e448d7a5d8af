//! Importing the log files of a folder, one after the other.

use vstd::prelude::*;
use crate::models::text_of;
use crate::parser::ParserError;
use crate::tags::is_text;
use crate::text::{
    chars_of, copy_range, ends_with, ends_with_text, lowercase_of, string_of, to_lowercase,
};

verus! {

/// How the import of one file of the folder ended.
#[derive(Debug, Clone, Copy, PartialEq, Eq, Structural)]
pub enum SyncOutcome {
    /// The flight is stored.
    Imported,
    /// The flight was there already.
    Skipped,
    /// The file gave no flight.
    Failed,
}

/// How many files of the folder ended in which way.
#[derive(Debug, Clone, Copy, PartialEq, Eq, Structural)]
pub struct SyncTally {
    pub processed: usize,
    pub skipped: usize,
    pub errors: usize,
}

/// True when a file name in lower case is that of a log file: it ends with
/// `.txt` or with `.csv`.
pub open spec fn is_log_name(lowered: Seq<char>) -> bool {
    ends_with_text(lowered, ".txt"@) || ends_with_text(lowered, ".csv"@)
}

/// Says whether a file name in lower case is that of a log file.
pub fn check_log_name(lowered: &str) -> (r: bool)
    ensures
        r == is_log_name(lowered@),
{
    let name = chars_of(lowered);
    ends_with(&name, &chars_of(".txt")) || ends_with(&name, &chars_of(".csv"))
}

/// Says whether a file of the folder is a log file, by its name, whatever
/// the case of the name.
pub fn is_log_file_name(name: &str) -> (r: bool)
    ensures
        r == is_log_name(lowercase_of(name@)),
{
    let lowered = to_lowercase(name);
    check_log_name(lowered.as_str())
}

/// How a file that gave no flight counts: one that was imported before is
/// passed over, any other is a failure.
pub fn outcome_of_error(error: &ParserError) -> (r: SyncOutcome)
    ensures
        r == (if error is AlreadyImported {
            SyncOutcome::Skipped
        } else {
            SyncOutcome::Failed
        }),
{
    match error {
        ParserError::AlreadyImported(_) => SyncOutcome::Skipped,
        _ => SyncOutcome::Failed,
    }
}

/// How many of the first `n` outcomes are `wanted`.
pub open spec fn count_outcomes(outcomes: Seq<SyncOutcome>, wanted: SyncOutcome, n: int) -> nat
    decreases n,
{
    if n <= 0 {
        0
    } else {
        count_outcomes(outcomes, wanted, n - 1) + if outcomes[n - 1] == wanted {
            1nat
        } else {
            0nat
        }
    }
}

/// Counts the outcomes of a sync. A failure of one file takes nothing from
/// the files before it: every file counts for itself.
pub fn tally(outcomes: &Vec<SyncOutcome>) -> (r: SyncTally)
    ensures
        r.processed == count_outcomes(outcomes@, SyncOutcome::Imported, outcomes@.len() as int),
        r.skipped == count_outcomes(outcomes@, SyncOutcome::Skipped, outcomes@.len() as int),
        r.errors == count_outcomes(outcomes@, SyncOutcome::Failed, outcomes@.len() as int),
        r.processed + r.skipped + r.errors == outcomes@.len(),
{
    let mut processed: usize = 0;
    let mut skipped: usize = 0;
    let mut errors: usize = 0;
    let mut i: usize = 0;
    while i < outcomes.len()
        invariant
            i <= outcomes.len(),
            processed == count_outcomes(outcomes@, SyncOutcome::Imported, i as int),
            skipped == count_outcomes(outcomes@, SyncOutcome::Skipped, i as int),
            errors == count_outcomes(outcomes@, SyncOutcome::Failed, i as int),
            processed + skipped + errors == i,
        decreases outcomes.len() - i,
    {
        match outcomes[i] {
            SyncOutcome::Imported => {
                processed += 1;
            },
            SyncOutcome::Skipped => {
                skipped += 1;
            },
            SyncOutcome::Failed => {
                errors += 1;
            },
        }
        i += 1;
    }
    SyncTally { processed, skipped, errors }
}

/// The first eight characters of a hash, or all where it has fewer.
pub open spec fn hash_prefix(hash: Seq<char>) -> Seq<char> {
    if hash.len() > 8 {
        hash.take(8)
    } else {
        hash
    }
}

/// The name under which an uploaded file is kept. Where no file of its
/// name is kept yet, it is its own name. Where one is kept with the same
/// content, the file is not kept again. Where one is kept with other
/// content, the name gets the beginning of the content hash behind the
/// stem.
pub open spec fn kept_name(
    file_name: Seq<char>,
    file_stem: Seq<char>,
    extension: Seq<char>,
    hash: Seq<char>,
    kept_hash: Option<Seq<char>>,
) -> Option<Seq<char>> {
    match kept_hash {
        None => Some(file_name),
        Some(k) => if k == hash {
            None
        } else if extension.len() == 0 {
            Some(file_stem + "_"@ + hash_prefix(hash))
        } else {
            Some(file_stem + "_"@ + hash_prefix(hash) + "."@ + extension)
        },
    }
}

/// Decides under which name an uploaded file is kept; see [`kept_name`].
pub fn name_to_keep(
    file_name: &str,
    file_stem: &str,
    extension: &str,
    hash: &str,
    kept_hash: Option<&str>,
) -> (r: Option<String>)
    ensures
        text_of(r) == kept_name(
            file_name@,
            file_stem@,
            extension@,
            hash@,
            crate::database::str_view(kept_hash),
        ),
{
    match kept_hash {
        None => Some(file_name.to_owned()),
        Some(k) => {
            if is_text(k, hash) {
                return None;
            }
            let h = chars_of(hash);
            let prefix = if h.len() > 8 {
                let p = copy_range(&h, 0, 8);
                assert(h@.subrange(0, 8) =~= h@.take(8));
                string_of(&p)
            } else {
                hash.to_owned()
            };
            let mut name = file_stem.to_owned();
            name.append("_");
            name.append(prefix.as_str());
            if !extension.is_empty() {
                name.append(".");
                name.append(extension);
            }
            Some(name)
        },
    }
}

} // verus!
