//! Checking the entries of a package artifact before anything is
//! extracted: how many there are, that their paths are safe and distinct,
//! that none is a symlink, and that together they stay within a size cap.

use vstd::prelude::*;
use crate::error::{AppError, AppResult, message_with};

verus! {

/// An entry of a package artifact, as the checks read it.
pub struct ArtifactEntry {
    /// The name the archive gives the entry.
    pub name: String,
    /// The entry's portable path key (two entries with the same key would
    /// land on the same file), or why its path is unsafe.
    pub path_key: Result<String, String>,
    /// The Unix mode bits recorded for the entry, if any.
    pub unix_mode: Option<u32>,
    /// The uncompressed size of the entry.
    pub size: u64,
}

/// Most entries an artifact may hold.
pub const MAX_ARTIFACT_ENTRIES: usize = 10000;

/// Most bytes an artifact may expand to.
pub const MAX_ARTIFACT_BYTES: u64 = 1073741824;

/// The recorded mode marks a symbolic link.
pub open spec fn is_symlink_mode(mode: Option<u32>) -> bool {
    mode matches Some(m) && (m & 0o170000u32) == 0o120000u32
}

/// The entry's path is safe and has the key `key`.
pub open spec fn has_key(x: ArtifactEntry, key: Seq<char>) -> bool {
    match x.path_key {
        Ok(k) => k@ == key,
        Err(_) => false,
    }
}

/// The first of the first `n` entries whose path key is `key`.
pub open spec fn first_key_index(e: Seq<ArtifactEntry>, key: Seq<char>, n: int) -> Option<int>
    decreases n,
{
    if n <= 0 {
        None
    } else {
        match first_key_index(e, key, n - 1) {
            Some(j) => Some(j),
            None => if has_key(e[n - 1], key) {
                Some(n - 1)
            } else {
                None
            },
        }
    }
}

/// The problem of the first offending entry from `i` on, `total` bytes
/// being taken by the entries before it.
pub open spec fn artifact_scan(e: Seq<ArtifactEntry>, i: int, total: int) -> Option<Seq<char>>
    decreases e.len() - i,
{
    if i < 0 || i >= e.len() {
        None
    } else {
        let x = e[i];
        match x.path_key {
            Err(m) => Some("conversation adapter package artifact contains an unsafe path: "@ + m@),
            Ok(k) => match first_key_index(e, k@, i) {
                Some(j) => Some(
                    "conversation adapter package artifact contains colliding paths: "@ + e[j].name@ + " and "@
                        + x.name@,
                ),
                None => if is_symlink_mode(x.unix_mode) {
                    Some("conversation adapter package artifact must not contain symlinks"@)
                } else if total + x.size > MAX_ARTIFACT_BYTES {
                    Some("conversation adapter package artifact expands beyond 1 GiB"@)
                } else {
                    artifact_scan(e, i + 1, total + x.size)
                },
            },
        }
    }
}

/// Why an artifact with these entries is refused, if it is.
pub open spec fn artifact_entries_problem(e: Seq<ArtifactEntry>) -> Option<Seq<char>> {
    if e.len() > MAX_ARTIFACT_ENTRIES {
        Some("conversation adapter package artifact contains too many entries"@)
    } else {
        artifact_scan(e, 0, 0)
    }
}

proof fn lemma_first_key_index(e: Seq<ArtifactEntry>, key: Seq<char>, n: int)
    requires
        0 <= n <= e.len(),
    ensures
        match first_key_index(e, key, n) {
            Some(j) => 0 <= j < n && has_key(e[j], key) && forall|m: int|
                0 <= m < j ==> !has_key(#[trigger] e[m], key),
            None => forall|m: int| 0 <= m < n ==> !has_key(#[trigger] e[m], key),
        },
    decreases n,
{
    if n > 0 {
        lemma_first_key_index(e, key, n - 1);
    }
}

/// The first of the first `n` entries whose path key is `key`.
fn find_key(entries: &Vec<ArtifactEntry>, key: &String, n: usize) -> (r: Option<usize>)
    requires
        n <= entries@.len(),
    ensures
        match r {
            Some(j) => j < n && first_key_index(entries@, key@, n as int) == Some(j as int),
            None => first_key_index(entries@, key@, n as int) is None,
        },
{
    let ghost e = entries@;
    proof {
        lemma_first_key_index(e, key@, n as int);
    }
    let mut j: usize = 0;
    while j < n
        invariant
            j <= n <= e.len(),
            e == entries@,
            forall|m: int| 0 <= m < j ==> !has_key(#[trigger] e[m], key@),
            match first_key_index(e, key@, n as int) {
                Some(f) => 0 <= f < n && has_key(e[f], key@) && forall|m: int|
                    0 <= m < f ==> !has_key(#[trigger] e[m], key@),
                None => forall|m: int| 0 <= m < n ==> !has_key(#[trigger] e[m], key@),
            },
        decreases n - j,
    {
        let hit = match &entries[j].path_key {
            Ok(k) => *k == *key,
            Err(_) => false,
        };
        if hit {
            return Some(j);
        }
        j = j + 1;
    }
    None
}

/// Checks the entries of an artifact in order; the first problem found is
/// reported.
pub fn check_artifact_entries(entries: &Vec<ArtifactEntry>) -> (r: AppResult<()>)
    ensures
        match artifact_entries_problem(entries@) {
            None => r is Ok,
            Some(m) => r matches Err(e) && e is Validation && e->Validation_0@ == m,
        },
{
    if entries.len() > MAX_ARTIFACT_ENTRIES {
        return Err(AppError::Validation(String::from_str(
            "conversation adapter package artifact contains too many entries",
        )));
    }
    let ghost e = entries@;
    let mut total: u64 = 0;
    let mut i: usize = 0;
    while i < entries.len()
        invariant
            i <= e.len(),
            e == entries@,
            e.len() <= MAX_ARTIFACT_ENTRIES,
            total <= MAX_ARTIFACT_BYTES,
            artifact_scan(e, 0, 0) == artifact_scan(e, i as int, total as int),
        decreases entries.len() - i,
    {
        let entry = &entries[i];
        match &entry.path_key {
            Err(m) => {
                assert(e[i as int].path_key == entry.path_key);
                return Err(AppError::Validation(message_with(
                    "conversation adapter package artifact contains an unsafe path: ",
                    m.as_str(),
                )));
            },
            Ok(key) => {
                if let Some(j) = find_key(entries, key, i) {
                    let mut message = message_with(
                        "conversation adapter package artifact contains colliding paths: ",
                        entries[j].name.as_str(),
                    );
                    message.append(" and ");
                    message.append(entry.name.as_str());
                    return Err(AppError::Validation(message));
                }
                let symlink = match entry.unix_mode {
                    Some(m) => (m & 0o170000u32) == 0o120000u32,
                    None => false,
                };
                if symlink {
                    return Err(AppError::Validation(String::from_str(
                        "conversation adapter package artifact must not contain symlinks",
                    )));
                }
                if entry.size > MAX_ARTIFACT_BYTES - total {
                    return Err(AppError::Validation(String::from_str(
                        "conversation adapter package artifact expands beyond 1 GiB",
                    )));
                }
                total = total + entry.size;
            },
        }
        i = i + 1;
    }
    Ok(())
}

} // verus!
