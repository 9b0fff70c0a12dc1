//! Checks on the skill that drives memory generation: the asset must be a
//! skill from an enabled source, and its `SKILL.md` small enough and opened
//! by a frontmatter that names and describes it.

use vstd::prelude::*;
use crate::error::{AppError, AppResult, message_with};
use crate::text::{chars_of, contains_sub, contains_vec, decimal, decimal_text, occurs_at, occurs_at_exec, starts_with, starts_with_vec, string_of};

verus! {

/// Largest `SKILL.md` a generation skill may have, in bytes.
pub const MAX_SKILL_FILE_SIZE_BYTES: u64 = 131072;

/// The asset must exist and be a skill.
pub fn check_skill_asset(asset_id: &str, found: bool, is_skill: bool) -> (r: AppResult<()>)
    ensures
        !found ==> (r matches Err(e) && e is NotFound && e->NotFound_0@ == "MEMORY_SKILL_NOT_FOUND: asset not found: "@
            + asset_id@),
        found && !is_skill ==> (r matches Err(e) && e is Validation && e->Validation_0@
            == "MEMORY_SKILL_WRONG_TYPE: asset "@ + asset_id@ + " is not a skill"@),
        found && is_skill ==> r is Ok,
{
    if !found {
        return Err(AppError::NotFound(message_with("MEMORY_SKILL_NOT_FOUND: asset not found: ", asset_id)));
    }
    if !is_skill {
        let mut m = message_with("MEMORY_SKILL_WRONG_TYPE: asset ", asset_id);
        m.append(" is not a skill");
        return Err(AppError::Validation(m));
    }
    Ok(())
}

/// The asset's source must exist and be enabled.
pub fn check_skill_source(source_id: &str, found: bool, enabled: bool) -> (r: AppResult<()>)
    ensures
        !found ==> (r matches Err(e) && e is NotFound && e->NotFound_0@ == "source not found for asset: "@ + source_id@),
        found && !enabled ==> (r matches Err(e) && e is Validation && e->Validation_0@ == "MEMORY_SKILL_UNTRUSTED: source "@
            + source_id@ + " is disabled or untrusted"@),
        found && enabled ==> r is Ok,
{
    if !found {
        return Err(AppError::NotFound(message_with("source not found for asset: ", source_id)));
    }
    if !enabled {
        let mut m = message_with("MEMORY_SKILL_UNTRUSTED: source ", source_id);
        m.append(" is disabled or untrusted");
        return Err(AppError::Validation(m));
    }
    Ok(())
}

/// The entry file must fit the size budget.
pub fn check_skill_entry_size(len: u64) -> (r: AppResult<()>)
    ensures
        len <= MAX_SKILL_FILE_SIZE_BYTES ==> r is Ok,
        len > MAX_SKILL_FILE_SIZE_BYTES ==> (r matches Err(e) && e is Validation && e->Validation_0@
            == "MEMORY_SKILL_TOO_LARGE: SKILL.md size "@ + decimal(len as nat) + " exceeds budget "@ + decimal(
            MAX_SKILL_FILE_SIZE_BYTES as nat,
        )),
{
    if len > MAX_SKILL_FILE_SIZE_BYTES {
        let mut m = chars_of("MEMORY_SKILL_TOO_LARGE: SKILL.md size ");
        crate::text::append_chars(&mut m, &decimal_text(len));
        crate::text::append_chars(&mut m, &chars_of(" exceeds budget "));
        crate::text::append_chars(&mut m, &decimal_text(MAX_SKILL_FILE_SIZE_BYTES));
        return Err(AppError::Validation(string_of(&m)));
    }
    Ok(())
}

/// The first index at or after `i` where `p` occurs in `s`.
pub open spec fn find_from(s: Seq<char>, p: Seq<char>, i: int) -> Option<int>
    decreases s.len() + 1 - i,
{
    if i < 0 || i > s.len() {
        None
    } else if occurs_at(s, p, i) {
        Some(i)
    } else {
        find_from(s, p, i + 1)
    }
}

/// Why a `SKILL.md` text has no usable frontmatter, if it has none: it must
/// open with `---`, close it with a line starting `---`, and name and
/// describe the skill in between.
pub open spec fn frontmatter_problem(content: Seq<char>) -> Option<Seq<char>> {
    if !starts_with(content, "---"@) {
        Some("MEMORY_SKILL_INVALID_FRONTMATTER: missing opening frontmatter delimiter"@)
    } else {
        let rest = content.skip(3);
        match find_from(rest, "\n---"@, 0) {
            None => Some("MEMORY_SKILL_INVALID_FRONTMATTER: missing closing frontmatter delimiter"@),
            Some(k) => {
                let front = rest.take(k);
                if !contains_sub(front, "name:"@) || !contains_sub(front, "description:"@) {
                    Some("MEMORY_SKILL_INVALID_FRONTMATTER: frontmatter must contain name and description"@)
                } else {
                    None
                }
            },
        }
    }
}

proof fn lemma_find_from_stays(s: Seq<char>, p: Seq<char>, i: int, j: int)
    requires
        0 <= i <= j <= s.len() + 1,
        forall|m: int| i <= m < j ==> !occurs_at(s, p, m),
    ensures
        find_from(s, p, i) == find_from(s, p, j),
    decreases j - i,
{
    if i < j {
        lemma_find_from_stays(s, p, i + 1, j);
    }
}

/// Checks the frontmatter of a `SKILL.md` text.
pub fn validate_skill_frontmatter(content: &str) -> (r: AppResult<()>)
    ensures
        match frontmatter_problem(content@) {
            None => r is Ok,
            Some(m) => r matches Err(e) && e is Validation && e->Validation_0@ == m,
        },
{
    let c = chars_of(content);
    if !starts_with_vec(&c, &chars_of("---")) {
        return Err(AppError::Validation(String::from_str(
            "MEMORY_SKILL_INVALID_FRONTMATTER: missing opening frontmatter delimiter",
        )));
    }
    proof {
        reveal_strlit("---");
    }
    let rest = crate::text::slice_chars(&c, 3, c.len());
    assert(rest@ =~= content@.skip(3));
    let close = chars_of("\n---");
    let mut i: usize = 0;
    let mut found: Option<usize> = None;
    assert(close@.len() == 4) by {
        reveal_strlit("\n---");
    }
    while i < rest.len()
        invariant_except_break
            found is None,
        invariant
            i <= rest@.len(),
            close@.len() == 4,
            forall|m: int| 0 <= m < i ==> !occurs_at(rest@, close@, m),
        ensures
            match found {
                Some(k) => k <= rest@.len() && occurs_at(rest@, close@, k as int) && forall|m: int|
                    0 <= m < k ==> !occurs_at(rest@, close@, m),
                None => forall|m: int| 0 <= m <= rest@.len() ==> !occurs_at(rest@, close@, m),
            },
        decreases rest.len() - i,
    {
        if occurs_at_exec(&rest, &close, i) {
            found = Some(i);
            break;
        }
        i = i + 1;
    }
    let k = match found {
        Some(k) => {
            proof {
                lemma_find_from_stays(rest@, close@, 0, k as int);
            }
            k
        },
        None => {
            proof {
                lemma_find_from_stays(rest@, close@, 0, rest@.len() + 1int);
            }
            return Err(AppError::Validation(String::from_str(
                "MEMORY_SKILL_INVALID_FRONTMATTER: missing closing frontmatter delimiter",
            )));
        },
    };
    let front = crate::text::slice_chars(&rest, 0, k);
    assert(front@ =~= rest@.take(k as int));
    if !contains_vec(&front, &chars_of("name:")) || !contains_vec(&front, &chars_of("description:")) {
        return Err(AppError::Validation(String::from_str(
            "MEMORY_SKILL_INVALID_FRONTMATTER: frontmatter must contain name and description",
        )));
    }
    Ok(())
}

} // verus!
