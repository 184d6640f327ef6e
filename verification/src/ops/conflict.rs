//! Detection of unresolved merge states in short-format status listings.

use vstd::prelude::*;

use crate::text::chars_of;

verus! {

/// The two-letter status codes that mark a path as unmerged.
pub open spec fn is_conflict_code(x: char, y: char) -> bool {
    ||| (x == 'D' && y == 'D')
    ||| (x == 'A' && y == 'U')
    ||| (x == 'U' && y == 'D')
    ||| (x == 'U' && y == 'A')
    ||| (x == 'D' && y == 'U')
    ||| (x == 'A' && y == 'A')
    ||| (x == 'U' && y == 'U')
}

/// Position `i` is the first character of a line of `text`.
pub open spec fn line_starts_at(text: Seq<char>, i: int) -> bool {
    0 <= i < text.len() && (i == 0 || text[i - 1] == '\n')
}

/// A line of `text` begins at `i` with a conflict code.
pub open spec fn conflict_at(text: Seq<char>, i: int) -> bool {
    line_starts_at(text, i) && i + 1 < text.len() && is_conflict_code(text[i], text[i + 1])
}

/// Some line of `text` begins with a conflict code.
pub open spec fn has_conflict(text: Seq<char>) -> bool {
    exists|i: int| conflict_at(text, i)
}

pub fn conflict_code(x: char, y: char) -> (r: bool)
    ensures
        r == is_conflict_code(x, y),
{
    (x == 'D' && y == 'D') || (x == 'A' && y == 'U') || (x == 'U' && y == 'D') || (x == 'U'
        && y == 'A') || (x == 'D' && y == 'U') || (x == 'A' && y == 'A') || (x == 'U' && y == 'U')
}

/// Scans a status listing for a line that begins with a conflict code.
pub fn status_has_conflict(status: &str) -> (r: bool)
    ensures
        r == has_conflict(status@),
{
    let chars = chars_of(status);
    let n = chars.len();
    let mut i: usize = 0;
    while i < n
        invariant
            i <= n,
            n == chars.len(),
            chars@ == status@,
            forall|j: int| 0 <= j < i ==> !conflict_at(status@, j),
        decreases n - i,
    {
        let starts = i == 0 || chars[i - 1] == '\n';
        if starts && i + 1 < n && conflict_code(chars[i], chars[i + 1]) {
            assert(conflict_at(status@, i as int));
            return true;
        }
        i = i + 1;
    }
    false
}

} // verus!
