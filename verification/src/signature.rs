//! Removal of signature blocks from version descriptions.
//!
//! A signed tag carries its signature in its message, between a begin marker
//! and an end marker. A block reaches from a begin marker to the nearest end
//! marker behind it; stripping removes every block, markers included, and
//! leaves all other text as it is.

use crate::text::{append_range, chars_of, string_of};
use vstd::prelude::*;

verus! {

/// The line that opens a signature block.
pub open spec fn begin_marker() -> Seq<char> {
    "-----BEGIN PGP SIGNATURE-----"@
}

/// The line that closes a signature block.
pub open spec fn end_marker() -> Seq<char> {
    "-----END PGP SIGNATURE-----"@
}

/// Whether `marker` stands in `text` at index `i`.
pub open spec fn occurs_at(text: Seq<char>, marker: Seq<char>, i: int) -> bool {
    0 <= i && i + marker.len() <= text.len() && text.subrange(i, i + marker.len()) == marker
}

/// The least index from `i` on at which `marker` stands in `text`.
pub open spec fn first_occurrence_from(text: Seq<char>, marker: Seq<char>, i: int) -> Option<int>
    decreases text.len() - i,
{
    if i < 0 || i + marker.len() > text.len() {
        None
    } else if occurs_at(text, marker, i) {
        Some(i)
    } else {
        proof {
            // an empty marker stands at every index, the last included
            if i >= text.len() {
                assert(text.subrange(i, i + marker.len()) =~= marker);
            }
        }
        first_occurrence_from(text, marker, i + 1)
    }
}

/// The first block from `i` on, as the index of its first character and the
/// index behind its last: from the first `begin` from `i` on to the end of the
/// first `end` behind that.
pub open spec fn block_from(
    text: Seq<char>,
    begin: Seq<char>,
    end: Seq<char>,
    i: int,
) -> Option<(int, int)> {
    match first_occurrence_from(text, begin, i) {
        Some(b) => match first_occurrence_from(text, end, b + begin.len()) {
            Some(e) => Some((b, e + end.len())),
            None => None,
        },
        None => None,
    }
}

/// The first occurrence from `i` on is an occurrence, lies at or behind `i`,
/// and no occurrence lies between `i` and it; where there is none, `marker`
/// stands nowhere from `i` on.
pub proof fn lemma_first_occurrence(text: Seq<char>, marker: Seq<char>, i: int)
    requires
        0 <= i,
    ensures
        match first_occurrence_from(text, marker, i) {
            Some(j) => i <= j && occurs_at(text, marker, j) && forall|k: int|
                i <= k < j ==> !occurs_at(text, marker, k),
            None => forall|k: int| i <= k ==> !occurs_at(text, marker, k),
        },
    decreases text.len() - i,
{
    if i + marker.len() <= text.len() && !occurs_at(text, marker, i) {
        if i >= text.len() {
            assert(text.subrange(i, i + marker.len()) =~= marker);
        }
        lemma_first_occurrence(text, marker, i + 1);
    }
}

/// `text` from `i` on with every block removed.
pub open spec fn without_blocks_from(
    text: Seq<char>,
    begin: Seq<char>,
    end: Seq<char>,
    i: int,
) -> Seq<char>
    decreases text.len() - i,
    when 0 <= i && begin.len() > 0
{
    match block_from(text, begin, end, i) {
        Some((b, e)) => {
            proof {
                lemma_first_occurrence(text, begin, i);
                lemma_first_occurrence(text, end, b + begin.len());
            }
            text.subrange(i, b) + without_blocks_from(text, begin, end, e)
        },
        None => text.skip(i),
    }
}

/// `text` with every signature block removed.
pub open spec fn without_signatures(text: Seq<char>) -> Seq<char> {
    without_blocks_from(text, begin_marker(), end_marker(), 0)
}

/// A text without a block stays as it is.
pub proof fn lemma_no_block_no_change(text: Seq<char>)
    requires
        block_from(text, begin_marker(), end_marker(), 0) is None,
    ensures
        without_signatures(text) == text,
{
    reveal_strlit("-----BEGIN PGP SIGNATURE-----");
}

/// Of a text with one block, exactly the block is removed: what stands
/// before its begin marker and what stands behind its end marker stay, joined
/// and unchanged, and the removed part opens with the begin marker and closes
/// with the end marker.
pub proof fn lemma_one_block_removed(text: Seq<char>, b: int, e: int)
    requires
        block_from(text, begin_marker(), end_marker(), 0) == Some((b, e)),
        block_from(text, begin_marker(), end_marker(), e) is None,
    ensures
        0 <= b < e <= text.len(),
        without_signatures(text) == text.take(b) + text.skip(e),
        text.subrange(b, b + begin_marker().len()) == begin_marker(),
        text.subrange(e - end_marker().len(), e) == end_marker(),
        b + begin_marker().len() <= e - end_marker().len(),
{
    reveal_strlit("-----BEGIN PGP SIGNATURE-----");
    lemma_first_occurrence(text, begin_marker(), 0);
    lemma_first_occurrence(text, end_marker(), b + begin_marker().len());
    assert(without_blocks_from(text, begin_marker(), end_marker(), e) == text.skip(e));
}

/// Whether `marker` stands in `text` at index `i`.
fn stands_at(text: &Vec<char>, marker: &Vec<char>, i: usize) -> (r: bool)
    requires
        i + marker.len() <= text.len(),
    ensures
        r == occurs_at(text@, marker@, i as int),
{
    let mut k: usize = 0;
    while k < marker.len()
        invariant
            k <= marker.len(),
            i + marker.len() <= text.len(),
            forall|j: int| 0 <= j < k ==> text@[i + j] == marker@[j],
        decreases marker.len() - k,
    {
        if text[i + k] != marker[k] {
            return false;
        }
        k += 1;
    }
    assert(text@.subrange(i as int, i + marker.len()) =~= marker@);
    true
}

/// The least index from `from` on at which `marker` stands in `text`.
fn find_from(text: &Vec<char>, marker: &Vec<char>, from: usize) -> (r: Option<usize>)
    ensures
        match r {
            Some(j) => first_occurrence_from(text@, marker@, from as int) == Some(j as int),
            None => first_occurrence_from(text@, marker@, from as int) is None,
        },
{
    if marker.len() > text.len() {
        return None;
    }
    let last: usize = text.len() - marker.len();
    let mut j: usize = from;
    while j <= last
        invariant
            from <= j,
            last == text.len() - marker.len(),
            marker.len() <= text.len(),
            first_occurrence_from(text@, marker@, j as int) == first_occurrence_from(
                text@,
                marker@,
                from as int,
            ),
        decreases last + 1 - j,
    {
        if stands_at(text, marker, j) {
            return Some(j);
        }
        if j == last {
            return None;
        }
        j += 1;
    }
    None
}

/// Removes every signature block from `text`.
pub fn strip_signatures(text: &str) -> (stripped: String)
    ensures
        stripped@ == without_signatures(text@),
{
    let chars = chars_of(text);
    let begin = chars_of("-----BEGIN PGP SIGNATURE-----");
    let end = chars_of("-----END PGP SIGNATURE-----");
    proof {
        reveal_strlit("-----BEGIN PGP SIGNATURE-----");
    }
    let mut out: Vec<char> = Vec::new();
    let mut i: usize = 0;
    loop
        invariant_except_break
            i <= chars.len(),
            begin@ == begin_marker(),
            end@ == end_marker(),
            begin@.len() > 0,
            out@ + without_blocks_from(chars@, begin@, end@, i as int) == without_signatures(
                chars@,
            ),
        ensures
            out@ == without_signatures(chars@),
        decreases chars.len() - i,
    {
        proof {
            lemma_first_occurrence(chars@, begin@, i as int);
        }
        let opening = find_from(&chars, &begin, i);
        let closing = match opening {
            Some(b) => {
                proof {
                    lemma_first_occurrence(chars@, end@, b + begin@.len());
                }
                find_from(&chars, &end, b + begin.len())
            },
            None => None,
        };
        match (opening, closing) {
            (Some(b), Some(e)) => {
                append_range(&mut out, &chars, i, b);
                i = e + end.len();
            },
            _ => {
                append_range(&mut out, &chars, i, chars.len());
                break ;
            },
        }
    }
    string_of(&out)
}

} // verus!
