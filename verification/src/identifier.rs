//! Ordering of the dot-separated identifiers of a version.
//!
//! An identifier made of digits only is numeric and is ordered by the number
//! it writes; any other identifier is ordered as text, character by
//! character. A numeric identifier always comes before a textual one.

use crate::model::models;
use crate::precedence::{number_order, Precedence};
use vstd::prelude::*;

verus! {

/// Whether `c` is one of the ten ASCII digits.
pub open spec fn is_digit(c: char) -> bool {
    '0' <= c && c <= '9'
}

/// The number that the digit `c` stands for.
pub open spec fn digit_value(c: char) -> int {
    c as u32 - '0' as u32
}

/// Whether every character of `id` is a digit.
pub open spec fn is_numeric(id: Seq<char>) -> bool {
    forall|i: int| 0 <= i < id.len() ==> is_digit(#[trigger] id[i])
}

/// The number written by the digits of `id` in base ten.
pub open spec fn numeric_value(id: Seq<char>) -> nat
    decreases id.len(),
{
    if id.len() == 0 {
        0
    } else {
        (numeric_value(id.drop_last()) * 10 + digit_value(id.last())) as nat
    }
}

/// The lexicographic order of `a[i..]` and `b[i..]` by character code; a
/// proper prefix comes first.
pub open spec fn text_order_from(a: Seq<char>, b: Seq<char>, i: int) -> Precedence
    decreases a.len() - i,
{
    if i >= a.len() && i >= b.len() {
        Precedence::Same
    } else if i >= a.len() {
        Precedence::Lower
    } else if i >= b.len() {
        Precedence::Higher
    } else if a[i] != b[i] {
        number_order(a[i] as int, b[i] as int)
    } else {
        text_order_from(a, b, i + 1)
    }
}

/// The lexicographic order of `a` and `b` by character code.
pub open spec fn text_order(a: Seq<char>, b: Seq<char>) -> Precedence {
    text_order_from(a, b, 0)
}

/// The order of two identifiers: numeric ones by their number, and among
/// equal numbers the one with fewer leading zeros first; a numeric one before
/// a textual one; textual ones lexicographically.
pub open spec fn identifier_order(a: Seq<char>, b: Seq<char>) -> Precedence {
    if is_numeric(a) && is_numeric(b) {
        if numeric_value(a) != numeric_value(b) {
            number_order(numeric_value(a) as int, numeric_value(b) as int)
        } else {
            number_order(a.len() as int, b.len() as int)
        }
    } else if is_numeric(a) {
        Precedence::Lower
    } else if is_numeric(b) {
        Precedence::Higher
    } else {
        text_order(a, b)
    }
}

/// The lexicographic order of the identifier lists `a[i..]` and `b[i..]`; a
/// proper prefix comes first.
pub open spec fn identifiers_order_from(a: Seq<Seq<char>>, b: Seq<Seq<char>>, i: int) -> Precedence
    decreases a.len() - i,
{
    if i >= a.len() && i >= b.len() {
        Precedence::Same
    } else if i >= a.len() {
        Precedence::Lower
    } else if i >= b.len() {
        Precedence::Higher
    } else if identifier_order(a[i], b[i]) != Precedence::Same {
        identifier_order(a[i], b[i])
    } else {
        identifiers_order_from(a, b, i + 1)
    }
}

/// The lexicographic order of two identifier lists.
pub open spec fn identifiers_order(a: Seq<Seq<char>>, b: Seq<Seq<char>>) -> Precedence {
    identifiers_order_from(a, b, 0)
}


/// Ten to the power `n`.
pub open spec fn pow10(n: nat) -> nat
    decreases n,
{
    if n == 0 {
        1
    } else {
        10 * pow10((n - 1) as nat)
    }
}

proof fn lemma_pow10_monotonic(a: nat, b: nat)
    requires
        a <= b,
    ensures
        1 <= pow10(a) <= pow10(b),
    decreases b,
{
    if b > 0 {
        if a < b {
            lemma_pow10_monotonic(a, (b - 1) as nat);
        } else {
            lemma_pow10_monotonic((a - 1) as nat, (b - 1) as nat);
        }
    }
}

/// A numeric identifier of `n` digits writes a number below ten to the `n`.
pub proof fn lemma_numeric_value_upper(id: Seq<char>)
    requires
        is_numeric(id),
    ensures
        numeric_value(id) < pow10(id.len()),
    decreases id.len(),
{
    if id.len() > 0 {
        lemma_numeric_value_upper(id.drop_last());
    }
}

/// A numeric identifier of `n` digits that does not start with a zero writes
/// a number of at least ten to the `n - 1`.
pub proof fn lemma_numeric_value_lower(id: Seq<char>)
    requires
        is_numeric(id),
        id.len() > 0,
        id[0] != '0',
    ensures
        numeric_value(id) >= pow10((id.len() - 1) as nat),
    decreases id.len(),
{
    if id.len() > 1 {
        lemma_numeric_value_lower(id.drop_last());
    }
}

/// Leading zeros do not change the number that an identifier writes.
pub proof fn lemma_numeric_value_skips_zeros(id: Seq<char>, zeros: int)
    requires
        0 <= zeros <= id.len(),
        forall|i: int| 0 <= i < zeros ==> id[i] == '0',
    ensures
        numeric_value(id) == numeric_value(id.skip(zeros)),
    decreases id.len(),
{
    if zeros == id.len() {
        if id.len() > 0 {
            // all digits are zeros
            lemma_numeric_value_skips_zeros(id.drop_last(), zeros - 1);
        }
    } else {
        lemma_numeric_value_skips_zeros(id.drop_last(), zeros);
        assert(id.drop_last().skip(zeros) =~= id.skip(zeros).drop_last());
    }
}

/// Of two numeric identifiers of one length, the one that is smaller on a
/// common prefix length writes the smaller number.
proof fn lemma_numeric_prefix_decides(a: Seq<char>, b: Seq<char>, k: int)
    requires
        is_numeric(a),
        is_numeric(b),
        a.len() == b.len(),
        0 <= k <= a.len(),
        numeric_value(a.take(k)) < numeric_value(b.take(k)),
    ensures
        numeric_value(a) < numeric_value(b),
    decreases a.len() - k,
{
    if k == a.len() {
        assert(a.take(k) =~= a);
        assert(b.take(k) =~= b);
    } else {
        assert(a.take(k + 1).drop_last() =~= a.take(k));
        assert(b.take(k + 1).drop_last() =~= b.take(k));
        lemma_numeric_prefix_decides(a, b, k + 1);
    }
}

/// Of two numeric identifiers of one length, the first digit in which they
/// differ decides which writes the smaller number.
proof fn lemma_numeric_first_difference(a: Seq<char>, b: Seq<char>, k: int)
    requires
        is_numeric(a),
        is_numeric(b),
        a.len() == b.len(),
        0 <= k < a.len(),
        a.take(k) == b.take(k),
        a[k] < b[k],
    ensures
        numeric_value(a) < numeric_value(b),
{
    assert(a.take(k + 1).drop_last() =~= a.take(k));
    assert(b.take(k + 1).drop_last() =~= b.take(k));
    lemma_numeric_prefix_decides(a, b, k + 1);
}

/// Whether every character of `id` is a digit.
pub fn all_digits(id: &Vec<char>) -> (r: bool)
    ensures
        r == is_numeric(id@),
{
    let mut i: usize = 0;
    while i < id.len()
        invariant
            i <= id.len(),
            forall|j: int| 0 <= j < i ==> is_digit(#[trigger] id@[j]),
        decreases id.len() - i,
    {
        let c = id[i];
        if !('0' <= c && c <= '9') {
            return false;
        }
        i += 1;
    }
    true
}

/// The number of zeros that `id` starts with.
fn leading_zeros(id: &Vec<char>) -> (z: usize)
    ensures
        z <= id.len(),
        forall|i: int| 0 <= i < z ==> id@[i] == '0',
        z < id.len() ==> id@[z as int] != '0',
{
    let mut z: usize = 0;
    while z < id.len() && id[z] == '0'
        invariant
            z <= id.len(),
            forall|i: int| 0 <= i < z ==> id@[i] == '0',
        decreases id.len() - z,
    {
        z += 1;
    }
    z
}

/// Orders two numeric identifiers without computing their numbers, which may
/// exceed any machine integer: the one with fewer digits after its leading
/// zeros is lower, and among equally many digits the first differing digit
/// decides.
fn compare_numeric(a: &Vec<char>, b: &Vec<char>) -> (r: Precedence)
    requires
        is_numeric(a@),
        is_numeric(b@),
    ensures
        r == identifier_order(a@, b@),
{
    let za = leading_zeros(a);
    let zb = leading_zeros(b);
    let la = a.len() - za;
    let lb = b.len() - zb;
    let ghost ta = a@.skip(za as int);
    let ghost tb = b@.skip(zb as int);
    proof {
        lemma_numeric_value_skips_zeros(a@, za as int);
        lemma_numeric_value_skips_zeros(b@, zb as int);
        lemma_numeric_value_upper(ta);
        lemma_numeric_value_upper(tb);
        if la > 0 {
            lemma_numeric_value_lower(ta);
        }
        if lb > 0 {
            lemma_numeric_value_lower(tb);
        }
    }
    if la < lb {
        proof {
            lemma_pow10_monotonic(la as nat, (lb - 1) as nat);
        }
        return Precedence::Lower;
    }
    if la > lb {
        proof {
            lemma_pow10_monotonic(lb as nat, (la - 1) as nat);
        }
        return Precedence::Higher;
    }
    let mut i: usize = 0;
    while i < la
        invariant
            i <= la,
            la == lb,
            la == a.len() - za,
            lb == b.len() - zb,
            ta == a@.skip(za as int),
            tb == b@.skip(zb as int),
            is_numeric(a@),
            is_numeric(b@),
            is_numeric(ta),
            is_numeric(tb),
            ta.take(i as int) == tb.take(i as int),
            numeric_value(a@) == numeric_value(ta),
            numeric_value(b@) == numeric_value(tb),
        decreases la - i,
    {
        let ca = a[za + i];
        let cb = b[zb + i];
        if ca < cb {
            proof {
                lemma_numeric_first_difference(ta, tb, i as int);
            }
            return Precedence::Lower;
        }
        if cb < ca {
            proof {
                lemma_numeric_first_difference(tb, ta, i as int);
            }
            return Precedence::Higher;
        }
        i += 1;
    }
    assert(ta.take(la as int) =~= ta);
    assert(tb.take(lb as int) =~= tb);
    if a.len() < b.len() {
        Precedence::Lower
    } else if a.len() > b.len() {
        Precedence::Higher
    } else {
        Precedence::Same
    }
}

/// Orders two identifiers as text.
fn compare_text(a: &Vec<char>, b: &Vec<char>) -> (r: Precedence)
    ensures
        r == text_order(a@, b@),
{
    let mut i: usize = 0;
    while i < a.len() && i < b.len()
        invariant
            i <= a.len(),
            i <= b.len(),
            text_order_from(a@, b@, i as int) == text_order(a@, b@),
        decreases a.len() - i,
    {
        let ca = a[i];
        let cb = b[i];
        if ca < cb {
            return Precedence::Lower;
        }
        if cb < ca {
            return Precedence::Higher;
        }
        i += 1;
    }
    if i < b.len() {
        Precedence::Lower
    } else if i < a.len() {
        Precedence::Higher
    } else {
        Precedence::Same
    }
}

/// Orders two identifiers.
pub fn compare_identifiers(a: &Vec<char>, b: &Vec<char>) -> (r: Precedence)
    ensures
        r == identifier_order(a@, b@),
{
    let a_numeric = all_digits(a);
    let b_numeric = all_digits(b);
    if a_numeric && b_numeric {
        compare_numeric(a, b)
    } else if a_numeric {
        Precedence::Lower
    } else if b_numeric {
        Precedence::Higher
    } else {
        compare_text(a, b)
    }
}

/// Orders two lists of identifiers lexicographically.
pub fn compare_identifier_lists(a: &Vec<Vec<char>>, b: &Vec<Vec<char>>) -> (r: Precedence)
    ensures
        r == identifiers_order(models(a@), models(b@)),
{
    let ghost va = models(a@);
    let ghost vb = models(b@);
    let mut i: usize = 0;
    while i < a.len() && i < b.len()
        invariant
            i <= a.len(),
            i <= b.len(),
            va == models(a@),
            vb == models(b@),
            identifiers_order_from(va, vb, i as int) == identifiers_order(va, vb),
        decreases a.len() - i,
    {
        let step = compare_identifiers(&a[i], &b[i]);
        match step {
            Precedence::Same => {},
            _ => {
                return step;
            },
        }
        i += 1;
    }
    if i < b.len() {
        Precedence::Lower
    } else if i < a.len() {
        Precedence::Higher
    } else {
        Precedence::Same
    }
}

/// Two numeric identifiers of one length that write the same number are the
/// same identifier.
proof fn lemma_numeric_value_injective(a: Seq<char>, b: Seq<char>)
    requires
        is_numeric(a),
        is_numeric(b),
        a.len() == b.len(),
        numeric_value(a) == numeric_value(b),
    ensures
        a == b,
    decreases a.len(),
{
    if a.len() > 0 {
        lemma_numeric_value_injective(a.drop_last(), b.drop_last());
        assert(b =~= b.drop_last().push(b.last()));
    } else {
    }
}

/// Swapping the two texts reverses their order.
pub proof fn lemma_text_order_reverses(a: Seq<char>, b: Seq<char>, i: int)
    requires
        0 <= i,
    ensures
        text_order_from(b, a, i) == text_order_from(a, b, i).reversed(),
    decreases a.len() - i,
{
    if i < a.len() && i < b.len() && a[i] == b[i] {
        lemma_text_order_reverses(a, b, i + 1);
    }
}

/// Two texts are of the same rank from `i` on exactly when they agree from
/// `i` on.
pub proof fn lemma_text_order_same(a: Seq<char>, b: Seq<char>, i: int)
    requires
        0 <= i,
    ensures
        text_order_from(a, b, i) == Precedence::Same <==> ((a.len() == b.len() || (i >= a.len() && i
            >= b.len())) && forall|j: int| i <= j < a.len() && j < b.len() ==> a[j] == b[j]),
    decreases a.len() - i,
{
    if i < a.len() && i < b.len() {
        lemma_text_order_same(a, b, i + 1);
    }
}

/// The textual order is transitive.
pub proof fn lemma_text_order_transitive(a: Seq<char>, b: Seq<char>, c: Seq<char>, i: int)
    requires
        0 <= i,
        text_order_from(a, b, i) == Precedence::Lower,
        text_order_from(b, c, i) == Precedence::Lower,
    ensures
        text_order_from(a, c, i) == Precedence::Lower,
    decreases a.len() - i,
{
    if i < a.len() && i < b.len() && i < c.len() && a[i] == b[i] && b[i] == c[i] {
        lemma_text_order_transitive(a, b, c, i + 1);
    }
}

/// Swapping the two identifiers reverses their order.
pub proof fn lemma_identifier_order_reverses(a: Seq<char>, b: Seq<char>)
    ensures
        identifier_order(b, a) == identifier_order(a, b).reversed(),
{
    lemma_text_order_reverses(a, b, 0);
}

/// Two identifiers are of the same rank exactly when they are equal.
pub proof fn lemma_identifier_order_same(a: Seq<char>, b: Seq<char>)
    ensures
        identifier_order(a, b) == Precedence::Same <==> a == b,
{
    lemma_text_order_same(a, b, 0);
    if identifier_order(a, b) == Precedence::Same {
        if is_numeric(a) && is_numeric(b) {
            lemma_numeric_value_injective(a, b);
        } else {
            assert(a =~= b);
        }
    }
}

/// The order of identifiers is transitive.
pub proof fn lemma_identifier_order_transitive(a: Seq<char>, b: Seq<char>, c: Seq<char>)
    requires
        identifier_order(a, b) == Precedence::Lower,
        identifier_order(b, c) == Precedence::Lower,
    ensures
        identifier_order(a, c) == Precedence::Lower,
{
    if !is_numeric(a) && !is_numeric(b) && !is_numeric(c) {
        lemma_text_order_transitive(a, b, c, 0);
    }
}

/// Swapping the two lists reverses their order.
pub proof fn lemma_identifiers_order_reverses(a: Seq<Seq<char>>, b: Seq<Seq<char>>, i: int)
    requires
        0 <= i,
    ensures
        identifiers_order_from(b, a, i) == identifiers_order_from(a, b, i).reversed(),
    decreases a.len() - i,
{
    if i < a.len() && i < b.len() {
        lemma_identifier_order_reverses(a[i], b[i]);
        lemma_identifiers_order_reverses(a, b, i + 1);
    }
}

/// Two lists are of the same rank from `i` on exactly when they agree from
/// `i` on.
pub proof fn lemma_identifiers_order_same(a: Seq<Seq<char>>, b: Seq<Seq<char>>, i: int)
    requires
        0 <= i,
    ensures
        identifiers_order_from(a, b, i) == Precedence::Same <==> ((a.len() == b.len() || (i
            >= a.len() && i >= b.len())) && forall|j: int|
            i <= j < a.len() && j < b.len() ==> a[j] == b[j]),
    decreases a.len() - i,
{
    if i < a.len() && i < b.len() {
        lemma_identifier_order_same(a[i], b[i]);
        lemma_identifiers_order_same(a, b, i + 1);
    }
}

/// The order of identifier lists is transitive.
pub proof fn lemma_identifiers_order_transitive(
    a: Seq<Seq<char>>,
    b: Seq<Seq<char>>,
    c: Seq<Seq<char>>,
    i: int,
)
    requires
        0 <= i,
        identifiers_order_from(a, b, i) == Precedence::Lower,
        identifiers_order_from(b, c, i) == Precedence::Lower,
    ensures
        identifiers_order_from(a, c, i) == Precedence::Lower,
    decreases a.len() - i,
{
    if i < a.len() && i < b.len() && i < c.len() {
        lemma_identifier_order_same(a[i], b[i]);
        lemma_identifier_order_same(b[i], c[i]);
        if identifier_order(a[i], b[i]) == Precedence::Lower && identifier_order(b[i], c[i])
            == Precedence::Lower {
            lemma_identifier_order_transitive(a[i], b[i], c[i]);
        }
        if a[i] == b[i] && b[i] == c[i] {
            lemma_identifiers_order_transitive(a, b, c, i + 1);
        }
    }
}


/// The identifiers that `text` holds between its dots, read from left to
/// right: a dot closes the identifier before it and opens an empty one, any
/// other character extends the last identifier.
pub open spec fn split_dots(text: Seq<char>) -> Seq<Seq<char>>
    decreases text.len(),
{
    if text.len() == 0 {
        seq![Seq::<char>::empty()]
    } else {
        let before = split_dots(text.drop_last());
        if text.last() == '.' {
            before.push(Seq::<char>::empty())
        } else {
            before.update(before.len() - 1, before.last().push(text.last()))
        }
    }
}

/// The identifiers of `ids` written one after another with a dot between
/// neighbours.
pub open spec fn join_dots(ids: Seq<Seq<char>>) -> Seq<char>
    decreases ids.len(),
{
    if ids.len() == 0 {
        Seq::<char>::empty()
    } else if ids.len() == 1 {
        ids[0]
    } else {
        join_dots(ids.drop_last()) + seq!['.'] + ids.last()
    }
}

/// Splitting gives at least one identifier, none of them holds a dot, and
/// joining them with dots gives the text back: the split is the only list of
/// dot-free identifiers that writes `text`.
pub proof fn lemma_split_dots_characterised(text: Seq<char>)
    ensures
        split_dots(text).len() >= 1,
        forall|i: int, j: int|
            0 <= i < split_dots(text).len() && 0 <= j < split_dots(text)[i].len()
                ==> #[trigger] split_dots(text)[i][j] != '.',
        join_dots(split_dots(text)) == text,
    decreases text.len(),
{
    if text.len() > 0 {
        let before = split_dots(text.drop_last());
        lemma_split_dots_characterised(text.drop_last());
        let after = split_dots(text);
        assert(text =~= text.drop_last().push(text.last()));
        if text.last() == '.' {
            assert(after.drop_last() =~= before);
        } else if before.len() > 1 {
            assert(after.drop_last() =~= before.drop_last());
        }
    }
}

/// Two texts with the same identifiers are the same text.
pub proof fn lemma_split_dots_injective(a: Seq<char>, b: Seq<char>)
    requires
        split_dots(a) == split_dots(b),
    ensures
        a == b,
{
    lemma_split_dots_characterised(a);
    lemma_split_dots_characterised(b);
}

/// Splits `text` at its dots.
pub fn split_identifiers(text: &str) -> (ids: Vec<Vec<char>>)
    ensures
        models(ids@) == split_dots(text@),
{
    let mut done: Vec<Vec<char>> = Vec::new();
    let mut current: Vec<char> = Vec::new();
    for c in it: text.chars()
        invariant
            it.seq() == text@,
            models(done@).push(current@) == split_dots(
                it.seq().take(it.index() as int),
            ),
    {
        let ghost seen = it.seq().take(it.index() as int);
        let ghost next = it.seq().take(it.index() + 1);
        assert(next.drop_last() =~= seen);
        if c == '.' {
            done.push(current);
            current = Vec::new();
        } else {
            current.push(c);
        }
    }
    assert(text@.take(text@.len() as int) =~= text@);
    done.push(current);
    done
}

} // verus!
