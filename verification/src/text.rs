//! Names as sequences of characters: ASCII case folding and the lexicographic
//! order by code point.

use vstd::prelude::*;
use vstd::string::*;

verus! {

/// `c` with the ASCII capital letters mapped onto the small ones; every other
/// character is left as it is.
pub open spec fn lower_char(c: char) -> char {
    if 'A' <= c && c <= 'Z' {
        ((c as u32) + 32) as char
    } else {
        c
    }
}

/// `s` with every character folded by [`lower_char`].
pub open spec fn ascii_lower(s: Seq<char>) -> Seq<char> {
    Seq::new(s.len(), |i: int| lower_char(s[i]))
}

/// Two names are the same up to the case of their ASCII letters.
pub open spec fn same_ignoring_case(a: Seq<char>, b: Seq<char>) -> bool {
    ascii_lower(a) == ascii_lower(b)
}

/// `str::to_ascii_lowercase` of the standard library. Its documentation says
/// that the result is a copy of the string in which the ASCII letters 'A' to
/// 'Z' are mapped to 'a' to 'z' and all other characters are unchanged; the
/// contract states exactly that and is not proved here.
#[verifier::external_body]
pub(crate) fn to_ascii_lowercase(s: &str) -> (r: String)
    ensures
        r@ == ascii_lower(s@),
{
    s.to_ascii_lowercase()
}

/// `a` and `b` agree on their first `k` characters.
pub open spec fn agree_upto(a: Seq<char>, b: Seq<char>, k: int) -> bool {
    &&& 0 <= k <= a.len()
    &&& k <= b.len()
    &&& forall|i: int| 0 <= i < k ==> a[i] == b[i]
}

/// `a` and `b` part ways at `k` in favour of `a`: up to there they agree, and
/// then either `a` ends while `b` goes on, or `a` has the smaller character.
pub open spec fn parts_before(a: Seq<char>, b: Seq<char>, k: int) -> bool {
    &&& agree_upto(a, b, k)
    &&& (k == a.len() && k < b.len()) || (k < a.len() && k < b.len() && a[k] < b[k])
}

/// The strict lexicographic order on names, character by character and by
/// code point; a proper prefix comes first.
pub open spec fn name_precedes(a: Seq<char>, b: Seq<char>) -> bool {
    exists|k: int| #[trigger] parts_before(a, b, k)
}

/// No name precedes itself.
pub proof fn lemma_precedes_irreflexive(a: Seq<char>)
    ensures
        !name_precedes(a, a),
{
}

/// The order is transitive.
pub proof fn lemma_precedes_transitive(a: Seq<char>, b: Seq<char>, c: Seq<char>)
    requires
        name_precedes(a, b),
        name_precedes(b, c),
    ensures
        name_precedes(a, c),
{
    let k1 = choose|k: int| #[trigger] parts_before(a, b, k);
    let k2 = choose|k: int| #[trigger] parts_before(b, c, k);
    let k = if k1 <= k2 {
        k1
    } else {
        k2
    };
    assert(parts_before(a, c, k));
}

/// The least position at which `a` and `b` agree no longer, or the length of
/// the shorter one.
pub open spec fn first_gap(a: Seq<char>, b: Seq<char>, from: int) -> int
    decreases a.len() - from,
{
    if 0 <= from < a.len() && from < b.len() && a[from] == b[from] {
        first_gap(a, b, from + 1)
    } else {
        from
    }
}

proof fn lemma_first_gap(a: Seq<char>, b: Seq<char>, from: int)
    requires
        agree_upto(a, b, from),
    ensures
        agree_upto(a, b, first_gap(a, b, from)),
        from <= first_gap(a, b, from),
        first_gap(a, b, from) < a.len() && first_gap(a, b, from) < b.len() ==> a[first_gap(
            a,
            b,
            from,
        )] != b[first_gap(a, b, from)],
    decreases a.len() - from,
{
    if from < a.len() && from < b.len() && a[from] == b[from] {
        lemma_first_gap(a, b, from + 1);
    }
}

/// The order is total: of two different names one precedes the other.
pub proof fn lemma_precedes_total(a: Seq<char>, b: Seq<char>)
    ensures
        name_precedes(a, b) || name_precedes(b, a) || a == b,
{
    assert(agree_upto(a, b, 0));
    lemma_first_gap(a, b, 0);
    let k = first_gap(a, b, 0);
    if k < a.len() && k < b.len() {
        if a[k] < b[k] {
            assert(parts_before(a, b, k));
        } else {
            assert(parts_before(b, a, k));
        }
    } else if k < a.len() {
        assert(parts_before(b, a, k));
    }
}

/// Whether `a` comes strictly before `b` in the lexicographic order by code
/// point.
pub fn precedes(a: &str, b: &str) -> (r: bool)
    ensures
        r == name_precedes(a@, b@),
{
    let la: usize = a.unicode_len();
    let lb: usize = b.unicode_len();
    let mut i: usize = 0;
    while i < la && i < lb
        invariant
            la == a@.len(),
            lb == b@.len(),
            agree_upto(a@, b@, i as int),
        decreases la - i,
    {
        let ca: char = a.get_char(i);
        let cb: char = b.get_char(i);
        if ca != cb {
            let before: bool = ca < cb;
            proof {
                if before {
                    assert(parts_before(a@, b@, i as int));
                }
            }
            return before;
        }
        i = i + 1;
    }
    proof {
        if i < lb {
            assert(parts_before(a@, b@, i as int));
        }
    }
    i < lb
}

} // verus!
