//! Text rules of the product screens: how a packaging description splits
//! into a quantity and a unit (for the price per unit), and whether a
//! product has any value to show in an optional column.
use vstd::prelude::*;

use crate::text::{string_of, to_chars, trim_bounds, trimmed};

verus! {

/// A character that may belong to the quantity at the start of a packaging
/// description: an ASCII digit or a dot.
pub open spec fn is_quantity_char(c: char) -> bool {
    ('0' <= c && c <= '9') || c == '.'
}

/// The length of the leading run of quantity characters of `s`.
pub open spec fn quantity_len(s: Seq<char>) -> nat
    decreases s.len(),
{
    if s.len() > 0 && is_quantity_char(s[0]) {
        1 + quantity_len(s.drop_first())
    } else {
        0
    }
}

/// The part of `s` before its first `'/'` (all of `s` when it has none).
pub open spec fn before_slash(s: Seq<char>) -> Seq<char>
    decreases s.len(),
{
    if s.len() == 0 || s[0] == '/' {
        Seq::empty()
    } else {
        seq![s[0]] + before_slash(s.drop_first())
    }
}

/// The quantity text and the unit of a packaging description: nothing when
/// it is blank; otherwise, once trimmed, its leading digits and dots, and
/// what follows them up to the first `'/'`, trimmed.
pub open spec fn packaging_split(packaging: Seq<char>) -> Option<(Seq<char>, Seq<char>)> {
    let t = trimmed(packaging);
    if t.len() == 0 {
        None
    } else {
        let k = quantity_len(t) as int;
        Some((t.take(k), trimmed(before_slash(t.skip(k)))))
    }
}

/// A packaging description split for the price per unit.
pub struct PackagingParts {
    /// The leading digits and dots, such as `"2.5"` (possibly empty).
    pub quantity: String,
    /// The unit after the quantity, such as `"kg"` (possibly empty).
    pub unit: String,
}

/// Splits a packaging description such as `" 25kg/sac "` into its quantity
/// (`"25"`) and unit (`"kg"`); nothing when the description is blank.
pub fn packaging_parts(packaging: &str) -> (r: Option<PackagingParts>)
    ensures
        match packaging_split(packaging@) {
            None => r is None,
            Some((q, u)) => r matches Some(p) && p.quantity@ == q && p.unit@ == u,
        },
{
    let cs = to_chars(packaging);
    let n: usize = cs.len();
    assert(cs@.subrange(0, n as int) =~= cs@);
    let (a, b) = trim_bounds(&cs, 0, n);
    if a == b {
        return None;
    }
    let ghost t = cs@.subrange(a as int, b as int);
    let mut k: usize = a;
    while k < b && (('0' <= cs[k] && cs[k] <= '9') || cs[k] == '.')
        invariant
            a <= k <= b <= n == cs.len(),
            t == cs@.subrange(a as int, b as int),
            quantity_len(t) == (k - a) + quantity_len(cs@.subrange(k as int, b as int)),
        decreases b - k,
    {
        assert(cs@.subrange(k as int, b as int).drop_first() =~= cs@.subrange(k + 1, b as int));
        k = k + 1;
    }
    assert(quantity_len(cs@.subrange(k as int, b as int)) == 0);
    assert(t.take(k - a) =~= cs@.subrange(a as int, k as int));
    assert(t.skip(k - a) =~= cs@.subrange(k as int, b as int));
    let mut m: usize = k;
    while m < b && cs[m] != '/'
        invariant
            k <= m <= b <= n == cs.len(),
            before_slash(cs@.subrange(k as int, b as int)) == cs@.subrange(k as int, m as int)
                + before_slash(cs@.subrange(m as int, b as int)),
        decreases b - m,
    {
        assert(cs@.subrange(m as int, b as int).drop_first() =~= cs@.subrange(m + 1, b as int));
        assert(cs@.subrange(k as int, m as int) + (seq![cs@[m as int]] + before_slash(
            cs@.subrange(m + 1, b as int),
        )) =~= cs@.subrange(k as int, m + 1) + before_slash(cs@.subrange(m + 1, b as int)));
        m = m + 1;
    }
    assert(before_slash(cs@.subrange(m as int, b as int)) =~= Seq::<char>::empty());
    assert(cs@.subrange(k as int, m as int) + Seq::<char>::empty() =~= cs@.subrange(
        k as int,
        m as int,
    ));
    let (u1, u2) = trim_bounds(&cs, k, m);
    let quantity = string_of(&cs, a, k);
    let unit = string_of(&cs, u1, u2);
    Some(PackagingParts { quantity, unit })
}

/// Law: the quantity of a packaging description holds only digits and dots,
/// and it is where the trimmed description begins.
pub proof fn law_quantity_is_numeric_prefix(packaging: Seq<char>)
    ensures
        packaging_split(packaging) matches Some((q, u)) ==> (forall|i: int|
            0 <= i < q.len() ==> is_quantity_char(#[trigger] q[i])) && trimmed(packaging).take(
            q.len() as int,
        ) == q,
{
    let t = trimmed(packaging);
    if t.len() > 0 {
        lemma_quantity_prefix(t);
    }
}

/// Law: the quantity is the whole leading run of digits and dots of the
/// trimmed description: it is a prefix of it made of digits and dots, and it
/// is followed by the end of the text or by a character that is neither a
/// digit nor a dot.
pub proof fn law_quantity_is_the_whole_numeric_run(packaging: Seq<char>)
    ensures
        packaging_split(packaging) matches Some((q, u)) ==> {
            let t = trimmed(packaging);
            &&& q.len() <= t.len()
            &&& t.take(q.len() as int) == q
            &&& forall|i: int| 0 <= i < q.len() ==> is_quantity_char(#[trigger] t[i])
            &&& (q.len() == t.len() || !is_quantity_char(t[q.len() as int]))
        },
{
    let t = trimmed(packaging);
    if t.len() > 0 {
        lemma_quantity_prefix(t);
        lemma_quantity_stops(t);
    }
}

proof fn lemma_quantity_stops(s: Seq<char>)
    ensures
        quantity_len(s) < s.len() ==> !is_quantity_char(s[quantity_len(s) as int]),
    decreases s.len(),
{
    if s.len() > 0 && is_quantity_char(s[0]) {
        let t = s.drop_first();
        lemma_quantity_stops(t);
        lemma_quantity_prefix(t);
        if quantity_len(s) < s.len() {
            assert(s[quantity_len(s) as int] == t[quantity_len(t) as int]);
        }
    }
}

proof fn lemma_quantity_prefix(s: Seq<char>)
    ensures
        quantity_len(s) <= s.len(),
        forall|i: int| 0 <= i < quantity_len(s) ==> is_quantity_char(#[trigger] s[i]),
    decreases s.len(),
{
    if s.len() > 0 && is_quantity_char(s[0]) {
        let t = s.drop_first();
        lemma_quantity_prefix(t);
        assert forall|i: int| 0 <= i < quantity_len(s) implies is_quantity_char(#[trigger] s[i]) by {
            if i > 0 {
                assert(s[i] == t[i - 1]);
            }
        }
    }
}

/// A value that is present and not empty.
pub open spec fn filled(v: Option<String>) -> bool {
    match v {
        Some(s) => s@.len() > 0,
        None => false,
    }
}

/// Whether some value is present and not empty (whether a product's
/// variations fill an optional column).
pub fn any_filled(values: &Vec<Option<String>>) -> (r: bool)
    ensures
        r == exists|i: int| 0 <= i < values@.len() && filled(#[trigger] values@[i]),
{
    let n: usize = values.len();
    let mut i: usize = 0;
    while i < n
        invariant
            i <= n == values.len(),
            forall|j: int| 0 <= j < i ==> !filled(#[trigger] values@[j]),
        decreases n - i,
    {
        match &values[i] {
            Some(s) => {
                if s.unicode_len() > 0 {
                    assert(filled(values@[i as int]));
                    return true;
                }
            },
            None => {},
        }
        i = i + 1;
    }
    false
}

} // verus!
