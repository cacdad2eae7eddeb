//! Text helpers shared by the rest of the crate: views of optional and listed
//! strings, copies that keep the text, and the dictionary order on strings.

use vstd::prelude::*;

verus! {

/// The text of an optional string.
pub open spec fn opt_text(o: Option<String>) -> Option<Seq<char>> {
    match o {
        Some(s) => Some(s@),
        None => None,
    }
}

/// The texts of a list of strings, in order.
pub open spec fn texts(v: Seq<String>) -> Seq<Seq<char>> {
    Seq::new(v.len(), |i: int| v[i]@)
}

/// Whether `s` ends with `suffix`.
pub open spec fn has_suffix(s: Seq<char>, suffix: Seq<char>) -> bool {
    s.len() >= suffix.len() && s.subrange(s.len() - suffix.len(), s.len() as int) == suffix
}

/// `a` comes strictly before `b` in dictionary order: they agree on their
/// first `k` characters, and then either `a` stops while `b` goes on, or `a`
/// has the smaller character.
pub open spec fn precedes_at(a: Seq<char>, b: Seq<char>, k: int) -> bool {
    &&& 0 <= k <= a.len()
    &&& k <= b.len()
    &&& a.subrange(0, k) == b.subrange(0, k)
    &&& if k == a.len() {
        k < b.len()
    } else {
        k < b.len() && (a[k] as u32) < (b[k] as u32)
    }
}

/// Strict dictionary order on texts, character by character.
pub open spec fn precedes(a: Seq<char>, b: Seq<char>) -> bool {
    exists|k: int| precedes_at(a, b, k)
}

/// Where one text stands relative to another in dictionary order.
#[derive(Clone, Copy, Debug, PartialEq, Eq, Structural)]
pub enum TextOrder {
    Before,
    Same,
    After,
}

/// No text precedes itself.
pub proof fn lemma_precedes_irreflexive(a: Seq<char>)
    ensures
        !precedes(a, a),
{
}

/// The dictionary order is transitive.
pub proof fn lemma_precedes_transitive(a: Seq<char>, b: Seq<char>, c: Seq<char>)
    requires
        precedes(a, b),
        precedes(b, c),
    ensures
        precedes(a, c),
{
    let k1 = choose|k: int| precedes_at(a, b, k);
    let k2 = choose|k: int| precedes_at(b, c, k);
    let k = if k1 <= k2 { k1 } else { k2 };
    assert(a.subrange(0, k) =~= a.subrange(0, k1).subrange(0, k));
    assert(b.subrange(0, k) =~= b.subrange(0, k1).subrange(0, k));
    assert(b.subrange(0, k) =~= b.subrange(0, k2).subrange(0, k));
    assert(c.subrange(0, k) =~= c.subrange(0, k2).subrange(0, k));
    if k1 < k2 {
        assert(b.subrange(0, k2)[k1] == b[k1]);
        assert(c.subrange(0, k2)[k1] == c[k1]);
    }
    if k2 < k1 {
        assert(a.subrange(0, k1)[k2] == a[k2]);
        assert(b.subrange(0, k1)[k2] == b[k2]);
    }
    assert(precedes_at(a, c, k));
}

/// Two texts never precede each other.
pub proof fn lemma_precedes_asymmetric(a: Seq<char>, b: Seq<char>)
    requires
        precedes(a, b),
    ensures
        !precedes(b, a),
{
    if precedes(b, a) {
        lemma_precedes_transitive(a, b, a);
        lemma_precedes_irreflexive(a);
    }
}

/// The characters of `s`, in order.
pub fn chars_of(s: &str) -> (out: Vec<char>)
    ensures
        out@ == s@,
{
    let mut out: Vec<char> = Vec::new();
    for c in it: s.chars()
        invariant
            it.seq() == s@,
            out@ == it.seq().take(it.index()),
    {
        out.push(c);
        assert(it.seq().take(it.index() + 1) =~= it.seq().take(it.index()).push(c));
    }
    assert(s@.take(s@.len() as int) =~= s@);
    out
}

/// Places `a` relative to `b` in dictionary order.
pub fn order_of(a: &str, b: &str) -> (r: TextOrder)
    ensures
        r == TextOrder::Before <==> precedes(a@, b@),
        r == TextOrder::Same <==> a@ == b@,
        r == TextOrder::After <==> precedes(b@, a@),
{
    let ca = chars_of(a);
    let cb = chars_of(b);
    let mut i: usize = 0;
    let mut found = TextOrder::Same;
    while i < ca.len() && i < cb.len()
        invariant_except_break
            found == TextOrder::Same,
        invariant
            ca@ == a@,
            cb@ == b@,
            i <= ca.len(),
            i <= cb.len(),
            ca@.subrange(0, i as int) == cb@.subrange(0, i as int),
        ensures
            found == TextOrder::Same ==> i == ca.len() || i == cb.len(),
            found == TextOrder::Before ==> precedes_at(a@, b@, i as int),
            found == TextOrder::After ==> precedes_at(b@, a@, i as int),
        decreases ca.len() - i,
    {
        let x: u32 = ca[i] as u32;
        let y: u32 = cb[i] as u32;
        if x < y {
            found = TextOrder::Before;
            break ;
        }
        if y < x {
            found = TextOrder::After;
            break ;
        }
        assert(ca@[i as int] == cb@[i as int]) by {
            lemma_char_by_code(ca@[i as int], cb@[i as int]);
        }
        assert(ca@.subrange(0, i + 1) =~= ca@.subrange(0, i as int).push(ca@[i as int]));
        assert(cb@.subrange(0, i + 1) =~= cb@.subrange(0, i as int).push(cb@[i as int]));
        i = i + 1;
    }
    let r = match found {
        TextOrder::Same => {
            if i < cb.len() {
                assert(precedes_at(a@, b@, i as int));
                TextOrder::Before
            } else if i < ca.len() {
                assert(precedes_at(b@, a@, i as int));
                TextOrder::After
            } else {
                assert(a@ =~= a@.subrange(0, i as int));
                assert(b@ =~= b@.subrange(0, i as int));
                TextOrder::Same
            }
        },
        other => other,
    };
    proof {
        lemma_precedes_irreflexive(a@);
        if precedes(a@, b@) {
            lemma_precedes_asymmetric(a@, b@);
        }
        if precedes(b@, a@) {
            lemma_precedes_asymmetric(b@, a@);
        }
    }
    r
}

/// Characters with the same code are the same character.
proof fn lemma_char_by_code(x: char, y: char)
    requires
        x as u32 == y as u32,
    ensures
        x == y,
{
    assert(x as u32 as char == x);
    assert(y as u32 as char == y);
}

/// Whether two strings hold the same text.
pub fn same_text(a: &str, b: &str) -> (r: bool)
    ensures
        r == (a@ == b@),
{
    match order_of(a, b) {
        TextOrder::Same => true,
        _ => false,
    }
}

/// Whether two optional strings agree: both absent, or both present with the
/// same text.
pub fn same_opt_text(a: &Option<String>, b: &Option<String>) -> (r: bool)
    ensures
        r == (opt_text(*a) == opt_text(*b)),
{
    match (a, b) {
        (Some(x), Some(y)) => same_text(x.as_str(), y.as_str()),
        (None, None) => true,
        _ => false,
    }
}

/// A copy of an optional string.
pub fn copy_opt(o: &Option<String>) -> (r: Option<String>)
    ensures
        opt_text(r) == opt_text(*o),
{
    match o {
        Some(s) => Some(s.clone()),
        None => None,
    }
}

/// A copy of a list of strings.
pub fn copy_texts(v: &Vec<String>) -> (r: Vec<String>)
    ensures
        texts(r@) == texts(v@),
{
    let mut r: Vec<String> = Vec::new();
    let mut i: usize = 0;
    while i < v.len()
        invariant
            i <= v.len(),
            r.len() == i,
            forall|j: int| 0 <= j < i ==> r@[j]@ == v@[j]@,
        decreases v.len() - i,
    {
        r.push(v[i].clone());
        i = i + 1;
    }
    assert(texts(r@) =~= texts(v@));
    r
}

/// `a` followed by `b`.
pub fn join(a: &str, b: &str) -> (r: String)
    ensures
        r@ == a@ + b@,
{
    let mut r = String::from_str(a);
    r.append(b);
    r
}

/// Whether `s` ends with `suffix`.
pub fn ends_with(s: &str, suffix: &str) -> (r: bool)
    ensures
        r == has_suffix(s@, suffix@),
{
    let n: usize = s.unicode_len();
    let m: usize = suffix.unicode_len();
    if n < m {
        return false;
    }
    same_text(s.substring_char(n - m, n), suffix)
}

} // verus!
