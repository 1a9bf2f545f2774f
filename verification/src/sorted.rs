//! Lists of names kept sorted and free of repeats, as an ordered set of strings keeps them.
use vstd::prelude::*;
use crate::text::{chars_le, chars_of, lemma_lex_antisymmetric, lemma_lex_total, lemma_lex_transitive, lex_le, str_eq};

verus! {

/// The texts of a list of strings.
pub open spec fn texts(v: Seq<String>) -> Seq<Seq<char>> {
    v.map_values(|s: String| s@)
}

/// Whether the texts are in strictly increasing order.
pub open spec fn ascending(s: Seq<Seq<char>>) -> bool {
    forall|i: int, j: int| 0 <= i < j < s.len() ==> lex_le(#[trigger] s[i], #[trigger] s[j]) && s[i] != s[j]
}

/// Adds `name` to the sorted list `v` unless it is there already, keeping `v` sorted.
pub fn insert_sorted(v: &mut Vec<String>, name: String)
    requires
        ascending(texts(old(v)@)),
    ensures
        ascending(texts(final(v)@)),
        forall|t: Seq<char>| texts(final(v)@).contains(t) <==> (texts(old(v)@).contains(t) || t == name@),
{
    let ghost before = texts(v@);
    let nc = chars_of(name.as_str());
    let mut j: usize = 0;
    let mut found = false;
    let mut past = false;
    while j < v.len() && !found && !past
        invariant
            0 <= j <= v@.len(),
            texts(v@) == before,
            nc@ == name@,
            !(found && past),
            found ==> j < v@.len() && before[j as int] == name@,
            past ==> j < v@.len() && !lex_le(before[j as int], name@),
            !found ==> forall|t: int| 0 <= t < j ==> lex_le(#[trigger] before[t], name@) && before[t] != name@,
        decreases v@.len() - j + if found || past { 0int } else { 1int },
    {
        assert(before[j as int] == v@[j as int]@);
        let rc = chars_of(v[j].as_str());
        if str_eq(v[j].as_str(), name.as_str()) {
            found = true;
        } else if chars_le(&rc, &nc) {
            j = j + 1;
        } else {
            past = true;
        }
    }
    if found {
        assert(before[j as int] == name@);
        assert forall|t: Seq<char>| before.contains(t) <==> (before.contains(t) || t == name@) by {
            if t == name@ {
                assert(before[j as int] == t);
            }
        }
        return;
    }
    let ghost nm = name@;
    v.insert(j, name);
    proof {
        let after = texts(v@);
        assert(after =~= before.insert(j as int, nm));
        assert forall|i: int, i2: int| 0 <= i < i2 < after.len() implies lex_le(#[trigger] after[i], #[trigger] after[i2])
            && after[i] != after[i2] by {
            if i2 < j {
                assert(after[i] == before[i] && after[i2] == before[i2]);
            } else if i2 == j {
                assert(after[i] == before[i]);
            } else if i == j {
                assert(after[i2] == before[i2 - 1]);
                assert(!lex_le(before[j as int], nm));
                lemma_lex_total(before[j as int], nm);
                if i2 - 1 > j {
                    lemma_lex_transitive(nm, before[j as int], before[i2 - 1]);
                    if nm == before[i2 - 1] {
                        lemma_lex_antisymmetric(before[j as int], nm);
                    }
                }
            } else if i < j {
                assert(after[i] == before[i] && after[i2] == before[i2 - 1]);
                if i < i2 - 1 {
                    assert(lex_le(before[i], before[i2 - 1]));
                }
            } else {
                assert(after[i] == before[i - 1] && after[i2] == before[i2 - 1]);
            }
        }
        assert forall|t: Seq<char>| after.contains(t) <==> (before.contains(t) || t == nm) by {
            if after.contains(t) {
                let k = choose|k: int| 0 <= k < after.len() && after[k] == t;
                if k < j {
                    assert(before[k] == t);
                } else if k > j {
                    assert(before[k - 1] == t);
                }
            }
            if before.contains(t) {
                let k = choose|k: int| 0 <= k < before.len() && before[k] == t;
                if k < j {
                    assert(after[k] == t);
                } else {
                    assert(after[k + 1] == t);
                }
            }
            if t == nm {
                assert(after[j as int] == t);
            }
        }
    }
}

/// A sorted list without repeats is fixed by the names it holds: two such lists holding
/// the same names are the same list.
pub proof fn law_sorted_list_is_unique(a: Seq<Seq<char>>, b: Seq<Seq<char>>)
    requires
        ascending(a),
        ascending(b),
        forall|t: Seq<char>| a.contains(t) <==> b.contains(t),
    ensures
        a == b,
    decreases a.len(),
{
    if a.len() == 0 {
        if b.len() > 0 {
            assert(b.contains(b[0]));
        }
        assert(a =~= b);
    } else {
        assert(a.contains(a[0]));
        assert(b.len() > 0);
        assert(b.contains(b[0]));
        let i = choose|i: int| 0 <= i < a.len() && a[i] == b[0];
        let j = choose|j: int| 0 <= j < b.len() && b[j] == a[0];
        if i > 0 {
            assert(lex_le(a[0], a[i]));
        }
        if j > 0 {
            assert(lex_le(b[0], b[j]));
        }
        if i > 0 && j > 0 {
            lemma_lex_antisymmetric(a[0], b[0]);
            assert(a[0] == a[i]);
        }
        assert(a[0] == b[0]);
        let ra = a.drop_first();
        let rb = b.drop_first();
        assert(ascending(ra)) by {
            assert forall|x: int, y: int| 0 <= x < y < ra.len() implies lex_le(#[trigger] ra[x], #[trigger] ra[y]) && ra[x] != ra[y] by {
                assert(ra[x] == a[x + 1] && ra[y] == a[y + 1]);
            }
        }
        assert(ascending(rb)) by {
            assert forall|x: int, y: int| 0 <= x < y < rb.len() implies lex_le(#[trigger] rb[x], #[trigger] rb[y]) && rb[x] != rb[y] by {
                assert(rb[x] == b[x + 1] && rb[y] == b[y + 1]);
            }
        }
        assert forall|t: Seq<char>| ra.contains(t) <==> rb.contains(t) by {
            if ra.contains(t) {
                let x = choose|x: int| 0 <= x < ra.len() && ra[x] == t;
                assert(a[x + 1] == t);
                assert(a.contains(t));
                assert(t != a[0]);
                let y = choose|y: int| 0 <= y < b.len() && b[y] == t;
                assert(y != 0);
                assert(rb[y - 1] == t);
            }
            if rb.contains(t) {
                let x = choose|x: int| 0 <= x < rb.len() && rb[x] == t;
                assert(b[x + 1] == t);
                assert(b.contains(t));
                assert(t != b[0]);
                let y = choose|y: int| 0 <= y < a.len() && a[y] == t;
                assert(y != 0);
                assert(ra[y - 1] == t);
            }
        }
        law_sorted_list_is_unique(ra, rb);
        assert(a =~= seq![a[0]] + ra);
        assert(b =~= seq![b[0]] + rb);
    }
}

} // verus!
