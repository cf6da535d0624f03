//! The total order on descriptors: by class, then module, then instance,
//! then name.
//!
//! The kernel itself keeps its chain in no particular order. For
//! deterministic enumeration in displays and tests, descriptors admit the
//! lexicographic/numeric order below, and [`sort_descriptors`] arranges any
//! set of descriptors into it.

use vstd::prelude::*;
use vstd::multiset::group_multiset_axioms;
use vstd::seq_lib::group_to_multiset_ensures;

use crate::chain::{str_eq, Kstat};

verus! {

/// Strict lexicographic order on character sequences, by scalar value.
pub open spec fn lex_lt(a: Seq<char>, b: Seq<char>) -> bool
    decreases a.len(),
{
    if b.len() == 0 {
        false
    } else if a.len() == 0 {
        true
    } else if a[0] == b[0] {
        lex_lt(a.skip(1), b.skip(1))
    } else {
        (a[0] as u32) < (b[0] as u32)
    }
}

/// No character sequence is lexicographically below itself.
proof fn lemma_lex_irrefl(a: Seq<char>)
    ensures
        !lex_lt(a, a),
    decreases a.len(),
{
    if a.len() > 0 {
        lemma_lex_irrefl(a.skip(1));
    }
}

/// Two character sequences are equal or one is lexicographically below the
/// other.
proof fn lemma_lex_connected(a: Seq<char>, b: Seq<char>)
    ensures
        a == b || lex_lt(a, b) || lex_lt(b, a),
    decreases a.len(),
{
    if a.len() == 0 && b.len() == 0 {
        assert(a =~= b);
    } else if a.len() == 0 || b.len() == 0 {
    } else if a[0] == b[0] {
        lemma_lex_connected(a.skip(1), b.skip(1));
        if a.skip(1) == b.skip(1) {
            assert(a.skip(1).len() == a.len() - 1);
            assert(b.skip(1).len() == b.len() - 1);
            assert(a.len() == b.len());
            assert forall|i: int| 0 <= i < a.len() implies a[i] == b[i] by {
                if i > 0 {
                    assert(a.skip(1)[i - 1] == a[i]);
                    assert(b.skip(1)[i - 1] == b[i]);
                }
            }
            assert(a =~= b);
        }
    } else {
        if a[0] as u32 == b[0] as u32 {
            vstd::utf8::char_u32_cast(a[0], a[0] as u32);
            vstd::utf8::char_u32_cast(b[0], b[0] as u32);
        }
    }
}

/// Lexicographic order is transitive.
proof fn lemma_lex_trans(a: Seq<char>, b: Seq<char>, c: Seq<char>)
    requires
        lex_lt(a, b),
        lex_lt(b, c),
    ensures
        lex_lt(a, c),
    decreases a.len(),
{
    if a.len() == 0 {
    } else {
        if a[0] == b[0] && b[0] == c[0] {
            lemma_lex_trans(a.skip(1), b.skip(1), c.skip(1));
        }
    }
}

/// The sort key order on descriptors: by class, then module, then instance,
/// then name.
pub open spec fn key_le(a: Kstat, b: Kstat) -> bool {
    if a.ks_class@ != b.ks_class@ {
        lex_lt(a.ks_class@, b.ks_class@)
    } else if a.ks_module@ != b.ks_module@ {
        lex_lt(a.ks_module@, b.ks_module@)
    } else if a.ks_instance != b.ks_instance {
        a.ks_instance < b.ks_instance
    } else {
        lex_lt(a.ks_name@, b.ks_name@) || a.ks_name@ == b.ks_name@
    }
}

/// The sort key order relates any two descriptors, in one direction or the
/// other: sorting under it leaves no pair unordered.
pub proof fn lemma_key_le_total(a: Kstat, b: Kstat)
    ensures
        key_le(a, b) || key_le(b, a),
{
    lemma_lex_connected(a.ks_class@, b.ks_class@);
    lemma_lex_connected(a.ks_module@, b.ks_module@);
    lemma_lex_connected(a.ks_name@, b.ks_name@);
}

/// The sort key order is transitive.
pub proof fn lemma_key_le_trans(a: Kstat, b: Kstat, c: Kstat)
    requires
        key_le(a, b),
        key_le(b, c),
    ensures
        key_le(a, c),
{
    if a.ks_class@ != b.ks_class@ || b.ks_class@ != c.ks_class@ {
        if a.ks_class@ != b.ks_class@ && b.ks_class@ != c.ks_class@ {
            lemma_lex_trans(a.ks_class@, b.ks_class@, c.ks_class@);
            if a.ks_class@ == c.ks_class@ {
                lemma_lex_irrefl(a.ks_class@);
            }
        }
    } else if a.ks_module@ != b.ks_module@ || b.ks_module@ != c.ks_module@ {
        if a.ks_module@ != b.ks_module@ && b.ks_module@ != c.ks_module@ {
            lemma_lex_trans(a.ks_module@, b.ks_module@, c.ks_module@);
            if a.ks_module@ == c.ks_module@ {
                lemma_lex_irrefl(a.ks_module@);
            }
        }
    } else if a.ks_instance != b.ks_instance || b.ks_instance != c.ks_instance {
    } else {
        if lex_lt(a.ks_name@, b.ks_name@) && lex_lt(b.ks_name@, c.ks_name@) {
            lemma_lex_trans(a.ks_name@, b.ks_name@, c.ks_name@);
        }
    }
}

/// A sequence of descriptors arranged by the sort key order.
pub open spec fn sorted_descriptors(s: Seq<Kstat>) -> bool {
    forall|i: int, j: int| 0 <= i < j < s.len() ==> key_le(#[trigger] s[i], #[trigger] s[j])
}

/// Decide the lexicographic order between two strings.
fn lex_lt_exec(a: &str, b: &str) -> (r: bool)
    ensures
        r == lex_lt(a@, b@),
{
    let la = a.unicode_len();
    let lb = b.unicode_len();
    let mut i: usize = 0;
    proof {
        assert(a@.skip(0) =~= a@);
        assert(b@.skip(0) =~= b@);
    }
    loop
        invariant
            0 <= i <= la,
            i <= lb,
            la == a@.len(),
            lb == b@.len(),
            lex_lt(a@, b@) == lex_lt(a@.skip(i as int), b@.skip(i as int)),
        decreases la - i,
    {
        if i == lb {
            // `b` has run out: nothing is below the empty sequence.
            return false;
        }
        if i == la {
            // `a` has run out while `b` has not.
            return true;
        }
        let ca = a.get_char(i);
        let cb = b.get_char(i);
        if ca != cb {
            return (ca as u32) < (cb as u32);
        }
        proof {
            assert(a@.skip(i as int).skip(1) =~= a@.skip(i as int + 1));
            assert(b@.skip(i as int).skip(1) =~= b@.skip(i as int + 1));
        }
        i = i + 1;
    }
}

/// Decide the sort key order between two descriptors.
pub fn kstat_le(a: &Kstat, b: &Kstat) -> (r: bool)
    ensures
        r == key_le(*a, *b),
{
    if !str_eq(a.ks_class.as_str(), b.ks_class.as_str()) {
        return lex_lt_exec(a.ks_class.as_str(), b.ks_class.as_str());
    }
    if !str_eq(a.ks_module.as_str(), b.ks_module.as_str()) {
        return lex_lt_exec(a.ks_module.as_str(), b.ks_module.as_str());
    }
    if a.ks_instance != b.ks_instance {
        return a.ks_instance < b.ks_instance;
    }
    if !str_eq(a.ks_name.as_str(), b.ks_name.as_str()) {
        return lex_lt_exec(a.ks_name.as_str(), b.ks_name.as_str());
    }
    true
}

/// Arrange descriptors into the deterministic order by (class, module,
/// instance, name): the result is sorted under the sort key order and holds
/// exactly the descriptors given, re-derived keys and all.
pub fn sort_descriptors(v: &mut Vec<Kstat>)
    ensures
        sorted_descriptors(final(v)@),
        final(v)@.to_multiset() == old(v)@.to_multiset(),
{
    broadcast use group_to_multiset_ensures, group_multiset_axioms;

    let ghost orig = v@;
    let mut out: Vec<Kstat> = Vec::new();
    proof {
        vstd::multiset::lemma_multiset_empty_len(out@.to_multiset());
        assert(out@.to_multiset().add(v@.to_multiset()) =~= orig.to_multiset());
    }
    while v.len() > 0
        invariant
            sorted_descriptors(out@),
            forall|p: int, q: int|
                0 <= p < out@.len() && 0 <= q < v@.len() ==> key_le(
                    #[trigger] out@[p],
                    #[trigger] v@[q],
                ),
            out@.to_multiset().add(v@.to_multiset()) =~= orig.to_multiset(),
        decreases v.len(),
    {
        // Select the least remaining descriptor.
        let mut mi: usize = 0;
        let mut j: usize = 1;
        while j < v.len()
            invariant
                0 <= mi < j <= v@.len(),
                v@.len() > 0,
                forall|q: int| 0 <= q < j ==> key_le(v@[mi as int], #[trigger] v@[q]),
            decreases v@.len() - j,
        {
            if !kstat_le(&v[mi], &v[j]) {
                proof {
                    lemma_key_le_total(v@[mi as int], v@[j as int]);
                    assert forall|q: int| 0 <= q < j implies key_le(
                        v@[j as int],
                        #[trigger] v@[q],
                    ) by {
                        lemma_key_le_trans(v@[j as int], v@[mi as int], v@[q]);
                    }
                }
                mi = j;
            }
            j = j + 1;
        }
        let ghost pre_out = out@;
        let ghost pre_v = v@;
        let ghost gx = pre_v[mi as int];
        let x = v.remove(mi);
        out.push(x);
        proof {
            assert(pre_v.contains(gx)) by {
                assert(pre_v[mi as int] == gx);
            }
            vstd::seq_lib::to_multiset_contains(pre_v, gx);
            vstd::seq_lib::to_multiset_build(pre_out, gx);
            vstd::seq_lib::to_multiset_remove(pre_v, mi as int);
            assert(pre_v.to_multiset().count(gx) > 0);
            assert(pre_out.push(gx).to_multiset().add(pre_v.remove(mi as int).to_multiset())
                =~= pre_out.to_multiset().add(pre_v.to_multiset()));
            assert forall|q: int| 0 <= q < v@.len() implies key_le(gx, #[trigger] v@[q]) by {
                pre_v.remove_ensures(mi as int);
            }
        }
    }
    proof {
        vstd::multiset::lemma_multiset_empty_len(v@.to_multiset());
        assert(out@.to_multiset().add(v@.to_multiset()) =~= out@.to_multiset());
    }
    *v = out;
}

} // verus!
