//! Text ordering and string-building helpers shared by the canonicalizer and
//! the signer: the byte-order-compatible lexicographic order on character
//! sequences, a verified sort, and a verified join.

use vstd::prelude::*;
use vstd::relations::{sorted_by, total_ordering};
use vstd::string::{StrSliceExecFns, StringExecFns};

verus! {

/// Lexicographic order on character sequences by scalar value. On UTF-8 text
/// this coincides with byte-wise comparison of the encoded strings, which is
/// the order SigV4 canonicalization sorts by.
pub open spec fn lex_le(a: Seq<char>, b: Seq<char>) -> bool
    decreases a.len(),
{
    if a.len() == 0 {
        true
    } else if b.len() == 0 {
        false
    } else if (a[0] as u32) < (b[0] as u32) {
        true
    } else if a[0] == b[0] {
        lex_le(a.drop_first(), b.drop_first())
    } else {
        false
    }
}

/// The order as a function value, for `sort_by` and `sorted_by`.
pub open spec fn lex_le_fn() -> spec_fn(Seq<char>, Seq<char>) -> bool {
    |a: Seq<char>, b: Seq<char>| lex_le(a, b)
}

/// The views of a sequence of strings.
pub open spec fn str_views(parts: Seq<String>) -> Seq<Seq<char>> {
    parts.map_values(|s: String| s@)
}

pub proof fn lemma_lex_le_refl(a: Seq<char>)
    ensures
        lex_le(a, a),
    decreases a.len(),
{
    if a.len() > 0 {
        lemma_lex_le_refl(a.drop_first());
    }
}

pub proof fn lemma_lex_le_connected(a: Seq<char>, b: Seq<char>)
    ensures
        lex_le(a, b) || lex_le(b, a),
    decreases a.len(),
{
    if a.len() > 0 && b.len() > 0 {
        if !((a[0] as u32) < (b[0] as u32)) && !((b[0] as u32) < (a[0] as u32)) {
            vstd::utf8::char_u32_cast(a[0], a[0] as u32);
            vstd::utf8::char_u32_cast(b[0], b[0] as u32);
            assert(a[0] == b[0]);
            lemma_lex_le_connected(a.drop_first(), b.drop_first());
        }
    }
}

pub proof fn lemma_lex_le_trans(a: Seq<char>, b: Seq<char>, c: Seq<char>)
    requires
        lex_le(a, b),
        lex_le(b, c),
    ensures
        lex_le(a, c),
    decreases a.len(),
{
    if a.len() > 0 && b.len() > 0 && c.len() > 0 && a[0] == b[0] && b[0] == c[0] {
        lemma_lex_le_trans(a.drop_first(), b.drop_first(), c.drop_first());
    }
}

pub proof fn lemma_lex_le_antisym(a: Seq<char>, b: Seq<char>)
    requires
        lex_le(a, b),
        lex_le(b, a),
    ensures
        a == b,
    decreases a.len(),
{
    if a.len() == 0 {
        assert(a =~= b);
    } else {
        lemma_lex_le_antisym(a.drop_first(), b.drop_first());
        assert(a =~= b) by {
            assert(forall|i: int|
                1 <= i < a.len() ==> a[i] == a.drop_first()[i - 1] && b[i] == b.drop_first()[i
                    - 1]);
        }
    }
}

/// `lex_le` is a total ordering, as `sort_by` requires.
pub proof fn lemma_lex_le_total_ordering()
    ensures
        total_ordering(lex_le_fn()),
{
    assert forall|a: Seq<char>| #[trigger] lex_le_fn()(a, a) by {
        lemma_lex_le_refl(a);
    }
    assert forall|a: Seq<char>, b: Seq<char>|
        #[trigger] lex_le_fn()(a, b) && #[trigger] lex_le_fn()(b, a) implies a == b by {
        lemma_lex_le_antisym(a, b);
    }
    assert forall|a: Seq<char>, b: Seq<char>, c: Seq<char>|
        #[trigger] lex_le_fn()(a, b) && #[trigger] lex_le_fn()(b, c) implies lex_le_fn()(
        a,
        c,
    ) by {
        lemma_lex_le_trans(a, b, c);
    }
    assert forall|a: Seq<char>, b: Seq<char>| #[trigger] lex_le_fn()(a, b) || #[trigger] lex_le_fn()(
        b,
        a,
    ) by {
        lemma_lex_le_connected(a, b);
    }
}

/// Two sorted sequences that hold the same elements, with multiplicity, are
/// the same sequence.
pub proof fn lemma_sorted_multiset_unique(a: Seq<Seq<char>>, b: Seq<Seq<char>>)
    requires
        sorted_by(a, lex_le_fn()),
        sorted_by(b, lex_le_fn()),
        a.to_multiset() == b.to_multiset(),
    ensures
        a == b,
    decreases a.len(),
{
    broadcast use vstd::seq_lib::group_to_multiset_ensures;

    if a.len() == 0 {
        assert(b.to_multiset().len() == 0);
        assert(a =~= b);
    } else {
        assert(a.contains(a[0]));
        assert(b.to_multiset().count(a[0]) > 0);
        assert(b.contains(a[0]));
        assert(b.len() > 0);
        assert(b.contains(b[0]));
        assert(a.to_multiset().count(b[0]) > 0);
        assert(a.contains(b[0]));
        let i = choose|i: int| 0 <= i < a.len() && a[i] == b[0];
        let j = choose|j: int| 0 <= j < b.len() && b[j] == a[0];
        assert(lex_le(a[0], b[0])) by {
            if i == 0 {
                lemma_lex_le_refl(a[0]);
            } else {
                assert(lex_le_fn()(a[0], a[i]));
            }
        }
        assert(lex_le(b[0], a[0])) by {
            if j == 0 {
                lemma_lex_le_refl(b[0]);
            } else {
                assert(lex_le_fn()(b[0], b[j]));
            }
        }
        lemma_lex_le_antisym(a[0], b[0]);
        assert(a.remove(0) =~= a.drop_first());
        assert(b.remove(0) =~= b.drop_first());
        assert(a.drop_first().to_multiset() == b.drop_first().to_multiset()) by {
            assert(a.remove(0).to_multiset() == a.to_multiset().remove(a[0]));
            assert(b.remove(0).to_multiset() == b.to_multiset().remove(b[0]));
        }
        assert(sorted_by(a.drop_first(), lex_le_fn())) by {
            assert(forall|p: int, q: int|
                0 <= p < q < a.drop_first().len() ==> a.drop_first()[p] == a[p + 1]
                    && a.drop_first()[q] == a[q + 1]);
        }
        assert(sorted_by(b.drop_first(), lex_le_fn())) by {
            assert(forall|p: int, q: int|
                0 <= p < q < b.drop_first().len() ==> b.drop_first()[p] == b[p + 1]
                    && b.drop_first()[q] == b[q + 1]);
        }
        lemma_sorted_multiset_unique(a.drop_first(), b.drop_first());
        assert(a =~= b) by {
            assert(forall|i: int|
                1 <= i < a.len() ==> a[i] == a.drop_first()[i - 1] && b[i] == b.drop_first()[i
                    - 1]);
        }
    }
}

/// Mapping a function over two sequences that hold the same elements, with
/// multiplicity, yields sequences that hold the same elements, with
/// multiplicity.
pub proof fn lemma_map_values_multiset<A, B>(s1: Seq<A>, s2: Seq<A>, f: spec_fn(A) -> B)
    requires
        s1.to_multiset() == s2.to_multiset(),
    ensures
        s1.map_values(f).to_multiset() == s2.map_values(f).to_multiset(),
    decreases s1.len(),
{
    broadcast use vstd::seq_lib::group_to_multiset_ensures;

    if s1.len() == 0 {
        assert(s2.to_multiset().len() == 0);
        assert(s2.len() == 0);
        assert(s1.map_values(f) =~= s2.map_values(f));
    } else {
        let x = s1[0];
        assert(s1.contains(x));
        assert(s2.to_multiset().count(x) > 0);
        assert(s2.contains(x));
        let j = choose|j: int| 0 <= j < s2.len() && s2[j] == x;
        assert(s1.remove(0) =~= s1.drop_first());
        assert(s1.drop_first().to_multiset() == s2.remove(j).to_multiset()) by {
            assert(s1.remove(0).to_multiset() == s1.to_multiset().remove(x));
            assert(s2.remove(j).to_multiset() == s2.to_multiset().remove(x));
        }
        lemma_map_values_multiset(s1.drop_first(), s2.remove(j), f);
        assert(s1.map_values(f).remove(0) =~= s1.drop_first().map_values(f));
        assert(s2.map_values(f).remove(j) =~= s2.remove(j).map_values(f));
        assert(s1.map_values(f).remove(0).to_multiset() == s1.map_values(f).to_multiset().remove(
            f(x),
        ));
        assert(s2.map_values(f).remove(j).to_multiset() == s2.map_values(f).to_multiset().remove(
            f(s2[j]),
        ));
        assert(s1.map_values(f).to_multiset() =~= s2.map_values(f).to_multiset()) by {
            let m1 = s1.map_values(f).to_multiset();
            let m2 = s2.map_values(f).to_multiset();
            assert(s1.map_values(f)[0] == f(x));
            assert(s1.map_values(f).contains(f(x)));
            assert(m1.count(f(x)) > 0);
            assert(s2.map_values(f)[j] == f(x));
            assert(s2.map_values(f).contains(f(x)));
            assert(m2.count(f(x)) > 0);
            assert(m1.remove(f(x)) == m2.remove(f(x)));
            assert forall|y: B| m1.count(y) == m2.count(y) by {
                if y == f(x) {
                    assert(m1.remove(f(x)).count(y) == m1.count(y) - 1);
                    assert(m2.remove(f(x)).count(y) == m2.count(y) - 1);
                } else {
                    assert(m1.remove(f(x)).count(y) == m1.count(y));
                    assert(m2.remove(f(x)).count(y) == m2.count(y));
                }
            }
        }
    }
}

/// Relies on `String::push`: appends exactly one character at the end.
#[verifier::external_body]
pub(crate) fn push_char(s: &mut String, c: char)
    ensures
        final(s)@ == old(s)@ + seq![c],
{
    s.push(c);
}

/// Compares two strings in the `lex_le` order.
pub fn str_le(a: &str, b: &str) -> (r: bool)
    ensures
        r == lex_le(a@, b@),
{
    let a_len = a.unicode_len();
    let b_len = b.unicode_len();
    let mut i: usize = 0;
    proof {
        assert(a@.skip(0) =~= a@);
        assert(b@.skip(0) =~= b@);
    }
    while i < a_len && i < b_len
        invariant
            i <= a_len,
            i <= b_len,
            a_len == a@.len(),
            b_len == b@.len(),
            lex_le(a@, b@) == lex_le(a@.skip(i as int), b@.skip(i as int)),
        decreases a_len - i,
    {
        let ca = a.get_char(i);
        let cb = b.get_char(i);
        proof {
            assert(a@.skip(i as int)[0] == ca);
            assert(b@.skip(i as int)[0] == cb);
        }
        if (ca as u32) < (cb as u32) {
            return true;
        }
        if (cb as u32) < (ca as u32) {
            return false;
        }
        proof {
            assert(a@.skip(i as int).drop_first() =~= a@.skip(i + 1));
            assert(b@.skip(i as int).drop_first() =~= b@.skip(i + 1));
        }
        i = i + 1;
    }
    proof {
        if i == a_len {
            assert(a@.skip(i as int).len() == 0);
            if a_len <= b_len {
            } else {
                assert(false);
            }
        } else {
            assert(i == b_len);
            assert(b@.skip(i as int).len() == 0);
            assert(a@.skip(i as int).len() > 0);
        }
    }
    a_len <= b_len
}

/// Sorts strings into the `lex_le` order; the result is exactly the
/// `sort_by` of the input views.
pub fn sort_strings(v: Vec<String>) -> (r: Vec<String>)
    ensures
        str_views(r@) == str_views(v@).sort_by(lex_le_fn()),
{
    broadcast use vstd::seq_lib::group_to_multiset_ensures;

    let mut out: Vec<String> = Vec::new();
    let mut i: usize = 0;
    while i < v.len()
        invariant
            i <= v.len(),
            sorted_by(str_views(out@), lex_le_fn()),
            str_views(out@).to_multiset() == str_views(v@.take(i as int)).to_multiset(),
        decreases v.len() - i,
    {
        let x = v[i].clone();
        let mut j: usize = 0;
        while j < out.len() && str_le(&out[j], &x)
            invariant
                j <= out.len(),
                forall|k: int| 0 <= k < j ==> lex_le(#[trigger] str_views(out@)[k], x@),
            decreases out.len() - j,
        {
            j = j + 1;
        }
        let ghost pre = str_views(out@);
        let ghost pre_take = str_views(v@.take(i as int));
        let ghost xv = x@;
        proof {
            lemma_insert_sorted(pre, xv, j as int);
            lemma_to_multiset_insert(pre, xv, j as int);
        }
        out.insert(j, x);
        i = i + 1;
        proof {
            assert(str_views(out@) =~= pre.insert(j as int, xv));
            assert(str_views(out@).to_multiset() == pre.to_multiset().insert(xv));
            assert(str_views(v@.take(i as int)) =~= pre_take.push(xv));
            vstd::seq_lib::to_multiset_build(pre_take, xv);
        }
    }
    proof {
        assert(v@.take(v@.len() as int) =~= v@);
        lemma_lex_le_total_ordering();
        str_views(v@).lemma_sort_by_ensures(lex_le_fn());
        lemma_sorted_multiset_unique(str_views(out@), str_views(v@).sort_by(lex_le_fn()));
    }
    out
}

/// Inserting at the first position whose element is not below `x` keeps the
/// sequence sorted.
proof fn lemma_insert_sorted(s: Seq<Seq<char>>, x: Seq<char>, j: int)
    requires
        sorted_by(s, lex_le_fn()),
        0 <= j <= s.len(),
        forall|k: int| 0 <= k < j ==> lex_le(#[trigger] s[k], x),
        j < s.len() ==> !lex_le(s[j], x),
    ensures
        sorted_by(s.insert(j, x), lex_le_fn()),
{
    let t = s.insert(j, x);
    assert forall|p: int, q: int| 0 <= p < q < t.len() implies #[trigger] lex_le_fn()(
        t[p],
        t[q],
    ) by {
        if p < j && q == j {
            assert(t[p] == s[p]);
            assert(lex_le(s[p], x));
        } else if p == j && q > j {
            assert(t[q] == s[q - 1]);
            if q - 1 == j {
                lemma_lex_le_connected(s[j], x);
            } else {
                lemma_lex_le_connected(s[j], x);
                assert(lex_le_fn()(s[j], s[q - 1]));
                lemma_lex_le_trans(x, s[j], s[q - 1]);
            }
        } else if p < j && q > j {
            assert(t[p] == s[p] && t[q] == s[q - 1]);
            if p < q - 1 {
                assert(lex_le_fn()(s[p], s[q - 1]));
            } else {
                assert(lex_le(s[p], x));
                lemma_lex_le_connected(s[j], x);
                lemma_lex_le_trans(s[p], x, s[q - 1]);
            }
        } else if p > j && q > j {
            assert(t[p] == s[p - 1] && t[q] == s[q - 1]);
            assert(lex_le_fn()(s[p - 1], s[q - 1]));
        } else if p < j && q < j {
            assert(t[p] == s[p] && t[q] == s[q]);
            assert(lex_le_fn()(s[p], s[q]));
        }
    }
}

/// Inserting anywhere adds exactly that element to the multiset.
proof fn lemma_to_multiset_insert<A>(s: Seq<A>, x: A, j: int)
    requires
        0 <= j <= s.len(),
    ensures
        s.insert(j, x).to_multiset() == s.to_multiset().insert(x),
{
    broadcast use vstd::seq_lib::group_to_multiset_ensures;

    let t = s.insert(j, x);
    assert(t.remove(j) =~= s);
    assert(t[j] == x);
    assert(t.remove(j).to_multiset() == t.to_multiset().remove(x));
    assert(t.contains(x));
    assert(t.to_multiset().count(x) > 0);
    assert(t.to_multiset() =~= s.to_multiset().insert(x)) by {
        assert forall|y: A| t.to_multiset().count(y) == s.to_multiset().insert(x).count(y) by {
            if y == x {
                assert(t.to_multiset().remove(x).count(y) == t.to_multiset().count(y) - 1);
            } else {
                assert(t.to_multiset().remove(x).count(y) == t.to_multiset().count(y));
            }
        }
    }
}

/// The separated join of a sequence of parts: empty for no parts, and one
/// separator between each adjacent pair.
pub open spec fn join_with(parts: Seq<Seq<char>>, sep: Seq<char>) -> Seq<char>
    decreases parts.len(),
{
    if parts.len() == 0 {
        Seq::empty()
    } else if parts.len() == 1 {
        parts[0]
    } else {
        parts[0] + sep + join_with(parts.drop_first(), sep)
    }
}

proof fn lemma_join_with_push(parts: Seq<Seq<char>>, x: Seq<char>, sep: Seq<char>)
    ensures
        join_with(parts.push(x), sep) == if parts.len() == 0 {
            x
        } else {
            join_with(parts, sep) + sep + x
        },
    decreases parts.len(),
{
    if parts.len() == 0 {
        assert(parts.push(x)[0] == x);
        assert(join_with(parts.push(x), sep) == x);
    } else {
        assert(parts.push(x).drop_first() =~= parts.drop_first().push(x));
        lemma_join_with_push(parts.drop_first(), x, sep);
        if parts.len() == 1 {
            assert(join_with(parts.push(x), sep) =~= join_with(parts, sep) + sep + x);
        } else {
            assert(join_with(parts.push(x), sep) =~= join_with(parts, sep) + sep + x);
        }
    }
}

/// Joins strings with the given separator character.
pub fn join_strings(parts: &Vec<String>, sep: char) -> (r: String)
    ensures
        r@ == join_with(str_views(parts@), seq![sep]),
{
    let mut out = String::new();
    let mut i: usize = 0;
    while i < parts.len()
        invariant
            i <= parts.len(),
            out@ == join_with(str_views(parts@.take(i as int)), seq![sep]),
        decreases parts.len() - i,
    {
        if i > 0 {
            push_char(&mut out, sep);
        }
        out.append(parts[i].as_str());
        proof {
            lemma_join_with_push(str_views(parts@.take(i as int)), parts@[i as int]@, seq![sep]);
            assert(str_views(parts@.take(i + 1)) =~= str_views(parts@.take(i as int)).push(
                parts@[i as int]@,
            ));
        }
        i = i + 1;
    }
    proof {
        assert(parts@.take(parts@.len() as int) =~= parts@);
    }
    out
}

/// What `str::to_lowercase` returns: a function of the characters alone.
pub uninterp spec fn lower_of(s: Seq<char>) -> Seq<char>;

/// Relies on `str::to_lowercase`: the lowercase form of the text depends on
/// the characters alone.
#[verifier::external_body]
pub(crate) fn to_lowercase(s: &str) -> (r: String)
    ensures
        r@ == lower_of(s@),
{
    s.to_lowercase()
}

/// What `str::trim` returns: a function of the characters alone.
pub uninterp spec fn trim_of(s: Seq<char>) -> Seq<char>;

/// Relies on `str::trim`: the text with leading and trailing whitespace
/// removed depends on the characters alone.
#[verifier::external_body]
pub(crate) fn trim(s: &str) -> (r: &str)
    ensures
        r@ == trim_of(s@),
{
    s.trim()
}

} // verus!
