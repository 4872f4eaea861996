//! Character-level text operations used by the line protocol: comparison,
//! tag-value escaping, hyphen removal, joining and sorting.

use vstd::prelude::*;
use vstd::relations::{antisymmetric, reflexive, sorted_by, strongly_connected, total_ordering, transitive};
use vstd::multiset::Multiset;
use vstd::seq_lib::lemma_multiset_commutative;
use vstd::seq_lib::lemma_sorted_unique;

verus! {

/// Lexicographic order on character sequences, by code point.
pub open spec fn lex_leq(a: Seq<char>, b: Seq<char>) -> bool
    decreases a.len(),
{
    if a.len() == 0 {
        true
    } else if b.len() == 0 {
        false
    } else if a[0] != b[0] {
        (a[0] as int) < (b[0] as int)
    } else {
        lex_leq(a.drop_first(), b.drop_first())
    }
}

/// The lexicographic order as a relation value, for sorting.
pub open spec fn lex_fn() -> spec_fn(Seq<char>, Seq<char>) -> bool {
    |a: Seq<char>, b: Seq<char>| lex_leq(a, b)
}

pub proof fn lemma_lex_refl(a: Seq<char>)
    ensures
        lex_leq(a, a),
    decreases a.len(),
{
    if a.len() > 0 {
        lemma_lex_refl(a.drop_first());
    }
}

pub proof fn lemma_lex_antisym(a: Seq<char>, b: Seq<char>)
    requires
        lex_leq(a, b),
        lex_leq(b, a),
    ensures
        a == b,
    decreases a.len(),
{
    if a.len() == 0 {
        assert(b.len() == 0);
        assert(a =~= b);
    } else {
        assert(a[0] == b[0]);
        lemma_lex_antisym(a.drop_first(), b.drop_first());
        assert(a.len() == b.len());
        assert forall|i: int| 0 <= i < a.len() implies a[i] == b[i] by {
            if i > 0 {
                assert(a[i] == a.drop_first()[i - 1]);
                assert(b[i] == b.drop_first()[i - 1]);
            }
        }
        assert(a =~= b);
    }
}

pub proof fn lemma_lex_trans(a: Seq<char>, b: Seq<char>, c: Seq<char>)
    requires
        lex_leq(a, b),
        lex_leq(b, c),
    ensures
        lex_leq(a, c),
    decreases a.len(),
{
    if a.len() > 0 && b.len() > 0 && c.len() > 0 {
        if a[0] == b[0] && b[0] == c[0] {
            lemma_lex_trans(a.drop_first(), b.drop_first(), c.drop_first());
        }
    }
}

pub proof fn lemma_lex_conn(a: Seq<char>, b: Seq<char>)
    ensures
        lex_leq(a, b) || lex_leq(b, a),
    decreases a.len(),
{
    if a.len() > 0 && b.len() > 0 && a[0] == b[0] {
        lemma_lex_conn(a.drop_first(), b.drop_first());
    }
}

/// The lexicographic order is a total ordering.
pub proof fn lemma_lex_total_ordering()
    ensures
        total_ordering(lex_fn()),
{
    assert forall|a: Seq<char>| #[trigger] lex_fn()(a, a) by {
        lemma_lex_refl(a);
    }
    assert(reflexive(lex_fn()));
    assert forall|a: Seq<char>, b: Seq<char>|
        #[trigger] lex_fn()(a, b) && #[trigger] lex_fn()(b, a) implies a == b by {
        lemma_lex_antisym(a, b);
    }
    assert(antisymmetric(lex_fn()));
    assert forall|a: Seq<char>, b: Seq<char>, c: Seq<char>|
        #[trigger] lex_fn()(a, b) && #[trigger] lex_fn()(b, c) implies lex_fn()(a, c) by {
        lemma_lex_trans(a, b, c);
    }
    assert(transitive(lex_fn()));
    assert forall|a: Seq<char>, b: Seq<char>| #[trigger] lex_fn()(a, b) || #[trigger] lex_fn()(
        b,
        a,
    ) by {
        lemma_lex_conn(a, b);
    }
    assert(strongly_connected(lex_fn()));
}

/// Whether two string slices hold the same characters.
pub fn str_eq(a: &str, b: &str) -> (r: bool)
    ensures
        r == (a@ == b@),
{
    let alen = a.unicode_len();
    let blen = b.unicode_len();
    if alen != blen {
        return false;
    }
    let mut i: usize = 0;
    while i < alen
        invariant
            i <= alen,
            alen == a@.len(),
            alen == b@.len(),
            forall|j: int| 0 <= j < i ==> a@[j] == b@[j],
        decreases alen - i,
    {
        if a.get_char(i) != b.get_char(i) {
            return false;
        }
        i = i + 1;
    }
    proof {
        assert(a@ =~= b@);
    }
    true
}

/// Whether `a` comes no later than `b` in lexicographic order.
pub fn str_leq(a: &str, b: &str) -> (r: bool)
    ensures
        r == lex_leq(a@, b@),
{
    let alen = a.unicode_len();
    let blen = b.unicode_len();
    let mut i: usize = 0;
    proof {
        assert(a@.skip(0) =~= a@);
        assert(b@.skip(0) =~= b@);
    }
    loop
        invariant_except_break
            i <= alen,
            i <= blen,
            alen == a@.len(),
            blen == b@.len(),
            lex_leq(a@, b@) == lex_leq(a@.skip(i as int), b@.skip(i as int)),
        ensures
            lex_leq(a@, b@) == lex_leq(a@.skip(i as int), b@.skip(i as int)),
            i <= alen && i <= blen,
            alen == a@.len() && blen == b@.len(),
            i == alen || i == blen || a@[i as int] != b@[i as int],
        decreases alen - i,
    {
        if i == alen || i == blen {
            break;
        }
        let ca = a.get_char(i);
        let cb = b.get_char(i);
        if ca != cb {
            break;
        }
        proof {
            assert(a@.skip(i as int).drop_first() =~= a@.skip(i as int + 1));
            assert(b@.skip(i as int).drop_first() =~= b@.skip(i as int + 1));
            assert(a@.skip(i as int)[0] == a@[i as int]);
            assert(b@.skip(i as int)[0] == b@[i as int]);
        }
        i = i + 1;
    }
    proof {
        assert(a@.skip(i as int).len() == a@.len() - i);
        assert(b@.skip(i as int).len() == b@.len() - i);
    }
    if i == alen {
        proof {
            assert(a@.skip(i as int).len() == 0);
        }
        true
    } else if i == blen {
        false
    } else {
        let ca = a.get_char(i);
        let cb = b.get_char(i);
        proof {
            assert(a@.skip(i as int)[0] == a@[i as int]);
            assert(b@.skip(i as int)[0] == b@[i as int]);
        }
        (ca as u32) < (cb as u32)
    }
}

/// The escaping of one character for a tag value: a space gains a backslash.
pub open spec fn esc1(c: char) -> Seq<char> {
    if c == ' ' {
        seq!['\\', ' ']
    } else {
        seq![c]
    }
}

/// A tag value with every space preceded by a backslash.
pub open spec fn escape_spaces(s: Seq<char>) -> Seq<char>
    decreases s.len(),
{
    if s.len() == 0 {
        Seq::empty()
    } else {
        esc1(s[0]) + escape_spaces(s.drop_first())
    }
}

pub proof fn lemma_escape_push(s: Seq<char>, c: char)
    ensures
        escape_spaces(s.push(c)) == escape_spaces(s) + esc1(c),
    decreases s.len(),
{
    if s.len() == 0 {
        assert(s.push(c).drop_first() =~= Seq::<char>::empty());
        assert(s.push(c)[0] == c);
        assert(escape_spaces(s.push(c)) == esc1(c) + escape_spaces(s.push(c).drop_first()));
        assert(escape_spaces(Seq::<char>::empty()) == Seq::<char>::empty());
        assert(escape_spaces(s) == Seq::<char>::empty());
        assert(escape_spaces(s.push(c)) =~= escape_spaces(s) + esc1(c));
    } else {
        assert(s.push(c).drop_first() =~= s.drop_first().push(c));
        lemma_escape_push(s.drop_first(), c);
        assert(escape_spaces(s.push(c)) =~= escape_spaces(s) + esc1(c));
    }
}

/// Escapes the spaces of a tag value.
pub fn escape_str(s: &str) -> (r: String)
    ensures
        r@ == escape_spaces(s@),
{
    let n = s.unicode_len();
    let mut r = String::new();
    let mut i: usize = 0;
    proof {
        assert(s@.take(0) =~= Seq::<char>::empty());
    }
    while i < n
        invariant
            i <= n,
            n == s@.len(),
            r@ == escape_spaces(s@.take(i as int)),
        decreases n - i,
    {
        let c = s.get_char(i);
        if c == ' ' {
            r.append("\\ ");
            proof {
                reveal_strlit("\\ ");
                assert("\\ "@ =~= esc1(c));
            }
        } else {
            crate::numfmt::push_char(&mut r, c);
            proof {
                assert(r@ =~= escape_spaces(s@.take(i as int)) + esc1(c));
            }
        }
        proof {
            assert(s@.take(i as int).push(s@[i as int]) =~= s@.take(i as int + 1));
            lemma_escape_push(s@.take(i as int), s@[i as int]);
        }
        i = i + 1;
    }
    proof {
        assert(s@.take(n as int) =~= s@);
    }
    r
}

/// The same characters with every hyphen turned into a space.
pub open spec fn spaced(s: Seq<char>) -> Seq<char> {
    s.map_values(|c: char| if c == '-' { ' ' } else { c })
}

/// Replaces each hyphen with a space.
pub fn hyphens_to_spaces(s: &str) -> (r: String)
    ensures
        r@ == spaced(s@),
{
    let n = s.unicode_len();
    let mut r = String::new();
    let mut i: usize = 0;
    while i < n
        invariant
            i <= n,
            n == s@.len(),
            r@ == spaced(s@.take(i as int)),
        decreases n - i,
    {
        let c = s.get_char(i);
        if c == '-' {
            crate::numfmt::push_char(&mut r, ' ');
        } else {
            crate::numfmt::push_char(&mut r, c);
        }
        proof {
            assert(r@ =~= spaced(s@.take(i as int + 1)));
        }
        i = i + 1;
    }
    proof {
        assert(s@.take(n as int) =~= s@);
    }
    r
}

/// The parts joined with the separator between neighbours.
pub open spec fn join_with(parts: Seq<Seq<char>>, sep: Seq<char>) -> Seq<char>
    decreases parts.len(),
{
    if parts.len() == 0 {
        Seq::empty()
    } else if parts.len() == 1 {
        parts[0]
    } else {
        parts[0] + sep + join_with(parts.drop_first(), sep)
    }
}

pub proof fn lemma_join_push(parts: Seq<Seq<char>>, sep: Seq<char>, x: Seq<char>)
    requires
        parts.len() >= 1,
    ensures
        join_with(parts.push(x), sep) == join_with(parts, sep) + sep + x,
    decreases parts.len(),
{
    if parts.len() == 1 {
        assert(parts.push(x)[0] == parts[0]);
        assert(parts.push(x).drop_first() =~= seq![x]);
        assert(join_with(parts.push(x), sep) == parts.push(x)[0] + sep + join_with(
            parts.push(x).drop_first(),
            sep,
        ));
        assert(join_with(seq![x], sep) == x);
        assert(join_with(parts, sep) == parts[0]);
        assert(join_with(parts.push(x), sep) =~= join_with(parts, sep) + sep + x);
    } else {
        assert(parts.push(x).drop_first() =~= parts.drop_first().push(x));
        lemma_join_push(parts.drop_first(), sep, x);
        assert(join_with(parts.push(x), sep) =~= join_with(parts, sep) + sep + x);
    }
}

/// Joins the strings with the separator between neighbours.
pub fn join_strings(parts: &Vec<String>, sep: &str) -> (r: String)
    ensures
        r@ == join_with(parts.deep_view(), sep@),
{
    if parts.len() == 0 {
        return String::new();
    }
    let mut r = parts[0].clone();
    let mut i: usize = 1;
    proof {
        assert(parts.deep_view().take(1) =~= seq![parts.deep_view()[0]]);
        assert(join_with(parts.deep_view().take(1), sep@) == parts.deep_view()[0]);
    }
    while i < parts.len()
        invariant
            1 <= i <= parts.deep_view().len(),
            parts.deep_view().len() == parts@.len(),
            forall|j: int|
                0 <= j < parts@.len() ==> parts.deep_view()[j] == parts@[j].deep_view(),
            r@ == join_with(parts.deep_view().take(i as int), sep@),
        decreases parts@.len() - i,
    {
        r.append(sep);
        r.append(parts[i].as_str());
        proof {
            assert(parts.deep_view().take(i as int).push(parts.deep_view()[i as int])
                =~= parts.deep_view().take(i as int + 1));
            lemma_join_push(parts.deep_view().take(i as int), sep@, parts.deep_view()[i as int]);
        }
        i = i + 1;
    }
    proof {
        assert(parts.deep_view().take(parts@.len() as int) =~= parts.deep_view());
    }
    r
}

/// Sorts the strings lexicographically.
pub fn sort_strings(v: &Vec<String>) -> (r: Vec<String>)
    ensures
        r.deep_view() == v.deep_view().sort_by(lex_fn()),
{
    proof {
        lemma_lex_total_ordering();
    }
    let mut r: Vec<String> = Vec::new();
    let mut idx: usize = 0;
    proof {
        assert(r.deep_view() =~= v.deep_view().take(0));
    }
    while idx < v.len()
        invariant
            idx <= v@.len(),
            v.deep_view().len() == v@.len(),
            r.deep_view().len() == r@.len(),
            forall|j: int| 0 <= j < v@.len() ==> v.deep_view()[j] == v@[j].deep_view(),
            forall|j: int| 0 <= j < r@.len() ==> r.deep_view()[j] == r@[j].deep_view(),
            sorted_by(r.deep_view(), lex_fn()),
            r.deep_view().to_multiset() == v.deep_view().take(idx as int).to_multiset(),
        decreases v@.len() - idx,
    {
        let x = v[idx].clone();
        let ghost xv = x@;
        let mut j: usize = 0;
        loop
            invariant_except_break
                xv == x@,
                j <= r@.len(),
                r.deep_view().len() == r@.len(),
                forall|k: int| 0 <= k < r@.len() ==> r.deep_view()[k] == r@[k].deep_view(),
                forall|k: int| 0 <= k < j ==> lex_leq(r.deep_view()[k], xv),
            ensures
                xv == x@,
                j <= r@.len(),
                forall|k: int| 0 <= k < j ==> lex_leq(r.deep_view()[k], xv),
                j == r@.len() || lex_leq(xv, r.deep_view()[j as int]),
            decreases r@.len() - j,
        {
            if j == r.len() {
                break;
            }
            let keep_going = str_leq(r[j].as_str(), x.as_str());
            proof {
                assert(r.deep_view()[j as int] == r@[j as int]@);
                assert(keep_going == lex_leq(r.deep_view()[j as int], xv));
            }
            if !keep_going {
                proof {
                    lemma_lex_conn(r.deep_view()[j as int], xv);
                    assert(lex_leq(xv, r.deep_view()[j as int]));
                }
                break;
            }
            proof {
                assert(lex_leq(r.deep_view()[j as int], xv));
            }
            j = j + 1;
        }
        let ghost old_r = r.deep_view();
        r.insert(j, x);
        proof {
            assert(r.deep_view() =~= old_r.insert(j as int, xv));
            lemma_insert_multiset(old_r, xv, j as int);
            assert forall|k: int| j <= k < old_r.len() implies lex_leq(xv, old_r[k]) by {
                assert(lex_leq(xv, old_r[j as int]));
                if k > j {
                    assert(lex_fn()(old_r[j as int], old_r[k]));
                    lemma_lex_trans(xv, old_r[j as int], old_r[k]);
                }
            }
            assert forall|p: int, q: int|
                0 <= p < q < r.deep_view().len() implies #[trigger] lex_fn()(
                r.deep_view()[p],
                r.deep_view()[q],
            ) by {
                let s = r.deep_view();
                if q < j {
                    assert(s[p] == old_r[p]);
                    assert(s[q] == old_r[q]);
                    assert(lex_fn()(old_r[p], old_r[q]));
                } else if p > j {
                    assert(s[p] == old_r[p - 1]);
                    assert(s[q] == old_r[q - 1]);
                    assert(lex_fn()(old_r[p - 1], old_r[q - 1]));
                } else if p < j && q == j {
                    assert(s[p] == old_r[p]);
                    assert(s[q] == xv);
                    assert(lex_leq(old_r[p], xv));
                } else if p == j {
                    assert(s[p] == xv);
                    assert(s[q] == old_r[q - 1]);
                    assert(lex_leq(xv, old_r[q - 1]));
                } else {
                    assert(s[p] == old_r[p]);
                    assert(s[q] == old_r[q - 1]);
                    assert(lex_leq(old_r[p], xv));
                    lemma_lex_trans(old_r[p], xv, old_r[q - 1]);
                }
            }
            assert(v.deep_view().take(idx as int).push(v.deep_view()[idx as int]) =~= v.deep_view()
                .take(idx as int + 1));
            v.deep_view().take(idx as int).to_multiset_ensures();
        }
        idx = idx + 1;
    }
    proof {
        assert(v.deep_view().take(v@.len() as int) =~= v.deep_view());
        v.deep_view().lemma_sort_by_ensures(lex_fn());
        lemma_sorted_unique(r.deep_view(), v.deep_view().sort_by(lex_fn()), lex_fn());
    }
    r
}

proof fn lemma_insert_multiset(s: Seq<Seq<char>>, x: Seq<char>, j: int)
    requires
        0 <= j <= s.len(),
    ensures
        s.insert(j, x).to_multiset() == s.to_multiset().insert(x),
{
    broadcast use vstd::seq_lib::group_to_multiset_ensures;

    let left = s.take(j);
    let right = s.skip(j);
    assert(s.insert(j, x) =~= left + (seq![x] + right));
    lemma_multiset_commutative(left, seq![x] + right);
    lemma_multiset_commutative(seq![x], right);
    assert(s =~= left + right);
    lemma_multiset_commutative(left, right);
    assert(seq![x] =~= Seq::<Seq<char>>::empty().push(x));
    assert(Seq::<Seq<char>>::empty().to_multiset() =~= Multiset::<Seq<char>>::empty());
    assert(seq![x].to_multiset() =~= Multiset::<Seq<char>>::empty().insert(x));
    assert(s.insert(j, x).to_multiset() =~= s.to_multiset().insert(x));
}

} // verus!
