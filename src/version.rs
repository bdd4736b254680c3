//! Ordering of dotted version tags such as `2023.617.1`.
//!
//! A tag is split on `.`; each piece is read as an unsigned 32-bit decimal
//! number, a piece that is not one counting as `0`. Piece `i` of `k` is
//! weighted by `10^(k - i - 1)` and the weighted pieces are summed. The sum is
//! taken modulo `2^32`, as unsigned 32-bit arithmetic wraps: a known limit,
//! under which tags whose sum exceeds `u32::MAX` (pieces of ten or more digits,
//! ten or more pieces) compare by the wrapped value.
use core::cmp::Ordering;
use vstd::arithmetic::div_mod::{lemma_add_mod_noop, lemma_mul_mod_noop_left};
use vstd::arithmetic::power::pow;
use vstd::prelude::*;
use vstd::string::*;

verus! {

/// The modulus of the weighting arithmetic.
pub open spec fn weight_modulus() -> int {
    0x1_0000_0000
}

pub open spec fn is_digit(c: char) -> bool {
    '0' <= c && c <= '9'
}

/// Numeric value of a decimal digit character.
pub open spec fn digit_value(c: char) -> nat {
    (c as int - '0' as int) as nat
}

/// Value of a run of decimal digits, most significant first.
pub open spec fn digits_value(d: Seq<char>) -> nat
    decreases d.len(),
{
    if d.len() == 0 {
        0
    } else {
        10 * digits_value(d.drop_last()) + digit_value(d.last())
    }
}

/// One or more decimal digits and nothing else.
pub open spec fn all_digits(d: Seq<char>) -> bool {
    d.len() > 0 && forall|i: int| 0 <= i < d.len() ==> is_digit(#[trigger] d[i])
}

/// The text of a piece after an optional leading `+`.
pub open spec fn unsigned_part(c: Seq<char>) -> Seq<char> {
    if c.len() > 0 && c[0] == '+' {
        c.drop_first()
    } else {
        c
    }
}

/// A piece read as an unsigned 32-bit decimal number: an optional `+`, then
/// one or more digits whose value is at most `u32::MAX`.
pub open spec fn parse_u32(c: Seq<char>) -> Option<nat> {
    let d = unsigned_part(c);
    if all_digits(d) && digits_value(d) <= u32::MAX {
        Some(digits_value(d))
    } else {
        None
    }
}

/// The number a piece stands for: its value, or `0` when it is not a number.
pub open spec fn component_value(c: Seq<char>) -> nat {
    match parse_u32(c) {
        Some(v) => v,
        None => 0,
    }
}

/// The pieces of a tag between dots; a tag without a dot is a single piece.
pub open spec fn components(t: Seq<char>) -> Seq<Seq<char>>
    decreases t.len(),
{
    if t.len() == 0 {
        seq![Seq::empty()]
    } else {
        let init = components(t.drop_last());
        if t.last() == '.' {
            init.push(Seq::empty())
        } else {
            init.update(init.len() - 1, init.last().push(t.last()))
        }
    }
}

pub open spec fn values_of(cs: Seq<Seq<char>>) -> Seq<nat> {
    cs.map_values(|c: Seq<char>| component_value(c))
}

/// `vs[0] * 10^(k-1) + vs[1] * 10^(k-2) + ... + vs[k-1] * 10^0`.
pub open spec fn positional_sum(vs: Seq<nat>) -> int
    decreases vs.len(),
{
    if vs.len() == 0 {
        0
    } else {
        vs[0] * pow(10, (vs.len() - 1) as nat) + positional_sum(vs.drop_first())
    }
}

/// The same sum, gathered from the most significant piece on.
pub open spec fn horner(vs: Seq<nat>) -> int
    decreases vs.len(),
{
    if vs.len() == 0 {
        0
    } else {
        10 * horner(vs.drop_last()) + vs.last()
    }
}

/// The positional magnitude of a tag, before any bound.
pub open spec fn magnitude(t: Seq<char>) -> int {
    positional_sum(values_of(components(t)))
}

/// The key by which tags are ordered.
pub open spec fn tag_weight(t: Seq<char>) -> int {
    magnitude(t) % weight_modulus()
}

/// How `a` compares to `b`.
pub open spec fn compare_tags(a: Seq<char>, b: Seq<char>) -> Ordering {
    if tag_weight(a) < tag_weight(b) {
        Ordering::Less
    } else if tag_weight(a) == tag_weight(b) {
        Ordering::Equal
    } else {
        Ordering::Greater
    }
}

pub open spec fn reversed(o: Ordering) -> Ordering {
    match o {
        Ordering::Less => Ordering::Greater,
        Ordering::Equal => Ordering::Equal,
        Ordering::Greater => Ordering::Less,
    }
}

proof fn lemma_digits_value_prefix(d: Seq<char>, k: int)
    requires
        0 <= k <= d.len(),
    ensures
        digits_value(d.subrange(0, k)) <= digits_value(d),
    decreases d.len(),
{
    if k < d.len() {
        lemma_digits_value_prefix(d.drop_last(), k);
        assert(d.drop_last().subrange(0, k) =~= d.subrange(0, k));
    } else {
        assert(d.subrange(0, k) =~= d);
    }
}

proof fn lemma_positional_push(vs: Seq<nat>, x: nat)
    ensures
        positional_sum(vs.push(x)) == 10 * positional_sum(vs) + x,
    decreases vs.len(),
{
    let k = vs.len();
    if k == 0 {
        assert(vs.push(x).drop_first() =~= Seq::<nat>::empty());
        assert(pow(10, 0) == 1) by {
            reveal(pow);
        }
        assert(positional_sum(Seq::<nat>::empty()) == 0);
        assert(positional_sum(vs) == 0);
    } else {
        assert(vs.push(x).drop_first() =~= vs.drop_first().push(x));
        lemma_positional_push(vs.drop_first(), x);
        let p = pow(10, (k - 1) as nat);
        assert(pow(10, k as nat) == 10 * p) by {
            reveal(pow);
        }
        let v0 = vs[0] as int;
        assert(v0 * (10 * p) == 10 * (v0 * p)) by (nonlinear_arith);
        assert(vs.push(x)[0] == v0);
        assert(positional_sum(vs.push(x)) == v0 * pow(10, k as nat) + positional_sum(
            vs.push(x).drop_first(),
        ));
        assert(positional_sum(vs) == v0 * p + positional_sum(vs.drop_first()));
    }
}

/// Gathering the pieces from the most significant one on gives the
/// positional sum.
pub proof fn lemma_horner_is_positional(vs: Seq<nat>)
    ensures
        horner(vs) == positional_sum(vs),
    decreases vs.len(),
{
    if vs.len() > 0 {
        lemma_horner_is_positional(vs.drop_last());
        lemma_positional_push(vs.drop_last(), vs.last());
        assert(vs.drop_last().push(vs.last()) =~= vs);
    }
}

proof fn lemma_wrap_step(h: int, v: int)
    ensures
        ((h % weight_modulus()) * 10 + v) % weight_modulus() == (10 * h + v) % weight_modulus(),
{
    let m = weight_modulus();
    lemma_mul_mod_noop_left(h, 10, m);
    lemma_add_mod_noop((h % m) * 10, v, m);
    lemma_add_mod_noop(h * 10, v, m);
}

/// The value of the piece `t[start..end]`.
fn component_value_at(t: &str, start: usize, end: usize) -> (v: u32)
    requires
        start <= end <= t@.len(),
    ensures
        v == component_value(t@.subrange(start as int, end as int)),
{
    let ghost c = t@.subrange(start as int, end as int);
    let mut ds = start;
    if start < end && t.get_char(start) == '+' {
        ds = start + 1;
    }
    let ghost d = t@.subrange(ds as int, end as int);
    assert(unsigned_part(c) =~= d);
    if ds == end {
        return 0;
    }
    let mut val: u64 = 0;
    let mut j = ds;
    while j < end
        invariant
            start <= ds < end <= t@.len(),
            ds <= j <= end,
            c == t@.subrange(start as int, end as int),
            d == t@.subrange(ds as int, end as int),
            unsigned_part(c) == d,
            val <= u32::MAX,
            val == digits_value(d.subrange(0, j - ds)),
            forall|i: int| 0 <= i < j - ds ==> is_digit(#[trigger] d[i]),
        decreases end - j,
    {
        let ch = t.get_char(j);
        assert(ch == d[j - ds]);
        if !('0' <= ch && ch <= '9') {
            assert(!all_digits(d));
            return 0;
        }
        assert(d.subrange(0, j + 1 - ds).drop_last() =~= d.subrange(0, j - ds));
        val = val * 10 + (ch as u64 - '0' as u64);
        if val > u32::MAX as u64 {
            proof {
                lemma_digits_value_prefix(d, j + 1 - ds);
            }
            return 0;
        }
        j = j + 1;
    }
    assert(d.subrange(0, j - ds) =~= d);
    val as u32
}

/// The ordering key of a tag.
fn tag_weight_of(t: &str) -> (w: u32)
    ensures
        w == tag_weight(t@),
{
    let n = t.unicode_len();
    let mut acc: u64 = 0;
    let mut start: usize = 0;
    let mut i: usize = 0;
    let ghost mut done: Seq<Seq<char>> = Seq::empty();
    assert(t@.subrange(0, 0) =~= Seq::<char>::empty());
    assert(components(Seq::<char>::empty()) =~= done.push(t@.subrange(0, 0)));
    while i < n
        invariant
            n == t@.len(),
            start <= i <= n,
            components(t@.subrange(0, i as int)) == done.push(t@.subrange(start as int, i as int)),
            acc < weight_modulus(),
            acc == horner(values_of(done)) % weight_modulus(),
        decreases n - i,
    {
        let ch = t.get_char(i);
        let ghost prev = t@.subrange(0, i as int);
        let ghost next = t@.subrange(0, i + 1);
        assert(next.drop_last() =~= prev);
        assert(next.last() == ch);
        if ch == '.' {
            let v = component_value_at(t, start, i);
            let ghost piece = t@.subrange(start as int, i as int);
            proof {
                lemma_wrap_step(horner(values_of(done)), v as int);
                assert(values_of(done.push(piece)).drop_last() =~= values_of(done));
                done = done.push(piece);
                assert(t@.subrange(i + 1, i + 1) =~= Seq::<char>::empty());
            }
            acc = (acc * 10 + v as u64) % 0x1_0000_0000u64;
            start = i + 1;
        } else {
            proof {
                let piece = t@.subrange(start as int, i as int);
                assert(t@.subrange(start as int, i + 1) =~= piece.push(ch));
                assert(done.push(piece).update(done.len() as int, piece.push(ch)) =~= done.push(
                    piece.push(ch),
                ));
            }
        }
        i = i + 1;
    }
    let v = component_value_at(t, start, n);
    let ghost last = t@.subrange(start as int, n as int);
    proof {
        assert(t@.subrange(0, n as int) =~= t@);
        lemma_wrap_step(horner(values_of(done)), v as int);
        assert(values_of(done.push(last)).drop_last() =~= values_of(done));
        lemma_horner_is_positional(values_of(done.push(last)));
    }
    ((acc * 10 + v as u64) % 0x1_0000_0000u64) as u32
}

/// Compares two version tags by their weighted magnitude.
///
/// `2023.617.1` is greater than `2023.617.0`, which is greater than
/// `2023.612.0`.
pub fn cmp_version_tag_ltr(left: &str, right: &str) -> (r: Ordering)
    ensures
        r == compare_tags(left@, right@),
{
    let l = tag_weight_of(left);
    let r = tag_weight_of(right);
    if l < r {
        Ordering::Less
    } else if l == r {
        Ordering::Equal
    } else {
        Ordering::Greater
    }
}

/// Comparison is antisymmetric: swapping the tags reverses the outcome.
pub proof fn lemma_compare_antisymmetric(a: Seq<char>, b: Seq<char>)
    ensures
        compare_tags(b, a) == reversed(compare_tags(a, b)),
{
}

/// Every tag compares equal to itself.
pub proof fn lemma_compare_reflexive(a: Seq<char>)
    ensures
        compare_tags(a, a) == Ordering::Equal,
{
}

/// The texts of a sequence of strings.
pub open spec fn views(s: Seq<String>) -> Seq<Seq<char>> {
    s.map_values(|t: String| t@)
}

/// Tags whose weight is `w`.
pub open spec fn weighs(w: int) -> spec_fn(Seq<char>) -> bool {
    |t: Seq<char>| tag_weight(t) == w
}

/// Greatest weight first.
pub open spec fn sorted_desc(s: Seq<Seq<char>>) -> bool {
    forall|i: int, j: int|
        0 <= i < j < s.len() ==> tag_weight(#[trigger] s[i]) >= tag_weight(#[trigger] s[j])
}

/// `r` holds the tags of `s`, greatest weight first, and tags of equal weight
/// in the order they have in `s`.
pub open spec fn is_stable_desc_sort(r: Seq<Seq<char>>, s: Seq<Seq<char>>) -> bool {
    &&& sorted_desc(r)
    &&& forall|w: int| #[trigger] r.filter(weighs(w)) == s.filter(weighs(w))
}

proof fn lemma_filter_push(s: Seq<Seq<char>>, x: Seq<char>, p: spec_fn(Seq<char>) -> bool)
    ensures
        s.push(x).filter(p) == (if p(x) {
            s.filter(p).push(x)
        } else {
            s.filter(p)
        }),
{
    reveal(Seq::filter);
    assert(s.push(x).drop_last() =~= s);
}

proof fn lemma_filter_none(s: Seq<Seq<char>>, p: spec_fn(Seq<char>) -> bool)
    requires
        forall|i: int| 0 <= i < s.len() ==> !p(#[trigger] s[i]),
    ensures
        s.filter(p) == Seq::<Seq<char>>::empty(),
    decreases s.len(),
{
    reveal(Seq::filter);
    if s.len() > 0 {
        lemma_filter_none(s.drop_last(), p);
    }
}

proof fn lemma_insert_keeps_stable(r: Seq<Seq<char>>, s: Seq<Seq<char>>, pos: int, x: Seq<char>)
    requires
        is_stable_desc_sort(r, s),
        0 <= pos <= r.len(),
        forall|j: int| 0 <= j < pos ==> tag_weight(#[trigger] r[j]) >= tag_weight(x),
        forall|j: int| pos <= j < r.len() ==> tag_weight(#[trigger] r[j]) < tag_weight(x),
    ensures
        is_stable_desc_sort(r.insert(pos, x), s.push(x)),
{
    let r2 = r.insert(pos, x);
    r.insert_ensures(pos, x);
    assert forall|i: int, j: int| 0 <= i < j < r2.len() implies tag_weight(#[trigger] r2[i])
        >= tag_weight(#[trigger] r2[j]) by {
        if j < pos {
        } else if j == pos {
        } else if i < pos {
            assert(r2[j] == r[j - 1]);
        } else if i == pos {
            assert(r2[j] == r[j - 1]);
        } else {
            assert(r2[i] == r[i - 1]);
            assert(r2[j] == r[j - 1]);
        }
    }
    let a = r.subrange(0, pos);
    let b = r.subrange(pos, r.len() as int);
    assert(r =~= a + b);
    assert forall|w: int| #[trigger] r2.filter(weighs(w)) == s.push(x).filter(weighs(w)) by {
        let p = weighs(w);
        Seq::filter_distributes_over_add(a.push(x), b, p);
        Seq::filter_distributes_over_add(a, b, p);
        lemma_filter_push(a, x, p);
        lemma_filter_push(s, x, p);
        assert(r.filter(p) == s.filter(p));
        if p(x) {
            assert forall|i: int| 0 <= i < b.len() implies !p(#[trigger] b[i]) by {
                assert(b[i] == r[pos + i]);
            }
            lemma_filter_none(b, p);
            assert(a.filter(p) + b.filter(p) =~= a.filter(p));
            assert(a.filter(p).push(x) + b.filter(p) =~= a.filter(p).push(x));
        }
    }
}

proof fn lemma_filter_nonempty(s: Seq<Seq<char>>, p: spec_fn(Seq<char>) -> bool)
    requires
        s.filter(p).len() > 0,
    ensures
        exists|k: int| 0 <= k < s.len() && p(#[trigger] s[k]),
    decreases s.len(),
{
    reveal(Seq::filter);
    if s.len() > 0 && !p(s.last()) {
        lemma_filter_nonempty(s.drop_last(), p);
        let k = choose|k: int| 0 <= k < s.drop_last().len() && p(#[trigger] s.drop_last()[k]);
        assert(s[k] == s.drop_last()[k]);
    }
}

/// The last tag of a descending sequence has the least weight, so any weight
/// found in it is at least that of the last tag.
proof fn lemma_last_is_lightest(r: Seq<Seq<char>>, w: int)
    requires
        sorted_desc(r),
        r.len() > 0,
        r.filter(weighs(w)).len() > 0,
    ensures
        tag_weight(r.last()) <= w,
{
    lemma_filter_nonempty(r, weighs(w));
    let k = choose|k: int| 0 <= k < r.len() && weighs(w)(#[trigger] r[k]);
    if k < r.len() - 1 {
        assert(tag_weight(r[k]) >= tag_weight(r[r.len() - 1]));
    }
}

/// A stable descending sort has a single outcome: two sequences that are both
/// stable descending sorts of `s` are equal.
pub proof fn lemma_stable_sort_is_unique(r1: Seq<Seq<char>>, r2: Seq<Seq<char>>, s: Seq<Seq<char>>)
    requires
        is_stable_desc_sort(r1, s),
        is_stable_desc_sort(r2, s),
    ensures
        r1 == r2,
    decreases r1.len() + r2.len(),
{
    if r1.len() == 0 && r2.len() == 0 {
        assert(r1 =~= r2);
    } else if r1.len() == 0 || r2.len() == 0 {
        let (e, f) = if r1.len() == 0 {
            (r1, r2)
        } else {
            (r2, r1)
        };
        let w = tag_weight(f.last());
        assert(f.drop_last().push(f.last()) =~= f);
        lemma_filter_push(f.drop_last(), f.last(), weighs(w));
        reveal(Seq::filter);
        assert(e.filter(weighs(w)).len() == 0);
        assert(f.filter(weighs(w)) == s.filter(weighs(w)));
        assert(e.filter(weighs(w)) == s.filter(weighs(w)));
    } else {
        let x1 = r1.last();
        let x2 = r2.last();
        let w1 = tag_weight(x1);
        let w2 = tag_weight(x2);
        let a1 = r1.drop_last();
        let a2 = r2.drop_last();
        assert(a1.push(x1) =~= r1);
        assert(a2.push(x2) =~= r2);
        lemma_filter_push(a1, x1, weighs(w1));
        lemma_filter_push(a2, x2, weighs(w2));
        assert(r1.filter(weighs(w1)) == s.filter(weighs(w1)));
        assert(r2.filter(weighs(w1)) == s.filter(weighs(w1)));
        assert(r1.filter(weighs(w2)) == s.filter(weighs(w2)));
        assert(r2.filter(weighs(w2)) == s.filter(weighs(w2)));
        lemma_last_is_lightest(r2, w1);
        lemma_last_is_lightest(r1, w2);
        assert(w1 == w2);
        let f = r1.filter(weighs(w1));
        assert(f.last() == x1);
        assert(r2.filter(weighs(w1)).last() == x2);
        assert(x1 == x2);
        assert forall|w: int| #[trigger] a1.filter(weighs(w)) == a2.filter(weighs(w)) by {
            lemma_filter_push(a1, x1, weighs(w));
            lemma_filter_push(a2, x1, weighs(w));
            assert(r1.filter(weighs(w)) == s.filter(weighs(w)));
            assert(r2.filter(weighs(w)) == s.filter(weighs(w)));
            if w == w1 {
                assert(a1.filter(weighs(w)) =~= r1.filter(weighs(w)).drop_last());
                assert(a2.filter(weighs(w)) =~= r2.filter(weighs(w)).drop_last());
            }
        }
        assert(sorted_desc(a1)) by {
            assert forall|i: int, j: int| 0 <= i < j < a1.len() implies tag_weight(#[trigger] a1[i])
                >= tag_weight(#[trigger] a1[j]) by {
                assert(a1[i] == r1[i] && a1[j] == r1[j]);
            }
        }
        assert(sorted_desc(a2)) by {
            assert forall|i: int, j: int| 0 <= i < j < a2.len() implies tag_weight(#[trigger] a2[i])
                >= tag_weight(#[trigger] a2[j]) by {
                assert(a2[i] == r2[i] && a2[j] == r2[j]);
            }
        }
        lemma_stable_sort_is_unique(a1, a2, a1);
    }
}

/// Sorts version tags, greatest first; tags of equal weight keep their order.
///
/// `2023.617.1` comes before `2023.617.0`, which comes before `2023.612.0`.
pub fn sort_version_tags_desc(tags: Vec<String>) -> (sorted: Vec<String>)
    ensures
        is_stable_desc_sort(views(sorted@), views(tags@)),
{
    let mut sorted: Vec<String> = Vec::new();
    let mut keys: Vec<u32> = Vec::new();
    let mut i: usize = 0;
    proof {
        reveal(Seq::filter);
        assert(views(tags@.subrange(0, 0)) =~= Seq::<Seq<char>>::empty());
        assert(views(sorted@) =~= Seq::<Seq<char>>::empty());
    }
    while i < tags.len()
        invariant
            i <= tags.len(),
            keys.len() == sorted.len(),
            forall|j: int| 0 <= j < keys.len() ==> keys[j] == tag_weight(#[trigger] sorted[j]@),
            is_stable_desc_sort(views(sorted@), views(tags@.subrange(0, i as int))),
        decreases tags.len() - i,
    {
        let k = tag_weight_of(tags[i].as_str());
        let mut pos: usize = 0;
        while pos < keys.len() && keys[pos] >= k
            invariant
                pos <= keys.len(),
                keys.len() == sorted.len(),
                forall|j: int| 0 <= j < keys.len() ==> keys[j] == tag_weight(#[trigger] sorted[j]@),
                forall|j: int| 0 <= j < pos ==> tag_weight(#[trigger] sorted[j]@) >= k,
            decreases keys.len() - pos,
        {
            pos = pos + 1;
        }
        let x = tags[i].clone();
        let ghost old_sorted = sorted@;
        proof {
            let vs = views(sorted@);
            assert forall|j: int| pos <= j < vs.len() implies tag_weight(#[trigger] vs[j]) < tag_weight(
                x@,
            ) by {
                assert(tag_weight(vs[pos as int]) < k);
                if j > pos {
                    assert(tag_weight(vs[pos as int]) >= tag_weight(vs[j]));
                }
            }
            assert forall|j: int| 0 <= j < pos implies tag_weight(#[trigger] vs[j]) >= tag_weight(
                x@,
            ) by {
                assert(tag_weight(sorted[j]@) >= k);
            }
            lemma_insert_keeps_stable(vs, views(tags@.subrange(0, i as int)), pos as int, x@);
            assert(views(tags@.subrange(0, i + 1)) =~= views(tags@.subrange(0, i as int)).push(x@));
        }
        sorted.insert(pos, x);
        keys.insert(pos, k);
        proof {
            old_sorted.insert_ensures(pos as int, x);
            views(old_sorted).insert_ensures(pos as int, x@);
            assert(views(sorted@) =~= views(old_sorted).insert(pos as int, x@));
        }
        i = i + 1;
    }
    assert(tags@.subrange(0, tags.len() as int) =~= tags@);
    sorted
}

} // verus!
