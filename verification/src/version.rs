//! Tolerant dotted-numeric versions: the digits before any `+build` metadata,
//! component by component, compared as if zero-padded to equal length.
//! Handles semver (`0.9.0`) and CEF's `major.minor.patch+chromium-...`.

use vstd::prelude::*;
use crate::text::{chars_of, decimal, digit_char, is_white, subvec, trim, trim_bounds};

verus! {

/// The text before the first `+` (all of it when there is none).
pub open spec fn before_plus(s: Seq<char>) -> Seq<char>
    decreases s.len(),
{
    if s.len() == 0 {
        s
    } else if s[0] == '+' {
        Seq::empty()
    } else {
        seq![s[0]] + before_plus(s.drop_first())
    }
}

/// The text without one leading `v`.
pub open spec fn strip_v(s: Seq<char>) -> Seq<char> {
    if s.len() > 0 && s[0] == 'v' {
        s.drop_first()
    } else {
        s
    }
}

/// `str::split('.')`: the pieces between dots (one empty piece for an empty
/// text).
pub open spec fn split_dots(s: Seq<char>) -> Seq<Seq<char>>
    decreases s.len(),
{
    if s.len() == 0 {
        seq![Seq::empty()]
    } else {
        let init = split_dots(s.drop_last());
        if s.last() == '.' {
            init.push(Seq::empty())
        } else {
            init.update(init.len() - 1, init.last().push(s.last()))
        }
    }
}

pub open spec fn is_digit(c: char) -> bool {
    '0' <= c <= '9'
}

/// The number of leading ASCII digits.
pub open spec fn digit_run(p: Seq<char>) -> nat
    decreases p.len(),
{
    if p.len() > 0 && is_digit(p[0]) {
        1 + digit_run(p.drop_first())
    } else {
        0
    }
}

/// The decimal value of a digit string.
pub open spec fn digits_value(d: Seq<char>) -> nat
    decreases d.len(),
{
    if d.len() == 0 {
        0
    } else {
        digits_value(d.drop_last()) * 10 + ((d.last() as u32) - 48) as nat
    }
}

/// One component: its leading digits parsed as `u64`, 0 when there are none
/// or they overflow.
pub open spec fn component_value(p: Seq<char>) -> u64 {
    let n = digit_run(p);
    let v = digits_value(p.take(n as int));
    if n > 0 && v <= u64::MAX {
        v as u64
    } else {
        0
    }
}

/// The components of a version text.
pub open spec fn version_components(s: Seq<char>) -> Seq<u64> {
    split_dots(strip_v(trim(before_plus(s)))).map_values(|p: Seq<char>| component_value(p))
}

/// Component `i`, zero beyond the end.
pub open spec fn comp_at(v: Seq<u64>, i: int) -> u64 {
    if 0 <= i < v.len() {
        v[i]
    } else {
        0
    }
}

pub open spec fn max_len(a: Seq<u64>, b: Seq<u64>) -> int {
    if a.len() > b.len() {
        a.len() as int
    } else {
        b.len() as int
    }
}

/// Lexicographic "strictly before" from component `i` on, zero-padded.
pub open spec fn older_from(a: Seq<u64>, b: Seq<u64>, i: int) -> bool
    decreases max_len(a, b) - i,
{
    if i >= max_len(a, b) || i < 0 {
        false
    } else if comp_at(a, i) < comp_at(b, i) {
        true
    } else if comp_at(a, i) > comp_at(b, i) {
        false
    } else {
        older_from(a, b, i + 1)
    }
}

/// `a` is strictly older than `b`.
pub open spec fn older(a: Seq<u64>, b: Seq<u64>) -> bool {
    older_from(a, b, 0)
}

/// `a` and `b` denote the same version once zero-padded.
pub open spec fn same_version(a: Seq<u64>, b: Seq<u64>) -> bool {
    forall|i: int| 0 <= i ==> #[trigger] comp_at(a, i) == comp_at(b, i)
}

/// A tolerant dotted-numeric version.
#[derive(Debug, Clone, PartialEq, Eq)]
pub struct Version(Vec<u64>);

impl View for Version {
    type V = Seq<u64>;

    closed spec fn view(&self) -> Seq<u64> {
        self.0@
    }
}

impl Version {
    /// Drop build metadata after `+`, surrounding whitespace and a leading
    /// `v`, then take the leading digits of each dotted component (so `7827`
    /// from `7827.201` survives and a trailing `-rc1` is ignored).
    pub fn parse(s: &str) -> (r: Version)
        ensures
            r@ == version_components(s@),
    {
        let cs = chars_of(s);
        let n = cs.len();
        let mut k: usize = 0;
        assert(cs@.take(0) + cs@.skip(0) =~= cs@);
        while k < n && cs[k] != '+'
            invariant
                k <= n == cs.len(),
                before_plus(cs@) == cs@.take(k as int) + before_plus(cs@.skip(k as int)),
            decreases n - k,
        {
            assert(cs@.skip(k as int).drop_first() =~= cs@.skip(k + 1));
            assert(cs@.take(k as int) + seq![cs@[k as int]] =~= cs@.take(k + 1));
            assert(cs@.take(k as int) + (seq![cs@[k as int]] + before_plus(cs@.skip(k + 1)))
                =~= cs@.take(k + 1) + before_plus(cs@.skip(k + 1)));
            k = k + 1;
        }
        assert(before_plus(cs@) =~= cs@.take(k as int));
        let head = subvec(&cs, 0, k);
        assert(head@ =~= before_plus(s@));
        let (lo0, hi) = trim_bounds(&head);
        let lo = if lo0 < hi && head[lo0] == 'v' {
            lo0 + 1
        } else {
            lo0
        };
        proof {
            let t = head@.subrange(lo0 as int, hi as int);
            if lo0 < hi && head@[lo0 as int] == 'v' {
                assert(t.drop_first() =~= head@.subrange(lo as int, hi as int));
            }
            assert(strip_v(t) =~= head@.subrange(lo as int, hi as int));
        }
        let body = subvec(&head, lo, hi);
        let parts = split_components(&body);
        Version(parts)
    }

    /// Lexicographic comparison, zero-padded: the position of the first
    /// differing component decides.
    fn older_than_from(&self, other: &Version, i: usize) -> (r: bool)
        requires
            i <= max_len(self@, other@),
        ensures
            r == older_from(self@, other@, i as int),
        decreases max_len(self@, other@) - i,
    {
        let n = if self.0.len() > other.0.len() {
            self.0.len()
        } else {
            other.0.len()
        };
        if i >= n {
            return false;
        }
        let a = if i < self.0.len() {
            self.0[i]
        } else {
            0
        };
        let b = if i < other.0.len() {
            other.0[i]
        } else {
            0
        };
        if a < b {
            true
        } else if a > b {
            false
        } else {
            self.older_than_from(other, i + 1)
        }
    }

    /// True when `self` is strictly older than `other` (an update is
    /// available).
    pub fn is_older_than(&self, other: &Version) -> (r: bool)
        ensures
            r == older(self@, other@),
    {
        self.older_than_from(other, 0)
    }
}

/// The component values of the dot-separated pieces of `body`.
fn split_components(body: &Vec<char>) -> (r: Vec<u64>)
    ensures
        r@ == split_dots(body@).map_values(|p: Seq<char>| component_value(p)),
{
    let n = body.len();
    let mut out: Vec<u64> = Vec::new();
    let ghost mut done: Seq<Seq<char>> = Seq::empty();
    let mut start: usize = 0;
    let mut i: usize = 0;
    assert(body@.subrange(0, 0) =~= Seq::<char>::empty());
    assert(split_dots(Seq::<char>::empty()) =~= done.push(body@.subrange(0, 0)));
    while i < n
        invariant
            start <= i <= n == body.len(),
            split_dots(body@.subrange(0, i as int)) == done.push(
                body@.subrange(start as int, i as int),
            ),
            out@ == done.map_values(|p: Seq<char>| component_value(p)),
        decreases n - i,
    {
        let ghost pre = body@.subrange(0, i as int);
        assert(body@.subrange(0, i + 1).drop_last() =~= pre);
        assert(body@.subrange(0, i + 1).last() == body@[i as int]);
        if body[i] == '.' {
            let v = component_at(body, start, i);
            out.push(v);
            proof {
                let seg = body@.subrange(start as int, i as int);
                assert(split_dots(body@.subrange(0, i + 1)) == done.push(seg).push(
                    Seq::empty(),
                ));
                done = done.push(seg);
                assert(body@.subrange(i + 1, i + 1) =~= Seq::<char>::empty());
                assert(out@ =~= done.map_values(|p: Seq<char>| component_value(p)));
            }
            start = i + 1;
        } else {
            proof {
                let seg = body@.subrange(start as int, i as int);
                assert(seg.push(body@[i as int]) =~= body@.subrange(start as int, i + 1));
                assert(done.push(seg).update(done.len() as int, seg.push(body@[i as int]))
                    =~= done.push(body@.subrange(start as int, i + 1)));
            }
        }
        i = i + 1;
    }
    let v = component_at(body, start, n);
    out.push(v);
    proof {
        assert(body@.subrange(0, n as int) =~= body@);
        let segs = done.push(body@.subrange(start as int, n as int));
        assert(out@ =~= segs.map_values(|p: Seq<char>| component_value(p)));
    }
    out
}

/// Every character before `j` is a digit and the one at `j` (if any) is not:
/// the digit run is `j` long.
proof fn lemma_digit_run(p: Seq<char>, j: int)
    requires
        0 <= j <= p.len(),
        forall|k: int| 0 <= k < j ==> is_digit(#[trigger] p[k]),
        j == p.len() || !is_digit(p[j]),
    ensures
        digit_run(p) == j,
    decreases j,
{
    if j > 0 {
        lemma_digit_run(p.drop_first(), j - 1);
    }
}

/// The component value of `cs[lo..hi]`.
fn component_at(cs: &Vec<char>, lo: usize, hi: usize) -> (r: u64)
    requires
        lo <= hi <= cs.len(),
    ensures
        r == component_value(cs@.subrange(lo as int, hi as int)),
{
    let ghost p = cs@.subrange(lo as int, hi as int);
    let mut j: usize = 0;
    let mut val: u64 = 0;
    let mut overflow = false;
    assert(p.take(0) =~= Seq::<char>::empty());
    while lo + j < hi && '0' <= cs[lo + j] && cs[lo + j] <= '9'
        invariant
            lo <= hi <= cs.len(),
            p == cs@.subrange(lo as int, hi as int),
            j <= hi - lo,
            forall|k: int| 0 <= k < j ==> is_digit(#[trigger] p[k]),
            !overflow ==> val == digits_value(p.take(j as int)),
            overflow ==> digits_value(p.take(j as int)) > u64::MAX,
        decreases hi - lo - j,
    {
        let d = (cs[lo + j] as u32 - 48) as u64;
        let ghost before = digits_value(p.take(j as int));
        assert(p.take(j + 1).drop_last() =~= p.take(j as int));
        assert(p.take(j + 1).last() == cs@[lo + j]);
        assert(digits_value(p.take(j + 1)) == before * 10 + d);
        if !overflow {
            if val > (u64::MAX - d) / 10 {
                overflow = true;
                assert(before * 10 + d > u64::MAX) by (nonlinear_arith)
                    requires
                        before == val,
                        val > (u64::MAX - d) / 10,
                        d <= 9,
                ;
            } else {
                assert(val * 10 + d <= u64::MAX) by (nonlinear_arith)
                    requires
                        val <= (u64::MAX - d) / 10,
                        d <= 9,
                ;
                val = val * 10 + d;
            }
        } else {
            assert(before * 10 + d > u64::MAX) by (nonlinear_arith)
                requires
                    before > u64::MAX,
                    d <= 9,
            ;
        }
        j = j + 1;
    }
    proof {
        lemma_digit_run(p, j as int);
    }
    if j > 0 && !overflow {
        val
    } else {
        0
    }
}

/// Zero-padding does not change how two versions compare.
proof fn lemma_older_by_components(a: Seq<u64>, a2: Seq<u64>, b: Seq<u64>, i: int)
    requires
        0 <= i,
        forall|j: int| 0 <= j ==> #[trigger] comp_at(a, j) == comp_at(a2, j),
    ensures
        older_from(a, b, i) == older_from(a2, b, i),
    decreases (if max_len(a, b) > max_len(a2, b) {
        max_len(a, b)
    } else {
        max_len(a2, b)
    }) - i,
{
    if i < max_len(a, b) || i < max_len(a2, b) {
        assert(comp_at(a, i) == comp_at(a2, i));
        if comp_at(a, i) == comp_at(b, i) {
            lemma_older_by_components(a, a2, b, i + 1);
        }
    }
    if i >= max_len(a, b) {
        lemma_not_older_past_end(a2, b, i, a);
    }
    if i >= max_len(a2, b) {
        lemma_not_older_past_end(a, b, i, a2);
    }
}

/// Past the end of both `x` and `b`, a `y` with the components of `x` is not
/// older than `b` from `i` on.
proof fn lemma_not_older_past_end(y: Seq<u64>, b: Seq<u64>, i: int, x: Seq<u64>)
    requires
        0 <= i,
        i >= max_len(x, b),
        forall|j: int| 0 <= j ==> #[trigger] comp_at(x, j) == comp_at(y, j),
    ensures
        !older_from(y, b, i),
    decreases max_len(y, b) - i,
{
    if i < max_len(y, b) {
        assert(comp_at(x, i) == comp_at(y, i));
        lemma_not_older_past_end(y, b, i + 1, x);
    }
}

/// The other argument's padding does not matter either.
proof fn lemma_older_by_components_right(a: Seq<u64>, b: Seq<u64>, b2: Seq<u64>, i: int)
    requires
        0 <= i,
        forall|j: int| 0 <= j ==> #[trigger] comp_at(b, j) == comp_at(b2, j),
    ensures
        older_from(a, b, i) == older_from(a, b2, i),
    decreases (if max_len(a, b) > max_len(a, b2) {
        max_len(a, b)
    } else {
        max_len(a, b2)
    }) - i,
{
    if i < max_len(a, b) || i < max_len(a, b2) {
        assert(comp_at(b, i) == comp_at(b2, i));
        if comp_at(a, i) == comp_at(b, i) {
            lemma_older_by_components_right(a, b, b2, i + 1);
        }
    }
    if i >= max_len(a, b) {
        lemma_not_older_past_end_right(a, b2, i, b);
    }
    if i >= max_len(a, b2) {
        lemma_not_older_past_end_right(a, b, i, b2);
    }
}

proof fn lemma_not_older_past_end_right(a: Seq<u64>, y: Seq<u64>, i: int, x: Seq<u64>)
    requires
        0 <= i,
        i >= max_len(a, x),
        forall|j: int| 0 <= j ==> #[trigger] comp_at(x, j) == comp_at(y, j),
    ensures
        !older_from(a, y, i),
    decreases max_len(a, y) - i,
{
    if i < max_len(a, y) {
        assert(comp_at(x, i) == comp_at(y, i));
        lemma_not_older_past_end_right(a, y, i + 1, x);
    }
}

proof fn lemma_older_transitive_from(a: Seq<u64>, b: Seq<u64>, c: Seq<u64>, i: int)
    requires
        0 <= i,
        older_from(a, b, i),
        older_from(b, c, i),
    ensures
        older_from(a, c, i),
    decreases max_len(a, b) + max_len(b, c) - 2 * i,
{
    if comp_at(a, i) == comp_at(b, i) && comp_at(b, i) == comp_at(c, i) {
        lemma_older_transitive_from(a, b, c, i + 1);
    }
}

proof fn lemma_older_irreflexive_from(a: Seq<u64>, i: int)
    requires
        0 <= i,
    ensures
        !older_from(a, a, i),
    decreases max_len(a, a) - i,
{
    if i < max_len(a, a) {
        lemma_older_irreflexive_from(a, i + 1);
    }
}

proof fn lemma_older_trichotomy_from(a: Seq<u64>, b: Seq<u64>, i: int)
    requires
        0 <= i,
    ensures
        older_from(a, b, i) || older_from(b, a, i) || (forall|j: int|
            i <= j ==> #[trigger] comp_at(a, j) == comp_at(b, j)),
        !(older_from(a, b, i) && older_from(b, a, i)),
    decreases max_len(a, b) - i,
{
    if i < max_len(a, b) {
        lemma_older_trichotomy_from(a, b, i + 1);
        assert(max_len(a, b) == max_len(b, a));
        if comp_at(a, i) == comp_at(b, i) && !older_from(a, b, i + 1) && !older_from(
            b,
            a,
            i + 1,
        ) {
            assert forall|j: int| i <= j implies #[trigger] comp_at(a, j) == comp_at(b, j) by {
                if j > i {
                    assert(i + 1 <= j);
                }
            }
        }
    } else {
        assert forall|j: int| i <= j implies #[trigger] comp_at(a, j) == comp_at(b, j) by {}
        assert(max_len(a, b) == max_len(b, a));
    }
}

proof fn lemma_older_past_equal_prefix(a: Seq<u64>, b: Seq<u64>, j: int, i: int)
    requires
        0 <= j <= i,
        forall|k: int| 0 <= k < i ==> #[trigger] comp_at(a, k) == comp_at(b, k),
    ensures
        older_from(a, b, j) == older_from(a, b, i),
    decreases i - j,
{
    if j < i {
        lemma_older_past_equal_prefix(a, b, j + 1, i);
        if j >= max_len(a, b) {
            lemma_not_older_at_end(a, b, i);
        }
    }
}

proof fn lemma_not_older_at_end(a: Seq<u64>, b: Seq<u64>, i: int)
    requires
        i >= max_len(a, b),
    ensures
        !older_from(a, b, i),
{
}

/// Versions compare by their first differing component, as numbers: when
/// every component before `i` is equal (zero-padded), `a` is older than `b`
/// if its component `i` is the smaller number, and not older if it is the
/// larger. So `99.0.0` is older than `100.0.0`.
pub proof fn law_first_difference_decides(a: Seq<u64>, b: Seq<u64>, i: int)
    requires
        0 <= i,
        forall|k: int| 0 <= k < i ==> #[trigger] comp_at(a, k) == comp_at(b, k),
    ensures
        (if i < a.len() { a[i] as int } else { 0 }) < (if i < b.len() { b[i] as int } else { 0 })
            ==> older(a, b),
        (if i < a.len() { a[i] as int } else { 0 }) > (if i < b.len() { b[i] as int } else { 0 })
            ==> !older(a, b),
{
    lemma_older_past_equal_prefix(a, b, 0, i);
}

proof fn lemma_decimal_digits(n: nat)
    ensures
        decimal(n).len() > 0,
        forall|k: int| 0 <= k < decimal(n).len() ==> is_digit(#[trigger] decimal(n)[k]),
        digits_value(decimal(n)) == n,
    decreases n,
{
    assert(n % 10 < 10);
    assert(digit_char(n % 10) as u32 == n % 10 + 48);
    if n >= 10 {
        lemma_decimal_digits(n / 10);
        let d = decimal(n / 10);
        assert(decimal(n) == d.push(digit_char(n % 10)));
        assert(decimal(n).drop_last() =~= d);
        assert forall|k: int| 0 <= k < decimal(n).len() implies is_digit(#[trigger] decimal(n)[k]) by {
            if k < d.len() {
                assert(decimal(n)[k] == d[k]);
            }
        }
        assert(decimal(n).last() == digit_char(n % 10));
        assert(((decimal(n).last() as u32) - 48) as nat == n % 10);
        assert(digits_value(decimal(n)) == digits_value(d) * 10 + n % 10);
        assert(n == (n / 10) * 10 + n % 10) by (nonlinear_arith);
    } else {
        assert(decimal(n) == seq![digit_char(n)]);
        assert(decimal(n).drop_last() =~= Seq::<char>::empty());
        assert(decimal(n).last() == digit_char(n));
        assert(digits_value(decimal(n).drop_last()) == 0);
        assert(digits_value(decimal(n)) == digits_value(decimal(n).drop_last()) * 10 + ((decimal(n).last() as u32) - 48) as nat);
    }
}

/// A component written in decimal reads back as its number: the digits are
/// read in base ten, most significant first.
pub proof fn law_component_reads_decimal(n: u64)
    ensures
        component_value(decimal(n as nat)) == n,
        component_value(decimal(n as nat) + "."@) == n,
{
    let d = decimal(n as nat);
    lemma_decimal_digits(n as nat);
    lemma_digit_run(d, d.len() as int);
    assert(d.take(d.len() as int) =~= d);
    reveal_strlit(".");
    let e = d + "."@;
    assert(e[d.len() as int] == '.');
    assert forall|k: int| 0 <= k < d.len() implies is_digit(#[trigger] e[k]) by {
        assert(e[k] == d[k]);
    }
    lemma_digit_run(e, d.len() as int);
    assert(e.take(d.len() as int) =~= d);
}

/// "Older than" is a strict order on versions: never reflexive, transitive,
/// and of two versions one is older than the other exactly when they differ
/// once zero-padded (uneven component counts compare as if zero-padded).
pub proof fn law_version_order(a: Seq<u64>, b: Seq<u64>, c: Seq<u64>)
    ensures
        !older(a, a),
        older(a, b) && older(b, c) ==> older(a, c),
        !(older(a, b) && older(b, a)),
        !older(a, b) && !older(b, a) <==> same_version(a, b),
        older(a.push(0), b) == older(a, b),
        older(a, b.push(0)) == older(a, b),
{
    lemma_older_irreflexive_from(a, 0);
    if older(a, b) && older(b, c) {
        lemma_older_transitive_from(a, b, c, 0);
    }
    lemma_older_trichotomy_from(a, b, 0);
    if same_version(a, b) {
        lemma_older_by_components(a, b, b, 0);
        lemma_older_irreflexive_from(b, 0);
        lemma_older_by_components_right(b, a, b, 0);
    }
    if !older(a, b) && !older(b, a) {
        assert forall|i: int| 0 <= i implies #[trigger] comp_at(a, i) == comp_at(b, i) by {}
    }
    assert forall|j: int| 0 <= j implies #[trigger] comp_at(a, j) == comp_at(a.push(0), j) by {
        if j == a.len() {
        }
    }
    lemma_older_by_components(a, a.push(0), b, 0);
    assert forall|j: int| 0 <= j implies #[trigger] comp_at(b, j) == comp_at(b.push(0), j) by {}
    lemma_older_by_components_right(a, b, b.push(0), 0);
}

proof fn lemma_before_plus_no_plus(s: Seq<char>, t: Seq<char>)
    requires
        !s.contains('+'),
    ensures
        before_plus(s + t) == s + before_plus(t),
    decreases s.len(),
{
    if s.len() > 0 {
        assert((s + t).drop_first() =~= s.drop_first() + t);
        assert(!s.drop_first().contains('+')) by {
            if s.drop_first().contains('+') {
                let k = choose|k: int| 0 <= k < s.drop_first().len() && s.drop_first()[k] == '+';
                assert(s[k + 1] == '+');
            }
        }
        lemma_before_plus_no_plus(s.drop_first(), t);
        assert(s[0] != '+');
        assert(seq![s[0]] + (s.drop_first() + before_plus(t)) =~= s + before_plus(t));
    } else {
        assert(s + t =~= t);
        assert(s + before_plus(t) =~= before_plus(t));
    }
}

proof fn lemma_trim_end_cons(c: char, s: Seq<char>)
    requires
        !is_white(c),
    ensures
        crate::text::trim_end(seq![c] + s) == seq![c] + crate::text::trim_end(s),
    decreases s.len(),
{
    if s.len() > 0 {
        assert((seq![c] + s).last() == s.last());
        if is_white(s.last()) {
            assert((seq![c] + s).drop_last() =~= seq![c] + s.drop_last());
            lemma_trim_end_cons(c, s.drop_last());
        }
    } else {
        assert(seq![c] + s =~= seq![c]);
        assert(!is_white(seq![c].last()));
    }
}

/// Build metadata after the first `+` never changes a version: only the head
/// matters (so CEF's `150.0.1+chromium-...` reads as `150.0.1`).
pub proof fn law_build_metadata_ignored(s: Seq<char>, t: Seq<char>)
    requires
        !s.contains('+'),
    ensures
        version_components(s + seq!['+'] + t) == version_components(s),
{
    lemma_before_plus_no_plus(s, seq!['+'] + t);
    lemma_before_plus_no_plus(s, Seq::empty());
    assert(s + seq!['+'] + t =~= s + (seq!['+'] + t));
    assert(before_plus(seq!['+'] + t) =~= Seq::<char>::empty());
    assert(s + Seq::<char>::empty() =~= s);
    assert(before_plus(Seq::<char>::empty()) =~= Seq::<char>::empty());
}

/// A leading `v` is tolerated: `v2.3.4` reads as `2.3.4`.
pub proof fn law_leading_v_ignored(s: Seq<char>)
    requires
        !s.contains('+'),
        s.len() > 0 ==> !is_white(s[0]) && s[0] != 'v',
    ensures
        version_components(seq!['v'] + s) == version_components(s),
{
    lemma_before_plus_no_plus(seq!['v'] + s, Seq::empty());
    lemma_before_plus_no_plus(s, Seq::empty());
    assert(before_plus(Seq::<char>::empty()) =~= Seq::<char>::empty());
    assert((seq!['v'] + s) + Seq::<char>::empty() =~= seq!['v'] + s);
    assert(s + Seq::<char>::empty() =~= s);
    assert(!(seq!['v'] + s).contains('+')) by {
        if (seq!['v'] + s).contains('+') {
            let k = choose|k: int| 0 <= k < (seq!['v'] + s).len() && (seq!['v'] + s)[k] == '+';
            assert(s[k - 1] == '+');
        }
    }
    assert(crate::text::trim_start(seq!['v'] + s) == seq!['v'] + s);
    lemma_trim_end_cons('v', s);
    assert(trim(seq!['v'] + s) == seq!['v'] + crate::text::trim_end(s));
    assert((seq!['v'] + crate::text::trim_end(s)).drop_first() =~= crate::text::trim_end(s));
    assert(crate::text::trim_start(s) == s);
    if s.len() > 0 {
        lemma_trim_end_keeps_first(s);
    }
    assert(strip_v(trim(s)) == crate::text::trim_end(s));
}

proof fn lemma_trim_end_keeps_first(s: Seq<char>)
    requires
        s.len() > 0,
        !is_white(s[0]),
    ensures
        crate::text::trim_end(s).len() > 0,
        crate::text::trim_end(s)[0] == s[0],
    decreases s.len(),
{
    if is_white(s.last()) {
        assert(s.len() > 1);
        assert(s.drop_last()[0] == s[0]);
        lemma_trim_end_keeps_first(s.drop_last());
    }
}

} // verus!
