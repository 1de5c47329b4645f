use vstd::prelude::*;
use vstd::string::*;

verus! {

pub open spec fn is_digit(c: char) -> bool {
    '0' <= c && c <= '9'
}

pub open spec fn digit_value(c: char) -> nat {
    (c as nat - '0' as nat) as nat
}

pub open spec fn all_digits(s: Seq<char>) -> bool {
    forall|i: int| 0 <= i < s.len() ==> #[trigger] is_digit(s[i])
}

/// The number that the decimal digits `s` write (zero for no digits).
pub open spec fn digits_value(s: Seq<char>) -> nat
    decreases s.len(),
{
    if s.len() == 0 {
        0
    } else {
        digits_value(s.drop_last()) * 10 + digit_value(s.last())
    }
}

/// `s` without one leading `+`, if it has one.
pub open spec fn without_plus(s: Seq<char>) -> Seq<char> {
    if s.len() > 0 && s[0] == '+' {
        s.drop_first()
    } else {
        s
    }
}

/// What parsing `s` as an unsigned integer of at most `max` gives: an optional `+`,
/// then one or more decimal digits whose value does not exceed `max`.
pub open spec fn unsigned_value(s: Seq<char>, max: nat) -> Option<nat> {
    let d = without_plus(s);
    if d.len() > 0 && all_digits(d) && digits_value(d) <= max {
        Some(digits_value(d))
    } else {
        None
    }
}

pub open spec fn pow10(n: nat) -> nat
    decreases n,
{
    if n == 0 {
        1
    } else {
        10 * pow10((n - 1) as nat)
    }
}

/// The nanoseconds that the fractional digits `f` of a number of seconds write,
/// digits past the ninth dropped.
pub open spec fn frac_nanos(f: Seq<char>) -> nat {
    if f.len() >= 9 {
        digits_value(f.take(9))
    } else {
        digits_value(f) * pow10((9 - f.len()) as nat)
    }
}

/// The index of the first `c` in `s`.
pub open spec fn first_index(s: Seq<char>, c: char) -> Option<int>
    decreases s.len(),
{
    if s.len() == 0 {
        None
    } else if s[0] == c {
        Some(0)
    } else {
        match first_index(s.drop_first(), c) {
            Some(i) => Some(i + 1),
            None => None,
        }
    }
}

/// What parsing `s` as a non-negative number of seconds gives: an optional `+`,
/// whole seconds, then optionally a point and a fraction, with at least one digit;
/// the result is whole seconds and nanoseconds.
pub open spec fn seconds_value(s: Seq<char>) -> Option<(u64, u32)> {
    let d = without_plus(s);
    let (w, f) = match first_index(d, '.') {
        Some(i) => (d.take(i), d.skip(i + 1)),
        None => (d, Seq::empty()),
    };
    let has_point = first_index(d, '.') is Some;
    if (w.len() > 0 || f.len() > 0) && all_digits(w) && all_digits(f) && digits_value(w)
        <= u64::MAX && (has_point || f.len() == 0) {
        Some((digits_value(w) as u64, frac_nanos(f) as u32))
    } else {
        None
    }
}

pub proof fn lemma_first_index(s: Seq<char>, c: char, i: int)
    requires
        0 <= i <= s.len(),
        forall|j: int| 0 <= j < i ==> s[j] != c,
    ensures
        i < s.len() && s[i] == c ==> first_index(s, c) == Some(i),
        i == s.len() ==> first_index(s, c) is None,
    decreases i,
{
    if i > 0 {
        lemma_first_index(s.drop_first(), c, i - 1);
    }
}

proof fn lemma_digits_prefix(s: Seq<char>, k: int)
    requires
        0 <= k <= s.len(),
    ensures
        digits_value(s.take(k)) <= digits_value(s),
    decreases s.len(),
{
    if k < s.len() {
        assert(s.drop_last().take(k) =~= s.take(k));
        lemma_digits_prefix(s.drop_last(), k);
    } else {
        assert(s.take(k) =~= s);
    }
}

proof fn lemma_digit_bound(c: char)
    requires
        is_digit(c),
    ensures
        digit_value(c) <= 9,
{
}

proof fn lemma_pow10_mono(n: nat, m: nat)
    requires
        n <= m,
    ensures
        1 <= pow10(n) <= pow10(m),
    decreases m,
{
    if m > n {
        lemma_pow10_mono(n, (m - 1) as nat);
    } else if n > 0 {
        lemma_pow10_mono((n - 1) as nat, (n - 1) as nat);
    }
}

proof fn lemma_pow10_bound(n: nat)
    requires
        n <= 9,
    ensures
        1 <= pow10(n) <= 1_000_000_000,
{
    lemma_pow10_mono(n, 9);
    lemma_pow10_nine();
}

proof fn lemma_digits_bound(s: Seq<char>)
    requires
        all_digits(s),
    ensures
        digits_value(s) < pow10(s.len()),
    decreases s.len(),
{
    if s.len() > 0 {
        let init = s.drop_last();
        assert(all_digits(init)) by {
            assert forall|i: int| 0 <= i < init.len() implies is_digit(init[i]) by {
                assert(init[i] == s[i]);
            }
        }
        lemma_digits_bound(init);
        assert(is_digit(s[s.len() - 1]));
        lemma_digit_bound(s.last());
        assert(digits_value(s) == digits_value(init) * 10 + digit_value(s.last()));
        assert(pow10(s.len()) == 10 * pow10(init.len()));
        assert(digits_value(init) * 10 + digit_value(s.last()) < 10 * pow10(init.len()))
            by (nonlinear_arith)
            requires
                digits_value(init) < pow10(init.len()),
                digit_value(s.last()) <= 9,
        ;
    }
}

fn char_digit(c: char) -> (r: Option<u64>)
    ensures
        r is Some <==> is_digit(c),
        r is Some ==> r.unwrap() as nat == digit_value(c) && r.unwrap() <= 9,
{
    if '0' <= c && c <= '9' {
        Some((c as u32 - '0' as u32) as u64)
    } else {
        None
    }
}

/// The digits of `s` from `start` on, as a number of at most `max`.
fn digits_from(s: &str, start: usize, end: usize, max: u64) -> (r: Option<u64>)
    requires
        start <= end <= s@.len(),
    ensures
        r is Some <==> (all_digits(s@.subrange(start as int, end as int)) && digits_value(
            s@.subrange(start as int, end as int),
        ) <= max),
        r is Some ==> r.unwrap() as nat == digits_value(s@.subrange(start as int, end as int)),
{
    let mut acc: u64 = 0;
    let mut i: usize = start;
    while i < end
        invariant
            start <= i <= end <= s@.len(),
            all_digits(s@.subrange(start as int, i as int)),
            acc as nat == digits_value(s@.subrange(start as int, i as int)),
            acc <= max,
        decreases end - i,
    {
        let ghost pre = s@.subrange(start as int, i as int);
        let ghost next = s@.subrange(start as int, i + 1);
        proof {
            assert(next.drop_last() =~= pre);
            assert(next.last() == s@[i as int]);
        }
        let c = s.get_char(i);
        match char_digit(c) {
            None => {
                proof {
                    let whole = s@.subrange(start as int, end as int);
                    assert(whole[i - start] == c);
                }
                return None;
            },
            Some(d) => {
                if d > max || acc > (max - d) / 10 {
                    proof {
                        if d <= max {
                            assert(acc * 10 + d > max) by (nonlinear_arith)
                                requires
                                    acc > (max - d) / 10,
                                    d <= max,
                            {
                            }
                        }
                        let whole = s@.subrange(start as int, end as int);
                        if all_digits(whole) {
                            assert(whole.take(i + 1 - start) =~= next);
                            lemma_digits_prefix(whole, i + 1 - start);
                        }
                    }
                    return None;
                }
                proof {
                    assert(acc * 10 + d <= max) by (nonlinear_arith)
                        requires
                            acc <= (max - d) / 10,
                            d <= 9,
                    {
                    }
                }
                acc = acc * 10 + d;
                proof {
                    assert forall|j: int| 0 <= j < next.len() implies is_digit(next[j]) by {
                        if j < pre.len() {
                            assert(next[j] == pre[j]);
                        }
                    }
                }
                i += 1;
            },
        }
    }
    Some(acc)
}

fn digits_only(s: &str, start: usize, end: usize) -> (r: bool)
    requires
        start <= end <= s@.len(),
    ensures
        r == all_digits(s@.subrange(start as int, end as int)),
{
    let mut i: usize = start;
    while i < end
        invariant
            start <= i <= end <= s@.len(),
            all_digits(s@.subrange(start as int, i as int)),
        decreases end - i,
    {
        let c = s.get_char(i);
        if !('0' <= c && c <= '9') {
            proof {
                assert(s@.subrange(start as int, end as int)[i - start] == c);
                assert(!is_digit(s@.subrange(start as int, end as int)[i - start]));
            }
            return false;
        }
        proof {
            let next = s@.subrange(start as int, i + 1);
            assert forall|j: int| 0 <= j < next.len() implies is_digit(next[j]) by {
                if j < i - start {
                    assert(next[j] == s@.subrange(start as int, i as int)[j]);
                }
            }
        }
        i += 1;
    }
    true
}

proof fn lemma_pow10_nine()
    ensures
        pow10(9) == 1_000_000_000,
{
    reveal_with_fuel(pow10, 10);
}

/// Parses `s` as an unsigned integer of at most `max`.
pub fn parse_unsigned(s: &str, max: u64) -> (r: Option<u64>)
    ensures
        match unsigned_value(s@, max as nat) {
            Some(v) => r == Some(v as u64),
            None => r is None,
        },
{
    let n = s.unicode_len();
    let start: usize = if n > 0 && s.get_char(0) == '+' {
        1
    } else {
        0
    };
    proof {
        let d = without_plus(s@);
        assert(d =~= s@.subrange(start as int, n as int));
    }
    if start == n {
        return None;
    }
    digits_from(s, start, n, max)
}

/// Parses `s` as a non-negative number of seconds, as whole seconds and nanoseconds.
pub fn parse_seconds(s: &str) -> (r: Option<(u64, u32)>)
    ensures
        r == seconds_value(s@),
        r is Some ==> r.unwrap().1 < 1_000_000_000,
{
    let n = s.unicode_len();
    let start: usize = if n > 0 && s.get_char(0) == '+' {
        1
    } else {
        0
    };
    let ghost d = without_plus(s@);
    proof {
        assert(d =~= s@.subrange(start as int, n as int));
    }
    let mut point: usize = start;
    while point < n && s.get_char(point) != '.'
        invariant
            start <= point <= n,
            n == s@.len(),
            d == s@.subrange(start as int, n as int),
            forall|j: int| 0 <= j < point - start ==> d[j] != '.',
        decreases n - point,
    {
        proof {
            assert(d[point - start] == s@[point as int]);
        }
        point += 1;
    }
    let has_point = point < n;
    proof {
        if has_point {
            assert(d[point - start] == s@[point as int]);
        }
        lemma_first_index(d, '.', point - start);
    }
    let frac_start: usize = if has_point {
        point + 1
    } else {
        n
    };
    proof {
        assert(d.take(point - start) =~= s@.subrange(start as int, point as int));
        if has_point {
            assert(d.skip(point - start + 1) =~= s@.subrange(frac_start as int, n as int));
        } else {
            assert(d =~= s@.subrange(start as int, point as int));
            assert(s@.subrange(frac_start as int, n as int) =~= Seq::<char>::empty());
        }
    }
    if point == start && frac_start == n {
        return None;
    }
    let whole = match digits_from(s, start, point, u64::MAX) {
        Some(w) => w,
        None => {
            return None;
        },
    };
    match fraction_nanos(s, frac_start, n) {
        Some(nanos) => Some((whole, nanos)),
        None => None,
    }
}

/// The nanoseconds that the fractional digits between `start` and `end` write.
fn fraction_nanos(s: &str, start: usize, end: usize) -> (r: Option<u32>)
    requires
        start <= end <= s@.len(),
    ensures
        r is Some ==> r.unwrap() < 1_000_000_000,
        r is Some <==> all_digits(s@.subrange(start as int, end as int)),
        r is Some ==> r.unwrap() as nat == frac_nanos(s@.subrange(start as int, end as int)),
{
    if !digits_only(s, start, end) {
        return None;
    }
    let ghost f = s@.subrange(start as int, end as int);
    let len = end - start;
    let take_len: usize = if len > 9 {
        9
    } else {
        len
    };
    let ghost t = s@.subrange(start as int, start + take_len);
    proof {
        assert(t =~= f.take(take_len as int));
        assert(all_digits(t)) by {
            assert forall|i: int| 0 <= i < t.len() implies is_digit(t[i]) by {
                assert(t[i] == f[i]);
            }
        }
        lemma_digits_bound(t);
        lemma_pow10_bound(take_len as nat);
        if len < 9 {
            assert(f.take(take_len as int) =~= f);
        }
    }
    let taken = match digits_from(s, start, start + take_len, 999_999_999) {
        Some(v) => v,
        None => {
            return None;
        },
    };
    let nanos = scale_nanos(taken, take_len);
    proof {
        if len >= 9 {
            assert(pow10(0) == 1);
            assert((9 - take_len) as nat == 0);
            assert(taken * pow10(0) == taken) by (nonlinear_arith)
                requires
                    pow10(0) == 1,
            {
            }
            assert(t =~= f.take(9));
            assert(nanos as nat == digits_value(f.take(9)));
        } else {
            assert(t =~= f);
        }
    }
    Some(nanos)
}

/// `v`, written with `digits` digits after the point, as nanoseconds.
fn scale_nanos(v: u64, digits: usize) -> (r: u32)
    requires
        digits <= 9,
        v < pow10(digits as nat),
    ensures
        r < 1_000_000_000,
        r as nat == v * pow10((9 - digits) as nat),
{
    let mut nanos: u64 = v;
    let mut k: usize = digits;
    proof {
        assert(pow10(0) == 1);
        assert(nanos as nat == nanos as nat * pow10(0));
        lemma_pow10_bound(digits as nat);
    }
    while k < 9
        invariant
            digits <= k <= 9,
            v < pow10(digits as nat),
            nanos as nat == v * pow10((k - digits) as nat),
        decreases 9 - k,
    {
        proof {
            let e0 = (k - digits) as nat;
            let e1 = (k + 1 - digits) as nat;
            assert(pow10(e1) == 10 * pow10(e0));
            lemma_pow10_mul(digits as nat, e1);
            lemma_pow10_bound((k + 1) as nat);
            lemma_pow10_bound(e1);
            assert(v * pow10(e1) < 1_000_000_000) by (nonlinear_arith)
                requires
                    v < pow10(digits as nat),
                    pow10(digits as nat) * pow10(e1) <= 1_000_000_000,
                    pow10(e1) >= 1,
            {
            }
            assert(nanos * 10 == v * pow10(e1)) by (nonlinear_arith)
                requires
                    nanos == v * pow10(e0),
                    pow10(e1) == 10 * pow10(e0),
            {
            }
        }
        nanos = nanos * 10;
        k += 1;
    }
    proof {
        let e = (9 - digits) as nat;
        lemma_pow10_mul(digits as nat, e);
        lemma_pow10_nine();
        lemma_pow10_bound(e);
        assert(v * pow10(e) < 1_000_000_000) by (nonlinear_arith)
            requires
                v < pow10(digits as nat),
                pow10(digits as nat) * pow10(e) == 1_000_000_000,
                pow10(e) >= 1,
        {
        }
    }
    nanos as u32
}

proof fn lemma_pow10_mul(a: nat, b: nat)
    ensures
        pow10(a) * pow10(b) == pow10(a + b),
    decreases a,
{
    if a > 0 {
        let a1 = (a - 1) as nat;
        let c = (a1 + b) as nat;
        lemma_pow10_mul(a1, b);
        assert(pow10(a1) * pow10(b) == pow10(c));
        assert(pow10((c + 1) as nat) == 10 * pow10(c));
        assert((c + 1) as nat == a + b);
        assert(pow10(a) * pow10(b) == 10 * (pow10(a1) * pow10(b))) by (nonlinear_arith)
            requires
                pow10(a) == 10 * pow10(a1),
        {
        }
    } else {
        assert(pow10(0) == 1);
        assert(a + b == b);
    }
}

} // verus!
