use vstd::prelude::*;
use vstd::string::*;

verus! {

pub open spec fn is_digit(c: char) -> bool {
    '0' <= c && c <= '9'
}

pub open spec fn digit_val(c: char) -> int {
    c as int - 48
}

/// A non-empty run of decimal digits.
pub open spec fn is_digits(s: Seq<char>) -> bool {
    s.len() > 0 && forall|i: int| 0 <= i < s.len() ==> is_digit(s[i])
}

/// The value of a digit run, most significant first.
pub open spec fn digits_val(s: Seq<char>) -> int
    decreases s.len(),
{
    if s.len() == 0 {
        0
    } else {
        digits_val(s.drop_last()) * 10 + digit_val(s.last())
    }
}

pub open spec fn pow10(k: nat) -> int
    decreases k,
{
    if k == 0 {
        1
    } else {
        10 * pow10((k - 1) as nat)
    }
}

proof fn lemma_pow10_pos(k: nat)
    ensures
        pow10(k) >= 1,
    decreases k,
{
    if k > 0 {
        lemma_pow10_pos((k - 1) as nat);
    }
}

proof fn lemma_pow10_mono(a: nat, b: nat)
    requires
        a <= b,
    ensures
        pow10(a) <= pow10(b),
    decreases b,
{
    if a < b {
        lemma_pow10_mono(a, (b - 1) as nat);
        lemma_pow10_pos((b - 1) as nat);
    }
}

proof fn lemma_pow10_values()
    ensures
        pow10(1) == 10,
        pow10(2) == 100,
        pow10(32) == 100000000000000000000000000000000,
        pow10(33) == 1000000000000000000000000000000000,
        pow10(35) == 100000000000000000000000000000000000,
        pow10(36) == 1000000000000000000000000000000000000,
{
    assert(pow10(0) == 1);
    assert(pow10(1) == 10);
    assert(pow10(2) == 100);
    assert(pow10(3) == 1000);
    assert(pow10(4) == 10000);
    assert(pow10(5) == 100000);
    assert(pow10(6) == 1000000);
    assert(pow10(7) == 10000000);
    assert(pow10(8) == 100000000);
    assert(pow10(9) == 1000000000);
    assert(pow10(10) == 10000000000);
    assert(pow10(11) == 100000000000);
    assert(pow10(12) == 1000000000000);
    assert(pow10(13) == 10000000000000);
    assert(pow10(14) == 100000000000000);
    assert(pow10(15) == 1000000000000000);
    assert(pow10(16) == 10000000000000000);
    assert(pow10(17) == 100000000000000000);
    assert(pow10(18) == 1000000000000000000);
    assert(pow10(19) == 10000000000000000000);
    assert(pow10(20) == 100000000000000000000);
    assert(pow10(21) == 1000000000000000000000);
    assert(pow10(22) == 10000000000000000000000);
    assert(pow10(23) == 100000000000000000000000);
    assert(pow10(24) == 1000000000000000000000000);
    assert(pow10(25) == 10000000000000000000000000);
    assert(pow10(26) == 100000000000000000000000000);
    assert(pow10(27) == 1000000000000000000000000000);
    assert(pow10(28) == 10000000000000000000000000000);
    assert(pow10(29) == 100000000000000000000000000000);
    assert(pow10(30) == 1000000000000000000000000000000);
    assert(pow10(31) == 10000000000000000000000000000000);
    assert(pow10(32) == 100000000000000000000000000000000);
    assert(pow10(33) == 1000000000000000000000000000000000);
    assert(pow10(34) == 10000000000000000000000000000000000);
    assert(pow10(35) == 100000000000000000000000000000000000);
    assert(pow10(36) == 1000000000000000000000000000000000000);
}

proof fn lemma_digits_val_bound(s: Seq<char>)
    requires
        forall|i: int| 0 <= i < s.len() ==> is_digit(s[i]),
    ensures
        0 <= digits_val(s) < pow10(s.len()),
    decreases s.len(),
{
    if s.len() > 0 {
        lemma_digits_val_bound(s.drop_last());
    }
}

/// First index of the given character, or the length if it is absent.
pub open spec fn find_first(s: Seq<char>, c: char) -> int
    decreases s.len(),
{
    if s.len() == 0 {
        0
    } else if s[0] == c {
        0
    } else {
        1 + find_first(s.skip(1), c)
    }
}

pub(crate) proof fn lemma_find_first_at(s: Seq<char>, c: char, i: int)
    requires
        0 <= i <= s.len(),
        forall|j: int| 0 <= j < i ==> s[j] != c,
        i < s.len() ==> s[i] == c,
    ensures
        find_first(s, c) == i,
    decreases i,
{
    if s.len() > 0 && s[0] != c {
        lemma_find_first_at(s.skip(1), c, i - 1);
    }
}

pub open spec fn is_neg(s: Seq<char>) -> bool {
    s.len() > 0 && s[0] == '-'
}

pub open spec fn num_body(s: Seq<char>) -> Seq<char> {
    if is_neg(s) {
        s.skip(1)
    } else {
        s
    }
}

/// The digits of a decimal text with the dot removed.
pub open spec fn mantissa_digits(body: Seq<char>) -> Seq<char> {
    let d = find_first(body, '.');
    if d == body.len() {
        body
    } else {
        body.take(d) + body.skip(d + 1)
    }
}

/// How many digits stand after the dot.
pub open spec fn frac_len(body: Seq<char>) -> int {
    let d = find_first(body, '.');
    if d == body.len() {
        0
    } else {
        body.len() - d - 1
    }
}

/// Plain decimal shape: digits, optionally a dot with digits after it.
pub open spec fn num_shape(body: Seq<char>) -> bool {
    let d = find_first(body, '.');
    if d == body.len() {
        is_digits(body)
    } else {
        is_digits(body.take(d)) && is_digits(body.skip(d + 1))
    }
}

/// The cent magnitude of digits with `fl` of them after the dot: scale to
/// hundredths, rounding the remainder half away from zero.
pub open spec fn cents_mag(d: int, fl: int) -> int
    recommends
        d >= 0,
        fl >= 0,
{
    if fl <= 2 {
        d * pow10((2 - fl) as nat)
    } else {
        (d + 5 * pow10((fl - 3) as nat)) / pow10((fl - 2) as nat)
    }
}

pub open spec fn clamp_mag(m: int) -> int {
    if m > i64::MAX {
        i64::MAX as int
    } else {
        m
    }
}

/// The cent amount a decimal text stands for, if it has plain decimal shape
/// and at most 35 digits; magnitudes beyond `i64::MAX` cents saturate.
pub open spec fn cents_of_num_text(s: Seq<char>) -> Option<int> {
    let body = num_body(s);
    if num_shape(body) && mantissa_digits(body).len() <= 35 {
        let m = clamp_mag(cents_mag(digits_val(mantissa_digits(body)), frac_len(body)));
        Some(
            if is_neg(s) {
                -m
            } else {
                m
            },
        )
    } else {
        None
    }
}

/// An unsigned integer text of at most 35 digits, as a value.
pub open spec fn uint_of_text(s: Seq<char>) -> Option<int> {
    if is_digits(s) && s.len() <= 35 {
        Some(digits_val(s))
    } else {
        None
    }
}

/// An integer text: digits with an optional leading minus sign.
pub open spec fn is_int_text(s: Seq<char>) -> bool {
    is_digits(num_body(s))
}

pub(crate) fn str_chars(s: &str) -> (v: Vec<char>)
    ensures
        v@ == s@,
{
    let n = s.unicode_len();
    let mut v: Vec<char> = Vec::new();
    let mut i: usize = 0;
    while i < n
        invariant
            n == s@.len(),
            i <= n,
            v@ == s@.take(i as int),
        decreases n - i,
    {
        v.push(s.get_char(i));
        proof {
            assert(v@ =~= s@.take(i + 1));
        }
        i += 1;
    }
    proof {
        assert(s@.take(n as int) =~= s@);
    }
    v
}

fn digit_of(c: char) -> (r: Option<u8>)
    ensures
        match r {
            Some(d) => is_digit(c) && d as int == digit_val(c),
            None => !is_digit(c),
        },
{
    if '0' <= c && c <= '9' {
        Some((c as u8) - 48)
    } else {
        None
    }
}

/// Whether a text is an optionally signed run of digits.
pub fn check_int_text(s: &str) -> (r: bool)
    ensures
        r == is_int_text(s@),
{
    let v = str_chars(s);
    let n = v.len();
    let start: usize = if n > 0 && v[0] == '-' {
        1
    } else {
        0
    };
    let ghost body = num_body(s@);
    proof {
        assert(body =~= v@.skip(start as int));
    }
    if n == start {
        return false;
    }
    let mut i: usize = start;
    while i < n
        invariant
            n == v@.len(),
            v@ == s@,
            start <= i <= n,
            body == v@.skip(start as int),
            body == num_body(s@),
            forall|j: int| 0 <= j < i - start ==> is_digit(body[j]),
        decreases n - i,
    {
        if digit_of(v[i]).is_none() {
            proof {
                assert(body[i - start] == v@[i as int]);
            }
            return false;
        }
        i += 1;
    }
    true
}

/// Parse an unsigned digit text into a machine word; values beyond
/// `u64::MAX` and texts of any other shape give `None`.
pub fn parse_u64_digits(s: &str) -> (r: Option<u64>)
    ensures
        match r {
            Some(n) => uint_of_text(s@) == Some(n as int),
            None => match uint_of_text(s@) {
                Some(v) => v > u64::MAX,
                None => true,
            },
        },
{
    let v = str_chars(s);
    let n = v.len();
    if n == 0 || n > 35 {
        return None;
    }
    let mut acc: i128 = 0;
    let mut i: usize = 0;
    while i < n
        invariant
            n == v@.len(),
            v@ == s@,
            0 < n <= 35,
            i <= n,
            forall|j: int| 0 <= j < i ==> is_digit(v@[j]),
            acc as int == digits_val(v@.take(i as int)),
            0 <= acc,
            (acc as int) < pow10(i as nat),
        decreases n - i,
    {
        let d = match digit_of(v[i]) {
            Some(d) => d,
            None => {
                proof {
                    assert(!is_digit(s@[i as int]));
                    assert(!is_digits(s@));
                }
                return None;
            },
        };
        proof {
            lemma_pow10_values();
            lemma_pow10_pos(i as nat);
            lemma_pow10_mono(i as nat, 34);
            assert(v@.take(i + 1).drop_last() =~= v@.take(i as int));
        }
        acc = acc * 10 + (d as i128);
        proof {
            lemma_digits_val_bound(v@.take(i + 1));
        }
        i += 1;
    }
    proof {
        assert(v@.take(n as int) =~= v@);
    }
    if acc <= u64::MAX as i128 {
        Some(acc as u64)
    } else {
        None
    }
}

/// Parse a decimal text into cents, per `cents_of_num_text`.
#[verifier::rlimit(100)]
pub fn parse_cents(s: &str) -> (r: Option<i64>)
    ensures
        match r {
            Some(c) => cents_of_num_text(s@) == Some(c as int),
            None => cents_of_num_text(s@) is None,
        },
{
    let v = str_chars(s);
    let n = v.len();
    let neg = n > 0 && v[0] == '-';
    let start: usize = if neg {
        1
    } else {
        0
    };
    let ghost body = num_body(s@);
    proof {
        assert(body =~= v@.skip(start as int));
    }
    // find the first dot inside the body
    let mut dotp: usize = start;
    while dotp < n && v[dotp] != '.'
        invariant
            n == v@.len(),
            v@ == s@,
            start <= dotp <= n,
            body == v@.skip(start as int),
            body == num_body(s@),
            neg == is_neg(s@),
            forall|j: int| 0 <= j < dotp - start ==> body[j] != '.',
        decreases n - dotp,
    {
        proof {
            assert(body[dotp - start] == v@[dotp as int]);
        }
        dotp += 1;
    }
    let ghost drel = (dotp - start) as int;
    proof {
        if dotp < n {
            assert(body[drel] == v@[dotp as int]);
        }
        lemma_find_first_at(body, '.', drel);
    }
    let has_dot = dotp < n;
    let digits_cnt: usize = if has_dot {
        n - start - 1
    } else {
        n - start
    };
    let ghost mant = mantissa_digits(body);
    let ghost fl = frac_len(body);
    proof {
        if has_dot {
            assert(mant =~= body.take(drel) + body.skip(drel + 1));
            assert(mant.len() == digits_cnt as int);
        } else {
            assert(mant == body);
        }
    }
    if digits_cnt == 0 || digits_cnt > 35 {
        return None;
    }
    if has_dot && (dotp == start || dotp == n - 1) {
        // an empty digit run on either side of the dot
        return None;
    }
    // accumulate the mantissa digits, skipping the dot
    let mut acc: i128 = 0;
    let mut cnt: usize = 0;
    let mut i: usize = start;
    while i < n
        invariant
            n == v@.len(),
            v@ == s@,
            start <= i <= n,
            start <= dotp <= n,
            body == num_body(s@),
            neg == is_neg(s@),
            has_dot == (dotp < n),
            has_dot ==> start < dotp < n - 1,
            body == v@.skip(start as int),
            drel == dotp - start,
            find_first(body, '.') == drel,
            mant == mantissa_digits(body),
            fl == frac_len(body),
            0 < digits_cnt <= 35,
            digits_cnt as int == mant.len(),
            cnt as int == if i <= dotp {
                i - start as int
            } else {
                i - start - 1
            },
            cnt <= digits_cnt,
            forall|j: int| 0 <= j < cnt ==> is_digit(mant[j]),
            acc as int == digits_val(mant.take(cnt as int)),
            0 <= acc,
            (acc as int) < pow10(cnt as nat),
            forall|j: int| 0 <= j < drel ==> body[j] != '.',
        decreases n - i,
    {
        if has_dot && i == dotp {
            i += 1;
            continue ;
        }
        let ghost k = cnt as int;
        proof {
            if i < dotp {
                assert(mant[k] == body.take(drel)[k]);
            } else {
                assert(mant[k] == body.skip(drel + 1)[k - drel]);
            }
            assert(mant[k] == body[i - start]);
            assert(body[i - start] == v@[i as int]);
        }
        let d = match digit_of(v[i]) {
            Some(d) => d,
            None => {
                proof {
                    if i < dotp {
                        assert(body.take(drel)[k] == mant[k]);
                        assert(!is_digits(body.take(drel)));
                    } else if has_dot {
                        assert(body.skip(drel + 1)[k - drel] == mant[k]);
                        assert(!is_digits(body.skip(drel + 1)));
                    } else {
                        assert(!is_digits(body));
                    }
                    assert(!num_shape(body));
                    assert(cents_of_num_text(s@) is None);
                }
                return None;
            },
        };
        proof {
            lemma_pow10_values();
            lemma_pow10_mono(cnt as nat, 34);
            assert(mant.take(k + 1).drop_last() =~= mant.take(k));
            assert(mant.take(k + 1).last() == mant[k]);
        }
        acc = acc * 10 + (d as i128);
        cnt += 1;
        proof {
            lemma_digits_val_bound(mant.take(cnt as int));
        }
        i += 1;
    }
    proof {
        assert(cnt == digits_cnt);
        assert(mant.take(mant.len() as int) =~= mant);
        // the whole mantissa was checked digit by digit
        if has_dot {
            assert(forall|j: int| 0 <= j < drel ==> #[trigger] body.take(drel)[j] == mant[j]);
            assert(forall|j: int|
                0 <= j < body.len() - drel - 1 ==> #[trigger] body.skip(drel + 1)[j] == mant[
                    drel + j
                ]);
            assert(is_digits(body.take(drel)));
            assert(is_digits(body.skip(drel + 1)));
        } else {
            assert(forall|j: int| 0 <= j < body.len() ==> #[trigger] body[j] == mant[j]);
            assert(is_digits(body));
        }
        assert(num_shape(body));
        if has_dot {
            assert(fl == n - 1 - dotp);
        } else {
            assert(fl == 0);
        }
    }
    let fl_exec: usize = if has_dot {
        n - 1 - dotp
    } else {
        0
    };
    let mag: i128 = if fl_exec <= 2 {
        let mult: i128 = if fl_exec == 0 {
            100
        } else if fl_exec == 1 {
            10
        } else {
            1
        };
        proof {
            lemma_pow10_values();
            assert(pow10(0) == 1);
            assert(mult as int == pow10((2 - fl) as nat));
            lemma_pow10_mono(cnt as nat, 35);
        }
        acc * mult
    } else {
        let k = fl_exec - 2;
        // 10^k and half of it, k at most 33
        let mut p: i128 = 1;
        let mut j: usize = 0;
        proof {
            lemma_pow10_values();
        }
        while j < k
            invariant
                k <= 33,
                j <= k,
                p as int == pow10(j as nat),
                pow10(33) == 1000000000000000000000000000000000,
            decreases k - j,
        {
            proof {
                lemma_pow10_pos(j as nat);
                lemma_pow10_mono(j as nat, 32);
                lemma_pow10_values();
            }
            p = p * 10;
            j += 1;
        }
        proof {
            lemma_pow10_values();
            lemma_pow10_mono((fl - 2) as nat, 33);
            lemma_pow10_pos((fl - 2) as nat);
            lemma_pow10_mono((fl - 3) as nat, 32);
            lemma_pow10_pos((fl - 3) as nat);
            lemma_digits_val_bound(mant);
            lemma_pow10_mono(mant.len() as nat, 35);
        }
        let half = p / 2;
        proof {
            assert(pow10((fl - 2) as nat) == 10 * pow10((fl - 3) as nat));
            assert(half as int == 5 * pow10((fl - 3) as nat));
        }
        (acc + half) / p
    };
    proof {
        lemma_pow10_values();
        lemma_digits_val_bound(mant);
        lemma_pow10_mono(mant.len() as nat, 35);
        if fl <= 2 {
            lemma_pow10_mono((2 - fl) as nat, 2);
            lemma_pow10_pos((2 - fl) as nat);
        }
        assert(mag as int == cents_mag(acc as int, fl));
    }
    let clamped: i64 = if mag > i64::MAX as i128 {
        i64::MAX
    } else {
        mag as i64
    };
    if neg {
        Some(-clamped)
    } else {
        Some(clamped)
    }
}

} // verus!
