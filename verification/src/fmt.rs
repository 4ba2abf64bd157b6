use vstd::math::abs;
use vstd::prelude::*;
use vstd::string::*;

verus! {

/// ASCII-uppercase one character; anything outside `'a'..='z'` passes through.
pub open spec fn upper_char(c: char) -> char {
    if 'a' <= c && c <= 'z' {
        ((c as u8) - 32) as char
    } else {
        c
    }
}

/// ASCII-lowercase one character; anything outside `'A'..='Z'` passes through.
pub open spec fn lower_char(c: char) -> char {
    if 'A' <= c && c <= 'Z' {
        ((c as u8) + 32) as char
    } else {
        c
    }
}

/// A card code of two or more characters normalizes to rank uppercase plus
/// suit lowercase (and drops anything beyond those two); shorter input is
/// returned unchanged.
pub open spec fn card_chars(c: Seq<char>) -> Seq<char> {
    if c.len() >= 2 {
        seq![upper_char(c[0]), lower_char(c[1])]
    } else {
        c
    }
}

/// Relies on String::push: appends exactly one character to the string.
#[verifier::external_body]
pub(crate) fn push_char(s: &mut String, c: char)
    ensures
        final(s)@ == old(s)@.push(c),
{
    s.push(c);
}

fn upper(c: char) -> (r: char)
    ensures
        r == upper_char(c),
{
    if 'a' <= c && c <= 'z' {
        ((c as u8) - 32) as char
    } else {
        c
    }
}

fn lower(c: char) -> (r: char)
    ensures
        r == lower_char(c),
{
    if 'A' <= c && c <= 'Z' {
        ((c as u8) + 32) as char
    } else {
        c
    }
}

/// Normalizing a card code is idempotent: a second pass changes nothing,
/// since the first already leaves an uppercase rank and a lowercase suit.
pub proof fn lemma_card_idempotent(c: Seq<char>)
    ensures
        card_chars(card_chars(c)) == card_chars(c),
{
    if c.len() >= 2 {
        assert(upper_char(upper_char(c[0])) == upper_char(c[0]));
        assert(lower_char(lower_char(c[1])) == lower_char(c[1]));
        assert(card_chars(card_chars(c)) =~= card_chars(c));
    }
}

/// Normalize one card code, e.g. `"th"` to `"Th"`.
pub fn card(c: &str) -> (r: String)
    ensures
        r@ == card_chars(c@),
{
    let n = c.unicode_len();
    if n >= 2 {
        let mut r = String::new();
        push_char(&mut r, upper(c.get_char(0)));
        push_char(&mut r, lower(c.get_char(1)));
        proof {
            assert(r@ =~= card_chars(c@));
        }
        r
    } else {
        c.to_owned()
    }
}

/// The decimal digit character for a value in `0..10`.
pub open spec fn digit_char(d: int) -> char
    recommends
        0 <= d < 10,
{
    ((48 + d) as u8) as char
}

/// The decimal digit string of a non-negative integer, without leading zeros.
pub open spec fn dec_digits(n: int) -> Seq<char>
    recommends
        n >= 0,
    decreases n,
{
    if n < 10 {
        seq![digit_char(n)]
    } else {
        dec_digits(n / 10).push(digit_char(n % 10))
    }
}

/// Thousands grouping: a comma before every group of three digits counted
/// from the right.
pub open spec fn comma_group(s: Seq<char>) -> Seq<char>
    decreases s.len(),
{
    if s.len() <= 3 {
        s
    } else {
        comma_group(s.take(s.len() - 3)) + seq![','] + s.skip(s.len() - 3)
    }
}

/// Exactly two digits, for the cent part of an amount.
pub open spec fn two_digits(n: int) -> Seq<char>
    recommends
        0 <= n < 100,
{
    seq![digit_char(n / 10), digit_char(n % 10)]
}

/// An amount of cents as money text: optional minus sign, dollar sign,
/// comma-grouped dollars, a dot, and two cent digits.
pub open spec fn money_chars(cents: int) -> Seq<char> {
    let sign: Seq<char> = if cents < 0 {
        seq!['-']
    } else {
        Seq::empty()
    };
    sign + seq!['$'] + comma_group(dec_digits(abs(cents) as int / 100)) + seq!['.'] + two_digits(
        abs(cents) as int % 100,
    )
}

/// The parts joined by the separator, in order.
pub open spec fn spec_join(parts: Seq<Seq<char>>, sep: Seq<char>) -> Seq<char>
    decreases parts.len(),
{
    if parts.len() == 0 {
        Seq::empty()
    } else if parts.len() == 1 {
        parts[0]
    } else {
        spec_join(parts.drop_last(), sep) + sep + parts.last()
    }
}

/// Each card normalized, joined by single spaces.
pub open spec fn cards_chars(board: Seq<Seq<char>>) -> Seq<char> {
    spec_join(board.map_values(|c: Seq<char>| card_chars(c)), seq![' '])
}

fn digit(d: u64) -> (c: char)
    requires
        d < 10,
    ensures
        c == digit_char(d as int),
{
    (48 + (d as u8)) as char
}

pub(crate) fn u64_to_dec(n: u64) -> (r: String)
    ensures
        r@ == dec_digits(n as int),
    decreases n,
{
    if n < 10 {
        let mut r = String::new();
        push_char(&mut r, digit(n));
        proof {
            assert(r@ =~= dec_digits(n as int));
        }
        r
    } else {
        let mut r = u64_to_dec(n / 10);
        push_char(&mut r, digit(n % 10));
        r
    }
}

fn group_commas(s: &str) -> (r: String)
    ensures
        r@ == comma_group(s@),
    decreases s@.len(),
{
    let n = s.unicode_len();
    if n <= 3 {
        s.to_owned()
    } else {
        let head = s.substring_char(0, n - 3);
        let mut r = group_commas(head);
        push_char(&mut r, ',');
        push_char(&mut r, s.get_char(n - 3));
        push_char(&mut r, s.get_char(n - 2));
        push_char(&mut r, s.get_char(n - 1));
        proof {
            assert(head@ =~= s@.take(s@.len() - 3));
            assert(r@ =~= comma_group(s@));
        }
        r
    }
}

/// Format an amount of cents as money text, e.g. `1050` as `"$10.50"`.
pub fn fmt_money(cents: i64) -> (r: String)
    ensures
        r@ == money_chars(cents as int),
{
    let neg = cents < 0;
    let mag: u64 = if cents < 0 {
        (-(cents as i128)) as u64
    } else {
        cents as u64
    };
    let dollars = mag / 100;
    let cc = mag % 100;
    let mut r = String::new();
    if neg {
        push_char(&mut r, '-');
    }
    push_char(&mut r, '$');
    let ds = u64_to_dec(dollars);
    let gs = group_commas(ds.as_str());
    r.append(gs.as_str());
    push_char(&mut r, '.');
    push_char(&mut r, digit(cc / 10));
    push_char(&mut r, digit(cc % 10));
    proof {
        assert(r@ =~= money_chars(cents as int));
    }
    r
}

/// Join ready-made parts with a separator.
pub fn join_with(parts: &Vec<String>, sep: &str) -> (r: String)
    ensures
        r@ == spec_join(parts.deep_view(), sep@),
{
    let ghost dv = parts.deep_view();
    let mut r = String::new();
    let mut i: usize = 0;
    while i < parts.len()
        invariant
            i <= parts@.len(),
            dv == parts.deep_view(),
            dv.len() == parts@.len(),
            r@ == spec_join(dv.take(i as int), sep@),
        decreases parts@.len() - i,
    {
        if i > 0 {
            r.append(sep);
        }
        r.append(parts[i].as_str());
        proof {
            assert(dv.take(i + 1).drop_last() =~= dv.take(i as int));
            assert(dv.take(i + 1).last() == parts@[i as int]@);
            if i == 0 {
                assert(r@ =~= spec_join(dv.take(i + 1), sep@));
            }
        }
        i += 1;
    }
    proof {
        assert(dv.take(parts@.len() as int) =~= dv);
    }
    r
}

/// Render a board as space-joined normalized cards, e.g. `"Ah Kd Qc"`.
pub fn cards(board: &[String]) -> (r: String)
    ensures
        r@ == cards_chars(board@.map_values(|c: String| c@)),
{
    let ghost bv = board@.map_values(|c: String| c@);
    let mut parts: Vec<String> = Vec::new();
    let mut i: usize = 0;
    while i < board.len()
        invariant
            i <= board@.len(),
            bv == board@.map_values(|c: String| c@),
            bv.len() == board@.len(),
            parts@.len() == i,
            forall|j: int| 0 <= j < i ==> parts@[j]@ == card_chars(bv[j]),
        decreases board@.len() - i,
    {
        parts.push(card(&board[i]));
        i += 1;
    }
    proof {
        reveal_strlit(" ");
        assert(" "@ =~= seq![' ']);
        assert(parts.deep_view() =~= bv.map_values(|c: Seq<char>| card_chars(c)));
    }
    join_with(&parts, " ")
}

} // verus!
