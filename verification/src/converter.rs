use crate::decode::{decode_hand, jget, spec_hand};
use crate::fmt::{join_with, spec_join};
use crate::json::{json_doc, json_from_str, json_get};
use crate::model::{HandV, OhhHand};
use crate::numbers::str_chars;
use crate::render::{ohh_to_pokerstars_text, render_chars};
use vstd::prelude::*;
use vstd::string::*;

verus! {

/// The first index where two newlines meet, or the length if they nowhere
/// do.
pub open spec fn find_break(s: Seq<char>) -> int
    decreases s.len(),
{
    if s.len() < 2 {
        s.len() as int
    } else if s[0] == '\n' && s[1] == '\n' {
        0
    } else {
        1 + find_break(s.skip(1))
    }
}

proof fn lemma_find_break_at(s: Seq<char>, i: int)
    requires
        0 <= i,
        i + 2 <= s.len(),
        s[i] == '\n',
        s[i + 1] == '\n',
        forall|j: int| 0 <= j < i ==> !(s[j] == '\n' && #[trigger] s[j + 1] == '\n'),
    ensures
        find_break(s) == i,
    decreases i,
{
    if i > 0 {
        lemma_find_break_at(s.skip(1), i - 1);
    }
}

proof fn lemma_find_break_none(s: Seq<char>)
    requires
        forall|j: int| 0 <= j < s.len() - 1 ==> !(#[trigger] s[j] == '\n' && s[j + 1] == '\n'),
    ensures
        find_break(s) == s.len(),
    decreases s.len(),
{
    if s.len() >= 2 {
        assert(!(s[0] == '\n' && s[1] == '\n'));
        assert forall|j: int|
            0 <= j < s.skip(1).len() - 1 implies !(#[trigger] s.skip(1)[j] == '\n' && s.skip(1)[j
            + 1] == '\n') by {
            assert(s.skip(1)[j] == s[j + 1]);
            assert(s.skip(1)[j + 1] == s[j + 2]);
        }
        lemma_find_break_none(s.skip(1));
    }
}

/// The input cut at every blank line, the hand-boundary convention of the
/// source format.
pub open spec fn split_chunks(s: Seq<char>) -> Seq<Seq<char>>
    decreases s.len(),
{
    if s.len() < 2 {
        seq![s]
    } else {
        let b = find_break(s);
        if 0 <= b && b + 2 <= s.len() {
            seq![s.take(b)] + split_chunks(s.skip(b + 2))
        } else {
            seq![s]
        }
    }
}

/// The hand one chunk decodes to, if any: first as a wrapper object holding
/// the record under `ohh`, then as a bare record.
pub open spec fn spec_chunk_hand(s: Seq<char>) -> Option<HandV> {
    match json_doc(s) {
        None => None,
        Some(j) => match jget(j, "ohh"@) {
            Some(inner) => match spec_hand(inner) {
                Some(h) => Some(h),
                None => spec_hand(j),
            },
            None => spec_hand(j),
        },
    }
}

/// The hands of the chunks that decode, in order, the rest dropped.
pub open spec fn decoded_hands(chunks: Seq<Seq<char>>) -> Seq<HandV>
    decreases chunks.len(),
{
    if chunks.len() == 0 {
        Seq::empty()
    } else {
        decoded_hands(chunks.drop_last()) + (match spec_chunk_hand(chunks.last()) {
            Some(h) => seq![h],
            None => Seq::empty(),
        })
    }
}

/// Every hand the whole input yields.
pub open spec fn spec_parsed(s: Seq<char>) -> Seq<HandV> {
    decoded_hands(split_chunks(s))
}

fn chars_to_string(v: &Vec<char>, lo: usize, hi: usize) -> (r: String)
    requires
        lo <= hi <= v@.len(),
    ensures
        r@ == v@.subrange(lo as int, hi as int),
{
    let mut r = String::new();
    let mut i: usize = lo;
    while i < hi
        invariant
            lo <= i <= hi <= v@.len(),
            r@ == v@.subrange(lo as int, i as int),
        decreases hi - i,
    {
        crate::fmt::push_char(&mut r, v[i]);
        proof {
            assert(r@ =~= v@.subrange(lo as int, i + 1));
        }
        i += 1;
    }
    r
}

fn split_blank(s: &str) -> (chunks: Vec<String>)
    ensures
        chunks.deep_view() == split_chunks(s@),
{
    let v = str_chars(s);
    let n = v.len();
    let mut chunks: Vec<String> = Vec::new();
    let mut off: usize = 0;
    proof {
        assert(s@.skip(0) =~= s@);
    }
    loop
        invariant_except_break
            split_chunks(s@) =~= chunks.deep_view() + split_chunks(s@.skip(off as int)),
        invariant
            v@ == s@,
            n == v@.len(),
            off <= n,
        ensures
            chunks.deep_view() =~= split_chunks(s@),
        decreases n - off,
    {
        let ghost suffix = s@.skip(off as int);
        let mut k: usize = off;
        while n - k >= 2 && !(v[k] == '\n' && v[k + 1] == '\n')
            invariant
                v@ == s@,
                n == v@.len(),
                off <= k <= n,
                suffix == s@.skip(off as int),
                forall|j: int|
                    0 <= j < k - off ==> !(#[trigger] suffix[j] == '\n' && suffix[j + 1] == '\n'),
            decreases n - k,
        {
            proof {
                assert(suffix[k - off] == s@[k as int]);
                assert(suffix[k - off + 1] == s@[k + 1]);
            }
            k += 1;
        }
        let ghost prev = chunks.deep_view();
        if n - k >= 2 {
            let c = chars_to_string(&v, off, k);
            chunks.push(c);
            proof {
                assert(suffix[k - off] == s@[k as int]);
                assert(suffix[k - off + 1] == s@[k + 1]);
                lemma_find_break_at(suffix, k - off);
                assert(suffix.take(k - off) =~= s@.subrange(off as int, k as int));
                assert(suffix.skip(k - off + 2) =~= s@.skip(k + 2));
                assert(split_chunks(suffix) =~= seq![suffix.take(k - off)] + split_chunks(
                    s@.skip(k + 2),
                ));
                assert(chunks.deep_view() =~= prev.push(s@.subrange(off as int, k as int)));
                assert(chunks.deep_view() + split_chunks(s@.skip(k + 2)) =~= prev + split_chunks(
                    suffix,
                ));
            }
            off = k + 2;
        } else {
            let c = chars_to_string(&v, off, n);
            chunks.push(c);
            proof {
                assert(forall|j: int|
                    0 <= j < suffix.len() - 1 ==> !(#[trigger] suffix[j] == '\n' && suffix[j
                        + 1] == '\n'));
                lemma_find_break_none(suffix);
                assert(split_chunks(suffix) =~= seq![suffix]);
                assert(s@.subrange(off as int, n as int) =~= suffix);
                assert(chunks.deep_view() =~= prev.push(suffix));
                assert(chunks.deep_view() =~= split_chunks(s@));
            }
            break ;
        }
    }
    chunks
}

fn decode_chunk(chunk: &str) -> (r: Option<OhhHand>)
    ensures
        match r {
            Some(h) => spec_chunk_hand(chunk@) == Some(h@),
            None => spec_chunk_hand(chunk@) is None,
        },
{
    match json_from_str(chunk) {
        None => None,
        Some(val) => match json_get(&val, "ohh") {
            Some(inner) => match decode_hand(inner) {
                Some(h) => Some(h),
                None => decode_hand(&val),
            },
            None => decode_hand(&val),
        },
    }
}

/// Parse the blank-line separated input into hand records, dropping chunks
/// that decode to nothing; only an input yielding no hand at all is an
/// error.
pub fn parse_ohh_chunks(text: &str) -> (r: Result<Vec<OhhHand>, String>)
    ensures
        match r {
            Ok(hands) => spec_parsed(text@).len() > 0 && hands@.len() == spec_parsed(text@).len()
                && forall|i: int| 0 <= i < hands@.len() ==> hands@[i]@ == spec_parsed(text@)[i],
            Err(e) => spec_parsed(text@).len() == 0 && e@
                == "no valid hands could be parsed. please check your file format."@,
        },
{
    let chunks = split_blank(text);
    let ghost cv = chunks.deep_view();
    let mut hands: Vec<OhhHand> = Vec::new();
    let n = chunks.len();
    let mut i: usize = 0;
    while i < n
        invariant
            n == chunks@.len(),
            cv == chunks.deep_view(),
            cv.len() == n,
            cv == split_chunks(text@),
            i <= n,
            hands@.len() == decoded_hands(cv.take(i as int)).len(),
            forall|t: int|
                0 <= t < hands@.len() ==> hands@[t]@ == decoded_hands(cv.take(i as int))[t],
        decreases n - i,
    {
        let ghost before = decoded_hands(cv.take(i as int));
        proof {
            assert(cv.take(i + 1).drop_last() =~= cv.take(i as int));
            assert(cv.take(i + 1).last() == cv[i as int]);
            assert(chunks@[i as int]@ == cv[i as int]);
        }
        match decode_chunk(chunks[i].as_str()) {
            Some(h) => {
                hands.push(h);
                proof {
                    assert(decoded_hands(cv.take(i + 1)) =~= before.push(h@));
                }
            },
            None => {
                proof {
                    assert(decoded_hands(cv.take(i + 1)) =~= before);
                }
            },
        }
        i += 1;
    }
    proof {
        assert(cv.take(n as int) =~= cv);
    }
    if hands.len() == 0 {
        Err(String::from_str("no valid hands could be parsed. please check your file format."))
    } else {
        Ok(hands)
    }
}

/// Convert a whole input text: parse every hand and render each, joining
/// the blocks with two blank lines.
pub fn convert_ohh_file(content: &str) -> (r: Result<String, String>)
    ensures
        match r {
            Ok(out) => spec_parsed(content@).len() > 0 && out@ == spec_join(
                spec_parsed(content@).map_values(|h: HandV| render_chars(h)),
                "\n\n\n\n"@,
            ),
            Err(e) => spec_parsed(content@).len() == 0 && e@
                == "no valid hands could be parsed. please check your file format."@,
        },
{
    let hands = match parse_ohh_chunks(content) {
        Ok(hs) => hs,
        Err(e) => {
            return Err(e);
        },
    };
    let ghost ph = spec_parsed(content@);
    let mut blocks: Vec<String> = Vec::new();
    let n = hands.len();
    let mut i: usize = 0;
    while i < n
        invariant
            n == hands@.len(),
            ph == spec_parsed(content@),
            ph.len() == n,
            forall|t: int| 0 <= t < n ==> hands@[t]@ == ph[t],
            i <= n,
            blocks@.len() == i,
            forall|t: int| 0 <= t < i ==> blocks@[t]@ == render_chars(ph[t]),
        decreases n - i,
    {
        blocks.push(ohh_to_pokerstars_text(&hands[i]));
        i += 1;
    }
    proof {
        assert(blocks.deep_view() =~= ph.map_values(|h: HandV| render_chars(h)));
    }
    Ok(join_with(&blocks, "\n\n\n\n"))
}

} // verus!
