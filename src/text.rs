use vstd::prelude::*;
use vstd::utf8::decode_utf8;
use vstd::utf8::valid_utf8;

verus! {

/// The bytes that `split_ascii_whitespace` separates on.
pub open spec fn is_ascii_ws(b: u8) -> bool {
    b == 0x20u8 || b == 0x09u8 || b == 0x0au8 || b == 0x0cu8 || b == 0x0du8
}

/// Tokens completed so far and the token being read, after scanning `s`.
pub open spec fn ws_split_state(s: Seq<u8>) -> (Seq<Seq<u8>>, Seq<u8>)
    decreases s.len(),
{
    if s.len() == 0 {
        (Seq::empty(), Seq::empty())
    } else {
        let (toks, cur) = ws_split_state(s.drop_last());
        let b = s.last();
        if is_ascii_ws(b) {
            if cur.len() > 0 {
                (toks.push(cur), Seq::empty())
            } else {
                (toks, cur)
            }
        } else {
            (toks, cur.push(b))
        }
    }
}

/// The maximal runs of non-whitespace bytes of `s`, in order.
pub open spec fn ws_tokens(s: Seq<u8>) -> Seq<Seq<u8>> {
    let (toks, cur) = ws_split_state(s);
    if cur.len() > 0 {
        toks.push(cur)
    } else {
        toks
    }
}

/// Pieces completed so far and the piece being read, after scanning `s` for
/// the separator `a b`.
pub open spec fn pair_split_state(s: Seq<u8>, a: u8, b: u8) -> (Seq<Seq<u8>>, Seq<u8>)
    decreases s.len(),
{
    if s.len() == 0 {
        (Seq::empty(), Seq::empty())
    } else {
        let (parts, cur) = pair_split_state(s.drop_last(), a, b);
        let c = s.last();
        if c == b && cur.len() > 0 && cur.last() == a {
            (parts.push(cur.drop_last()), Seq::empty())
        } else {
            (parts, cur.push(c))
        }
    }
}

/// `s` cut at each occurrence of the two-byte separator `a b`, from the left;
/// always at least one piece.
pub open spec fn split_pair(s: Seq<u8>, a: u8, b: u8) -> Seq<Seq<u8>> {
    let (parts, cur) = pair_split_state(s, a, b);
    parts.push(cur)
}

/// The pieces `ps` with the separator `a b` between each two neighbours.
pub open spec fn join_pair(ps: Seq<Seq<u8>>, a: u8, b: u8) -> Seq<u8>
    decreases ps.len(),
{
    if ps.len() == 0 {
        Seq::empty()
    } else if ps.len() == 1 {
        ps[0]
    } else {
        join_pair(ps.drop_last(), a, b) + seq![a, b] + ps.last()
    }
}

/// `a b` stands in `p` at `i`.
pub open spec fn pair_at(p: Seq<u8>, a: u8, b: u8, i: int) -> bool {
    0 <= i && i + 1 < p.len() && p[i] == a && p[i + 1] == b
}

/// `p` holds the two-byte sequence `a b`.
pub open spec fn has_pair(p: Seq<u8>, a: u8, b: u8) -> bool {
    exists|i: int| #[trigger] pair_at(p, a, b, i)
}

proof fn lemma_join_push(ps: Seq<Seq<u8>>, x: Seq<u8>, a: u8, b: u8)
    ensures
        join_pair(ps.push(x), a, b) == if ps.len() == 0 {
            x
        } else {
            join_pair(ps, a, b) + seq![a, b] + x
        },
{
    assert(ps.push(x).drop_last() =~= ps);
}

proof fn lemma_pair_split_state(s: Seq<u8>, a: u8, b: u8)
    ensures
        ({
            let (parts, cur) = pair_split_state(s, a, b);
            &&& join_pair(parts.push(cur), a, b) == s
            &&& forall|k: int| 0 <= k < parts.len() ==> !has_pair(#[trigger] parts[k], a, b)
            &&& !has_pair(cur, a, b)
        }),
    decreases s.len(),
{
    if s.len() == 0 {
        let (parts, cur) = pair_split_state(s, a, b);
        lemma_join_push(parts, cur, a, b);
        assert(join_pair(parts.push(cur), a, b) =~= s);
    } else {
        let s0 = s.drop_last();
        lemma_pair_split_state(s0, a, b);
        let (parts0, cur0) = pair_split_state(s0, a, b);
        let c = s.last();
        assert(s =~= s0.push(c));
        lemma_join_push(parts0, cur0, a, b);
        if c == b && cur0.len() > 0 && cur0.last() == a {
            let piece = cur0.drop_last();
            let parts = parts0.push(piece);
            lemma_join_push(parts, Seq::empty(), a, b);
            lemma_join_push(parts0, piece, a, b);
            assert(cur0 =~= piece.push(a));
            assert(join_pair(parts.push(Seq::empty()), a, b) =~= s);
            assert forall|k: int| 0 <= k < parts.len() implies !has_pair(#[trigger] parts[k], a, b) by {
                if k == parts0.len() {
                    if has_pair(piece, a, b) {
                        let i = choose|i: int| pair_at(piece, a, b, i);
                        assert(pair_at(cur0, a, b, i));
                        assert(cur0[i] == a && cur0[i + 1] == b);
                    }
                }
            }
            assert(!has_pair(Seq::<u8>::empty(), a, b));
        } else {
            let cur = cur0.push(c);
            lemma_join_push(parts0, cur, a, b);
            assert(join_pair(parts0.push(cur), a, b) =~= s);
            if has_pair(cur, a, b) {
                let i = choose|i: int| pair_at(cur, a, b, i);
                if i + 1 < cur0.len() {
                    assert(pair_at(cur0, a, b, i));
                }
            }
        }
    }
}

/// What splitting on a separator means: joining the pieces with it gives the
/// input back, and no piece holds it.
pub proof fn lemma_split_pair(s: Seq<u8>, a: u8, b: u8)
    ensures
        join_pair(split_pair(s, a, b), a, b) == s,
        forall|k: int|
            0 <= k < split_pair(s, a, b).len() ==> !has_pair(#[trigger] split_pair(s, a, b)[k], a, b),
{
    lemma_pair_split_state(s, a, b);
    let (parts, cur) = pair_split_state(s, a, b);
    assert forall|k: int| 0 <= k < parts.push(cur).len() implies !has_pair(#[trigger] parts.push(cur)[k], a, b) by {
        if k < parts.len() {
            assert(parts.push(cur)[k] == parts[k]);
        }
    }
}

proof fn lemma_bytes_deep_view(v: Vec<u8>)
    ensures
        v.deep_view() == v@,
{
    assert(v.deep_view() =~= v@);
}

/// Splits on runs of ASCII whitespace, dropping empty tokens.
pub fn split_ascii_whitespace(s: &[u8]) -> (r: Vec<Vec<u8>>)
    ensures
        r.deep_view() == ws_tokens(s@),
{
    let mut toks: Vec<Vec<u8>> = Vec::new();
    let mut cur: Vec<u8> = Vec::new();
    let mut i: usize = 0;
    while i < s.len()
        invariant
            i <= s@.len(),
            (toks.deep_view(), cur@) == ws_split_state(s@.subrange(0, i as int)),
        decreases s@.len() - i,
    {
        let ghost prev = toks.deep_view();
        assert(s@.subrange(0, i + 1).drop_last() =~= s@.subrange(0, i as int));
        let b = s[i];
        if b == 0x20u8 || b == 0x09u8 || b == 0x0au8 || b == 0x0cu8 || b == 0x0du8 {
            if cur.len() > 0 {
                let done = cur;
                proof {
                    lemma_bytes_deep_view(done);
                }
                toks.push(done);
                cur = Vec::new();
                assert(toks.deep_view() =~= prev.push(done@));
            }
        } else {
            cur.push(b);
        }
        i = i + 1;
    }
    assert(s@.subrange(0, s@.len() as int) =~= s@);
    if cur.len() > 0 {
        let ghost prev = toks.deep_view();
        proof {
            lemma_bytes_deep_view(cur);
        }
        let ghost c = cur@;
        toks.push(cur);
        assert(toks.deep_view() =~= prev.push(c));
    }
    toks
}

/// Splits at each occurrence of the two-byte separator `a b` (with `a != b`),
/// as `str::split` does with a two-character pattern.
pub fn split_on_pair(s: &[u8], a: u8, b: u8) -> (r: Vec<Vec<u8>>)
    ensures
        r.deep_view() == split_pair(s@, a, b),
        r@.len() >= 1,
{
    let mut parts: Vec<Vec<u8>> = Vec::new();
    let mut cur: Vec<u8> = Vec::new();
    let mut i: usize = 0;
    while i < s.len()
        invariant
            i <= s@.len(),
            (parts.deep_view(), cur@) == pair_split_state(s@.subrange(0, i as int), a, b),
        decreases s@.len() - i,
    {
        let ghost prev = parts.deep_view();
        assert(s@.subrange(0, i + 1).drop_last() =~= s@.subrange(0, i as int));
        let c = s[i];
        let n = cur.len();
        if c == b && n > 0 && cur[n - 1] == a {
            let mut done = cur;
            done.pop();
            proof {
                lemma_bytes_deep_view(done);
            }
            parts.push(done);
            cur = Vec::new();
            assert(parts.deep_view() =~= prev.push(done@));
        } else {
            cur.push(c);
        }
        i = i + 1;
    }
    assert(s@.subrange(0, s@.len() as int) =~= s@);
    let ghost prev = parts.deep_view();
    proof {
        lemma_bytes_deep_view(cur);
    }
    let ghost c = cur@;
    parts.push(cur);
    assert(parts.deep_view() =~= prev.push(c));
    parts
}

/// Relies on `String::from_utf8`: it accepts exactly the valid UTF-8 byte
/// sequences and then holds the characters they encode.
#[verifier::external_body]
pub(crate) fn utf8_string(bytes: Vec<u8>) -> (r: Option<String>)
    ensures
        match r {
            Some(s) => valid_utf8(bytes@) && s@ == decode_utf8(bytes@),
            None => !valid_utf8(bytes@),
        },
{
    String::from_utf8(bytes).ok()
}

pub open spec fn is_digit(c: char) -> bool {
    '0' <= c && c <= '9'
}

/// The number written by the decimal digits `ds`.
pub open spec fn digits_value(ds: Seq<char>) -> nat
    decreases ds.len(),
{
    if ds.len() == 0 {
        0
    } else {
        digits_value(ds.drop_last()) * 10 + ((ds.last() as u32) - 48) as nat
    }
}

/// The digits after an optional leading `+`.
pub open spec fn unsigned_digits(cs: Seq<char>) -> Seq<char> {
    if cs.len() > 0 && cs[0] == '+' {
        cs.drop_first()
    } else {
        cs
    }
}

/// What `usize::from_str` accepts: an optional `+`, then one or more decimal
/// digits whose value fits in a `usize`.
pub open spec fn parse_usize_spec(cs: Seq<char>) -> Option<usize> {
    let ds = unsigned_digits(cs);
    if ds.len() > 0 && (forall|i: int| 0 <= i < ds.len() ==> is_digit(#[trigger] ds[i]))
        && digits_value(ds) <= usize::MAX {
        Some(digits_value(ds) as usize)
    } else {
        None
    }
}

/// Relies on `usize::from_str`: an optional `+` and decimal digits, with
/// overflow rejected.
#[verifier::external_body]
pub(crate) fn parse_usize(s: &str) -> (r: Option<usize>)
    ensures
        r == parse_usize_spec(s@),
{
    s.parse::<usize>().ok()
}

/// The decimal digit for `d < 10`.
pub open spec fn digit_char(d: nat) -> char {
    (d + 48) as char
}

/// The decimal form of `n`, without leading zeros.
pub open spec fn decimal_chars(n: nat) -> Seq<char>
    decreases n,
{
    if n < 10 {
        seq![digit_char(n)]
    } else {
        decimal_chars(n / 10).push(digit_char(n % 10))
    }
}

/// Relies on `usize`'s `Display` through `to_string`: the decimal digits,
/// without sign or padding.
#[verifier::external_body]
pub(crate) fn decimal_string(n: usize) -> (r: String)
    ensures
        r@ == decimal_chars(n as nat),
{
    n.to_string()
}

} // verus!

verus! {

/// `p` occurs in `s` starting at `i`.
pub open spec fn occurs_at(s: Seq<char>, p: Seq<char>, i: int) -> bool {
    0 <= i && i + p.len() <= s.len() && s.subrange(i, i + p.len()) == p
}

/// `i` is where `p` first occurs in `s`.
pub open spec fn first_occurrence(s: Seq<char>, p: Seq<char>, i: int) -> bool {
    occurs_at(s, p, i) && forall|j: int| 0 <= j < i ==> !occurs_at(s, p, j)
}

/// The text after the first occurrence of `p` in `s`, if `p` occurs.
pub open spec fn after_first(s: Seq<char>, p: Seq<char>) -> Option<Seq<char>> {
    if exists|i: int| first_occurrence(s, p, i) {
        let i = choose|i: int| first_occurrence(s, p, i);
        Some(s.subrange(i + p.len(), s.len() as int))
    } else {
        None
    }
}

pub proof fn lemma_first_occurrence_unique(s: Seq<char>, p: Seq<char>, i: int, j: int)
    requires
        first_occurrence(s, p, i),
        first_occurrence(s, p, j),
    ensures
        i == j,
{
}

/// Relies on `str::split_once`: the text before and after the first
/// occurrence of `pat`, or `None` when `pat` does not occur.
#[verifier::external_body]
pub(crate) fn split_once(s: &str, pat: &str) -> (r: Option<(String, String)>)
    ensures
        match r {
            None => forall|i: int| !occurs_at(s@, pat@, i),
            Some((a, b)) => {
                &&& occurs_at(s@, pat@, a@.len() as int)
                &&& forall|j: int| 0 <= j < a@.len() ==> !occurs_at(s@, pat@, j)
                &&& a@ == s@.subrange(0, a@.len() as int)
                &&& b@ == s@.subrange((a@.len() + pat@.len()) as int, s@.len() as int)
            },
        },
{
    match s.split_once(pat) {
        None => None,
        Some((a, b)) => Some((a.to_owned(), b.to_owned())),
    }
}

} // verus!
