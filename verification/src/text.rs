//! Free-text command tokenisation.
//!
//! Game input is the raw chat line; each variant classifies the first
//! whitespace-delimited token case-insensitively. The grammar is stated over
//! the UTF-8 bytes of the message so that the token functions have exact
//! contracts.
use vstd::prelude::*;

verus! {

/// ASCII whitespace, the separators the grammar recognises.
pub open spec fn is_space(b: u8) -> bool {
    b == 32 || b == 9 || b == 10 || b == 13
}

/// ASCII lower-casing of a single byte.
pub open spec fn lower(b: u8) -> u8 {
    if 65 <= b <= 90 {
        (b + 32) as u8
    } else {
        b
    }
}

/// Index of the first non-space byte at or after `i`, or the length if all
/// remaining bytes are spaces.
pub open spec fn skip_spaces(s: Seq<u8>, i: int) -> int
    decreases s.len() - i,
{
    if i < 0 || i >= s.len() {
        s.len() as int
    } else if is_space(s[i]) {
        skip_spaces(s, i + 1)
    } else {
        i
    }
}

/// Index of the first space byte at or after `i`, or the length.
pub open spec fn token_end(s: Seq<u8>, i: int) -> int
    decreases s.len() - i,
{
    if i < 0 || i >= s.len() {
        s.len() as int
    } else if is_space(s[i]) {
        i
    } else {
        token_end(s, i + 1)
    }
}

/// The `n`-th whitespace-delimited token of `s`, lower-cased; empty when
/// there are not that many tokens.
pub open spec fn nth_token(s: Seq<u8>, n: nat) -> Seq<u8>
    decreases n,
{
    let start = skip_spaces(s, 0);
    let end = token_end(s, start);
    if n == 0 {
        s.subrange(start, end).map_values(|b: u8| lower(b))
    } else {
        nth_token(s.subrange(end, s.len() as int), (n - 1) as nat)
    }
}

proof fn lemma_skip_spaces_bounds(s: Seq<u8>, i: int)
    requires
        0 <= i <= s.len(),
    ensures
        i <= skip_spaces(s, i) <= s.len(),
        skip_spaces(s, i) < s.len() ==> !is_space(s[skip_spaces(s, i)]),
        forall|k: int| i <= k < skip_spaces(s, i) ==> is_space(s[k]),
    decreases s.len() - i,
{
    if i < s.len() && is_space(s[i]) {
        lemma_skip_spaces_bounds(s, i + 1);
    }
}

proof fn lemma_token_end_bounds(s: Seq<u8>, i: int)
    requires
        0 <= i <= s.len(),
    ensures
        i <= token_end(s, i) <= s.len(),
        token_end(s, i) < s.len() ==> is_space(s[token_end(s, i)]),
        forall|k: int| i <= k < token_end(s, i) ==> !is_space(s[k]),
    decreases s.len() - i,
{
    if i < s.len() && !is_space(s[i]) {
        lemma_token_end_bounds(s, i + 1);
    }
}

fn exec_is_space(b: u8) -> (r: bool)
    ensures
        r == is_space(b),
{
    b == 32 || b == 9 || b == 10 || b == 13
}

fn exec_lower(b: u8) -> (r: u8)
    ensures
        r == lower(b),
{
    if 65 <= b && b <= 90 {
        b + 32
    } else {
        b
    }
}

/// Extract the first token of `bytes` starting at position `from`, returning
/// the lower-cased token and the index just past it.
fn token_from(bytes: &Vec<u8>, from: usize) -> (r: (Vec<u8>, usize))
    requires
        from <= bytes@.len(),
    ensures
        ({
            let sub = bytes@.subrange(from as int, bytes@.len() as int);
            let start = skip_spaces(sub, 0);
            let end = token_end(sub, start);
            &&& r.0@ == sub.subrange(start, end).map_values(|b: u8| lower(b))
            &&& from + end == r.1
            &&& from <= r.1 <= bytes@.len()
        }),
{
    let ghost sub = bytes@.subrange(from as int, bytes@.len() as int);
    let mut i: usize = from;
    proof {
        lemma_skip_spaces_bounds(sub, 0);
    }
    while i < bytes.len() && exec_is_space(bytes[i])
        invariant
            from <= i <= bytes@.len(),
            sub == bytes@.subrange(from as int, bytes@.len() as int),
            forall|k: int| 0 <= k < i - from ==> is_space(sub[k]),
            i - from <= skip_spaces(sub, 0),
        decreases bytes@.len() - i,
    {
        proof {
            lemma_skip_spaces_bounds(sub, 0);
            assert(sub[i - from] == bytes@[i as int]);
        }
        i = i + 1;
    }
    proof {
        lemma_skip_spaces_bounds(sub, 0);
        if i - from < sub.len() {
            assert(sub[i - from] == bytes@[i as int]);
            assert(!is_space(sub[i - from]));
        }
        assert(i - from == skip_spaces(sub, 0));
    }
    let ghost start = skip_spaces(sub, 0);
    let ghost end = token_end(sub, start);
    proof {
        lemma_skip_spaces_bounds(sub, 0);
        lemma_token_end_bounds(sub, start);
    }
    let mut tok: Vec<u8> = Vec::new();
    while i < bytes.len() && !exec_is_space(bytes[i])
        invariant
            from <= i <= bytes@.len(),
            sub == bytes@.subrange(from as int, bytes@.len() as int),
            start == skip_spaces(sub, 0),
            end == token_end(sub, start),
            0 <= start <= end <= sub.len(),
            start + from <= i,
            i - from <= end,
            tok@ == sub.subrange(start, i - from).map_values(|b: u8| lower(b)),
        decreases bytes@.len() - i,
    {
        proof {
            lemma_token_end_bounds(sub, start);
            assert(sub[i - from] == bytes@[i as int]);
            assert(!is_space(sub[i - from]));
            if i - from == end {
                assert(end < sub.len());
                assert(is_space(sub[end]));
            }
            assert(i - from < end);
        }
        let b = exec_lower(bytes[i]);
        tok.push(b);
        proof {
            assert(sub.subrange(start, i + 1 - from) == sub.subrange(start, i - from).push(
                sub[i - from],
            ));
            assert(tok@ == sub.subrange(start, i + 1 - from).map_values(|x: u8| lower(x)));
        }
        i = i + 1;
    }
    proof {
        lemma_token_end_bounds(sub, start);
        if i - from < end {
            assert(sub[i - from] == bytes@[i as int]);
            assert(!is_space(sub[i - from]));
        }
        assert(i - from == end);
        assert(tok@ == sub.subrange(start, end).map_values(|b: u8| lower(b)));
    }
    (tok, i)
}

/// First whitespace-delimited token of the message, lower-cased.
pub fn first_token(bytes: &Vec<u8>) -> (tok: Vec<u8>)
    ensures
        tok@ == nth_token(bytes@, 0),
{
    proof {
        assert(bytes@.subrange(0, bytes@.len() as int) == bytes@);
    }
    let (tok, _) = token_from(bytes, 0);
    tok
}

/// Second whitespace-delimited token of the message, lower-cased; empty when
/// the message has fewer than two tokens.
pub fn second_token(bytes: &Vec<u8>) -> (tok: Vec<u8>)
    ensures
        tok@ == nth_token(bytes@, 1),
{
    proof {
        assert(bytes@.subrange(0, bytes@.len() as int) == bytes@);
    }
    let (_, next) = token_from(bytes, 0);
    let (tok, _) = token_from(bytes, next);
    proof {
        reveal_with_fuel(nth_token, 3);
        let sub0 = bytes@.subrange(0, bytes@.len() as int);
        let rest = bytes@.subrange(next as int, bytes@.len() as int);
        assert(sub0 == bytes@);
        assert(rest == sub0.subrange(
            token_end(sub0, skip_spaces(sub0, 0)),
            sub0.len() as int,
        ));
    }
    tok
}

/// Numeric value of a token of ASCII digits: `None` when the token is empty,
/// holds a non-digit, or overflows 64 bits.
pub open spec fn digits_value(t: Seq<u8>) -> Option<u64>
    decreases t.len(),
{
    if t.len() == 0 {
        Option::None
    } else if !(48 <= t.last() <= 57) {
        Option::None
    } else if t.len() == 1 {
        Option::Some((t.last() - 48) as u64)
    } else {
        match digits_value(t.drop_last()) {
            Option::None => Option::None,
            Option::Some(hi) => if hi <= (u64::MAX - (t.last() - 48)) / 10 {
                Option::Some((hi * 10 + (t.last() - 48)) as u64)
            } else {
                Option::None
            },
        }
    }
}

/// Parse a token as a base-ten number, exactly when every byte is an ASCII
/// digit and the value fits in 64 bits.
pub fn parse_u64(t: &Vec<u8>) -> (r: Option<u64>)
    ensures
        r == digits_value(t@),
{
    if t.len() == 0 {
        return None;
    }
    let mut acc: u64 = 0;
    let mut i: usize = 0;
    while i < t.len()
        invariant
            0 <= i <= t@.len(),
            t@.len() > 0,
            i > 0 ==> digits_value(t@.subrange(0, i as int)) == Option::<u64>::Some(acc),
            i == 0 ==> acc == 0,
        decreases t@.len() - i,
    {
        let b = t[i];
        if !(48 <= b && b <= 57) {
            proof {
                assert(t@.subrange(0, i + 1).last() == t@[i as int]);
                lemma_digits_prefix_none(t@, i + 1);
            }
            return None;
        }
        let d = (b - 48) as u64;
        if i == 0 {
            acc = d;
        } else {
            if acc <= (u64::MAX - d) / 10 {
                acc = acc * 10 + d;
            } else {
                proof {
                    assert(t@.subrange(0, i + 1).drop_last() == t@.subrange(0, i as int));
                    assert(t@.subrange(0, i + 1).last() == t@[i as int]);
                    lemma_digits_prefix_none(t@, i + 1);
                }
                return None;
            }
        }
        proof {
            assert(t@.subrange(0, i + 1).drop_last() == t@.subrange(0, i as int));
            assert(t@.subrange(0, i + 1).last() == t@[i as int]);
        }
        i = i + 1;
    }
    proof {
        assert(t@.subrange(0, t@.len() as int) == t@);
    }
    Some(acc)
}

pub open spec fn kw_all() -> Seq<u8> {
    seq![97u8, 108u8, 108u8]
}

pub open spec fn kw_half() -> Seq<u8> {
    seq![104u8, 97u8, 108u8, 102u8]
}

/// Addition clipped to the 64-bit ceiling (mirrors the store's clipping).
pub open spec fn clip64(v: int) -> u64 {
    if v <= u64::MAX {
        v as u64
    } else {
        u64::MAX
    }
}

/// The bet grammar shared by the wager commands: `all` and `half` of the
/// balance, a `k` or `m` suffix for thousands and millions (an unreadable
/// prefix defaults to five), else a plain number; anything else is no bet.
pub open spec fn spec_bet_amount(t: Seq<u8>, balance: u64) -> Option<u64> {
    if t == kw_all() {
        Option::Some(balance)
    } else if t == kw_half() {
        Option::Some((balance / 2) as u64)
    } else if t.len() > 0 && t.last() == 107 {
        Option::Some(
            clip64(
                1000 * (match digits_value(t.drop_last()) {
                    Option::Some(v) => v as int,
                    Option::None => 5,
                }),
            ),
        )
    } else if t.len() > 0 && t.last() == 109 {
        Option::Some(
            clip64(
                1000000 * (match digits_value(t.drop_last()) {
                    Option::Some(v) => v as int,
                    Option::None => 5,
                }),
            ),
        )
    } else {
        digits_value(t)
    }
}

/// Parse a lower-cased bet token against the caller's balance.
pub fn parse_bet_amount(t: &Vec<u8>, balance: u64) -> (r: Option<u64>)
    ensures
        r == spec_bet_amount(t@, balance),
{
    let n = t.len();
    if n == 3 && t[0] == 97 && t[1] == 108 && t[2] == 108 {
        proof {
            assert(t@ =~= kw_all());
        }
        return Some(balance);
    }
    if n == 4 && t[0] == 104 && t[1] == 97 && t[2] == 108 && t[3] == 102 {
        proof {
            assert(t@ =~= kw_half());
        }
        return Some(balance / 2);
    }
    proof {
        assert(t@ != kw_all() && t@ != kw_half());
    }
    if n > 0 && (t[n - 1] == 107 || t[n - 1] == 109) {
        let unit: u64 = if t[n - 1] == 107 {
            1000
        } else {
            1000000
        };
        let mut prefix: Vec<u8> = Vec::new();
        let mut i: usize = 0;
        while i < n - 1
            invariant
                n == t@.len(),
                n > 0,
                i <= n - 1,
                prefix@ == t@.subrange(0, i as int),
            decreases n - 1 - i,
        {
            prefix.push(t[i]);
            proof {
                assert(t@.subrange(0, i + 1) == t@.subrange(0, i as int).push(t@[i as int]));
            }
            i = i + 1;
        }
        proof {
            assert(prefix@ =~= t@.drop_last());
        }
        let base = match parse_u64(&prefix) {
            Some(v) => v,
            None => 5,
        };
        let amount = if base <= u64::MAX / unit {
            base * unit
        } else {
            u64::MAX
        };
        proof {
            assert(unit * base == base * unit) by (nonlinear_arith);
            if base <= u64::MAX / unit {
                assert(base * unit <= (u64::MAX / unit) * unit <= u64::MAX)
                    by (nonlinear_arith)
                    requires
                        0 <= base <= u64::MAX / unit,
                        unit == 1000 || unit == 1000000,
                {}
            } else {
                assert(base * unit > u64::MAX) by (nonlinear_arith)
                    requires
                        base > u64::MAX / unit,
                        unit == 1000 || unit == 1000000,
                {}
            }
        }
        return Some(amount);
    }
    parse_u64(t)
}

/// Once a non-empty prefix fails to parse, every extension fails as well.
proof fn lemma_digits_prefix_none(t: Seq<u8>, i: int)
    requires
        1 <= i <= t.len(),
        digits_value(t.subrange(0, i)) is None,
    ensures
        digits_value(t) is None,
    decreases t.len() - i,
{
    if i < t.len() {
        assert(t.subrange(0, i + 1).drop_last() == t.subrange(0, i));
        assert(t.subrange(0, i + 1).last() == t[i]);
        lemma_digits_prefix_none(t, i + 1);
    } else {
        assert(t.subrange(0, i) == t);
    }
}

} // verus!
