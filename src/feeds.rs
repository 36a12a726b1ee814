use vstd::arithmetic::power::{lemma_pow_adds, lemma_pow_increases, lemma_pow_positive, pow};
use vstd::prelude::*;
use vstd::string::StringSliceAdditionalSpecFns;
use vstd::utf8::encode_utf8;

use crate::arbitrage::PriceData;

verus! {

/// Decimal places of a price unit.
pub const PRICE_DECIMALS: usize = 8;

pub open spec fn is_digit(b: u8) -> bool {
    0x30 <= b <= 0x39
}

pub open spec fn all_digits(s: Seq<u8>) -> bool {
    forall|i: int| 0 <= i < s.len() ==> is_digit(#[trigger] s[i])
}

/// The number a string of decimal digits denotes.
pub open spec fn digits_value(s: Seq<u8>) -> nat
    decreases s.len(),
{
    if s.len() == 0 {
        0
    } else {
        digits_value(s.drop_last()) * 10 + (s.last() - 0x30) as nat
    }
}

/// Index of the first `.`, or the length where there is none.
pub open spec fn dot_index(s: Seq<u8>) -> int
    decreases s.len(),
{
    if s.len() == 0 {
        0
    } else if s[0] == 0x2e {
        0
    } else {
        1 + dot_index(s.drop_first())
    }
}

/// The fraction digits in price units: the first eight digits, padded
/// with zeros; later digits are dropped.
pub open spec fn fraction_units(frac: Seq<u8>) -> nat {
    if frac.len() >= PRICE_DECIMALS as nat {
        digits_value(frac.subrange(0, PRICE_DECIMALS as int))
    } else {
        digits_value(frac) * pow(10, (PRICE_DECIMALS as nat - frac.len()) as nat) as nat
    }
}

/// The price, in price units, that a decimal text such as `100.25` gives:
/// digits, then optionally a point and more digits; a value finer than a
/// price unit is rounded down. `None` for any other text.
pub open spec fn price_text_value(s: Seq<u8>) -> Option<nat> {
    let d = dot_index(s);
    let whole = s.subrange(0, d);
    let frac = if d < s.len() {
        s.subrange(d + 1, s.len() as int)
    } else {
        Seq::empty()
    };
    if whole.len() > 0 && all_digits(whole) && (d == s.len() || (frac.len() > 0 && all_digits(
        frac,
    ))) {
        Some(digits_value(whole) * pow(10, PRICE_DECIMALS as nat) as nat + fraction_units(frac))
    } else {
        None
    }
}

proof fn lemma_digits_step(s: Seq<u8>, lo: int, i: int)
    requires
        0 <= lo <= i < s.len(),
    ensures
        digits_value(s.subrange(lo, i + 1)) == digits_value(s.subrange(lo, i)) * 10 + (s[i]
            - 0x30) as nat,
{
    assert(s.subrange(lo, i + 1).drop_last() =~= s.subrange(lo, i));
}

proof fn lemma_digits_prefix_le(s: Seq<u8>, i: int)
    requires
        0 <= i <= s.len(),
        all_digits(s),
    ensures
        digits_value(s.subrange(0, i)) <= digits_value(s),
    decreases s.len(),
{
    if i < s.len() {
        assert(all_digits(s.drop_last()));
        lemma_digits_prefix_le(s.drop_last(), i);
        assert(s.drop_last().subrange(0, i) =~= s.subrange(0, i));
    } else {
        assert(s.subrange(0, i) =~= s);
    }
}

proof fn lemma_dot_index(s: Seq<u8>, i: int)
    requires
        0 <= i <= s.len(),
        forall|j: int| 0 <= j < i ==> s[j] != 0x2e,
        i == s.len() || s[i] == 0x2e,
    ensures
        dot_index(s) == i,
    decreases s.len(),
{
    if s.len() > 0 && i > 0 {
        lemma_dot_index(s.drop_first(), i - 1);
    }
}

proof fn lemma_pow10_step(e: nat)
    ensures
        pow(10, e + 1) == 10 * pow(10, e),
        pow(10, e) >= 1,
    decreases e,
{
    reveal(pow);
    if e > 0 {
        lemma_pow10_step((e - 1) as nat);
    }
}

/// The value of the digits `bytes[lo..hi]`, where they are all digits and
/// the value fits in `u64`.
fn read_digits(bytes: &[u8], lo: usize, hi: usize) -> (r: Option<u64>)
    requires
        lo <= hi <= bytes@.len(),
    ensures
        r == (if all_digits(bytes@.subrange(lo as int, hi as int)) && digits_value(
            bytes@.subrange(lo as int, hi as int),
        ) <= u64::MAX {
            Some(digits_value(bytes@.subrange(lo as int, hi as int)) as u64)
        } else {
            None
        }),
{
    let ghost s = bytes@.subrange(lo as int, hi as int);
    let mut acc: u64 = 0;
    let mut i: usize = lo;
    while i < hi
        invariant
            lo <= i <= hi <= bytes@.len(),
            s == bytes@.subrange(lo as int, hi as int),
            all_digits(bytes@.subrange(lo as int, i as int)),
            acc == digits_value(bytes@.subrange(lo as int, i as int)),
        decreases hi - i,
    {
        let b = bytes[i];
        if b < 0x30 || b > 0x39 {
            assert(!is_digit(s[i - lo]));
            return None;
        }
        proof {
            lemma_digits_step(bytes@, lo as int, i as int);
            assert(bytes@.subrange(lo as int, i + 1) =~= s.subrange(0, i + 1 - lo));
        }
        let next = match acc.checked_mul(10) {
            Some(m) => m.checked_add((b - 0x30) as u64),
            None => None,
        };
        match next {
            Some(v) => {
                acc = v;
            },
            None => {
                proof {
                    let t = bytes@.subrange(lo as int, i + 1);
                    assert(digits_value(t) > u64::MAX);
                    if all_digits(s) {
                        lemma_digits_prefix_le(s, i + 1 - lo);
                    }
                }
                return None;
            },
        }
        i = i + 1;
        assert(all_digits(bytes@.subrange(lo as int, i as int)));
    }
    assert(bytes@.subrange(lo as int, i as int) =~= s);
    Some(acc)
}

/// Whether `bytes[lo..hi]` are all digits.
fn check_digits(bytes: &[u8], lo: usize, hi: usize) -> (r: bool)
    requires
        lo <= hi <= bytes@.len(),
    ensures
        r == all_digits(bytes@.subrange(lo as int, hi as int)),
{
    let ghost s = bytes@.subrange(lo as int, hi as int);
    let mut i: usize = lo;
    while i < hi
        invariant
            lo <= i <= hi <= bytes@.len(),
            s == bytes@.subrange(lo as int, hi as int),
            forall|j: int| lo <= j < i ==> is_digit(bytes@[j]),
        decreases hi - i,
    {
        if bytes[i] < 0x30 || bytes[i] > 0x39 {
            assert(!is_digit(s[i - lo]));
            return false;
        }
        i = i + 1;
    }
    assert forall|j: int| 0 <= j < s.len() implies is_digit(#[trigger] s[j]) by {
        assert(s[j] == bytes@[lo + j]);
    }
    true
}

/// What `parse_price` returns for a text's bytes.
pub open spec fn parsed_price(s: Seq<u8>) -> Option<u64> {
    match price_text_value(s) {
        Some(v) => if v <= u64::MAX {
            Some(v as u64)
        } else {
            None
        },
        None => None,
    }
}

/// Reads a decimal price such as `100.25` into price units.
pub fn parse_price(text: &str) -> (r: Option<u64>)
    ensures
        r == parsed_price(text.spec_bytes()),
{
    let bytes = text.as_bytes();
    let ghost s = bytes@;
    let n = bytes.len();
    let mut d: usize = 0;
    while d < n && bytes[d] != 0x2e
        invariant
            d <= n == s.len(),
            bytes@ == s,
            forall|j: int| 0 <= j < d ==> s[j] != 0x2e,
        decreases n - d,
    {
        d = d + 1;
    }
    proof {
        lemma_dot_index(s, d as int);
    }
    if d == 0 {
        return None;
    }
    let whole = match read_digits(bytes, 0, d) {
        Some(v) => v,
        None => {
            proof {
                let w = s.subrange(0, d as int);
                if all_digits(w) {
                    assert(digits_value(w) > u64::MAX);
                    lemma_pow10_step(PRICE_DECIMALS as nat);
                    assert(digits_value(w) * pow(10, PRICE_DECIMALS as nat) >= digits_value(w))
                        by (nonlinear_arith)
                        requires
                            pow(10, PRICE_DECIMALS as nat) >= 1,
                    ;
                }
            }
            return None;
        },
    };
    let mut frac: u64 = 0;
    if d < n {
        if d + 1 == n || !check_digits(bytes, d + 1, n) {
            return None;
        }
        let k: usize = if n - (d + 1) >= PRICE_DECIMALS {
            PRICE_DECIMALS
        } else {
            n - (d + 1)
        };
        let ghost f = s.subrange(d + 1, n as int);
        assert(s.subrange(d + 1, (d + 1 + k) as int) =~= f.subrange(0, k as int));
        assert(all_digits(f.subrange(0, k as int)));
        proof {
            lemma_digits_below_pow(f.subrange(0, k as int));
            lemma_pow_increases(10, k as nat, PRICE_DECIMALS as nat);
            lemma_pow10_eight();
        }
        let v = match read_digits(bytes, d + 1, d + 1 + k) {
            Some(v) => v,
            None => {
                return None;
            },
        };
        let e: usize = PRICE_DECIMALS - k;
        let mut scale: u64 = 1;
        let mut j: usize = 0;
        proof {
            reveal(pow);
        }
        while j < e
            invariant
                j <= e <= PRICE_DECIMALS,
                scale == pow(10, j as nat),
            decreases e - j,
        {
            proof {
                lemma_pow10_step(j as nat);
                lemma_pow_increases(10, (j + 1) as nat, PRICE_DECIMALS as nat);
                lemma_pow10_eight();
            }
            scale = scale * 10;
            j = j + 1;
        }
        proof {
            lemma_pow_adds(10, k as nat, e as nat);
            lemma_pow_positive(10, e as nat);
            assert(v * scale < pow(10, k as nat) * pow(10, e as nat)) by (nonlinear_arith)
                requires
                    v < pow(10, k as nat),
                    scale == pow(10, e as nat),
                    scale > 0,
            ;
        }
        frac = v * scale;
        proof {
            assert(f.len() >= PRICE_DECIMALS as nat ==> k == PRICE_DECIMALS);
            if f.len() < PRICE_DECIMALS as nat {
                assert(f.subrange(0, k as int) =~= f);
            }
            assert(frac == fraction_units(f));
        }
    }
    proof {
        lemma_pow10_eight();
        if d == n {
            let e = Seq::<u8>::empty();
            assert(e.len() == 0);
            assert(digits_value(e) == 0);
            let p = pow(10, (PRICE_DECIMALS as nat - e.len()) as nat) as nat;
            let dv = digits_value(e);
            assert(dv * p == 0) by (nonlinear_arith)
                requires
                    dv == 0,
            ;
            assert(fraction_units(e) == 0);
        }
    }
    match whole.checked_mul(100_000_000) {
        Some(w) => match w.checked_add(frac) {
            Some(total) => Some(total),
            None => None,
        },
        None => None,
    }
}

proof fn lemma_pow10_eight()
    ensures
        pow(10, PRICE_DECIMALS as nat) == 100_000_000,
{
    reveal_with_fuel(pow, 9);
}

proof fn lemma_digits_below_pow(t: Seq<u8>)
    requires
        all_digits(t),
    ensures
        digits_value(t) < pow(10, t.len()),
    decreases t.len(),
{
    reveal(pow);
    if t.len() > 0 {
        assert(all_digits(t.drop_last()));
        lemma_digits_below_pow(t.drop_last());
        lemma_pow10_step((t.len() - 1) as nat);
        assert(is_digit(t[t.len() - 1]));
        let p = pow(10, (t.len() - 1) as nat);
        let dv = digits_value(t.drop_last());
        let dg = (t.last() - 0x30) as nat;
        assert(dv * 10 + dg < 10 * p) by (nonlinear_arith)
            requires
                dv < p,
                dg <= 9,
        ;
        assert(t.len() as nat == ((t.len() - 1) as nat + 1) as nat);
    }
}

/// What `parse_price` returns for a text.
pub open spec fn text_price(text: Seq<char>) -> Option<u64> {
    parsed_price(encode_utf8(text))
}

/// A message of a venue's order-book feed, as its adapter classified it.
pub enum FeedMessage {
    /// A subscription acknowledgement, a ping or another message without prices.
    Control,
    /// A book update: the texts of the best bid and the best ask, where present.
    Book { bid: Option<String>, ask: Option<String> },
}

/// The price sample a message gives: both sides present and well formed.
pub open spec fn message_price(msg: FeedMessage) -> Option<PriceData> {
    match msg {
        FeedMessage::Book { bid: Some(b), ask: Some(a) } => match (text_price(b@), text_price(a@)) {
            (Some(pb), Some(pa)) => Some(PriceData { bid: pb, ask: pa }),
            _ => None,
        },
        _ => None,
    }
}

/// The price sample to publish for a feed message; control messages and
/// malformed books give none.
pub fn price_from_message(msg: &FeedMessage) -> (r: Option<PriceData>)
    ensures
        r == message_price(*msg),
{
    match msg {
        FeedMessage::Book { bid: Some(b), ask: Some(a) } => {
            let pb = parse_price(b.as_str());
            let pa = parse_price(a.as_str());
            match (pb, pa) {
                (Some(bid), Some(ask)) => Some(PriceData { bid, ask }),
                _ => None,
            }
        },
        _ => None,
    }
}

/// Lets a price through only when it differs from the last one let through.
pub struct FeedFilter {
    pub last: Option<PriceData>,
}

impl FeedFilter {
    pub fn new() -> (r: FeedFilter)
        ensures
            r.last is None,
    {
        FeedFilter { last: None }
    }

    /// Whether `p` is news; it is the last price from then on.
    pub fn accept(&mut self, p: PriceData) -> (r: bool)
        ensures
            r == (old(self).last != Some(p)),
            final(self).last == Some(p),
    {
        let fresh = match self.last {
            Some(q) => q != p,
            None => true,
        };
        self.last = Some(p);
        fresh
    }
}

} // verus!
