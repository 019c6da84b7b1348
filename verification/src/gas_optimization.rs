//! Gas-saving helpers of the program escrow: fee, subtraction and clamp
//! arithmetic, pause and maintenance flags packed into one word per key,
//! duplicate detection and removal for program ids, and batch processing.
use vstd::prelude::*;
use crate::math::{in_i128, trunc_div};
use crate::types::Symbol;
use crate::keyed::{KeyedU64, kget};
use vstd::utf8::encode_utf8;

verus! {

/// The fee numerator `amount * rate + basis - 1`.
pub open spec fn fee_numerator(amount: i128, rate: i128, basis: i128) -> int {
    amount * rate + basis - 1
}

/// The fee on `amount` at `rate` per `basis`: 0 for a zero rate or amount,
/// else the fee numerator divided by `basis` rounding toward zero (for
/// positive values, `amount * rate / basis` rounded up).
pub open spec fn fee(amount: i128, rate: i128, basis: i128) -> int {
    if rate == 0 || amount == 0 {
        0
    } else {
        trunc_div(fee_numerator(amount, rate, basis), basis as int)
    }
}

/// Whether the fee can be computed in `i128`: with a non-zero rate and
/// amount, the basis is not 0, the product, `basis - 1`, the numerator and
/// the quotient all fit.
pub open spec fn fee_computable(amount: i128, rate: i128, basis: i128) -> bool {
    (rate != 0 && amount != 0) ==> {
        &&& basis != 0
        &&& in_i128(amount * rate)
        &&& basis > i128::MIN
        &&& in_i128(fee_numerator(amount, rate, basis))
        &&& !(basis == -1 && fee_numerator(amount, rate, basis) == i128::MIN)
    }
}

/// Fee with ceiling division, so that small amounts cannot avoid the fee.
/// `None` when the fee cannot be computed in `i128` (an overflow or a zero
/// basis): the fee is then signalled as unavailable, never waived.
pub fn calculate_fee(amount: i128, fee_rate_bps: i128, basis_points: i128) -> (r: Option<i128>)
    ensures
        r is Some <==> fee_computable(amount, fee_rate_bps, basis_points),
        r matches Some(f) ==> f == fee(amount, fee_rate_bps, basis_points),
{
    if fee_rate_bps == 0 || amount == 0 {
        return Some(0);
    }
    let product: i128 = match amount.checked_mul(fee_rate_bps) {
        Some(x) => x,
        None => {
            return None;
        },
    };
    let offset: i128 = match basis_points.checked_sub(1) {
        Some(x) => x,
        None => {
            return None;
        },
    };
    let numerator: i128 = match product.checked_add(offset) {
        Some(x) => x,
        None => {
            return None;
        },
    };
    if basis_points != 0 && !(basis_points == -1 && numerator == i128::MIN) {
        proof {
            lemma_trunc_div_in_range(numerator as int, basis_points as int);
        }
    }
    numerator.checked_div(basis_points)
}

/// Dividing a representable value rounding toward zero stays representable,
/// except for `i128::MIN / -1`.
proof fn lemma_trunc_div_in_range(x: int, d: int)
    requires
        in_i128(x),
        d != 0,
        !(x == i128::MIN && d == -1),
    ensures
        in_i128(trunc_div(x, d)),
{
    if x > 0 && d > 0 {
        assert(0 <= x / d <= x) by (nonlinear_arith)
            requires
                x > 0,
                d > 0,
        ;
    } else if x < 0 && d < 0 {
        let a = x * -1;
        let b = d * -1;
        assert(0 <= a / b <= a) by (nonlinear_arith)
            requires
                a > 0,
                b > 0,
        ;
        if x == i128::MIN {
            assert(b >= 2);
            assert(a / b <= a / 2) by (nonlinear_arith)
                requires
                    a > 0,
                    b >= 2,
            ;
        }
    } else if x < 0 {
        let a = x * -1;
        assert(0 <= a / d <= a) by (nonlinear_arith)
            requires
                a > 0,
                d > 0,
        ;
    } else if x > 0 {
        let b = d * -1;
        assert(0 <= x / b <= x) by (nonlinear_arith)
            requires
                x > 0,
                b > 0,
        ;
    }
}

/// For positive amounts, rates and bases, a computed fee is the ceiling of
/// `amount * rate / basis`: the smallest fee whose `basis` multiple covers
/// `amount * rate`, so no fee is lost to rounding; `calculate_fee` returns
/// no other fee.
pub proof fn law_fee_is_ceiling(amount: i128, rate: i128, basis: i128)
    requires
        amount > 0,
        rate > 0,
        basis > 0,
        fee_computable(amount, rate, basis),
    ensures
        fee(amount, rate, basis) * basis >= amount * rate,
        (fee(amount, rate, basis) - 1) * basis < amount * rate,
{
    let p = amount * rate;
    assert(p > 0) by (nonlinear_arith)
        requires
            amount > 0,
            rate > 0,
            p == amount * rate,
    ;
    let n = p + basis - 1;
    let b = basis as int;
    let q = n / b;
    assert(fee(amount, rate, basis) == q);
    vstd::arithmetic::div_mod::lemma_fundamental_div_mod(n, b);
    vstd::arithmetic::div_mod::lemma_mod_bound(n, b);
    assert(q * b >= p && (q - 1) * b < p) by (nonlinear_arith)
        requires
            n == b * q + n % b,
            0 <= n % b < b,
            n == p + b - 1,
            b > 0,
    ;
}

/// `a - b` when it is representable and not negative, else 0.
pub open spec fn sub_floor_zero(a: i128, b: i128) -> int {
    if in_i128(a - b) && a - b >= 0 {
        a - b
    } else {
        0
    }
}

/// Subtraction that yields 0 instead of going below zero or overflowing.
pub fn safe_sub_zero(a: i128, b: i128) -> (r: i128)
    ensures
        r == sub_floor_zero(a, b),
{
    match a.checked_sub(b) {
        Some(d) => if d >= 0 {
            d
        } else {
            0
        },
        None => 0,
    }
}

/// `value` clamped to `min` from below, then to `max` from above.
pub fn clamp(value: i128, min: i128, max: i128) -> (r: i128)
    ensures
        r == (if value < min {
            min
        } else if value > max {
            max
        } else {
            value
        }),
{
    if value < min {
        min
    } else if value > max {
        max
    } else {
        value
    }
}

/// Bit of the lock pause flag.
pub const PAUSE_LOCK: u32 = 1;

/// Bit of the release pause flag.
pub const PAUSE_RELEASE: u32 = 2;

/// Bit of the refund pause flag.
pub const PAUSE_REFUND: u32 = 4;

/// Bit of the maintenance-mode flag.
pub const MAINTENANCE_MODE: u32 = 8;

/// The word holding the three pause flags (maintenance mode off).
pub open spec fn pack_pause(lock: bool, release: bool, refund: bool) -> u32 {
    (if lock {
        PAUSE_LOCK
    } else {
        0u32
    }) | (if release {
        PAUSE_RELEASE
    } else {
        0u32
    }) | (if refund {
        PAUSE_REFUND
    } else {
        0u32
    })
}

/// The three pause flags held in a word.
pub open spec fn unpack_pause(w: u32) -> (bool, bool, bool) {
    (w & PAUSE_LOCK != 0, w & PAUSE_RELEASE != 0, w & PAUSE_REFUND != 0)
}

/// The word with the maintenance bit set or cleared.
pub open spec fn with_maintenance(w: u32, enabled: bool) -> u32 {
    if enabled {
        w | MAINTENANCE_MODE
    } else {
        w & !MAINTENANCE_MODE
    }
}

/// Flag words stored per key, keyed by the symbol's code.
#[derive(Debug)]
pub struct PackedFlags {
    pub words: KeyedU64<u32>,
}

/// The word stored under `key` (0 when none).
pub open spec fn word_of(f: &PackedFlags, key: Symbol) -> u32 {
    match kget(f.words.entries@, key.code) {
        Some(w) => w,
        None => 0u32,
    }
}

/// Only the word under `key` changed, to `w`.
pub open spec fn word_set(f1: &PackedFlags, f2: &PackedFlags, key: Symbol, w: u32) -> bool {
    &&& kget(f2.words.entries@, key.code) == Some(w)
    &&& forall|o: u64| o != key.code ==> #[trigger] kget(f2.words.entries@, o) == kget(f1.words.entries@, o)
}

impl PackedFlags {
    /// No flags stored.
    pub fn new() -> (f: Self)
        ensures
            forall|k: Symbol| word_of(&f, k) == 0,
    {
        PackedFlags { words: KeyedU64::new() }
    }

    /// Stores the three pause flags under `key` in one word; this also
    /// clears maintenance mode under `key`.
    pub fn set_pause_flags(&mut self, key: Symbol, lock: bool, release: bool, refund: bool)
        ensures
            word_set(old(self), final(self), key, pack_pause(lock, release, refund)),
    {
        let l: u32 = if lock {
            PAUSE_LOCK
        } else {
            0
        };
        let r: u32 = if release {
            PAUSE_RELEASE
        } else {
            0
        };
        let f: u32 = if refund {
            PAUSE_REFUND
        } else {
            0
        };
        let packed: u32 = l | r | f;
        self.words.set(key.code, packed);
    }

    /// The lock, release and refund pause flags under `key` (all off when
    /// nothing is stored).
    pub fn get_pause_flags(&self, key: Symbol) -> (r: (bool, bool, bool))
        ensures
            r == unpack_pause(word_of(self, key)),
    {
        let packed: u32 = match self.words.get(key.code) {
            Some(w) => w,
            None => 0,
        };
        (packed & PAUSE_LOCK != 0, packed & PAUSE_RELEASE != 0, packed & PAUSE_REFUND != 0)
    }

    /// Turns maintenance mode under `key` on or off, keeping the pause
    /// flags.
    pub fn set_maintenance_mode(&mut self, key: Symbol, enabled: bool)
        ensures
            word_set(old(self), final(self), key, with_maintenance(word_of(old(self), key), enabled)),
    {
        let mut packed: u32 = match self.words.get(key.code) {
            Some(w) => w,
            None => 0,
        };
        if enabled {
            packed = packed | MAINTENANCE_MODE;
        } else {
            packed = packed & !MAINTENANCE_MODE;
        }
        self.words.set(key.code, packed);
    }

    /// Whether maintenance mode is on under `key`.
    pub fn is_maintenance_mode(&self, key: Symbol) -> (r: bool)
        ensures
            r == (word_of(self, key) & MAINTENANCE_MODE != 0),
    {
        let packed: u32 = match self.words.get(key.code) {
            Some(w) => w,
            None => 0,
        };
        packed & MAINTENANCE_MODE != 0
    }
}

/// Reading the pause flags gives back the flags last stored, and storing
/// them leaves maintenance mode off.
pub proof fn law_pause_flags_round_trip(lock: bool, release: bool, refund: bool)
    ensures
        unpack_pause(pack_pause(lock, release, refund)) == (lock, release, refund),
        pack_pause(lock, release, refund) & MAINTENANCE_MODE == 0,
{
    let w = pack_pause(lock, release, refund);
    assert((w & 1u32 != 0) == lock && (w & 2u32 != 0) == release && (w & 4u32 != 0) == refund && w & 8u32 == 0)
        by (bit_vector)
        requires
            w == ((if lock {
                1u32
            } else {
                0u32
            }) | (if release {
                2u32
            } else {
                0u32
            }) | (if refund {
                4u32
            } else {
                0u32
            })),
    ;
}

/// Switching maintenance mode sets exactly that flag and keeps the pause
/// flags.
pub proof fn law_maintenance_keeps_pause_flags(w: u32, enabled: bool)
    ensures
        unpack_pause(with_maintenance(w, enabled)) == unpack_pause(w),
        (with_maintenance(w, enabled) & MAINTENANCE_MODE != 0) == enabled,
{
    let x = with_maintenance(w, enabled);
    assert((x & 1u32 != 0) == (w & 1u32 != 0) && (x & 2u32 != 0) == (w & 2u32 != 0) && (x & 4u32 != 0) == (w
        & 4u32 != 0) && (x & 8u32 != 0) == enabled) by (bit_vector)
        requires
            x == (if enabled {
                w | 8u32
            } else {
                w & !8u32
            }),
    ;
}

/// The character sequences of a sequence of strings.
pub open spec fn views(v: Seq<String>) -> Seq<Seq<char>> {
    v.map_values(|s: String| s@)
}

/// Whether two entries of `v` hold the same text.
pub open spec fn has_repeat(v: Seq<Seq<char>>) -> bool {
    exists|i: int, j: int| 0 <= i < j < v.len() && v[i] == v[j]
}

/// Whether some id occurs twice, comparing every pair.
pub fn has_duplicates(items: &Vec<String>) -> (r: bool)
    ensures
        r == has_repeat(views(items@)),
{
    let ghost v = views(items@);
    let len: usize = items.len();
    if len <= 1 {
        return false;
    }
    let mut i: usize = 0;
    while i < len
        invariant
            len == items@.len(),
            v == views(items@),
            0 <= i <= len,
            forall|a: int, b: int| 0 <= a < i && a < b < len ==> v[a] != v[b],
        decreases len - i,
    {
        let mut j: usize = i + 1;
        while j < len
            invariant
                len == items@.len(),
                v == views(items@),
                0 <= i < len,
                i + 1 <= j <= len,
                forall|a: int, b: int| 0 <= a < i && a < b < len ==> v[a] != v[b],
                forall|b: int| i < b < j ==> v[i as int] != v[b],
            decreases len - j,
        {
            if items[i] == items[j] {
                assert(v[i as int] == v[j as int]);
                return true;
            }
            j = j + 1;
        }
        i = i + 1;
    }
    false
}

/// Lexicographic order of byte strings: the first differing byte decides,
/// and a proper prefix comes first.
pub open spec fn bytes_lt(a: Seq<u8>, b: Seq<u8>) -> bool
    decreases a.len(),
{
    if a.len() == 0 {
        b.len() > 0
    } else if b.len() == 0 {
        false
    } else if a[0] < b[0] {
        true
    } else if a[0] == b[0] {
        bytes_lt(a.drop_first(), b.drop_first())
    } else {
        false
    }
}

/// The order of `String`: lexicographic by the bytes of the texts' UTF-8
/// encodings, which is how std documents `Ord` for `str` and `String`.
pub open spec fn lex_lt(a: Seq<char>, b: Seq<char>) -> bool {
    bytes_lt(encode_utf8(a), encode_utf8(b))
}

proof fn lemma_bytes_irreflexive(a: Seq<u8>)
    ensures
        !bytes_lt(a, a),
    decreases a.len(),
{
    if a.len() > 0 {
        lemma_bytes_irreflexive(a.drop_first());
    }
}

proof fn lemma_bytes_transitive(a: Seq<u8>, b: Seq<u8>, c: Seq<u8>)
    requires
        bytes_lt(a, b),
        bytes_lt(b, c),
    ensures
        bytes_lt(a, c),
    decreases a.len(),
{
    if a.len() > 0 && b.len() > 0 && c.len() > 0 && a[0] == b[0] && b[0] == c[0] {
        lemma_bytes_transitive(a.drop_first(), b.drop_first(), c.drop_first());
    }
}

proof fn lemma_bytes_total(a: Seq<u8>, b: Seq<u8>)
    requires
        a != b,
    ensures
        bytes_lt(a, b) || bytes_lt(b, a),
    decreases a.len(),
{
    if a.len() > 0 && b.len() > 0 && a[0] == b[0] {
        if a.drop_first() == b.drop_first() {
            assert(a =~= seq![a[0]] + a.drop_first());
            assert(b =~= seq![b[0]] + b.drop_first());
        }
        lemma_bytes_total(a.drop_first(), b.drop_first());
    } else if a.len() == 0 && b.len() == 0 {
        assert(a =~= b);
    }
}

/// No text is below itself.
pub proof fn lemma_lex_irreflexive(a: Seq<char>)
    ensures
        !lex_lt(a, a),
{
    lemma_bytes_irreflexive(encode_utf8(a));
}

/// The order is transitive.
pub proof fn lemma_lex_transitive(a: Seq<char>, b: Seq<char>, c: Seq<char>)
    requires
        lex_lt(a, b),
        lex_lt(b, c),
    ensures
        lex_lt(a, c),
{
    lemma_bytes_transitive(encode_utf8(a), encode_utf8(b), encode_utf8(c));
}

/// Two different texts are ordered one way or the other: their encodings
/// differ, since decoding gives each text back.
pub proof fn lemma_lex_total(a: Seq<char>, b: Seq<char>)
    requires
        a != b,
    ensures
        lex_lt(a, b) || lex_lt(b, a),
{
    vstd::utf8::encode_utf8_decode_utf8(a);
    vstd::utf8::encode_utf8_decode_utf8(b);
    lemma_bytes_total(encode_utf8(a), encode_utf8(b));
}

/// Whether `a` sorts before `b`, comparing their UTF-8 bytes.
fn str_less(a: &String, b: &String) -> (r: bool)
    ensures
        r == lex_lt(a@, b@),
{
    let sa = a.as_str();
    let sb = b.as_str();
    let ba: &[u8] = sa.as_bytes();
    let bb: &[u8] = sb.as_bytes();
    let ghost ea = encode_utf8(a@);
    let ghost eb = encode_utf8(b@);
    assert(ba@ == ea && bb@ == eb);
    let la: usize = ba.len();
    let lb: usize = bb.len();
    let mut i: usize = 0;
    assert(ea.skip(0) =~= ea && eb.skip(0) =~= eb);
    while i < la && i < lb
        invariant
            ea == encode_utf8(a@),
            eb == encode_utf8(b@),
            la == ea.len(),
            lb == eb.len(),
            ba@ == ea,
            bb@ == eb,
            0 <= i <= la,
            i <= lb,
            bytes_lt(ea, eb) == bytes_lt(ea.skip(i as int), eb.skip(i as int)),
        decreases la - i,
    {
        let ca: u8 = ba[i];
        let cb: u8 = bb[i];
        let ghost ra = ea.skip(i as int);
        let ghost rb = eb.skip(i as int);
        assert(ra[0] == ca && rb[0] == cb);
        if ca < cb {
            return true;
        }
        if ca != cb {
            return false;
        }
        assert(ra.drop_first() =~= ea.skip(i + 1));
        assert(rb.drop_first() =~= eb.skip(i + 1));
        i = i + 1;
    }
    assert(ea.skip(i as int).len() == la - i);
    lb > i && la == i
}

proof fn lemma_contains_push(s: Seq<Seq<char>>, v: Seq<char>, x: Seq<char>)
    ensures
        s.push(v).contains(x) <==> (s.contains(x) || x == v),
{
    let t = s.push(v);
    if t.contains(x) {
        let i = choose|i: int| 0 <= i < t.len() && t[i] == x;
        if i < s.len() {
            assert(s[i] == x);
        }
    }
    if s.contains(x) {
        let i = choose|i: int| 0 <= i < s.len() && s[i] == x;
        assert(t[i] == x);
    }
    if x == v {
        assert(t[s.len() as int] == x);
    }
}

proof fn lemma_contains_insert(s: Seq<Seq<char>>, p: int, v: Seq<char>, x: Seq<char>)
    requires
        0 <= p <= s.len(),
    ensures
        s.insert(p, v).contains(x) <==> (s.contains(x) || x == v),
{
    let t = s.insert(p, v);
    if t.contains(x) {
        let i = choose|i: int| 0 <= i < t.len() && t[i] == x;
        if i < p {
            assert(s[i] == x);
        } else if i > p {
            assert(s[i - 1] == x);
        }
    }
    if s.contains(x) {
        let i = choose|i: int| 0 <= i < s.len() && s[i] == x;
        if i < p {
            assert(t[i] == x);
        } else {
            assert(t[i + 1] == x);
        }
    }
    if x == v {
        assert(t[p] == x);
    }
}

/// Whether a sequence of texts is in strictly increasing order.
pub open spec fn strictly_sorted(v: Seq<Seq<char>>) -> bool {
    forall|i: int, j: int| 0 <= i < j < v.len() ==> lex_lt(v[i], v[j])
}

/// Removes duplicate ids: the result holds each distinct id of `items`
/// once, in increasing order.
pub fn deduplicate_program_ids(items: &Vec<String>) -> (r: Vec<String>)
    ensures
        strictly_sorted(views(r@)),
        forall|x: Seq<char>| views(r@).contains(x) <==> views(items@).contains(x),
        items@.len() <= 1 ==> views(r@) == views(items@),
{
    if items.len() == 0 {
        let r: Vec<String> = Vec::new();
        assert(views(r@) =~= views(items@));
        return r;
    }
    if items.len() == 1 {
        let mut r: Vec<String> = Vec::new();
        r.push(items[0].clone());
        assert(views(r@) =~= views(items@));
        return r;
    }
    let mut r: Vec<String> = Vec::new();
    let mut k: usize = 0;
    while k < items.len()
        invariant
            0 <= k <= items@.len(),
            strictly_sorted(views(r@)),
            forall|x: Seq<char>| views(r@).contains(x) <==> views(items@.take(k as int)).contains(x),
        decreases items@.len() - k,
    {
        let item: &String = &items[k];
        let ghost before = views(r@);
        let mut p: usize = 0;
        while p < r.len() && str_less(&r[p], item)
            invariant
                0 <= p <= r@.len(),
                before == views(r@),
                forall|q: int| 0 <= q < p ==> lex_lt(#[trigger] before[q], item@),
            decreases r@.len() - p,
        {
            p = p + 1;
        }
        let present: bool = p < r.len() && r[p] == *item;
        proof {
            assert(views(items@.take(k + 1)) =~= views(items@.take(k as int)).push(item@));
        }
        if !present {
            proof {
                if p < before.len() {
                    lemma_lex_total(before[p as int], item@);
                }
            }
            r.insert(p, item.clone());
            proof {
                let after = views(r@);
                assert(after =~= before.insert(p as int, item@));
                assert forall|i: int, j: int| 0 <= i < j < after.len() implies lex_lt(after[i], after[j]) by {
                    if j < p {
                    } else if j == p {
                    } else if i < p {
                        assert(after[j] == before[j - 1]);
                        assert(lex_lt(before[i], item@));
                        if j - 1 > p {
                            lemma_lex_transitive(item@, before[p as int], before[j - 1]);
                        }
                        lemma_lex_transitive(before[i], item@, before[j - 1]);
                    } else if i == p {
                        assert(after[j] == before[j - 1]);
                        if j - 1 > p {
                            lemma_lex_transitive(item@, before[p as int], before[j - 1]);
                        }
                    } else {
                        assert(after[i] == before[i - 1] && after[j] == before[j - 1]);
                    }
                }
                assert forall|x: Seq<char>| after.contains(x) <==> views(items@.take(k + 1)).contains(x) by {
                    lemma_contains_insert(before, p as int, item@, x);
                    lemma_contains_push(views(items@.take(k as int)), item@, x);
                }
            }
        } else {
            proof {
                assert(before[p as int] == item@);
                assert forall|x: Seq<char>| before.contains(x) <==> views(items@.take(k + 1)).contains(x) by {
                    lemma_contains_push(views(items@.take(k as int)), item@, x);
                }
            }
        }
        k = k + 1;
    }
    proof {
        assert(items@.take(k as int) =~= items@);
    }
    r
}

/// Ids in strictly increasing order hold no duplicate, so deduplicated ids
/// pass the duplicate check.
pub proof fn law_sorted_ids_are_distinct(v: Seq<Seq<char>>)
    requires
        strictly_sorted(v),
    ensures
        !has_repeat(v),
{
    if has_repeat(v) {
        let (i, j) = choose|i: int, j: int| 0 <= i < j < v.len() && v[i] == v[j];
        lemma_lex_irreflexive(v[i]);
    }
}

/// Some id occurs twice exactly when deduplication shortens the list: the
/// deduplicated ids (strictly sorted, with the same ids) are as many as the
/// distinct ids.
pub proof fn law_duplicates_iff_dedup_shortens(items: Seq<Seq<char>>, r: Seq<Seq<char>>)
    requires
        strictly_sorted(r),
        forall|x: Seq<char>| r.contains(x) <==> items.contains(x),
    ensures
        has_repeat(items) <==> r.len() < items.len(),
{
    assert(r.no_duplicates()) by {
        assert forall|i: int, j: int| 0 <= i < r.len() && 0 <= j < r.len() && i != j implies r[i] != r[j] by {
            if i < j {
                lemma_lex_irreflexive(r[i]);
            } else {
                lemma_lex_irreflexive(r[j]);
            }
        }
    }
    r.unique_seq_to_set();
    assert(r.to_set() =~= items.to_set()) by {
        assert forall|x: Seq<char>| r.to_set().contains(x) <==> items.to_set().contains(x) by {
            assert(r.contains(x) <==> items.contains(x));
        }
    }
    items.lemma_cardinality_of_set();
    if has_repeat(items) {
        let (i, j) = choose|i: int, j: int| 0 <= i < j < items.len() && items[i] == items[j];
        if items.to_set().len() == items.len() {
            items.lemma_no_dup_set_cardinality();
            assert(false);
        }
    } else {
        assert(items.no_duplicates()) by {
            assert forall|i: int, j: int| 0 <= i < items.len() && 0 <= j < items.len() && i != j implies items[i]
                != items[j] by {
                if i > j {
                    assert(!(items[j] == items[i]));
                }
            }
        }
        items.unique_seq_to_set();
    }
}

/// Runs `processor` on every `(program id, amount)` entry in order and
/// collects its answers.
pub fn optimized_batch_lock<F: Fn(&String, i128) -> bool>(items: &Vec<(String, i128)>, processor: F) -> (r: Vec<
    bool,
>)
    requires
        forall|i: int| 0 <= i < items@.len() ==> processor.requires((&items@[i].0, items@[i].1)),
    ensures
        r@.len() == items@.len(),
        forall|i: int| 0 <= i < items@.len() ==> processor.ensures((&items@[i].0, items@[i].1), #[trigger] r@[i]),
{
    let mut results: Vec<bool> = Vec::new();
    let mut i: usize = 0;
    while i < items.len()
        invariant
            0 <= i <= items@.len(),
            results@.len() == i,
            forall|j: int| 0 <= j < items@.len() ==> processor.requires((&items@[j].0, items@[j].1)),
            forall|j: int| 0 <= j < i ==> processor.ensures((&items@[j].0, items@[j].1), #[trigger] results@[j]),
        decreases items@.len() - i,
    {
        let success: bool = processor(&items[i].0, items[i].1);
        results.push(success);
        i = i + 1;
    }
    results
}

} // verus!
