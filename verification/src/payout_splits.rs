//! Payout splits: one escrow pays several beneficiaries in fixed basis-point
//! ratios.  Every share is rounded down; the rounding dust goes to the first
//! beneficiary, so the amounts paid always add up to the amount requested.
use vstd::prelude::*;
use crate::types::Address;
use crate::math::{in_i128, trunc_div, lemma_floor_sum};
use crate::program_escrow::{ProgramStore, ProgramData, PayoutRecord};
use vstd::arithmetic::div_mod::{lemma_div_is_ordered, lemma_div_multiples_vanish};

verus! {

/// Total basis points that the shares of a split must add up to.
pub const TOTAL_BASIS_POINTS: i128 = 10_000;

/// Largest number of beneficiaries in one split.
pub const MAX_BENEFICIARIES: usize = 50;

/// What storing a split configuration announces.
#[derive(Debug)]
pub struct SplitConfigSetEvent {
    pub version: u32,
    pub program_id: String,
    pub recipient_count: u32,
    pub timestamp: u64,
}

/// What a split payout announces.
#[derive(Debug)]
pub struct SplitPayoutEvent {
    pub version: u32,
    pub program_id: String,
    pub total_amount: i128,
    pub recipient_count: u32,
    pub remaining_balance: i128,
}

/// One beneficiary of a split and its share in basis points.  In a preview
/// the `share_bps` field carries the computed amount instead.
#[derive(Clone, Copy, Debug, PartialEq, Eq, Structural)]
pub struct BeneficiarySplit {
    pub recipient: Address,
    pub share_bps: i128,
}

/// The split configuration attached to a program.
#[derive(Debug)]
pub struct SplitConfig {
    pub program_id: String,
    /// Ordered beneficiaries; index 0 receives the rounding dust.
    pub beneficiaries: Vec<BeneficiarySplit>,
    /// Whether the configuration is currently active.
    pub active: bool,
}

/// What a split payout reports back.
#[derive(Clone, Copy, Debug, PartialEq, Eq, Structural)]
pub struct SplitPayoutResult {
    pub total_distributed: i128,
    pub recipient_count: u32,
    pub remaining_balance: i128,
}

/// Why a split operation was refused.
#[derive(Clone, Copy, Debug, PartialEq, Eq, Structural)]
pub enum SplitError {
    /// The beneficiary list is empty.
    NoBeneficiaries,
    /// More than `MAX_BENEFICIARIES` beneficiaries.
    TooManyBeneficiaries,
    /// A share is zero or negative.
    NonPositiveShare,
    /// The running total of the shares left `i128`.
    ShareOverflow,
    /// The shares do not add up to `TOTAL_BASIS_POINTS`.
    SharesNotTotal,
    /// The program record is not initialised.
    ProgramNotInitialized,
    /// The payout amount is zero or negative.
    InvalidAmount,
    /// The payout amount exceeds the remaining escrow balance.
    InsufficientBalance,
    /// No split configuration is stored for the program.
    NoSplitConfig,
    /// The stored split configuration is disabled.
    ConfigDisabled,
    /// `amount * share` left `i128` for some beneficiary.
    ArithmeticOverflow,
    /// The caller is not the program's authorized payout key.
    Unauthorized,
}

// ---------------------------------------------------------------------------
// Specification
// ---------------------------------------------------------------------------

/// Sum of the shares of `s`.
pub open spec fn bps_total(s: Seq<BeneficiarySplit>) -> int
    decreases s.len(),
{
    if s.len() == 0 {
        0
    } else {
        bps_total(s.drop_last()) + s.last().share_bps
    }
}

/// A split that may be stored: 1 to 50 positive shares adding up to 10 000.
pub open spec fn split_valid(s: Seq<BeneficiarySplit>) -> bool {
    &&& 1 <= s.len() <= MAX_BENEFICIARIES
    &&& forall|i: int| 0 <= i < s.len() ==> #[trigger] s[i].share_bps > 0
    &&& bps_total(s) == TOTAL_BASIS_POINTS
}

/// Index of the first share that is not positive, if any.
pub open spec fn first_nonpositive(s: Seq<BeneficiarySplit>, i: int) -> bool {
    0 <= i < s.len() && s[i].share_bps <= 0 && forall|j: int|
        0 <= j < i ==> #[trigger] s[j].share_bps > 0
}

/// The outcome of validating a beneficiary list, scanning it in order: the
/// first non-positive share or the first running total that leaves `i128`
/// decides, whichever comes first.
pub open spec fn scan_shares(s: Seq<BeneficiarySplit>) -> Result<int, SplitError>
    decreases s.len(),
{
    if s.len() == 0 {
        Ok(0)
    } else {
        match scan_shares(s.drop_last()) {
            Err(e) => Err(e),
            Ok(acc) => if s.last().share_bps <= 0 {
                Err(SplitError::NonPositiveShare)
            } else if !in_i128(acc + s.last().share_bps) {
                Err(SplitError::ShareOverflow)
            } else {
                Ok(acc + s.last().share_bps)
            },
        }
    }
}

/// What `set_split_config` decides for a beneficiary list.
pub open spec fn split_config_outcome(s: Seq<BeneficiarySplit>) -> Result<(), SplitError> {
    if s.len() == 0 {
        Err(SplitError::NoBeneficiaries)
    } else if s.len() > MAX_BENEFICIARIES {
        Err(SplitError::TooManyBeneficiaries)
    } else {
        match scan_shares(s) {
            Err(e) => Err(e),
            Ok(total) => if total != TOTAL_BASIS_POINTS {
                Err(SplitError::SharesNotTotal)
            } else {
                Ok(())
            },
        }
    }
}

/// `floor(total * bps / 10 000)` rounded toward zero, or 0 when the product
/// leaves `i128`.
pub open spec fn preview_share(total: int, bps: int) -> int {
    if in_i128(total * bps) {
        trunc_div(total * bps, TOTAL_BASIS_POINTS as int)
    } else {
        0
    }
}

/// Sum of the rounded shares of all beneficiaries of `s`.
pub open spec fn shares_sum(total: int, s: Seq<BeneficiarySplit>) -> int
    decreases s.len(),
{
    if s.len() == 0 {
        0
    } else {
        shares_sum(total, s.drop_last()) + preview_share(total, s.last().share_bps as int)
    }
}

/// Amount paid to beneficiary `i`: its rounded share, plus all the dust for
/// index 0.
pub open spec fn split_amount(total: int, s: Seq<BeneficiarySplit>, i: int) -> int {
    preview_share(total, s[i].share_bps as int) + if i == 0 {
        total - shares_sum(total, s)
    } else {
        0
    }
}

/// Whether `total * share` leaves `i128` for some beneficiary.
pub open spec fn some_share_overflows(total: int, s: Seq<BeneficiarySplit>) -> bool {
    exists|i: int| 0 <= i < s.len() && !in_i128(total * #[trigger] s[i].share_bps)
}

/// Sum of the first `k` split amounts.
pub open spec fn amounts_sum(total: int, s: Seq<BeneficiarySplit>, k: int) -> int
    decreases k,
{
    if k <= 0 {
        0
    } else {
        amounts_sum(total, s, k - 1) + split_amount(total, s, k - 1)
    }
}

/// The payout records a split payout appends for its first `k` beneficiaries:
/// one per beneficiary whose amount is positive, in order.
pub open spec fn split_records(total: int, s: Seq<BeneficiarySplit>, now: u64, k: int) -> Seq<
    PayoutRecord,
>
    decreases k,
{
    if k <= 0 {
        Seq::empty()
    } else {
        let prev = split_records(total, s, now, k - 1);
        let amt = split_amount(total, s, k - 1);
        if amt > 0 {
            prev.push(PayoutRecord { recipient: s[k - 1].recipient, amount: amt as i128, timestamp: now })
        } else {
            prev
        }
    }
}

/// Index of the first configuration stored for `pid`, if any.
pub open spec fn config_index(configs: Seq<SplitConfig>, pid: Seq<char>) -> Option<int>
    decreases configs.len(),
{
    if configs.len() == 0 {
        None
    } else {
        match config_index(configs.drop_last(), pid) {
            Some(i) => Some(i),
            None => if configs.last().program_id@ == pid {
                Some(configs.len() - 1)
            } else {
                None
            },
        }
    }
}

/// Whether `i` is the first index whose configuration belongs to `pid`.
pub open spec fn is_first_config(configs: Seq<SplitConfig>, pid: Seq<char>, i: int) -> bool {
    0 <= i < configs.len() && configs[i].program_id@ == pid && forall|j: int|
        0 <= j < i ==> #[trigger] configs[j].program_id@ != pid
}

/// The configuration stored for `pid`, by index.
pub open spec fn lookup_config(store: &ProgramStore, pid: Seq<char>) -> Option<int> {
    config_index(store.split_configs@, pid)
}



/// Whether `caller` may change or pay out the program's splits: the program
/// must be initialised and `caller` must be its authorized payout key.
pub open spec fn payout_key_gate(store: &ProgramStore, caller: Address) -> Result<(), SplitError> {
    match store.program {
        None => Err(SplitError::ProgramNotInitialized),
        Some(prog) => if caller != prog.authorized_payout_key {
            Err(SplitError::Unauthorized)
        } else {
            Ok(())
        },
    }
}

/// What `set_split_config` decides: the payout key gate, then the list.
pub open spec fn set_config_outcome(store: &ProgramStore, caller: Address, s: Seq<BeneficiarySplit>) -> Result<
    (),
    SplitError,
> {
    match payout_key_gate(store, caller) {
        Err(e) => Err(e),
        Ok(()) => split_config_outcome(s),
    }
}

/// What `execute_split_payout` decides, in the order the checks are made.
pub open spec fn split_payout_outcome(store: &ProgramStore, caller: Address, pid: Seq<char>, total: int) -> Result<
    (),
    SplitError,
> {
    match store.program {
        None => Err(SplitError::ProgramNotInitialized),
        Some(prog) => if caller != prog.authorized_payout_key {
            Err(SplitError::Unauthorized)
        } else if total <= 0 {
            Err(SplitError::InvalidAmount)
        } else if total > prog.remaining_balance {
            Err(SplitError::InsufficientBalance)
        } else {
            match lookup_config(store, pid) {
                None => Err(SplitError::NoSplitConfig),
                Some(k) => if !store.split_configs@[k].active {
                    Err(SplitError::ConfigDisabled)
                } else if some_share_overflows(total, store.split_configs@[k].beneficiaries@) {
                    Err(SplitError::ArithmeticOverflow)
                } else {
                    Ok(())
                },
            }
        },
    }
}

// ---------------------------------------------------------------------------
// Lemmas
// ---------------------------------------------------------------------------

/// `config_index` finds exactly the first entry of `pid`.
proof fn lemma_config_index_char(configs: Seq<SplitConfig>, pid: Seq<char>)
    ensures
        config_index(configs, pid) matches Some(i) ==> is_first_config(configs, pid, i),
        config_index(configs, pid) is None ==> forall|j: int|
            0 <= j < configs.len() ==> #[trigger] configs[j].program_id@ != pid,
    decreases configs.len(),
{
    if configs.len() > 0 {
        let p = configs.drop_last();
        lemma_config_index_char(p, pid);
        if config_index(p, pid) is Some {
            let i = config_index(p, pid)->0;
            assert(p[i] == configs[i]);
            assert forall|j: int| 0 <= j < i implies #[trigger] configs[j].program_id@ != pid by {
                assert(p[j] == configs[j]);
            }
        }
        if config_index(p, pid) is None {
            assert forall|j: int|
                0 <= j < configs.len() - 1 implies #[trigger] configs[j].program_id@ != pid by {
                assert(p[j] == configs[j]);
            }
        }
    }
}

proof fn lemma_config_index(configs: Seq<SplitConfig>, pid: Seq<char>, i: int)
    requires
        is_first_config(configs, pid, i),
    ensures
        config_index(configs, pid) == Some(i),
{
    lemma_config_index_char(configs, pid);
    match config_index(configs, pid) {
        Some(k) => {
            if k < i {
                assert(configs[k].program_id@ != pid);
            }
            if i < k {
                assert(configs[i].program_id@ != pid);
            }
        },
        None => {
            assert(configs[i].program_id@ != pid);
        },
    }
}

proof fn lemma_config_absent(configs: Seq<SplitConfig>, pid: Seq<char>)
    requires
        forall|j: int| 0 <= j < configs.len() ==> #[trigger] configs[j].program_id@ != pid,
    ensures
        config_index(configs, pid) is None,
{
    lemma_config_index_char(configs, pid);
    if config_index(configs, pid) is Some {
        let i = config_index(configs, pid)->0;
        assert(configs[i].program_id@ == pid);
    }
}

/// Shares of a non-negative amount are non-negative and bounded.
proof fn lemma_preview_share_nonneg(t: int, b: int)
    requires
        t >= 0,
        b >= 0,
    ensures
        0 <= preview_share(t, b) <= (t * b) / 10000,
{
    assert(t * b >= 0) by (nonlinear_arith)
        requires
            t >= 0,
            b >= 0,
    ;
    lemma_div_is_ordered(0, t * b, 10000);
}

/// Shares of a non-positive amount are non-positive and bounded.
proof fn lemma_preview_share_nonpos(t: int, b: int)
    requires
        t <= 0,
        b >= 0,
    ensures
        -(((-t) * b) / 10000) <= preview_share(t, b) <= 0,
{
    assert((-t) * b >= 0 && t * b * -1 == (-t) * b && t * b <= 0) by (nonlinear_arith)
        requires
            t <= 0,
            b >= 0,
    ;
    lemma_div_is_ordered(0, (-t) * b, 10000);
}

/// For a non-negative amount, the rounded shares add up to at most
/// `floor(total * sum_of_shares / 10 000)`.
proof fn lemma_shares_sum_nonneg(t: int, s: Seq<BeneficiarySplit>)
    requires
        t >= 0,
        forall|i: int| 0 <= i < s.len() ==> #[trigger] s[i].share_bps >= 0,
    ensures
        0 <= shares_sum(t, s) <= (t * bps_total(s)) / 10000,
        bps_total(s) >= 0,
    decreases s.len(),
{
    if s.len() > 0 {
        let p = s.drop_last();
        assert forall|i: int| 0 <= i < p.len() implies #[trigger] p[i].share_bps >= 0 by {
            assert(p[i] == s[i]);
        }
        lemma_shares_sum_nonneg(t, p);
        let b = s.last().share_bps as int;
        assert(b >= 0) by {
            assert(s[s.len() - 1].share_bps >= 0);
        }
        lemma_preview_share_nonneg(t, b);
        let bp = bps_total(p);
        lemma_floor_sum(t * bp, t * b, 10000);
        assert(t * bp + t * b == t * (bp + b)) by (nonlinear_arith);
    }
}

/// For a non-positive amount, the rounded shares add up to at least
/// `-floor(-total * sum_of_shares / 10 000)`.
proof fn lemma_shares_sum_nonpos(t: int, s: Seq<BeneficiarySplit>)
    requires
        t <= 0,
        forall|i: int| 0 <= i < s.len() ==> #[trigger] s[i].share_bps >= 0,
    ensures
        -(((-t) * bps_total(s)) / 10000) <= shares_sum(t, s) <= 0,
        bps_total(s) >= 0,
    decreases s.len(),
{
    if s.len() > 0 {
        let p = s.drop_last();
        assert forall|i: int| 0 <= i < p.len() implies #[trigger] p[i].share_bps >= 0 by {
            assert(p[i] == s[i]);
        }
        lemma_shares_sum_nonpos(t, p);
        let b = s.last().share_bps as int;
        assert(b >= 0) by {
            assert(s[s.len() - 1].share_bps >= 0);
        }
        lemma_preview_share_nonpos(t, b);
        let bp = bps_total(p);
        lemma_floor_sum((-t) * bp, (-t) * b, 10000);
        assert((-t) * bp + (-t) * b == (-t) * (bp + b)) by (nonlinear_arith);
    }
}

/// The first rounded share never exceeds (in magnitude) the sum of all of
/// them, since all have the sign of the amount.
proof fn lemma_first_share_within_sum(t: int, s: Seq<BeneficiarySplit>)
    requires
        s.len() >= 1,
        forall|i: int| 0 <= i < s.len() ==> #[trigger] s[i].share_bps >= 0,
    ensures
        t >= 0 ==> preview_share(t, s[0].share_bps as int) <= shares_sum(t, s),
        t <= 0 ==> preview_share(t, s[0].share_bps as int) >= shares_sum(t, s),
    decreases s.len(),
{
    if s.len() > 1 {
        let p = s.drop_last();
        assert forall|i: int| 0 <= i < p.len() implies #[trigger] p[i].share_bps >= 0 by {
            assert(p[i] == s[i]);
        }
        lemma_first_share_within_sum(t, p);
        assert(p[0] == s[0]);
        let b = s.last().share_bps as int;
        assert(b >= 0) by {
            assert(s[s.len() - 1].share_bps >= 0);
        }
        if t >= 0 {
            lemma_preview_share_nonneg(t, b);
        }
        if t <= 0 {
            lemma_preview_share_nonpos(t, b);
        }
    } else {
        assert(s.drop_last() =~= Seq::<BeneficiarySplit>::empty());
        assert(shares_sum(t, Seq::<BeneficiarySplit>::empty()) == 0);
        assert(s.last() == s[0]);
    }
}

/// For a valid split, every partial sum of the rounded shares, the dust and
/// the first amount stay between 0 and the amount (or between the amount and
/// 0 for a negative amount).
proof fn lemma_split_bounds(t: int, s: Seq<BeneficiarySplit>)
    requires
        split_valid(s),
    ensures
        t >= 0 ==> 0 <= shares_sum(t, s) <= t,
        t <= 0 ==> t <= shares_sum(t, s) <= 0,
        t >= 0 ==> 0 <= split_amount(t, s, 0) <= t,
        t <= 0 ==> t <= split_amount(t, s, 0) <= 0,
{
    assert forall|i: int| 0 <= i < s.len() implies #[trigger] s[i].share_bps >= 0 by {
        assert(s[i].share_bps > 0);
    }
    lemma_first_share_within_sum(t, s);
    if t >= 0 {
        lemma_shares_sum_nonneg(t, s);
        lemma_preview_share_nonneg(t, s[0].share_bps as int);
        assert(t * 10000 == 10000 * t) by (nonlinear_arith);
        lemma_div_multiples_vanish(t, 10000);
    }
    if t <= 0 {
        lemma_shares_sum_nonpos(t, s);
        lemma_preview_share_nonpos(t, s[0].share_bps as int);
        assert((-t) * 10000 == 10000 * (-t)) by (nonlinear_arith);
        lemma_div_multiples_vanish(-t, 10000);
    }
}

/// Prefix sums of the rounded shares of a valid split stay between 0 and
/// the amount (between the amount and 0 for a negative amount).
proof fn lemma_prefix_shares_bounds(t: int, s: Seq<BeneficiarySplit>, k: int)
    requires
        split_valid(s),
        0 <= k <= s.len(),
    ensures
        t >= 0 ==> 0 <= shares_sum(t, s.take(k)) <= t,
        t <= 0 ==> t <= shares_sum(t, s.take(k)) <= 0,
    decreases s.len() - k,
{
    assert forall|i: int| 0 <= i < s.len() implies #[trigger] s[i].share_bps >= 0 by {
        assert(s[i].share_bps > 0);
    }
    if k == s.len() {
        assert(s.take(k) =~= s);
        lemma_split_bounds(t, s);
    } else {
        lemma_prefix_shares_bounds(t, s, k + 1);
        let r = s.take(k);
        assert forall|i: int| 0 <= i < r.len() implies #[trigger] r[i].share_bps >= 0 by {
            assert(r[i] == s[i]);
        }
        if t >= 0 {
            lemma_shares_sum_nonneg(t, r);
        }
        if t <= 0 {
            lemma_shares_sum_nonpos(t, r);
        }
        let q = s.take(k + 1);
        assert(q.drop_last() =~= s.take(k));
        assert(q.last() == s[k]);
        let b = s[k].share_bps as int;
        if t >= 0 {
            lemma_preview_share_nonneg(t, b);
        }
        if t <= 0 {
            lemma_preview_share_nonpos(t, b);
        }
    }
}

/// The split amounts add up to the amount requested: the dust is absorbed by
/// the first beneficiary, nothing is lost and nothing is over-distributed.
proof fn lemma_amounts_sum(t: int, s: Seq<BeneficiarySplit>, k: int)
    requires
        1 <= k <= s.len(),
    ensures
        amounts_sum(t, s, k) == shares_sum(t, s.take(k)) + (t - shares_sum(t, s)),
    decreases k,
{
    let q = s.take(k);
    assert(q.drop_last() =~= s.take(k - 1));
    assert(q.last() == s[k - 1]);
    assert(shares_sum(t, q) == shares_sum(t, s.take(k - 1)) + preview_share(t, s[k - 1].share_bps as int));
    if k == 1 {
        assert(s.take(0) =~= Seq::<BeneficiarySplit>::empty());
        assert(shares_sum(t, Seq::<BeneficiarySplit>::empty()) == 0);
        assert(amounts_sum(t, s, 0) == 0);
    } else {
        lemma_amounts_sum(t, s, k - 1);
    }
}

// ---------------------------------------------------------------------------
// Executable helpers
// ---------------------------------------------------------------------------

/// Copies a beneficiary list element by element.
fn copy_beneficiaries(v: &Vec<BeneficiarySplit>) -> (r: Vec<BeneficiarySplit>)
    ensures
        r@ == v@,
{
    let mut r: Vec<BeneficiarySplit> = Vec::new();
    let mut i: usize = 0;
    while i < v.len()
        invariant
            0 <= i <= v.len(),
            r@ == v@.take(i as int),
        decreases v.len() - i,
    {
        r.push(v[i]);
        i = i + 1;
        assert(r@ =~= v@.take(i as int));
    }
    assert(v@.take(v.len() as int) =~= v@);
    r
}

/// Copies a split configuration.
fn copy_config(c: &SplitConfig) -> (r: SplitConfig)
    ensures
        r.program_id@ == c.program_id@,
        r.beneficiaries@ == c.beneficiaries@,
        r.active == c.active,
{
    SplitConfig {
        program_id: c.program_id.clone(),
        beneficiaries: copy_beneficiaries(&c.beneficiaries),
        active: c.active,
    }
}

/// Index of the first configuration stored for `program_id`.
fn find_config(configs: &Vec<SplitConfig>, program_id: &String) -> (r: Option<usize>)
    ensures
        match r {
            Some(i) => is_first_config(configs@, program_id@, i as int),
            None => forall|j: int|
                0 <= j < configs@.len() ==> #[trigger] configs@[j].program_id@ != program_id@,
        },
        r matches Some(i) ==> config_index(configs@, program_id@) == Some(i as int),
        r is None ==> config_index(configs@, program_id@) is None,
{
    let mut i: usize = 0;
    while i < configs.len()
        invariant
            0 <= i <= configs.len(),
            forall|j: int| 0 <= j < i ==> #[trigger] configs@[j].program_id@ != program_id@,
        decreases configs.len() - i,
    {
        if configs[i].program_id == *program_id {
            proof {
                lemma_config_index(configs@, program_id@, i as int);
            }
            return Some(i);
        }
        i = i + 1;
    }
    proof {
        assert(i == configs.len());
        assert forall|j: int| 0 <= j < configs@.len() implies #[trigger] configs@[j].program_id@
            != program_id@ by {}
        lemma_config_absent(configs@, program_id@);
    }
    None
}

/// Validates a beneficiary list the way `set_split_config` does.
fn validate_shares(beneficiaries: &Vec<BeneficiarySplit>) -> (r: Result<(), SplitError>)
    ensures
        r == split_config_outcome(beneficiaries@),
        r is Ok ==> split_valid(beneficiaries@),
{
    let n: usize = beneficiaries.len();
    if n == 0 {
        return Err(SplitError::NoBeneficiaries);
    }
    if n > MAX_BENEFICIARIES {
        return Err(SplitError::TooManyBeneficiaries);
    }
    let mut total: i128 = 0;
    let mut i: usize = 0;
    while i < n
        invariant
            n == beneficiaries@.len(),
            1 <= n <= MAX_BENEFICIARIES,
            0 <= i <= n,
            scan_shares(beneficiaries@.take(i as int)) == Ok::<int, SplitError>(total as int),
        decreases n - i,
    {
        let entry: BeneficiarySplit = beneficiaries[i];
        let ghost q = beneficiaries@.take(i as int + 1);
        proof {
            assert(q.drop_last() =~= beneficiaries@.take(i as int));
            assert(q.last() == entry);
        }
        if entry.share_bps <= 0 {
            proof {
                lemma_scan_err_propagates(beneficiaries@, i as int + 1, SplitError::NonPositiveShare);
            }
            return Err(SplitError::NonPositiveShare);
        }
        match total.checked_add(entry.share_bps) {
            Some(t) => {
                total = t;
            },
            None => {
                proof {
                    lemma_scan_err_propagates(beneficiaries@, i as int + 1, SplitError::ShareOverflow);
                }
                return Err(SplitError::ShareOverflow);
            },
        }
        i = i + 1;
    }
    proof {
        assert(beneficiaries@.take(n as int) =~= beneficiaries@);
    }
    if total != TOTAL_BASIS_POINTS {
        return Err(SplitError::SharesNotTotal);
    }
    proof {
        lemma_scan_valid(beneficiaries@);
    }
    Ok(())
}

// ---------------------------------------------------------------------------
// Public API
// ---------------------------------------------------------------------------

/// Sets (or replaces) the split configuration of `program_id`.
///
/// Refused, with the store unchanged, when the program is not initialised,
/// `caller` is not its authorized payout key, or the list is empty, longer
/// than 50, holds a non-positive share, or its shares do not add up to
/// exactly 10 000 basis points.  On success the new configuration is
/// active, replaces the one stored for the program (or is appended), and is
/// returned.  The caller authorises `caller` beforehand.
pub fn set_split_config(
    store: &mut ProgramStore,
    program_id: &String,
    caller: Address,
    beneficiaries: Vec<BeneficiarySplit>,
) -> (r: Result<SplitConfig, SplitError>)
    requires
        old(store).wf(),
    ensures
        final(store).wf(),
        r is Ok <==> set_config_outcome(old(store), caller, beneficiaries@) is Ok,
        r matches Err(e) ==> set_config_outcome(old(store), caller, beneficiaries@) == Err::<(), SplitError>(e)
            && *final(store) == *old(store),
        r matches Ok(c) ==> {
            &&& c.program_id@ == program_id@
            &&& c.beneficiaries@ == beneficiaries@
            &&& c.active
            &&& split_valid(beneficiaries@)
            &&& final(store).admin == old(store).admin
            &&& final(store).program == old(store).program
            &&& final(store).claims == old(store).claims
            &&& final(store).next_claim_id == old(store).next_claim_id
            &&& final(store).claim_window == old(store).claim_window
            &&& lookup_config(final(store), program_id@) matches Some(k) && {
                &&& final(store).split_configs@[k].beneficiaries@ == beneficiaries@
                &&& final(store).split_configs@[k].active
            }
            &&& forall|p: Seq<char>|
                p != program_id@ ==> lookup_config(final(store), p) == lookup_config(old(store), p)
                    && (lookup_config(old(store), p) matches Some(k) ==> final(store).split_configs@[k]
                    == old(store).split_configs@[k])
        },
{
    match &store.program {
        None => {
            return Err(SplitError::ProgramNotInitialized);
        },
        Some(p) => {
            if caller != p.authorized_payout_key {
                return Err(SplitError::Unauthorized);
            }
        },
    }
    match validate_shares(&beneficiaries) {
        Err(e) => {
            return Err(e);
        },
        Ok(()) => {},
    }
    let config = SplitConfig {
        program_id: program_id.clone(),
        beneficiaries: copy_beneficiaries(&beneficiaries),
        active: true,
    };
    let stored = copy_config(&config);
    let ghost before = store.split_configs@;
    match find_config(&store.split_configs, program_id) {
        Some(k) => {
            store.split_configs.set(k, stored);
            proof {
                let after = store.split_configs@;
                assert forall|j: int| 0 <= j < k implies #[trigger] after[j].program_id@
                    != program_id@ by {
                    assert(after[j] == before[j]);
                }
                lemma_config_index(after, program_id@, k as int);
                assert forall|p: Seq<char>| p != program_id@ implies config_index(after, p)
                    == config_index(before, p) by {
                    lemma_config_index_same_ids(before, after, p);
                }
                assert forall|p: Seq<char>| p != program_id@ && (#[trigger] config_index(before, p)) is Some implies after[config_index(before, p)->0] == before[config_index(before, p)->0] by {
                    lemma_config_index_char(before, p);
                }
            }
        },
        None => {
            store.split_configs.push(stored);
            proof {
                let after = store.split_configs@;
                let k = before.len() as int;
                assert forall|j: int| 0 <= j < k implies #[trigger] after[j].program_id@
                    != program_id@ by {
                    assert(after[j] == before[j]);
                }
                lemma_config_index(after, program_id@, k);
                assert forall|p: Seq<char>| p != program_id@ implies config_index(after, p)
                    == config_index(before, p) by {
                    lemma_config_index_push(before, after, p);
                }
                assert forall|p: Seq<char>| p != program_id@ && (#[trigger] config_index(before, p)) is Some implies after[config_index(before, p)->0] == before[config_index(before, p)->0] by {
                    lemma_config_index_char(before, p);
                }
            }
        },
    }
    Ok(config)
}


/// Appends `r` to `h`.
fn append_records(h: &mut Vec<PayoutRecord>, r: &Vec<PayoutRecord>)
    ensures
        final(h)@ == old(h)@ + r@,
{
    let mut i: usize = 0;
    while i < r.len()
        invariant
            0 <= i <= r.len(),
            h@ == old(h)@ + r@.take(i as int),
        decreases r.len() - i,
    {
        h.push(r[i]);
        i = i + 1;
        assert(h@ =~= old(h)@ + r@.take(i as int));
    }
    assert(r@.take(r.len() as int) =~= r@);
}

/// Rounded shares of `total` for the beneficiaries of `bens`, or `None` when
/// a product overflows and `strict` is set (with `strict` unset an
/// overflowing share counts as 0).  Also returns their sum.
fn compute_shares(total: i128, bens: &Vec<BeneficiarySplit>, strict: bool) -> (r: Option<(Vec<i128>, i128)>)
    requires
        split_valid(bens@),
        strict ==> total > 0,
    ensures
        r is None <==> strict && some_share_overflows(total as int, bens@),
        r matches Some((amounts, sum)) ==> {
            &&& amounts@.len() == bens@.len()
            &&& forall|i: int| 0 <= i < bens@.len() ==> #[trigger] amounts@[i] == preview_share(total as int, bens@[i].share_bps as int)
            &&& sum == shares_sum(total as int, bens@)
        },
{
    let n: usize = bens.len();
    let mut amounts: Vec<i128> = Vec::new();
    let mut distributed: i128 = 0;
    let mut i: usize = 0;
    while i < n
        invariant
            n == bens@.len(),
            split_valid(bens@),
            strict ==> total > 0,
            0 <= i <= n,
            amounts@.len() == i,
            forall|j: int| 0 <= j < i ==> #[trigger] amounts@[j] == preview_share(total as int, bens@[j].share_bps as int),
            distributed == shares_sum(total as int, bens@.take(i as int)),
            strict ==> forall|j: int| 0 <= j < i ==> in_i128(total * #[trigger] bens@[j].share_bps),
        decreases n - i,
    {
        let b: BeneficiarySplit = bens[i];
        let share: i128 = match total.checked_mul(b.share_bps) {
            Some(x) => match x.checked_div(TOTAL_BASIS_POINTS) {
                Some(q) => q,
                None => 0,
            },
            None => {
                if strict {
                    proof {
                        assert(!in_i128(total * bens@[i as int].share_bps));
                    }
                    return None;
                }
                0
            },
        };
        proof {
            let q = bens@.take(i as int + 1);
            assert(q.drop_last() =~= bens@.take(i as int));
            assert(q.last() == b);
            lemma_prefix_shares_bounds(total as int, bens@, i as int + 1);
            lemma_prefix_shares_bounds(total as int, bens@, i as int);
        }
        amounts.push(share);
        distributed = distributed + share;
        i = i + 1;
    }
    proof {
        assert(bens@.take(n as int) =~= bens@);
    }
    Some((amounts, distributed))
}

/// Pays `total_amount` out of the escrow according to the split stored for
/// `program_id`.
///
/// Refused, with the store unchanged, when the program is not initialised,
/// `caller` is not its authorized payout key, the amount is not positive or
/// exceeds the remaining balance, no split is stored, the split is disabled,
/// or `amount * share` overflows.  Otherwise
/// every beneficiary with a positive amount gets a payout record (in order,
/// the first one including the rounding dust), the remaining balance drops by
/// exactly `total_amount`, and nothing else changes.  The caller transfers
/// the appended payouts.
pub fn execute_split_payout(
    store: &mut ProgramStore,
    program_id: &String,
    caller: Address,
    total_amount: i128,
    now: u64,
) -> (r: Result<SplitPayoutResult, SplitError>)
    requires
        old(store).wf(),
    ensures
        final(store).wf(),
        r is Ok <==> split_payout_outcome(old(store), caller, program_id@, total_amount as int) is Ok,
        r matches Err(e) ==> split_payout_outcome(old(store), caller, program_id@, total_amount as int)
            == Err::<(), SplitError>(e) && *final(store) == *old(store),
        r matches Ok(res) ==> {
            let prog = old(store).program->0;
            let k = lookup_config(old(store), program_id@)->0;
            let bens = old(store).split_configs@[k].beneficiaries@;
            let np = final(store).program->0;
            &&& final(store).program is Some
            &&& res.total_distributed == total_amount
            &&& res.recipient_count == bens.len()
            &&& res.remaining_balance == prog.remaining_balance - total_amount
            &&& np.remaining_balance == prog.remaining_balance - total_amount
            &&& np.payout_history@ == prog.payout_history@ + split_records(
                total_amount as int,
                bens,
                now,
                bens.len() as int,
            )
            &&& np.program_id == prog.program_id
            &&& np.total_funds == prog.total_funds
            &&& np.authorized_payout_key == prog.authorized_payout_key
            &&& np.token_address == prog.token_address
            &&& final(store).admin == old(store).admin
            &&& final(store).split_configs == old(store).split_configs
            &&& final(store).claims == old(store).claims
            &&& final(store).next_claim_id == old(store).next_claim_id
            &&& final(store).claim_window == old(store).claim_window
        },
{
    let remaining: i128 = match &store.program {
        None => {
            return Err(SplitError::ProgramNotInitialized);
        },
        Some(p) => {
            if caller != p.authorized_payout_key {
                return Err(SplitError::Unauthorized);
            }
            p.remaining_balance
        },
    };
    if total_amount <= 0 {
        return Err(SplitError::InvalidAmount);
    }
    if total_amount > remaining {
        return Err(SplitError::InsufficientBalance);
    }
    let k: usize = match find_config(&store.split_configs, program_id) {
        None => {
            return Err(SplitError::NoSplitConfig);
        },
        Some(k) => k,
    };
    if !store.split_configs[k].active {
        return Err(SplitError::ConfigDisabled);
    }
    let bens: Vec<BeneficiarySplit> = copy_beneficiaries(&store.split_configs[k].beneficiaries);
    proof {
        assert(split_valid(store.split_configs@[k as int].beneficiaries@));
    }
    let n: usize = bens.len();
    let (amounts, distributed) = match compute_shares(total_amount, &bens, true) {
        None => {
            return Err(SplitError::ArithmeticOverflow);
        },
        Some(x) => x,
    };
    proof {
        lemma_split_bounds(total_amount as int, bens@);
    }
    let dust: i128 = total_amount - distributed;
    let mut records: Vec<PayoutRecord> = Vec::new();
    let mut i: usize = 0;
    while i < n
        invariant
            n == bens@.len(),
            split_valid(bens@),
            amounts@.len() == n,
            total_amount > 0,
            forall|j: int| 0 <= j < n ==> #[trigger] amounts@[j] == preview_share(total_amount as int, bens@[j].share_bps as int),
            dust == total_amount - shares_sum(total_amount as int, bens@),
            0 <= split_amount(total_amount as int, bens@, 0) <= total_amount,
            0 <= i <= n,
            records@ == split_records(total_amount as int, bens@, now, i as int),
        decreases n - i,
    {
        let amount: i128 = if i == 0 {
            amounts[0] + dust
        } else {
            amounts[i]
        };
        proof {
            assert(amount == split_amount(total_amount as int, bens@, i as int));
        }
        if amount > 0 {
            records.push(PayoutRecord { recipient: bens[i].recipient, amount, timestamp: now });
        }
        i = i + 1;
    }
    match &mut store.program {
        None => {},
        Some(p) => {
            append_records(&mut p.payout_history, &records);
            p.remaining_balance = p.remaining_balance - total_amount;
        },
    }
    let new_remaining: i128 = remaining - total_amount;
    Ok(SplitPayoutResult {
        total_distributed: total_amount,
        recipient_count: n as u32,
        remaining_balance: new_remaining,
    })
}

/// Computes, without paying anything, the amounts a split payout of
/// `total_amount` would make for the split stored for `program_id`: entry `i`
/// carries beneficiary `i` and, in `share_bps`, its amount (rounded down,
/// dust to index 0; a share whose product overflows counts as 0).  Refused
/// when no split is stored for the program.
pub fn preview_split(store: &ProgramStore, program_id: &String, total_amount: i128) -> (r: Result<
    Vec<BeneficiarySplit>,
    SplitError,
>)
    requires
        store.wf(),
    ensures
        r is Err <==> lookup_config(store, program_id@) is None,
        r matches Err(e) ==> e == SplitError::NoSplitConfig,
        r matches Ok(v) ==> {
            let bens = store.split_configs@[lookup_config(store, program_id@)->0].beneficiaries@;
            &&& v@.len() == bens.len()
            &&& forall|i: int|
                0 <= i < bens.len() ==> (#[trigger] v@[i]).recipient == bens[i].recipient
                    && v@[i].share_bps == split_amount(total_amount as int, bens, i)
        },
{
    let k: usize = match find_config(&store.split_configs, program_id) {
        None => {
            return Err(SplitError::NoSplitConfig);
        },
        Some(k) => k,
    };
    let bens: Vec<BeneficiarySplit> = copy_beneficiaries(&store.split_configs[k].beneficiaries);
    proof {
        assert(split_valid(store.split_configs@[k as int].beneficiaries@));
    }
    let n: usize = bens.len();
    let (amounts, distributed) = match compute_shares(total_amount, &bens, false) {
        None => {
            return Err(SplitError::NoSplitConfig);
        },
        Some(x) => x,
    };
    proof {
        lemma_split_bounds(total_amount as int, bens@);
        lemma_prefix_shares_bounds(total_amount as int, bens@, n as int);
        assert(bens@.take(n as int) =~= bens@);
    }
    let dust: i128 = total_amount - distributed;
    let mut preview: Vec<BeneficiarySplit> = Vec::new();
    let mut i: usize = 0;
    while i < n
        invariant
            n == bens@.len(),
            split_valid(bens@),
            amounts@.len() == n,
            forall|j: int| 0 <= j < n ==> #[trigger] amounts@[j] == preview_share(total_amount as int, bens@[j].share_bps as int),
            dust == total_amount - shares_sum(total_amount as int, bens@),
            in_i128(split_amount(total_amount as int, bens@, 0)),
            0 <= i <= n,
            preview@.len() == i,
            forall|j: int|
                0 <= j < i ==> (#[trigger] preview@[j]).recipient == bens@[j].recipient
                    && preview@[j].share_bps == split_amount(total_amount as int, bens@, j),
        decreases n - i,
    {
        let amount: i128 = if i == 0 {
            amounts[0] + dust
        } else {
            amounts[i]
        };
        preview.push(BeneficiarySplit { recipient: bens[i].recipient, share_bps: amount });
        i = i + 1;
    }
    Ok(preview)
}

/// The split stored for `program_id`, if any.
pub fn get_split_config(store: &ProgramStore, program_id: &String) -> (r: Option<SplitConfig>)
    ensures
        r is Some <==> lookup_config(store, program_id@) is Some,
        r matches Some(c) ==> {
            let s = store.split_configs@[lookup_config(store, program_id@)->0];
            &&& c.program_id@ == s.program_id@
            &&& c.beneficiaries@ == s.beneficiaries@
            &&& c.active == s.active
        },
{
    match find_config(&store.split_configs, program_id) {
        None => None,
        Some(k) => Some(copy_config(&store.split_configs[k])),
    }
}

/// Deactivates the split stored for `program_id`; refused when none is
/// stored.  Only that split's `active` flag changes.
pub fn disable_split_config(store: &mut ProgramStore, program_id: &String) -> (r: Result<
    (),
    SplitError,
>)
    requires
        old(store).wf(),
    ensures
        final(store).wf(),
        r is Err <==> lookup_config(old(store), program_id@) is None,
        r matches Err(e) ==> e == SplitError::NoSplitConfig && *final(store) == *old(store),
        r is Ok ==> {
            let k = lookup_config(old(store), program_id@)->0;
            &&& final(store).split_configs@.len() == old(store).split_configs@.len()
            &&& !final(store).split_configs@[k].active
            &&& final(store).split_configs@[k].program_id == old(store).split_configs@[k].program_id
            &&& final(store).split_configs@[k].beneficiaries@ == old(store).split_configs@[k].beneficiaries@
            &&& forall|j: int|
                0 <= j < old(store).split_configs@.len() && j != k ==> #[trigger] final(store).split_configs@[j]
                    == old(store).split_configs@[j]
            &&& final(store).admin == old(store).admin
            &&& final(store).program == old(store).program
            &&& final(store).claims == old(store).claims
            &&& final(store).next_claim_id == old(store).next_claim_id
            &&& final(store).claim_window == old(store).claim_window
        },
{
    let k: usize = match find_config(&store.split_configs, program_id) {
        None => {
            return Err(SplitError::NoSplitConfig);
        },
        Some(k) => k,
    };
    let c = &store.split_configs[k];
    let updated = SplitConfig {
        program_id: c.program_id.clone(),
        beneficiaries: copy_beneficiaries(&c.beneficiaries),
        active: false,
    };
    let ghost before = store.split_configs@;
    store.split_configs.set(k, updated);
    proof {
        assert(split_valid(before[k as int].beneficiaries@));
        assert forall|j: int| 0 <= j < store.split_configs@.len() implies split_valid(
            #[trigger] store.split_configs@[j].beneficiaries@,
        ) by {
            if j != k {
                assert(store.split_configs@[j] == before[j]);
            }
        }
    }
    Ok(())
}

/// When the scan of a prefix fails, the scan of the whole list fails the
/// same way.
proof fn lemma_scan_err_propagates(s: Seq<BeneficiarySplit>, k: int, e: SplitError)
    requires
        0 < k <= s.len(),
        scan_shares(s.take(k)) == Err::<int, SplitError>(e),
    ensures
        scan_shares(s) == Err::<int, SplitError>(e),
    decreases s.len() - k,
{
    if k == s.len() {
        assert(s.take(k) =~= s);
    } else {
        let q = s.take(k + 1);
        assert(q.drop_last() =~= s.take(k));
        lemma_scan_err_propagates(s, k + 1, e);
    }
}

/// A successful scan totalling 10 000 means the split is valid.
proof fn lemma_scan_valid(s: Seq<BeneficiarySplit>)
    requires
        scan_shares(s) == Ok::<int, SplitError>(TOTAL_BASIS_POINTS as int),
        1 <= s.len() <= MAX_BENEFICIARIES,
    ensures
        split_valid(s),
{
    lemma_scan_ok(s);
}

/// A successful scan sums the shares and sees only positive ones.
proof fn lemma_scan_ok(s: Seq<BeneficiarySplit>)
    requires
        scan_shares(s) is Ok,
    ensures
        scan_shares(s) == Ok::<int, SplitError>(bps_total(s)),
        forall|i: int| 0 <= i < s.len() ==> #[trigger] s[i].share_bps > 0,
    decreases s.len(),
{
    if s.len() > 0 {
        let p = s.drop_last();
        lemma_scan_ok(p);
        assert forall|i: int| 0 <= i < s.len() implies #[trigger] s[i].share_bps > 0 by {
            if i < s.len() - 1 {
                assert(p[i] == s[i]);
            }
        }
    }
}

/// Replacing an entry by one with the same program id keeps every lookup.
proof fn lemma_config_index_same_ids(before: Seq<SplitConfig>, after: Seq<SplitConfig>, p: Seq<
    char,
>)
    requires
        before.len() == after.len(),
        forall|j: int| 0 <= j < before.len() ==> #[trigger] after[j].program_id@ == before[j].program_id@,
    ensures
        config_index(after, p) == config_index(before, p),
{
    lemma_config_index_char(before, p);
    match config_index(before, p) {
        Some(i) => {
            assert forall|j: int| 0 <= j < i implies #[trigger] after[j].program_id@ != p by {
                assert(before[j].program_id@ != p);
            }
            lemma_config_index(after, p, i);
        },
        None => {
            assert forall|j: int| 0 <= j < after.len() implies #[trigger] after[j].program_id@ != p by {
                assert(before[j].program_id@ != p);
            }
            lemma_config_absent(after, p);
        },
    }
}

/// Appending an entry for another program keeps that program's lookup.
proof fn lemma_config_index_push(before: Seq<SplitConfig>, after: Seq<SplitConfig>, p: Seq<char>)
    requires
        after.len() == before.len() + 1,
        forall|j: int| 0 <= j < before.len() ==> #[trigger] after[j] == before[j],
        after.last().program_id@ != p,
    ensures
        config_index(after, p) == config_index(before, p),
{
    assert(after.drop_last() =~= before);
}


// ---------------------------------------------------------------------------
// Laws
// ---------------------------------------------------------------------------

/// Sum of the amounts of a sequence of payout records.
pub open spec fn records_total(r: Seq<PayoutRecord>) -> int
    decreases r.len(),
{
    if r.len() == 0 {
        0
    } else {
        records_total(r.drop_last()) + r.last().amount
    }
}

/// For a valid split, the amounts of all beneficiaries add up to exactly the
/// amount requested: the rounding dust is neither lost nor doubled.
pub proof fn law_split_amounts_sum_to_total(total: int, s: Seq<BeneficiarySplit>)
    requires
        split_valid(s),
    ensures
        amounts_sum(total, s, s.len() as int) == total,
{
    lemma_amounts_sum(total, s, s.len() as int);
    assert(s.take(s.len() as int) =~= s);
}

/// For a valid split and a positive amount, no beneficiary receives a
/// negative amount or more than the whole amount.
pub proof fn law_split_amounts_bounded(total: int, s: Seq<BeneficiarySplit>, i: int)
    requires
        split_valid(s),
        total > 0,
        0 <= i < s.len(),
    ensures
        0 <= split_amount(total, s, i) <= total,
{
    lemma_split_bounds(total, s);
    if i > 0 {
        lemma_preview_share_nonneg(total, s[i].share_bps as int);
        lemma_shares_sum_nonneg(total, s);
        assert(s[i].share_bps > 0);
        lemma_single_share_within_sum(total, s, i);
    }
}

/// Any single rounded share of a non-negative amount is at most the sum of
/// all of them.
proof fn lemma_single_share_within_sum(t: int, s: Seq<BeneficiarySplit>, i: int)
    requires
        t >= 0,
        0 <= i < s.len(),
        forall|j: int| 0 <= j < s.len() ==> #[trigger] s[j].share_bps >= 0,
    ensures
        preview_share(t, s[i].share_bps as int) <= shares_sum(t, s),
    decreases s.len(),
{
    let p = s.drop_last();
    assert forall|j: int| 0 <= j < p.len() implies #[trigger] p[j].share_bps >= 0 by {
        assert(p[j] == s[j]);
    }
    let b = s.last().share_bps as int;
    assert(b >= 0) by {
        assert(s[s.len() - 1].share_bps >= 0);
    }
    lemma_preview_share_nonneg(t, b);
    if i < s.len() - 1 {
        lemma_single_share_within_sum(t, p, i);
        assert(p[i] == s[i]);
    } else {
        lemma_shares_sum_nonneg(t, p);
    }
}

/// A successful split payout of a positive amount records payouts whose
/// amounts add up to exactly that amount: the escrow pays out what it
/// deducts from its balance.
pub proof fn law_split_payout_records_total(total: int, s: Seq<BeneficiarySplit>, now: u64)
    requires
        split_valid(s),
        total > 0,
        total <= i128::MAX,
    ensures
        records_total(split_records(total, s, now, s.len() as int)) == total,
{
    lemma_records_total_prefix(total, s, now, s.len() as int);
    law_split_amounts_sum_to_total(total, s);
}

proof fn lemma_records_total_prefix(total: int, s: Seq<BeneficiarySplit>, now: u64, k: int)
    requires
        split_valid(s),
        total > 0,
        total <= i128::MAX,
        0 <= k <= s.len(),
    ensures
        records_total(split_records(total, s, now, k)) == amounts_sum(total, s, k),
    decreases k,
{
    if k > 0 {
        lemma_records_total_prefix(total, s, now, k - 1);
        law_split_amounts_bounded(total, s, k - 1);
        let prev = split_records(total, s, now, k - 1);
        let amt = split_amount(total, s, k - 1);
        if amt > 0 {
            let r = PayoutRecord { recipient: s[k - 1].recipient, amount: amt as i128, timestamp: now };
            assert(prev.push(r).drop_last() =~= prev);
        }
    }
}

} // verus!
