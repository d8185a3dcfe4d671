//! One-time genesis monetary initialization for the selected node.
//!
//! A genesis document lists accounts with native balances, optional vesting,
//! funded stake and an optional reward activation. `AllocationPlan::build`
//! validates every account before anything is written, and the plan it
//! returns always conserves DGT: liquid balances plus stake equal the total.
//! Adaptive issuance is available only together with the reward activation;
//! on reopening, the stored adaptive journal and issuance records must be
//! the bounded, well-named set that the activation keeps, or none.
use sha2::Digest;
use vstd::prelude::*;
use vstd::string::StrSliceExecFns;
use vstd::utf8::encode_utf8;
use crate::bytes::{be_bytes, push_all, push_be};
use crate::text::{no_space_or_control, is_whitespace_spec, is_control_spec, str_eq};

verus! {

/// Why a genesis document or store was refused.
#[derive(Clone, Copy, Debug, PartialEq, Eq, Structural)]
pub enum GenesisError {
    AmountNotDecimal,
    AmountOverflow,
    DuplicateDenomination,
    ChainIdMismatch,
    AdaptiveWithoutReward,
    VestingRequired,
    LockWithoutReward,
    VestingAmount,
    VestingCliff,
    VestingEndOverflow,
    InvalidAddress,
    DuplicateAccount,
    UnsupportedDenomination,
    TotalOverflow,
    SupplyCap,
    DuplicateDelegator,
    UnfundedStake,
    StakeExceedsAllocation,
    StakeTotalOverflow,
    LiquidOverflow,
    ConservationFailed,
    RewardParameters,
    ProductionProfile,
    DuplicateValidator,
    NonPositivePosition,
    PositionOwnerUnfunded,
    PositionValidatorMissing,
    LockForbidsStaking,
    DuplicatePosition,
    OwnerStakeOverflow,
    PositionsDiffer,
    EmptyChainId,
    RootRequiresConsensus,
    InvalidDocument,
    ModeDiffers,
    SourceDiffers,
    StoredChainIdDiffers,
    DrtCounterDiffers,
    RewardConfigDiffers,
    RewardStateMissing,
    RewardStateUnexpected,
    UnmarkedStore,
    ConsensusRequiresSource,
    QualifiedState,
    LegacyRewardLiabilities,
    ConsensusConfigSize,
    ConsensusConfigSizeDiffers,
    TimingStateUnexpected,
    TimingLimitOverflow,
    TimingHistoryBound,
    UnknownAdaptiveRecord,
    TimingStateInvalid,
    TimingConfigDiffers,
}

/// The operator-facing text of each refusal.
pub open spec fn genesis_error_text(e: GenesisError) -> &'static str {
    match e {
        GenesisError::AmountNotDecimal => "Genesis amount must be a decimal digit string",
        GenesisError::AmountOverflow => "Genesis amount exceeds u128",
        GenesisError::DuplicateDenomination => "Duplicate genesis denomination",
        GenesisError::ChainIdMismatch => "Genesis chain ID differs from configured chain ID",
        GenesisError::AdaptiveWithoutReward => "Adaptive issuance requires explicit reward v2 activation",
        GenesisError::VestingRequired => "Reward v2 requires explicit vesting for every account",
        GenesisError::LockWithoutReward => "Locked vesting requires reward v2 state and lock enforcement",
        GenesisError::VestingAmount => "Vesting amount must equal the account's DGT allocation",
        GenesisError::VestingCliff => "Linear vesting end must follow the cliff",
        GenesisError::VestingEndOverflow => "Vesting end exceeds u64",
        GenesisError::InvalidAddress => "Invalid genesis account address",
        GenesisError::DuplicateAccount => "Duplicate genesis account",
        GenesisError::UnsupportedDenomination => "Unsupported genesis denomination",
        GenesisError::TotalOverflow => "Genesis denomination total exceeds u128",
        GenesisError::SupplyCap => "Genesis DGT allocation exceeds the existing supply cap",
        GenesisError::DuplicateDelegator => "Duplicate genesis delegator",
        GenesisError::UnfundedStake => "Genesis stake has no funding account",
        GenesisError::StakeExceedsAllocation => "Genesis stake exceeds its account's DGT allocation",
        GenesisError::StakeTotalOverflow => "Genesis stake total exceeds u128",
        GenesisError::LiquidOverflow => "Genesis liquid total exceeds u128",
        GenesisError::ConservationFailed => "Genesis DGT conservation check failed",
        GenesisError::RewardParameters => "Reward v2 requires version 2, six decimals and activation height 1",
        GenesisError::ProductionProfile => "Production reward activation remains disabled",
        GenesisError::DuplicateValidator => "Duplicate reward validator",
        GenesisError::NonPositivePosition => "Reward bonded position must be positive",
        GenesisError::PositionOwnerUnfunded => "Reward position owner has no genesis allocation",
        GenesisError::PositionValidatorMissing => "Reward position validator is missing",
        GenesisError::LockForbidsStaking => "Vesting policy does not permit bonded stake",
        GenesisError::DuplicatePosition => "Duplicate reward owner-validator position",
        GenesisError::OwnerStakeOverflow => "Reward owner stake exceeds u128",
        GenesisError::PositionsDiffer => "Reward positions differ from funded genesis delegations",
        GenesisError::EmptyChainId => "Chain ID must be nonempty",
        GenesisError::RootRequiresConsensus => "Root genesis requires consensus configuration",
        GenesisError::InvalidDocument => "Invalid genesis monetary document",
        GenesisError::ModeDiffers => "Consensus mode or configuration differs; automatic mode activation is prohibited",
        GenesisError::SourceDiffers => "Genesis source differs from initialized storage",
        GenesisError::StoredChainIdDiffers => "Stored chain ID differs or is missing",
        GenesisError::DrtCounterDiffers => "Stored DRT genesis counter differs from source allocation",
        GenesisError::RewardConfigDiffers => "Stored reward configuration differs from genesis",
        GenesisError::RewardStateMissing => "Reward v2 state is missing; automatic legacy activation is prohibited",
        GenesisError::RewardStateUnexpected => "Reward v2 state has no matching genesis activation",
        GenesisError::UnmarkedStore => "Existing storage has no monetary genesis marker; explicit migration is required",
        GenesisError::ConsensusRequiresSource => "Consensus genesis requires an explicit source",
        GenesisError::QualifiedState => "Qualified account state requires consensus admission; legacy and direct mutation routes are disabled",
        GenesisError::LegacyRewardLiabilities => "Legacy reward liabilities require an explicit migration",
        GenesisError::ConsensusConfigSize => "Consensus configuration must contain 1 through 65536 bytes",
        GenesisError::ConsensusConfigSizeDiffers => "Consensus configuration size differs",
        GenesisError::TimingStateUnexpected => "Adaptive or issuance state has no matching genesis activation",
        GenesisError::TimingLimitOverflow => "Issuance history limit exceeds u64",
        GenesisError::TimingHistoryBound => "Issuance history exceeds its configured bound",
        GenesisError::UnknownAdaptiveRecord => "Unknown adaptive journal record",
        GenesisError::TimingStateInvalid => "Stored adaptive issuance state failed verification",
        GenesisError::TimingConfigDiffers => "Stored adaptive issuance configuration differs from genesis",
    }
}

impl GenesisError {
    /// The operator-facing text of each refusal.
    pub fn message(&self) -> (r: &'static str)
        ensures
            r == genesis_error_text(*self),
    {
        match self {
            GenesisError::AmountNotDecimal => "Genesis amount must be a decimal digit string",
            GenesisError::AmountOverflow => "Genesis amount exceeds u128",
            GenesisError::DuplicateDenomination => "Duplicate genesis denomination",
            GenesisError::ChainIdMismatch => "Genesis chain ID differs from configured chain ID",
            GenesisError::AdaptiveWithoutReward => "Adaptive issuance requires explicit reward v2 activation",
            GenesisError::VestingRequired => "Reward v2 requires explicit vesting for every account",
            GenesisError::LockWithoutReward => "Locked vesting requires reward v2 state and lock enforcement",
            GenesisError::VestingAmount => "Vesting amount must equal the account's DGT allocation",
            GenesisError::VestingCliff => "Linear vesting end must follow the cliff",
            GenesisError::VestingEndOverflow => "Vesting end exceeds u64",
            GenesisError::InvalidAddress => "Invalid genesis account address",
            GenesisError::DuplicateAccount => "Duplicate genesis account",
            GenesisError::UnsupportedDenomination => "Unsupported genesis denomination",
            GenesisError::TotalOverflow => "Genesis denomination total exceeds u128",
            GenesisError::SupplyCap => "Genesis DGT allocation exceeds the existing supply cap",
            GenesisError::DuplicateDelegator => "Duplicate genesis delegator",
            GenesisError::UnfundedStake => "Genesis stake has no funding account",
            GenesisError::StakeExceedsAllocation => "Genesis stake exceeds its account's DGT allocation",
            GenesisError::StakeTotalOverflow => "Genesis stake total exceeds u128",
            GenesisError::LiquidOverflow => "Genesis liquid total exceeds u128",
            GenesisError::ConservationFailed => "Genesis DGT conservation check failed",
            GenesisError::RewardParameters => "Reward v2 requires version 2, six decimals and activation height 1",
            GenesisError::ProductionProfile => "Production reward activation remains disabled",
            GenesisError::DuplicateValidator => "Duplicate reward validator",
            GenesisError::NonPositivePosition => "Reward bonded position must be positive",
            GenesisError::PositionOwnerUnfunded => "Reward position owner has no genesis allocation",
            GenesisError::PositionValidatorMissing => "Reward position validator is missing",
            GenesisError::LockForbidsStaking => "Vesting policy does not permit bonded stake",
            GenesisError::DuplicatePosition => "Duplicate reward owner-validator position",
            GenesisError::OwnerStakeOverflow => "Reward owner stake exceeds u128",
            GenesisError::PositionsDiffer => "Reward positions differ from funded genesis delegations",
            GenesisError::EmptyChainId => "Chain ID must be nonempty",
            GenesisError::RootRequiresConsensus => "Root genesis requires consensus configuration",
            GenesisError::InvalidDocument => "Invalid genesis monetary document",
            GenesisError::ModeDiffers => "Consensus mode or configuration differs; automatic mode activation is prohibited",
            GenesisError::SourceDiffers => "Genesis source differs from initialized storage",
            GenesisError::StoredChainIdDiffers => "Stored chain ID differs or is missing",
            GenesisError::DrtCounterDiffers => "Stored DRT genesis counter differs from source allocation",
            GenesisError::RewardConfigDiffers => "Stored reward configuration differs from genesis",
            GenesisError::RewardStateMissing => "Reward v2 state is missing; automatic legacy activation is prohibited",
            GenesisError::RewardStateUnexpected => "Reward v2 state has no matching genesis activation",
            GenesisError::UnmarkedStore => "Existing storage has no monetary genesis marker; explicit migration is required",
            GenesisError::ConsensusRequiresSource => "Consensus genesis requires an explicit source",
            GenesisError::QualifiedState => "Qualified account state requires consensus admission; legacy and direct mutation routes are disabled",
            GenesisError::LegacyRewardLiabilities => "Legacy reward liabilities require an explicit migration",
            GenesisError::ConsensusConfigSize => "Consensus configuration must contain 1 through 65536 bytes",
            GenesisError::ConsensusConfigSizeDiffers => "Consensus configuration size differs",
            GenesisError::TimingStateUnexpected => "Adaptive or issuance state has no matching genesis activation",
            GenesisError::TimingLimitOverflow => "Issuance history limit exceeds u64",
            GenesisError::TimingHistoryBound => "Issuance history exceeds its configured bound",
            GenesisError::UnknownAdaptiveRecord => "Unknown adaptive journal record",
            GenesisError::TimingStateInvalid => "Stored adaptive issuance state failed verification",
            GenesisError::TimingConfigDiffers => "Stored adaptive issuance configuration differs from genesis",
        }
    }
}

/// The most native DGT that can ever exist, in base units.
pub const DGT_MAX_SUPPLY: u128 = 1_000_000_000_000_000u128;

pub open spec fn is_digit(c: char) -> bool {
    '0' <= c && c <= '9'
}

pub open spec fn digit_value(c: char) -> nat {
    (c as u32 - '0' as u32) as nat
}

/// The number a string of decimal digits denotes.
pub open spec fn decimal_value(s: Seq<char>) -> nat
    decreases s.len(),
{
    if s.len() == 0 {
        0
    } else {
        decimal_value(s.drop_last()) * 10 + digit_value(s.last())
    }
}

pub open spec fn all_digits(s: Seq<char>) -> bool {
    forall|i: int| 0 <= i < s.len() ==> is_digit(#[trigger] s[i])
}

/// What reading a genesis amount gives: a nonempty digit string that fits
/// in `u128`.
pub open spec fn amount_spec(s: Seq<char>) -> Result<u128, GenesisError> {
    if s.len() == 0 || !all_digits(s) {
        Err(GenesisError::AmountNotDecimal)
    } else if decimal_value(s) > u128::MAX {
        Err(GenesisError::AmountOverflow)
    } else {
        Ok(decimal_value(s) as u128)
    }
}

proof fn lemma_decimal_prefix_grows(s: Seq<char>, i: int, j: int)
    requires
        0 <= i <= j <= s.len(),
        all_digits(s),
    ensures
        decimal_value(s.take(i)) <= decimal_value(s.take(j)),
    decreases j - i,
{
    if i < j {
        lemma_decimal_prefix_grows(s, i, j - 1);
        assert(s.take(j).drop_last() =~= s.take(j - 1));
    }
}

/// Read a genesis amount: decimal digits only, no sign, point or exponent.
pub fn parse_amount(text: &str) -> (r: Result<u128, GenesisError>)
    ensures
        r == amount_spec(text@),
{
    let mut nonempty = false;
    let mut digits = true;
    for c in it: text.chars()
        invariant
            it.seq() == text@,
            nonempty == (it.index() > 0),
            digits == (forall|j: int| 0 <= j < it.index() ==> is_digit(#[trigger] text@[j])),
    {
        if !('0' <= c && c <= '9') {
            digits = false;
        }
        nonempty = true;
    }
    if !nonempty || !digits {
        return Err(GenesisError::AmountNotDecimal);
    }
    let mut value: u128 = 0;
    for c in it: text.chars()
        invariant
            it.seq() == text@,
            all_digits(text@),
            text@.len() > 0,
            value == decimal_value(text@.take(it.index())),
    {
        let ghost seen = it.index();
        proof {
            assert(text@.take(seen + 1).drop_last() =~= text@.take(seen));
            assert(text@[seen] == c);
        }
        let d = (c as u32 - '0' as u32) as u128;
        let next = match value.checked_mul(10) {
            Some(v) => v.checked_add(d),
            None => None,
        };
        match next {
            Some(v) => {
                value = v;
            },
            None => {
                proof {
                    lemma_decimal_prefix_grows(text@, seen + 1, text@.len() as int);
                    assert(text@.take(text@.len() as int) =~= text@);
                }
                return Err(GenesisError::AmountOverflow);
            },
        }
    }
    proof {
        assert(text@.take(text@.len() as int) =~= text@);
    }
    Ok(value)
}

/// A vesting schedule as the document states it.
#[derive(Clone, Copy, Debug, PartialEq, Eq, Structural)]
pub enum VestingInput {
    Unlocked,
    LinearAfterCliff {
        total_amount: u128,
        start_time: u64,
        cliff_duration: u64,
        vesting_duration: u64,
        allow_staking: bool,
    },
}

/// One genesis account: its address, its balances by denomination in the
/// order they are processed, and its vesting, if the document gives one.
pub struct GenesisAccount {
    pub address: String,
    pub balances: Vec<(String, u128)>,
    pub vesting: Option<VestingInput>,
}

pub struct Delegation {
    pub delegator: String,
    pub amount_udgt: u128,
}

pub struct InitialStake {
    pub delegations: Vec<Delegation>,
    pub user_delegation: Option<Delegation>,
}

pub struct RewardValidatorInput {
    pub address: String,
    pub active: bool,
    pub jailed: bool,
}

pub struct RewardPositionInput {
    pub owner: String,
    pub validator: String,
    pub amount_udgt: u128,
}

pub struct RewardGenesisInput {
    pub version: u32,
    pub activation_height: u64,
    pub decimals: u8,
    pub profile: String,
    pub max_validators: usize,
    pub max_positions: usize,
    pub validators: Vec<RewardValidatorInput>,
    pub positions: Vec<RewardPositionInput>,
}

/// The genesis monetary document. `adaptive_issuance` holds, where the
/// document carries an adaptive issuance section, the number of epochs its
/// issuance history records.
pub struct Document {
    pub chain_id: String,
    pub accounts: Vec<GenesisAccount>,
    pub staking: Option<InitialStake>,
    pub reward_v2: Option<RewardGenesisInput>,
    pub adaptive_issuance: Option<u64>,
}

/// Balances by denomination, as character strings.
pub open spec fn balance_views(b: Seq<(String, u128)>) -> Seq<(Seq<char>, u128)> {
    b.map_values(|e: (String, u128)| (e.0@, e.1))
}

pub open spec fn has_denom(b: Seq<(Seq<char>, u128)>, d: Seq<char>) -> bool {
    exists|j: int| 0 <= j < b.len() && (#[trigger] b[j]).0 == d
}

/// Reading a balance object: each amount is read in turn, and a
/// denomination may occur once.
pub open spec fn decode_spec(entries: Seq<(String, String)>) -> Result<Seq<(Seq<char>, u128)>, GenesisError>
    decreases entries.len(),
{
    if entries.len() == 0 {
        Ok(Seq::empty())
    } else {
        match decode_spec(entries.drop_last()) {
            Err(e) => Err(e),
            Ok(prev) => match amount_spec(entries.last().1@) {
                Err(e) => Err(e),
                Ok(v) => if has_denom(prev, entries.last().0@) {
                    Err(GenesisError::DuplicateDenomination)
                } else {
                    Ok(prev.push((entries.last().0@, v)))
                },
            },
        }
    }
}

proof fn lemma_decode_err_sticks(entries: Seq<(String, String)>, i: int)
    requires
        0 <= i <= entries.len(),
        decode_spec(entries.take(i)) is Err,
    ensures
        decode_spec(entries) == decode_spec(entries.take(i)),
    decreases entries.len() - i,
{
    if i < entries.len() {
        assert(entries.take(i + 1).drop_last() =~= entries.take(i));
        lemma_decode_err_sticks(entries, i + 1);
    } else {
        assert(entries.take(i) =~= entries);
    }
}

/// Whether one balance's denomination comes before another's, by the bytes
/// of their UTF-8 text.
pub open spec fn denom_before(a: (String, u128), b: (String, u128)) -> bool {
    crate::mempool::seq_before(encode_utf8(a.0@), encode_utf8(b.0@))
}

/// Whether balances are in strictly increasing denomination order, as a
/// map keyed by denomination holds them.
pub open spec fn by_denomination(s: Seq<(String, u128)>) -> bool {
    forall|i: int, j: int| 0 <= i < j < s.len() ==> denom_before(#[trigger] s[i], #[trigger] s[j])
}

/// Whether no two balances share a denomination.
pub open spec fn distinct_denominations(s: Seq<(String, u128)>) -> bool {
    forall|i: int, j: int| 0 <= i < j < s.len() ==> (#[trigger] s[i]).0@ != (#[trigger] s[j]).0@
}

fn denom_first(a: &(String, u128), b: &(String, u128)) -> (r: bool)
    ensures
        r == denom_before(*a, *b),
{
    crate::mempool::bytes_before(a.0.as_str().as_bytes(), b.0.as_str().as_bytes())
}

/// Order an account's balances by denomination, as the document's map of
/// unique denominations holds them: the same entries, each once.
pub fn order_balances(b: Vec<(String, u128)>) -> (r: Vec<(String, u128)>)
    requires
        distinct_denominations(b@),
    ensures
        r@.to_multiset() == b@.to_multiset(),
        r@.len() == b@.len(),
        by_denomination(r@),
{
    broadcast use vstd::seq_lib::to_multiset_build, vstd::seq_lib::to_multiset_insert, vstd::seq_lib::to_multiset_contains, vstd::seq_lib::to_multiset_len;

    let ghost orig = b@;
    let mut rest = b;
    let mut r: Vec<(String, u128)> = Vec::new();
    assert(orig.skip(orig.len() as int) =~= Seq::<(String, u128)>::empty());
    assert(orig.take(orig.len() as int) =~= orig);
    while rest.len() > 0
        invariant
            rest@ == orig.take(rest@.len() as int),
            rest@.len() <= orig.len(),
            r@.to_multiset() == orig.skip(rest@.len() as int).to_multiset(),
            by_denomination(r@),
            distinct_denominations(orig),
        decreases rest@.len(),
    {
        let ghost k = rest@.len() as int;
        let x = rest.pop().unwrap();
        proof {
            assert(rest@ =~= orig.take(k - 1));
            assert(x == orig[k - 1]);
            assert(orig.skip(k - 1) =~= orig.skip(k).insert(0, x));
        }
        let mut p: usize = 0;
        while p < r.len() && !denom_first(&x, &r[p])
            invariant
                p <= r@.len(),
                forall|i: int| 0 <= i < p ==> !denom_before(x, #[trigger] r@[i]),
                r@.to_multiset() == orig.skip(k).to_multiset(),
                by_denomination(r@),
                distinct_denominations(orig),
                0 < k <= orig.len(),
                x == orig[k - 1],
            decreases r@.len() - p,
        {
            p = p + 1;
        }
        let ghost old_r = r@;
        proof {
            assert forall|i: int| 0 <= i < p implies denom_before(#[trigger] old_r[i], x) by {
                assert(r@[i] == old_r[i]);
                assert(r@.contains(old_r[i]));
                vstd::seq_lib::to_multiset_contains(r@, old_r[i]);
                vstd::seq_lib::to_multiset_contains(orig.skip(k), old_r[i]);
                assert(orig.skip(k).contains(old_r[i]));
                let j = choose|j: int| 0 <= j < orig.skip(k).len() && orig.skip(k)[j] == old_r[i];
                assert(orig[k + j] == old_r[i]);
                assert(orig[k - 1].0@ != orig[k + j].0@);
                if encode_utf8(old_r[i].0@) == encode_utf8(x.0@) {
                    crate::text::lemma_encode_injective(old_r[i].0@, x.0@);
                }
                crate::mempool::lemma_before_total(encode_utf8(old_r[i].0@), encode_utf8(x.0@));
            }
        }
        r.insert(p, x);
        proof {
            vstd::seq_lib::to_multiset_insert(old_r, p as int, x);
            vstd::seq_lib::to_multiset_insert(orig.skip(k), 0, x);
            assert(r@ == old_r.insert(p as int, x));
            assert forall|i: int, j: int| 0 <= i < j < r@.len() implies denom_before(#[trigger] r@[i], #[trigger] r@[j]) by {
                if j < p {
                    assert(r@[i] == old_r[i] && r@[j] == old_r[j]);
                } else if j == p {
                    assert(r@[i] == old_r[i]);
                } else if i > p {
                    assert(r@[i] == old_r[i - 1] && r@[j] == old_r[j - 1]);
                } else if i == p {
                    assert(denom_before(x, old_r[p as int]));
                    if j - 1 > p {
                        crate::mempool::lemma_before_transitive(
                            encode_utf8(x.0@),
                            encode_utf8(old_r[p as int].0@),
                            encode_utf8(old_r[j - 1].0@),
                        );
                    }
                } else {
                    assert(r@[i] == old_r[i] && r@[j] == old_r[j - 1]);
                }
            }
        }
    }
    assert(orig.skip(0) =~= orig);
    assert(r@.to_multiset().len() == orig.to_multiset().len());
    r
}

/// Read the balances of one account from denomination and amount text.
pub fn decode_balances(entries: &Vec<(String, String)>) -> (r: Result<Vec<(String, u128)>, GenesisError>)
    ensures
        match r {
            Ok(b) => decode_spec(entries@) == Ok::<Seq<(Seq<char>, u128)>, GenesisError>(balance_views(b@)),
            Err(e) => decode_spec(entries@) == Err::<Seq<(Seq<char>, u128)>, GenesisError>(e),
        },
{
    let mut out: Vec<(String, u128)> = Vec::new();
    let mut i: usize = 0;
    assert(entries@.take(0) =~= Seq::<(String, String)>::empty());
    assert(balance_views(out@) =~= Seq::<(Seq<char>, u128)>::empty());
    while i < entries.len()
        invariant
            i <= entries@.len(),
            decode_spec(entries@.take(i as int)) == Ok::<Seq<(Seq<char>, u128)>, GenesisError>(balance_views(out@)),
        decreases entries@.len() - i,
    {
        proof {
            assert(entries@.take(i as int + 1).drop_last() =~= entries@.take(i as int));
        }
        let amount = match parse_amount(entries[i].1.as_str()) {
            Ok(v) => v,
            Err(e) => {
                proof { lemma_decode_err_sticks(entries@, i as int + 1); }
                return Err(e);
            },
        };
        let mut j: usize = 0;
        while j < out.len()
            invariant
                j <= out@.len(),
                i < entries@.len(),
                decode_spec(entries@.take(i as int)) == Ok::<Seq<(Seq<char>, u128)>, GenesisError>(balance_views(out@)),
                amount_spec(entries@[i as int].1@) == Ok::<u128, GenesisError>(amount),
                entries@.take(i as int + 1).drop_last() == entries@.take(i as int),
                forall|k: int| 0 <= k < j ==> (#[trigger] balance_views(out@)[k]).0 != entries@[i as int].0@,
            decreases out@.len() - j,
        {
            if str_eq(out[j].0.as_str(), entries[i].0.as_str()) {
                proof {
                    assert(balance_views(out@)[j as int].0 == entries@[i as int].0@);
                    lemma_decode_err_sticks(entries@, i as int + 1);
                }
                return Err(GenesisError::DuplicateDenomination);
            }
            j = j + 1;
        }
        let ghost prev = balance_views(out@);
        proof {
            assert(entries@.take(i as int + 1).last() == entries@[i as int]);
            assert(!has_denom(prev, entries@[i as int].0@));
        }
        out.push((entries[i].0.clone(), amount));
        assert(balance_views(out@) =~= prev.push((entries@[i as int].0@, amount)));
        i = i + 1;
    }
    assert(entries@.take(i as int) =~= entries@);
    Ok(out)
}

/// A vesting lock that genesis places on an account.
#[derive(Clone, Copy, Debug, PartialEq, Eq, Structural)]
pub struct VestingLock {
    pub total_amount: u128,
    pub start_time: u64,
    pub cliff_duration: u64,
    pub vesting_duration: u64,
    pub permits_staking: bool,
}

/// The native balances genesis gives one account; zero means none.
pub struct AccountAllocation {
    pub address: String,
    pub udgt: u128,
    pub udrt: u128,
}

/// Funded stake moved out of an account's liquid DGT.
pub struct StakeAllocation {
    pub delegator: String,
    pub amount: u128,
}

pub struct LockEntry {
    pub address: String,
    pub lock: VestingLock,
}

/// Prepared monetary state. Construction validates every account before any
/// write.
pub struct AllocationPlan {
    pub accounts: Vec<AccountAllocation>,
    pub delegations: Vec<StakeAllocation>,
    pub dgt_total: u128,
    pub drt_total: u128,
    pub stake_total: u128,
    pub locks: Vec<LockEntry>,
    pub reward_v2: Option<RewardGenesisInput>,
    pub adaptive_issuance: Option<u64>,
}

/// The monetary content of a plan, with addresses as character strings.
pub struct PlanModel {
    pub accounts: Seq<(Seq<char>, u128, u128)>,
    pub delegations: Seq<(Seq<char>, u128)>,
    pub dgt_total: u128,
    pub drt_total: u128,
    pub stake_total: u128,
    pub locks: Seq<(Seq<char>, VestingLock)>,
}

pub open spec fn account_views(a: Seq<AccountAllocation>) -> Seq<(Seq<char>, u128, u128)> {
    a.map_values(|x: AccountAllocation| (x.address@, x.udgt, x.udrt))
}

pub open spec fn stake_views(d: Seq<StakeAllocation>) -> Seq<(Seq<char>, u128)> {
    d.map_values(|x: StakeAllocation| (x.delegator@, x.amount))
}

pub open spec fn lock_views(l: Seq<LockEntry>) -> Seq<(Seq<char>, VestingLock)> {
    l.map_values(|x: LockEntry| (x.address@, x.lock))
}

impl View for AllocationPlan {
    type V = PlanModel;

    open spec fn view(&self) -> PlanModel {
        PlanModel {
            accounts: account_views(self.accounts@),
            delegations: stake_views(self.delegations@),
            dgt_total: self.dgt_total,
            drt_total: self.drt_total,
            stake_total: self.stake_total,
            locks: lock_views(self.locks@),
        }
    }
}

pub open spec fn udgt_denom() -> Seq<char> {
    seq!['u', 'd', 'g', 't']
}

pub open spec fn udrt_denom() -> Seq<char> {
    seq!['u', 'd', 'r', 't']
}

pub open spec fn empty_plan() -> PlanModel {
    PlanModel {
        accounts: Seq::empty(),
        delegations: Seq::empty(),
        dgt_total: 0,
        drt_total: 0,
        stake_total: 0,
        locks: Seq::empty(),
    }
}

/// The first account at or after `i` with address `a`, or -1.
pub open spec fn account_index(accounts: Seq<(Seq<char>, u128, u128)>, a: Seq<char>, i: int) -> int
    decreases accounts.len() - i,
{
    if i < 0 || i >= accounts.len() {
        -1
    } else if accounts[i].0 == a {
        i
    } else {
        account_index(accounts, a, i + 1)
    }
}

/// The amount of the last entry of denomination `d`, or zero.
pub open spec fn denom_amount(b: Seq<(Seq<char>, u128)>, d: Seq<char>) -> u128
    decreases b.len(),
{
    if b.len() == 0 {
        0
    } else if b.last().0 == d {
        b.last().1
    } else {
        denom_amount(b.drop_last(), d)
    }
}

pub open spec fn valid_address(a: Seq<char>) -> bool {
    a.len() > 0 && forall|i: int| 0 <= i < a.len() ==> !is_whitespace_spec(#[trigger] a[i]) && !is_control_spec(a[i])
}

/// The vesting checks of one account, made before its address is checked.
pub open spec fn vesting_step(
    p: PlanModel,
    reward: bool,
    address: Seq<char>,
    allocation: u128,
    v: Option<VestingInput>,
) -> Result<PlanModel, GenesisError> {
    match v {
        None => if reward {
            Err(GenesisError::VestingRequired)
        } else {
            Ok(p)
        },
        Some(VestingInput::Unlocked) => Ok(p),
        Some(VestingInput::LinearAfterCliff { total_amount, start_time, cliff_duration, vesting_duration, allow_staking }) => {
            if !reward {
                Err(GenesisError::LockWithoutReward)
            } else if !(total_amount > 0 && total_amount == allocation) {
                Err(GenesisError::VestingAmount)
            } else if !(cliff_duration < vesting_duration) {
                Err(GenesisError::VestingCliff)
            } else if start_time + vesting_duration > u64::MAX {
                Err(GenesisError::VestingEndOverflow)
            } else {
                Ok(PlanModel {
                    locks: p.locks.push((address, VestingLock {
                        total_amount,
                        start_time,
                        cliff_duration,
                        vesting_duration,
                        permits_staking: allow_staking,
                    })),
                    ..p
                })
            }
        },
    }
}

/// Totals of DGT and DRT, and this account's DGT and DRT, after one entry.
pub open spec fn balance_step(t: (u128, u128, u128, u128), e: (Seq<char>, u128)) -> Result<
    (u128, u128, u128, u128),
    GenesisError,
> {
    if e.0 == udgt_denom() {
        if t.0 + e.1 > u128::MAX {
            Err(GenesisError::TotalOverflow)
        } else {
            Ok(((t.0 + e.1) as u128, t.1, e.1, t.3))
        }
    } else if e.0 == udrt_denom() {
        if t.1 + e.1 > u128::MAX {
            Err(GenesisError::TotalOverflow)
        } else {
            Ok((t.0, (t.1 + e.1) as u128, t.2, e.1))
        }
    } else {
        Err(GenesisError::UnsupportedDenomination)
    }
}

pub open spec fn balances_fold(t: (u128, u128, u128, u128), b: Seq<(Seq<char>, u128)>) -> Result<
    (u128, u128, u128, u128),
    GenesisError,
>
    decreases b.len(),
{
    if b.len() == 0 {
        Ok(t)
    } else {
        match balances_fold(t, b.drop_last()) {
            Err(e) => Err(e),
            Ok(u) => balance_step(u, b.last()),
        }
    }
}

/// One account added to the plan.
pub open spec fn account_step(p: PlanModel, reward: bool, a: GenesisAccount) -> Result<PlanModel, GenesisError> {
    let b = balance_views(a.balances@);
    match vesting_step(p, reward, a.address@, denom_amount(b, udgt_denom()), a.vesting) {
        Err(e) => Err(e),
        Ok(q) => if !valid_address(a.address@) {
            Err(GenesisError::InvalidAddress)
        } else if account_index(q.accounts, a.address@, 0) >= 0 {
            Err(GenesisError::DuplicateAccount)
        } else {
            match balances_fold((q.dgt_total, q.drt_total, 0, 0), b) {
                Err(e) => Err(e),
                Ok(t) => Ok(PlanModel {
                    accounts: q.accounts.push((a.address@, t.2, t.3)),
                    dgt_total: t.0,
                    drt_total: t.1,
                    ..q
                }),
            }
        },
    }
}

pub open spec fn accounts_fold(p: PlanModel, reward: bool, accounts: Seq<GenesisAccount>) -> Result<PlanModel, GenesisError>
    decreases accounts.len(),
{
    if accounts.len() == 0 {
        Ok(p)
    } else {
        match accounts_fold(p, reward, accounts.drop_last()) {
            Err(e) => Err(e),
            Ok(q) => account_step(q, reward, accounts.last()),
        }
    }
}

pub open spec fn has_delegator(d: Seq<(Seq<char>, u128)>, a: Seq<char>) -> bool {
    exists|j: int| 0 <= j < d.len() && (#[trigger] d[j]).0 == a
}

/// One funded delegation moved from liquid DGT to stake.
pub open spec fn delegation_step(p: PlanModel, d: (Seq<char>, u128)) -> Result<PlanModel, GenesisError> {
    let i = account_index(p.accounts, d.0, 0);
    if has_delegator(p.delegations, d.0) {
        Err(GenesisError::DuplicateDelegator)
    } else if i < 0 {
        Err(GenesisError::UnfundedStake)
    } else if p.accounts[i].1 < d.1 {
        Err(GenesisError::StakeExceedsAllocation)
    } else if p.stake_total + d.1 > u128::MAX {
        Err(GenesisError::StakeTotalOverflow)
    } else {
        Ok(PlanModel {
            accounts: p.accounts.update(i, (p.accounts[i].0, (p.accounts[i].1 - d.1) as u128, p.accounts[i].2)),
            delegations: p.delegations.push(d),
            stake_total: (p.stake_total + d.1) as u128,
            ..p
        })
    }
}

pub open spec fn delegations_fold(p: PlanModel, d: Seq<(Seq<char>, u128)>) -> Result<PlanModel, GenesisError>
    decreases d.len(),
{
    if d.len() == 0 {
        Ok(p)
    } else {
        match delegations_fold(p, d.drop_last()) {
            Err(e) => Err(e),
            Ok(q) => delegation_step(q, d.last()),
        }
    }
}

/// The delegations of the document, the user delegation last.
pub open spec fn stake_list(doc: Document) -> Seq<(Seq<char>, u128)> {
    match doc.staking {
        None => Seq::empty(),
        Some(st) => {
            let listed = st.delegations@.map_values(|d: Delegation| (d.delegator@, d.amount_udgt));
            match st.user_delegation {
                None => listed,
                Some(u) => listed.push((u.delegator@, u.amount_udgt)),
            }
        },
    }
}

/// The liquid DGT of all accounts.
pub open spec fn liquid_total(accounts: Seq<(Seq<char>, u128, u128)>) -> int
    decreases accounts.len(),
{
    if accounts.len() == 0 {
        0
    } else {
        liquid_total(accounts.drop_last()) + accounts.last().1
    }
}

/// What building the allocation plan from a document gives.
pub open spec fn build_spec(doc: Document, chain_id: Seq<char>) -> Result<PlanModel, GenesisError> {
    if doc.chain_id@ != chain_id {
        Err(GenesisError::ChainIdMismatch)
    } else if doc.adaptive_issuance.is_some() && doc.reward_v2.is_none() {
        Err(GenesisError::AdaptiveWithoutReward)
    } else {
        match accounts_fold(empty_plan(), doc.reward_v2.is_some(), doc.accounts@) {
            Err(e) => Err(e),
            Ok(p) => if p.dgt_total > DGT_MAX_SUPPLY {
                Err(GenesisError::SupplyCap)
            } else {
                match delegations_fold(p, stake_list(doc)) {
                    Err(e) => Err(e),
                    Ok(q) => if liquid_total(q.accounts) > u128::MAX {
                        Err(GenesisError::LiquidOverflow)
                    } else if liquid_total(q.accounts) + q.stake_total != q.dgt_total {
                        Err(GenesisError::ConservationFailed)
                    } else {
                        Ok(q)
                    },
                }
            },
        }
    }
}

proof fn lemma_account_index(v: Seq<(Seq<char>, u128, u128)>, a: Seq<char>, k: int)
    requires
        0 <= k,
    ensures
        account_index(v, a, k) == -1 || (k <= account_index(v, a, k) < v.len() && v[account_index(v, a, k)].0 == a),
    decreases v.len() - k,
{
    if k < v.len() && v[k].0 != a {
        lemma_account_index(v, a, k + 1);
    }
}

proof fn lemma_accounts_err_sticks(p: PlanModel, reward: bool, accounts: Seq<GenesisAccount>, i: int)
    requires
        0 <= i <= accounts.len(),
        accounts_fold(p, reward, accounts.take(i)) is Err,
    ensures
        accounts_fold(p, reward, accounts) == accounts_fold(p, reward, accounts.take(i)),
    decreases accounts.len() - i,
{
    if i < accounts.len() {
        assert(accounts.take(i + 1).drop_last() =~= accounts.take(i));
        lemma_accounts_err_sticks(p, reward, accounts, i + 1);
    } else {
        assert(accounts.take(i) =~= accounts);
    }
}

proof fn lemma_delegations_err_sticks(p: PlanModel, d: Seq<(Seq<char>, u128)>, i: int)
    requires
        0 <= i <= d.len(),
        delegations_fold(p, d.take(i)) is Err,
    ensures
        delegations_fold(p, d) == delegations_fold(p, d.take(i)),
    decreases d.len() - i,
{
    if i < d.len() {
        assert(d.take(i + 1).drop_last() =~= d.take(i));
        lemma_delegations_err_sticks(p, d, i + 1);
    } else {
        assert(d.take(i) =~= d);
    }
}

proof fn lemma_balances_err_sticks(t: (u128, u128, u128, u128), b: Seq<(Seq<char>, u128)>, i: int)
    requires
        0 <= i <= b.len(),
        balances_fold(t, b.take(i)) is Err,
    ensures
        balances_fold(t, b) == balances_fold(t, b.take(i)),
    decreases b.len() - i,
{
    if i < b.len() {
        assert(b.take(i + 1).drop_last() =~= b.take(i));
        lemma_balances_err_sticks(t, b, i + 1);
    } else {
        assert(b.take(i) =~= b);
    }
}

/// Whether a denomination string is `udgt`, and whether it is `udrt`.
fn denom_kind(d: &str) -> (r: (bool, bool))
    ensures
        r.0 == (d@ == udgt_denom()),
        r.1 == (d@ == udrt_denom()),
{
    let a = str_eq(d, "udgt");
    let b = str_eq(d, "udrt");
    proof {
        reveal_strlit("udgt");
        reveal_strlit("udrt");
        assert("udgt"@ =~= udgt_denom());
        assert("udrt"@ =~= udrt_denom());
    }
    (a, b)
}

fn denom_amount_of(b: &Vec<(String, u128)>) -> (r: u128)
    ensures
        r == denom_amount(balance_views(b@), udgt_denom()),
{
    let mut amount: u128 = 0;
    let mut i: usize = 0;
    assert(balance_views(b@).take(0) =~= Seq::<(Seq<char>, u128)>::empty());
    while i < b.len()
        invariant
            i <= b@.len(),
            amount == denom_amount(balance_views(b@).take(i as int), udgt_denom()),
        decreases b@.len() - i,
    {
        let (is_dgt, _) = denom_kind(b[i].0.as_str());
        proof {
            assert(balance_views(b@).take(i as int + 1).drop_last() =~= balance_views(b@).take(i as int));
        }
        if is_dgt {
            amount = b[i].1;
        }
        i = i + 1;
    }
    assert(balance_views(b@).take(i as int) =~= balance_views(b@));
    amount
}

fn find_account(accounts: &Vec<AccountAllocation>, a: &str) -> (r: Option<usize>)
    ensures
        match r {
            Some(i) => account_index(account_views(accounts@), a@, 0) == i,
            None => account_index(account_views(accounts@), a@, 0) == -1,
        },
{
    let ghost v = account_views(accounts@);
    let mut i: usize = 0;
    while i < accounts.len()
        invariant
            i <= accounts@.len(),
            v == account_views(accounts@),
            account_index(v, a@, 0) == account_index(v, a@, i as int),
        decreases accounts@.len() - i,
    {
        if str_eq(accounts[i].address.as_str(), a) {
            return Some(i);
        }
        i = i + 1;
    }
    None
}

fn tally_balances(dgt: u128, drt: u128, b: &Vec<(String, u128)>) -> (r: Result<(u128, u128, u128, u128), GenesisError>)
    ensures
        r == balances_fold((dgt, drt, 0, 0), balance_views(b@)),
{
    let ghost bv = balance_views(b@);
    let ghost t0 = (dgt, drt, 0u128, 0u128);
    let mut t: (u128, u128, u128, u128) = (dgt, drt, 0, 0);
    let mut i: usize = 0;
    assert(bv.take(0) =~= Seq::<(Seq<char>, u128)>::empty());
    while i < b.len()
        invariant
            i <= b@.len(),
            bv == balance_views(b@),
            t0 == (dgt, drt, 0u128, 0u128),
            balances_fold(t0, bv.take(i as int)) == Ok::<(u128, u128, u128, u128), GenesisError>(t),
        decreases b@.len() - i,
    {
        proof {
            assert(bv.take(i as int + 1).drop_last() =~= bv.take(i as int));
            assert(bv.take(i as int + 1).last() == bv[i as int]);
        }
        let amount = b[i].1;
        let (is_dgt, is_drt) = denom_kind(b[i].0.as_str());
        if is_dgt {
            match t.0.checked_add(amount) {
                Some(v) => {
                    t = (v, t.1, amount, t.3);
                },
                None => {
                    proof { lemma_balances_err_sticks(t0, bv, i as int + 1); }
                    return Err(GenesisError::TotalOverflow);
                },
            }
        } else if is_drt {
            match t.1.checked_add(amount) {
                Some(v) => {
                    t = (t.0, v, t.2, amount);
                },
                None => {
                    proof { lemma_balances_err_sticks(t0, bv, i as int + 1); }
                    return Err(GenesisError::TotalOverflow);
                },
            }
        } else {
            proof { lemma_balances_err_sticks(t0, bv, i as int + 1); }
            return Err(GenesisError::UnsupportedDenomination);
        }
        i = i + 1;
    }
    assert(bv.take(i as int) =~= bv);
    Ok(t)
}

impl AllocationPlan {
    fn add_account(&mut self, reward: bool, a: &GenesisAccount) -> (r: Result<(), GenesisError>)
        ensures
            final(self).reward_v2 == old(self).reward_v2,
            final(self).adaptive_issuance == old(self).adaptive_issuance,
            match account_step(old(self)@, reward, *a) {
                Ok(q) => r is Ok && final(self)@ == q,
                Err(e) => r == Err::<(), GenesisError>(e),
            },
    {
        let ghost p0 = self@;
        let allocation = denom_amount_of(&a.balances);
        match a.vesting {
            None => {
                if reward {
                    return Err(GenesisError::VestingRequired);
                }
            },
            Some(VestingInput::Unlocked) => {},
            Some(VestingInput::LinearAfterCliff { total_amount, start_time, cliff_duration, vesting_duration, allow_staking }) => {
                if !reward {
                    return Err(GenesisError::LockWithoutReward);
                }
                if !(total_amount > 0 && total_amount == allocation) {
                    return Err(GenesisError::VestingAmount);
                }
                if !(cliff_duration < vesting_duration) {
                    return Err(GenesisError::VestingCliff);
                }
                if start_time.checked_add(vesting_duration).is_none() {
                    return Err(GenesisError::VestingEndOverflow);
                }
                let lock = VestingLock {
                    total_amount,
                    start_time,
                    cliff_duration,
                    vesting_duration,
                    permits_staking: allow_staking,
                };
                self.locks.push(LockEntry { address: a.address.clone(), lock });
                assert(self@.locks =~= p0.locks.push((a.address@, lock)));
            },
        }
        let ghost p1 = self@;
        assert(vesting_step(p0, reward, a.address@, allocation, a.vesting) == Ok::<PlanModel, GenesisError>(p1));
        if a.address.as_str().unicode_len() == 0 || !no_space_or_control(a.address.as_str()) {
            return Err(GenesisError::InvalidAddress);
        }
        if find_account(&self.accounts, a.address.as_str()).is_some() {
            return Err(GenesisError::DuplicateAccount);
        }
        let t = match tally_balances(self.dgt_total, self.drt_total, &a.balances) {
            Ok(t) => t,
            Err(e) => return Err(e),
        };
        self.accounts.push(AccountAllocation { address: a.address.clone(), udgt: t.2, udrt: t.3 });
        self.dgt_total = t.0;
        self.drt_total = t.1;
        assert(self@.accounts =~= p1.accounts.push((a.address@, t.2, t.3)));
        assert(self@.locks =~= p1.locks);
        assert(self@.delegations =~= p1.delegations);
        Ok(())
    }

    fn add_delegation(&mut self, delegator: &String, amount: u128) -> (r: Result<(), GenesisError>)
        ensures
            final(self).reward_v2 == old(self).reward_v2,
            final(self).adaptive_issuance == old(self).adaptive_issuance,
            match delegation_step(old(self)@, (delegator@, amount)) {
                Ok(q) => r is Ok && final(self)@ == q,
                Err(e) => r == Err::<(), GenesisError>(e),
            },
    {
        let ghost p0 = self@;
        let mut j: usize = 0;
        while j < self.delegations.len()
            invariant
                j <= self.delegations@.len(),
                p0 == self@,
                forall|k: int| 0 <= k < j ==> (#[trigger] p0.delegations[k]).0 != delegator@,
            decreases self.delegations@.len() - j,
        {
            if str_eq(self.delegations[j].delegator.as_str(), delegator.as_str()) {
                assert(p0.delegations[j as int].0 == delegator@);
                return Err(GenesisError::DuplicateDelegator);
            }
            j = j + 1;
        }
        assert(!has_delegator(p0.delegations, delegator@));
        let i = match find_account(&self.accounts, delegator.as_str()) {
            None => return Err(GenesisError::UnfundedStake),
            Some(i) => i,
        };
        proof { lemma_account_index(p0.accounts, delegator@, 0); }
        let balance = self.accounts[i].udgt;
        if balance < amount {
            return Err(GenesisError::StakeExceedsAllocation);
        }
        let stake = match self.stake_total.checked_add(amount) {
            None => return Err(GenesisError::StakeTotalOverflow),
            Some(v) => v,
        };
        let entry = AccountAllocation {
            address: self.accounts[i].address.clone(),
            udgt: balance - amount,
            udrt: self.accounts[i].udrt,
        };
        self.accounts.set(i, entry);
        self.stake_total = stake;
        self.delegations.push(StakeAllocation { delegator: delegator.clone(), amount });
        assert(self@.accounts =~= p0.accounts.update(
            i as int,
            (p0.accounts[i as int].0, (p0.accounts[i as int].1 - amount) as u128, p0.accounts[i as int].2),
        ));
        assert(self@.delegations =~= p0.delegations.push((delegator@, amount)));
        assert(self@.locks =~= p0.locks);
        Ok(())
    }

    /// Validate a genesis document against the configured chain and prepare
    /// its monetary state: accounts in document order, then funded stake.
    pub fn build(document: Document, chain_id: &str) -> (r: Result<AllocationPlan, GenesisError>)
        ensures
            match r {
                Ok(plan) => build_spec(document, chain_id@) == Ok::<PlanModel, GenesisError>(plan@)
                    && plan.reward_v2 == document.reward_v2 && plan.adaptive_issuance == document.adaptive_issuance,
                Err(e) => build_spec(document, chain_id@) == Err::<PlanModel, GenesisError>(e),
            },
    {
        let ghost doc = document;
        if !str_eq(document.chain_id.as_str(), chain_id) {
            return Err(GenesisError::ChainIdMismatch);
        }
        if document.adaptive_issuance.is_some() && document.reward_v2.is_none() {
            return Err(GenesisError::AdaptiveWithoutReward);
        }
        let reward = document.reward_v2.is_some();
        let Document { chain_id: _, accounts, staking, reward_v2, adaptive_issuance } = document;
        let mut plan = AllocationPlan {
            accounts: Vec::new(),
            delegations: Vec::new(),
            dgt_total: 0,
            drt_total: 0,
            stake_total: 0,
            locks: Vec::new(),
            reward_v2,
            adaptive_issuance,
        };
        assert(plan@ == empty_plan()) by {
            assert(plan@.accounts =~= Seq::<(Seq<char>, u128, u128)>::empty());
            assert(plan@.delegations =~= Seq::<(Seq<char>, u128)>::empty());
            assert(plan@.locks =~= Seq::<(Seq<char>, VestingLock)>::empty());
        }
        assert(accounts@.take(0) =~= Seq::<GenesisAccount>::empty());
        let mut i: usize = 0;
        while i < accounts.len()
            invariant
                i <= accounts@.len(),
                accounts@ == doc.accounts@,
                doc == document,
                doc.chain_id@ == chain_id@,
                !(doc.adaptive_issuance.is_some() && doc.reward_v2.is_none()),
                reward == doc.reward_v2.is_some(),
                plan.reward_v2 == doc.reward_v2,
                plan.adaptive_issuance == doc.adaptive_issuance,
                accounts_fold(empty_plan(), reward, accounts@.take(i as int)) == Ok::<PlanModel, GenesisError>(plan@),
            decreases accounts@.len() - i,
        {
            proof {
                assert(accounts@.take(i as int + 1).drop_last() =~= accounts@.take(i as int));
                assert(accounts@.take(i as int + 1).last() == accounts@[i as int]);
            }
            match plan.add_account(reward, &accounts[i]) {
                Ok(()) => {},
                Err(e) => {
                    proof { lemma_accounts_err_sticks(empty_plan(), reward, accounts@, i as int + 1); }
                    return Err(e);
                },
            }
            i = i + 1;
        }
        assert(accounts@.take(i as int) =~= accounts@);
        if plan.dgt_total > DGT_MAX_SUPPLY {
            return Err(GenesisError::SupplyCap);
        }
        let ghost p1 = plan@;
        let ghost list = stake_list(doc);
        match staking {
            None => {
                assert(list =~= Seq::<(Seq<char>, u128)>::empty());
            },
            Some(st) => {
                let ghost listed = st.delegations@.map_values(|d: Delegation| (d.delegator@, d.amount_udgt));
                assert(listed.take(0) =~= Seq::<(Seq<char>, u128)>::empty());
                let mut k: usize = 0;
                while k < st.delegations.len()
                    invariant
                        k <= st.delegations@.len(),
                        listed == st.delegations@.map_values(|d: Delegation| (d.delegator@, d.amount_udgt)),
                        list == (match st.user_delegation {
                            None => listed,
                            Some(u) => listed.push((u.delegator@, u.amount_udgt)),
                        }),
                        plan.reward_v2 == doc.reward_v2,
                        plan.adaptive_issuance == doc.adaptive_issuance,
                        doc == document,
                        doc.chain_id@ == chain_id@,
                        !(doc.adaptive_issuance.is_some() && doc.reward_v2.is_none()),
                        accounts_fold(empty_plan(), doc.reward_v2.is_some(), doc.accounts@) == Ok::<PlanModel, GenesisError>(p1),
                        p1.dgt_total <= DGT_MAX_SUPPLY,
                        list == stake_list(doc),
                        delegations_fold(p1, listed.take(k as int)) == Ok::<PlanModel, GenesisError>(plan@),
                    decreases st.delegations@.len() - k,
                {
                    proof {
                        assert(listed.take(k as int + 1).drop_last() =~= listed.take(k as int));
                        assert(listed.take(k as int + 1).last() == listed[k as int]);
                        assert(list.take(k as int + 1) =~= listed.take(k as int + 1));
                    }
                    match plan.add_delegation(&st.delegations[k].delegator, st.delegations[k].amount_udgt) {
                        Ok(()) => {},
                        Err(e) => {
                            proof { lemma_delegations_err_sticks(p1, list, k as int + 1); }
                            return Err(e);
                        },
                    }
                    k = k + 1;
                }
                assert(listed.take(k as int) =~= listed);
                match st.user_delegation {
                    None => {},
                    Some(u) => {
                        proof {
                            assert(list.drop_last() =~= listed);
                        }
                        match plan.add_delegation(&u.delegator, u.amount_udgt) {
                            Ok(()) => {},
                            Err(e) => return Err(e),
                        }
                    },
                }
            },
        }
        assert(delegations_fold(p1, list) == Ok::<PlanModel, GenesisError>(plan@));
        let ghost q = plan@;
        let mut liquid: u128 = 0;
        let mut j: usize = 0;
        assert(q.accounts.take(0) =~= Seq::<(Seq<char>, u128, u128)>::empty());
        while j < plan.accounts.len()
            invariant
                j <= plan.accounts@.len(),
                q == plan@,
                liquid == liquid_total(q.accounts.take(j as int)),
                doc == document,
                doc.chain_id@ == chain_id@,
                !(doc.adaptive_issuance.is_some() && doc.reward_v2.is_none()),
                accounts_fold(empty_plan(), doc.reward_v2.is_some(), doc.accounts@) == Ok::<PlanModel, GenesisError>(p1),
                p1.dgt_total <= DGT_MAX_SUPPLY,
                delegations_fold(p1, stake_list(doc)) == Ok::<PlanModel, GenesisError>(q),
            decreases plan.accounts@.len() - j,
        {
            proof {
                assert(q.accounts.take(j as int + 1).drop_last() =~= q.accounts.take(j as int));
            }
            match liquid.checked_add(plan.accounts[j].udgt) {
                Some(v) => {
                    liquid = v;
                },
                None => {
                    proof { lemma_liquid_prefix(q.accounts, j as int + 1); }
                    return Err(GenesisError::LiquidOverflow);
                },
            }
            j = j + 1;
        }
        assert(q.accounts.take(j as int) =~= q.accounts);
        match liquid.checked_add(plan.stake_total) {
            Some(v) => {
                if v != plan.dgt_total {
                    return Err(GenesisError::ConservationFailed);
                }
            },
            None => return Err(GenesisError::ConservationFailed),
        }
        Ok(plan)
    }
}

proof fn lemma_liquid_prefix(accounts: Seq<(Seq<char>, u128, u128)>, i: int)
    requires
        0 <= i <= accounts.len(),
    ensures
        liquid_total(accounts.take(i)) <= liquid_total(accounts),
    decreases accounts.len() - i,
{
    if i < accounts.len() {
        lemma_liquid_prefix(accounts, i + 1);
        assert(accounts.take(i + 1).drop_last() =~= accounts.take(i));
    } else {
        assert(accounts.take(i) =~= accounts);
    }
}

/// No denomination occurs twice among an account's balances.
pub open spec fn denominations_distinct(b: Seq<(Seq<char>, u128)>) -> bool {
    forall|i: int, j: int| 0 <= i < j < b.len() ==> (#[trigger] b[i]).0 != (#[trigger] b[j]).0
}

/// Every account of the document lists each denomination at most once, as
/// the balance reader guarantees.
pub open spec fn document_wf(doc: Document) -> bool {
    forall|i: int| 0 <= i < doc.accounts@.len() ==> denominations_distinct(
        balance_views((#[trigger] doc.accounts@[i]).balances@),
    )
}

/// DGT held liquid plus DGT staked is all the DGT allocated.
pub open spec fn conserves(p: PlanModel) -> bool {
    liquid_total(p.accounts) + p.stake_total == p.dgt_total
}

/// One account's balances as the document's map holds them: read from
/// denomination and amount text, then ordered by denomination. Each entry
/// that the reader accepts appears once, and no other.
pub fn account_balances(entries: &Vec<(String, String)>) -> (r: Result<Vec<(String, u128)>, GenesisError>)
    ensures
        match r {
            Ok(b) => decode_spec(entries@) matches Ok(d) && b@.len() == d.len() && by_denomination(b@)
                && denominations_distinct(balance_views(b@)) && (forall|i: int|
                0 <= i < b@.len() ==> d.contains(balance_views(b@)[i])) && (forall|i: int|
                0 <= i < d.len() ==> balance_views(b@).contains(d[i])),
            Err(e) => decode_spec(entries@) == Err::<Seq<(Seq<char>, u128)>, GenesisError>(e),
        },
{
    let decoded = match decode_balances(entries) {
        Ok(b) => b,
        Err(e) => return Err(e),
    };
    let ghost dv = decoded@;
    proof {
        lemma_decoded_distinct(entries@);
        assert forall|i: int, j: int| 0 <= i < j < dv.len() implies (#[trigger] dv[i]).0@ != (#[trigger] dv[j]).0@ by {
            assert(balance_views(dv)[i].0 == dv[i].0@);
            assert(balance_views(dv)[j].0 == dv[j].0@);
        }
    }
    let b = order_balances(decoded);
    proof {
        let d = balance_views(dv);
        let bv = balance_views(b@);
        assert forall|i: int| 0 <= i < b@.len() implies d.contains(#[trigger] bv[i]) by {
            vstd::seq_lib::to_multiset_contains(b@, b@[i]);
            vstd::seq_lib::to_multiset_contains(dv, b@[i]);
            assert(b@.contains(b@[i]));
            let k = choose|k: int| 0 <= k < dv.len() && dv[k] == b@[i];
            assert(d[k] == bv[i]);
        }
        assert forall|i: int| 0 <= i < d.len() implies bv.contains(#[trigger] d[i]) by {
            vstd::seq_lib::to_multiset_contains(b@, dv[i]);
            vstd::seq_lib::to_multiset_contains(dv, dv[i]);
            assert(dv.contains(dv[i]));
            let j = choose|j: int| 0 <= j < b@.len() && b@[j] == dv[i];
            assert(bv[j] == d[i]);
        }
        assert forall|i: int, j: int| 0 <= i < j < b@.len() implies (#[trigger] balance_views(b@)[i]).0 != (#[trigger] balance_views(b@)[j]).0 by {
            if b@[i].0@ == b@[j].0@ {
                crate::mempool::lemma_before_asymmetric(encode_utf8(b@[i].0@), encode_utf8(b@[j].0@));
            }
        }
    }
    Ok(b)
}

/// Balances that the reader accepts never repeat a denomination.
pub proof fn lemma_decoded_distinct(entries: Seq<(String, String)>)
    ensures
        decode_spec(entries) matches Ok(b) ==> denominations_distinct(b),
    decreases entries.len(),
{
    if entries.len() > 0 {
        lemma_decoded_distinct(entries.drop_last());
        match decode_spec(entries.drop_last()) {
            Ok(prev) => {
                if let Ok(b) = decode_spec(entries) {
                    assert forall|i: int, j: int| 0 <= i < j < b.len() implies (#[trigger] b[i]).0 != (#[trigger] b[j]).0 by {
                        if j == b.len() - 1 {
                            assert(b[i] == prev[i]);
                            if b[i].0 == b[j].0 {
                                assert(has_denom(prev, entries.last().0@));
                            }
                        } else {
                            assert(b[i] == prev[i] && b[j] == prev[j]);
                        }
                    }
                }
            },
            Err(_) => {},
        }
    }
}

proof fn lemma_balances_tally(d: u128, r: u128, b: Seq<(Seq<char>, u128)>)
    requires
        denominations_distinct(b),
    ensures
        balances_fold((d, r, 0, 0), b) matches Ok(t) ==> t.0 == d + t.2 && (!has_denom(b, udgt_denom()) ==> t.2 == 0),
    decreases b.len(),
{
    if b.len() > 0 {
        let prev = b.drop_last();
        assert(denominations_distinct(prev)) by {
            assert forall|i: int, j: int| 0 <= i < j < prev.len() implies (#[trigger] prev[i]).0 != (#[trigger] prev[j]).0 by {
                assert(prev[i] == b[i] && prev[j] == b[j]);
            }
        }
        lemma_balances_tally(d, r, prev);
        if b.last().0 == udgt_denom() {
            if has_denom(prev, udgt_denom()) {
                let k = choose|k: int| 0 <= k < prev.len() && (#[trigger] prev[k]).0 == udgt_denom();
                assert(b[k] == prev[k]);
                assert(b[k].0 == b[b.len() - 1].0);
            }
        } else {
            if has_denom(b, udgt_denom()) {
                let k = choose|k: int| 0 <= k < b.len() && (#[trigger] b[k]).0 == udgt_denom();
                assert(k < b.len() - 1);
                assert(prev[k] == b[k]);
            }
        }
    }
}

proof fn lemma_liquid_push(a: Seq<(Seq<char>, u128, u128)>, x: (Seq<char>, u128, u128))
    ensures
        liquid_total(a.push(x)) == liquid_total(a) + x.1,
{
    assert(a.push(x).drop_last() =~= a);
}

proof fn lemma_liquid_update(a: Seq<(Seq<char>, u128, u128)>, i: int, x: (Seq<char>, u128, u128))
    requires
        0 <= i < a.len(),
    ensures
        liquid_total(a.update(i, x)) == liquid_total(a) - a[i].1 + x.1,
    decreases a.len(),
{
    if i == a.len() - 1 {
        assert(a.update(i, x).drop_last() =~= a.drop_last());
    } else {
        assert(a.update(i, x).drop_last() =~= a.drop_last().update(i, x));
        lemma_liquid_update(a.drop_last(), i, x);
    }
}

proof fn lemma_liquid_nonneg(a: Seq<(Seq<char>, u128, u128)>)
    ensures
        liquid_total(a) >= 0,
    decreases a.len(),
{
    if a.len() > 0 {
        lemma_liquid_nonneg(a.drop_last());
    }
}

proof fn lemma_accounts_conserve(reward: bool, accounts: Seq<GenesisAccount>)
    requires
        forall|i: int| 0 <= i < accounts.len() ==> denominations_distinct(
            balance_views((#[trigger] accounts[i]).balances@),
        ),
    ensures
        accounts_fold(empty_plan(), reward, accounts) matches Ok(p) ==> conserves(p) && p.stake_total == 0,
    decreases accounts.len(),
{
    if accounts.len() > 0 {
        let prev = accounts.drop_last();
        assert forall|i: int| 0 <= i < prev.len() implies denominations_distinct(
            balance_views((#[trigger] prev[i]).balances@),
        ) by {
            assert(prev[i] == accounts[i]);
        }
        lemma_accounts_conserve(reward, prev);
        if let Ok(q) = accounts_fold(empty_plan(), reward, prev) {
            let a = accounts.last();
            assert(a == accounts[accounts.len() - 1]);
            let b = balance_views(a.balances@);
            if let Ok(q1) = vesting_step(q, reward, a.address@, denom_amount(b, udgt_denom()), a.vesting) {
                lemma_balances_tally(q1.dgt_total, q1.drt_total, b);
                if let Ok(t) = balances_fold((q1.dgt_total, q1.drt_total, 0, 0), b) {
                    lemma_liquid_push(q1.accounts, (a.address@, t.2, t.3));
                }
            }
        }
    }
}

proof fn lemma_delegations_conserve(p: PlanModel, d: Seq<(Seq<char>, u128)>)
    requires
        conserves(p),
    ensures
        delegations_fold(p, d) matches Ok(q) ==> conserves(q) && q.dgt_total == p.dgt_total,
    decreases d.len(),
{
    if d.len() > 0 {
        lemma_delegations_conserve(p, d.drop_last());
        if let Ok(q) = delegations_fold(p, d.drop_last()) {
            let e = d.last();
            let i = account_index(q.accounts, e.0, 0);
            lemma_account_index(q.accounts, e.0, 0);
            if i >= 0 && q.accounts[i].1 >= e.1 {
                lemma_liquid_update(q.accounts, i, (q.accounts[i].0, (q.accounts[i].1 - e.1) as u128, q.accounts[i].2));
            }
        }
    }
}

pub open spec fn is_conservation_error(e: GenesisError) -> bool {
    e == GenesisError::LiquidOverflow || e == GenesisError::ConservationFailed
}

proof fn lemma_balances_errors(t: (u128, u128, u128, u128), b: Seq<(Seq<char>, u128)>)
    ensures
        balances_fold(t, b) matches Err(e) ==> !is_conservation_error(e),
    decreases b.len(),
{
    if b.len() > 0 {
        lemma_balances_errors(t, b.drop_last());
    }
}

proof fn lemma_accounts_errors(p: PlanModel, reward: bool, accounts: Seq<GenesisAccount>)
    ensures
        accounts_fold(p, reward, accounts) matches Err(e) ==> !is_conservation_error(e),
    decreases accounts.len(),
{
    if accounts.len() > 0 {
        lemma_accounts_errors(p, reward, accounts.drop_last());
        if let Ok(q) = accounts_fold(p, reward, accounts.drop_last()) {
            let a = accounts.last();
            let b = balance_views(a.balances@);
            if let Ok(q1) = vesting_step(q, reward, a.address@, denom_amount(b, udgt_denom()), a.vesting) {
                lemma_balances_errors((q1.dgt_total, q1.drt_total, 0, 0), b);
            }
        }
    }
}

proof fn lemma_delegations_errors(p: PlanModel, d: Seq<(Seq<char>, u128)>)
    ensures
        delegations_fold(p, d) matches Err(e) ==> !is_conservation_error(e),
    decreases d.len(),
{
    if d.len() > 0 {
        lemma_delegations_errors(p, d.drop_last());
    }
}

/// Genesis conserves DGT. For a document whose accounts list each
/// denomination at most once, building never fails its liquid or its
/// conservation check, and in every plan it builds the liquid DGT of all
/// accounts plus the funded stake equals the DGT allocated, which is within
/// the supply cap.
pub proof fn law_genesis_conserves_dgt(doc: Document, chain_id: Seq<char>)
    requires
        document_wf(doc),
    ensures
        build_spec(doc, chain_id) != Err::<PlanModel, GenesisError>(GenesisError::LiquidOverflow),
        build_spec(doc, chain_id) != Err::<PlanModel, GenesisError>(GenesisError::ConservationFailed),
        build_spec(doc, chain_id) matches Ok(p) ==> conserves(p) && p.dgt_total <= DGT_MAX_SUPPLY,
{
    let reward = doc.reward_v2.is_some();
    lemma_accounts_conserve(reward, doc.accounts@);
    lemma_accounts_errors(empty_plan(), reward, doc.accounts@);
    if let Ok(p) = accounts_fold(empty_plan(), reward, doc.accounts@) {
        lemma_delegations_conserve(p, stake_list(doc));
        lemma_delegations_errors(p, stake_list(doc));
        if let Ok(q) = delegations_fold(p, stake_list(doc)) {
            lemma_liquid_nonneg(q.accounts);
        }
    }
}

/// The amount of denomination `d` that the document's accounts list, summed
/// over the accounts.
pub open spec fn input_total(accounts: Seq<GenesisAccount>, d: Seq<char>) -> int
    decreases accounts.len(),
{
    if accounts.len() == 0 {
        0
    } else {
        input_total(accounts.drop_last(), d) + denom_amount(balance_views(accounts.last().balances@), d)
    }
}

proof fn lemma_balances_amounts(d: u128, r: u128, b: Seq<(Seq<char>, u128)>)
    requires
        denominations_distinct(b),
    ensures
        balances_fold((d, r, 0, 0), b) matches Ok(t) ==> {
            &&& t.2 == denom_amount(b, udgt_denom()) && t.3 == denom_amount(b, udrt_denom())
            &&& t.0 == d + t.2 && t.1 == r + t.3
            &&& !has_denom(b, udgt_denom()) ==> t.2 == 0
            &&& !has_denom(b, udrt_denom()) ==> t.3 == 0
        },
    decreases b.len(),
{
    assert(udgt_denom()[2] != udrt_denom()[2]);
    if b.len() > 0 {
        let prev = b.drop_last();
        assert(denominations_distinct(prev)) by {
            assert forall|i: int, j: int| 0 <= i < j < prev.len() implies (#[trigger] prev[i]).0 != (#[trigger] prev[j]).0 by {
                assert(prev[i] == b[i] && prev[j] == b[j]);
            }
        }
        lemma_balances_amounts(d, r, prev);
        let e = b.last();
        if has_denom(prev, e.0) {
            let k = choose|k: int| 0 <= k < prev.len() && (#[trigger] prev[k]).0 == e.0;
            assert(b[k] == prev[k]);
            assert(b[k].0 == b[b.len() - 1].0);
        }
        if has_denom(b, udgt_denom()) && e.0 != udgt_denom() {
            let k = choose|k: int| 0 <= k < b.len() && (#[trigger] b[k]).0 == udgt_denom();
            assert(prev[k] == b[k]);
        }
        if has_denom(b, udrt_denom()) && e.0 != udrt_denom() {
            let k = choose|k: int| 0 <= k < b.len() && (#[trigger] b[k]).0 == udrt_denom();
            assert(prev[k] == b[k]);
        }
        if !has_denom(b, udgt_denom()) && has_denom(prev, udgt_denom()) {
            let k = choose|k: int| 0 <= k < prev.len() && (#[trigger] prev[k]).0 == udgt_denom();
            assert(b[k] == prev[k]);
        }
        if !has_denom(b, udrt_denom()) && has_denom(prev, udrt_denom()) {
            let k = choose|k: int| 0 <= k < prev.len() && (#[trigger] prev[k]).0 == udrt_denom();
            assert(b[k] == prev[k]);
        }
        if e.0 == udgt_denom() || e.0 == udrt_denom() {
            assert(has_denom(b, e.0)) by {
                assert(b[b.len() - 1].0 == e.0);
            }
        }
    }
}

proof fn lemma_accounts_inputs(reward: bool, accounts: Seq<GenesisAccount>)
    requires
        forall|i: int| 0 <= i < accounts.len() ==> denominations_distinct(
            balance_views((#[trigger] accounts[i]).balances@),
        ),
    ensures
        accounts_fold(empty_plan(), reward, accounts) matches Ok(p) ==> {
            &&& p.dgt_total == input_total(accounts, udgt_denom())
            &&& p.drt_total == input_total(accounts, udrt_denom())
            &&& p.delegations.len() == 0
            &&& p.accounts.len() == accounts.len()
            &&& forall|i: int| 0 <= i < accounts.len() ==> (#[trigger] p.accounts[i]).0 == accounts[i].address@
        },
    decreases accounts.len(),
{
    if accounts.len() > 0 {
        let prev = accounts.drop_last();
        assert forall|i: int| 0 <= i < prev.len() implies denominations_distinct(
            balance_views((#[trigger] prev[i]).balances@),
        ) by {
            assert(prev[i] == accounts[i]);
        }
        lemma_accounts_inputs(reward, prev);
        if let Ok(q) = accounts_fold(empty_plan(), reward, prev) {
            let a = accounts.last();
            assert(a == accounts[accounts.len() - 1]);
            let b = balance_views(a.balances@);
            if let Ok(q1) = vesting_step(q, reward, a.address@, denom_amount(b, udgt_denom()), a.vesting) {
                lemma_balances_amounts(q1.dgt_total, q1.drt_total, b);
                if let Ok(p) = accounts_fold(empty_plan(), reward, accounts) {
                    assert forall|i: int| 0 <= i < accounts.len() implies (#[trigger] p.accounts[i]).0 == accounts[i].address@ by {
                        if i < prev.len() {
                            assert(prev[i] == accounts[i]);
                        }
                    }
                }
            }
        }
    }
}

proof fn lemma_delegations_keep(p: PlanModel, d: Seq<(Seq<char>, u128)>)
    ensures
        delegations_fold(p, d) matches Ok(q) ==> {
            &&& q.dgt_total == p.dgt_total && q.drt_total == p.drt_total
            &&& q.delegations == p.delegations + d
            &&& q.accounts.len() == p.accounts.len()
            &&& forall|i: int| 0 <= i < p.accounts.len() ==> (#[trigger] q.accounts[i]).0 == p.accounts[i].0
            &&& forall|k: int| 0 <= k < d.len() ==> exists|j: int| 0 <= j < p.accounts.len() && (#[trigger] p.accounts[j]).0 == (#[trigger] d[k]).0
        },
    decreases d.len(),
{
    if d.len() > 0 {
        let prev = d.drop_last();
        lemma_delegations_keep(p, prev);
        if let Ok(q) = delegations_fold(p, prev) {
            let e = d.last();
            let i = account_index(q.accounts, e.0, 0);
            lemma_account_index(q.accounts, e.0, 0);
            if let Ok(r) = delegations_fold(p, d) {
                assert(r.delegations =~= p.delegations + d) by {
                    assert(q.delegations.push(e) =~= p.delegations + prev.push(e));
                    assert(prev.push(e) =~= d);
                }
                assert forall|k: int| 0 <= k < d.len() implies exists|j: int| 0 <= j < p.accounts.len() && (#[trigger] p.accounts[j]).0 == (#[trigger] d[k]).0 by {
                    if k < prev.len() {
                        assert(prev[k] == d[k]);
                    } else {
                        assert(p.accounts[i].0 == q.accounts[i].0);
                    }
                }
            }
        }
    }
}

/// The plan accounts for its document exactly. For a document whose
/// accounts list each denomination at most once, every plan it builds holds
/// one account per document account, in order; allocates as DGT the sum of
/// the accounts' uDGT, within the supply cap, and as DRT the sum of their
/// uDRT; keeps liquid DGT plus stake equal to the DGT allocated; and records
/// the document's delegations in order, each by an address that the document
/// funds.
pub proof fn law_genesis_plan_matches_document(doc: Document, chain_id: Seq<char>)
    requires
        document_wf(doc),
    ensures
        build_spec(doc, chain_id) matches Ok(p) ==> {
            &&& p.dgt_total == input_total(doc.accounts@, udgt_denom())
            &&& p.dgt_total <= DGT_MAX_SUPPLY
            &&& p.drt_total == input_total(doc.accounts@, udrt_denom())
            &&& liquid_total(p.accounts) + p.stake_total == p.dgt_total
            &&& p.accounts.len() == doc.accounts@.len()
            &&& forall|i: int| 0 <= i < doc.accounts@.len() ==> (#[trigger] p.accounts[i]).0 == doc.accounts@[i].address@
            &&& p.delegations == stake_list(doc)
            &&& forall|k: int| 0 <= k < p.delegations.len() ==> exists|j: int|
                0 <= j < doc.accounts@.len() && (#[trigger] doc.accounts@[j]).address@ == (#[trigger] p.delegations[k]).0
        },
{
    law_genesis_conserves_dgt(doc, chain_id);
    let reward = doc.reward_v2.is_some();
    lemma_accounts_inputs(reward, doc.accounts@);
    if let Ok(p) = accounts_fold(empty_plan(), reward, doc.accounts@) {
        lemma_delegations_keep(p, stake_list(doc));
        if let Ok(q) = delegations_fold(p, stake_list(doc)) {
            assert(q.delegations =~= stake_list(doc));
            assert forall|k: int| 0 <= k < q.delegations.len() implies exists|j: int|
                0 <= j < doc.accounts@.len() && (#[trigger] doc.accounts@[j]).address@ == (#[trigger] q.delegations[k]).0 by {
                assert(q.delegations[k] == stake_list(doc)[k]);
                let j = choose|j: int| 0 <= j < p.accounts.len() && (#[trigger] p.accounts[j]).0 == stake_list(doc)[k].0;
                assert(p.accounts[j].0 == doc.accounts@[j].address@);
            }
        }
    }
}

/// Whether a lock carries exactly the document's linear vesting terms.
pub open spec fn lock_from_terms(v: Option<VestingInput>, l: VestingLock) -> bool {
    v == Some(
        VestingInput::LinearAfterCliff {
            total_amount: l.total_amount,
            start_time: l.start_time,
            cliff_duration: l.cliff_duration,
            vesting_duration: l.vesting_duration,
            allow_staking: l.permits_staking,
        },
    )
}

/// Whether vesting is linear after a cliff.
pub open spec fn is_linear(v: Option<VestingInput>) -> bool {
    match v {
        Some(VestingInput::LinearAfterCliff { .. }) => true,
        _ => false,
    }
}

/// Whether every lock belongs to an account whose terms it carries, and
/// every account with linear vesting has such a lock.
pub open spec fn locks_follow_accounts(locks: Seq<(Seq<char>, VestingLock)>, accounts: Seq<GenesisAccount>) -> bool {
    &&& forall|k: int|
        0 <= k < locks.len() ==> exists|i: int|
            0 <= i < accounts.len() && (#[trigger] accounts[i]).address@ == (#[trigger] locks[k]).0 && lock_from_terms(
                accounts[i].vesting,
                locks[k].1,
            )
    &&& forall|i: int|
        0 <= i < accounts.len() && is_linear((#[trigger] accounts[i]).vesting) ==> exists|k: int|
            0 <= k < locks.len() && (#[trigger] locks[k]).0 == accounts[i].address@ && lock_from_terms(
                accounts[i].vesting,
                locks[k].1,
            )
}

proof fn lemma_accounts_locks(reward: bool, accounts: Seq<GenesisAccount>)
    ensures
        accounts_fold(empty_plan(), reward, accounts) matches Ok(p) ==> locks_follow_accounts(p.locks, accounts),
    decreases accounts.len(),
{
    if accounts.len() > 0 {
        let prev = accounts.drop_last();
        lemma_accounts_locks(reward, prev);
        if let Ok(q) = accounts_fold(empty_plan(), reward, prev) {
            let a = accounts.last();
            let n = accounts.len() - 1;
            assert(a == accounts[n]);
            let b = balance_views(a.balances@);
            if let Ok(q1) = vesting_step(q, reward, a.address@, denom_amount(b, udgt_denom()), a.vesting) {
                if let Ok(p) = accounts_fold(empty_plan(), reward, accounts) {
                    assert(p.locks == q1.locks);
                    assert forall|k: int| 0 <= k < p.locks.len() implies exists|i: int|
                        0 <= i < accounts.len() && (#[trigger] accounts[i]).address@ == (#[trigger] p.locks[k]).0
                            && lock_from_terms(accounts[i].vesting, p.locks[k].1) by {
                        if k < q.locks.len() {
                            assert(p.locks[k] == q.locks[k]);
                            let i = choose|i: int|
                                0 <= i < prev.len() && (#[trigger] prev[i]).address@ == q.locks[k].0 && lock_from_terms(
                                    prev[i].vesting,
                                    q.locks[k].1,
                                );
                            assert(accounts[i] == prev[i]);
                        } else {
                            assert(accounts[n].address@ == p.locks[k].0);
                        }
                    }
                    assert forall|i: int|
                        0 <= i < accounts.len() && is_linear((#[trigger] accounts[i]).vesting) implies exists|k: int|
                        0 <= k < p.locks.len() && (#[trigger] p.locks[k]).0 == accounts[i].address@ && lock_from_terms(
                            accounts[i].vesting,
                            p.locks[k].1,
                        ) by {
                        if i < prev.len() {
                            assert(accounts[i] == prev[i]);
                            let k = choose|k: int|
                                0 <= k < q.locks.len() && (#[trigger] q.locks[k]).0 == prev[i].address@ && lock_from_terms(
                                    prev[i].vesting,
                                    q.locks[k].1,
                                );
                            assert(p.locks[k] == q.locks[k]);
                        } else {
                            let k = q.locks.len() as int;
                            assert(p.locks[k].0 == accounts[i].address@);
                        }
                    }
                }
            }
        }
    }
}

proof fn lemma_delegations_keep_locks(p: PlanModel, d: Seq<(Seq<char>, u128)>)
    ensures
        delegations_fold(p, d) matches Ok(q) ==> q.locks == p.locks,
    decreases d.len(),
{
    if d.len() > 0 {
        lemma_delegations_keep_locks(p, d.drop_last());
    }
}

/// Genesis locks carry the document's vesting terms exactly: in every plan,
/// each lock belongs to a document account and equals that account's linear
/// vesting terms (amount, start, cliff, duration and staking permission),
/// and every account with linear vesting has such a lock.
pub proof fn law_genesis_locks_carry_the_document_terms(doc: Document, chain_id: Seq<char>)
    ensures
        build_spec(doc, chain_id) matches Ok(p) ==> locks_follow_accounts(p.locks, doc.accounts@),
{
    let reward = doc.reward_v2.is_some();
    lemma_accounts_locks(reward, doc.accounts@);
    if let Ok(p) = accounts_fold(empty_plan(), reward, doc.accounts@) {
        lemma_delegations_keep_locks(p, stake_list(doc));
    }
}

/// The first entry at or after `i` whose key is `k`, or -1.
pub open spec fn key_index<A>(s: Seq<(Seq<char>, A)>, k: Seq<char>, i: int) -> int
    decreases s.len() - i,
{
    if i < 0 || i >= s.len() {
        -1
    } else if s[i].0 == k {
        i
    } else {
        key_index(s, k, i + 1)
    }
}

proof fn lemma_key_index<A>(s: Seq<(Seq<char>, A)>, k: Seq<char>, i: int)
    requires
        0 <= i,
    ensures
        key_index(s, k, i) == -1 ==> forall|j: int| i <= j < s.len() ==> (#[trigger] s[j]).0 != k,
        key_index(s, k, i) != -1 ==> i <= key_index(s, k, i) < s.len() && s[key_index(s, k, i)].0 == k,
    decreases s.len() - i,
{
    if i < s.len() && s[i].0 != k {
        lemma_key_index(s, k, i + 1);
    }
}

pub open spec fn development_profile() -> Seq<char> {
    seq!['d', 'e', 'v', 'e', 'l', 'o', 'p', 'm', 'e', 'n', 't']
}

/// Validators of the reward activation, with their status.
pub open spec fn validators_fold(v: Seq<RewardValidatorInput>) -> Result<Seq<(Seq<char>, (bool, bool))>, GenesisError>
    decreases v.len(),
{
    if v.len() == 0 {
        Ok(Seq::empty())
    } else {
        match validators_fold(v.drop_last()) {
            Err(e) => Err(e),
            Ok(prev) => if key_index(prev, v.last().address@, 0) >= 0 {
                Err(GenesisError::DuplicateValidator)
            } else {
                Ok(prev.push((v.last().address@, (v.last().active, v.last().jailed))))
            },
        }
    }
}

/// Bonded positions as (owner, validator, amount), and each owner's total.
pub struct PositionsModel {
    pub positions: Seq<(Seq<char>, Seq<char>, u128)>,
    pub totals: Seq<(Seq<char>, u128)>,
}

pub open spec fn has_position(s: Seq<(Seq<char>, Seq<char>, u128)>, owner: Seq<char>, validator: Seq<char>) -> bool {
    exists|j: int| 0 <= j < s.len() && (#[trigger] s[j]).0 == owner && s[j].1 == validator
}

/// One bonded position checked against the plan and the validators.
pub open spec fn position_step(
    plan: PlanModel,
    validators: Seq<(Seq<char>, (bool, bool))>,
    m: PositionsModel,
    p: RewardPositionInput,
) -> Result<PositionsModel, GenesisError> {
    let owner = p.owner@;
    let li = key_index(plan.locks, owner, 0);
    let ti = key_index(m.totals, owner, 0);
    if p.amount_udgt == 0 {
        Err(GenesisError::NonPositivePosition)
    } else if account_index(plan.accounts, owner, 0) < 0 {
        Err(GenesisError::PositionOwnerUnfunded)
    } else if key_index(validators, p.validator@, 0) < 0 {
        Err(GenesisError::PositionValidatorMissing)
    } else if li >= 0 && !plan.locks[li].1.permits_staking {
        Err(GenesisError::LockForbidsStaking)
    } else if has_position(m.positions, owner, p.validator@) {
        Err(GenesisError::DuplicatePosition)
    } else if ti >= 0 && m.totals[ti].1 + p.amount_udgt > u128::MAX {
        Err(GenesisError::OwnerStakeOverflow)
    } else {
        Ok(PositionsModel {
            positions: m.positions.push((owner, p.validator@, p.amount_udgt)),
            totals: if ti >= 0 {
                m.totals.update(ti, (owner, (m.totals[ti].1 + p.amount_udgt) as u128))
            } else {
                m.totals.push((owner, p.amount_udgt))
            },
        })
    }
}

pub open spec fn positions_fold(
    plan: PlanModel,
    validators: Seq<(Seq<char>, (bool, bool))>,
    p: Seq<RewardPositionInput>,
) -> Result<PositionsModel, GenesisError>
    decreases p.len(),
{
    if p.len() == 0 {
        Ok(PositionsModel { positions: Seq::empty(), totals: Seq::empty() })
    } else {
        match positions_fold(plan, validators, p.drop_last()) {
            Err(e) => Err(e),
            Ok(m) => position_step(plan, validators, m, p.last()),
        }
    }
}

pub open spec fn holds_pair(s: Seq<(Seq<char>, u128)>, x: (Seq<char>, u128)) -> bool {
    exists|j: int| 0 <= j < s.len() && s[j] == x
}

/// Every entry of `a` is an entry of `b`.
pub open spec fn pairs_within(a: Seq<(Seq<char>, u128)>, b: Seq<(Seq<char>, u128)>) -> bool {
    forall|i: int| 0 <= i < a.len() ==> #[trigger] holds_pair(b, a[i])
}

/// Two owner tables hold the same owners with the same totals.
pub open spec fn same_totals(a: Seq<(Seq<char>, u128)>, b: Seq<(Seq<char>, u128)>) -> bool {
    pairs_within(a, b) && pairs_within(b, a)
}

/// The checked reward activation: validators and positions.
pub struct RewardModel {
    pub validators: Seq<(Seq<char>, (bool, bool))>,
    pub positions: PositionsModel,
}

/// What validating the reward activation against a plan gives.
pub open spec fn reward_spec(plan: PlanModel, input: Option<RewardGenesisInput>) -> Result<Option<RewardModel>, GenesisError> {
    match input {
        None => Ok(None),
        Some(r) => if !(r.version == 2 && r.decimals == 6 && r.activation_height == 1) {
            Err(GenesisError::RewardParameters)
        } else if r.profile@ != development_profile() {
            Err(GenesisError::ProductionProfile)
        } else {
            match validators_fold(r.validators@) {
                Err(e) => Err(e),
                Ok(v) => match positions_fold(plan, v, r.positions@) {
                    Err(e) => Err(e),
                    Ok(m) => if !same_totals(m.totals, plan.delegations) {
                        Err(GenesisError::PositionsDiffer)
                    } else {
                        Ok(Some(RewardModel { validators: v, positions: m }))
                    },
                },
            }
        },
    }
}

/// The validated validators and positions of a reward activation.
pub struct RewardBinding {
    pub validators: Vec<(String, (bool, bool))>,
    pub positions: Vec<(String, String, u128)>,
    pub owner_totals: Vec<(String, u128)>,
}

impl View for RewardBinding {
    type V = RewardModel;

    open spec fn view(&self) -> RewardModel {
        RewardModel {
            validators: self.validators@.map_values(|v: (String, (bool, bool))| (v.0@, v.1)),
            positions: PositionsModel {
                positions: self.positions@.map_values(|p: (String, String, u128)| (p.0@, p.1@, p.2)),
                totals: self.owner_totals@.map_values(|t: (String, u128)| (t.0@, t.1)),
            },
        }
    }
}

pub open spec fn validator_views(v: Seq<(String, (bool, bool))>) -> Seq<(Seq<char>, (bool, bool))> {
    v.map_values(|x: (String, (bool, bool))| (x.0@, x.1))
}

pub open spec fn total_views(t: Seq<(String, u128)>) -> Seq<(Seq<char>, u128)> {
    t.map_values(|x: (String, u128)| (x.0@, x.1))
}

pub open spec fn position_views(p: Seq<(String, String, u128)>) -> Seq<(Seq<char>, Seq<char>, u128)> {
    p.map_values(|x: (String, String, u128)| (x.0@, x.1@, x.2))
}

fn find_validator(v: &Vec<(String, (bool, bool))>, a: &str) -> (r: Option<usize>)
    ensures
        match r {
            Some(i) => key_index(validator_views(v@), a@, 0) == i,
            None => key_index(validator_views(v@), a@, 0) == -1,
        },
{
    let mut i: usize = 0;
    while i < v.len()
        invariant
            i <= v@.len(),
            key_index(validator_views(v@), a@, 0) == key_index(validator_views(v@), a@, i as int),
        decreases v@.len() - i,
    {
        if str_eq(v[i].0.as_str(), a) {
            return Some(i);
        }
        i = i + 1;
    }
    None
}

fn find_total(t: &Vec<(String, u128)>, a: &str) -> (r: Option<usize>)
    ensures
        match r {
            Some(i) => key_index(total_views(t@), a@, 0) == i,
            None => key_index(total_views(t@), a@, 0) == -1,
        },
{
    let mut i: usize = 0;
    while i < t.len()
        invariant
            i <= t@.len(),
            key_index(total_views(t@), a@, 0) == key_index(total_views(t@), a@, i as int),
        decreases t@.len() - i,
    {
        if str_eq(t[i].0.as_str(), a) {
            return Some(i);
        }
        i = i + 1;
    }
    None
}

fn find_lock(locks: &Vec<LockEntry>, a: &str) -> (r: Option<usize>)
    ensures
        match r {
            Some(i) => key_index(lock_views(locks@), a@, 0) == i,
            None => key_index(lock_views(locks@), a@, 0) == -1,
        },
{
    let ghost v = lock_views(locks@);
    let mut i: usize = 0;
    while i < locks.len()
        invariant
            i <= locks@.len(),
            v == lock_views(locks@),
            key_index(v, a@, 0) == key_index(v, a@, i as int),
        decreases locks@.len() - i,
    {
        if str_eq(locks[i].address.as_str(), a) {
            return Some(i);
        }
        i = i + 1;
    }
    None
}

fn position_exists(p: &Vec<(String, String, u128)>, owner: &str, validator: &str) -> (r: bool)
    ensures
        r == has_position(position_views(p@), owner@, validator@),
{
    let mut i: usize = 0;
    while i < p.len()
        invariant
            i <= p@.len(),
            forall|j: int| 0 <= j < i ==> !((#[trigger] position_views(p@)[j]).0 == owner@ && position_views(p@)[j].1 == validator@),
        decreases p@.len() - i,
    {
        if str_eq(p[i].0.as_str(), owner) && str_eq(p[i].1.as_str(), validator) {
            assert(position_views(p@)[i as int].0 == owner@ && position_views(p@)[i as int].1 == validator@);
            return true;
        }
        i = i + 1;
    }
    false
}

proof fn lemma_validators_err_sticks(v: Seq<RewardValidatorInput>, i: int)
    requires
        0 <= i <= v.len(),
        validators_fold(v.take(i)) is Err,
    ensures
        validators_fold(v) == validators_fold(v.take(i)),
    decreases v.len() - i,
{
    if i < v.len() {
        assert(v.take(i + 1).drop_last() =~= v.take(i));
        lemma_validators_err_sticks(v, i + 1);
    } else {
        assert(v.take(i) =~= v);
    }
}

proof fn lemma_positions_err_sticks(
    plan: PlanModel,
    vals: Seq<(Seq<char>, (bool, bool))>,
    p: Seq<RewardPositionInput>,
    i: int,
)
    requires
        0 <= i <= p.len(),
        positions_fold(plan, vals, p.take(i)) is Err,
    ensures
        positions_fold(plan, vals, p) == positions_fold(plan, vals, p.take(i)),
    decreases p.len() - i,
{
    if i < p.len() {
        assert(p.take(i + 1).drop_last() =~= p.take(i));
        lemma_positions_err_sticks(plan, vals, p, i + 1);
    } else {
        assert(p.take(i) =~= p);
    }
}

fn is_development(profile: &str) -> (r: bool)
    ensures
        r == (profile@ == development_profile()),
{
    let r = str_eq(profile, "development");
    proof {
        reveal_strlit("development");
        assert("development"@ =~= development_profile());
    }
    r
}

fn check_validators(v: &Vec<RewardValidatorInput>) -> (r: Result<Vec<(String, (bool, bool))>, GenesisError>)
    ensures
        match r {
            Ok(out) => validators_fold(v@) == Ok::<Seq<(Seq<char>, (bool, bool))>, GenesisError>(validator_views(out@)),
            Err(e) => validators_fold(v@) == Err::<Seq<(Seq<char>, (bool, bool))>, GenesisError>(e),
        },
{
    let mut out: Vec<(String, (bool, bool))> = Vec::new();
    let mut i: usize = 0;
    assert(v@.take(0) =~= Seq::<RewardValidatorInput>::empty());
    assert(validator_views(out@) =~= Seq::<(Seq<char>, (bool, bool))>::empty());
    while i < v.len()
        invariant
            i <= v@.len(),
            validators_fold(v@.take(i as int)) == Ok::<Seq<(Seq<char>, (bool, bool))>, GenesisError>(validator_views(out@)),
        decreases v@.len() - i,
    {
        proof {
            assert(v@.take(i as int + 1).drop_last() =~= v@.take(i as int));
            assert(v@.take(i as int + 1).last() == v@[i as int]);
        }
        if find_validator(&out, v[i].address.as_str()).is_some() {
            proof { lemma_validators_err_sticks(v@, i as int + 1); }
            return Err(GenesisError::DuplicateValidator);
        }
        let ghost prev = validator_views(out@);
        out.push((v[i].address.clone(), (v[i].active, v[i].jailed)));
        assert(validator_views(out@) =~= prev.push((v@[i as int].address@, (v@[i as int].active, v@[i as int].jailed))));
        i = i + 1;
    }
    assert(v@.take(i as int) =~= v@);
    Ok(out)
}

impl AllocationPlan {
    fn add_position(
        &self,
        vals: &Vec<(String, (bool, bool))>,
        positions: &mut Vec<(String, String, u128)>,
        totals: &mut Vec<(String, u128)>,
        p: &RewardPositionInput,
    ) -> (r: Result<(), GenesisError>)
        ensures
            match position_step(
                self@,
                validator_views(vals@),
                PositionsModel { positions: position_views(old(positions)@), totals: total_views(old(totals)@) },
                *p,
            ) {
                Ok(m) => r is Ok && position_views(final(positions)@) == m.positions && total_views(final(totals)@) == m.totals,
                Err(e) => r == Err::<(), GenesisError>(e),
            },
    {
        if p.amount_udgt == 0 {
            return Err(GenesisError::NonPositivePosition);
        }
        if find_account(&self.accounts, p.owner.as_str()).is_none() {
            return Err(GenesisError::PositionOwnerUnfunded);
        }
        if find_validator(vals, p.validator.as_str()).is_none() {
            return Err(GenesisError::PositionValidatorMissing);
        }
        match find_lock(&self.locks, p.owner.as_str()) {
            Some(li) => {
                proof { lemma_key_index(self@.locks, p.owner@, 0); }
                if !self.locks[li].lock.permits_staking {
                    return Err(GenesisError::LockForbidsStaking);
                }
            },
            None => {},
        }
        if position_exists(positions, p.owner.as_str(), p.validator.as_str()) {
            return Err(GenesisError::DuplicatePosition);
        }
        let ghost t0 = total_views(totals@);
        let ghost p0 = position_views(positions@);
        match find_total(totals, p.owner.as_str()) {
            Some(ti) => {
                proof { lemma_key_index(t0, p.owner@, 0); }
                let sum = match totals[ti].1.checked_add(p.amount_udgt) {
                    Some(v) => v,
                    None => return Err(GenesisError::OwnerStakeOverflow),
                };
                totals.set(ti, (p.owner.clone(), sum));
                assert(total_views(totals@) =~= t0.update(ti as int, (p.owner@, sum)));
            },
            None => {
                totals.push((p.owner.clone(), p.amount_udgt));
                assert(total_views(totals@) =~= t0.push((p.owner@, p.amount_udgt)));
            },
        }
        positions.push((p.owner.clone(), p.validator.clone(), p.amount_udgt));
        assert(position_views(positions@) =~= p0.push((p.owner@, p.validator@, p.amount_udgt)));
        Ok(())
    }

    fn check_positions(&self, vals: &Vec<(String, (bool, bool))>, input: &Vec<RewardPositionInput>) -> (r: Result<
        (Vec<(String, String, u128)>, Vec<(String, u128)>),
        GenesisError,
    >)
        ensures
            match r {
                Ok((p, t)) => positions_fold(self@, validator_views(vals@), input@) == Ok::<PositionsModel, GenesisError>(
                    PositionsModel { positions: position_views(p@), totals: total_views(t@) },
                ),
                Err(e) => positions_fold(self@, validator_views(vals@), input@) == Err::<PositionsModel, GenesisError>(e),
            },
    {
        let ghost vv = validator_views(vals@);
        let mut positions: Vec<(String, String, u128)> = Vec::new();
        let mut totals: Vec<(String, u128)> = Vec::new();
        let ghost ps = input@;
        assert(ps.take(0) =~= Seq::<RewardPositionInput>::empty());
        assert(position_views(positions@) =~= Seq::<(Seq<char>, Seq<char>, u128)>::empty());
        assert(total_views(totals@) =~= Seq::<(Seq<char>, u128)>::empty());
        let mut i: usize = 0;
        while i < input.len()
            invariant
                i <= ps.len(),
                ps == input@,
                vv == validator_views(vals@),
                positions_fold(self@, vv, ps.take(i as int)) == Ok::<PositionsModel, GenesisError>(
                    PositionsModel { positions: position_views(positions@), totals: total_views(totals@) },
                ),
            decreases ps.len() - i,
        {
            proof {
                assert(ps.take(i as int + 1).drop_last() =~= ps.take(i as int));
                assert(ps.take(i as int + 1).last() == ps[i as int]);
            }
            match self.add_position(vals, &mut positions, &mut totals, &input[i]) {
                Ok(()) => {},
                Err(e) => {
                    proof { lemma_positions_err_sticks(self@, vv, ps, i as int + 1); }
                    return Err(e);
                },
            }
            i = i + 1;
        }
        assert(ps.take(i as int) =~= ps);
        Ok((positions, totals))
    }

    fn totals_match(&self, totals: &Vec<(String, u128)>) -> (r: bool)
        ensures
            r == same_totals(total_views(totals@), self@.delegations),
    {
        let ghost tv = total_views(totals@);
        let ghost dv = self@.delegations;
        let mut k: usize = 0;
        while k < totals.len()
            invariant
                k <= totals@.len(),
                tv == total_views(totals@),
                dv == stake_views(self.delegations@),
                forall|a: int| 0 <= a < k ==> #[trigger] holds_pair(dv, tv[a]),
            decreases totals@.len() - k,
        {
            let mut found = false;
            let mut j: usize = 0;
            while j < self.delegations.len()
                invariant
                    j <= dv.len(),
                    k < tv.len(),
                    dv == stake_views(self.delegations@),
                    tv == total_views(totals@),
                    found == (exists|x: int| 0 <= x < j && dv[x] == tv[k as int]),
                decreases dv.len() - j,
            {
                assert(dv[j as int] == (self.delegations@[j as int].delegator@, self.delegations@[j as int].amount));
                assert(tv[k as int] == (totals@[k as int].0@, totals@[k as int].1));
                if str_eq(self.delegations[j].delegator.as_str(), totals[k].0.as_str())
                    && self.delegations[j].amount == totals[k].1 {
                    found = true;
                }
                j = j + 1;
            }
            if !found {
                assert(!same_totals(tv, dv)) by {
                    assert(!holds_pair(dv, tv[k as int]));
                }
                return false;
            }
            k = k + 1;
        }
        assert(pairs_within(tv, dv));
        let mut k2: usize = 0;
        while k2 < self.delegations.len()
            invariant
                k2 <= dv.len(),
                tv == total_views(totals@),
                dv == stake_views(self.delegations@),
                pairs_within(tv, dv),
                forall|b: int| 0 <= b < k2 ==> #[trigger] holds_pair(tv, dv[b]),
            decreases dv.len() - k2,
        {
            let mut found = false;
            let mut j: usize = 0;
            while j < totals.len()
                invariant
                    j <= tv.len(),
                    k2 < dv.len(),
                    dv == stake_views(self.delegations@),
                    tv == total_views(totals@),
                    found == (exists|x: int| 0 <= x < j && tv[x] == dv[k2 as int]),
                decreases tv.len() - j,
            {
                assert(dv[k2 as int] == (self.delegations@[k2 as int].delegator@, self.delegations@[k2 as int].amount));
                assert(tv[j as int] == (totals@[j as int].0@, totals@[j as int].1));
                if str_eq(totals[j].0.as_str(), self.delegations[k2].delegator.as_str())
                    && totals[j].1 == self.delegations[k2].amount {
                    found = true;
                }
                j = j + 1;
            }
            if !found {
                assert(!same_totals(tv, dv)) by {
                    assert(!holds_pair(tv, dv[k2 as int]));
                }
                return false;
            }
            k2 = k2 + 1;
        }
        assert(pairs_within(dv, tv));
        true
    }

    /// Check the reward activation against this plan: parameters, distinct
    /// validators, funded and permitted positions, and owner totals that
    /// equal the funded delegations.
    pub fn validate_reward(&self) -> (r: Result<Option<RewardBinding>, GenesisError>)
        ensures
            match (r, reward_spec(self@, self.reward_v2)) {
                (Ok(None), Ok(None)) => true,
                (Ok(Some(b)), Ok(Some(m))) => b@ == m,
                (Err(e), Err(e2)) => e == e2,
                _ => false,
            },
    {
        let input = match &self.reward_v2 {
            None => return Ok(None),
            Some(input) => input,
        };
        if !(input.version == 2 && input.decimals == 6 && input.activation_height == 1) {
            return Err(GenesisError::RewardParameters);
        }
        if !is_development(input.profile.as_str()) {
            return Err(GenesisError::ProductionProfile);
        }
        let vals = match check_validators(&input.validators) {
            Ok(v) => v,
            Err(e) => return Err(e),
        };
        let (positions, totals) = match self.check_positions(&vals, &input.positions) {
            Ok(pt) => pt,
            Err(e) => return Err(e),
        };
        if !self.totals_match(&totals) {
            return Err(GenesisError::PositionsDiffer);
        }
        let binding = RewardBinding { validators: vals, positions, owner_totals: totals };
        Ok(Some(binding))
    }
}

/// The SHA-256 digest of a byte string.
pub uninterp spec fn sha256_digest(data: Seq<u8>) -> Seq<u8>;

/// Calls `sha2::Sha256::digest`. The contract claims only that the result
/// is the 32-byte SHA-256 digest of the input, named `sha256_digest`.
#[verifier::external_body]
fn sha256(data: &[u8]) -> (r: Vec<u8>)
    ensures
        r@ == sha256_digest(data@),
        r@.len() == 32,
{
    sha2::Sha256::digest(data).to_vec()
}

/// The lowercase hexadecimal digit for a value below 16.
pub open spec fn hex_digit(n: u8) -> char {
    if n < 10 {
        (48 + n) as char
    } else {
        (87 + n) as char
    }
}

/// Lowercase hexadecimal text of a byte string, high nibble first.
pub open spec fn hex_chars(b: Seq<u8>) -> Seq<char>
    decreases b.len(),
{
    if b.len() == 0 {
        Seq::empty()
    } else {
        hex_chars(b.drop_last()) + seq![hex_digit(b.last() / 16), hex_digit(b.last() % 16)]
    }
}

/// Calls `hex::encode`, which writes each byte as two lowercase hexadecimal
/// digits, high nibble first.
#[verifier::external_body]
pub(crate) fn hex_encode(data: &[u8]) -> (r: String)
    ensures
        r@ == hex_chars(data@),
{
    hex::encode(data)
}

/// The domain tag that opens the genesis marker's preimage.
pub open spec fn genesis_domain() -> Seq<u8> {
    encode_utf8("dytallix-selected-node-genesis-monetary-v1"@)
}

/// What the genesis marker hashes: the domain tag, the chain ID with its
/// byte length, and the source document, if there is one, after a presence
/// byte.
pub open spec fn marker_preimage(chain_id: Seq<u8>, source: Option<Seq<u8>>) -> Seq<u8> {
    genesis_domain() + be_bytes(chain_id.len() as nat, 8) + chain_id + match source {
        Some(b) => seq![1u8] + b,
        None => seq![0u8],
    }
}

/// The stored genesis marker: a version byte, then the preimage's digest.
pub open spec fn marker_spec(chain_id: Seq<u8>, source: Option<Seq<u8>>) -> Seq<u8> {
    seq![1u8] + sha256_digest(marker_preimage(chain_id, source))
}

pub open spec fn source_view(source: Option<&[u8]>) -> Option<Seq<u8>> {
    match source {
        Some(b) => Some(b@),
        None => None,
    }
}

/// The marker that binds a store to its chain ID and genesis source.
pub fn genesis_marker(chain_id: &str, source: Option<&[u8]>) -> (r: Vec<u8>)
    ensures
        r@ == marker_spec(encode_utf8(chain_id@), source_view(source)),
{
    let mut pre: Vec<u8> = Vec::new();
    push_all(&mut pre, "dytallix-selected-node-genesis-monetary-v1".as_bytes());
    let id = chain_id.as_bytes();
    push_be(&mut pre, id.len() as u128, 8);
    push_all(&mut pre, id);
    match source {
        Some(b) => {
            pre.push(1u8);
            push_all(&mut pre, b);
        },
        None => {
            pre.push(0u8);
        },
    }
    assert(pre@ =~= marker_preimage(encode_utf8(chain_id@), source_view(source)));
    let digest = sha256(pre.as_slice());
    let mut marker: Vec<u8> = Vec::new();
    marker.push(1u8);
    push_all(&mut marker, digest.as_slice());
    assert(marker@ =~= marker_spec(encode_utf8(chain_id@), source_view(source)));
    marker
}

/// The hexadecimal genesis digest that reward and issuance state record:
/// the marker without its version byte.
pub fn genesis_digest_hex(marker: &Vec<u8>) -> (r: String)
    requires
        marker@.len() >= 1,
    ensures
        r@ == hex_chars(marker@.skip(1)),
{
    let mut tail: Vec<u8> = Vec::new();
    let mut i: usize = 1;
    while i < marker.len()
        invariant
            1 <= i <= marker@.len(),
            tail@ == marker@.subrange(1, i as int),
        decreases marker@.len() - i,
    {
        tail.push(marker[i]);
        i = i + 1;
        assert(tail@ =~= marker@.subrange(1, i as int));
    }
    assert(tail@ =~= marker@.skip(1));
    hex_encode(tail.as_slice())
}

#[derive(Debug, Clone, Copy, PartialEq, Eq, Structural)]
pub enum Initialization {
    Created,
    Existing,
}

/// What the store holds, read under exclusive access before any decision.
pub struct StoredGenesis {
    /// The stored genesis marker, if any.
    pub marker: Option<Vec<u8>>,
    /// The stored consensus mode configuration, if any.
    pub mode: Option<Vec<u8>>,
    /// The stored chain ID bytes, if any.
    pub chain_id: Option<Vec<u8>>,
    /// The stored DRT genesis counter.
    pub drt_genesis: u128,
    /// Whether a reward state is stored, and if so whether its configuration
    /// equals the one the document activates.
    pub reward_state: Option<bool>,
    /// Whether any legacy reward liability is nonzero.
    pub legacy_liabilities: bool,
    /// Whether a record of qualified account state is present.
    pub qualified_state: bool,
    /// Whether the store holds no record at all.
    pub empty: bool,
    /// The keys of the stored adaptive journal and issuance records, those
    /// under `adaptive:` first, each prefix in key order.
    pub timing_keys: Vec<Vec<u8>>,
    /// Whether the stored timing state and journal verify together, and if
    /// so whether their configuration, chain ID, genesis digest and binding
    /// equal the ones the document activates.
    pub timing_state: Option<bool>,
}

/// Whether `k` begins with the bytes `p`.
pub open spec fn byte_prefix(p: Seq<u8>, k: Seq<u8>) -> bool {
    p.len() <= k.len() && k.take(p.len() as int) == p
}

/// Whether a key is an adaptive journal record: the head, or an event.
pub open spec fn adaptive_journal_key(k: Seq<u8>) -> bool {
    k == encode_utf8("adaptive:v1:head"@) || byte_prefix(encode_utf8("adaptive:v1:event:"@), k)
}

/// The first refusal that the stored adaptive and issuance records give,
/// from the `i`-th on: a record without an adaptive activation, more
/// records than the history's bound, or an adaptive record that is neither
/// the journal head nor one of its events.
pub open spec fn timing_record_fault(keys: Seq<Seq<u8>>, active: bool, limit: int, i: int) -> Option<GenesisError>
    decreases keys.len() - i,
{
    if i < 0 || i >= keys.len() {
        None
    } else if !active {
        Some(GenesisError::TimingStateUnexpected)
    } else if i + 1 > limit {
        Some(GenesisError::TimingHistoryBound)
    } else if byte_prefix(encode_utf8("adaptive:"@), keys[i]) && !adaptive_journal_key(keys[i]) {
        Some(GenesisError::UnknownAdaptiveRecord)
    } else {
        timing_record_fault(keys, active, limit, i + 1)
    }
}

/// The reopening check of the stored timing records: with an adaptive
/// activation of `m` recorded epochs, at most `2 * m + 2` well-named records
/// and a verified state equal to the activated one; without one, no record.
pub open spec fn timing_spec(keys: Seq<Seq<u8>>, timing: Option<u64>, state: Option<bool>) -> Result<(), GenesisError> {
    match timing {
        Some(m) => if 2 * m + 2 > u64::MAX {
            Err(GenesisError::TimingLimitOverflow)
        } else {
            match timing_record_fault(keys, true, 2 * m + 2, 0) {
                Some(e) => Err(e),
                None => match state {
                    None => Err(GenesisError::TimingStateInvalid),
                    Some(false) => Err(GenesisError::TimingConfigDiffers),
                    Some(true) => Ok(()),
                },
            }
        },
        None => match timing_record_fault(keys, false, 0, 0) {
            Some(e) => Err(e),
            None => Ok(()),
        },
    }
}

fn byte_starts_with(k: &[u8], p: &[u8]) -> (r: bool)
    ensures
        r == byte_prefix(p@, k@),
{
    if p.len() > k.len() {
        return false;
    }
    let mut i: usize = 0;
    while i < p.len()
        invariant
            i <= p@.len(),
            p@.len() <= k@.len(),
            forall|j: int| 0 <= j < i ==> k@[j] == p@[j],
        decreases p@.len() - i,
    {
        if k[i] != p[i] {
            assert(k@.take(p@.len() as int)[i as int] != p@[i as int]);
            return false;
        }
        i = i + 1;
    }
    assert(k@.take(p@.len() as int) =~= p@);
    true
}

/// Check the stored adaptive journal and issuance records on reopening,
/// against the document's adaptive activation and the verified state.
pub fn check_timing(keys: &Vec<Vec<u8>>, timing: Option<u64>, state: Option<bool>) -> (r: Result<(), GenesisError>)
    ensures
        r == timing_spec(crate::record_keys::key_views(keys@), timing, state),
{
    let ghost kv = crate::record_keys::key_views(keys@);
    let limit: u64 = match timing {
        Some(m) => match m.checked_mul(2) {
            Some(d) => match d.checked_add(2) {
                Some(l) => l,
                None => return Err(GenesisError::TimingLimitOverflow),
            },
            None => return Err(GenesisError::TimingLimitOverflow),
        },
        None => 0,
    };
    let active = timing.is_some();
    let adaptive = "adaptive:".as_bytes();
    let head = "adaptive:v1:head".as_bytes();
    let event = "adaptive:v1:event:".as_bytes();
    let mut i: usize = 0;
    while i < keys.len()
        invariant
            i <= keys@.len(),
            kv == crate::record_keys::key_views(keys@),
            active == timing.is_some(),
            timing matches Some(m) ==> limit == 2 * m + 2,
            timing.is_none() ==> limit == 0,
            adaptive@ == encode_utf8("adaptive:"@),
            head@ == encode_utf8("adaptive:v1:head"@),
            event@ == encode_utf8("adaptive:v1:event:"@),
            timing_record_fault(kv, active, limit as int, 0) == timing_record_fault(kv, active, limit as int, i as int),
        decreases keys@.len() - i,
    {
        let key = keys[i].as_slice();
        assert(key@ == kv[i as int]);
        if !active {
            return Err(GenesisError::TimingStateUnexpected);
        }
        if i as u64 >= limit {
            return Err(GenesisError::TimingHistoryBound);
        }
        if byte_starts_with(key, adaptive) && !(crate::record_keys::bytes_equal(key, head) || byte_starts_with(key, event)) {
            return Err(GenesisError::UnknownAdaptiveRecord);
        }
        i = i + 1;
    }
    if !active {
        return Ok(());
    }
    match state {
        None => Err(GenesisError::TimingStateInvalid),
        Some(false) => Err(GenesisError::TimingConfigDiffers),
        Some(true) => Ok(()),
    }
}

pub open spec fn opt_bytes(o: Option<Vec<u8>>) -> Option<Seq<u8>> {
    match o {
        Some(v) => Some(v@),
        None => None,
    }
}

pub open spec fn blank(c: Seq<char>) -> bool {
    forall|i: int| 0 <= i < c.len() ==> is_whitespace_spec(#[trigger] c[i])
}

/// The document that an absent genesis source stands for.
pub open spec fn default_document_matches(doc: Document, chain_id: Seq<char>) -> bool {
    &&& doc.chain_id@ == chain_id
    &&& doc.accounts@.len() == 0
    &&& doc.staking.is_none()
    &&& doc.reward_v2.is_none()
    &&& doc.adaptive_issuance.is_none()
}

/// The checks a store that already has a marker must pass.
pub open spec fn existing_spec(
    store: StoredGenesis,
    chain_id: Seq<char>,
    config: Option<Seq<u8>>,
    marker: Seq<u8>,
    plan: PlanModel,
    rewarded: bool,
    timing: Option<u64>,
) -> Result<Initialization, GenesisError> {
    let timed = match timing_spec(crate::record_keys::key_views(store.timing_keys@), timing, store.timing_state) {
        Err(e) => Err(e),
        Ok(()) => Ok(Initialization::Existing),
    };
    if opt_bytes(store.mode) != config {
        Err(GenesisError::ModeDiffers)
    } else if store.marker.unwrap()@ != marker {
        Err(GenesisError::SourceDiffers)
    } else if opt_bytes(store.chain_id) != Some(encode_utf8(chain_id)) {
        Err(GenesisError::StoredChainIdDiffers)
    } else if store.drt_genesis != plan.drt_total {
        Err(GenesisError::DrtCounterDiffers)
    } else {
        match (rewarded, store.reward_state) {
            (true, Some(same)) => if !same {
                Err(GenesisError::RewardConfigDiffers)
            } else if store.legacy_liabilities {
                Err(GenesisError::LegacyRewardLiabilities)
            } else {
                timed
            },
            (true, None) => Err(GenesisError::RewardStateMissing),
            (false, Some(_)) => Err(GenesisError::RewardStateUnexpected),
            (false, None) => timed,
        }
    }
}

/// The outcome of initialization, after the document was read: `Existing`
/// when the store already holds this genesis, `Created` when an empty store
/// is to receive it.
pub open spec fn decide_spec(
    store: StoredGenesis,
    chain_id: Seq<char>,
    source: Option<Seq<u8>>,
    config: Option<Seq<u8>>,
    plan: PlanModel,
    rewarded: bool,
    timing: Option<u64>,
) -> Result<Initialization, GenesisError> {
    if store.marker.is_some() {
        existing_spec(store, chain_id, config, marker_spec(encode_utf8(chain_id), source), plan, rewarded, timing)
    } else if !store.empty {
        Err(GenesisError::UnmarkedStore)
    } else if config.is_some() && source.is_none() {
        Err(GenesisError::ConsensusRequiresSource)
    } else {
        Ok(Initialization::Created)
    }
}

/// A successful initialization: its status, the validated plan, the marker
/// and the checked reward activation.
pub struct Initialized {
    pub status: Initialization,
    pub plan: AllocationPlan,
    pub marker: Vec<u8>,
    pub reward: Option<RewardBinding>,
}

fn opt_vec_eq(a: &Option<Vec<u8>>, b: Option<&[u8]>) -> (r: bool)
    ensures
        r == (opt_bytes(*a) == source_view(b)),
{
    match (a, b) {
        (Some(x), Some(y)) => crate::record_keys::bytes_equal(x.as_slice(), y),
        (None, None) => true,
        _ => false,
    }
}

fn decide(
    store: &StoredGenesis,
    chain_id: &str,
    source: Option<&[u8]>,
    config: Option<&[u8]>,
    plan: &AllocationPlan,
    rewarded: bool,
    marker: &Vec<u8>,
) -> (r: Result<Initialization, GenesisError>)
    requires
        marker@ == marker_spec(encode_utf8(chain_id@), source_view(source)),
    ensures
        r == decide_spec(*store, chain_id@, source_view(source), source_view(config), plan@, rewarded, plan.adaptive_issuance),
{
    match &store.marker {
        Some(stored) => {
            if !opt_vec_eq(&store.mode, config) {
                return Err(GenesisError::ModeDiffers);
            }
            if !crate::record_keys::bytes_equal(stored.as_slice(), marker.as_slice()) {
                return Err(GenesisError::SourceDiffers);
            }
            if !opt_vec_eq(&store.chain_id, Some(chain_id.as_bytes())) {
                return Err(GenesisError::StoredChainIdDiffers);
            }
            if store.drt_genesis != plan.drt_total {
                return Err(GenesisError::DrtCounterDiffers);
            }
            match (rewarded, store.reward_state) {
                (true, Some(same)) => {
                    if !same {
                        return Err(GenesisError::RewardConfigDiffers);
                    }
                    if store.legacy_liabilities {
                        return Err(GenesisError::LegacyRewardLiabilities);
                    }
                },
                (true, None) => return Err(GenesisError::RewardStateMissing),
                (false, Some(_)) => return Err(GenesisError::RewardStateUnexpected),
                (false, None) => {},
            }
            match check_timing(&store.timing_keys, plan.adaptive_issuance, store.timing_state) {
                Err(e) => Err(e),
                Ok(()) => Ok(Initialization::Existing),
            }
        },
        None => {
            if !store.empty {
                return Err(GenesisError::UnmarkedStore);
            }
            if config.is_some() && source.is_none() {
                return Err(GenesisError::ConsensusRequiresSource);
            }
            Ok(Initialization::Created)
        },
    }
}

/// What one-time genesis initialization gives on these inputs.
pub open spec fn initialization_outcome(
    store: StoredGenesis,
    chain_id: &str,
    source: Option<&[u8]>,
    parsed: Option<Document>,
    consensus_config: Option<&[u8]>,
    has_root: bool,
    r: Result<Initialized, GenesisError>,
) -> bool {
    &&& (has_root && consensus_config.is_none() ==> r == Err::<Initialized, GenesisError>(
            GenesisError::RootRequiresConsensus,
        ))
    &&& (!(has_root && consensus_config.is_none()) && consensus_config.is_none() && store.qualified_state
            ==> r == Err::<Initialized, GenesisError>(GenesisError::QualifiedState))
    &&& (!(has_root && consensus_config.is_none()) && !(consensus_config.is_none() && store.qualified_state)
            ==> {
            if blank(chain_id@) {
                r == Err::<Initialized, GenesisError>(GenesisError::EmptyChainId)
            } else if source.is_some() && parsed.is_none() {
                r == Err::<Initialized, GenesisError>(GenesisError::InvalidDocument)
            } else {
                match r {
                    Ok(init) => {
                        &&& source.is_some() ==> build_spec(parsed.unwrap(), chain_id@) == Ok::<PlanModel, GenesisError>(init.plan@)
                        &&& source.is_some() ==> init.plan.reward_v2 == parsed.unwrap().reward_v2
                        &&& source.is_some() ==> init.plan.adaptive_issuance == parsed.unwrap().adaptive_issuance
                        &&& source.is_none() ==> init.plan@ == empty_plan() && init.plan.reward_v2.is_none()
                            && init.plan.adaptive_issuance.is_none()
                        &&& init.marker@ == marker_spec(encode_utf8(chain_id@), source_view(source))
                        &&& reward_spec(init.plan@, init.plan.reward_v2) matches Ok(m) && match (m, init.reward) {
                            (None, None) => true,
                            (Some(a), Some(b)) => b@ == a,
                            _ => false,
                        }
                        &&& decide_spec(store, chain_id@, source_view(source), source_view(consensus_config), init.plan@, init.plan.reward_v2.is_some(), init.plan.adaptive_issuance)
                            == Ok::<Initialization, GenesisError>(init.status)
                    },
                    Err(e) => {
                        ||| source.is_some() && build_spec(parsed.unwrap(), chain_id@) == Err::<PlanModel, GenesisError>(e)
                        ||| exists|p: AllocationPlan| {
                            &&& (source.is_some() ==> build_spec(parsed.unwrap(), chain_id@) == Ok::<PlanModel, GenesisError>(p@))
                            &&& (source.is_some() ==> p.reward_v2 == parsed.unwrap().reward_v2)
                            &&& (source.is_some() ==> p.adaptive_issuance == parsed.unwrap().adaptive_issuance)
                            &&& (source.is_none() ==> p@ == empty_plan() && p.reward_v2.is_none() && p.adaptive_issuance.is_none())
                            &&& (reward_spec(p@, p.reward_v2) == Err::<Option<RewardModel>, GenesisError>(e)
                                || (reward_spec(p@, p.reward_v2) is Ok && decide_spec(store, chain_id@, source_view(source), source_view(consensus_config), p@, p.reward_v2.is_some(), p.adaptive_issuance)
                                    == Err::<Initialization, GenesisError>(e)))
                        }
                    },
                }
            }
        })
}

/// One-time genesis monetary initialization, decided on what the store
/// holds. `parsed` is the document read from `source`; an absent source
/// stands for a document with the configured chain ID and nothing else.
/// On `Created` the caller writes the plan, the marker and the reward state
/// in one atomic batch, with the batch that `genesis_batch` encodes; on
/// `Existing` it writes nothing.
pub fn initialize(
    store: &StoredGenesis,
    chain_id: &str,
    source: Option<&[u8]>,
    parsed: Option<Document>,
    consensus_config: Option<&[u8]>,
    has_root: bool,
) -> (r: Result<Initialized, GenesisError>)
    ensures
        initialization_outcome(*store, chain_id, source, parsed, consensus_config, has_root, r),
{
    if has_root && consensus_config.is_none() {
        return Err(GenesisError::RootRequiresConsensus);
    }
    if consensus_config.is_none() && store.qualified_state {
        return Err(GenesisError::QualifiedState);
    }
    let mut nonblank = false;
    for c in it: chain_id.chars()
        invariant
            it.seq() == chain_id@,
            nonblank == !(forall|j: int| 0 <= j < it.index() ==> is_whitespace_spec(#[trigger] chain_id@[j])),
    {
        if !crate::text::is_whitespace(c) {
            nonblank = true;
        }
    }
    if !nonblank {
        return Err(GenesisError::EmptyChainId);
    }
    let document = match source {
        Some(_) => match parsed {
            Some(d) => d,
            None => return Err(GenesisError::InvalidDocument),
        },
        None => Document {
            chain_id: String::from_str(chain_id),
            accounts: Vec::new(),
            staking: None,
            reward_v2: None,
            adaptive_issuance: None,
        },
    };
    let ghost doc = document;
    let plan = match AllocationPlan::build(document, chain_id) {
        Ok(p) => p,
        Err(e) => {
            proof {
                if source.is_none() {
                    assert(doc.accounts@ =~= Seq::<GenesisAccount>::empty());
                    assert(stake_list(doc) =~= Seq::<(Seq<char>, u128)>::empty());
                    assert(liquid_total(empty_plan().accounts) == 0);
                }
            }
            return Err(e);
        },
    };
    proof {
        if source.is_none() {
            assert(doc.accounts@ =~= Seq::<GenesisAccount>::empty());
            assert(stake_list(doc) =~= Seq::<(Seq<char>, u128)>::empty());
            assert(plan@ == empty_plan());
        }
    }
    let marker = genesis_marker(chain_id, source);
    let reward = match plan.validate_reward() {
        Ok(r) => r,
        Err(e) => return Err(e),
    };
    let rewarded = plan.reward_v2.is_some();
    let status = match decide(store, chain_id, source, consensus_config, &plan, rewarded, &marker) {
        Ok(s) => s,
        Err(e) => return Err(e),
    };
    Ok(Initialized { status, plan, marker, reward })
}

/// Initialize a fresh consensus store with its canonical configuration of
/// 1 through 65536 bytes; an existing development store cannot change mode.
pub fn initialize_consensus(
    store: &StoredGenesis,
    chain_id: &str,
    source: &[u8],
    parsed: Option<Document>,
    config: &[u8],
) -> (r: Result<Initialized, GenesisError>)
    ensures
        (config@.len() == 0 || config@.len() > 65536) ==> r == Err::<Initialized, GenesisError>(
            GenesisError::ConsensusConfigSize,
        ),
        !(config@.len() == 0 || config@.len() > 65536) ==> initialization_outcome(
            *store,
            chain_id,
            Some(source),
            parsed,
            Some(config),
            false,
            r,
        ),
{
    if config.len() == 0 || config.len() > 65536 {
        return Err(GenesisError::ConsensusConfigSize);
    }
    initialize(store, chain_id, Some(source), parsed, Some(config), false)
}

/// Initialize a fresh consensus store, with or without a prepared root
/// authorization, from a configuration of 1 through 65536 bytes.
pub fn initialize_consensus_with_root(
    store: &StoredGenesis,
    chain_id: &str,
    source: &[u8],
    parsed: Option<Document>,
    config: &[u8],
    has_root: bool,
) -> (r: Result<Initialized, GenesisError>)
    ensures
        (config@.len() == 0 || config@.len() > 65536) ==> r == Err::<Initialized, GenesisError>(
            GenesisError::ConsensusConfigSizeDiffers,
        ),
        !(config@.len() == 0 || config@.len() > 65536) ==> initialization_outcome(
            *store,
            chain_id,
            Some(source),
            parsed,
            Some(config),
            has_root,
            r,
        ),
{
    if config.len() == 0 || config.len() > 65536 {
        return Err(GenesisError::ConsensusConfigSizeDiffers);
    }
    initialize(store, chain_id, Some(source), parsed, Some(config), has_root)
}

/// Whether stored timing records are what an initialization with this
/// adaptive activation keeps: none without one; with one of `m` recorded
/// epochs, at most `2 * m + 2` records, each the journal head, a journal
/// event or an issuance record, and a verified state equal to the
/// activated one.
pub open spec fn timing_kept(store: StoredGenesis, timing: Option<u64>) -> bool {
    let keys = crate::record_keys::key_views(store.timing_keys@);
    match timing {
        None => keys.len() == 0,
        Some(m) => {
            &&& 2 * m + 2 <= u64::MAX
            &&& keys.len() <= 2 * m + 2
            &&& store.timing_state == Some(true)
            &&& forall|i: int| 0 <= i < keys.len() ==> adaptive_journal_key(#[trigger] keys[i]) || byte_prefix(
                encode_utf8("issuance:"@),
                keys[i],
            )
        },
    }
}

proof fn lemma_issuance_key_is_not_adaptive(k: Seq<u8>)
    requires
        byte_prefix(encode_utf8("issuance:"@), k),
    ensures
        !byte_prefix(encode_utf8("adaptive:"@), k),
{
    reveal_strlit("issuance:");
    reveal_strlit("adaptive:");
    vstd::utf8::is_ascii_chars_encode_utf8("issuance:"@);
    vstd::utf8::is_ascii_chars_encode_utf8("adaptive:"@);
    assert(encode_utf8("issuance:"@)[0] == 105u8);
    assert(encode_utf8("adaptive:"@)[0] == 97u8);
    assert(k.take(encode_utf8("issuance:"@).len() as int)[0] == k[0]);
    if byte_prefix(encode_utf8("adaptive:"@), k) {
        assert(k.take(encode_utf8("adaptive:"@).len() as int)[0] == k[0]);
    }
}

proof fn lemma_kept_records_pass(keys: Seq<Seq<u8>>, limit: int, i: int)
    requires
        0 <= i,
        keys.len() <= limit,
        forall|j: int| 0 <= j < keys.len() ==> adaptive_journal_key(#[trigger] keys[j]) || byte_prefix(
            encode_utf8("issuance:"@),
            keys[j],
        ),
    ensures
        timing_record_fault(keys, true, limit, i) is None,
    decreases keys.len() - i,
{
    if i < keys.len() {
        if !adaptive_journal_key(keys[i]) {
            lemma_issuance_key_is_not_adaptive(keys[i]);
        }
        lemma_kept_records_pass(keys, limit, i + 1);
    }
}

/// Initialization happens once: a store that holds what an initialization
/// wrote (its marker, mode, chain ID, DRT counter, matching reward state and
/// the timing records its adaptive activation keeps) is recognized on
/// reopening as `Existing`, and writes nothing; a source whose marker
/// differs is refused under the same mode.
pub proof fn law_initialized_store_is_recognized_on_reopen(
    store: StoredGenesis,
    chain_id: Seq<char>,
    source: Option<Seq<u8>>,
    other_source: Option<Seq<u8>>,
    config: Option<Seq<u8>>,
    plan: PlanModel,
    rewarded: bool,
    timing: Option<u64>,
)
    requires
        opt_bytes(store.marker) == Some(marker_spec(encode_utf8(chain_id), source)),
        opt_bytes(store.mode) == config,
        opt_bytes(store.chain_id) == Some(encode_utf8(chain_id)),
        store.drt_genesis == plan.drt_total,
        store.reward_state == (if rewarded {
            Some(true)
        } else {
            None
        }),
        !store.legacy_liabilities,
        timing_kept(store, timing),
    ensures
        decide_spec(store, chain_id, source, config, plan, rewarded, timing) == Ok::<Initialization, GenesisError>(
            Initialization::Existing,
        ),
        marker_spec(encode_utf8(chain_id), other_source) != marker_spec(encode_utf8(chain_id), source)
            ==> decide_spec(store, chain_id, other_source, config, plan, rewarded, timing) == Err::<
            Initialization,
            GenesisError,
        >(GenesisError::SourceDiffers),
{
    let keys = crate::record_keys::key_views(store.timing_keys@);
    match timing {
        Some(m) => lemma_kept_records_pass(keys, 2 * m + 2, 0),
        None => {},
    }
}

/// The bincode entries of balances: each denomination's byte length as 8
/// little-endian bytes, its UTF-8 bytes and its amount as 16 little-endian
/// bytes.
pub open spec fn bincode_entries(e: Seq<(Seq<char>, u128)>) -> Seq<u8>
    decreases e.len(),
{
    if e.len() == 0 {
        Seq::empty()
    } else {
        bincode_entries(e.drop_last()) + crate::bytes::le_bytes(encode_utf8(e.last().0).len(), 8) + encode_utf8(
            e.last().0,
        ) + crate::bytes::le_bytes(e.last().1 as nat, 16)
    }
}

/// The bincode encoding of a map of balances, entries in key order: the
/// entry count as 8 little-endian bytes, then the entries.
pub open spec fn bincode_map(e: Seq<(Seq<char>, u128)>) -> Seq<u8> {
    crate::bytes::le_bytes(e.len(), 8) + bincode_entries(e)
}

/// Calls `bincode::serialize` on balance entries. Under its default options
/// (fixed-width integers, little-endian, no size limit) a sequence is its
/// length as 8 little-endian bytes followed by its elements, a pair is its
/// two fields in order, a string is its byte length as 8 little-endian bytes
/// followed by its UTF-8 bytes, and a `u128` is 16 little-endian bytes; a map
/// is written in the same way, as the sequence of its entries. Serializing
/// into a vector with a known length never fails for these types.
#[verifier::external_body]
fn bincode_balances(entries: &Vec<(String, u128)>) -> (r: Vec<u8>)
    ensures
        r@ == bincode_map(balance_views(entries@)),
{
    bincode::serialize(entries).unwrap_or_default()
}

/// Calls `bincode::serialize` on a `u128`, which under its default options
/// is the value's 16 little-endian bytes; it never fails for this type.
#[verifier::external_body]
fn bincode_u128(v: u128) -> (r: Vec<u8>)
    ensures
        r@ == crate::bytes::le_bytes(v as nat, 16),
{
    bincode::serialize(&v).unwrap_or_default()
}

/// An account's balances as the store holds them: the nonzero amounts, by
/// denomination.
pub open spec fn nonzero_balances(udgt: u128, udrt: u128) -> Seq<(Seq<char>, u128)> {
    (if udgt > 0 {
        seq![(udgt_denom(), udgt)]
    } else {
        Seq::empty()
    }) + (if udrt > 0 {
        seq![(udrt_denom(), udrt)]
    } else {
        Seq::empty()
    })
}

/// The balance record of an account: its key and its value.
pub open spec fn balance_record(a: (Seq<char>, u128, u128)) -> (Seq<u8>, Seq<u8>) {
    (encode_utf8("acct:balances:"@) + encode_utf8(a.0), bincode_map(nonzero_balances(a.1, a.2)))
}

/// The keyed records of a created genesis: each account's balances in plan
/// order, the DRT genesis counter, the chain ID and the genesis marker last.
pub open spec fn genesis_records_spec(plan: PlanModel, chain_id: Seq<char>, marker: Seq<u8>) -> Seq<(Seq<u8>, Seq<u8>)> {
    plan.accounts.map_values(|a: (Seq<char>, u128, u128)| balance_record(a)).push(
        (encode_utf8("supply:drt_genesis"@), crate::bytes::le_bytes(plan.drt_total as nat, 16)),
    ).push((encode_utf8("meta:chain_id"@), encode_utf8(chain_id))).push((encode_utf8("genesis:monetary:v1"@), marker))
}

pub open spec fn records_view(w: Seq<(Vec<u8>, Vec<u8>)>) -> Seq<(Seq<u8>, Seq<u8>)> {
    w.map_values(|x: (Vec<u8>, Vec<u8>)| (x.0@, x.1@))
}

/// The batch a created genesis writes, in one atomic write. `records` are
/// keyed here; the other values are stored under the keys of the state that
/// owns them: the consensus mode configuration (when one is given) under the
/// consensus mode key, the DGT mint counter and the stake total under the
/// supply and staking keys, and each funded delegation as its delegator's
/// staking record.
pub struct GenesisBatch {
    pub records: Vec<(Vec<u8>, Vec<u8>)>,
    pub mode: Option<Vec<u8>>,
    pub dgt_minted: Vec<u8>,
    pub stake_total: Vec<u8>,
    pub delegations: Vec<(String, u128)>,
}

fn key_bytes(prefix: &str, name: &str) -> (r: Vec<u8>)
    ensures
        r@ == encode_utf8(prefix@) + encode_utf8(name@),
{
    let mut k: Vec<u8> = Vec::new();
    push_all(&mut k, prefix.as_bytes());
    push_all(&mut k, name.as_bytes());
    assert(k@ =~= encode_utf8(prefix@) + encode_utf8(name@));
    k
}

fn copy_delegations(d: &Vec<StakeAllocation>) -> (r: Vec<(String, u128)>)
    ensures
        balance_views(r@) == stake_views(d@),
{
    let mut r: Vec<(String, u128)> = Vec::new();
    let mut i: usize = 0;
    while i < d.len()
        invariant
            i <= d@.len(),
            balance_views(r@) == stake_views(d@).take(i as int),
        decreases d@.len() - i,
    {
        let ghost before = r@;
        r.push((d[i].delegator.clone(), d[i].amount));
        proof {
            assert(balance_views(r@) =~= balance_views(before).push((d@[i as int].delegator@, d@[i as int].amount)));
            assert(stake_views(d@).take(i + 1) =~= stake_views(d@).take(i as int).push(stake_views(d@)[i as int]));
        }
        i = i + 1;
    }
    assert(stake_views(d@).take(d@.len() as int) =~= stake_views(d@));
    r
}

/// Encode the batch of a created genesis: each account's balance record
/// (its nonzero amounts, by denomination), the DRT genesis counter, the chain
/// ID and the genesis marker; the consensus configuration when one is given;
/// the DGT mint counter and the stake total; and the funded delegations.
pub fn genesis_batch(init: &Initialized, chain_id: &str, consensus_config: Option<&[u8]>) -> (r: GenesisBatch)
    ensures
        records_view(r.records@) == genesis_records_spec(init.plan@, chain_id@, init.marker@),
        opt_bytes(r.mode) == source_view(consensus_config),
        r.dgt_minted@ == crate::bytes::le_bytes(init.plan.dgt_total as nat, 16),
        r.stake_total@ == crate::bytes::le_bytes(init.plan.stake_total as nat, 16),
        balance_views(r.delegations@) == init.plan@.delegations,
{
    let accounts = &init.plan.accounts;
    let ghost target = account_views(accounts@).map_values(|a: (Seq<char>, u128, u128)| balance_record(a));
    let mut out: Vec<(Vec<u8>, Vec<u8>)> = Vec::new();
    let mut i: usize = 0;
    proof {
        reveal_strlit("udgt");
        reveal_strlit("udrt");
        assert("udgt"@ =~= udgt_denom());
        assert("udrt"@ =~= udrt_denom());
    }
    while i < accounts.len()
        invariant
            i <= accounts@.len(),
            target == account_views(accounts@).map_values(|a: (Seq<char>, u128, u128)| balance_record(a)),
            records_view(out@) == target.take(i as int),
            "udgt"@ == udgt_denom(),
            "udrt"@ == udrt_denom(),
        decreases accounts@.len() - i,
    {
        let a = &accounts[i];
        let mut entries: Vec<(String, u128)> = Vec::new();
        if a.udgt > 0 {
            entries.push((String::from_str("udgt"), a.udgt));
        }
        if a.udrt > 0 {
            entries.push((String::from_str("udrt"), a.udrt));
        }
        assert(balance_views(entries@) =~= nonzero_balances(a.udgt, a.udrt));
        let value = bincode_balances(&entries);
        let key = key_bytes("acct:balances:", a.address.as_str());
        let ghost before = out@;
        let ghost entry = (key@, value@);
        proof {
            assert(account_views(accounts@)[i as int] == (a.address@, a.udgt, a.udrt));
            assert(target[i as int] == entry);
        }
        out.push((key, value));
        proof {
            assert(records_view(out@) =~= records_view(before).push(entry));
            assert(target.take(i + 1) =~= target.take(i as int).push(target[i as int]));
        }
        i = i + 1;
    }
    out.push((key_bytes("supply:drt_genesis", ""), bincode_u128(init.plan.drt_total)));
    out.push((key_bytes("meta:chain_id", ""), crate::record_keys::to_vec(chain_id.as_bytes())));
    let mut marker: Vec<u8> = Vec::new();
    push_all(&mut marker, init.marker.as_slice());
    out.push((key_bytes("genesis:monetary:v1", ""), marker));
    proof {
        reveal_strlit("");
        assert(encode_utf8(""@) =~= Seq::<u8>::empty()) by {
            assert(""@ =~= Seq::<char>::empty());
        }
        assert(target.take(accounts@.len() as int) =~= target);
        assert(records_view(out@) =~= genesis_records_spec(init.plan@, chain_id@, init.marker@));
    }
    let mode = match consensus_config {
        Some(c) => Some(crate::record_keys::to_vec(c)),
        None => None,
    };
    GenesisBatch {
        records: out,
        mode,
        dgt_minted: bincode_u128(init.plan.dgt_total),
        stake_total: bincode_u128(init.plan.stake_total),
        delegations: copy_delegations(&init.plan.delegations),
    }
}

} // verus!
