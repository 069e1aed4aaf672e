//! Choosing the price of a reserve's token among its enabled oracles: the most
//! recent reading, and, when at least two readings carry a price, the most
//! recent among those within a band around their median.
use vstd::prelude::*;

verus! {

/// The oracles that can price a reserve's token.
#[derive(Debug, Clone, Copy, PartialEq, Eq, Structural)]
pub enum OracleKind {
    Pyth,
    Switchboard,
    Scope,
}

/// One oracle reading: its timestamp, and its price as a fixed-point number
/// with 60 fractional bits (the bits of `U68F60`), or `None` when the price
/// could not be loaded.
#[derive(Debug, Clone, Copy, PartialEq, Eq, Structural)]
pub struct PriceCandidate {
    pub timestamp: u64,
    pub price: Option<u128>,
}

/// What an oracle yields for the reserve: whether it is enabled in the
/// reserve's configuration, and its reading if its account was given and
/// could be read.
#[derive(Debug, Clone, Copy, PartialEq, Eq, Structural)]
pub struct OracleReading {
    pub enabled: bool,
    pub reading: Option<PriceCandidate>,
}

/// The errors of price selection.
#[derive(Debug, Clone, Copy, PartialEq, Eq, Structural)]
pub enum LendingError {
    PriceNotValid,
}

/// The smallest band, in basis points, around the median price.
pub const MIN_BAND_BPS: u64 = 50;

/// The candidate of one oracle, if it is enabled and has a reading.
pub open spec fn candidate_of(kind: OracleKind, oracle: OracleReading) -> Seq<(OracleKind, PriceCandidate)> {
    if oracle.enabled && oracle.reading is Some {
        seq![(kind, oracle.reading->0)]
    } else {
        seq![]
    }
}

/// The candidates in the order Pyth, Switchboard, Scope.
pub open spec fn candidates_spec(
    pyth: OracleReading,
    switchboard: OracleReading,
    scope: OracleReading,
) -> Seq<(OracleKind, PriceCandidate)> {
    candidate_of(OracleKind::Pyth, pyth) + candidate_of(OracleKind::Switchboard, switchboard)
        + candidate_of(OracleKind::Scope, scope)
}

/// The prices that loaded, in candidate order.
pub open spec fn loaded_prices(cands: Seq<(OracleKind, PriceCandidate)>) -> Seq<u128>
    decreases cands.len(),
{
    if cands.len() == 0 {
        seq![]
    } else {
        let rest = loaded_prices(cands.drop_last());
        match cands.last().1.price {
            Some(p) => rest.push(p),
            None => rest,
        }
    }
}

/// The median of two or three prices: the larger of two, the middle of three
/// (the element at index `len / 2` once sorted).
pub open spec fn median_spec(prices: Seq<u128>) -> u128 {
    if prices.len() == 2 {
        if prices[0] <= prices[1] {
            prices[1]
        } else {
            prices[0]
        }
    } else {
        let a = prices[0];
        let b = prices[1];
        let c = prices[2];
        let lo = if a <= b {
            a
        } else {
            b
        };
        let hi = if a <= b {
            b
        } else {
            a
        };
        if c <= lo {
            lo
        } else if c <= hi {
            c
        } else {
            hi
        }
    }
}

/// The band, in basis points, around the median: the configured divergence,
/// at least `MIN_BAND_BPS`.
pub open spec fn band_bps(max_twap_divergence_bps: u64) -> u64 {
    if max_twap_divergence_bps >= MIN_BAND_BPS {
        max_twap_divergence_bps
    } else {
        MIN_BAND_BPS
    }
}

/// `|a - b|`.
pub open spec fn abs_diff(a: u128, b: u128) -> int {
    if a >= b {
        a - b
    } else {
        b - a
    }
}

/// A price within the band: `|price - median| * 10_000 < median * band`.
pub open spec fn within_band(price: u128, median: u128, band: u64) -> bool {
    abs_diff(price, median) * 10_000 < median * band
}

/// A candidate whose price loaded and lies within the band around the median.
pub open spec fn eligible(c: PriceCandidate, median: u128, band: u64) -> bool {
    match c.price {
        Some(p) => within_band(p, median, band),
        None => false,
    }
}

/// `i` is the last of the eligible candidates with the latest timestamp.
pub open spec fn last_latest_eligible(
    cands: Seq<(OracleKind, PriceCandidate)>,
    median: u128,
    band: u64,
    i: int,
) -> bool {
    &&& 0 <= i < cands.len()
    &&& eligible(cands[i].1, median, band)
    &&& forall|j: int|
        0 <= j < cands.len() && eligible(#[trigger] cands[j].1, median, band) ==> cands[j].1.timestamp
            <= cands[i].1.timestamp
    &&& forall|j: int|
        i < j < cands.len() && eligible(#[trigger] cands[j].1, median, band) ==> cands[j].1.timestamp
            < cands[i].1.timestamp
}

/// `i` is the first of the candidates with the latest timestamp.
pub open spec fn first_latest(cands: Seq<(OracleKind, PriceCandidate)>, i: int) -> bool {
    &&& 0 <= i < cands.len()
    &&& forall|j: int| 0 <= j < cands.len() ==> #[trigger] cands[j].1.timestamp <= cands[i].1.timestamp
    &&& forall|j: int| 0 <= j < i ==> #[trigger] cands[j].1.timestamp < cands[i].1.timestamp
}

/// What the selection yields for the given candidates: `PriceNotValid` when
/// there is none; when at least two prices loaded, the kind of the last of
/// the most recent candidates within the band around their median, or
/// `PriceNotValid` when none lies within it; otherwise the kind of the first
/// of the most recent candidates.
pub open spec fn selection_spec(
    cands: Seq<(OracleKind, PriceCandidate)>,
    max_twap_divergence_bps: u64,
    result: Result<OracleKind, LendingError>,
) -> bool {
    let prices = loaded_prices(cands);
    if cands.len() == 0 {
        result == Err::<OracleKind, LendingError>(LendingError::PriceNotValid)
    } else if prices.len() >= 2 {
        let median = median_spec(prices);
        let band = band_bps(max_twap_divergence_bps);
        if exists|i: int| 0 <= i < cands.len() && eligible(#[trigger] cands[i].1, median, band) {
            exists|i: int|
                last_latest_eligible(cands, median, band, i) && result == Ok::<OracleKind, LendingError>(
                    #[trigger] cands[i].0,
                )
        } else {
            result == Err::<OracleKind, LendingError>(LendingError::PriceNotValid)
        }
    } else {
        exists|i: int| first_latest(cands, i) && result == Ok::<OracleKind, LendingError>(#[trigger] cands[i].0)
    }
}

/// The band test cannot overflow: the median times the band, and every
/// loaded price's distance to the median times 10 000, fit in a `u128`.
pub open spec fn band_test_defined(prices: Seq<u128>, max_twap_divergence_bps: u64) -> bool {
    prices.len() >= 2 ==> {
        let median = median_spec(prices);
        &&& median * band_bps(max_twap_divergence_bps) <= u128::MAX
        &&& forall|k: int| 0 <= k < prices.len() ==> abs_diff(#[trigger] prices[k], median) * 10_000 <= u128::MAX
    }
}

fn push_candidate(cands: &mut Vec<(OracleKind, PriceCandidate)>, kind: OracleKind, oracle: &OracleReading)
    ensures
        final(cands)@ == old(cands)@ + candidate_of(kind, *oracle),
{
    if oracle.enabled {
        match oracle.reading {
            Some(c) => {
                cands.push((kind, c));
            },
            None => {
                assert(candidate_of(kind, *oracle) == Seq::<(OracleKind, PriceCandidate)>::empty());
            },
        }
    } else {
        assert(candidate_of(kind, *oracle) == Seq::<(OracleKind, PriceCandidate)>::empty());
    }
    assert(old(cands)@ + candidate_of(kind, *oracle) =~= final(cands)@) by {
        if !(oracle.enabled && oracle.reading is Some) {
            assert(old(cands)@ + Seq::<(OracleKind, PriceCandidate)>::empty() =~= old(cands)@);
        }
    }
}

fn collect_loaded(cands: &Vec<(OracleKind, PriceCandidate)>) -> (prices: Vec<u128>)
    ensures
        prices@ == loaded_prices(cands@),
        prices@.len() <= cands@.len(),
{
    let mut prices: Vec<u128> = Vec::new();
    let mut k: usize = 0;
    while k < cands.len()
        invariant
            k <= cands@.len(),
            prices@ == loaded_prices(cands@.subrange(0, k as int)),
            prices@.len() <= k,
        decreases cands.len() - k,
    {
        let ghost before = cands@.subrange(0, k as int);
        assert(cands@.subrange(0, (k + 1) as int).drop_last() =~= before);
        match cands[k].1.price {
            Some(p) => prices.push(p),
            None => {},
        }
        k = k + 1;
    }
    assert(cands@.subrange(0, cands@.len() as int) =~= cands@);
    prices
}

fn median_of(prices: &Vec<u128>) -> (median: u128)
    requires
        2 <= prices@.len() <= 3,
    ensures
        median == median_spec(prices@),
{
    if prices.len() == 2 {
        if prices[0] <= prices[1] {
            prices[1]
        } else {
            prices[0]
        }
    } else {
        let a = prices[0];
        let b = prices[1];
        let c = prices[2];
        let lo = if a <= b {
            a
        } else {
            b
        };
        let hi = if a <= b {
            b
        } else {
            a
        };
        if c <= lo {
            lo
        } else if c <= hi {
            c
        } else {
            hi
        }
    }
}

/// Every price of a candidate appears among the loaded prices.
proof fn lemma_candidate_price_loaded(cands: Seq<(OracleKind, PriceCandidate)>, i: int)
    requires
        0 <= i < cands.len(),
        cands[i].1.price is Some,
    ensures
        exists|k: int|
            0 <= k < loaded_prices(cands).len() && #[trigger] loaded_prices(cands)[k]
                == cands[i].1.price->0,
    decreases cands.len(),
{
    let rest = cands.drop_last();
    if i == cands.len() - 1 {
        let k = loaded_prices(rest).len() as int;
        assert(loaded_prices(cands)[k] == cands[i].1.price->0);
    } else {
        lemma_candidate_price_loaded(rest, i);
        let k = choose|k: int|
            0 <= k < loaded_prices(rest).len() && #[trigger] loaded_prices(rest)[k]
                == rest[i].1.price->0;
        assert(loaded_prices(cands)[k] == cands[i].1.price->0);
    }
}

/// The band test of one candidate; the caller guarantees no overflow.
fn is_within_band(price: u128, median: u128, band: u64) -> (inside: bool)
    requires
        abs_diff(price, median) * 10_000 <= u128::MAX,
        median * band <= u128::MAX,
    ensures
        inside == within_band(price, median, band),
{
    let diff = if price >= median {
        price - median
    } else {
        median - price
    };
    diff * 10_000u128 < median * (band as u128)
}

/// Picks the oracle whose reading prices the reserve's token: among the
/// enabled oracles with a reading, when at least two prices loaded, the most
/// recent reading whose price lies within the band around the median (the
/// last such on equal timestamps), and otherwise the most recent reading (the
/// first such on equal timestamps). `PriceNotValid` when there is no reading,
/// or no reading within the band.
pub fn get_most_recent_price_and_twap(
    pyth: &OracleReading,
    switchboard: &OracleReading,
    scope: &OracleReading,
    max_twap_divergence_bps: u64,
) -> (result: Result<OracleKind, LendingError>)
    requires
        band_test_defined(
            loaded_prices(candidates_spec(*pyth, *switchboard, *scope)),
            max_twap_divergence_bps,
        ),
    ensures
        selection_spec(candidates_spec(*pyth, *switchboard, *scope), max_twap_divergence_bps, result),
{
    let mut cands: Vec<(OracleKind, PriceCandidate)> = Vec::new();
    push_candidate(&mut cands, OracleKind::Pyth, pyth);
    push_candidate(&mut cands, OracleKind::Switchboard, switchboard);
    push_candidate(&mut cands, OracleKind::Scope, scope);
    assert(cands@ =~= candidates_spec(*pyth, *switchboard, *scope));
    if cands.len() == 0 {
        return Err(LendingError::PriceNotValid);
    }
    let prices = collect_loaded(&cands);
    if prices.len() >= 2 {
        let median = median_of(&prices);
        let band = if max_twap_divergence_bps >= MIN_BAND_BPS {
            max_twap_divergence_bps
        } else {
            MIN_BAND_BPS
        };
        let mut best: Option<usize> = None;
        let mut k: usize = 0;
        while k < cands.len()
            invariant
                cands@ == candidates_spec(*pyth, *switchboard, *scope),
                prices@ == loaded_prices(cands@),
                prices@.len() >= 2,
                median == median_spec(prices@),
                band == band_bps(max_twap_divergence_bps),
                band_test_defined(prices@, max_twap_divergence_bps),
                k <= cands@.len(),
                match best {
                    None => forall|j: int| 0 <= j < k ==> !eligible(#[trigger] cands@[j].1, median, band),
                    Some(b) => {
                        &&& b < k
                        &&& eligible(cands@[b as int].1, median, band)
                        &&& forall|j: int|
                            0 <= j < k && eligible(#[trigger] cands@[j].1, median, band)
                                ==> cands@[j].1.timestamp <= cands@[b as int].1.timestamp
                        &&& forall|j: int|
                            b < j < k && eligible(#[trigger] cands@[j].1, median, band)
                                ==> cands@[j].1.timestamp < cands@[b as int].1.timestamp
                    },
                },
            decreases cands.len() - k,
        {
            let c = cands[k].1;
            let inside = match c.price {
                Some(p) => {
                    proof {
                        lemma_candidate_price_loaded(cands@, k as int);
                    }
                    is_within_band(p, median, band)
                },
                None => false,
            };
            if inside {
                match best {
                    None => {
                        best = Some(k);
                    },
                    Some(b) => {
                        if c.timestamp >= cands[b].1.timestamp {
                            best = Some(k);
                        }
                    },
                }
            }
            k = k + 1;
        }
        match best {
            Some(b) => {
                assert(last_latest_eligible(cands@, median, band, b as int));
                Ok(cands[b].0)
            },
            None => Err(LendingError::PriceNotValid),
        }
    } else {
        let mut best: usize = 0;
        let mut k: usize = 1;
        while k < cands.len()
            invariant
                cands@.len() >= 1,
                1 <= k <= cands@.len(),
                best < k,
                forall|j: int| 0 <= j < k ==> #[trigger] cands@[j].1.timestamp <= cands@[best as int].1.timestamp,
                forall|j: int| 0 <= j < best ==> #[trigger] cands@[j].1.timestamp < cands@[best as int].1.timestamp,
            decreases cands.len() - k,
        {
            if cands[k].1.timestamp > cands[best].1.timestamp {
                best = k;
            }
            k = k + 1;
        }
        assert(first_latest(cands@, best as int));
        Ok(cands[best].0)
    }
}

/// Only an enabled oracle that yielded a reading can be a candidate, and each
/// candidate carries exactly that oracle's reading.
pub proof fn lemma_candidates_come_from_enabled_oracles(
    pyth: OracleReading,
    switchboard: OracleReading,
    scope: OracleReading,
    i: int,
)
    requires
        0 <= i < candidates_spec(pyth, switchboard, scope).len(),
    ensures
        ({
            let c = candidates_spec(pyth, switchboard, scope)[i];
            let oracle = match c.0 {
                OracleKind::Pyth => pyth,
                OracleKind::Switchboard => switchboard,
                OracleKind::Scope => scope,
            };
            oracle.enabled && oracle.reading == Some(c.1)
        }),
{
    let p = candidate_of(OracleKind::Pyth, pyth);
    let s = candidate_of(OracleKind::Switchboard, switchboard);
    let c = candidate_of(OracleKind::Scope, scope);
    let all = candidates_spec(pyth, switchboard, scope);
    assert(all == p + s + c);
    if i < p.len() {
        assert(all[i] == p[i]);
    } else if i < p.len() + s.len() {
        assert(all[i] == s[i - p.len()]);
    } else {
        assert(all[i] == c[i - p.len() - s.len()]);
    }
}

/// When at least two prices loaded, the chosen reading's price lies strictly
/// within the band around their median.
pub proof fn lemma_chosen_price_within_band(
    cands: Seq<(OracleKind, PriceCandidate)>,
    median: u128,
    band: u64,
    i: int,
)
    requires
        last_latest_eligible(cands, median, band, i),
    ensures
        cands[i].1.price is Some,
        within_band(cands[i].1.price->0, median, band),
{
}

/// Every loaded price belongs to some candidate.
proof fn lemma_loaded_price_has_candidate(cands: Seq<(OracleKind, PriceCandidate)>, k: int)
    requires
        0 <= k < loaded_prices(cands).len(),
    ensures
        exists|i: int|
            0 <= i < cands.len() && #[trigger] cands[i].1.price == Some(loaded_prices(cands)[k]),
    decreases cands.len(),
{
    let rest = cands.drop_last();
    let last = cands.len() - 1;
    if k < loaded_prices(rest).len() {
        lemma_loaded_price_has_candidate(rest, k);
        let i = choose|i: int|
            0 <= i < rest.len() && #[trigger] rest[i].1.price == Some(loaded_prices(rest)[k]);
        assert(cands[i] == rest[i]);
        assert(loaded_prices(cands)[k] == loaded_prices(rest)[k]);
    } else {
        assert(cands[last].1.price == Some(loaded_prices(cands)[k]));
    }
}

/// When at least two prices loaded and their median is positive, some reading
/// lies within the band (the median's own reading does), so the selection
/// yields a price rather than `PriceNotValid`.
pub proof fn lemma_positive_median_yields_price(
    cands: Seq<(OracleKind, PriceCandidate)>,
    max_twap_divergence_bps: u64,
)
    requires
        2 <= loaded_prices(cands).len() <= 3,
        median_spec(loaded_prices(cands)) > 0,
    ensures
        exists|i: int|
            0 <= i < cands.len() && eligible(
                #[trigger] cands[i].1,
                median_spec(loaded_prices(cands)),
                band_bps(max_twap_divergence_bps),
            ),
{
    let prices = loaded_prices(cands);
    let median = median_spec(prices);
    let band = band_bps(max_twap_divergence_bps);
    let k: int = if prices.len() == 2 {
        if prices[0] <= prices[1] {
            1
        } else {
            0
        }
    } else if median == prices[0] {
        0
    } else if median == prices[1] {
        1
    } else {
        2
    };
    assert(prices[k] == median);
    lemma_loaded_price_has_candidate(cands, k);
    let i = choose|i: int| 0 <= i < cands.len() && #[trigger] cands[i].1.price == Some(prices[k]);
    assert(abs_diff(median, median) == 0);
    assert(median * band >= 50) by (nonlinear_arith)
        requires
            median >= 1,
            band >= 50,
    ;
    assert(eligible(cands[i].1, median, band));
}

/// At most one candidate is the last of the most recent eligible ones.
proof fn lemma_last_latest_eligible_unique(
    cands: Seq<(OracleKind, PriceCandidate)>,
    median: u128,
    band: u64,
    i: int,
    j: int,
)
    requires
        last_latest_eligible(cands, median, band, i),
        last_latest_eligible(cands, median, band, j),
    ensures
        i == j,
{
    if i < j {
        assert(cands[j].1.timestamp < cands[i].1.timestamp);
        assert(cands[i].1.timestamp <= cands[j].1.timestamp);
    } else if j < i {
        assert(cands[i].1.timestamp < cands[j].1.timestamp);
        assert(cands[j].1.timestamp <= cands[i].1.timestamp);
    }
}

/// At most one candidate is the first of the most recent ones.
proof fn lemma_first_latest_unique(cands: Seq<(OracleKind, PriceCandidate)>, i: int, j: int)
    requires
        first_latest(cands, i),
        first_latest(cands, j),
    ensures
        i == j,
{
    if i < j {
        assert(cands[i].1.timestamp < cands[j].1.timestamp);
        assert(cands[i].1.timestamp <= cands[j].1.timestamp);
        assert(cands[j].1.timestamp <= cands[i].1.timestamp);
    } else if j < i {
        assert(cands[j].1.timestamp < cands[i].1.timestamp);
        assert(cands[i].1.timestamp <= cands[j].1.timestamp);
    }
}

/// The selection is a function of its candidates and the configured band:
/// two results that both meet it are equal.
pub proof fn lemma_selection_deterministic(
    cands: Seq<(OracleKind, PriceCandidate)>,
    max_twap_divergence_bps: u64,
    r1: Result<OracleKind, LendingError>,
    r2: Result<OracleKind, LendingError>,
)
    requires
        selection_spec(cands, max_twap_divergence_bps, r1),
        selection_spec(cands, max_twap_divergence_bps, r2),
    ensures
        r1 == r2,
{
    let prices = loaded_prices(cands);
    if cands.len() > 0 {
        if prices.len() >= 2 {
            let median = median_spec(prices);
            let band = band_bps(max_twap_divergence_bps);
            if exists|i: int| 0 <= i < cands.len() && eligible(#[trigger] cands[i].1, median, band) {
                let i1 = choose|i: int|
                    last_latest_eligible(cands, median, band, i) && r1 == Ok::<OracleKind, LendingError>(
                        #[trigger] cands[i].0,
                    );
                let i2 = choose|i: int|
                    last_latest_eligible(cands, median, band, i) && r2 == Ok::<OracleKind, LendingError>(
                        #[trigger] cands[i].0,
                    );
                lemma_last_latest_eligible_unique(cands, median, band, i1, i2);
            }
        } else {
            let i1 = choose|i: int| first_latest(cands, i) && r1 == Ok::<OracleKind, LendingError>(#[trigger] cands[i].0);
            let i2 = choose|i: int| first_latest(cands, i) && r2 == Ok::<OracleKind, LendingError>(#[trigger] cands[i].0);
            lemma_first_latest_unique(cands, i1, i2);
        }
    }
}

/// A disabled oracle is never read: two calls whose oracles agree on being
/// enabled, and whose enabled oracles yield the same readings, see the same
/// candidates and pick the same oracle, whatever the disabled oracles hold
/// (a reading, or none because their accounts were not given).
pub proof fn lemma_disabled_oracle_ignored(
    pyth: OracleReading,
    switchboard: OracleReading,
    scope: OracleReading,
    pyth2: OracleReading,
    switchboard2: OracleReading,
    scope2: OracleReading,
    max_twap_divergence_bps: u64,
    r1: Result<OracleKind, LendingError>,
    r2: Result<OracleKind, LendingError>,
)
    requires
        pyth2.enabled == pyth.enabled,
        switchboard2.enabled == switchboard.enabled,
        scope2.enabled == scope.enabled,
        pyth.enabled ==> pyth2.reading == pyth.reading,
        switchboard.enabled ==> switchboard2.reading == switchboard.reading,
        scope.enabled ==> scope2.reading == scope.reading,
        selection_spec(candidates_spec(pyth, switchboard, scope), max_twap_divergence_bps, r1),
        selection_spec(candidates_spec(pyth2, switchboard2, scope2), max_twap_divergence_bps, r2),
    ensures
        candidates_spec(pyth2, switchboard2, scope2) == candidates_spec(pyth, switchboard, scope),
        r1 == r2,
{
    assert(candidate_of(OracleKind::Pyth, pyth2) == candidate_of(OracleKind::Pyth, pyth));
    assert(candidate_of(OracleKind::Switchboard, switchboard2) == candidate_of(OracleKind::Switchboard, switchboard));
    assert(candidate_of(OracleKind::Scope, scope2) == candidate_of(OracleKind::Scope, scope));
    lemma_selection_deterministic(candidates_spec(pyth, switchboard, scope), max_twap_divergence_bps, r1, r2);
}

/// The median of two or three loaded prices is the middle one in sorted
/// order: it is one of the prices; of two, it is the larger; of three, at
/// least two of them (itself included) lie at or below it and at least two
/// lie at or above it.
pub proof fn lemma_median_is_sorted_middle(prices: Seq<u128>)
    requires
        2 <= prices.len() <= 3,
    ensures
        exists|k: int| 0 <= k < prices.len() && #[trigger] prices[k] == median_spec(prices),
        prices.len() == 2 ==> median_spec(prices) >= prices[0] && median_spec(prices) >= prices[1],
        prices.len() == 3 ==> exists|i: int, j: int|
            #![trigger prices[i], prices[j]]
            0 <= i < 3 && 0 <= j < 3 && i != j && prices[i] <= median_spec(prices) && prices[j]
                <= median_spec(prices),
        prices.len() == 3 ==> exists|i: int, j: int|
            #![trigger prices[i], prices[j]]
            0 <= i < 3 && 0 <= j < 3 && i != j && prices[i] >= median_spec(prices) && prices[j]
                >= median_spec(prices),
{
    let m = median_spec(prices);
    if prices.len() == 2 {
        if prices[0] <= prices[1] {
            assert(prices[1] == m);
        } else {
            assert(prices[0] == m);
        }
    } else {
        let a = prices[0];
        let b = prices[1];
        let c = prices[2];
        // (index of the median, another at or below it, another at or above it)
        let (k, lo, hi): (int, int, int) = if a <= b {
            if c <= a {
                (0, 2, 1)
            } else if c <= b {
                (2, 0, 1)
            } else {
                (1, 0, 2)
            }
        } else {
            if c <= b {
                (1, 2, 0)
            } else if c <= a {
                (2, 1, 0)
            } else {
                (0, 1, 2)
            }
        };
        assert(prices[k] == m);
        assert(prices[k] <= m && prices[lo] <= m);
        assert(prices[k] >= m && prices[hi] >= m);
    }
}

/// The band is read in basis points of the median: a price is within it
/// exactly when it lies strictly between `median * (1 - band / 10_000)` and
/// `median * (1 + band / 10_000)`.
pub proof fn lemma_band_is_basis_points_of_median(price: u128, median: u128, band: u64)
    ensures
        within_band(price, median, band) <==> (median * (10_000 - band) < price * 10_000 && price
            * 10_000 < median * (10_000 + band)),
{
    let p = price as int;
    let m = median as int;
    let w = band as int;
    if p >= m {
        assert(abs_diff(price, median) == p - m);
        assert(((p - m) * 10_000 < m * w) <==> (p * 10_000 < m * (10_000 + w))) by (nonlinear_arith);
        assert((p * 10_000 < m * (10_000 + w)) ==> m * (10_000 - w) < p * 10_000) by (nonlinear_arith)
            requires
                p >= m,
                m >= 0,
                w >= 0,
        ;
    } else {
        assert(abs_diff(price, median) == m - p);
        assert(((m - p) * 10_000 < m * w) <==> (m * (10_000 - w) < p * 10_000)) by (nonlinear_arith);
        assert(p * 10_000 < m * (10_000 + w)) by (nonlinear_arith)
            requires
                0 <= p < m,
                w >= 0,
        ;
    }
}

} // verus!
