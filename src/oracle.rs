//! Price sources and how their readings combine into one price.

use vstd::prelude::*;
use vstd::relations::{sorted_by, total_ordering};
use vstd::seq_lib::lemma_sorted_unique;
use crate::decimal::Decimal;
use crate::error::ContractError;

verus! {

/// Orders decimals by value.
pub open spec fn by_value() -> spec_fn(Decimal, Decimal) -> bool {
    |a: Decimal, b: Decimal| a.atomics <= b.atomics
}

/// The median of `s` as this library takes it: the lower of the two middle
/// values when their count is even, and zero for no values.
pub open spec fn median_spec(s: Seq<Decimal>) -> Decimal {
    if s.len() == 0 {
        Decimal { atomics: 0 }
    } else {
        s.sort_by(by_value())[(s.len() - 1) / 2]
    }
}

pub proof fn lemma_by_value_total()
    ensures
        total_ordering(by_value()),
{
    assert forall|x: Decimal, y: Decimal| #[trigger] by_value()(x, y) && #[trigger] by_value()(y, x)
        implies x == y by {
        assert(x.atomics == y.atomics);
    }
}

/// Sorts `vec` by value and returns its median (see `median_spec`).
pub fn get_median(vec: &mut Vec<Decimal>) -> (r: Decimal)
    ensures
        final(vec)@ == old(vec)@.sort_by(by_value()),
        r == median_spec(old(vec)@),
{
    let n = vec.len();
    let mut sorted: Vec<Decimal> = Vec::new();
    let mut i: usize = 0;
    proof {
        vstd::seq_lib::to_multiset_len(sorted@);
        vstd::seq_lib::to_multiset_len(vec@.subrange(0, 0));
        assert(sorted@.to_multiset() =~= vec@.subrange(0, 0).to_multiset());
    }
    while i < n
        invariant
            n == vec@.len(),
            i <= n,
            sorted_by(sorted@, by_value()),
            sorted@.to_multiset() == vec@.subrange(0, i as int).to_multiset(),
        decreases n - i,
    {
        let x = vec[i];
        let mut pos: usize = 0;
        while pos < sorted.len() && sorted[pos].atomics <= x.atomics
            invariant
                pos <= sorted@.len(),
                forall|j: int| 0 <= j < pos ==> (#[trigger] sorted@[j]).atomics <= x.atomics,
            decreases sorted@.len() - pos,
        {
            pos = pos + 1;
        }
        let ghost before = sorted@;
        sorted.insert(pos, x);
        assert(sorted_by(sorted@, by_value())) by {
            assert forall|a: int, b: int| 0 <= a < b < sorted@.len() implies #[trigger] by_value()(
                sorted@[a],
                sorted@[b],
            ) by {
                if b < pos {
                    assert(by_value()(before[a], before[b]));
                } else if b == pos {
                } else if a < pos {
                    assert(by_value()(before[a], before[b - 1]));
                } else if a == pos {
                    assert(by_value()(before[pos as int], before[b - 1]));
                    if b - 1 > pos {
                        assert(by_value()(before[pos as int], before[b - 1]));
                    }
                } else {
                    assert(by_value()(before[a - 1], before[b - 1]));
                }
            }
        }
        assert(vec@.subrange(0, i + 1) == vec@.subrange(0, i as int).push(x));
        proof {
            vstd::seq_lib::to_multiset_insert(before, pos as int, x);
            vstd::seq_lib::to_multiset_build(vec@.subrange(0, i as int), x);
        }
        i = i + 1;
    }
    assert(vec@.subrange(0, n as int) == vec@);
    proof {
        lemma_by_value_total();
        vec@.lemma_sort_by_ensures(by_value());
        lemma_sorted_unique(sorted@, vec@.sort_by(by_value()), by_value());
        vstd::seq_lib::to_multiset_len(sorted@);
        vstd::seq_lib::to_multiset_len(vec@);
    }
    let r = if n == 0 {
        Decimal::zero()
    } else {
        sorted[(n - 1) / 2]
    };
    *vec = sorted;
    r
}

/// The stable asset that every price is denominated in.
pub const STABLE_DENOM: &'static str = "uusd";

/// A registered price source, its address validated.
#[derive(Clone, Debug, PartialEq, Eq)]
pub enum Oracle {
    AstroportTWAP { address: String },
    /// The chain's own exchange rate of a native coin against the stable asset.
    Native { denom: String },
    Fixed { price: Decimal },
}

/// A price source as submitted, its address not yet validated.
#[derive(Clone, Debug, PartialEq, Eq)]
pub enum OracleUnvalidated {
    AstroportTWAP { address_unvalidated: String },
    Native { denom: String },
    Fixed { price: Decimal },
}

impl OracleUnvalidated {
    pub open spec fn address_spec(&self) -> Option<Seq<char>> {
        match self {
            OracleUnvalidated::AstroportTWAP { address_unvalidated } => Some(address_unvalidated@),
            _ => None,
        }
    }

    pub open spec fn validated_spec(self) -> Oracle {
        match self {
            OracleUnvalidated::AstroportTWAP { address_unvalidated } => Oracle::AstroportTWAP {
                address: address_unvalidated,
            },
            OracleUnvalidated::Native { denom } => Oracle::Native { denom },
            OracleUnvalidated::Fixed { price } => Oracle::Fixed { price },
        }
    }

    /// The source with its address accepted; `address_valid` is the host's
    /// verdict on the address, and is not read where there is none.
    pub fn to_validated(self, address_valid: bool) -> (r: Result<Oracle, ContractError>)
        ensures
            self.address_spec().is_some() && !address_valid ==> r == Err::<Oracle, ContractError>(
                ContractError::InvalidAddress,
            ),
            self.address_spec().is_none() || address_valid ==> r == Ok::<Oracle, ContractError>(
                self.validated_spec(),
            ),
    {
        match self {
            OracleUnvalidated::AstroportTWAP { address_unvalidated } => {
                if !address_valid {
                    return Err(ContractError::InvalidAddress);
                }
                Ok(Oracle::AstroportTWAP { address: address_unvalidated })
            },
            OracleUnvalidated::Native { denom } => Ok(Oracle::Native { denom }),
            OracleUnvalidated::Fixed { price } => Ok(Oracle::Fixed { price }),
        }
    }
}

/// What a source reports. `live_rate` is what the host's exchange-rate query
/// gave for a native source (`None` where it failed or was empty); a pool
/// source gives no reading, as pool prices are not read yet.
pub open spec fn reading_spec(oracle: Oracle, live_rate: Option<Decimal>) -> Option<Decimal> {
    match oracle {
        Oracle::Fixed { price } => Some(price),
        Oracle::Native { .. } => live_rate,
        Oracle::AstroportTWAP { .. } => None,
    }
}

/// The readings that came back, in order.
pub open spec fn available(readings: Seq<Option<Decimal>>) -> Seq<Decimal>
    decreases readings.len(),
{
    if readings.len() == 0 {
        Seq::empty()
    } else {
        let prev = available(readings.drop_last());
        match readings.last() {
            Some(d) => prev.push(d),
            None => prev,
        }
    }
}

/// The price that a list of readings gives.
pub open spec fn combined_spec(readings: Seq<Option<Decimal>>) -> Result<Decimal, ContractError> {
    if readings.len() == 0 {
        Err(ContractError::OracleNotFound)
    } else if available(readings).len() == 0 {
        Err(ContractError::PriceUnavailable)
    } else {
        Ok(median_spec(available(readings)))
    }
}

pub fn source_reading(oracle: &Oracle, live_rate: Option<Decimal>) -> (r: Option<Decimal>)
    ensures
        r == reading_spec(*oracle, live_rate),
{
    match oracle {
        Oracle::Fixed { price } => Some(*price),
        Oracle::Native { .. } => live_rate,
        Oracle::AstroportTWAP { .. } => None,
    }
}

/// Combines the readings of an asset's sources into the median of those that
/// came back.
pub fn combine_readings(readings: &Vec<Option<Decimal>>) -> (r: Result<Decimal, ContractError>)
    ensures
        r == combined_spec(readings@),
{
    let mut prices: Vec<Decimal> = Vec::new();
    let mut i: usize = 0;
    while i < readings.len()
        invariant
            i <= readings@.len(),
            prices@ == available(readings@.subrange(0, i as int)),
        decreases readings@.len() - i,
    {
        assert(readings@.subrange(0, i + 1).drop_last() == readings@.subrange(0, i as int));
        match readings[i] {
            Some(d) => prices.push(d),
            None => {},
        }
        i = i + 1;
    }
    assert(readings@.subrange(0, readings@.len() as int) == readings@);
    if readings.len() == 0 {
        return Err(ContractError::OracleNotFound);
    }
    if prices.len() == 0 {
        return Err(ContractError::PriceUnavailable);
    }
    Ok(get_median(&mut prices))
}

/// The readings of `oracles`, where `live_rates[i]` is what the host's
/// exchange-rate query gave for source `i`; a missing entry counts as a failed
/// query.
pub open spec fn readings_spec(oracles: Seq<Oracle>, live_rates: Seq<Option<Decimal>>) -> Seq<
    Option<Decimal>,
> {
    Seq::new(
        oracles.len(),
        |i: int|
            reading_spec(
                oracles[i],
                if i < live_rates.len() {
                    live_rates[i]
                } else {
                    None
                },
            ),
    )
}

/// The price of an asset from its registered sources.
pub fn query_get_price(oracles: &Vec<Oracle>, live_rates: &Vec<Option<Decimal>>) -> (r: Result<
    Decimal,
    ContractError,
>)
    ensures
        r == combined_spec(readings_spec(oracles@, live_rates@)),
{
    let mut readings: Vec<Option<Decimal>> = Vec::new();
    let mut i: usize = 0;
    while i < oracles.len()
        invariant
            i <= oracles@.len(),
            readings@ == readings_spec(oracles@, live_rates@).subrange(0, i as int),
        decreases oracles@.len() - i,
    {
        let rate = if i < live_rates.len() {
            live_rates[i]
        } else {
            None
        };
        readings.push(source_reading(&oracles[i], rate));
        i = i + 1;
    }
    assert(readings@ == readings_spec(oracles@, live_rates@));
    combine_readings(&readings)
}

/// Whether the price of `asset_name` must be asked of the oracle manager: the
/// stable asset is worth one without asking.
pub fn needs_price_query(asset_name: &String) -> (r: bool)
    ensures
        r == (asset_name@ != STABLE_DENOM@),
{
    let stable = STABLE_DENOM.to_owned();
    *asset_name != stable
}

/// The price of `asset_name` in the stable asset, where `queried` is what the
/// oracle manager answered, its failure returned as it came; the stable asset
/// itself is worth one and its answer is not read.
pub fn get_oracle_price(asset_name: &String, queried: Result<Decimal, ContractError>) -> (r: Result<
    Decimal,
    ContractError,
>)
    ensures
        asset_name@ == STABLE_DENOM@ ==> r == Ok::<Decimal, ContractError>(
            Decimal { atomics: 1_000_000_000_000_000_000 },
        ),
        asset_name@ != STABLE_DENOM@ ==> r == queried,
{
    if !needs_price_query(asset_name) {
        Ok(Decimal::one())
    } else {
        queried
    }
}

} // verus!
