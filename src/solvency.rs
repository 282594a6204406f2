//! The solvency check: an account's collateral, discounted by each asset's
//! ratio, against its debt plus a prospective withdrawal, both at full price.

use vstd::prelude::*;
use crate::asset::AssetInfo;
use crate::decimal::{Decimal, ratio_atomics, mul_atomics, max_atomics};
use crate::error::ContractError;
use crate::oracle::{STABLE_DENOM, get_oracle_price};
use crate::registry::Registry;
use crate::table::{BalanceTable, Position, PositionKey, amount_in, key_of};

verus! {

/// The price of an asset, in the stable asset, as fetched for one evaluation.
#[derive(Debug)]
pub struct AssetPrice {
    pub asset_name: String,
    pub price: Decimal,
}

pub open spec fn pow10(n: nat) -> int
    decreases n,
{
    if n == 0 {
        1
    } else {
        10 * pow10((n - 1) as nat)
    }
}

/// The first price given for `name` in `prices`.
pub open spec fn price_in(prices: Seq<AssetPrice>, name: Seq<char>) -> Option<Decimal>
    decreases prices.len(),
{
    if prices.len() == 0 {
        None
    } else if prices[0].asset_name@ == name {
        Some(prices[0].price)
    } else {
        price_in(prices.drop_first(), name)
    }
}

/// The price used for `name`: one for the stable asset, else the given one.
pub open spec fn price_for(prices: Seq<AssetPrice>, name: Seq<char>) -> Option<Decimal> {
    if name == STABLE_DENOM@ {
        Some(Decimal { atomics: 1_000_000_000_000_000_000 })
    } else {
        price_in(prices, name)
    }
}

/// `amount` raw units of an asset with `decimals` places, as decimal atomics:
/// `None` where a step leaves the 128-bit range.
pub open spec fn whole_units(amount: u128, decimals: u128) -> Option<int> {
    if pow10(decimals as nat) > max_atomics() {
        None
    } else if ratio_atomics(amount as int, pow10(decimals as nat)) > max_atomics() {
        None
    } else {
        Some(ratio_atomics(amount as int, pow10(decimals as nat)))
    }
}

/// The full-price value of `amount` raw units, in atomics.
pub open spec fn debt_value(amount: u128, decimals: u128, price: Decimal) -> Option<int> {
    match whole_units(amount, decimals) {
        None => None,
        Some(u) => if mul_atomics(u, price.value()) > max_atomics() {
            None
        } else {
            Some(mul_atomics(u, price.value()))
        },
    }
}

/// The value of `amount` raw units discounted by `ratio`, in atomics.
pub open spec fn collateral_value(amount: u128, decimals: u128, price: Decimal, ratio: Decimal) -> Option<
    int,
> {
    match debt_value(amount, decimals, price) {
        None => None,
        Some(v) => if mul_atomics(v, ratio.value()) > max_atomics() {
            None
        } else {
            Some(mul_atomics(v, ratio.value()))
        },
    }
}

/// The value of `amount` of `asset` held in one row: discounted where
/// `haircut` holds, else at full price.
pub open spec fn row_value(
    reg: Map<Seq<char>, AssetInfo>,
    prices: Seq<AssetPrice>,
    asset: Seq<char>,
    amount: u128,
    haircut: bool,
) -> Result<int, ContractError> {
    if !reg.contains_key(asset) {
        Err(ContractError::AssetNotSupported)
    } else {
        match price_for(prices, asset) {
            None => Err(ContractError::PriceUnavailable),
            Some(price) => {
                let info = reg[asset];
                let v = if haircut {
                    collateral_value(amount, info.decimals_spec(), price, info.ratio_spec())
                } else {
                    debt_value(amount, info.decimals_spec(), price)
                };
                match v {
                    None => Err(ContractError::Overflow),
                    Some(x) => Ok(x),
                }
            },
        }
    }
}

/// The positions of `account` in a table's contents, as (key, amount) pairs.
pub open spec fn rows_of(m: Map<PositionKey, u128>, account: Seq<char>) -> Set<(PositionKey, u128)> {
    Set::new(|p: (PositionKey, u128)| m.contains_key(p.0) && p.0.0 == account && m[p.0] == p.1)
}

/// Some position in `s` is valued with the failure `e`.
pub open spec fn any_fails(
    reg: Map<Seq<char>, AssetInfo>,
    prices: Seq<AssetPrice>,
    s: Set<(PositionKey, u128)>,
    haircut: bool,
    e: ContractError,
) -> bool {
    exists|p: (PositionKey, u128)| #[trigger] s.contains(p) && row_value(reg, prices, p.0.1, p.1, haircut)
        == Err::<int, ContractError>(e)
}

/// Adds a position's value to a running total; a position that cannot be
/// valued adds nothing.
pub open spec fn value_step(reg: Map<Seq<char>, AssetInfo>, prices: Seq<AssetPrice>, haircut: bool) -> spec_fn(
    int,
    (PositionKey, u128),
) -> int {
    |acc: int, p: (PositionKey, u128)|
        acc + match row_value(reg, prices, p.0.1, p.1, haircut) {
            Ok(v) => v,
            Err(_) => 0int,
        }
}

/// The summed value of the positions in `s`.
pub open spec fn total_of(
    reg: Map<Seq<char>, AssetInfo>,
    prices: Seq<AssetPrice>,
    s: Set<(PositionKey, u128)>,
    haircut: bool,
) -> int {
    s.fold(0int, value_step(reg, prices, haircut))
}

/// Whether `account` may withdraw `amount` of `asset`, given the contents of
/// the collateral and borrow tables: its collateral, each position discounted
/// by its asset's ratio, must cover its debt at full price with the
/// withdrawal added to it. A failure is reported by kind, whichever position
/// causes it: an unregistered asset first, then a missing price, then a value
/// out of range.
pub open spec fn can_withdraw_spec(
    reg: Map<Seq<char>, AssetInfo>,
    collateral: Map<PositionKey, u128>,
    borrow: Map<PositionKey, u128>,
    prices: Seq<AssetPrice>,
    account: Seq<char>,
    asset: AssetInfo,
    amount: u128,
) -> Result<bool, ContractError> {
    let cs = rows_of(collateral, account);
    let bs = rows_of(borrow, account);
    let c = total_of(reg, prices, cs, true);
    let d = total_of(reg, prices, bs, false);
    if any_fails(reg, prices, cs, true, ContractError::AssetNotSupported) || any_fails(
        reg,
        prices,
        bs,
        false,
        ContractError::AssetNotSupported,
    ) {
        Err(ContractError::AssetNotSupported)
    } else if any_fails(reg, prices, cs, true, ContractError::PriceUnavailable) || any_fails(
        reg,
        prices,
        bs,
        false,
        ContractError::PriceUnavailable,
    ) || price_for(prices, asset.name_spec()) is None {
        Err(ContractError::PriceUnavailable)
    } else if any_fails(reg, prices, cs, true, ContractError::Overflow) || any_fails(
        reg,
        prices,
        bs,
        false,
        ContractError::Overflow,
    ) || c > max_atomics() || d > max_atomics() {
        Err(ContractError::Overflow)
    } else {
        match debt_value(amount, asset.decimals_spec(), price_for(prices, asset.name_spec()).unwrap()) {
            None => Err(ContractError::Overflow),
            Some(w) => if d + w > max_atomics() {
                Err(ContractError::Overflow)
            } else {
                Ok(c >= d + w)
            },
        }
    }
}

/// The solvency of an account depends on its own positions alone: two states
/// whose tables agree on every position of `account` give the same answer.
pub proof fn lemma_can_withdraw_own_positions_only(
    reg: Map<Seq<char>, AssetInfo>,
    collateral1: Map<PositionKey, u128>,
    borrow1: Map<PositionKey, u128>,
    collateral2: Map<PositionKey, u128>,
    borrow2: Map<PositionKey, u128>,
    prices: Seq<AssetPrice>,
    account: Seq<char>,
    asset: AssetInfo,
    amount: u128,
)
    requires
        forall|k: PositionKey|
            k.0 == account ==> (#[trigger] collateral1.contains_key(k) <==> collateral2.contains_key(k)),
        forall|k: PositionKey|
            k.0 == account && #[trigger] collateral1.contains_key(k) ==> collateral1[k] == collateral2[k],
        forall|k: PositionKey| k.0 == account ==> (#[trigger] borrow1.contains_key(k) <==> borrow2.contains_key(k)),
        forall|k: PositionKey|
            k.0 == account && #[trigger] borrow1.contains_key(k) ==> borrow1[k] == borrow2[k],
    ensures
        can_withdraw_spec(reg, collateral1, borrow1, prices, account, asset, amount) == can_withdraw_spec(
            reg,
            collateral2,
            borrow2,
            prices,
            account,
            asset,
            amount,
        ),
{
    assert(rows_of(collateral1, account) =~= rows_of(collateral2, account));
    assert(rows_of(borrow1, account) =~= rows_of(borrow2, account));
}

proof fn lemma_scaled_div_monotone(a: int, b: int, m: int, d: int)
    requires
        0 <= a <= b,
        0 <= m,
        0 < d,
    ensures
        0 <= a * m / d <= b * m / d,
{
    vstd::arithmetic::mul::lemma_mul_inequality(a, b, m);
    vstd::arithmetic::mul::lemma_mul_nonnegative(a, m);
    vstd::arithmetic::div_mod::lemma_div_is_ordered(a * m, b * m, d);
    vstd::arithmetic::div_mod::lemma_div_pos_is_pos(a * m, d);
}

/// A smaller amount has a value no larger, and one that is in range when the
/// larger one is.
pub proof fn lemma_debt_value_monotone(a: u128, b: u128, decimals: u128, price: Decimal)
    requires
        a <= b,
        debt_value(b, decimals, price) is Some,
    ensures
        debt_value(a, decimals, price) is Some,
        0 <= debt_value(a, decimals, price).unwrap() <= debt_value(b, decimals, price).unwrap(),
{
    lemma_pow10_grows(0, decimals as nat);
    let d = pow10(decimals as nat);
    lemma_scaled_div_monotone(a as int, b as int, 1_000_000_000_000_000_000, d);
    let ua = ratio_atomics(a as int, d);
    let ub = ratio_atomics(b as int, d);
    lemma_scaled_div_monotone(ua, ub, price.value(), 1_000_000_000_000_000_000);
}

/// Solvency is monotone in the withdrawal: where withdrawing `x` is allowed,
/// withdrawing any smaller `y` of the same asset from the same state is allowed
/// too.
pub proof fn lemma_can_withdraw_monotone(
    reg: Map<Seq<char>, AssetInfo>,
    collateral: Map<PositionKey, u128>,
    borrow: Map<PositionKey, u128>,
    prices: Seq<AssetPrice>,
    account: Seq<char>,
    asset: AssetInfo,
    x: u128,
    y: u128,
)
    requires
        y <= x,
        can_withdraw_spec(reg, collateral, borrow, prices, account, asset, x) == Ok::<
            bool,
            ContractError,
        >(true),
    ensures
        can_withdraw_spec(reg, collateral, borrow, prices, account, asset, y) == Ok::<
            bool,
            ContractError,
        >(true),
{
    let p = price_for(prices, asset.name_spec()).unwrap();
    lemma_debt_value_monotone(y, x, asset.decimals_spec(), p);
}

pub proof fn lemma_pow10_grows(a: nat, b: nat)
    requires
        a <= b,
    ensures
        1 <= pow10(a) <= pow10(b),
    decreases b,
{
    if b > 0 {
        if a < b {
            lemma_pow10_grows(a, (b - 1) as nat);
        } else {
            lemma_pow10_grows(0, (b - 1) as nat);
        }
    }
}

/// `10^n`, or `None` where it does not fit in 128 bits.
fn checked_pow10(n: u128) -> (r: Option<u128>)
    ensures
        r matches Some(v) ==> v == pow10(n as nat),
        r is None ==> pow10(n as nat) > max_atomics(),
{
    let mut v: u128 = 1;
    let mut i: u128 = 0;
    while i < n
        invariant
            i <= n,
            v == pow10(i as nat),
        decreases n - i,
    {
        match v.checked_mul(10) {
            Some(w) => v = w,
            None => {
                proof {
                    lemma_pow10_grows((i + 1) as nat, n as nat);
                }
                return None;
            },
        }
        i = i + 1;
    }
    Some(v)
}

fn whole_units_exec(amount: u128, decimals: u128) -> (r: Option<Decimal>)
    ensures
        r matches Some(d) ==> whole_units(amount, decimals) == Some(d.value()),
        r is None ==> whole_units(amount, decimals) is None,
{
    match checked_pow10(decimals) {
        None => None,
        Some(scale) => {
            proof {
                lemma_pow10_grows(0, decimals as nat);
            }
            Decimal::checked_from_ratio(amount, scale)
        },
    }
}

fn debt_value_exec(amount: u128, decimals: u128, price: Decimal) -> (r: Option<Decimal>)
    ensures
        r matches Some(d) ==> debt_value(amount, decimals, price) == Some(d.value()),
        r is None ==> debt_value(amount, decimals, price) is None,
{
    match whole_units_exec(amount, decimals) {
        None => None,
        Some(u) => u.checked_mul(price),
    }
}

fn collateral_value_exec(amount: u128, decimals: u128, price: Decimal, ratio: Decimal) -> (r: Option<
    Decimal,
>)
    ensures
        r matches Some(d) ==> collateral_value(amount, decimals, price, ratio) == Some(d.value()),
        r is None ==> collateral_value(amount, decimals, price, ratio) is None,
{
    match debt_value_exec(amount, decimals, price) {
        None => None,
        Some(v) => v.checked_mul(ratio),
    }
}

fn price_lookup(prices: &Vec<AssetPrice>, name: &String) -> (r: Option<Decimal>)
    ensures
        r == price_in(prices@, name@),
{
    let mut i: usize = 0;
    assert(prices@.subrange(0, prices@.len() as int) == prices@);
    while i < prices.len()
        invariant
            i <= prices@.len(),
            price_in(prices@, name@) == price_in(prices@.subrange(i as int, prices@.len() as int), name@),
        decreases prices@.len() - i,
    {
        assert(prices@.subrange(i as int, prices@.len() as int).drop_first() == prices@.subrange(
            i + 1,
            prices@.len() as int,
        ));
        if prices[i].asset_name == *name {
            return Some(prices[i].price);
        }
        i = i + 1;
    }
    None
}

/// The price of `name` for this evaluation (see `price_for`).
pub fn price_of(prices: &Vec<AssetPrice>, name: &String) -> (r: Result<Decimal, ContractError>)
    ensures
        r == match price_for(prices@, name@) {
            Some(p) => Ok::<Decimal, ContractError>(p),
            None => Err(ContractError::PriceUnavailable),
        },
{
    let queried = match price_lookup(prices, name) {
        Some(p) => Ok(p),
        None => Err(ContractError::PriceUnavailable),
    };
    get_oracle_price(name, queried)
}

/// A row's value is never negative.
proof fn lemma_row_value_nonneg(
    reg: Map<Seq<char>, AssetInfo>,
    prices: Seq<AssetPrice>,
    asset: Seq<char>,
    amount: u128,
    haircut: bool,
)
    ensures
        row_value(reg, prices, asset, amount, haircut) matches Ok(v) ==> v >= 0,
{
    if reg.contains_key(asset) && price_for(prices, asset) is Some {
        let info = reg[asset];
        let price = price_for(prices, asset).unwrap();
        if debt_value(amount, info.decimals_spec(), price) is Some {
            lemma_debt_value_monotone(0, amount, info.decimals_spec(), price);
            lemma_scaled_div_monotone(
                0,
                debt_value(amount, info.decimals_spec(), price).unwrap(),
                info.ratio_spec().value(),
                1_000_000_000_000_000_000,
            );
        }
    }
}

proof fn lemma_value_step_commutes(reg: Map<Seq<char>, AssetInfo>, prices: Seq<AssetPrice>, haircut: bool)
    ensures
        vstd::set::fold::is_fun_commutative(value_step(reg, prices, haircut)),
{
    let f = value_step(reg, prices, haircut);
    assert forall|a1: (PositionKey, u128), a2: (PositionKey, u128), b: int|
        #[trigger] f(f(b, a2), a1) == f(f(b, a1), a2) by {}
}

proof fn lemma_any_fails_insert(
    reg: Map<Seq<char>, AssetInfo>,
    prices: Seq<AssetPrice>,
    s: Set<(PositionKey, u128)>,
    q: (PositionKey, u128),
    haircut: bool,
    e: ContractError,
)
    ensures
        any_fails(reg, prices, s.insert(q), haircut, e) == (any_fails(reg, prices, s, haircut, e)
            || row_value(reg, prices, q.0.1, q.1, haircut) == Err::<int, ContractError>(e)),
{
    if any_fails(reg, prices, s, haircut, e) {
        let p = choose|p: (PositionKey, u128)| #[trigger] s.contains(p) && row_value(reg, prices, p.0.1, p.1, haircut)
            == Err::<int, ContractError>(e);
        assert(s.insert(q).contains(p));
    }
    if row_value(reg, prices, q.0.1, q.1, haircut) == Err::<int, ContractError>(e) {
        assert(s.insert(q).contains(q));
    }
}

/// The positions of `account` among `rows`.
pub open spec fn rows_in(rows: Seq<Position>, account: Seq<char>) -> Set<(PositionKey, u128)>
    decreases rows.len(),
{
    if rows.len() == 0 {
        Set::empty()
    } else {
        let prev = rows_in(rows.drop_last(), account);
        if rows.last().account@ == account {
            prev.insert((key_of(rows.last()), rows.last().amount))
        } else {
            prev
        }
    }
}

proof fn lemma_rows_in(rows: Seq<Position>, account: Seq<char>)
    ensures
        rows_in(rows, account).finite(),
        forall|p: (PositionKey, u128)|
            #[trigger] rows_in(rows, account).contains(p) <==> exists|j: int|
                0 <= j < rows.len() && (#[trigger] rows[j]).account@ == account && p == (
                    key_of(rows[j]),
                    rows[j].amount,
                ),
    decreases rows.len(),
{
    if rows.len() > 0 {
        let prev = rows.drop_last();
        lemma_rows_in(prev, account);
        assert forall|p: (PositionKey, u128)|
            #[trigger] rows_in(rows, account).contains(p) implies exists|j: int|
                0 <= j < rows.len() && (#[trigger] rows[j]).account@ == account && p == (
                    key_of(rows[j]),
                    rows[j].amount,
                ) by {
            if rows_in(prev, account).contains(p) {
                let j = choose|j: int|
                    0 <= j < prev.len() && (#[trigger] prev[j]).account@ == account && p == (
                        key_of(prev[j]),
                        prev[j].amount,
                    );
                assert(rows[j] == prev[j]);
            } else {
                assert(rows[rows.len() - 1] == rows.last());
            }
        }
        assert forall|p: (PositionKey, u128)|
            (exists|j: int|
                0 <= j < rows.len() && (#[trigger] rows[j]).account@ == account && p == (
                    key_of(rows[j]),
                    rows[j].amount,
                )) implies #[trigger] rows_in(rows, account).contains(p) by {
            let j = choose|j: int|
                0 <= j < rows.len() && (#[trigger] rows[j]).account@ == account && p == (
                    key_of(rows[j]),
                    rows[j].amount,
                );
            if j < rows.len() - 1 {
                assert(prev[j] == rows[j]);
            }
        }
    }
}

fn row_value_exec(
    registry: &Registry,
    prices: &Vec<AssetPrice>,
    asset: &String,
    amount: u128,
    haircut: bool,
) -> (r: Result<Decimal, ContractError>)
    requires
        registry.wf(),
    ensures
        r matches Ok(d) ==> row_value(registry@, prices@, asset@, amount, haircut) == Ok::<
            int,
            ContractError,
        >(d.value()),
        r matches Err(e) ==> row_value(registry@, prices@, asset@, amount, haircut) == Err::<
            int,
            ContractError,
        >(e),
{
    let info = match registry.get(asset) {
        Some(info) => info,
        None => return Err(ContractError::AssetNotSupported),
    };
    let price = match price_of(prices, asset) {
        Ok(price) => price,
        Err(e) => return Err(e),
    };
    let v = if haircut {
        collateral_value_exec(amount, info.get_decimals(), price, info.get_ratio())
    } else {
        debt_value_exec(amount, info.get_decimals(), price)
    };
    match v {
        Some(d) => Ok(d),
        None => Err(ContractError::Overflow),
    }
}

/// What valuing the positions of one account in one table found.
struct Tally {
    unsupported: bool,
    unpriced: bool,
    overflow: bool,
    total: Decimal,
}

fn tally(
    registry: &Registry,
    prices: &Vec<AssetPrice>,
    table: &BalanceTable,
    account: &String,
    haircut: bool,
) -> (t: Tally)
    requires
        registry.wf(),
        table.wf(),
    ensures
        ({
            let s = rows_of(table@, account@);
            &&& t.unsupported == any_fails(registry@, prices@, s, haircut, ContractError::AssetNotSupported)
            &&& t.unpriced == any_fails(registry@, prices@, s, haircut, ContractError::PriceUnavailable)
            &&& t.overflow == (any_fails(registry@, prices@, s, haircut, ContractError::Overflow)
                || total_of(registry@, prices@, s, haircut) > max_atomics())
            &&& !t.overflow ==> t.total.value() == total_of(registry@, prices@, s, haircut)
        }),
{
    let ghost reg = registry@;
    let ghost ps = prices@;
    let ghost f = value_step(reg, ps, haircut);
    proof {
        table.lemma_rows();
        lemma_value_step_commutes(reg, ps, haircut);
        vstd::set::fold::lemma_fold_empty(0int, f);
    }
    let n = table.len();
    let mut unsupported = false;
    let mut unpriced = false;
    let mut row_overflow = false;
    let mut sum_overflow = false;
    let mut total = Decimal::zero();
    let mut i: usize = 0;
    assert(rows_in(table.rows().subrange(0, 0), account@) =~= Set::<(PositionKey, u128)>::empty());
    while i < n
        invariant
            registry.wf(),
            table.wf(),
            reg == registry@,
            ps == prices@,
            f == value_step(reg, ps, haircut),
            vstd::set::fold::is_fun_commutative(f),
            n == table.rows().len(),
            i <= n,
            rows_in(table.rows().subrange(0, i as int), account@).finite(),
            ({
                let s = rows_in(table.rows().subrange(0, i as int), account@);
                &&& unsupported == any_fails(reg, ps, s, haircut, ContractError::AssetNotSupported)
                &&& unpriced == any_fails(reg, ps, s, haircut, ContractError::PriceUnavailable)
                &&& row_overflow == any_fails(reg, ps, s, haircut, ContractError::Overflow)
                &&& sum_overflow == (s.fold(0int, f) > max_atomics())
                &&& !sum_overflow ==> total.value() == s.fold(0int, f)
            }),
        decreases n - i,
    {
        let ghost rows = table.rows();
        let ghost s = rows_in(rows.subrange(0, i as int), account@);
        let p = table.row(i);
        assert(rows.subrange(0, i + 1).drop_last() == rows.subrange(0, i as int));
        assert(rows.subrange(0, i + 1).last() == rows[i as int]);
        if p.account == *account {
            let ghost q = (key_of(*p), p.amount);
            proof {
                lemma_rows_in(rows.subrange(0, i as int), account@);
                table.lemma_rows();
                if s.contains(q) {
                    let j = choose|j: int|
                        0 <= j < i && (#[trigger] rows.subrange(0, i as int)[j]).account@ == account@ && q == (
                            key_of(rows.subrange(0, i as int)[j]),
                            rows.subrange(0, i as int)[j].amount,
                        );
                    assert(rows.subrange(0, i as int)[j] == rows[j]);
                    assert(key_of(rows[j]) == key_of(rows[i as int]));
                    assert(key_of(table.rows()[j]) != key_of(table.rows()[i as int]));
                }
                vstd::set::fold::lemma_fold_insert(s, 0int, f, q);
                lemma_any_fails_insert(reg, ps, s, q, haircut, ContractError::AssetNotSupported);
                lemma_any_fails_insert(reg, ps, s, q, haircut, ContractError::PriceUnavailable);
                lemma_any_fails_insert(reg, ps, s, q, haircut, ContractError::Overflow);
                lemma_row_value_nonneg(reg, ps, p.asset@, p.amount, haircut);
            }
            match row_value_exec(registry, prices, &p.asset, p.amount, haircut) {
                Ok(v) => {
                    if !sum_overflow {
                        match total.checked_add(v) {
                            Some(t) => total = t,
                            None => sum_overflow = true,
                        }
                    }
                },
                Err(ContractError::AssetNotSupported) => unsupported = true,
                Err(ContractError::PriceUnavailable) => unpriced = true,
                Err(_) => row_overflow = true,
            }
        }
        i = i + 1;
    }
    proof {
        let rows = table.rows();
        table.lemma_rows();
        assert(rows.subrange(0, n as int) == rows);
        lemma_rows_in(rows, account@);
        assert(rows_in(rows, account@) =~= rows_of(table@, account@)) by {
            assert forall|p: (PositionKey, u128)| #[trigger] rows_of(table@, account@).contains(p) implies rows_in(
                rows,
                account@,
            ).contains(p) by {
                let j = choose|j: int| 0 <= j < rows.len() && key_of(#[trigger] rows[j]) == p.0;
                assert(amount_in(table@, key_of(rows[j])) == rows[j].amount);
            }
            assert forall|p: (PositionKey, u128)| #[trigger] rows_in(rows, account@).contains(p) implies rows_of(
                table@,
                account@,
            ).contains(p) by {
                let j = choose|j: int|
                    0 <= j < rows.len() && (#[trigger] rows[j]).account@ == account@ && p == (
                        key_of(rows[j]),
                        rows[j].amount,
                    );
                assert(amount_in(table@, key_of(rows[j])) == rows[j].amount);
                assert(table@.contains_key(key_of(rows[j])));
            }
        }
    }
    Tally { unsupported, unpriced, overflow: row_overflow || sum_overflow, total }
}

/// Whether `withdrawer_address` may withdraw `withdraw_amount` of
/// `withdraw_asset` (see `can_withdraw_spec`), valuing each asset at the price
/// given for it in `prices`.
pub fn can_withdraw(
    registry: &Registry,
    collateral: &BalanceTable,
    borrow: &BalanceTable,
    prices: &Vec<AssetPrice>,
    withdrawer_address: &String,
    withdraw_asset: &AssetInfo,
    withdraw_amount: u128,
) -> (r: Result<bool, ContractError>)
    requires
        registry.wf(),
        collateral.wf(),
        borrow.wf(),
    ensures
        r == can_withdraw_spec(
            registry@,
            collateral@,
            borrow@,
            prices@,
            withdrawer_address@,
            *withdraw_asset,
            withdraw_amount,
        ),
{
    let c = tally(registry, prices, collateral, withdrawer_address, true);
    let d = tally(registry, prices, borrow, withdrawer_address, false);
    if c.unsupported || d.unsupported {
        return Err(ContractError::AssetNotSupported);
    }
    let name = withdraw_asset.get_name();
    let price_withdraw_asset = price_of(prices, &name);
    if c.unpriced || d.unpriced || price_withdraw_asset.is_err() {
        return Err(ContractError::PriceUnavailable);
    }
    if c.overflow || d.overflow {
        return Err(ContractError::Overflow);
    }
    let price = match price_withdraw_asset {
        Ok(p) => p,
        Err(e) => return Err(e),
    };
    let withdraw_value = match debt_value_exec(withdraw_amount, withdraw_asset.get_decimals(), price) {
        Some(v) => v,
        None => return Err(ContractError::Overflow),
    };
    let total_debt = match d.total.checked_add(withdraw_value) {
        Some(v) => v,
        None => return Err(ContractError::Overflow),
    };
    Ok(c.total.ge(&total_debt))
}

} // verus!
