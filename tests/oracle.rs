use steadifi::decimal::Decimal;
use steadifi::error::ContractError;
use steadifi::oracle::{
    combine_readings, get_median, get_oracle_price, needs_price_query, query_get_price, source_reading,
    Oracle, OracleUnvalidated,
};
use steadifi::oracle_manager::OracleManager;

fn d(atomics: u128) -> Decimal {
    Decimal::raw(atomics)
}

#[test]
fn median_of_odd_count_is_middle() {
    let mut v = vec![d(30), d(10), d(20)];
    assert_eq!(get_median(&mut v), d(20));
    assert_eq!(v, vec![d(10), d(20), d(30)]);
}

#[test]
fn median_of_even_count_is_lower_middle() {
    let mut v = vec![d(4), d(1), d(3), d(2)];
    assert_eq!(get_median(&mut v), d(2));
    let mut v = vec![d(9), d(5)];
    assert_eq!(get_median(&mut v), d(5));
}

#[test]
fn median_of_nothing_is_zero_and_of_one_is_itself() {
    let mut v: Vec<Decimal> = vec![];
    assert_eq!(get_median(&mut v), d(0));
    let mut v = vec![d(7)];
    assert_eq!(get_median(&mut v), d(7));
    let mut v = vec![d(5), d(5), d(1)];
    assert_eq!(get_median(&mut v), d(5));
}

#[test]
fn readings_skip_failed_sources() {
    assert_eq!(combine_readings(&vec![]), Err(ContractError::OracleNotFound));
    assert_eq!(combine_readings(&vec![None, None]), Err(ContractError::PriceUnavailable));
    assert_eq!(combine_readings(&vec![None, Some(d(8)), Some(d(2)), Some(d(5))]), Ok(d(5)));
}

#[test]
fn source_readings() {
    let fixed = Oracle::Fixed { price: d(42) };
    let native = Oracle::Native { denom: "uluna".to_string() };
    let pool = Oracle::AstroportTWAP { address: "pool".to_string() };
    assert_eq!(source_reading(&fixed, Some(d(1))), Some(d(42)));
    assert_eq!(source_reading(&native, Some(d(3))), Some(d(3)));
    assert_eq!(source_reading(&native, None), None);
    assert_eq!(source_reading(&pool, None), None);
    let oracles = vec![fixed.clone(), native.clone(), native];
    assert_eq!(query_get_price(&oracles, &vec![None, Some(d(50))]), Ok(d(42)));
    assert_eq!(query_get_price(&oracles, &vec![None, Some(d(50)), Some(d(60))]), Ok(d(50)));
    // a pool source gives no reading and does not drag the median down
    let oracles = vec![fixed, pool.clone()];
    assert_eq!(query_get_price(&oracles, &vec![]), Ok(d(42)));
    assert_eq!(query_get_price(&vec![pool], &vec![]), Err(ContractError::PriceUnavailable));
}

#[test]
fn stable_asset_needs_no_query() {
    assert!(!needs_price_query(&"uusd".to_string()));
    assert!(needs_price_query(&"uluna".to_string()));
    assert_eq!(get_oracle_price(&"uusd".to_string(), Err(ContractError::OracleNotFound)), Ok(Decimal::one()));
    assert_eq!(get_oracle_price(&"uluna".to_string(), Ok(d(9))), Ok(d(9)));
    assert_eq!(get_oracle_price(&"uluna".to_string(), Err(ContractError::OracleNotFound)), Err(ContractError::OracleNotFound));
    assert_eq!(
        get_oracle_price(&"uluna".to_string(), Err(ContractError::PriceUnavailable)),
        Err(ContractError::PriceUnavailable)
    );
}

#[test]
fn oracle_validation() {
    let o = OracleUnvalidated::AstroportTWAP { address_unvalidated: "pool".to_string() };
    assert_eq!(o.clone().to_validated(false), Err(ContractError::InvalidAddress));
    assert_eq!(o.to_validated(true), Ok(Oracle::AstroportTWAP { address: "pool".to_string() }));
    let o = OracleUnvalidated::Native { denom: "uluna".to_string() };
    assert_eq!(o.to_validated(false), Ok(Oracle::Native { denom: "uluna".to_string() }));
}

#[test]
fn oracle_manager_registers_sources() {
    let admin = "admin".to_string();
    let mut m = OracleManager::instantiate(admin.clone());
    let luna = "luna".to_string();
    assert_eq!(m.query_get_price(&luna, &vec![]), Err(ContractError::OracleNotFound));
    assert_eq!(
        m.execute_add_asset_price_oracle(&"eve".to_string(), luna.clone(), OracleUnvalidated::Fixed { price: d(1) }, true),
        Err(ContractError::Unauthorized)
    );
    assert_eq!(m.query_get_price(&luna, &vec![]), Err(ContractError::OracleNotFound));
    m.execute_add_asset_price_oracle(&admin, luna.clone(), OracleUnvalidated::Fixed { price: d(10) }, true).unwrap();
    assert_eq!(m.query_get_price(&luna, &vec![]), Ok(d(10)));
    m.execute_add_asset_price_oracle(&admin, luna.clone(), OracleUnvalidated::Native { denom: "uluna".to_string() }, true)
        .unwrap();
    m.execute_add_asset_price_oracle(&admin, luna.clone(), OracleUnvalidated::Fixed { price: d(30) }, true).unwrap();
    assert_eq!(m.sources.oracles_of(&luna).map(|l| l.len()), Some(3));
    assert_eq!(m.query_get_price(&luna, &vec![None, Some(d(20)), None]), Ok(d(20)));
    assert_eq!(m.query_get_price(&luna, &vec![None, None, None]), Ok(d(10)));
    assert_eq!(m.execute_update_admin(&admin, "bob".to_string()), Ok(()));
    assert!(m.is_admin(&"bob".to_string()));
}
