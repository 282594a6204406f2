use steadifi::asset::{AssetInfo, AssetInfoUnvalidated, NormalAssetInfo, NormalAssetInfoUnvalidated};
use steadifi::contract::{Attribute, BankSend, Coin, CollateralManager};
use steadifi::decimal::Decimal;
use steadifi::error::ContractError;
use steadifi::ledger::BalanceResponse;
use steadifi::mint_authority::{execute_mint_and_send, MintAuthorityInfo, MintInstruction};
use steadifi::solvency::{can_withdraw, AssetPrice};

fn s(x: &str) -> String {
    x.to_string()
}

fn ratio(n: u128, d: u128) -> Decimal {
    Decimal::checked_from_ratio(n, d).unwrap()
}

fn price(asset: &str, whole: u128) -> AssetPrice {
    AssetPrice { asset_name: s(asset), price: ratio(whole, 1) }
}

fn native(denom: &str, r: Decimal, decimals: u128) -> AssetInfoUnvalidated {
    AssetInfoUnvalidated::NormalAsset(NormalAssetInfoUnvalidated::NativeToken {
        denom: s(denom),
        collateralizeable: true,
        ratio: r,
        decimals,
    })
}

fn future(name: &str, contract: &str, collateralizeable: bool) -> AssetInfoUnvalidated {
    AssetInfoUnvalidated::FutureAsset {
        asset_name: s(name),
        contract_addr: s(contract),
        collateralizeable,
        ratio: ratio(1, 1),
        underlying: NormalAssetInfoUnvalidated::CW20Token {
            asset_name: s("wbtc"),
            contract_addr: s("wbtc_cw20_address"),
            collateralizeable: true,
            ratio: ratio(9, 10),
            decimals: 0,
        },
        decimals: 0,
    }
}

fn attrs(action: &str, name: &str) -> Vec<Attribute> {
    vec![
        Attribute { key: s("action"), value: s(action) },
        Attribute { key: s("asset_name"), value: s(name) },
    ]
}

fn manager_with(name: &str, info: AssetInfoUnvalidated) -> CollateralManager {
    let mut m = CollateralManager::instantiate(s("admin"));
    m.execute_add_supported_asset(&s("admin"), s(name), info, true).unwrap();
    m
}

#[test]
fn test_initialization() {
    let m = CollateralManager::instantiate(s("Admin"));
    assert!(m.is_admin(&s("Admin")));
    assert!(!m.is_admin(&s("someone_who_is_not_Admin")));
}

#[test]
fn test_add_supported_assets() {
    let admin = s("Andmin");
    let mut m = CollateralManager::instantiate(admin.clone());
    let luna = native("luna", ratio(9, 10), 6);
    assert_eq!(
        m.execute_add_supported_asset(&admin, s("luna"), luna, true),
        Ok(attrs("add_supported_asset", "luna"))
    );
    let wbtc = AssetInfoUnvalidated::NormalAsset(NormalAssetInfoUnvalidated::CW20Token {
        asset_name: s("wbtc"),
        contract_addr: s("wbtc_cw20_address"),
        collateralizeable: true,
        ratio: ratio(8, 10),
        decimals: 8,
    });
    assert_eq!(
        m.execute_add_supported_asset(&admin, s("wbtc"), wbtc, true),
        Ok(attrs("add_supported_asset", "wbtc"))
    );
    let mut fbtc = future("fbtc", "fbtc_cw20_address", false);
    if let AssetInfoUnvalidated::FutureAsset { ratio: r, .. } = &mut fbtc {
        *r = Decimal::default();
    }
    assert_eq!(
        m.execute_add_supported_asset(&admin, s("fbtc"), fbtc.clone(), true),
        Ok(attrs("add_supported_asset", "fbtc"))
    );
    assert_eq!(
        m.execute_add_supported_asset(&s("someone_who_is_not_admin"), s("fbtc"), fbtc, true),
        Err(ContractError::Unauthorized)
    );
}

#[test]
fn test_query_assetinfo() {
    let admin = s("Andmin");
    let mut m = CollateralManager::instantiate(admin.clone());
    let luna = native("luna", ratio(9, 10), 6);
    m.execute_add_supported_asset(&admin, s("luna"), luna, true).unwrap();
    let expected = AssetInfo::NormalAsset(NormalAssetInfo::NativeToken {
        denom: s("luna"),
        collateralizeable: true,
        ratio: ratio(9, 10),
        decimals: 6,
    });
    assert_eq!(m.query_asset_info(&s("luna")), Some(&expected));
    assert_eq!(m.query_asset_info(&s("wbtc")), None);
}

#[test]
fn add_rejects_duplicate_and_invalid_address() {
    let mut m = manager_with("luna", native("luna", ratio(1, 1), 6));
    assert_eq!(
        m.execute_add_supported_asset(&s("admin"), s("luna"), native("luna", ratio(1, 1), 6), true),
        Err(ContractError::AssetAlreadySupported)
    );
    assert_eq!(
        m.execute_add_supported_asset(&s("admin"), s("f"), future("f", "bad", true), false),
        Err(ContractError::InvalidAddress)
    );
    assert!(m.query_asset_info(&s("f")).is_none());
    // a native coin has no address to validate
    assert!(m
        .execute_add_supported_asset(&s("admin"), s("atom"), native("atom", ratio(1, 1), 6), false)
        .is_ok());
}

#[test]
fn remove_missing_asset_is_an_error_and_readding_works() {
    let mut m = manager_with("luna", native("luna", ratio(1, 1), 6));
    assert_eq!(
        m.execute_remove_supported_asset(&s("admin"), s("wbtc")),
        Err(ContractError::AssetNotSupported)
    );
    assert!(m.query_asset_info(&s("luna")).is_some());
    assert_eq!(
        m.execute_remove_supported_asset(&s("admin"), s("luna")),
        Ok(attrs("remove_supported_asset", "luna"))
    );
    assert!(m.query_asset_info(&s("luna")).is_none());
    assert_eq!(
        m.execute_remove_supported_asset(&s("admin"), s("luna")),
        Err(ContractError::AssetNotSupported)
    );
    assert!(m
        .execute_add_supported_asset(&s("admin"), s("luna"), native("luna", ratio(1, 1), 6), true)
        .is_ok());
    assert!(m.query_asset_info(&s("luna")).is_some());
}

#[test]
fn non_admin_cannot_change_registry_or_admin() {
    let mut m = CollateralManager::instantiate(s("admin"));
    assert_eq!(
        m.execute_add_supported_asset(&s("mallory"), s("luna"), native("luna", ratio(1, 1), 6), true),
        Err(ContractError::Unauthorized)
    );
    assert!(m.query_asset_info(&s("luna")).is_none());
    assert_eq!(
        m.execute_remove_supported_asset(&s("mallory"), s("luna")),
        Err(ContractError::Unauthorized)
    );
    assert_eq!(m.execute_update_admin(&s("mallory"), s("mallory")), Err(ContractError::Unauthorized));
    assert!(m.is_admin(&s("admin")));
    assert_eq!(m.execute_update_admin(&s("admin"), s("bob")), Ok(()));
    assert!(m.is_admin(&s("bob")));
    assert!(!m.is_admin(&s("admin")));
}

#[test]
fn native_deposit_credits_and_is_all_or_nothing() {
    let mut m = manager_with("luna", native("luna", ratio(1, 1), 6));
    let alice = s("alice");
    let funds = vec![Coin { denom: s("luna"), amount: 5 }, Coin { denom: s("luna"), amount: 7 }];
    assert_eq!(m.execute_native_deposit(&alice, &funds), Ok(()));
    assert_eq!(m.query_balance(&alice, &s("luna")), BalanceResponse { collateral: 12, borrow: 0 });
    let funds = vec![Coin { denom: s("luna"), amount: 5 }, Coin { denom: s("doge"), amount: 1 }];
    assert_eq!(m.execute_native_deposit(&alice, &funds), Err(ContractError::AssetNotSupported));
    assert_eq!(m.query_balance(&alice, &s("luna")).collateral, 12);
    let funds = vec![Coin { denom: s("luna"), amount: u128::MAX }];
    assert_eq!(m.execute_native_deposit(&alice, &funds), Err(ContractError::Overflow));
    assert_eq!(m.query_balance(&alice, &s("luna")).collateral, 12);
}

#[test]
fn withdraw_allowed_at_full_ratio() {
    let alice = s("alice");
    let mut m = manager_with("luna", native("luna", ratio(1, 1), 6));
    m.execute_native_deposit(&alice, &vec![Coin { denom: s("luna"), amount: 1_000_000 }]).unwrap();
    let prices = vec![price("luna", 10)];
    let r = m.execute_native_withdraw(&alice, s("luna"), 1_000_000, &prices);
    assert_eq!(r, Ok(BankSend { to_address: alice.clone(), denom: s("luna"), amount: 1_000_000 }));
    assert_eq!(m.query_balance(&alice, &s("luna")).collateral, 0);
}

#[test]
fn withdraw_refused_under_haircut() {
    let alice = s("alice");
    let mut m = manager_with("luna", native("luna", ratio(9, 10), 6));
    m.execute_native_deposit(&alice, &vec![Coin { denom: s("luna"), amount: 1_000_000 }]).unwrap();
    let prices = vec![price("luna", 10)];
    // collateral value 9.0 against a prospective debt of 10.0
    assert_eq!(
        m.execute_native_withdraw(&alice, s("luna"), 1_000_000, &prices),
        Err(ContractError::NotEnoughTotalCollateral)
    );
    assert_eq!(m.query_balance(&alice, &s("luna")).collateral, 1_000_000);
    // 0.9 of a unit is worth 9.0
    assert!(m.execute_native_withdraw(&alice, s("luna"), 900_000, &prices).is_ok());
    assert_eq!(m.query_balance(&alice, &s("luna")).collateral, 100_000);
}

#[test]
fn solvency_with_collateral_worth_a_hundred() {
    let alice = s("alice");
    let mut m = manager_with("usd", native("usd", ratio(1, 1), 0));
    m.execute_native_deposit(&alice, &vec![Coin { denom: s("usd"), amount: 100 }]).unwrap();
    let prices = vec![price("usd", 1)];
    let usd = m.query_asset_info(&s("usd")).unwrap().clone();
    let check = |amount: u128| {
        can_withdraw(
            &m.supported_assets,
            &m.ledger.collateral,
            &m.ledger.borrow,
            &prices,
            &alice,
            &usd,
            amount,
        )
    };
    assert_eq!(check(50), Ok(true));
    assert_eq!(check(100), Ok(true));
    assert_eq!(check(150), Ok(false));
}

#[test]
fn solvency_counts_debt_at_full_price() {
    let alice = s("alice");
    let mut m = manager_with("luna", native("luna", ratio(1, 2), 0));
    m.execute_add_supported_asset(&s("admin"), s("fx"), future("fx", "fx_addr", true), true).unwrap();
    m.execute_native_deposit(&alice, &vec![Coin { denom: s("luna"), amount: 10 }]).unwrap();
    m.ledger.credit_borrow(&alice, &s("fx"), 2).unwrap();
    let prices = vec![price("luna", 4), price("fx", 3)];
    let luna = m.query_asset_info(&s("luna")).unwrap().clone();
    // value 10 * 4 * 0.5 = 20; debt 2 * 3 = 6; withdrawing 3 luna adds 12
    let r = can_withdraw(&m.supported_assets, &m.ledger.collateral, &m.ledger.borrow, &prices, &alice, &luna, 3);
    assert_eq!(r, Ok(true));
    let r = can_withdraw(&m.supported_assets, &m.ledger.collateral, &m.ledger.borrow, &prices, &alice, &luna, 4);
    assert_eq!(r, Ok(false));
    // without a price for the borrowed asset nothing can be decided
    let r = can_withdraw(
        &m.supported_assets,
        &m.ledger.collateral,
        &m.ledger.borrow,
        &vec![price("luna", 4)],
        &alice,
        &luna,
        1,
    );
    assert_eq!(r, Err(ContractError::PriceUnavailable));
}

#[test]
fn solvency_is_monotone_in_the_amount() {
    let alice = s("alice");
    let mut m = manager_with("luna", native("luna", ratio(3, 4), 2));
    m.execute_native_deposit(&alice, &vec![Coin { denom: s("luna"), amount: 1_000 }]).unwrap();
    let prices = vec![price("luna", 2)];
    let luna = m.query_asset_info(&s("luna")).unwrap().clone();
    let check = |amount: u128| {
        can_withdraw(&m.supported_assets, &m.ledger.collateral, &m.ledger.borrow, &prices, &alice, &luna, amount)
    };
    // value 10 * 2 * 0.75 = 15, so up to 7.5 units may leave
    assert_eq!(check(750), Ok(true));
    assert_eq!(check(751), Ok(false));
    for amount in [0u128, 1, 100, 500, 749] {
        assert_eq!(check(amount), Ok(true));
    }
}

#[test]
fn stable_asset_is_priced_at_one() {
    let alice = s("alice");
    let mut m = manager_with("uusd", native("uusd", ratio(1, 1), 6));
    m.execute_native_deposit(&alice, &vec![Coin { denom: s("uusd"), amount: 2_000_000 }]).unwrap();
    let r = m.execute_native_withdraw(&alice, s("uusd"), 2_000_000, &vec![]);
    assert!(r.is_ok());
}

#[test]
fn withdraw_never_deposited() {
    let mut m = manager_with("luna", native("luna", ratio(1, 1), 6));
    // no prices are given: the zero balance is found before any valuation
    assert_eq!(
        m.execute_native_withdraw(&s("alice"), s("luna"), 1, &vec![]),
        Err(ContractError::AssetIsZero)
    );
    assert_eq!(
        m.execute_native_withdraw(&s("alice"), s("doge"), 1, &vec![]),
        Err(ContractError::AssetNotSupported)
    );
}

#[test]
fn withdraw_more_than_held() {
    let alice = s("alice");
    let mut m = manager_with("luna", native("luna", ratio(1, 1), 6));
    m.execute_native_deposit(&alice, &vec![Coin { denom: s("luna"), amount: 10 }]).unwrap();
    assert_eq!(
        m.execute_native_withdraw(&alice, s("luna"), 11, &vec![price("luna", 1)]),
        Err(ContractError::NotEnoughAsset { coin_denom: s("luna"), current_amount: 10, withdraw_amount: 11 })
    );
    assert_eq!(m.query_balance(&alice, &s("luna")).collateral, 10);
}

#[test]
fn restricted_future_asset() {
    let alice = s("alice");
    let mut m = manager_with("fbtc", future("fbtc", "fbtc_addr", false));
    m.ledger.credit_borrow(&alice, &s("fbtc"), 3).unwrap();
    assert_eq!(
        m.execute_cw20_deposit(&alice, &s("fbtc_addr"), 5, &s("fbtc")),
        Err(ContractError::CannotBecomeCollateral)
    );
    assert_eq!(m.query_balance(&alice, &s("fbtc")), BalanceResponse { collateral: 0, borrow: 3 });
    assert_eq!(m.execute_cw20_deposit(&alice, &s("fbtc_addr"), 2, &s("fbtc")), Ok(()));
    assert_eq!(m.query_balance(&alice, &s("fbtc")), BalanceResponse { collateral: 0, borrow: 1 });
    assert_eq!(m.execute_cw20_deposit(&alice, &s("fbtc_addr"), 1, &s("fbtc")), Ok(()));
    assert_eq!(m.query_balance(&alice, &s("fbtc")), BalanceResponse { collateral: 0, borrow: 0 });
    assert_eq!(
        m.execute_cw20_deposit(&alice, &s("fbtc_addr"), 1, &s("fbtc")),
        Err(ContractError::AssetNotCollaterlizeable)
    );
    assert_eq!(m.query_balance(&alice, &s("fbtc")), BalanceResponse { collateral: 0, borrow: 0 });
}

#[test]
fn deposit_nets_against_borrow() {
    let alice = s("alice");
    let mut m = manager_with("fx", future("fx", "fx_addr", true));
    m.ledger.credit_borrow(&alice, &s("fx"), 3).unwrap();
    assert_eq!(m.execute_cw20_deposit(&alice, &s("fx_addr"), 2, &s("fx")), Ok(()));
    assert_eq!(m.query_balance(&alice, &s("fx")), BalanceResponse { collateral: 0, borrow: 1 });
    assert_eq!(m.execute_cw20_deposit(&alice, &s("fx_addr"), 5, &s("fx")), Ok(()));
    assert_eq!(m.query_balance(&alice, &s("fx")), BalanceResponse { collateral: 4, borrow: 0 });
    // with nothing borrowed the whole deposit becomes collateral
    assert_eq!(m.execute_cw20_deposit(&alice, &s("fx_addr"), 6, &s("fx")), Ok(()));
    assert_eq!(m.query_balance(&alice, &s("fx")), BalanceResponse { collateral: 10, borrow: 0 });
    assert_eq!(
        m.execute_cw20_deposit(&alice, &s("fx_addr"), u128::MAX, &s("fx")),
        Err(ContractError::Overflow)
    );
    assert_eq!(m.query_balance(&alice, &s("fx")), BalanceResponse { collateral: 10, borrow: 0 });
}

#[test]
fn cw20_deposit_checks_sender_contract() {
    let alice = s("alice");
    let mut m = manager_with("luna", native("luna", ratio(1, 1), 6));
    let wbtc = AssetInfoUnvalidated::NormalAsset(NormalAssetInfoUnvalidated::CW20Token {
        asset_name: s("wbtc"),
        contract_addr: s("wbtc_addr"),
        collateralizeable: true,
        ratio: ratio(8, 10),
        decimals: 8,
    });
    m.execute_add_supported_asset(&s("admin"), s("wbtc"), wbtc, true).unwrap();
    assert_eq!(m.execute_cw20_deposit(&alice, &s("other"), 5, &s("wbtc")), Err(ContractError::ContractMismatch));
    assert_eq!(m.execute_cw20_deposit(&alice, &s("wbtc_addr"), 5, &s("luna")), Err(ContractError::NotContractToken));
    assert_eq!(m.execute_cw20_deposit(&alice, &s("wbtc_addr"), 5, &s("eth")), Err(ContractError::AssetNotSupported));
    assert_eq!(m.execute_cw20_deposit(&alice, &s("wbtc_addr"), 5, &s("wbtc")), Ok(()));
    assert_eq!(m.query_balance(&alice, &s("wbtc")), BalanceResponse { collateral: 5, borrow: 0 });
}

#[test]
fn debit_never_goes_below_zero() {
    let alice = s("alice");
    let mut m = manager_with("luna", native("luna", ratio(1, 1), 6));
    m.ledger.credit_collateral(&alice, &s("luna"), 4).unwrap();
    assert_eq!(m.ledger.debit_collateral(&alice, &s("luna"), 5), Err(ContractError::InsufficientBalance));
    assert_eq!(m.query_balance(&alice, &s("luna")).collateral, 4);
    assert_eq!(m.ledger.debit_collateral(&alice, &s("luna"), 4), Ok(()));
    assert_eq!(m.query_balance(&alice, &s("luna")).collateral, 0);
    assert_eq!(m.ledger.debit_borrow(&alice, &s("luna"), 1), Err(ContractError::InsufficientBalance));
    assert_eq!(m.ledger.credit_borrow(&alice, &s("luna"), u128::MAX), Ok(()));
    assert_eq!(m.ledger.credit_borrow(&alice, &s("luna"), 1), Err(ContractError::Overflow));
}

#[test]
fn mint_requests() {
    let info = MintAuthorityInfo {
        name: s("Future BTC"),
        symbol: s("FBTC"),
        decimals: 8,
        address_cw20: s("fbtc_cw20"),
        address_collateral_manager: s("manager"),
        total_mint: 0,
    };
    assert_eq!(execute_mint_and_send(&info, s("alice"), 0, true), Err(ContractError::InvalidZeroAmount));
    assert_eq!(execute_mint_and_send(&info, s("alice"), 5, false), Err(ContractError::InvalidAddress));
    assert_eq!(
        execute_mint_and_send(&info, s("alice"), 5, true),
        Ok(MintInstruction { contract_addr: s("fbtc_cw20"), recipient: s("alice"), amount: 5 })
    );
}

#[test]
fn valuation_out_of_range_is_an_error() {
    let alice = s("alice");
    let mut m = manager_with("huge", native("huge", ratio(1, 1), 39));
    m.execute_native_deposit(&alice, &vec![Coin { denom: s("huge"), amount: 1 }]).unwrap();
    assert_eq!(
        m.execute_native_withdraw(&alice, s("huge"), 1, &vec![price("huge", 1)]),
        Err(ContractError::Overflow)
    );
    assert_eq!(m.query_balance(&alice, &s("huge")).collateral, 1);
}

#[test]
fn positions_in_a_removed_asset_block_withdrawals() {
    let alice = s("alice");
    let mut m = manager_with("luna", native("luna", ratio(1, 1), 0));
    m.execute_add_supported_asset(&s("admin"), s("atom"), native("atom", ratio(1, 1), 0), true).unwrap();
    m.execute_native_deposit(&alice, &vec![Coin { denom: s("luna"), amount: 10 }]).unwrap();
    m.execute_native_deposit(&alice, &vec![Coin { denom: s("atom"), amount: 10 }]).unwrap();
    m.execute_remove_supported_asset(&s("admin"), s("luna")).unwrap();
    let prices = vec![price("luna", 1), price("atom", 1)];
    assert_eq!(
        m.execute_native_withdraw(&alice, s("atom"), 1, &prices),
        Err(ContractError::AssetNotSupported)
    );
    assert_eq!(m.query_balance(&alice, &s("luna")).collateral, 10);
}

#[test]
fn solvency_ignores_other_accounts() {
    let alice = s("alice");
    let bob = s("bob");
    let mut m = manager_with("usd", native("usd", ratio(1, 1), 0));
    m.execute_native_deposit(&alice, &vec![Coin { denom: s("usd"), amount: 100 }]).unwrap();
    let prices = vec![price("usd", 1)];
    let usd = m.query_asset_info(&s("usd")).unwrap().clone();
    let before = can_withdraw(&m.supported_assets, &m.ledger.collateral, &m.ledger.borrow, &prices, &alice, &usd, 60);
    // bob's positions, even in an asset that has no price and is not registered
    m.ledger.credit_borrow(&bob, &s("usd"), 1_000).unwrap();
    m.ledger.credit_collateral(&bob, &s("doge"), 5).unwrap();
    let after = can_withdraw(&m.supported_assets, &m.ledger.collateral, &m.ledger.borrow, &prices, &alice, &usd, 60);
    assert_eq!(before, Ok(true));
    assert_eq!(after, Ok(true));
}

#[test]
fn solvency_failures_ranked_by_kind() {
    let alice = s("alice");
    let mut m = manager_with("usd", native("usd", ratio(1, 1), 0));
    m.execute_add_supported_asset(&s("admin"), s("atom"), native("atom", ratio(1, 1), 0), true).unwrap();
    let usd = m.query_asset_info(&s("usd")).unwrap().clone();
    // an unpriced asset first, an unregistered one after: the unregistered one is reported
    m.ledger.credit_collateral(&alice, &s("atom"), 5).unwrap();
    m.ledger.credit_collateral(&alice, &s("gone"), 5).unwrap();
    let prices = vec![price("usd", 1)];
    let r = can_withdraw(&m.supported_assets, &m.ledger.collateral, &m.ledger.borrow, &prices, &alice, &usd, 1);
    assert_eq!(r, Err(ContractError::AssetNotSupported));
    m.ledger.debit_collateral(&alice, &s("gone"), 5).unwrap();
    let r = can_withdraw(&m.supported_assets, &m.ledger.collateral, &m.ledger.borrow, &prices, &alice, &usd, 1);
    assert_eq!(r, Err(ContractError::PriceUnavailable));
}
