use near_gas::{DecimalNumberParsingError, NearGas, NearGasError};
use std::str::FromStr;

#[test]
fn doubledot() {
    let data = "1.1.1 TeraGas";
    let gas: Result<NearGas, NearGasError> = FromStr::from_str(data);
    assert_eq!(
        gas,
        Err(NearGasError::IncorrectNumber(
            DecimalNumberParsingError::InvalidNumber("1.1.1".to_owned())
        ))
    )
}

#[test]
fn space_after_dot() {
    let data = "1. 0 TeraGas";
    let gas: Result<NearGas, NearGasError> = FromStr::from_str(data);
    assert_eq!(
        gas,
        Err(NearGasError::IncorrectNumber(
            DecimalNumberParsingError::InvalidNumber("1. 0".to_owned())
        ))
    )
}

#[test]
fn decimal_tgas() {
    let data = "0.5 TGas";
    let gas: Result<NearGas, NearGasError> = FromStr::from_str(data);
    assert_eq!(gas, Ok(NearGas::from_ggas(500)))
}

#[test]
fn incorect_currency() {
    let data = "0 pas";
    let gas: Result<NearGas, NearGasError> = FromStr::from_str(data);
    assert_eq!(gas, Err(NearGasError::IncorrectUnit(data.to_owned())))
}

#[test]
fn without_currency() {
    let data = "0";
    let gas: Result<NearGas, NearGasError> = FromStr::from_str(data);
    assert_eq!(gas, Err(NearGasError::IncorrectUnit("0".to_owned())))
}

#[test]
fn invalid_whole() {
    let data = "-1 TeraGas";
    let gas: Result<NearGas, NearGasError> = FromStr::from_str(data);
    assert_eq!(
        gas,
        Err(NearGasError::IncorrectNumber(
            DecimalNumberParsingError::InvalidNumber("-1".to_owned())
        ))
    )
}

#[test]
fn add_gas() {
    let gas = NearGas::from_gas(u64::MAX - 3);
    let any_gas = NearGas::from_gas(3);
    let more_gas = NearGas::from_gas(4);
    assert_eq!(
        gas.clone().checked_add(any_gas),
        Some(NearGas::from_gas(u64::MAX))
    );
    assert_eq!(gas.checked_add(more_gas), None);
}

#[test]
fn sub_gas() {
    let gas = NearGas::from_gas(3);
    let any_gas = NearGas::from_gas(1);
    let more_gas = NearGas::from_gas(4);
    assert_eq!(gas.clone().checked_sub(any_gas), Some(NearGas::from_gas(2)));
    assert_eq!(gas.checked_sub(more_gas), None);
}

#[test]
fn mul_gas() {
    let gas = NearGas::from_gas(u64::MAX / 10);
    assert_eq!(
        gas.clone().checked_mul(10),
        Some(NearGas::from_gas(u64::MAX / 10 * 10))
    );
    assert_eq!(gas.checked_mul(11), None);
}

#[test]
fn div_gas() {
    let gas = NearGas::from_gas(10);
    assert_eq!(gas.clone().checked_div(2), Some(NearGas::from_gas(5)));
    assert_eq!(gas.clone().checked_div(11), Some(NearGas::from_gas(0)));
    assert_eq!(gas.checked_div(0), None);
}

#[test]
fn s_add_gas() {
    let gas = NearGas::from_gas(100);
    let added_gas = NearGas::from_gas(1);
    let another_gas = NearGas::from_gas(u64::MAX);
    assert_eq!(
        gas.saturating_add(added_gas.clone()),
        NearGas::from_gas(101)
    );
    assert_eq!(
        another_gas.saturating_add(added_gas),
        NearGas::from_gas(u64::MAX)
    );
}

#[test]
fn s_sub_gas() {
    let gas = NearGas::from_gas(100);
    let rhs_gas = NearGas::from_gas(1);
    let another_gas = NearGas::from_gas(u64::MIN);
    assert_eq!(gas.saturating_sub(rhs_gas.clone()), NearGas::from_gas(99));
    assert_eq!(
        another_gas.saturating_sub(rhs_gas),
        NearGas::from_gas(u64::MIN)
    );
}

#[test]
fn s_mul_gas() {
    let gas = NearGas::from_gas(2);
    let rhs = 10;
    let another_gas = u64::MAX;
    assert_eq!(gas.clone().saturating_mul(rhs), NearGas::from_gas(20));
    assert_eq!(gas.saturating_mul(another_gas), NearGas::from_gas(u64::MAX));
}

#[test]
fn s_div_gas() {
    let gas = NearGas::from_gas(10);
    let rhs = 2;
    let another_gas = 20;
    assert_eq!(gas.clone().saturating_div(rhs), NearGas::from_gas(5));
    assert_eq!(gas.saturating_div(another_gas), NearGas::from_gas(0));
}
