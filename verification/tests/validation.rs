use uniswapx_sdk::contracts::common::{InputToken, OrderInfo, ResolvedOrder};
use uniswapx_sdk::primitives::{Address, B256, U256};
use uniswapx_sdk::validation::{
    classify, lookup_revert_code, revert_table_row, OracleError, ValidationError,
    ValidationStatus, REVERT_TABLE_LEN,
};

fn settlement() -> ResolvedOrder {
    ResolvedOrder {
        info: OrderInfo {
            reactor: Address { bytes: [1; 20] },
            swapper: Address { bytes: [2; 20] },
            nonce: U256::from_u64(1),
            deadline: U256::from_u64(2),
            additional_validation_contract: Address { bytes: [0; 20] },
            additional_validation_data: Vec::new(),
        },
        input: InputToken {
            token: Address { bytes: [3; 20] },
            amount: U256::from_u64(10),
            max_amount: U256::from_u64(10),
        },
        outputs: Vec::new(),
        sig: Vec::new(),
        hash: B256 { bytes: [0; 32] },
    }
}

fn status(code: &str) -> ValidationStatus {
    ValidationStatus::from(code.to_string())
}

#[test]
fn every_code_of_the_table_has_its_status() {
    assert_eq!(status("0x302e5b7c"), ValidationStatus::InvalidOrderFields);
    assert_eq!(status("0x773a6187"), ValidationStatus::InvalidOrderFields);
    assert_eq!(status("0x4ddf4a64"), ValidationStatus::InvalidOrderFields);
    assert_eq!(status("0xd303758b"), ValidationStatus::InvalidOrderFields);
    assert_eq!(status("0x7c1f8113"), ValidationStatus::InvalidOrderFields);
    assert_eq!(status("0x43133453"), ValidationStatus::InvalidOrderFields);
    assert_eq!(status("0xb9ec1e96"), ValidationStatus::ExclusivityPeriod);
    assert_eq!(status("0x062dec56"), ValidationStatus::ExclusivityPeriod);
    assert_eq!(status("0x75c1bb14"), ValidationStatus::ExclusivityPeriod);
    assert_eq!(status("0x8baa579f"), ValidationStatus::InvalidSignature);
    assert_eq!(status("0x815e1d64"), ValidationStatus::InvalidSignature);
    assert_eq!(status("0x48fee69c"), ValidationStatus::InvalidOrderFields);
    assert_eq!(status("0x70f65caa"), ValidationStatus::Expired);
    assert_eq!(status("0xee3b3d4b"), ValidationStatus::NonceUsed);
    assert_eq!(status("0x0a0b0d79"), ValidationStatus::ValidationFailed);
    assert_eq!(status("0x756688fe"), ValidationStatus::NonceUsed);
}

#[test]
fn the_table_has_sixteen_rows_with_different_codes() {
    assert_eq!(REVERT_TABLE_LEN, 16);
    for i in 0..REVERT_TABLE_LEN {
        let (code, row_status) = revert_table_row(i);
        assert_eq!(code.len(), 10);
        assert_eq!(status(code), row_status);
        assert_eq!(lookup_revert_code(&code.to_string()), Some(row_status));
        for j in 0..i {
            assert_ne!(revert_table_row(j).0, code);
        }
    }
}

#[test]
fn no_row_of_the_table_gives_ok_or_unknown_or_insufficient_funds() {
    for i in 0..REVERT_TABLE_LEN {
        let (_, row_status) = revert_table_row(i);
        assert_ne!(row_status, ValidationStatus::OK);
        assert_ne!(row_status, ValidationStatus::InsufficientFunds);
        assert!(!matches!(row_status, ValidationStatus::UnknownError(_)));
    }
}

#[test]
fn an_unknown_code_is_kept_as_it_is() {
    for code in ["0xdeadbeef", "", "0x", "0x70f65ca", "0x70f65caa00", "0X70F65CAA", "0x70F65CAA", " 0x70f65caa"] {
        assert_eq!(status(code), ValidationStatus::UnknownError(code.to_string()));
        assert_eq!(lookup_revert_code(&code.to_string()), None);
    }
    let long = "0x08c379a0".to_string() + &"00".repeat(96);
    assert_eq!(ValidationStatus::from(long.clone()), ValidationStatus::UnknownError(long));
}

#[test]
fn a_settlement_is_classified_as_ok() {
    assert_eq!(classify(Ok(settlement())), Ok(ValidationStatus::OK));
}

#[test]
fn a_revert_is_classified_by_its_code() {
    assert_eq!(
        classify(Err(OracleError::Revert("0xee3b3d4b".to_string()))),
        Ok(ValidationStatus::NonceUsed)
    );
    assert_eq!(
        classify(Err(OracleError::Revert("0x70f65caa".to_string()))),
        Ok(ValidationStatus::Expired)
    );
    assert_eq!(
        classify(Err(OracleError::Revert("0x12345678".to_string()))),
        Ok(ValidationStatus::UnknownError("0x12345678".to_string()))
    );
}

#[test]
fn a_failed_simulation_is_no_status() {
    assert_eq!(
        classify(Err(OracleError::Transport("connection reset".to_string()))),
        Err(ValidationError::ContractError("connection reset".to_string()))
    );
    assert_eq!(
        classify(Err(OracleError::Transport("0x70f65caa".to_string()))),
        Err(ValidationError::ContractError("0x70f65caa".to_string()))
    );
}
