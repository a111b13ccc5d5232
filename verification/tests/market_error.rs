use vatix::market::error::ContractError;

#[test]
fn test_error_discriminants() {
    assert_eq!(ContractError::MarketNotFound.code(), 1);
    assert_eq!(ContractError::MarketAlreadyResolved.code(), 2);
    assert_eq!(ContractError::MarketNotResolved.code(), 3);
    assert_eq!(ContractError::MarketExpired.code(), 4);
    assert_eq!(ContractError::MarketNotActive.code(), 5);
    assert_eq!(ContractError::InsufficientCollateral.code(), 10);
    assert_eq!(ContractError::PositionAlreadySettled.code(), 11);
    assert_eq!(ContractError::NoPositionFound.code(), 12);
    assert_eq!(ContractError::InvalidShareAmount.code(), 13);
    assert_eq!(ContractError::InvalidSignature.code(), 20);
    assert_eq!(ContractError::UnauthorizedOracle.code(), 21);
    assert_eq!(ContractError::InvalidOutcome.code(), 22);
    assert_eq!(ContractError::OraclePriceUnavailable.code(), 23);
    assert_eq!(ContractError::InvalidPrice.code(), 30);
    assert_eq!(ContractError::InvalidQuantity.code(), 31);
    assert_eq!(ContractError::InvalidTimestamp.code(), 32);
    assert_eq!(ContractError::InvalidQuestion.code(), 33);
    assert_eq!(ContractError::Unauthorized.code(), 40);
    assert_eq!(ContractError::NotAdmin.code(), 41);
    assert_eq!(ContractError::AlreadyInitialized.code(), 42);
    assert_eq!(ContractError::NoPendingAdmin.code(), 43);
    assert_eq!(ContractError::TokenTransferFailed.code(), 50);
    assert_eq!(ContractError::ArithmeticOverflow.code(), 60);
}

#[test]
fn test_error_equality() {
    assert_eq!(ContractError::MarketNotFound, ContractError::MarketNotFound);
    assert_ne!(ContractError::MarketNotFound, ContractError::MarketNotActive);
}

#[test]
fn test_error_ordering() {
    assert!(ContractError::MarketNotFound < ContractError::InsufficientCollateral);
    assert!(ContractError::InvalidSignature < ContractError::InvalidPrice);
    assert!(ContractError::Unauthorized < ContractError::TokenTransferFailed);
}

#[test]
fn upgrade_and_resolution_error_codes() {
    assert_eq!(ContractError::UpgradeRequired.code(), 70);
    assert_eq!(ContractError::ResolutionNotFinalized.code(), 80);
    assert!(ContractError::ArithmeticOverflow < ContractError::UpgradeRequired);
}
