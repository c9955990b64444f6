use era_consensus::types::PublicKey;
use era_consensus::validators::{ValidatorWeights, WeightsError};

#[test]
fn weights_accept_unique_positive_entries() {
    let w = ValidatorWeights::new(vec![(PublicKey(1), 3), (PublicKey(2), 3), (PublicKey(3), 4)])
        .unwrap();
    assert_eq!(w.total, 10);
    assert_eq!(w.weight(PublicKey(3)), 4);
    assert_eq!(w.weight(PublicKey(9)), 0);
    assert!(w.is_bonded(PublicKey(1)));
    assert!(!w.is_bonded(PublicKey(9)));
}

#[test]
fn weights_reject_duplicate_validator() {
    let r = ValidatorWeights::new(vec![(PublicKey(1), 3), (PublicKey(1), 4)]);
    assert_eq!(r, Err(WeightsError::DuplicateValidator));
}

#[test]
fn weights_reject_zero_total() {
    let r = ValidatorWeights::new(vec![(PublicKey(1), 0), (PublicKey(2), 0)]);
    assert_eq!(r, Err(WeightsError::ZeroTotalWeight));
}

#[test]
fn weights_reject_total_overflow() {
    let r = ValidatorWeights::new(vec![(PublicKey(1), u64::MAX), (PublicKey(2), 1)]);
    assert_eq!(r, Err(WeightsError::TotalWeightOverflow));
}

#[test]
fn weights_allow_a_zero_weight_validator_among_others() {
    let w = ValidatorWeights::new(vec![(PublicKey(1), 0), (PublicKey(2), 5)]).unwrap();
    assert!(w.is_bonded(PublicKey(1)));
    assert_eq!(w.weight(PublicKey(1)), 0);
    assert_eq!(w.total, 5);
}
