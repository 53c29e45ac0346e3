use geyser_discovery::config::{default_commitment, Commitment, YellowstoneConfig};

fn config(commitment: &str) -> YellowstoneConfig {
    YellowstoneConfig {
        grpc: "https://example.invalid:443".to_string(),
        x_token: None,
        commitment: commitment.to_string(),
    }
}

#[test]
fn commitment_names_are_read_ignoring_case() {
    assert_eq!(config("confirmed").commitment_from_str(), Commitment::Confirmed);
    assert_eq!(config("CONFIRMED").commitment_from_str(), Commitment::Confirmed);
    assert_eq!(config("Confirmed").commitment_from_str(), Commitment::Confirmed);
    assert_eq!(config("finalized").commitment_from_str(), Commitment::Finalized);
    assert_eq!(config("FiNaLiZeD").commitment_from_str(), Commitment::Finalized);
    assert_eq!(config("processed").commitment_from_str(), Commitment::Processed);
}

#[test]
fn unknown_commitment_names_mean_processed() {
    assert_eq!(config("").commitment_from_str(), Commitment::Processed);
    assert_eq!(config("confirm").commitment_from_str(), Commitment::Processed);
    assert_eq!(config("confirmed ").commitment_from_str(), Commitment::Processed);
    assert_eq!(config("finalised").commitment_from_str(), Commitment::Processed);
    assert_eq!(config("ｃonfirmed").commitment_from_str(), Commitment::Processed);
}

#[test]
fn default_commitment_is_processed() {
    assert_eq!(default_commitment(), "processed");
    assert_eq!(config(&default_commitment()).commitment_from_str(), Commitment::Processed);
}
