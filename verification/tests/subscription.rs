use geyser_discovery::config::{Commitment, YellowstoneConfig};
use geyser_discovery::subscription::{
    check_request_size, check_subscribe_request, CheckedRequest, Subscription, SubscriptionError,
    SubscriptionRequest, ACCOUNTS_LABEL, BLOCKS_META_LABEL, MAX_SUBSCRIPTION_REQUEST_SIZE,
    PROGRAMS_LABEL,
};
use geyser_discovery::wire::wire_form;
use yellowstone_grpc_proto::geyser::CommitmentLevel;
use yellowstone_grpc_proto::prost::Message;

fn strings(items: &[&str]) -> Vec<String> {
    items.iter().map(|s| s.to_string()).collect()
}

#[test]
fn initial_request_follows_programs_at_configured_level() {
    let config = YellowstoneConfig {
        grpc: "https://example.invalid".to_string(),
        x_token: Some("token".to_string()),
        commitment: "Finalized".to_string(),
    };
    let request = SubscriptionRequest::initial(&config, strings(&["prog1", "prog2"]));
    assert_eq!(request.programs, strings(&["prog1", "prog2"]));
    assert_eq!(request.accounts, None);
    assert_eq!(request.commitment, Commitment::Finalized);
}

#[test]
fn discovered_pools_create_the_account_filter() {
    let request = SubscriptionRequest::new(strings(&["prog"]), Commitment::Processed);
    let (next, pools) = request.with_discovered(&strings(&["a", "b"]));
    assert_eq!(next.accounts, Some(strings(&["a", "b"])));
    assert_eq!(pools, 2);
    assert_eq!(next.programs, strings(&["prog"]));
    assert_eq!(next.commitment, Commitment::Processed);
}

#[test]
fn discovered_pools_already_followed_are_not_added_again() {
    let mut request = SubscriptionRequest::new(strings(&["prog"]), Commitment::Confirmed);
    request.accounts = Some(strings(&["a", "b"]));
    let (next, pools) = request.with_discovered(&strings(&["c", "b", "d"]));
    assert_eq!(next.accounts, Some(strings(&["a", "b", "c", "d"])));
    assert_eq!(pools, 4);
    // merging the same pools again changes nothing
    let (again, pools_again) = next.with_discovered(&strings(&["c", "b", "d"]));
    assert_eq!(again.accounts, Some(strings(&["a", "b", "c", "d"])));
    assert_eq!(pools_again, 4);
}

#[test]
fn merging_nothing_still_creates_the_filter() {
    let request = SubscriptionRequest::new(vec![], Commitment::Processed);
    let (next, pools) = request.with_discovered(&vec![]);
    assert_eq!(next.accounts, Some(vec![]));
    assert_eq!(pools, 0);
}

#[test]
fn request_size_limit_is_four_mebibytes_exclusive() {
    assert_eq!(MAX_SUBSCRIPTION_REQUEST_SIZE, 4 * 1024 * 1024);
    assert_eq!(check_request_size(0), Ok(0));
    assert_eq!(check_request_size(4 * 1024 * 1024 - 1), Ok(4 * 1024 * 1024 - 1));
    assert_eq!(check_request_size(4 * 1024 * 1024), Err(SubscriptionError::TooLarge));
    assert_eq!(check_request_size(usize::MAX), Err(SubscriptionError::TooLarge));
}

fn checked(request: SubscriptionRequest) -> CheckedRequest {
    check_subscribe_request(request).ok().expect("request fits")
}

#[test]
fn wire_form_states_every_filter() {
    let mut request = SubscriptionRequest::new(strings(&["prog1", "prog2"]), Commitment::Confirmed);
    let wire = wire_form(&request);
    assert_eq!(wire.transactions.len(), 1);
    let (label, filter) = &wire.transactions[0];
    assert_eq!(label, PROGRAMS_LABEL);
    assert_eq!(filter.vote, Some(false));
    assert_eq!(filter.failed, Some(false));
    assert_eq!(filter.signature, None);
    assert_eq!(filter.account_include, strings(&["prog1", "prog2"]));
    assert!(filter.account_exclude.is_empty());
    assert!(filter.account_required.is_empty());
    assert!(wire.accounts.is_empty());
    assert_eq!(wire.blocks_meta, strings(&[BLOCKS_META_LABEL]));
    assert_eq!(wire.commitment, Some(CommitmentLevel::Confirmed as i32));

    request.accounts = Some(strings(&["pool"]));
    let wire = wire_form(&request);
    assert_eq!(wire.accounts, vec![(ACCOUNTS_LABEL.to_string(), strings(&["pool"]))]);
}

#[test]
fn commitment_values_follow_the_protocol() {
    for (level, value) in [
        (Commitment::Processed, CommitmentLevel::Processed as i32),
        (Commitment::Confirmed, CommitmentLevel::Confirmed as i32),
        (Commitment::Finalized, CommitmentLevel::Finalized as i32),
    ] {
        assert_eq!(wire_form(&SubscriptionRequest::new(vec![], level)).commitment, Some(value));
    }
    assert_eq!(CommitmentLevel::Processed as i32, 0);
    assert_eq!(CommitmentLevel::Confirmed as i32, 1);
    assert_eq!(CommitmentLevel::Finalized as i32, 2);
}

#[test]
fn checked_request_carries_its_encoding() {
    let request = SubscriptionRequest::new(strings(&["prog"]), Commitment::Processed);
    let checked = checked(request);
    let (message, size) = checked.message();
    let wire = &message;
    assert_eq!(checked.size(), wire.encode_to_vec().len());
    assert_eq!(size, checked.size());
    let form = checked.wire();
    assert_eq!(form.transactions[0].1.account_include, strings(&["prog"]));
    assert_eq!(form.blocks_meta, strings(&[BLOCKS_META_LABEL]));
    assert_eq!(wire.transactions.len(), 1);
    let filter = &wire.transactions[PROGRAMS_LABEL];
    assert_eq!(filter.vote, Some(false));
    assert_eq!(filter.failed, Some(false));
    assert_eq!(filter.account_include, strings(&["prog"]));
    assert!(wire.blocks_meta.contains_key(BLOCKS_META_LABEL));
    assert!(wire.accounts.is_empty());
    assert_eq!(wire.commitment, Some(CommitmentLevel::Processed as i32));
    assert!(wire.slots.is_empty() && wire.blocks.is_empty() && wire.entry.is_empty());
    assert!(wire.transactions_status.is_empty() && wire.accounts_data_slice.is_empty());
    assert_eq!(wire.ping, None);
    assert_eq!(wire.from_slot, None);
    assert_eq!(checked.into_request().programs, strings(&["prog"]));
}

#[test]
fn oversize_requests_are_refused() {
    let many: Vec<String> = (0..100_000).map(|i| format!("{:0>44}", i)).collect();
    let request = SubscriptionRequest::new(many, Commitment::Processed);
    assert!(matches!(check_subscribe_request(request), Err(SubscriptionError::TooLarge)));

    let mut subscription =
        Subscription::new(checked(SubscriptionRequest::new(strings(&["prog"]), Commitment::Processed)));
    let pending: Vec<String> = (0..100_000).map(|i| format!("{:0>44}", i)).collect();
    assert!(matches!(subscription.prepare_resubscribe(&pending), Err(SubscriptionError::TooLarge)));
    // the store keeps the request it held
    assert_eq!(subscription.get_subscription_request().accounts, None);
    let (next, pools) = subscription.prepare_resubscribe(&strings(&["pool"])).ok().unwrap();
    assert_eq!(pools, 1);
    subscription.set_subscription_request(next);
    assert_eq!(subscription.get_subscription_request().accounts, Some(strings(&["pool"])));
}

#[test]
fn stored_request_is_what_was_last_set() {
    let first = SubscriptionRequest::new(strings(&["prog"]), Commitment::Processed);
    let mut subscription = Subscription::new(checked(first));
    let got = subscription.get_subscription_request();
    assert_eq!(got.programs, strings(&["prog"]));
    assert_eq!(got.accounts, None);

    let (next, _) = got.with_discovered(&strings(&["pool"]));
    subscription.set_subscription_request(checked(next));
    let got = subscription.get_subscription_request();
    assert_eq!(got.accounts, Some(strings(&["pool"])));
    assert_eq!(got.programs, strings(&["prog"]));
}
