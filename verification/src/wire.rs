//! The wire form of a subscription request, in plain values: every filter
//! the endpoint receives, keyed by its label, and the commitment level's
//! protobuf value. `wire_form` builds it from a `SubscriptionRequest`, and
//! `encode` turns it into the protobuf message and measures its encoding.

use crate::config::Commitment;
use crate::subscription::{
    copy_texts, texts, SubscriptionRequest, ACCOUNTS_LABEL, BLOCKS_META_LABEL, PROGRAMS_LABEL,
};
use vstd::prelude::*;
use yellowstone_grpc_proto::geyser::{
    CommitmentLevel, SubscribeRequest, SubscribeRequestFilterAccounts,
    SubscribeRequestFilterBlocksMeta, SubscribeRequestFilterTransactions,
};
use yellowstone_grpc_proto::prost::Message;

verus! {

/// A transaction filter: which votes and failures to leave out, and which
/// accounts a transaction must touch, may not touch, or must all touch.
pub struct TransactionFilter {
    pub vote: Option<bool>,
    pub failed: Option<bool>,
    pub signature: Option<String>,
    pub account_include: Vec<String>,
    pub account_exclude: Vec<String>,
    pub account_required: Vec<String>,
}

/// A transaction filter in plain values: `(vote, failed, signature,
/// account_include, account_exclude, account_required)`.
pub type TransactionFilterView = (
    Option<bool>,
    Option<bool>,
    Option<Seq<char>>,
    Seq<Seq<char>>,
    Seq<Seq<char>>,
    Seq<Seq<char>>,
);

/// A request as the endpoint receives it. The filters are listed with their
/// labels; an account filter is the list of accounts it follows, and a
/// block-meta filter is its label alone. Every filter kind not listed here
/// is empty.
pub struct WireRequest {
    pub transactions: Vec<(String, TransactionFilter)>,
    pub accounts: Vec<(String, Vec<String>)>,
    pub blocks_meta: Vec<String>,
    pub commitment: Option<i32>,
}

/// A wire request in plain values: `(transaction filters, account filters,
/// block-meta labels, commitment)`.
pub type WireRequestView = (
    Seq<(Seq<char>, TransactionFilterView)>,
    Seq<(Seq<char>, Seq<Seq<char>>)>,
    Seq<Seq<char>>,
    Option<i32>,
);

/// An optional string by its characters.
pub open spec fn optional_text(text: Option<String>) -> Option<Seq<char>> {
    match text {
        Some(text) => Some(text@),
        None => None,
    }
}

impl View for TransactionFilter {
    type V = TransactionFilterView;

    open spec fn view(&self) -> TransactionFilterView {
        (
            self.vote,
            self.failed,
            optional_text(self.signature),
            texts(self.account_include),
            texts(self.account_exclude),
            texts(self.account_required),
        )
    }
}

impl View for WireRequest {
    type V = WireRequestView;

    open spec fn view(&self) -> WireRequestView {
        (
            self.transactions@.map_values(
                |entry: (String, TransactionFilter)| (entry.0@, entry.1@),
            ),
            self.accounts@.map_values(|entry: (String, Vec<String>)| (entry.0@, texts(entry.1))),
            texts(self.blocks_meta),
            self.commitment,
        )
    }
}

/// The protobuf value of a commitment level, as geyser.proto numbers them.
pub open spec fn commitment_code(commitment: Commitment) -> i32 {
    match commitment {
        Commitment::Processed => 0,
        Commitment::Confirmed => 1,
        Commitment::Finalized => 2,
    }
}

/// The wire form of a request on `programs`, following `accounts` (no
/// account filter when `None`), at level `commitment`: one transaction filter
/// under `PROGRAMS_LABEL` on the programs, leaving out votes and failed
/// transactions, with no signature, no exclusion and no required account;
/// the account filter under `ACCOUNTS_LABEL`; one block-meta filter under
/// `BLOCKS_META_LABEL`.
pub open spec fn wire_of(
    programs: Seq<Seq<char>>,
    accounts: Option<Seq<Seq<char>>>,
    commitment: Commitment,
) -> WireRequestView {
    (
        seq![
            (
                PROGRAMS_LABEL@,
                (
                    Some(false),
                    Some(false),
                    None::<Seq<char>>,
                    programs,
                    Seq::<Seq<char>>::empty(),
                    Seq::<Seq<char>>::empty(),
                ),
            ),
        ],
        match accounts {
            Some(accounts) => seq![(ACCOUNTS_LABEL@, accounts)],
            None => Seq::empty(),
        },
        seq![BLOCKS_META_LABEL@],
        Some(commitment_code(commitment)),
    )
}

/// The accounts a request's account filter follows, if it has one.
pub open spec fn account_filter(request: SubscriptionRequest) -> Option<Seq<Seq<char>>> {
    match request.accounts {
        Some(accounts) => Some(texts(accounts)),
        None => None,
    }
}

/// The wire form of `request`.
pub open spec fn wire_view(request: SubscriptionRequest) -> WireRequestView {
    wire_of(texts(request.programs), account_filter(request), request.commitment)
}

/// The number of bytes the protobuf encoding of the request with this wire
/// form takes (prost's `Message::encoded_len`).
pub uninterp spec fn encoded_size(request: WireRequestView) -> nat;

/// The protobuf value of `commitment`: `CommitmentLevel as i32`, which
/// geyser.proto numbers `PROCESSED = 0`, `CONFIRMED = 1`, `FINALIZED = 2`.
#[verifier::external_body]
fn commitment_value(commitment: Commitment) -> (value: i32)
    ensures
        value == commitment_code(commitment),
{
    match commitment {
        Commitment::Processed => CommitmentLevel::Processed as i32,
        Commitment::Confirmed => CommitmentLevel::Confirmed as i32,
        Commitment::Finalized => CommitmentLevel::Finalized as i32,
    }
}

/// The protobuf request for `wire` and the length of its encoding. The
/// request is `wire` field for field: each labelled list becomes a map, an
/// account filter's owners and filters stay empty, and every field of the
/// message and of its filters that `wire` has no counterpart for stays at
/// its protobuf default (empty maps and lists, `None`). The length is prost's
/// `Message::encoded_len` of that request (the length of `encode_to_vec`),
/// which depends on the request alone, so on `wire@`. The returned message is
/// opaque to Verus: no clause states its fields; they are the conversion
/// above.
#[verifier::external_body]
pub(crate) fn encode(wire: WireRequest) -> (encoded: (SubscribeRequest, usize))
    ensures
        encoded.1 == encoded_size(wire@),
{
    let transactions = wire.transactions.into_iter().map(|(label, f)| (label, SubscribeRequestFilterTransactions { vote: f.vote, failed: f.failed, signature: f.signature, account_include: f.account_include, account_exclude: f.account_exclude, account_required: f.account_required, ..Default::default() })).collect();
    let accounts = wire.accounts.into_iter().map(|(label, account)| (label, SubscribeRequestFilterAccounts { account, ..Default::default() })).collect();
    let blocks_meta = wire.blocks_meta.into_iter().map(|label| (label, SubscribeRequestFilterBlocksMeta {})).collect();
    let request = SubscribeRequest { transactions, accounts, blocks_meta, commitment: wire.commitment, ..Default::default() };
    let len = request.encoded_len();
    (request, len)
}

/// The wire form of `request`.
pub fn wire_form(request: &SubscriptionRequest) -> (wire: WireRequest)
    ensures
        wire@ == wire_view(*request),
{
    let filter = TransactionFilter {
        vote: Some(false),
        failed: Some(false),
        signature: None,
        account_include: copy_texts(&request.programs),
        account_exclude: Vec::new(),
        account_required: Vec::new(),
    };
    assert(texts(filter.account_exclude) =~= Seq::<Seq<char>>::empty());
    assert(texts(filter.account_required) =~= Seq::<Seq<char>>::empty());
    let ghost filter_view = filter@;
    let label = String::from_str(PROGRAMS_LABEL);
    let mut transactions: Vec<(String, TransactionFilter)> = Vec::new();
    transactions.push((label, filter));
    assert(transactions@[0].0@ == PROGRAMS_LABEL@);
    assert(transactions@[0].1@ == filter_view);
    let mut accounts: Vec<(String, Vec<String>)> = Vec::new();
    match &request.accounts {
        Some(followed) => {
            let label = String::from_str(ACCOUNTS_LABEL);
            accounts.push((label, copy_texts(followed)));
        },
        None => {},
    }
    let mut blocks_meta: Vec<String> = Vec::new();
    blocks_meta.push(String::from_str(BLOCKS_META_LABEL));
    let wire = WireRequest {
        transactions,
        accounts,
        blocks_meta,
        commitment: Some(commitment_value(request.commitment)),
    };
    proof {
        let expected = wire_view(*request);
        assert(wire@.0 =~= expected.0);
        assert(wire@.1 =~= expected.1);
        assert(wire@.2 =~= expected.2);
    }
    wire
}

} // verus!
