//! The subscription request sent to the Yellowstone endpoint: the programs
//! whose transactions are followed, the pool accounts discovered so far, the
//! commitment level; how discovered pools are merged into it; the size limit
//! it must stay under; and the store that keeps the last request sent.

use crate::config::{commitment_named, Commitment, YellowstoneConfig};
use crate::wire::{
    account_filter, encode, encoded_size, wire_form, wire_of, wire_view, WireRequest, WireRequestView,
};
use vstd::prelude::*;
use vstd::seq_lib::*;
use yellowstone_grpc_proto::geyser::SubscribeRequest;

verus! {

/// The endpoint refuses requests of this many encoded bytes or more (4 MiB).
pub const MAX_SUBSCRIPTION_REQUEST_SIZE: usize = 4 * 1024 * 1024;

/// Label of the transaction filter on the watched programs.
pub const PROGRAMS_LABEL: &'static str = "programs";

/// Label of the account filter on the discovered pools.
pub const ACCOUNTS_LABEL: &'static str = "accounts";

/// Label of the block-meta filter that tracks the latest slot.
pub const BLOCKS_META_LABEL: &'static str = "blocks-meta";

/// What a subscription asks for. On the wire (`crate::wire::wire_form`) every
/// request also follows block metadata under `BLOCKS_META_LABEL` and leaves
/// out vote and failed transactions.
pub struct SubscriptionRequest {
    /// Programs whose transactions are followed (`PROGRAMS_LABEL`).
    pub programs: Vec<String>,
    /// Accounts followed under `ACCOUNTS_LABEL`; `None` while that filter is absent.
    pub accounts: Option<Vec<String>>,
    /// The commitment level asked for.
    pub commitment: Commitment,
}

/// Why a request cannot be sent.
#[derive(Debug, Clone, Copy, PartialEq, Eq, Structural)]
pub enum SubscriptionError {
    /// The encoded request is `MAX_SUBSCRIPTION_REQUEST_SIZE` bytes or more.
    TooLarge,
}

/// A list of strings, each taken by its characters.
pub open spec fn texts(v: Vec<String>) -> Seq<Seq<char>> {
    v.deep_view()
}

/// The accounts a request follows; none while the filter is absent.
pub open spec fn followed_accounts(request: SubscriptionRequest) -> Seq<Seq<char>> {
    match request.accounts {
        Some(accounts) => texts(accounts),
        None => Seq::empty(),
    }
}

/// Two requests ask for the same thing.
pub open spec fn same_request(a: SubscriptionRequest, b: SubscriptionRequest) -> bool {
    &&& texts(a.programs) == texts(b.programs)
    &&& a.accounts is Some == b.accounts is Some
    &&& followed_accounts(a) == followed_accounts(b)
    &&& a.commitment == b.commitment
}

/// The pending pools not followed yet, in the order they were found.
pub open spec fn unfollowed(subscribed: Seq<Seq<char>>, pending: Seq<Seq<char>>) -> Seq<
    Seq<char>,
> {
    pending.filter(|pool: Seq<char>| !subscribed.contains(pool))
}

/// The followed accounts once the pending pools are added: the old list
/// unchanged, then each pending pool it lacks.
pub open spec fn merged(subscribed: Seq<Seq<char>>, pending: Seq<Seq<char>>) -> Seq<Seq<char>> {
    subscribed + unfollowed(subscribed, pending)
}

/// Whether the request encoded in `encoded_len` bytes may be sent.
pub open spec fn fits(encoded_len: nat) -> bool {
    encoded_len < MAX_SUBSCRIPTION_REQUEST_SIZE
}

/// A copy of a list of strings.
pub fn copy_texts(v: &Vec<String>) -> (copy: Vec<String>)
    ensures
        texts(copy) == texts(*v),
{
    let mut copy: Vec<String> = Vec::new();
    let mut i: usize = 0;
    while i < v.len()
        invariant
            i <= v.len(),
            texts(copy) == texts(*v).take(i as int),
        decreases v.len() - i,
    {
        let text = v[i].clone();
        assert(text@ == texts(*v)[i as int]);
        let ghost prev = copy@;
        let ghost prev_texts = texts(copy);
        assert(prev_texts.len() == i);
        assert(prev.len() == i);
        copy.push(text);
        proof {
            assert forall|j: int| 0 <= j < i + 1 implies texts(copy)[j] == texts(*v)[j] by {
                if j < i {
                    assert(copy@[j] == prev[j]);
                    assert(prev_texts[j] == prev[j]@);
                }
            }
            assert(texts(copy) =~= texts(*v).take(i + 1));
        }
        i = i + 1;
    }
    proof {
        assert(texts(*v).take(v.len() as int) =~= texts(*v));
    }
    copy
}

/// Whether `v` holds `text`.
pub fn contains_text(v: &Vec<String>, text: &String) -> (found: bool)
    ensures
        found == texts(*v).contains(text@),
{
    let mut i: usize = 0;
    while i < v.len()
        invariant
            i <= v.len(),
            forall|j: int| 0 <= j < i ==> texts(*v)[j] != text@,
        decreases v.len() - i,
    {
        if v[i] == *text {
            proof {
                assert(texts(*v)[i as int] == text@);
            }
            return true;
        }
        i = i + 1;
    }
    false
}

/// Filtering a sequence one element longer adds that element or nothing.
proof fn lemma_filter_push<A>(s: Seq<A>, pred: spec_fn(A) -> bool, e: A)
    ensures
        pred(e) ==> s.push(e).filter(pred) == s.filter(pred).push(e),
        !pred(e) ==> s.push(e).filter(pred) == s.filter(pred),
{
    reveal(Seq::filter);
    assert(s.push(e).drop_last() =~= s);
}

/// A filtered sequence without duplicates stays without duplicates.
proof fn lemma_filter_no_duplicates<A>(s: Seq<A>, pred: spec_fn(A) -> bool)
    requires
        s.no_duplicates(),
    ensures
        s.filter(pred).no_duplicates(),
    decreases s.len(),
{
    broadcast use group_filter_ensures, Seq::lemma_filter_contains_rev;

    if s.len() > 0 {
        let rest = s.drop_last();
        assert(rest.no_duplicates());
        lemma_filter_no_duplicates(rest, pred);
        assert(s =~= rest.push(s.last()));
        lemma_filter_push(rest, pred, s.last());
        if pred(s.last()) {
            assert(!rest.contains(s.last()));
            assert(!rest.filter(pred).contains(s.last()));
        }
    }
}

/// Filtering with a predicate that no element meets leaves nothing.
proof fn lemma_filter_none<A>(s: Seq<A>, pred: spec_fn(A) -> bool)
    requires
        forall|i: int| 0 <= i < s.len() ==> !pred(#[trigger] s[i]),
    ensures
        s.filter(pred) == Seq::<A>::empty(),
    decreases s.len(),
{
    reveal(Seq::filter);
    if s.len() > 0 {
        let rest = s.drop_last();
        assert forall|i: int| 0 <= i < rest.len() implies !pred(#[trigger] rest[i]) by {
            assert(rest[i] == s[i]);
        }
        lemma_filter_none(rest, pred);
        assert(!pred(s[s.len() - 1]));
    }
}

/// Merging keeps the accounts already followed, in place: they stay the
/// prefix of the new list.
pub proof fn lemma_merge_keeps_followed(subscribed: Seq<Seq<char>>, pending: Seq<Seq<char>>)
    ensures
        merged(subscribed, pending).subrange(0, subscribed.len() as int) == subscribed,
        forall|pool: Seq<char>|
            subscribed.contains(pool) ==> #[trigger] merged(subscribed, pending).contains(pool),
{
    let m = merged(subscribed, pending);
    assert(m.subrange(0, subscribed.len() as int) =~= subscribed);
    assert forall|pool: Seq<char>| subscribed.contains(pool) implies #[trigger] m.contains(pool) by {
        let k: int = choose|k: int| 0 <= k < subscribed.len() && subscribed[k] == pool;
        assert(m[k] == pool);
    }
}

/// After merging, every pending pool is followed.
pub proof fn lemma_merge_follows_pending(subscribed: Seq<Seq<char>>, pending: Seq<Seq<char>>)
    ensures
        forall|pool: Seq<char>|
            pending.contains(pool) ==> #[trigger] merged(subscribed, pending).contains(pool),
{
    broadcast use group_filter_ensures;

    let m = merged(subscribed, pending);
    let pred = |pool: Seq<char>| !subscribed.contains(pool);
    assert forall|pool: Seq<char>| pending.contains(pool) implies #[trigger] m.contains(pool) by {
        let k: int = choose|k: int| 0 <= k < pending.len() && pending[k] == pool;
        if subscribed.contains(pool) {
            let j: int = choose|j: int| 0 <= j < subscribed.len() && subscribed[j] == pool;
            assert(m[j] == pool);
        } else {
            assert(pred(pending[k]));
            assert(pending.filter(pred).contains(pool));
            let j: int = choose|j: int|
                0 <= j < pending.filter(pred).len() && pending.filter(pred)[j] == pool;
            assert(m[subscribed.len() + j] == pool);
        }
    }
}

/// Merging adds no account that is neither followed nor pending.
pub proof fn lemma_merge_adds_only_pending(subscribed: Seq<Seq<char>>, pending: Seq<Seq<char>>)
    ensures
        forall|pool: Seq<char>|
            #[trigger] merged(subscribed, pending).contains(pool) ==> subscribed.contains(pool)
                || pending.contains(pool),
{
    broadcast use Seq::lemma_filter_contains_rev;

    let m = merged(subscribed, pending);
    let pred = |pool: Seq<char>| !subscribed.contains(pool);
    assert forall|pool: Seq<char>| #[trigger] m.contains(pool) implies subscribed.contains(pool)
        || pending.contains(pool) by {
        let k: int = choose|k: int| 0 <= k < m.len() && m[k] == pool;
        if k < subscribed.len() {
            assert(subscribed[k] == pool);
        } else {
            assert(pending.filter(pred)[k - subscribed.len()] == pool);
            assert(pending.filter(pred).contains(pool));
        }
    }
}

/// Merging pending pools into a list without duplicates gives a list
/// without duplicates.
pub proof fn lemma_merge_no_duplicates(subscribed: Seq<Seq<char>>, pending: Seq<Seq<char>>)
    requires
        subscribed.no_duplicates(),
        pending.no_duplicates(),
    ensures
        merged(subscribed, pending).no_duplicates(),
{
    broadcast use Seq::lemma_filter_contains_rev;

    let pred = |pool: Seq<char>| !subscribed.contains(pool);
    let added = pending.filter(pred);
    lemma_filter_no_duplicates(pending, pred);
    assert forall|i: int, j: int|
        0 <= i < subscribed.len() && 0 <= j < added.len() implies subscribed[i] != added[j] by {
        assert(added.contains(added[j]));
        assert(pred(added[j]));
    }
    lemma_no_dup_in_concat(subscribed, added);
}

/// Merging the same pending pools a second time changes nothing.
pub proof fn lemma_merge_idempotent(subscribed: Seq<Seq<char>>, pending: Seq<Seq<char>>)
    ensures
        merged(merged(subscribed, pending), pending) == merged(subscribed, pending),
{
    let m = merged(subscribed, pending);
    lemma_merge_follows_pending(subscribed, pending);
    let pred = |pool: Seq<char>| !m.contains(pool);
    assert forall|i: int| 0 <= i < pending.len() implies !pred(#[trigger] pending[i]) by {
        assert(pending.contains(pending[i]));
    }
    lemma_filter_none(pending, pred);
    assert(merged(m, pending) =~= m);
}

impl SubscriptionRequest {
    /// The first request of a session: the programs' transactions (votes and
    /// failed ones left out), block metadata, no account filter yet.
    pub fn new(programs: Vec<String>, commitment: Commitment) -> (request: SubscriptionRequest)
        ensures
            texts(request.programs) == texts(programs),
            request.accounts is None,
            request.commitment == commitment,
    {
        SubscriptionRequest { programs, accounts: None, commitment }
    }

    /// The first request of a session opened with `config` on `programs`:
    /// their transactions, at the configured commitment level.
    pub fn initial(config: &YellowstoneConfig, programs: Vec<String>) -> (request:
        SubscriptionRequest)
        ensures
            texts(request.programs) == texts(programs),
            request.accounts is None,
            request.commitment == commitment_named(config.commitment@),
    {
        SubscriptionRequest::new(programs, config.commitment_from_str())
    }

    /// A request that asks for the same thing.
    pub fn copy(&self) -> (copy: SubscriptionRequest)
        ensures
            same_request(copy, *self),
    {
        let accounts = match &self.accounts {
            Some(accounts) => Some(copy_texts(accounts)),
            None => None,
        };
        SubscriptionRequest {
            programs: copy_texts(&self.programs),
            accounts,
            commitment: self.commitment,
        }
    }

    /// This request with the pending pools added to its account filter (the
    /// filter is created if absent), and the number of accounts it then follows.
    pub fn with_discovered(&self, pending: &Vec<String>) -> (result: (SubscriptionRequest, u64))
        ensures
            texts(result.0.programs) == texts(self.programs),
            result.0.commitment == self.commitment,
            result.0.accounts is Some,
            followed_accounts(result.0) == merged(followed_accounts(*self), texts(*pending)),
            result.1 == followed_accounts(result.0).len(),
    {
        let mut accounts: Vec<String> = match &self.accounts {
            Some(accounts) => copy_texts(accounts),
            None => Vec::new(),
        };
        let ghost subscribed = followed_accounts(*self);
        let ghost pred = |pool: Seq<char>| !subscribed.contains(pool);
        assert(texts(accounts) =~= subscribed);
        let n: usize = accounts.len();
        let mut i: usize = 0;
        proof {
            assert(texts(*pending).take(0) =~= Seq::<Seq<char>>::empty());
            reveal(Seq::filter);
            assert(texts(accounts) =~= subscribed + texts(*pending).take(0).filter(pred));
        }
        while i < pending.len()
            invariant
                i <= pending.len(),
                n == subscribed.len(),
                pred == (|pool: Seq<char>| !subscribed.contains(pool)),
                texts(accounts) == subscribed + texts(*pending).take(i as int).filter(pred),
                texts(accounts).subrange(0, n as int) == subscribed,
                n <= accounts.len(),
            decreases pending.len() - i,
        {
            let ghost before = texts(accounts);
            let ghost pool = texts(*pending)[i as int];
            proof {
                assert(texts(*pending).take(i + 1) =~= texts(*pending).take(i as int).push(pool));
                lemma_filter_push(texts(*pending).take(i as int), pred, pool);
            }
            let mut followed = false;
            let mut j: usize = 0;
            while j < n
                invariant
                    j <= n,
                    n == subscribed.len(),
                    n <= accounts.len(),
                    texts(accounts) == before,
                    before.subrange(0, n as int) == subscribed,
                    pool == texts(*pending)[i as int],
                    i < pending.len(),
                    followed == (exists|k: int| 0 <= k < j && subscribed[k] == pool),
                decreases n - j,
            {
                if accounts[j] == pending[i] {
                    proof {
                        assert(subscribed[j as int] == before[j as int]);
                    }
                    followed = true;
                } else {
                    proof {
                        assert(subscribed[j as int] == before[j as int]);
                    }
                }
                j = j + 1;
            }
            proof {
                assert(followed == subscribed.contains(pool));
            }
            if !followed {
                accounts.push(pending[i].clone());
                proof {
                    assert(texts(accounts) =~= before.push(pool));
                    assert(texts(accounts) =~= subscribed + texts(*pending).take(i + 1).filter(
                        pred,
                    ));
                }
            } else {
                proof {
                    assert(texts(accounts) =~= subscribed + texts(*pending).take(i + 1).filter(
                        pred,
                    ));
                }
            }
            proof {
                assert(texts(accounts).subrange(0, n as int) =~= subscribed);
            }
            i = i + 1;
        }
        proof {
            assert(texts(*pending).take(pending.len() as int) =~= texts(*pending));
        }
        let pools: u64 = accounts.len() as u64;
        let request = SubscriptionRequest {
            programs: copy_texts(&self.programs),
            accounts: Some(accounts),
            commitment: self.commitment,
        };
        (request, pools)
    }
}

/// Whether a request encoded in `encoded_len` bytes may be sent: it is
/// refused at `MAX_SUBSCRIPTION_REQUEST_SIZE` bytes or more. On success the
/// size is handed back.
pub fn check_request_size(encoded_len: usize) -> (verdict: Result<usize, SubscriptionError>)
    ensures
        verdict is Ok <==> fits(encoded_len as nat),
        verdict is Ok <==> encoded_len < 4 * 1024 * 1024,
        verdict matches Ok(size) ==> size == encoded_len,
        verdict matches Err(e) ==> e == SubscriptionError::TooLarge,
{
    if encoded_len >= MAX_SUBSCRIPTION_REQUEST_SIZE {
        Err(SubscriptionError::TooLarge)
    } else {
        Ok(encoded_len)
    }
}

/// A size fits exactly when it is below 4 MiB: the endpoint refuses
/// requests of 4 MiB or more.
pub proof fn lemma_fits_below_four_mebibytes(encoded_len: nat)
    ensures
        fits(encoded_len) <==> encoded_len < 4 * 1024 * 1024,
        MAX_SUBSCRIPTION_REQUEST_SIZE == 4 * 1024 * 1024,
{
}

/// The wire form of a request states all of it: one transaction filter under
/// "programs" on exactly the request's programs, leaving out votes and
/// failed transactions, with no signature, exclusion or required account;
/// an account filter under "accounts" on exactly the accounts the request
/// follows, present exactly when the request has an account filter; one
/// block-meta filter under "blocks-meta".
pub proof fn lemma_wire_form_follows_request(request: SubscriptionRequest)
    ensures
        wire_view(request).0.len() == 1,
        wire_view(request).0[0].0 == "programs"@,
        wire_view(request).0[0].1.0 == Some(false),
        wire_view(request).0[0].1.1 == Some(false),
        wire_view(request).0[0].1.2 is None,
        wire_view(request).0[0].1.3 == texts(request.programs),
        wire_view(request).0[0].1.4.len() == 0,
        wire_view(request).0[0].1.5.len() == 0,
        request.accounts is Some ==> {
            &&& wire_view(request).1.len() == 1
            &&& wire_view(request).1[0].0 == "accounts"@
            &&& wire_view(request).1[0].1 == followed_accounts(request)
            &&& wire_view(request).1[0].1.len() == followed_accounts(request).len()
        },
        request.accounts is None ==> wire_view(request).1.len() == 0,
        wire_view(request).2 == seq!["blocks-meta"@],
{
}

/// Every account a request follows is in the account filter of its wire
/// form, at the same place.
pub proof fn lemma_wire_follows_every_account(request: SubscriptionRequest, i: int)
    requires
        0 <= i < followed_accounts(request).len(),
    ensures
        wire_view(request).1.len() == 1,
        0 <= i < wire_view(request).1[0].1.len(),
        wire_view(request).1[0].1[i] == followed_accounts(request)[i],
{
}

/// Reading the store gives back what was last written to it: a request read
/// after `set_subscription_request(written)` asks for the same as `written`.
pub proof fn lemma_read_gives_back_write(
    written: SubscriptionRequest,
    stored: SubscriptionRequest,
    read: SubscriptionRequest,
)
    requires
        same_request(stored, written),
        same_request(read, stored),
    ensures
        same_request(read, written),
{
}

/// The wire form of a subscription request, as the endpoint receives it.
#[verifier::external_type_specification]
#[verifier::external_body]
pub struct ExSubscribeRequest(SubscribeRequest);

/// A request whose encoding was measured and found under
/// `MAX_SUBSCRIPTION_REQUEST_SIZE` bytes: the only thing the sink is handed
/// (through `message`) and the store records.
pub struct CheckedRequest {
    request: SubscriptionRequest,
    size: usize,
}

impl CheckedRequest {
    /// The size is that of the request's encoding, and it fits.
    #[verifier::type_invariant]
    closed spec fn measured(self) -> bool {
        &&& self.size == encoded_size(wire_view(self.request))
        &&& fits(self.size as nat)
    }

    /// The request that was checked.
    pub closed spec fn request(self) -> SubscriptionRequest {
        self.request
    }

    /// The number of bytes the request takes encoded.
    pub fn size(&self) -> (size: usize)
        ensures
            size == encoded_size(wire_view(self.request())),
            fits(size as nat),
    {
        proof {
            use_type_invariant(self);
        }
        self.size
    }

    /// The wire form of the request.
    pub fn wire(&self) -> (wire: WireRequest)
        ensures
            wire@ == wire_view(self.request()),
    {
        wire_form(&self.request)
    }

    /// The protobuf message to send for the request, with the length of its
    /// encoding: the message is built from the request's wire form, and its
    /// length is the one measured when the request was checked.
    pub fn message(&self) -> (sent: (SubscribeRequest, usize))
        ensures
            sent.1 == encoded_size(wire_view(self.request())),
            fits(sent.1 as nat),
    {
        proof {
            use_type_invariant(self);
        }
        encode(wire_form(&self.request))
    }

    /// The request that was checked, which fits.
    pub fn into_request(self) -> (request: SubscriptionRequest)
        ensures
            request == self.request(),
            fits(encoded_size(wire_view(request))),
    {
        proof {
            use_type_invariant(&self);
        }
        self.request
    }
}

/// Whether `request` may be sent: its encoding must take fewer than
/// `MAX_SUBSCRIPTION_REQUEST_SIZE` bytes. When it does, the request comes back
/// checked, with its encoded size.
pub fn check_subscribe_request(request: SubscriptionRequest) -> (verdict: Result<
    CheckedRequest,
    SubscriptionError,
>)
    ensures
        verdict is Ok <==> fits(encoded_size(wire_view(request))),
        verdict matches Ok(checked) ==> checked.request() == request,
        verdict matches Err(e) ==> e == SubscriptionError::TooLarge,
{
    let (_, size) = encode(wire_form(&request));
    match check_request_size(size) {
        Ok(size) => Ok(CheckedRequest { request, size }),
        Err(e) => Err(e),
    }
}

/// The wire form of `request` once the pending pools are merged into its
/// account filter.
pub open spec fn resubscribed_wire(
    request: SubscriptionRequest,
    pending: Seq<Seq<char>>,
) -> WireRequestView {
    wire_of(
        texts(request.programs),
        Some(merged(followed_accounts(request), pending)),
        request.commitment,
    )
}

/// Requests that ask for the same thing have the same wire form.
pub proof fn lemma_same_request_same_wire(a: SubscriptionRequest, b: SubscriptionRequest)
    requires
        same_request(a, b),
    ensures
        wire_view(a) == wire_view(b),
{
    assert(account_filter(a) == account_filter(b));
}

/// The last request sent on the stream: the only full copy of the pools
/// followed so far, and what a reconnection subscribes with again. Only a
/// checked request is recorded, so the stored request always encodes under
/// `MAX_SUBSCRIPTION_REQUEST_SIZE` bytes.
pub struct Subscription {
    request: SubscriptionRequest,
}

impl Subscription {
    /// The stored request fits.
    #[verifier::type_invariant]
    closed spec fn stored_fits(self) -> bool {
        fits(encoded_size(wire_view(self.request)))
    }

    /// The request the stream holds.
    pub closed spec fn request(self) -> SubscriptionRequest {
        self.request
    }

    /// The store of a stream just opened with `checked`.
    pub fn new(checked: CheckedRequest) -> (subscription: Subscription)
        ensures
            subscription.request() == checked.request(),
    {
        Subscription { request: checked.into_request() }
    }

    /// A copy of the request the stream holds; it encodes under the limit.
    pub fn get_subscription_request(&self) -> (request: SubscriptionRequest)
        ensures
            same_request(request, self.request()),
            fits(encoded_size(wire_view(request))),
    {
        proof {
            use_type_invariant(self);
        }
        let request = self.request.copy();
        proof {
            lemma_same_request_same_wire(request, self.request);
        }
        request
    }

    /// Records `checked` as the request the stream holds, once the sink took it.
    pub fn set_subscription_request(&mut self, checked: CheckedRequest)
        ensures
            final(self).request() == checked.request(),
    {
        self.request = checked.into_request();
    }

    /// The request with the pending pools merged into its account filter,
    /// checked, and the number of accounts it then follows; refused when its
    /// encoding would take `MAX_SUBSCRIPTION_REQUEST_SIZE` bytes or more.
    pub fn prepare_resubscribe(&self, pending: &Vec<String>) -> (prepared: Result<
        (CheckedRequest, u64),
        SubscriptionError,
    >)
        ensures
            prepared is Ok <==> fits(
                encoded_size(resubscribed_wire(self.request(), texts(*pending))),
            ),
            prepared matches Ok((checked, pools)) ==> {
                let followed = merged(followed_accounts(self.request()), texts(*pending));
                &&& wire_view(checked.request()) == resubscribed_wire(
                    self.request(),
                    texts(*pending),
                )
                &&& followed_accounts(checked.request()) == followed
                &&& pools == followed.len()
            },
            prepared matches Err(e) ==> e == SubscriptionError::TooLarge,
    {
        let (next, pools) = self.request.with_discovered(pending);
        proof {
            assert(wire_view(next) == resubscribed_wire(self.request, texts(*pending)));
        }
        match check_subscribe_request(next) {
            Ok(checked) => Ok((checked, pools)),
            Err(e) => Err(e),
        }
    }
}

} // verus!
