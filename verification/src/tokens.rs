//! The one-time tokens: a bounded store of outstanding tokens that forgets the
//! oldest one when a new one arrives at a full store.
//!
//! Membership is kept in a `RollingSet`, which answers it by hashing. The
//! order of arrival is kept beside it in a queue, oldest first, so that a new
//! token arrives and the oldest leaves without a walk through the others:
//! the store itself decides which token leaves, and never lets the set grow
//! over its limit. The set's
//! own eviction goes by stamps that start over once it has evicted, so that
//! it would not stay first in, first out; it is never set off here.
use crate::net::Token;
use rolling_set::RollingSet;
use std::collections::VecDeque;
use vstd::prelude::*;
use vstd::slice::*;

verus! {

/// How many bytes a token has.
pub const TOKEN_BYTES: usize = 256;

/// How many tokens a service keeps outstanding.
pub const TOKEN_CAPACITY: usize = 2048;

/// `rolling_set::RollingSet`: a set with a limit. What one holds is spoken of
/// through [`held`], [`limit`] and [`stamp`].
#[verifier::external_type_specification]
#[verifier::external_body]
#[verifier::reject_recursive_types(T)]
pub struct ExRollingSet<T: core::hash::Hash + Eq>(RollingSet<T>);

/// The byte strings that a set holds.
pub uninterp spec fn held(set: RollingSet<Vec<u8>>) -> Set<Seq<u8>>;

/// The limit that a set was made with.
pub uninterp spec fn limit(set: RollingSet<Vec<u8>>) -> nat;

/// The stamp that a set gave to its latest arrival. It counts upwards in a
/// machine word.
pub uninterp spec fn stamp(set: RollingSet<Vec<u8>>) -> nat;

/// `RollingSet::new`. Trusted: the new set is empty, has the given limit, and
/// has given out no stamp.
#[verifier::external_body]
fn fresh_set(capacity: usize) -> (set: RollingSet<Vec<u8>>)
    ensures
        held(set) == Set::<Seq<u8>>::empty(),
        limit(set) == capacity,
        stamp(set) == 0,
{
    RollingSet::new(capacity)
}

/// `RollingSet::insert`. Trusted: the limit stays; the set holds nothing but
/// what it held and the new element; and where these are no more than the
/// limit, it holds all of them and the stamp went up by one. The stamp must
/// have room to go up.
#[verifier::external_body]
fn set_insert(set: &mut RollingSet<Vec<u8>>, element: Vec<u8>)
    requires
        stamp(*old(set)) < usize::MAX,
    ensures
        limit(*final(set)) == limit(*old(set)),
        held(*final(set)).finite(),
        held(*final(set)).subset_of(held(*old(set)).insert(element@)),
        held(*old(set)).insert(element@).len() <= limit(*old(set)) ==> held(*final(set)) == held(
            *old(set),
        ).insert(element@) && stamp(*final(set)) == stamp(*old(set)) + 1,
{
    set.insert(element)
}

/// `RollingSet::remove`. Trusted: it says whether the set held the element,
/// which the set no longer holds afterwards; everything else stays.
#[verifier::external_body]
fn set_remove(set: &mut RollingSet<Vec<u8>>, element: &Vec<u8>) -> (present: bool)
    ensures
        present == held(*old(set)).contains(element@),
        held(*final(set)) == held(*old(set)).remove(element@),
        limit(*final(set)) == limit(*old(set)),
        stamp(*final(set)) == stamp(*old(set)),
{
    set.remove(element)
}

/// `RngCore::fill_bytes` on `rand::thread_rng()`. Trusted: the buffer keeps
/// its length. Nothing is claimed of the bytes.
#[verifier::external_body]
fn gen_bytes(key_bytes: usize) -> (bytes: Vec<u8>)
    ensures
        bytes@.len() == key_bytes,
{
    let mut bytes: Vec<u8> = vec![0; key_bytes];
    rand::RngCore::fill_bytes(&mut rand::thread_rng(), &mut bytes[..]);
    bytes
}

// ---------------------------------------------------------------------------
// The model: a sequence of tokens, oldest first
// ---------------------------------------------------------------------------

/// The tokens of a list of byte vectors, in the same order.
pub open spec fn tokens_of(order: Seq<Vec<u8>>) -> Seq<Seq<u8>> {
    Seq::new(order.len(), |i: int| order[i]@)
}

/// The sequence without `token`.
pub open spec fn without(tokens: Seq<Seq<u8>>, token: Seq<u8>) -> Seq<Seq<u8>> {
    if tokens.contains(token) {
        tokens.remove(tokens.index_of(token))
    } else {
        tokens
    }
}

/// The outstanding tokens after `token` arrives at a store of the given
/// capacity: the token becomes the newest; if the store was full of other
/// tokens, the oldest of them leaves. A store of capacity zero holds nothing.
pub open spec fn with_token(tokens: Seq<Seq<u8>>, capacity: nat, token: Seq<u8>) -> Seq<Seq<u8>> {
    if capacity == 0 {
        tokens
    } else {
        let rest = without(tokens, token);
        let kept = if rest.len() >= capacity {
            rest.drop_first()
        } else {
            rest
        };
        kept.push(token)
    }
}

/// How many tokens are outstanding after `token` arrived: as many as before
/// where it was outstanding already or the store was full, else one more.
pub open spec fn count_with_token(tokens: Seq<Seq<u8>>, capacity: nat, token: Seq<u8>) -> nat {
    if capacity == 0 || tokens.contains(token) || tokens.len() >= capacity {
        tokens.len()
    } else {
        tokens.len() + 1
    }
}

/// The outstanding tokens after each token of `arrivals` arrived in turn.
pub open spec fn with_tokens(
    tokens: Seq<Seq<u8>>,
    capacity: nat,
    arrivals: Seq<Seq<u8>>,
) -> Seq<Seq<u8>>
    decreases arrivals.len(),
{
    if arrivals.len() == 0 {
        tokens
    } else {
        with_token(with_tokens(tokens, capacity, arrivals.drop_last()), capacity, arrivals.last())
    }
}

/// The last `count` elements of a sequence, or all of it where it has fewer.
pub open spec fn newest(tokens: Seq<Seq<u8>>, count: nat) -> Seq<Seq<u8>> {
    if tokens.len() <= count {
        tokens
    } else {
        tokens.subrange(tokens.len() - count, tokens.len() as int)
    }
}

proof fn lemma_without(tokens: Seq<Seq<u8>>, token: Seq<u8>)
    requires
        tokens.no_duplicates(),
    ensures
        without(tokens, token).no_duplicates(),
        !without(tokens, token).contains(token),
        without(tokens, token).to_set() == tokens.to_set().remove(token),
        without(tokens, token).len() == if tokens.contains(token) {
            tokens.len() - 1
        } else {
            tokens.len() as int
        },
        forall|other: Seq<u8>|
            other != token ==> (#[trigger] without(tokens, token).contains(other)
                <==> tokens.contains(other)),
{
    let rest = without(tokens, token);
    if tokens.contains(token) {
        let at = tokens.index_of(token);
        assert forall|other: Seq<u8>| other != token implies (#[trigger] rest.contains(other)
            <==> tokens.contains(other)) by {
            if tokens.contains(other) {
                let j = tokens.index_of(other);
                if j < at {
                    assert(rest[j] == other);
                } else {
                    assert(rest[j - 1] == other);
                }
            }
            if rest.contains(other) {
                let j = rest.index_of(other);
                if j < at {
                    assert(tokens[j] == other);
                } else {
                    assert(tokens[j + 1] == other);
                }
            }
        }
        if rest.contains(token) {
            let j = rest.index_of(token);
            if j < at {
                assert(tokens[j] == token);
            } else {
                assert(tokens[j + 1] == token);
            }
        }
    }
    assert(rest.to_set() =~= tokens.to_set().remove(token));
}

proof fn lemma_push(tokens: Seq<Seq<u8>>, token: Seq<u8>)
    requires
        tokens.no_duplicates(),
        !tokens.contains(token),
    ensures
        tokens.push(token).no_duplicates(),
        tokens.push(token).to_set() == tokens.to_set().insert(token),
        tokens.push(token).contains(token),
{
    let more = tokens.push(token);
    assert(more[tokens.len() as int] == token);
    assert forall|x: Seq<u8>| more.to_set().contains(x) <==> tokens.to_set().insert(
        token,
    ).contains(x) by {
        if tokens.contains(x) {
            let j = tokens.index_of(x);
            assert(more[j] == x);
        }
        if more.contains(x) && x != token {
            let j = more.index_of(x);
            assert(tokens[j] == x);
        }
    }
    assert(more.to_set() =~= tokens.to_set().insert(token));
    assert forall|i: int, j: int| 0 <= i < more.len() && 0 <= j < more.len() && i != j implies more[i]
        != more[j] by {
        if i == tokens.len() {
            assert(tokens[j] == more[j]);
        } else if j == tokens.len() {
            assert(tokens[i] == more[i]);
        }
    }
}

proof fn lemma_drop_first(tokens: Seq<Seq<u8>>)
    requires
        tokens.no_duplicates(),
        tokens.len() > 0,
    ensures
        tokens.drop_first() == without(tokens, tokens[0]),
{
    assert(tokens.contains(tokens[0]));
    assert(tokens.index_of(tokens[0]) == 0);
    assert(tokens.drop_first() =~= tokens.remove(0));
}

/// An arrival keeps the store in order: no token twice, no more tokens than
/// the capacity. At a store of capacity one or more the token that arrived
/// is outstanding, as the newest.
pub proof fn arrival_keeps_bound(tokens: Seq<Seq<u8>>, capacity: nat, token: Seq<u8>)
    requires
        tokens.no_duplicates(),
        tokens.len() <= capacity,
    ensures
        with_token(tokens, capacity, token).no_duplicates(),
        with_token(tokens, capacity, token).len() <= capacity,
        with_token(tokens, capacity, token).len() == count_with_token(tokens, capacity, token),
        capacity > 0 ==> with_token(tokens, capacity, token).contains(token),
        capacity > 0 ==> with_token(tokens, capacity, token).last() == token,
{
    if capacity > 0 {
        let rest = without(tokens, token);
        lemma_without(tokens, token);
        if rest.len() >= capacity {
            lemma_drop_first(rest);
            lemma_without(rest, rest[0]);
            assert(!rest.drop_first().contains(token));
            lemma_push(rest.drop_first(), token);
        } else {
            lemma_push(rest, token);
        }
    }
}

/// A token is good for one use: at a store of capacity one or more it is
/// outstanding right after it arrived, and once it was consumed it is not.
pub proof fn token_is_one_shot(tokens: Seq<Seq<u8>>, capacity: nat, token: Seq<u8>)
    requires
        tokens.no_duplicates(),
        tokens.len() <= capacity,
        capacity > 0,
    ensures
        with_token(tokens, capacity, token).contains(token),
        !without(with_token(tokens, capacity, token), token).contains(token),
{
    arrival_keeps_bound(tokens, capacity, token);
    lemma_without(with_token(tokens, capacity, token), token);
}

/// Consuming removes for good: whatever the store held, a consumed token is
/// not outstanding afterwards.
pub proof fn consumed_is_gone(tokens: Seq<Seq<u8>>, token: Seq<u8>)
    requires
        tokens.no_duplicates(),
    ensures
        !without(tokens, token).contains(token),
        without(without(tokens, token), token) == without(tokens, token),
{
    lemma_without(tokens, token);
}

/// A new token at a full store pushes out the oldest one, and only that one.
pub proof fn full_store_evicts_oldest(tokens: Seq<Seq<u8>>, capacity: nat, token: Seq<u8>)
    requires
        tokens.no_duplicates(),
        tokens.len() == capacity,
        capacity > 0,
        !tokens.contains(token),
    ensures
        with_token(tokens, capacity, token) == tokens.drop_first().push(token),
        !with_token(tokens, capacity, token).contains(tokens[0]),
        forall|i: int|
            1 <= i < tokens.len() ==> with_token(tokens, capacity, token).contains(
                #[trigger] tokens[i],
            ),
{
    let after = with_token(tokens, capacity, token);
    lemma_drop_first(tokens);
    lemma_without(tokens, tokens[0]);
    assert(tokens.contains(tokens[0]));
    assert(!tokens.drop_first().contains(token));
    lemma_push(tokens.drop_first(), token);
    if after.contains(tokens[0]) {
        let j = after.index_of(tokens[0]);
        assert(tokens.drop_first()[j] == tokens[0]);
    }
    assert forall|i: int| 1 <= i < tokens.len() implies after.contains(#[trigger] tokens[i]) by {
        assert(after[i - 1] == tokens[i]);
    }
}

/// First in, first out: of distinct tokens that arrive at an empty store, the
/// newest ones stay outstanding, as many as the capacity allows, in the order
/// of their arrival.
pub proof fn store_keeps_newest(capacity: nat, arrivals: Seq<Seq<u8>>)
    requires
        arrivals.no_duplicates(),
    ensures
        with_tokens(Seq::<Seq<u8>>::empty(), capacity, arrivals) == newest(arrivals, capacity),
    decreases arrivals.len(),
{
    let start = Seq::<Seq<u8>>::empty();
    if arrivals.len() == 0 {
    } else {
        let before = arrivals.drop_last();
        let last = arrivals.last();
        store_keeps_newest(capacity, before);
        let kept = newest(before, capacity);
        assert(with_tokens(start, capacity, before) == kept);
        if capacity == 0 {
            assert(kept =~= start);
            assert(newest(arrivals, capacity) =~= start);
        } else {
            assert(!kept.contains(last)) by {
                if kept.contains(last) {
                    let j = kept.index_of(last);
                    if before.len() <= capacity {
                        assert(arrivals[j] == last);
                    } else {
                        assert(arrivals[before.len() - capacity + j] == last);
                    }
                }
            }
            assert(without(kept, last) == kept);
            assert(with_token(kept, capacity, last) =~= newest(arrivals, capacity));
        }
    }
}

/// One token more than the capacity: the store is full, and the token that
/// arrived first can no longer be consumed.
pub proof fn overflow_forgets_first(capacity: nat, arrivals: Seq<Seq<u8>>)
    requires
        arrivals.no_duplicates(),
        arrivals.len() == capacity + 1,
    ensures
        with_tokens(Seq::<Seq<u8>>::empty(), capacity, arrivals).len() == capacity,
        !with_tokens(Seq::<Seq<u8>>::empty(), capacity, arrivals).contains(arrivals[0]),
{
    store_keeps_newest(capacity, arrivals);
    let kept = newest(arrivals, capacity);
    if kept.contains(arrivals[0]) {
        let j = kept.index_of(arrivals[0]);
        assert(arrivals[1 + j] == arrivals[0]);
    }
}

// ---------------------------------------------------------------------------
// The store
// ---------------------------------------------------------------------------

/// The outstanding tokens of a running service.
#[derive(Debug)]
pub struct TokenStore {
    set: RollingSet<Vec<u8>>,
    order: VecDeque<Vec<u8>>,
    capacity: usize,
    stamps: usize,
}

/// Whether two byte vectors hold the same bytes.
fn same_bytes(a: &Vec<u8>, b: &Vec<u8>) -> (same: bool)
    ensures
        same == (a@ == b@),
{
    if a.len() != b.len() {
        return false;
    }
    let mut i: usize = 0;
    while i < a.len()
        invariant
            a@.len() == b@.len(),
            i <= a@.len(),
            forall|j: int| 0 <= j < i ==> a@[j] == b@[j],
        decreases a@.len() - i,
    {
        if a[i] != b[i] {
            return false;
        }
        i += 1;
    }
    assert(a@ =~= b@);
    true
}

impl View for TokenStore {
    type V = Seq<Seq<u8>>;

    /// The outstanding tokens, oldest first.
    closed spec fn view(&self) -> Seq<Seq<u8>> {
        tokens_of(self.order@)
    }
}

impl TokenStore {
    /// How many tokens the store may hold.
    pub closed spec fn capacity_spec(&self) -> nat {
        self.capacity as nat
    }

    /// The set and the order of arrival agree.
    pub closed spec fn in_step(&self) -> bool {
        &&& held(self.set) == self@.to_set()
        &&& limit(self.set) == self.capacity
        &&& stamp(self.set) == self.stamps
    }

    /// The invariant of a store: no token is outstanding twice, and no more
    /// tokens are outstanding than the capacity.
    pub open spec fn wf(&self) -> bool {
        &&& self.in_step()
        &&& self@.no_duplicates()
        &&& self@.len() <= self.capacity_spec()
    }

    /// An empty store for at most `capacity` tokens.
    pub fn new(capacity: usize) -> (store: TokenStore)
        ensures
            store.wf(),
            store@ == Seq::<Seq<u8>>::empty(),
            store.capacity_spec() == capacity,
    {
        let store = TokenStore { set: fresh_set(capacity), order: VecDeque::new(), capacity, stamps: 0 };
        assert(store@ =~= Seq::<Seq<u8>>::empty());
        assert(store@.to_set() =~= Set::<Seq<u8>>::empty());
        store
    }

    /// How many tokens the store may hold.
    pub fn capacity(&self) -> (capacity: usize)
        ensures
            capacity == self.capacity_spec(),
    {
        self.capacity
    }

    /// How many tokens are outstanding.
    pub fn len(&self) -> (len: usize)
        ensures
            len == self@.len(),
    {
        self.order.len()
    }

    /// Whether `token` is outstanding.
    pub fn contains(&self, token: &Token) -> (present: bool)
        ensures
            present == self@.contains(token@),
    {
        self.position(token).is_some()
    }

    /// Where `token` stands in the order of arrival.
    fn position(&self, token: &Token) -> (at: Option<usize>)
        ensures
            match at {
                Some(i) => i < self@.len() && self@[i as int] == token@,
                None => !self@.contains(token@),
            },
    {
        let mut i: usize = 0;
        while i < self.order.len()
            invariant
                i <= self.order@.len(),
                forall|j: int| 0 <= j < i ==> self@[j] != token@,
            decreases self.order@.len() - i,
        {
            if same_bytes(&self.order[i], token) {
                return Some(i);
            }
            i += 1;
        }
        None
    }

    /// Makes the set anew from the order of arrival, so that its stamps start
    /// over.
    fn restamp(&mut self)
        requires
            old(self)@.no_duplicates(),
            old(self)@.len() <= old(self).capacity_spec(),
            old(self)@.len() < usize::MAX,
        ensures
            final(self)@ == old(self)@,
            final(self).capacity_spec() == old(self).capacity_spec(),
            held(final(self).set) == final(self)@.to_set(),
            limit(final(self).set) == final(self).capacity,
            stamp(final(self).set) == final(self).stamps,
            final(self).stamps == final(self)@.len(),
    {
        let mut set = fresh_set(self.capacity);
        let mut i: usize = 0;
        assert(self@.subrange(0, 0).to_set() =~= Set::<Seq<u8>>::empty());
        while i < self.order.len()
            invariant
                i <= self.order@.len(),
                self@.no_duplicates(),
                self@.len() <= self.capacity,
                self@.len() < usize::MAX,
                held(set) == self@.subrange(0, i as int).to_set(),
                limit(set) == self.capacity,
                stamp(set) == i,
            decreases self.order@.len() - i,
        {
            let copy = slice_to_vec(self.order[i].as_slice());
            proof {
                let before = self@.subrange(0, i as int);
                let token = self@[i as int];
                assert(copy@ == token);
                assert(!before.contains(token)) by {
                    if before.contains(token) {
                        let j = before.index_of(token);
                        assert(self@[j] == token);
                    }
                }
                lemma_push(before, token);
                assert(before.push(token) =~= self@.subrange(0, i + 1));
                before.push(token).unique_seq_to_set();
            }
            set_insert(&mut set, copy);
            i += 1;
        }
        assert(self@.subrange(0, i as int) =~= self@);
        self.set = set;
        self.stamps = i;
    }

    /// Stores `token` as the newest outstanding token. If the store is full of
    /// other tokens, the oldest of them is forgotten first; a token that was
    /// outstanding already becomes the newest.
    pub fn insert(&mut self, token: Token)
        requires
            old(self).wf(),
        ensures
            final(self).wf(),
            final(self).capacity_spec() == old(self).capacity_spec(),
            final(self)@ == with_token(old(self)@, old(self).capacity_spec(), token@),
            final(self)@.len() == count_with_token(
                old(self)@,
                old(self).capacity_spec(),
                token@,
            ),
            old(self).capacity_spec() > 0 ==> final(self)@.contains(token@),
    {
        proof {
            arrival_keeps_bound(self@, self.capacity_spec(), token@);
        }
        if self.capacity == 0 {
            return;
        }
        let ghost start = self@;
        let ghost rest = without(start, token@);
        self.consume(&token);
        proof {
            lemma_without(start, token@);
        }
        if self.order.len() >= self.capacity {
            match self.order.pop_front() {
                Some(oldest) => {
                    set_remove(&mut self.set, &oldest);
                    proof {
                        assert(oldest@ == rest[0]);
                        lemma_drop_first(rest);
                        lemma_without(rest, rest[0]);
                        assert(self@ =~= rest.drop_first());
                    }
                },
                None => {},
            }
        }
        let ghost kept = self@;
        proof {
            assert(!kept.contains(token@));
            lemma_push(kept, token@);
            kept.push(token@).unique_seq_to_set();
        }
        if self.stamps == usize::MAX {
            self.restamp();
        }
        set_insert(&mut self.set, slice_to_vec(token.as_slice()));
        self.order.push_back(token);
        self.stamps += 1;
        assert(self@ =~= kept.push(token@));
    }

    /// Uses `token` up: says whether it was outstanding, and it is not
    /// outstanding afterwards. The other tokens stay as they are.
    pub fn consume(&mut self, token: &Token) -> (present: bool)
        requires
            old(self).wf(),
        ensures
            final(self).wf(),
            final(self).capacity_spec() == old(self).capacity_spec(),
            present == old(self)@.contains(token@),
            final(self)@ == without(old(self)@, token@),
    {
        let ghost start = self@;
        proof {
            lemma_without(start, token@);
        }
        let present = set_remove(&mut self.set, token);
        if present {
            match self.position(token) {
                Some(at) => {
                    assert(start.index_of(token@) == at);
                    self.order.remove(at);
                    assert(self@ =~= start.remove(at as int));
                },
                None => {},
            }
        }
        present
    }
}

/// Makes a new token of random bytes and stores it as outstanding, so that it
/// can be verified later.
pub fn authorize_token(tokens: &mut TokenStore) -> (token: Vec<u8>)
    requires
        old(tokens).wf(),
    ensures
        final(tokens).wf(),
        final(tokens).capacity_spec() == old(tokens).capacity_spec(),
        token@.len() == TOKEN_BYTES,
        final(tokens)@ == with_token(old(tokens)@, old(tokens).capacity_spec(), token@),
        final(tokens)@.len() == count_with_token(
            old(tokens)@,
            old(tokens).capacity_spec(),
            token@,
        ),
        old(tokens).capacity_spec() > 0 ==> final(tokens)@.contains(token@),
{
    let bytes = gen_bytes(TOKEN_BYTES);
    tokens.insert(slice_to_vec(bytes.as_slice()));
    bytes
}

/// Checks that a token is outstanding, and uses it up.
pub fn verify_token(token: Token, tokens: &mut TokenStore) -> (verified: bool)
    requires
        old(tokens).wf(),
    ensures
        final(tokens).wf(),
        final(tokens).capacity_spec() == old(tokens).capacity_spec(),
        verified == old(tokens)@.contains(token@),
        final(tokens)@ == without(old(tokens)@, token@),
{
    tokens.consume(&token)
}

} // verus!
