use vstd::prelude::*;
use vstd::arithmetic::div_mod::{
    lemma_fundamental_div_mod_converse_div, lemma_fundamental_div_mod_converse_mod,
};
use crate::card::{Card, Rank, Suit};
use crate::pubkey::Pubkey;
use rand::SeedableRng;
use rand::seq::SliceRandom;
use sha2::Digest;

verus! {

/// Suit of the `k`-th group of thirteen cards in a deck.
pub open spec fn suit_of_index(k: int) -> Suit {
    if k == 0 {
        Suit::Hearts
    } else if k == 1 {
        Suit::Diamonds
    } else if k == 2 {
        Suit::Clubs
    } else {
        Suit::Spades
    }
}

/// Rank at position `k` of a suit, from Two up to Ace.
pub open spec fn rank_of_index(k: int) -> Rank {
    if k == 0 {
        Rank::Two
    } else if k == 1 {
        Rank::Three
    } else if k == 2 {
        Rank::Four
    } else if k == 3 {
        Rank::Five
    } else if k == 4 {
        Rank::Six
    } else if k == 5 {
        Rank::Seven
    } else if k == 6 {
        Rank::Eight
    } else if k == 7 {
        Rank::Nine
    } else if k == 8 {
        Rank::Ten
    } else if k == 9 {
        Rank::Jack
    } else if k == 10 {
        Rank::Queen
    } else if k == 11 {
        Rank::King
    } else {
        Rank::Ace
    }
}

/// Card at position `i` of an unshuffled shoe: decks one after another, each
/// laid out suit by suit, each suit from Two up to Ace.
pub open spec fn standard_card(i: int) -> Card {
    Card { suit: suit_of_index((i / 13) % 4), rank: rank_of_index(i % 13) }
}

/// An unshuffled shoe of `num_decks` decks.
pub open spec fn standard_shoe(num_decks: nat) -> Seq<Card> {
    Seq::new(num_decks * 52, |i: int| standard_card(i))
}

/// Order in which the seeded generator leaves a sequence when it shuffles it.
pub uninterp spec fn seeded_shuffle(items: Seq<usize>, seed: Seq<u8>) -> Seq<usize>;

/// SHA-256 digest of a byte string.
pub uninterp spec fn sha256_of(data: Seq<u8>) -> Seq<u8>;

/// The indices `0..n` in order.
pub open spec fn identity_order(n: nat) -> Seq<usize> {
    Seq::new(n, |i: int| i as usize)
}

/// The permutation that a seed applies to a sequence of `n` items.
pub open spec fn shuffle_order(n: nat, seed: Seq<u8>) -> Seq<usize> {
    seeded_shuffle(identity_order(n), seed)
}

/// `cards` rearranged by the seed's permutation: position `i` receives the
/// card that stood at `shuffle_order(..)[i]`.
pub open spec fn shuffled(cards: Seq<Card>, seed: Seq<u8>) -> Seq<Card> {
    let order = shuffle_order(cards.len(), seed);
    Seq::new(cards.len(), |i: int| cards[order[i] as int])
}

/// Little-endian encoding of `x` in `n` bytes.
pub open spec fn le_bytes(x: nat, n: nat) -> Seq<u8>
    decreases n,
{
    if n == 0 {
        Seq::empty()
    } else {
        seq![(x % 256) as u8] + le_bytes(x / 256, (n - 1) as nat)
    }
}

/// Bytes hashed into a shuffle seed: slot, timestamp (two's complement),
/// requester key and nonce, integers little-endian.
pub open spec fn seed_material(slot: u64, timestamp: i64, key: Pubkey, nonce: u64) -> Seq<u8> {
    le_bytes(slot as nat, 8) + le_bytes(timestamp as u64 as nat, 8) + key.bytes@ + le_bytes(
        nonce as nat,
        8,
    )
}

fn suit_at(k: usize) -> (s: Suit)
    requires
        k < 4,
    ensures
        s == suit_of_index(k as int),
{
    if k == 0 {
        Suit::Hearts
    } else if k == 1 {
        Suit::Diamonds
    } else if k == 2 {
        Suit::Clubs
    } else {
        Suit::Spades
    }
}

fn rank_at(k: usize) -> (r: Rank)
    requires
        k < 13,
    ensures
        r == rank_of_index(k as int),
{
    if k == 0 {
        Rank::Two
    } else if k == 1 {
        Rank::Three
    } else if k == 2 {
        Rank::Four
    } else if k == 3 {
        Rank::Five
    } else if k == 4 {
        Rank::Six
    } else if k == 5 {
        Rank::Seven
    } else if k == 6 {
        Rank::Eight
    } else if k == 7 {
        Rank::Nine
    } else if k == 8 {
        Rank::Ten
    } else if k == 9 {
        Rank::Jack
    } else if k == 10 {
        Rank::Queen
    } else if k == 11 {
        Rank::King
    } else {
        Rank::Ace
    }
}

/// Builds `num_decks` standard decks, one after another.
pub fn create_standard_shoe(num_decks: u8) -> (shoe: Vec<Card>)
    ensures
        shoe@ == standard_shoe(num_decks as nat),
{
    let mut shoe: Vec<Card> = Vec::with_capacity(num_decks as usize * 52);
    let mut d: u8 = 0;
    while d < num_decks
        invariant
            d <= num_decks,
            shoe@ =~= Seq::new(d as nat * 52, |i: int| standard_card(i)),
        decreases num_decks - d,
    {
        let mut s: usize = 0;
        while s < 4
            invariant
                d < num_decks,
                s <= 4,
                shoe@ =~= Seq::new(d as nat * 52 + s as nat * 13, |i: int| standard_card(i)),
            decreases 4 - s,
        {
            let mut r: usize = 0;
            while r < 13
                invariant
                    d < num_decks,
                    s < 4,
                    r <= 13,
                    shoe@ =~= Seq::new(
                        d as nat * 52 + s as nat * 13 + r as nat,
                        |i: int| standard_card(i),
                    ),
                decreases 13 - r,
            {
                let card = Card { suit: suit_at(s), rank: rank_at(r) };
                proof {
                    let i = d as int * 52 + s as int * 13 + r as int;
                    let q = d as int * 4 + s as int;
                    assert(i == q * 13 + r as int);
                    lemma_fundamental_div_mod_converse_div(i, 13, q, r as int);
                    lemma_fundamental_div_mod_converse_mod(i, 13, q, r as int);
                    lemma_fundamental_div_mod_converse_mod(q, 4, d as int, s as int);
                    assert(standard_card(i) == card);
                }
                shoe.push(card);
                r = r + 1;
            }
            s = s + 1;
        }
        d = d + 1;
    }
    shoe
}

/// Relies on rand_chacha's ChaCha8Rng seeded by `SeedableRng::from_seed` and
/// on rand's `SliceRandom::shuffle`: the order left depends on the items and
/// the seed alone, and the shuffle only swaps items.
#[verifier::external_body]
fn shuffle_with_seed(items: &mut Vec<usize>, seed: [u8; 32])
    ensures
        final(items)@ == seeded_shuffle(old(items)@, seed@),
        final(items)@.to_multiset() == old(items)@.to_multiset(),
{
    let mut rng = rand_chacha::ChaCha8Rng::from_seed(seed);
    items.shuffle(&mut rng);
}

/// Relies on sha2's Sha256: the digest of the bytes.
#[verifier::external_body]
fn sha256(data: &Vec<u8>) -> (r: [u8; 32])
    ensures
        r@ == sha256_of(data@),
{
    let mut hasher = sha2::Sha256::new();
    hasher.update(data);
    hasher.finalize().into()
}

/// `order` lists each index below `n` exactly once.
pub open spec fn is_index_permutation(order: Seq<usize>, n: nat) -> bool {
    &&& order.len() == n
    &&& forall|i: int| 0 <= i < n ==> #[trigger] order[i] < n
    &&& order.no_duplicates()
}

/// Each index occurs at most once in `0..n`.
proof fn lemma_identity_counts(n: nat, x: usize)
    requires
        n <= usize::MAX,
    ensures
        identity_order(n).to_multiset().count(x) <= 1,
        x >= n ==> identity_order(n).to_multiset().count(x) == 0,
    decreases n,
{
    broadcast use vstd::seq_lib::group_to_multiset_ensures;
    if n > 0 {
        let prev = identity_order((n - 1) as nat);
        lemma_identity_counts((n - 1) as nat, x);
        lemma_identity_counts((n - 1) as nat, (n - 1) as usize);
        let last = (n - 1) as usize;
        assert(identity_order(n) =~= prev.push(last));
        assert(prev.push(last).to_multiset() =~= prev.to_multiset().insert(last));
        assert(identity_order(n).to_multiset().count(x) == prev.to_multiset().count(x) + if x == last {
            1int
        } else {
            0int
        });
    } else {
        assert(identity_order(0) =~= Seq::<usize>::empty());
    }
}

/// A sequence in which every value occurs at most once has no duplicates.
proof fn lemma_counts_no_duplicates(s: Seq<usize>)
    requires
        forall|x: usize| s.to_multiset().count(x) <= 1,
    ensures
        s.no_duplicates(),
{
    broadcast use vstd::seq_lib::group_to_multiset_ensures;
    assert forall|i: int, j: int| 0 <= i < s.len() && 0 <= j < s.len() && i != j implies s[i] != s[j] by {
        if s[i] == s[j] {
            let rest = s.remove(i);
            let k = if j < i { j } else { j - 1 };
            assert(rest[k] == s[j]);
            assert(rest.contains(s[i]));
            assert(rest.to_multiset().count(s[i]) > 0);
            assert(rest.to_multiset() =~= s.to_multiset().remove(s[i]));
        }
    }
}

/// `s` rearranged by `order`: position `i` receives `s[order[i]]`.
pub open spec fn permuted(s: Seq<Card>, order: Seq<usize>) -> Seq<Card> {
    Seq::new(order.len(), |i: int| s[order[i] as int])
}

/// Rearranging by a permutation of the indices keeps every card, as often as
/// it occurred.
pub proof fn lemma_permuted_same_cards(s: Seq<Card>, order: Seq<usize>)
    requires
        is_index_permutation(order, s.len()),
    ensures
        permuted(s, order).to_multiset() == s.to_multiset(),
    decreases s.len(),
{
    broadcast use vstd::seq_lib::group_to_multiset_ensures;
    let n = s.len();
    if n == 0 {
        assert(permuted(s, order) =~= Seq::<Card>::empty());
        assert(s =~= Seq::<Card>::empty());
    } else {
        let k = order[n - 1] as int;
        let rest = s.remove(k);
        let shrink = |v: usize| if (v as int) > k { (v - 1) as usize } else { v };
        let order2 = Seq::new((n - 1) as nat, |i: int| shrink(order[i]));
        assert forall|i: int| 0 <= i < n - 1 implies #[trigger] order2[i] < n - 1 by {
            assert(order[i] != order[n - 1]);
        }
        assert forall|i: int, j: int| 0 <= i < n - 1 && 0 <= j < n - 1 && i != j implies order2[i] != order2[j] by {
            assert(order[i] != order[j]);
            assert(order[i] != order[n - 1]);
            assert(order[j] != order[n - 1]);
        }
        assert(order2.no_duplicates());
        lemma_permuted_same_cards(rest, order2);
        assert forall|i: int| 0 <= i < n - 1 implies #[trigger] permuted(rest, order2)[i] == permuted(s, order)[i] by {
            assert(order[i] != order[n - 1]);
        }
        assert(permuted(s, order) =~= permuted(rest, order2).push(s[k]));
        assert(rest.to_multiset() =~= s.to_multiset().remove(s[k]));
        assert(s.contains(s[k]));
    }
}

/// The permutation of `0..n` that the seed selects.
pub fn shuffled_indices(n: usize, seed: [u8; 32]) -> (order: Vec<usize>)
    ensures
        order@ == shuffle_order(n as nat, seed@),
        order@.len() == n,
        forall|i: int| 0 <= i < n ==> #[trigger] order@[i] < n,
        is_index_permutation(order@, n as nat),
{
    let mut order: Vec<usize> = Vec::with_capacity(n);
    let mut i: usize = 0;
    while i < n
        invariant
            i <= n,
            order@ =~= identity_order(i as nat),
        decreases n - i,
    {
        order.push(i);
        i = i + 1;
    }
    let ghost before = order@;
    shuffle_with_seed(&mut order, seed);
    proof {
        broadcast use vstd::seq_lib::group_to_multiset_ensures;
        assert(order@.to_multiset().len() == before.to_multiset().len());
        assert(order@.len() == before.len());
        assert forall|i: int| 0 <= i < n implies #[trigger] order@[i] < n by {
            assert(order@.contains(order@[i]));
            assert(order@.to_multiset().count(order@[i]) > 0);
            assert(before.contains(order@[i]));
        }
        assert forall|x: usize| order@.to_multiset().count(x) <= 1 by {
            lemma_identity_counts(n as nat, x);
        }
        lemma_counts_no_duplicates(order@);
    }
    order
}

/// Rearranges the cards by the permutation that `seed_hash` selects: each
/// position of the old deck is used exactly once.
pub fn fisher_yates_shuffle(deck: &mut Vec<Card>, seed_hash: [u8; 32])
    ensures
        final(deck)@ == shuffled(old(deck)@, seed_hash@),
        is_index_permutation(shuffle_order(old(deck)@.len(), seed_hash@), old(deck)@.len()),
        final(deck)@.to_multiset() == old(deck)@.to_multiset(),
{
    let n = deck.len();
    let order = shuffled_indices(n, seed_hash);
    let mut out: Vec<Card> = Vec::with_capacity(n);
    let mut i: usize = 0;
    while i < n
        invariant
            n == deck@.len(),
            order@ == shuffle_order(n as nat, seed_hash@),
            order@.len() == n,
            forall|k: int| 0 <= k < n ==> #[trigger] order@[k] < n,
            i <= n,
            out@ =~= Seq::new(i as nat, |k: int| deck@[order@[k] as int]),
        decreases n - i,
    {
        let j = order[i];
        out.push(deck[j]);
        i = i + 1;
    }
    proof {
        assert(out@ =~= permuted(deck@, order@));
        lemma_permuted_same_cards(deck@, order@);
    }
    *deck = out;
}

/// Appends `x` little-endian in `n` bytes.
fn push_le_bytes(out: &mut Vec<u8>, x: u64, n: usize)
    requires
        n <= 8,
    ensures
        final(out)@ == old(out)@ + le_bytes(x as nat, n as nat),
{
    let mut cur: u64 = x;
    let mut k: usize = 0;
    while k < n
        invariant
            k <= n,
            out@ + le_bytes(cur as nat, (n - k) as nat) =~= old(out)@ + le_bytes(x as nat, n as nat),
        decreases n - k,
    {
        proof {
            let m = (n - k) as nat;
            assert(le_bytes(cur as nat, m) == seq![(cur as nat % 256) as u8] + le_bytes(
                cur as nat / 256,
                (m - 1) as nat,
            ));
            assert(out@ + le_bytes(cur as nat, m) =~= out@.push((cur % 256) as u8) + le_bytes(
                (cur / 256) as nat,
                (m - 1) as nat,
            ));
        }
        out.push((cur % 256) as u8);
        cur = cur / 256;
        k = k + 1;
    }
}

/// Seed for a shuffle: the SHA-256 digest of the slot, the timestamp, the
/// requester's key and a nonce.
pub fn generate_shuffle_seed_hash(slot: u64, timestamp: i64, dealer_pubkey: &Pubkey, nonce: u64) -> (r: [u8; 32])
    ensures
        r@ == sha256_of(seed_material(slot, timestamp, *dealer_pubkey, nonce)),
{
    let mut data: Vec<u8> = Vec::with_capacity(56);
    push_le_bytes(&mut data, slot, 8);
    push_le_bytes(&mut data, timestamp as u64, 8);
    let mut i: usize = 0;
    let ghost start = data@;
    while i < 32
        invariant
            i <= 32,
            dealer_pubkey.bytes@.len() == 32,
            data@ =~= start + dealer_pubkey.bytes@.subrange(0, i as int),
        decreases 32 - i,
    {
        data.push(dealer_pubkey.bytes[i]);
        i = i + 1;
    }
    push_le_bytes(&mut data, nonce, 8);
    proof {
        assert(dealer_pubkey.bytes@.subrange(0, 32) =~= dealer_pubkey.bytes@);
        assert(data@ =~= seed_material(slot, timestamp, *dealer_pubkey, nonce));
    }
    sha256(&data)
}

} // verus!
