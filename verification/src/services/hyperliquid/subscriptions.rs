//! The set of subscriptions that the feed is to carry.

use crate::text::same_text;
use vstd::prelude::*;
use vstd::string::StringExecFns;

verus! {

/// What identifies a subscription: a channel, a symbol and an interval.
#[derive(Clone, Debug, PartialEq, Eq, Hash)]
pub struct SubscriptionKey {
    pub channel: String,
    pub coin: String,
    pub interval: String,
}

/// A subscription key as plain text.
pub struct KeyModel {
    pub channel: Seq<char>,
    pub coin: Seq<char>,
    pub interval: Seq<char>,
}

impl View for SubscriptionKey {
    type V = KeyModel;

    open spec fn view(&self) -> KeyModel {
        KeyModel { channel: self.channel@, coin: self.coin@, interval: self.interval@ }
    }
}

/// The keys of a list as plain text, in order.
pub open spec fn key_models(keys: Seq<SubscriptionKey>) -> Seq<KeyModel> {
    Seq::new(keys.len(), |i: int| keys[i]@)
}

/// Whether no key occurs twice in a list.
pub open spec fn keys_distinct(keys: Seq<KeyModel>) -> bool {
    forall|i: int, j: int| 0 <= i < j < keys.len() ==> keys[i] != keys[j]
}

/// A set of keys with one more: unchanged where it holds the key already,
/// else with the key at the end.
pub open spec fn with_key(keys: Seq<KeyModel>, key: KeyModel) -> Seq<KeyModel> {
    if keys.contains(key) {
        keys
    } else {
        keys.push(key)
    }
}

impl SubscriptionKey {
    /// The key of the candle channel for a symbol and an interval.
    pub fn candle(coin: &str, interval: &str) -> (r: SubscriptionKey)
        ensures
            r@ == (KeyModel { channel: "candle"@, coin: coin@, interval: interval@ }),
    {
        SubscriptionKey {
            channel: String::from_str("candle"),
            coin: String::from_str(coin),
            interval: String::from_str(interval),
        }
    }

    /// Whether two keys are the same.
    pub fn same(&self, other: &SubscriptionKey) -> (r: bool)
        ensures
            r == (self@ == other@),
    {
        same_text(self.channel.as_str(), other.channel.as_str()) && same_text(
            self.coin.as_str(),
            other.coin.as_str(),
        ) && same_text(self.interval.as_str(), other.interval.as_str())
    }

    /// A copy of the key.
    pub fn duplicate(&self) -> (r: SubscriptionKey)
        ensures
            r@ == self@,
    {
        SubscriptionKey {
            channel: self.channel.clone(),
            coin: self.coin.clone(),
            interval: self.interval.clone(),
        }
    }
}

/// The set of subscription keys, in the order in which they were added. No
/// key occurs twice, and no key ever leaves.
pub struct SubscriptionManager {
    keys: Vec<SubscriptionKey>,
}

impl View for SubscriptionManager {
    type V = Seq<KeyModel>;

    closed spec fn view(&self) -> Seq<KeyModel> {
        key_models(self.keys@)
    }
}

impl SubscriptionManager {
    #[verifier::type_invariant]
    spec fn well_formed(self) -> bool {
        keys_distinct(key_models(self.keys@))
    }

    /// The empty set.
    pub fn new() -> (r: SubscriptionManager)
        ensures
            r@ == Seq::<KeyModel>::empty(),
    {
        let r = SubscriptionManager { keys: Vec::new() };
        assert(r@ =~= Seq::<KeyModel>::empty());
        r
    }

    /// The number of keys.
    pub fn len(&self) -> (r: usize)
        ensures
            r == self@.len(),
    {
        self.keys.len()
    }

    /// Whether the set holds a key.
    pub fn contains(&self, key: &SubscriptionKey) -> (r: bool)
        ensures
            r == self@.contains(key@),
    {
        let mut i: usize = 0;
        while i < self.keys.len()
            invariant
                i <= self.keys.len(),
                forall|j: int| 0 <= j < i ==> (#[trigger] self@[j]) != key@,
            decreases self.keys.len() - i,
        {
            if self.keys[i].same(key) {
                assert(self@[i as int] == key@);
                return true;
            }
            i = i + 1;
        }
        false
    }

    /// Adds a key. Returns whether the key is new to the set.
    pub fn add(&mut self, key: SubscriptionKey) -> (r: bool)
        ensures
            r == !old(self)@.contains(key@),
            final(self)@ == with_key(old(self)@, key@),
            keys_distinct(final(self)@),
    {
        proof {
            use_type_invariant(&*self);
        }
        if self.contains(&key) {
            false
        } else {
            let ghost before = self@;
            let ghost added = self.keys@.push(key);
            assert(key_models(added) =~= before.push(key@));
            assert(keys_distinct(before.push(key@))) by {
                assert forall|i: int, j: int| 0 <= i < j < before.len() + 1 implies before.push(
                    key@,
                )[i] != before.push(key@)[j] by {
                    if j == before.len() {
                        assert(before.contains(before[i]));
                    }
                }
            }
            let mut keys: Vec<SubscriptionKey> = Vec::new();
            assert(key_models(keys@) =~= Seq::<KeyModel>::empty());
            core::mem::swap(&mut self.keys, &mut keys);
            keys.push(key);
            self.keys = keys;
            true
        }
    }

    /// The keys of the set, in the order in which they were added.
    pub fn keys(&self) -> (r: Vec<SubscriptionKey>)
        ensures
            key_models(r@) == self@,
            keys_distinct(self@),
    {
        proof {
            use_type_invariant(self);
        }
        let mut out: Vec<SubscriptionKey> = Vec::new();
        let mut i: usize = 0;
        while i < self.keys.len()
            invariant
                i <= self.keys.len(),
                out@.len() == i,
                self@.len() == self.keys@.len(),
                key_models(out@) == self@.take(i as int),
            decreases self.keys.len() - i,
        {
            let ghost before = out@;
            out.push(self.keys[i].duplicate());
            assert forall|j: int| 0 <= j < i + 1 implies key_models(out@)[j] == self@.take(
                i as int + 1,
            )[j] by {
                if j < i {
                    assert(key_models(before)[j] == self@.take(i as int)[j]);
                    assert(out@[j] == before[j]);
                }
            }
            assert(key_models(out@) =~= self@.take(i as int + 1));
            i = i + 1;
        }
        assert(self@.take(i as int) =~= self@);
        out
    }
}

/// A key that was added to a set is in it, and so is every key that was in it
/// before.
pub proof fn lemma_with_key_keeps(keys: Seq<KeyModel>, key: KeyModel)
    ensures
        with_key(keys, key).contains(key),
        forall|k: KeyModel| keys.contains(k) ==> with_key(keys, key).contains(k),
{
    if !keys.contains(key) {
        let out = keys.push(key);
        assert(out[keys.len() as int] == key);
        assert forall|k: KeyModel| keys.contains(k) implies out.contains(k) by {
            let i = choose|i: int| 0 <= i < keys.len() && keys[i] == k;
            assert(out[i] == k);
        }
    }
}

} // verus!
