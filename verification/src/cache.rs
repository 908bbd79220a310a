//! Cache keys and the cache-aside read path.

use crate::text::{digit_text, hex_digit};
use vstd::prelude::*;

verus! {

/// The value that the standard library's default hasher gives for a string.
///
/// The hasher is created without a seed, so with one version of the
/// standard library the value depends on the text alone.
pub uninterp spec fn default_hash(text: Seq<char>) -> u64;

/// Hashes `text` with `std::hash::BuildHasher::hash_one` on an unseeded
/// `DefaultHasher`. Nothing is proved of the hash itself: the contract only
/// gives the result its name, `default_hash`.
#[verifier::external_body]
fn hash_text(text: &str) -> (h: u64)
    ensures
        h == default_hash(text@),
{
    std::hash::BuildHasher::hash_one(
        &std::hash::BuildHasherDefault::<std::collections::hash_map::DefaultHasher>::default(),
        text,
    )
}

/// The digits of `n` in base sixteen, most significant first, without
/// leading zeros; zero is written as a single `0`.
pub open spec fn hex_digits(n: nat) -> Seq<char>
    decreases n,
{
    if n < 16 {
        seq![hex_digit(n)]
    } else {
        hex_digits(n / 16).push(hex_digit(n % 16))
    }
}

/// The key under which a value is cached: the prefix, a colon, and the hash
/// of the parameters in lower-case hexadecimal.
pub open spec fn cache_key(prefix: Seq<char>, hash: u64) -> Seq<char> {
    prefix.push(':') + hex_digits(hash as nat)
}

/// Writes `n` in lower-case hexadecimal.
pub fn to_lower_hex(n: u64) -> (s: String)
    ensures
        s@ == hex_digits(n as nat),
    decreases n,
{
    if n < 16 {
        digit_text(n as u8).to_owned()
    } else {
        let mut out = to_lower_hex(n / 16);
        out.append(digit_text((n % 16) as u8));
        assert(out@ =~= hex_digits((n / 16) as nat).push(hex_digit((n % 16) as nat)));
        out
    }
}

/// Joins a prefix and an already computed parameter hash into a cache key.
pub fn key_from_hash(key_prefix: &str, hash: u64) -> (key: String)
    ensures
        key@ == cache_key(key_prefix@, hash),
{
    let mut key = key_prefix.to_owned();
    key.append(":");
    let digits = to_lower_hex(hash);
    key.append(digits.as_str());
    proof {
        reveal_strlit(":");
        assert(":"@ =~= seq![':']);
        assert(key@ =~= key_prefix@.push(':') + hex_digits(hash as nat));
    }
    key
}

/// Builds the cache key for a query from its prefix and its parameters in
/// serialized form. The key depends on the two texts alone, so equal
/// parameters always name the same cache entry.
pub fn build_param_cache_key(key_prefix: &str, params_json: &str) -> (key: String)
    ensures
        key@ == cache_key(key_prefix@, default_hash(params_json@)),
{
    key_from_hash(key_prefix, hash_text(params_json))
}

/// Every key begins with its prefix followed by a colon, and keys built from
/// the same prefix and the same serialized parameters are equal.
pub proof fn lemma_cache_key_stable(prefix: Seq<char>, params_json: Seq<char>, other_json: Seq<char>)
    ensures
        cache_key(prefix, default_hash(params_json)).len() > prefix.len(),
        cache_key(prefix, default_hash(params_json)).subrange(0, prefix.len() as int + 1) == prefix.push(':'),
        params_json == other_json ==> cache_key(prefix, default_hash(params_json)) == cache_key(
            prefix,
            default_hash(other_json),
        ),
{
    let key = cache_key(prefix, default_hash(params_json));
    assert(key.subrange(0, prefix.len() as int + 1) =~= prefix.push(':'));
}

/// Why a cached read failed.
#[derive(Debug, Clone)]
pub enum CacheFailure {
    /// The cache could not be read. This is not treated as a miss.
    Read { message: String },
    /// The cache held nothing and the producer failed.
    Producer { message: String },
}

/// What a cached read returns, given what the cache lookup returned and
/// what the producer returned if it was asked: the cached value on a hit,
/// the produced value on a miss, the failure of whichever of the two
/// failed. What the write to the cache returned plays no part.
pub open spec fn cached_result<V>(
    lookup: Result<Option<V>, String>,
    produced: Result<V, String>,
) -> Result<V, CacheFailure> {
    match lookup {
        Err(message) => Err(CacheFailure::Read { message }),
        Ok(Some(value)) => Ok(value),
        Ok(None) => match produced {
            Ok(value) => Ok(value),
            Err(message) => Err(CacheFailure::Producer { message }),
        },
    }
}

/// Reads through a cache: returns the cached value if there is one,
/// otherwise computes the value with `query_fn`, tries to write it to the
/// cache with the given time to live, and returns it whether or not the
/// write succeeded.
///
/// `query_fn` is called only after a miss, and `set` only with the value
/// that `query_fn` produced.
pub fn cached_query<V, G, S, F>(get: G, set: S, key: &String, ttl: usize, query_fn: F) -> (result:
    Result<V, CacheFailure>) where
    G: FnOnce(&String) -> Result<Option<V>, String>,
    S: FnOnce(&String, &V, usize) -> Result<(), String>,
    F: FnOnce() -> Result<V, String>,

    requires
        call_requires(get, (key,)),
        forall|lookup: Result<Option<V>, String>|
            call_ensures(get, (key,), lookup) && lookup == Ok::<Option<V>, String>(None)
                ==> call_requires(query_fn, ()),
        forall|produced: Result<V, String>|
            #![trigger call_ensures(query_fn, (), produced)]
            call_ensures(query_fn, (), produced) && produced is Ok ==> call_requires(
                set,
                (key, &produced->Ok_0, ttl),
            ),
    ensures
        exists|lookup: Result<Option<V>, String>|
            {
                &&& #[trigger] call_ensures(get, (key,), lookup)
                &&& match lookup {
                    Ok(None) => exists|produced: Result<V, String>|
                        #[trigger] call_ensures(query_fn, (), produced) && result == cached_result(
                            lookup,
                            produced,
                        ),
                    _ => forall|produced: Result<V, String>|
                        result == #[trigger] cached_result(lookup, produced),
                }
            },
{
    let lookup = get(key);
    match lookup {
        Err(message) => {
            let result = Err(CacheFailure::Read { message });
            assert(call_ensures(get, (key,), lookup));
            result
        },
        Ok(Some(value)) => {
            assert(call_ensures(get, (key,), lookup));
            Ok(value)
        },
        Ok(None) => {
            let produced = query_fn();
            let ghost witness = produced;
            let result = match produced {
                Ok(value) => {
                    let _ = set(key, &value, ttl);
                    Ok(value)
                },
                Err(message) => Err(CacheFailure::Producer { message }),
            };
            assert(call_ensures(get, (key,), lookup));
            assert(call_ensures(query_fn, (), witness));
            assert(result == cached_result(lookup, witness));
            result
        },
    }
}

/// Reads through a cache under the key built from `key_prefix` and the
/// serialized parameters.
pub fn cached_query_with_params<V, G, S, F>(
    get: G,
    set: S,
    key_prefix: &str,
    params_json: &str,
    ttl: usize,
    query_fn: F,
) -> (result: Result<V, CacheFailure>) where
    G: FnOnce(&String) -> Result<Option<V>, String>,
    S: FnOnce(&String, &V, usize) -> Result<(), String>,
    F: FnOnce() -> Result<V, String>,

    requires
        forall|key: String| #[trigger] call_requires(get, (&key,)),
        call_requires(query_fn, ()),
        forall|key: String, value: V| #[trigger] call_requires(set, (&key, &value, ttl)),
    ensures
        exists|key: String, lookup: Result<Option<V>, String>|
            {
                &&& key@ == cache_key(key_prefix@, default_hash(params_json@))
                &&& #[trigger] call_ensures(get, (&key,), lookup)
                &&& match lookup {
                    Ok(None) => exists|produced: Result<V, String>|
                        #[trigger] call_ensures(query_fn, (), produced) && result == cached_result(
                            lookup,
                            produced,
                        ),
                    _ => forall|produced: Result<V, String>|
                        result == #[trigger] cached_result(lookup, produced),
                }
            },
{
    let key = build_param_cache_key(key_prefix, params_json);
    cached_query(get, set, &key, ttl, query_fn)
}

/// Where a cached read stands when the cache and the producer are outside
/// the process: what it waits for.
#[derive(Debug, Clone)]
pub enum FetchState<V> {
    AwaitingLookup,
    AwaitingProducer,
    AwaitingStore { value: V },
    Finished,
}

/// What the outside reports back to a cached read.
#[derive(Debug, Clone)]
pub enum FetchEvent<V> {
    Hit { value: V },
    Miss,
    ReadFailed { message: String },
    Produced { value: V },
    ProducerFailed { message: String },
    Stored,
    StoreFailed { message: String },
}

/// What a cached read asks the outside to do next, or how it ends.
#[derive(Debug, Clone)]
pub enum FetchAction<V> {
    /// Compute the value.
    RunProducer,
    /// Write the value that the state holds to the cache.
    StoreValue,
    /// Hand the value to the caller. `write_error` holds the error of a
    /// failed write to the cache, to be logged and not passed on.
    Return { value: V, write_error: Option<String> },
    /// Hand the failure to the caller.
    Fail { failure: CacheFailure },
}

/// The transition of a cached read: the state and the action that follow
/// from a state and an event, or nothing where the state does not await the
/// event.
pub open spec fn next_fetch<V>(state: FetchState<V>, event: FetchEvent<V>) -> Option<
    (FetchState<V>, FetchAction<V>),
> {
    match (state, event) {
        (FetchState::AwaitingLookup, FetchEvent::Hit { value }) => Some(
            (FetchState::Finished, FetchAction::Return { value, write_error: None }),
        ),
        (FetchState::AwaitingLookup, FetchEvent::Miss) => Some(
            (FetchState::AwaitingProducer, FetchAction::RunProducer),
        ),
        (FetchState::AwaitingLookup, FetchEvent::ReadFailed { message }) => Some(
            (FetchState::Finished, FetchAction::Fail { failure: CacheFailure::Read { message } }),
        ),
        (FetchState::AwaitingProducer, FetchEvent::Produced { value }) => Some(
            (FetchState::AwaitingStore { value }, FetchAction::StoreValue),
        ),
        (FetchState::AwaitingProducer, FetchEvent::ProducerFailed { message }) => Some(
            (
                FetchState::Finished,
                FetchAction::Fail { failure: CacheFailure::Producer { message } },
            ),
        ),
        (FetchState::AwaitingStore { value }, FetchEvent::Stored) => Some(
            (FetchState::Finished, FetchAction::Return { value, write_error: None }),
        ),
        (FetchState::AwaitingStore { value }, FetchEvent::StoreFailed { message }) => Some(
            (FetchState::Finished, FetchAction::Return { value, write_error: Some(message) }),
        ),
        _ => None,
    }
}

/// A failed write to the cache does not fail the read: after a miss and a
/// produced value, the read returns that value whether the write succeeded
/// or failed.
pub proof fn lemma_store_failure_is_swallowed<V>(value: V, message: String)
    ensures
        next_fetch(FetchState::<V>::AwaitingLookup, FetchEvent::Miss) == Some(
            (FetchState::<V>::AwaitingProducer, FetchAction::<V>::RunProducer),
        ),
        next_fetch(FetchState::<V>::AwaitingProducer, FetchEvent::Produced { value }) == Some(
            (FetchState::AwaitingStore { value }, FetchAction::<V>::StoreValue),
        ),
        next_fetch(FetchState::AwaitingStore { value }, FetchEvent::StoreFailed { message })
            == Some(
            (
                FetchState::<V>::Finished,
                FetchAction::Return { value, write_error: Some(message) },
            ),
        ),
        next_fetch(FetchState::AwaitingStore { value }, FetchEvent::<V>::Stored) == Some(
            (FetchState::<V>::Finished, FetchAction::Return { value, write_error: None }),
        ),
{
}

/// The producer is asked only in answer to a miss, and a failed lookup is
/// passed on to the caller instead of being taken for a miss.
pub proof fn lemma_producer_runs_only_after_miss<V>(state: FetchState<V>, event: FetchEvent<V>)
    ensures
        match next_fetch(state, event) {
            Some((_, FetchAction::RunProducer)) => state is AwaitingLookup && event is Miss,
            _ => true,
        },
        state is AwaitingLookup && event is ReadFailed ==> match next_fetch(state, event) {
            Some((FetchState::Finished, FetchAction::Fail { failure })) => failure is Read,
            _ => false,
        },
{
}

/// Advances a cached read by one event.
pub fn advance_fetch<V>(state: FetchState<V>, event: FetchEvent<V>) -> (step: Option<
    (FetchState<V>, FetchAction<V>),
>)
    ensures
        step == next_fetch(state, event),
{
    match state {
        FetchState::AwaitingLookup => match event {
            FetchEvent::Hit { value } => Some(
                (FetchState::Finished, FetchAction::Return { value, write_error: None }),
            ),
            FetchEvent::Miss => Some((FetchState::AwaitingProducer, FetchAction::RunProducer)),
            FetchEvent::ReadFailed { message } => Some(
                (
                    FetchState::Finished,
                    FetchAction::Fail { failure: CacheFailure::Read { message } },
                ),
            ),
            _ => None,
        },
        FetchState::AwaitingProducer => match event {
            FetchEvent::Produced { value } => Some(
                (FetchState::AwaitingStore { value }, FetchAction::StoreValue),
            ),
            FetchEvent::ProducerFailed { message } => Some(
                (
                    FetchState::Finished,
                    FetchAction::Fail { failure: CacheFailure::Producer { message } },
                ),
            ),
            _ => None,
        },
        FetchState::AwaitingStore { value } => match event {
            FetchEvent::Stored => Some(
                (FetchState::Finished, FetchAction::Return { value, write_error: None }),
            ),
            FetchEvent::StoreFailed { message } => Some(
                (FetchState::Finished, FetchAction::Return { value, write_error: Some(message) }),
            ),
            _ => None,
        },
        FetchState::Finished => None,
    }
}

} // verus!
