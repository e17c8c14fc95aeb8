use vstd::prelude::*;
use crate::text::{append_char, signed_decimal, signed_decimal_of};
use moka::sync::Cache as Store;
use vstd::string::StringSliceAdditionalSpecFns;
use vstd::string::StrSliceExecFns;

verus! {

#[verifier::external_type_specification]
#[verifier::external_body]
#[verifier::reject_recursive_types(K)]
#[verifier::reject_recursive_types(V)]
#[verifier::reject_recursive_types(S)]
pub struct ExStore<K, V, S>(Store<K, V, S>);

/// The SHA-256 digest of a byte string.
pub uninterp spec fn sha256_of(data: Seq<u8>) -> Seq<u8>;

/// Relies on `sha2::Sha256::digest` (through `Digest`): the 256-bit digest
/// of the input, 32 bytes.
#[verifier::external_body]
fn sha256(data: &Vec<u8>) -> (r: Vec<u8>)
    ensures
        r@ == sha256_of(data@),
        r@.len() == 32,
{
    <sha2::Sha256 as sha2::Digest>::digest(data.as_slice()).to_vec()
}

/// The longest time to live that moka accepts: a thousand years.
pub const MAX_TTL_SECONDS: u64 = 1000 * 365 * 24 * 3600;

/// The value last inserted under each key of a store. An entry that has
/// expired or was evicted for capacity is no longer returned, but no other
/// value takes its place.
/// The store of answers: fingerprint to (content, model).
pub type AnswerStore = Store<String, (String, String)>;

pub uninterp spec fn last_inserted(s: AnswerStore) -> Map<Seq<char>, (Seq<char>, Seq<char>)>;

/// Relies on moka's `sync::Cache::builder`, `time_to_live`, `max_capacity`
/// and `build`: an empty cache whose entries expire `ttl_seconds` after
/// insertion. `build` panics on a time to live beyond a thousand years.
#[verifier::external_body]
fn build_store(ttl_seconds: u64, max_capacity: u64) -> (r: AnswerStore)
    requires
        ttl_seconds <= MAX_TTL_SECONDS,
    ensures
        forall|k: Seq<char>| !#[trigger] last_inserted(r).contains_key(k),
{
    Store::builder()
        .time_to_live(std::time::Duration::from_secs(ttl_seconds))
        .max_capacity(max_capacity)
        .build()
}

/// Relies on moka's `sync::Cache::get`: a clone of the value stored under
/// the key, if it has not expired or been evicted. Whether it is still
/// there depends on the clock and on eviction, so a hit is all that is
/// promised about.
#[verifier::external_body]
fn store_get(store: &AnswerStore, key: &String) -> (r: Option<(String, String)>)
    ensures
        r matches Some(v) ==> last_inserted(*store).contains_key(key@)
            && last_inserted(*store)[key@] == (v.0@, v.1@),
{
    store.get(key)
}

/// Relies on moka's `sync::Cache::insert`: the value replaces any earlier
/// one under the key.
#[verifier::external_body]
fn store_insert(store: &mut AnswerStore, key: String, value: (String, String))
    ensures
        last_inserted(*final(store)) == last_inserted(*old(store)).insert(key@, (value.0@, value.1@)),
{
    store.insert(key, value)
}

/// A memoized answer: its content and the backend that gave it.
pub struct CachedResponse {
    pub content: String,
    pub model: String,
}

/// The bytes that are hashed into a fingerprint: the task, the prompt, and
/// the decimal text of the token budget, one after the other.
pub open spec fn fingerprint_input(task: Seq<u8>, prompt: Seq<u8>, max_tokens: i32) -> Seq<u8> {
    task + prompt + signed_decimal(max_tokens as int).map_values(|c: char| c as u8)
}

pub open spec fn hex_digit(d: nat) -> char {
    if d < 10 { ((d + 48) as u8) as char } else { ((d + 87) as u8) as char }
}

/// Lower-case hexadecimal text of a byte string, two digits per byte.
pub open spec fn hex(bs: Seq<u8>) -> Seq<char>
    decreases bs.len(),
{
    if bs.len() == 0 {
        Seq::empty()
    } else {
        hex(bs.drop_last()).push(hex_digit(bs.last() as nat / 16)).push(hex_digit(bs.last() as nat % 16))
    }
}

/// The cache key of a request.
pub open spec fn fingerprint(task: Seq<u8>, prompt: Seq<u8>, max_tokens: i32) -> Seq<char> {
    hex(sha256_of(fingerprint_input(task, prompt, max_tokens)))
}

/// The bytes hashed into the fingerprint of (task, prompt, max_tokens).
pub fn key_input(task: &str, prompt: &str, max_tokens: i32) -> (r: Vec<u8>)
    ensures
        r@ == fingerprint_input(task.spec_bytes(), prompt.spec_bytes(), max_tokens),
{
    let mut r = task.as_bytes_vec();
    let mut p = prompt.as_bytes_vec();
    r.append(&mut p);
    let ds = signed_decimal_of(max_tokens);
    let ghost start = r@;
    let mut i: usize = 0;
    while i < ds.len()
        invariant
            i <= ds@.len(),
            start == task.spec_bytes() + prompt.spec_bytes(),
            r@ == start + ds@.subrange(0, i as int).map_values(|c: char| c as u8),
        decreases ds@.len() - i,
    {
        r.push(ds[i] as u8);
        assert(ds@.subrange(0, i + 1).map_values(|c: char| c as u8)
            =~= ds@.subrange(0, i as int).map_values(|c: char| c as u8).push(ds@[i as int] as u8));
        i = i + 1;
    }
    assert(ds@.subrange(0, i as int) =~= ds@);
    r
}

fn hex_char(d: u8) -> (r: char)
    requires
        d < 16,
    ensures
        r == hex_digit(d as nat),
{
    if d < 10 { (d + 48) as char } else { (d + 87) as char }
}

/// Lower-case hexadecimal text of a digest.
pub fn hex_key(digest: &Vec<u8>) -> (r: String)
    ensures
        r@ == hex(digest@),
{
    let mut r = String::new();
    let mut i: usize = 0;
    while i < digest.len()
        invariant
            i <= digest@.len(),
            r@ == hex(digest@.subrange(0, i as int)),
        decreases digest@.len() - i,
    {
        assert(digest@.subrange(0, i + 1).drop_last() =~= digest@.subrange(0, i as int));
        let b = digest[i];
        append_char(&mut r, hex_char(b / 16));
        append_char(&mut r, hex_char(b % 16));
        i = i + 1;
    }
    assert(digest@.subrange(0, i as int) =~= digest@);
    r
}

proof fn lemma_hex_len(bs: Seq<u8>)
    ensures
        hex(bs).len() == 2 * bs.len(),
    decreases bs.len(),
{
    if bs.len() > 0 {
        lemma_hex_len(bs.drop_last());
    }
}

/// The cache key of (task, prompt, max_tokens): 64 hexadecimal digits.
pub fn make_key(task: &str, prompt: &str, max_tokens: i32) -> (r: String)
    ensures
        r@ == fingerprint(task.spec_bytes(), prompt.spec_bytes(), max_tokens),
        r@.len() == 64,
{
    let input = key_input(task, prompt, max_tokens);
    let digest = sha256(&input);
    proof {
        lemma_hex_len(digest@);
    }
    hex_key(&digest)
}

/// Fingerprint-keyed memo of answers, bounded in entries and in age.
pub struct Cache {
    store: AnswerStore,
}

impl Cache {
    /// The answer last stored under each fingerprint, as (content, model).
    pub closed spec fn entries(&self) -> Map<Seq<char>, (Seq<char>, Seq<char>)> {
        last_inserted(self.store)
    }

    /// An empty cache whose entries live `ttl_seconds` and which holds at
    /// most about `max_capacity` of them.
    pub fn new(ttl_seconds: u64, max_capacity: u64) -> (r: Cache)
        requires
            ttl_seconds <= MAX_TTL_SECONDS,
        ensures
            forall|k: Seq<char>| !#[trigger] r.entries().contains_key(k),
    {
        Cache { store: build_store(ttl_seconds, max_capacity) }
    }

    /// The answer stored under the fingerprint of the request, if it has
    /// not expired or been evicted: always the one stored last.
    pub fn get(&self, task: &str, prompt: &str, max_tokens: i32) -> (r: Option<CachedResponse>)
        ensures
            r matches Some(c) ==> self.entries().contains_key(fingerprint(task.spec_bytes(), prompt.spec_bytes(), max_tokens))
                && self.entries()[fingerprint(task.spec_bytes(), prompt.spec_bytes(), max_tokens)]
                    == (c.content@, c.model@),
    {
        let key = make_key(task, prompt, max_tokens);
        match store_get(&self.store, &key) {
            Some((content, model)) => Some(CachedResponse { content, model }),
            None => None,
        }
    }

    /// Stores an answer under the fingerprint of the request; it replaces
    /// any earlier one under the same fingerprint.
    pub fn set(&mut self, task: &str, prompt: &str, max_tokens: i32, content: &str, model: &str)
        ensures
            final(self).entries() == old(self).entries().insert(
                fingerprint(task.spec_bytes(), prompt.spec_bytes(), max_tokens),
                (content@, model@),
            ),
    {
        let key = make_key(task, prompt, max_tokens);
        store_insert(&mut self.store, key, (content.to_string(), model.to_string()));
    }
}

} // verus!
