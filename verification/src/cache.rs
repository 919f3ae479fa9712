//! The content-addressed result cache: a cache-aside layer over a TTL
//! key-value store.
//!
//! The key is deterministic — the language tag plus the SHA-256 digest of
//! the source — so identical submissions map to identical keys. Entries
//! carry an absolute expiry set at write time; a lookup at or past the
//! expiry is a miss, exactly as if the backing store had swept the entry.

use vstd::prelude::*;
use crate::lang::LanguageId;
use crate::model::{opt_view, ExecutionResult};

verus! {

/// The lower-case hex SHA-256 digest of the UTF-8 bytes of `s`.
pub uninterp spec fn sha256_hex_of(s: Seq<char>) -> Seq<char>;

/// Relies on `sha256::digest`: the digest of the string's UTF-8 bytes as 64
/// lower-case hex characters, a function of the input alone.
#[verifier::external_body]
fn sha256_hex(s: &str) -> (r: String)
    ensures
        r@ == sha256_hex_of(s@),
        r@.len() == 64,
{
    sha256::digest(s)
}

/// The cache key of a submission: `compile:<language>:<digest>`.
pub open spec fn spec_cache_key(language: LanguageId, source: Seq<char>) -> Seq<char> {
    "compile:"@ + language.spec_tag() + ":"@ + sha256_hex_of(source)
}

/// Derives the content-addressed cache key of a submission.
pub fn cache_key(language: LanguageId, source: &str) -> (r: String)
    ensures
        r@ == spec_cache_key(language, source@),
{
    let mut out = String::from_str("compile:");
    out.append(language.tag());
    out.append(":");
    let digest = sha256_hex(source);
    out.append(digest.as_str());
    out
}

/// One stored result, under its key, valid strictly before `expires_at`
/// (seconds).
pub struct CacheEntry {
    pub key: String,
    pub output: String,
    pub error: Option<String>,
    pub elapsed_ms: u64,
    pub expires_at: u64,
}

/// The in-memory TTL key-value store behind the cache-aside layer.
pub struct ResultCache {
    /// Seconds an entry stays valid after its write.
    pub ttl_secs: u64,
    pub entries: Vec<CacheEntry>,
}

/// The first entry under `key`, if any.
pub open spec fn spec_find(s: Seq<CacheEntry>, key: Seq<char>) -> Option<CacheEntry>
    decreases s.len(),
{
    if s.len() == 0 {
        None
    } else if s[0].key@ == key {
        Some(s[0])
    } else {
        spec_find(s.drop_first(), key)
    }
}

/// Every entry whose key is not `key`, in order.
pub open spec fn spec_drop_key(s: Seq<CacheEntry>, key: Seq<char>) -> Seq<CacheEntry>
    decreases s.len(),
{
    if s.len() == 0 {
        Seq::empty()
    } else {
        let rest = spec_drop_key(s.drop_last(), key);
        if s.last().key@ == key {
            rest
        } else {
            rest.push(s.last())
        }
    }
}

/// When the entry was written at `now` with time-to-live `ttl`, the moment
/// it stops being served (saturating).
pub open spec fn spec_expiry(now: u64, ttl: u64) -> u64 {
    if now + ttl > u64::MAX {
        u64::MAX
    } else {
        (now + ttl) as u64
    }
}

impl ResultCache {
    /// What a lookup under `key` at time `now` yields: the stored output,
    /// infrastructure error and elapsed time, while the entry is unexpired.
    pub open spec fn spec_lookup(self, key: Seq<char>, now: u64) -> Option<
        (Seq<char>, Option<Seq<char>>, u64),
    > {
        match spec_find(self.entries@, key) {
            Some(e) => if now < e.expires_at {
                Some((e.output@, opt_view(e.error), e.elapsed_ms))
            } else {
                None
            },
            None => None,
        }
    }

    /// An empty store whose entries live `ttl_secs` seconds.
    pub fn new(ttl_secs: u64) -> (r: ResultCache)
        ensures
            r.ttl_secs == ttl_secs,
            r.entries@.len() == 0,
    {
        ResultCache { ttl_secs, entries: Vec::new() }
    }

    /// Looks a submission up at time `now` (seconds). A hit hands back the
    /// stored result marked `from_cache`; an absent or expired entry is a
    /// miss.
    pub fn lookup(&self, language: LanguageId, source: &str, now: u64) -> (r: Option<
        ExecutionResult,
    >)
        ensures
            r matches Some(res) ==> {
                &&& self.spec_lookup(spec_cache_key(language, source@), now) == Some(
                    (res.output@, opt_view(res.error), res.elapsed_ms),
                )
                &&& res.from_cache
            },
            r is None ==> self.spec_lookup(spec_cache_key(language, source@), now) is None,
    {
        let key = cache_key(language, source);
        let mut j: usize = 0;
        while j < self.entries.len()
            invariant
                j <= self.entries@.len(),
                key@ == spec_cache_key(language, source@),
                forall|k: int| 0 <= k < j ==> (#[trigger] self.entries@[k]).key@ != key@,
            decreases self.entries@.len() - j,
        {
            let entry = &self.entries[j];
            if crate::strutil::str_eq(entry.key.as_str(), key.as_str()) {
                proof {
                    lemma_find_at(self.entries@, key@, j as int);
                }
                if now < entry.expires_at {
                    return Some(
                        ExecutionResult {
                            output: entry.output.clone(),
                            error: match &entry.error {
                                Some(e) => Some(e.clone()),
                                None => None,
                            },
                            elapsed_ms: entry.elapsed_ms,
                            from_cache: true,
                        },
                    );
                } else {
                    return None;
                }
            }
            j = j + 1;
        }
        proof {
            lemma_find_none(self.entries@, key@);
        }
        None
    }

    /// Stores a submission's result at time `now` (seconds), replacing any
    /// earlier entry under the same key; the entry expires `ttl_secs` later.
    pub fn store(
        &mut self,
        language: LanguageId,
        source: &str,
        output: &str,
        error: &Option<String>,
        elapsed_ms: u64,
        now: u64,
    )
        ensures
            final(self).ttl_secs == old(self).ttl_secs,
            spec_find(final(self).entries@, spec_cache_key(language, source@)) matches Some(e) && {
                &&& e.output@ == output@
                &&& opt_view(e.error) == opt_view(*error)
                &&& e.elapsed_ms == elapsed_ms
                &&& e.expires_at == spec_expiry(now, old(self).ttl_secs)
            },
            forall|other: Seq<char>|
                other != spec_cache_key(language, source@) ==> #[trigger] spec_find(
                    final(self).entries@,
                    other,
                ) == spec_find(spec_drop_key(old(self).entries@, spec_cache_key(language, source@)), other),
    {
        let key = cache_key(language, source);
        let ghost orig = self.entries@;
        let mut rest: Vec<CacheEntry> = Vec::new();
        core::mem::swap(&mut rest, &mut self.entries);
        let mut kept: Vec<CacheEntry> = Vec::new();
        let mut j: usize = 0;
        let total = rest.len();
        proof {
            assert(kept@ =~= spec_drop_key(orig.take(0), key@));
            assert(rest@ =~= orig.skip(0));
        }
        while rest.len() > 0
            invariant
                total == orig.len(),
                j + rest@.len() == total,
                j <= total,
                key@ == spec_cache_key(language, source@),
                rest@ == orig.skip(j as int),
                kept@ == spec_drop_key(orig.take(j as int), key@),
            decreases rest@.len(),
        {
            let entry = rest.remove(0);
            proof {
                assert(orig.skip(j as int)[0] == orig[j as int]);
                assert(orig.skip(j as int).remove(0) =~= orig.skip(j as int + 1));
                assert(orig.take(j as int + 1).drop_last() =~= orig.take(j as int));
                assert(orig.take(j as int + 1).last() == orig[j as int]);
            }
            if !crate::strutil::str_eq(entry.key.as_str(), key.as_str()) {
                kept.push(entry);
            }
            j = j + 1;
        }
        proof {
            assert(orig.take(total as int) =~= orig);
        }
        let expires_at = if now > u64::MAX - self.ttl_secs {
            u64::MAX
        } else {
            now + self.ttl_secs
        };
        let entry = CacheEntry {
            key,
            output: String::from_str(output),
            error: match error {
                Some(e) => Some(e.clone()),
                None => None,
            },
            elapsed_ms,
            expires_at,
        };
        kept.insert(0, entry);
        self.entries = kept;
        proof {
            let k = spec_cache_key(language, source@);
            assert(self.entries@[0].key@ == k);
            assert(self.entries@.drop_first() =~= spec_drop_key(orig, k));
            assert forall|other: Seq<char>|
                other != k implies #[trigger] spec_find(self.entries@, other) == spec_find(
                spec_drop_key(orig, k),
                other,
            ) by {
                assert(spec_find(self.entries@, other) == spec_find(
                    self.entries@.drop_first(),
                    other,
                ));
            }
        }
    }
}

/// One duplicated cache entry.
impl CacheEntry {
    /// A field-for-field copy.
    pub fn duplicate(&self) -> (r: CacheEntry)
        ensures
            r.key@ == self.key@,
            r.output@ == self.output@,
            opt_view(r.error) == opt_view(self.error),
            r.elapsed_ms == self.elapsed_ms,
            r.expires_at == self.expires_at,
    {
        CacheEntry {
            key: self.key.clone(),
            output: self.output.clone(),
            error: match &self.error {
                Some(e) => Some(e.clone()),
                None => None,
            },
            elapsed_ms: self.elapsed_ms,
            expires_at: self.expires_at,
        }
    }
}

/// When the first `j` entries miss and entry `j` matches, the find stops at
/// `j`.
proof fn lemma_find_at(s: Seq<CacheEntry>, key: Seq<char>, j: int)
    requires
        0 <= j < s.len(),
        s[j].key@ == key,
        forall|k: int| 0 <= k < j ==> (#[trigger] s[k]).key@ != key,
    ensures
        spec_find(s, key) == Some(s[j]),
    decreases j,
{
    if j > 0 {
        assert(s.drop_first()[j - 1] == s[j]);
        assert forall|k: int| 0 <= k < j - 1 implies (#[trigger] s.drop_first()[k]).key@ != key by {
            assert(s.drop_first()[k] == s[k + 1]);
        }
        lemma_find_at(s.drop_first(), key, j - 1);
    }
}

/// When no entry matches, the find misses.
proof fn lemma_find_none(s: Seq<CacheEntry>, key: Seq<char>)
    requires
        forall|k: int| 0 <= k < s.len() ==> (#[trigger] s[k]).key@ != key,
    ensures
        spec_find(s, key) is None,
    decreases s.len(),
{
    if s.len() > 0 {
        assert forall|k: int| 0 <= k < s.drop_first().len() implies (#[trigger] s.drop_first()[
        k]).key@ != key by {
            assert(s.drop_first()[k] == s[k + 1]);
        }
        lemma_find_none(s.drop_first(), key);
    }
}

/// Idempotent cache round-trip: once a store has put an entry for a key into
/// the store — expiring one TTL after the write — a lookup under the same
/// key returns exactly the stored result, marked as served from the cache,
/// at every time strictly before the expiry; from the expiry on, the lookup
/// returns none.
pub proof fn lemma_cache_round_trip(
    c: ResultCache,
    key: Seq<char>,
    e: CacheEntry,
    written_at: u64,
    t: u64,
)
    requires
        spec_find(c.entries@, key) == Some(e),
        e.expires_at == spec_expiry(written_at, c.ttl_secs),
    ensures
        t < spec_expiry(written_at, c.ttl_secs) ==> c.spec_lookup(key, t) == Some(
            (e.output@, opt_view(e.error), e.elapsed_ms),
        ),
        t >= spec_expiry(written_at, c.ttl_secs) ==> c.spec_lookup(key, t) is None,
{
}

} // verus!
