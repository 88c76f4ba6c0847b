//! The crawl queue as kept in Redis: a sorted set of item keys scored by
//! priority, a hash of what was pushed under each deduplication key, and
//! one expiring key per claimed item.
use crate::crawler::priority_queue::{ItemKey, QueuePushParameters};
use crate::file_name::FileName;
use crate::parse::{
    all_digits, is_digit, lemma_decimal_digits, lemma_parse_signed_decimal, matches_at, occurs_in,
    parse_i64, spec_parse_i64, split_by, split_from, split_parts,
};
use crate::priority::Priority;
use crate::text::{join, join_strings, push_signed_decimal, push_str, signed_decimal};
use std::collections::HashMap;
use vstd::prelude::*;

verus! {

/// What the queue's hash holds for a deduplication key.
pub struct QueueItemSetRecord {
    pub file_name: FileName,
    pub correlation_id: Option<String>,
    pub metadata: Option<HashMap<String, String>>,
}

/// The separator between the two parts of an item key's text. The
/// spelling is that of the stored data.
pub const ITEM_KEY_DELIMITER: &'static str = ":DELIMETER:";

/// The text of an item key: its enqueue time in seconds, the separator and
/// its deduplication key.
pub open spec fn item_key_text(enqueue_time: i64, deduplication_key: Seq<char>) -> Seq<char> {
    signed_decimal(enqueue_time as int) + ITEM_KEY_DELIMITER@ + deduplication_key
}

/// Why a text is no item key.
#[derive(Clone, Copy, PartialEq, Eq, Structural)]
pub enum ItemKeyError {
    /// The text does not split into exactly two parts, or its time is out
    /// of the calendar's range.
    InvalidMember,
    /// The time part is no `i64`.
    InvalidNumber,
}

/// The enqueue time and deduplication key that a text holds, before the
/// time is checked against the calendar.
pub open spec fn spec_item_key_parts(t: Seq<char>) -> Result<(i64, Seq<char>), ItemKeyError> {
    let parts = split_parts(t, ITEM_KEY_DELIMITER@);
    if parts.len() != 2 {
        Err(ItemKeyError::InvalidMember)
    } else {
        match spec_parse_i64(parts[0]) {
            Some(secs) => Ok((secs, parts[1])),
            None => Err(ItemKeyError::InvalidNumber),
        }
    }
}

/// Whether `chrono::DateTime::from_timestamp(secs, 0)` gives a date: the
/// seconds fall between the first second of January 1 of year -262143 and
/// the last second of December 31 of year 262142, chrono's calendar range.
pub open spec fn spec_timestamp_in_range(secs: i64) -> bool {
    -8_334_601_228_800 <= secs <= 8_210_266_876_799
}

/// The item key that a text holds: its time and deduplication key, the
/// time within the calendar.
pub open spec fn spec_parse_item_key(t: Seq<char>) -> Result<(i64, Seq<char>), ItemKeyError> {
    match spec_item_key_parts(t) {
        Ok((secs, key)) => if spec_timestamp_in_range(secs) {
            Ok((secs, key))
        } else {
            Err(ItemKeyError::InvalidMember)
        },
        Err(e) => Err(e),
    }
}

/// Tells whether a Unix timestamp in seconds is a date that chrono can hold.
///
/// Trusted: calls `chrono::DateTime::from_timestamp(secs, 0)`, which returns
/// `None` exactly for seconds whose day is outside `NaiveDate::MIN` ..=
/// `NaiveDate::MAX` (years -262143 to 262142); with no nanoseconds the time
/// of day is always valid.
#[verifier::external_body]
fn timestamp_in_range(secs: i64) -> (res: bool)
    ensures
        res == spec_timestamp_in_range(secs),
{
    chrono::DateTime::from_timestamp(secs, 0).is_some()
}

/// Splits the text of an item key into its time and deduplication key.
pub fn parse_item_key_parts(s: &str) -> (res: Result<(i64, String), ItemKeyError>)
    ensures
        match (res, spec_item_key_parts(s@)) {
            (Ok((secs, key)), Ok((t, k))) => secs == t && key@ == k,
            (Err(e), Err(f)) => e == f,
            _ => false,
        },
{
    proof {
        reveal_strlit(":DELIMETER:");
    }
    let parts = split_by(s, ITEM_KEY_DELIMITER);
    proof {
        assert(parts@.map_values(|p: String| p@).len() == parts@.len());
    }
    if parts.len() != 2 {
        return Err(ItemKeyError::InvalidMember);
    }
    proof {
        assert(parts@.map_values(|p: String| p@)[0] == parts@[0]@);
        assert(parts@.map_values(|p: String| p@)[1] == parts@[1]@);
    }
    match parse_i64(parts[0].as_str()) {
        Some(secs) => Ok((secs, parts[1].clone())),
        None => Err(ItemKeyError::InvalidNumber),
    }
}

/// The item key of a time and a deduplication key, given whether the time
/// is within the calendar.
pub fn item_key_from_parts(enqueue_time: i64, deduplication_key: String, in_range: bool) -> (res:
    Result<ItemKey, ItemKeyError>)
    ensures
        match res {
            Ok(k) => in_range && k.enqueue_time == enqueue_time && k.deduplication_key@
                == deduplication_key@,
            Err(e) => !in_range && e == ItemKeyError::InvalidMember,
        },
{
    if in_range {
        Ok(ItemKey { enqueue_time, deduplication_key })
    } else {
        Err(ItemKeyError::InvalidMember)
    }
}

impl ItemKey {
    /// The text of the key, as the sorted set holds it.
    pub fn to_string(&self) -> (res: String)
        ensures
            res@ == item_key_text(self.enqueue_time, self.deduplication_key@),
    {
        let mut s = String::new();
        push_signed_decimal(&mut s, self.enqueue_time);
        push_str(&mut s, ITEM_KEY_DELIMITER);
        push_str(&mut s, self.deduplication_key.as_str());
        proof {
            assert(s@ =~= item_key_text(self.enqueue_time, self.deduplication_key@));
        }
        s
    }

    /// Reads an item key from its text.
    pub fn from_str(s: &str) -> (res: Result<ItemKey, ItemKeyError>)
        ensures
            match (res, spec_parse_item_key(s@)) {
                (Ok(k), Ok((t, key))) => k.enqueue_time == t && k.deduplication_key@ == key,
                (Err(e), Err(f)) => e == f,
                _ => false,
            },
    {
        match parse_item_key_parts(s) {
            Err(e) => Err(e),
            Ok((secs, key)) => {
                let in_range = timestamp_in_range(secs);
                item_key_from_parts(secs, key, in_range)
            },
        }
    }
}

/// Splitting passes over positions where the pattern does not occur.
proof fn lemma_split_skip(s: Seq<char>, pat: Seq<char>, start: int, i: int, j: int)
    requires
        pat.len() > 0,
        0 <= i <= j,
        j + pat.len() <= s.len(),
        forall|k: int| i <= k < j ==> !#[trigger] matches_at(s, pat, k),
    ensures
        split_from(s, pat, start, i) == split_from(s, pat, start, j),
    decreases j - i,
{
    if i < j {
        assert(!matches_at(s, pat, i));
        lemma_split_skip(s, pat, start, i + 1, j);
    }
}

/// Where the pattern occurs no more, the rest is one part.
proof fn lemma_split_tail(s: Seq<char>, pat: Seq<char>, start: int, i: int)
    requires
        pat.len() > 0,
        0 <= i,
        forall|k: int| i <= k ==> !#[trigger] matches_at(s, pat, k),
    ensures
        split_from(s, pat, start, i) == seq![s.subrange(start, s.len() as int)],
    decreases s.len() - i,
{
    if i + pat.len() <= s.len() {
        assert(!matches_at(s, pat, i));
        lemma_split_tail(s, pat, start, i + 1);
    }
}

/// Reading the text of an item key gives back its time and deduplication
/// key, provided the deduplication key does not hold the separator.
pub proof fn lemma_item_key_roundtrip(enqueue_time: i64, deduplication_key: Seq<char>)
    requires
        !occurs_in(deduplication_key, ITEM_KEY_DELIMITER@),
    ensures
        spec_item_key_parts(item_key_text(enqueue_time, deduplication_key)) == Ok::<
            (i64, Seq<char>),
            ItemKeyError,
        >((enqueue_time, deduplication_key)),
{
    reveal_strlit(":DELIMETER:");
    let d = ITEM_KEY_DELIMITER@;
    let dec = signed_decimal(enqueue_time as int);
    let s = item_key_text(enqueue_time, deduplication_key);
    let l = dec.len() as int;
    let m = l + d.len();
    assert(d.len() == 11);
    assert(d[0] == ':');
    // The time's characters are digits or a minus sign, never the colon
    // that opens the separator.
    assert forall|k: int| 0 <= k < l implies dec[k] != ':' by {
        if enqueue_time < 0 {
            lemma_decimal_digits((-enqueue_time) as nat);
            if k > 0 {
                assert(dec[k] == crate::text::decimal((-enqueue_time) as nat)[k - 1]);
                assert(is_digit(crate::text::decimal((-enqueue_time) as nat)[k - 1]));
            }
        } else {
            lemma_decimal_digits(enqueue_time as nat);
            assert(is_digit(dec[k]));
        }
    }
    assert forall|k: int| 0 <= k < l implies !#[trigger] matches_at(s, d, k) by {
        if matches_at(s, d, k) {
            assert(s.subrange(k, k + d.len())[0] == s[k]);
            assert(s[k] == dec[k]);
        }
    }
    lemma_split_skip(s, d, 0, 0, l);
    assert(s.subrange(l, m) =~= d);
    assert(matches_at(s, d, l));
    assert forall|k: int| m <= k implies !#[trigger] matches_at(s, d, k) by {
        if matches_at(s, d, k) {
            assert(s.subrange(k, k + d.len()) =~= deduplication_key.subrange(k - m, k - m + d.len()));
            assert(matches_at(deduplication_key, d, k - m));
        }
    }
    lemma_split_tail(s, d, m, m);
    assert(s.subrange(0, l) =~= dec);
    assert(s.subrange(m, s.len() as int) =~= deduplication_key);
    lemma_parse_signed_decimal(enqueue_time);
    assert(split_parts(s, d) =~= seq![dec, deduplication_key]);
}

/// The sorted set of item keys.
pub const QUEUE_KEY: &'static str = "crawler:queue";

/// The hash of pushed records.
pub const ITEM_SET_KEY: &'static str = "crawler:queue:items";

/// What precedes an item key in the key that marks it claimed.
pub const CLAIMED_ITEM_KEY_PREFIX: &'static str = "crawler:queue:claimed:";

/// `s` with every occurrence of `pat` removed, scanning left to right.
pub open spec fn spec_remove_all(s: Seq<char>, pat: Seq<char>) -> Seq<char> {
    join(split_parts(s, pat), Seq::empty())
}

/// `str::replace(pat, "")` with a non-empty pattern.
pub fn remove_all(s: &str, pat: &str) -> (res: String)
    requires
        pat@.len() > 0,
    ensures
        res@ == spec_remove_all(s@, pat@),
{
    let parts = split_by(s, pat);
    let res = join_strings(&parts, "");
    proof {
        reveal_strlit("");
        assert(""@ =~= Seq::<char>::empty());
    }
    res
}

/// The queue in Redis, reached through the connection pool `P`, holding at
/// most `max_size` items whose claims last `claim_ttl_seconds`.
pub struct RedisPriorityQueue<P> {
    pub redis_connection_pool: P,
    pub max_size: u32,
    pub claim_ttl_seconds: u32,
}

/// What a push does.
pub enum PushDecision {
    /// An item with the same deduplication key is queued: nothing changes.
    AlreadyQueued,
    /// Add `member` to the sorted set with `priority` and store `record`
    /// in the hash under the member's deduplication key.
    Enqueue { member: ItemKey, priority: Priority, record: QueueItemSetRecord },
}

/// A push to a queue that holds `max_size` items already.
#[derive(Clone, Copy, PartialEq, Eq, Structural)]
pub struct QueueFull;

/// The key under which a push recognises duplicates.
pub open spec fn spec_deduplication_key(params: QueuePushParameters) -> Seq<char> {
    match params.deduplication_key {
        Some(k) => k@,
        None => params.file_name@,
    }
}

/// The deduplication key of a push: the given one, else the page name.
pub fn deduplication_key(params: &QueuePushParameters) -> (res: String)
    ensures
        res@ == spec_deduplication_key(*params),
{
    match &params.deduplication_key {
        Some(k) => k.clone(),
        None => params.file_name.to_string(),
    }
}

/// What the scan for the first unclaimed item does next.
#[derive(Clone, Copy, PartialEq, Eq, Structural)]
pub enum ScanStep {
    /// No item at this position: nothing to claim.
    Exhausted,
    /// The item at this position is unclaimed: take it.
    Take,
    /// The item at this position is claimed: look at the next one.
    Next(usize),
}

/// One step of the scan for the first unclaimed item, at `index`, given
/// whether an item stands there and whether it is claimed.
pub fn scan_step(index: usize, found: bool, claimed: bool) -> (res: ScanStep)
    requires
        index < usize::MAX,
    ensures
        res == if !found {
            ScanStep::Exhausted
        } else if !claimed {
            ScanStep::Take
        } else {
            ScanStep::Next((index + 1) as usize)
        },
{
    if !found {
        ScanStep::Exhausted
    } else if !claimed {
        ScanStep::Take
    } else {
        ScanStep::Next(index + 1)
    }
}

impl<P> RedisPriorityQueue<P> {
    /// A queue over the pool `redis_connection_pool`.
    pub fn new(redis_connection_pool: P, max_size: u32, claim_ttl_seconds: u32) -> (res: Self)
        ensures
            res.redis_connection_pool == redis_connection_pool,
            res.max_size == max_size,
            res.claim_ttl_seconds == claim_ttl_seconds,
    {
        Self { redis_connection_pool, max_size, claim_ttl_seconds }
    }

    /// The key of the sorted set of item keys.
    pub fn redis_key(&self) -> (res: &'static str)
        ensures
            res@ == QUEUE_KEY@,
    {
        QUEUE_KEY
    }

    /// The key of the hash of pushed records.
    pub fn item_set_key(&self) -> (res: String)
        ensures
            res@ == QUEUE_KEY@ + ":items"@,
    {
        let mut s = String::new();
        push_str(&mut s, self.redis_key());
        push_str(&mut s, ":items");
        proof {
            assert(s@ =~= QUEUE_KEY@ + ":items"@);
        }
        s
    }

    /// The key that marks the item with text `key` claimed.
    pub fn claimed_item_key_str(&self, key: &str) -> (res: String)
        ensures
            res@ == QUEUE_KEY@ + ":claimed:"@ + key@,
    {
        let mut s = String::new();
        push_str(&mut s, self.redis_key());
        push_str(&mut s, ":claimed:");
        push_str(&mut s, key);
        proof {
            assert(s@ =~= QUEUE_KEY@ + ":claimed:"@ + key@);
        }
        s
    }

    /// The key that marks `key` claimed.
    pub fn claimed_item_key(&self, key: &ItemKey) -> (res: String)
        ensures
            res@ == QUEUE_KEY@ + ":claimed:"@ + item_key_text(
                key.enqueue_time,
                key.deduplication_key@,
            ),
    {
        let text = key.to_string();
        self.claimed_item_key_str(text.as_str())
    }

    /// The text of the item key that a claim key marks: the claim key with
    /// every occurrence of the claim prefix removed.
    pub fn claimed_member(&self, claim_key: &str) -> (res: String)
        ensures
            res@ == spec_remove_all(claim_key@, QUEUE_KEY@ + ":claimed:"@),
    {
        let prefix = self.claimed_item_key_str("");
        proof {
            reveal_strlit("");
            reveal_strlit("crawler:queue");
            assert(prefix@ =~= QUEUE_KEY@ + ":claimed:"@);
        }
        remove_all(claim_key, prefix.as_str())
    }

    /// Decides a push, given whether an item with the push's deduplication
    /// key is queued, how many items are queued and the time in seconds.
    /// A duplicate is skipped before the size is looked at.
    pub fn decide_push(&self, params: QueuePushParameters, already_queued: bool, size: u32, now: i64)
        -> (res: Result<PushDecision, QueueFull>)
        ensures
            match res {
                Ok(PushDecision::AlreadyQueued) => already_queued,
                Ok(PushDecision::Enqueue { member, priority, record }) => {
                    &&& !already_queued
                    &&& size < self.max_size
                    &&& member.enqueue_time == now
                    &&& member.deduplication_key@ == spec_deduplication_key(params)
                    &&& priority == match params.priority {
                        Some(p) => p,
                        None => Priority::Standard,
                    }
                    &&& record.file_name@ == params.file_name@
                    &&& record.correlation_id == params.correlation_id
                    &&& record.metadata == params.metadata
                },
                Err(_) => !already_queued && size >= self.max_size,
            },
    {
        if already_queued {
            return Ok(PushDecision::AlreadyQueued);
        }
        if size >= self.max_size {
            return Err(QueueFull);
        }
        let key = deduplication_key(&params);
        let priority = match params.priority {
            Some(p) => p,
            None => Priority::Standard,
        };
        Ok(
            PushDecision::Enqueue {
                member: ItemKey { enqueue_time: now, deduplication_key: key },
                priority,
                record: QueueItemSetRecord {
                    file_name: params.file_name,
                    correlation_id: params.correlation_id,
                    metadata: params.metadata,
                },
            },
        )
    }
}

/// The item keys that claim keys mark: every claim key read with the
/// claim prefix removed, or the error of the first that is no item key.
pub open spec fn all_claims_parse(claim_keys: Seq<String>) -> bool {
    forall|i: int| 0 <= i < claim_keys.len() ==> #[trigger] spec_parse_item_key(
        spec_remove_all(claim_keys[i]@, QUEUE_KEY@ + ":claimed:"@),
    ) is Ok
}

impl<P> RedisPriorityQueue<P> {
    /// The item keys that claim keys mark, in order, or the error of the
    /// first claim key that marks no item key.
    pub fn claimed_item_keys(&self, claim_keys: &Vec<String>) -> (res: Result<Vec<ItemKey>, ItemKeyError>)
        ensures
            match res {
                Ok(keys) => {
                    &&& all_claims_parse(claim_keys@)
                    &&& keys@.len() == claim_keys@.len()
                    &&& forall|i: int| 0 <= i < keys@.len() ==> spec_parse_item_key(
                        spec_remove_all(claim_keys@[i]@, QUEUE_KEY@ + ":claimed:"@),
                    ) == Ok::<(i64, Seq<char>), ItemKeyError>(((#[trigger] keys@[i]).enqueue_time, keys@[i].deduplication_key@))
                },
                Err(e) => exists|i: int| 0 <= i < claim_keys@.len() && spec_parse_item_key(
                    spec_remove_all(#[trigger] claim_keys@[i]@, QUEUE_KEY@ + ":claimed:"@),
                ) == Err::<(i64, Seq<char>), ItemKeyError>(e) && all_claims_parse(claim_keys@.take(i)),
            },
    {
        let mut keys: Vec<ItemKey> = Vec::new();
        for i in 0..claim_keys.len()
            invariant
                keys@.len() == i,
                all_claims_parse(claim_keys@.take(i as int)),
                forall|j: int| 0 <= j < i ==> spec_parse_item_key(
                    spec_remove_all(claim_keys@[j]@, QUEUE_KEY@ + ":claimed:"@),
                ) == Ok::<(i64, Seq<char>), ItemKeyError>(((#[trigger] keys@[j]).enqueue_time, keys@[j].deduplication_key@)),
        {
            let member = self.claimed_member(claim_keys[i].as_str());
            match ItemKey::from_str(member.as_str()) {
                Ok(k) => {
                    keys.push(k);
                    proof {
                        assert forall|j: int| 0 <= j < claim_keys@.take(i + 1).len() implies #[trigger] spec_parse_item_key(
                            spec_remove_all(claim_keys@.take(i + 1)[j]@, QUEUE_KEY@ + ":claimed:"@),
                        ) is Ok by {
                            if j < i {
                                assert(claim_keys@.take(i + 1)[j] == claim_keys@.take(i as int)[j]);
                            }
                        }
                    }
                },
                Err(e) => {
                    return Err(e);
                },
            }
        }
        proof {
            assert(claim_keys@.take(claim_keys@.len() as int) =~= claim_keys@);
        }
        Ok(keys)
    }
}

} // verus!
