use crate::user::UserId;
use ahash::RandomState;
use dashmap::DashMap;
use vstd::prelude::*;

verus! {

/// How long a pre-authentication token can be used, in milliseconds.
pub const PRE_AUTH_LIFETIME_MILLIS: u64 = 15000;

/// Milliseconds from `created` to `now`; zero where the clock reads earlier
/// than `created`.
pub open spec fn age(created: u64, now: u64) -> int {
    if now >= created {
        now - created
    } else {
        0
    }
}

/// Whether a token made at `created` can still be used at `now`.
pub open spec fn is_fresh(created: u64, now: u64) -> bool {
    age(created, now) < PRE_AUTH_LIFETIME_MILLIS
}

/// Whether a token made at `created` can still be used at `now`.
pub fn fresh(created: u64, now: u64) -> (fresh: bool)
    ensures
        fresh == is_fresh(created, now),
{
    let passed: u64 = if now >= created {
        now - created
    } else {
        0
    };
    passed < PRE_AUTH_LIFETIME_MILLIS
}

/// Mathematical value of a [`PreAuthRecord`].
pub struct PreAuthEntry {
    pub created: u64,
    pub user: Seq<char>,
}

/// One record of the cache: when the token was made, and for whom.
pub struct PreAuthRecord {
    pub created: u64,
    pub user: String,
}

impl View for PreAuthRecord {
    type V = PreAuthEntry;

    open spec fn view(&self) -> PreAuthEntry {
        PreAuthEntry { created: self.created, user: self.user@ }
    }
}

/// No record at all.
pub open spec fn no_entries() -> Map<Seq<char>, PreAuthEntry> {
    Map::empty()
}

/// The records without those that have expired at `now`.
pub open spec fn fresh_entries(
    entries: Map<Seq<char>, PreAuthEntry>,
    now: u64,
) -> Map<Seq<char>, PreAuthEntry> {
    Map::new(
        |token: Seq<char>| entries.dom().contains(token) && is_fresh(entries[token].created, now),
        |token: Seq<char>| entries[token],
    )
}

/// Whether `token` is accepted at `now`: it has a record and the record has
/// not expired.
pub open spec fn accepts(entries: Map<Seq<char>, PreAuthEntry>, token: Seq<char>, now: u64) -> bool {
    entries.dom().contains(token) && is_fresh(entries[token].created, now)
}

/// The records after an attempt to use `token` at `now`: the expired ones are
/// gone, and so is the token's own.
pub open spec fn after_consume(
    entries: Map<Seq<char>, PreAuthEntry>,
    token: Seq<char>,
    now: u64,
) -> Map<Seq<char>, PreAuthEntry> {
    fresh_entries(entries, now).remove(token)
}

/// The records that a map of tokens holds.
pub uninterp spec fn pre_auth_entries(
    map: DashMap<String, PreAuthRecord, RandomState>,
) -> Map<Seq<char>, PreAuthEntry>;

/// `DashMap::default` makes a map without entries.
#[verifier::external_body]
fn empty_tokens() -> (map: DashMap<String, PreAuthRecord, RandomState>)
    ensures
        pre_auth_entries(map) == no_entries(),
{
    DashMap::default()
}

/// `DashMap::insert` puts a value under a key, replacing an earlier one; the
/// other entries stay.
#[verifier::external_body]
fn insert_token(
    map: &mut DashMap<String, PreAuthRecord, RandomState>,
    token: String,
    record: PreAuthRecord,
)
    ensures
        pre_auth_entries(*final(map)) == pre_auth_entries(*old(map)).insert(token@, record@),
{
    map.insert(token, record);
}

/// `DashMap::retain` keeps the entries for which the closure answers yes and
/// drops the others. The closure asks [`fresh`] of each creation time.
#[verifier::external_body]
fn retain_fresh(map: &mut DashMap<String, PreAuthRecord, RandomState>, now: u64)
    ensures
        pre_auth_entries(*final(map)) == fresh_entries(pre_auth_entries(*old(map)), now),
{
    map.retain(|_, record| fresh(record.created, now));
}

/// `DashMap::remove` takes the entry of a key out and returns it, or returns
/// nothing where the key has none; the other entries stay.
#[verifier::external_body]
fn remove_token(map: &mut DashMap<String, PreAuthRecord, RandomState>, token: &str) -> (record:
    Option<PreAuthRecord>)
    ensures
        pre_auth_entries(*final(map)) == pre_auth_entries(*old(map)).remove(token@),
        match record {
            Some(found) => pre_auth_entries(*old(map)).dom().contains(token@) && pre_auth_entries(
                *old(map),
            )[token@] == found@,
            None => !pre_auth_entries(*old(map)).dom().contains(token@),
        },
{
    map.remove(token).map(|(_, record)| record)
}

/// Short-lived table from token to user, filled by bus events and used up
/// by handshakes.
pub struct PreAuthCache {
    tokens: DashMap<String, PreAuthRecord, RandomState>,
}

impl View for PreAuthCache {
    type V = Map<Seq<char>, PreAuthEntry>;

    closed spec fn view(&self) -> Map<Seq<char>, PreAuthEntry> {
        pre_auth_entries(self.tokens)
    }
}

impl PreAuthCache {
    /// A cache without tokens.
    pub fn new() -> (cache: PreAuthCache)
        ensures
            cache@ == no_entries(),
    {
        PreAuthCache { tokens: empty_tokens() }
    }

    /// Records that `token` stands for `user` from `now` on. A token that is
    /// recorded again starts afresh.
    pub fn insert(&mut self, token: String, user: UserId, now: u64)
        ensures
            final(self)@ == old(self)@.insert(token@, PreAuthEntry { created: now, user: user@ }),
    {
        insert_token(
            &mut self.tokens,
            token,
            PreAuthRecord { created: now, user: user.into_string() },
        );
    }

    /// Drops the tokens that have expired at `now`.
    pub fn cull(&mut self, now: u64)
        ensures
            final(self)@ == fresh_entries(old(self)@, now),
    {
        retain_fresh(&mut self.tokens, now);
    }

    /// Uses `token` up at `now`. Expired tokens are dropped first. The user
    /// is returned exactly if the token was recorded less than
    /// [`PRE_AUTH_LIFETIME_MILLIS`] ago; either way the token is gone
    /// afterwards.
    pub fn consume(&mut self, token: &str, now: u64) -> (user: Option<UserId>)
        ensures
            final(self)@ == after_consume(old(self)@, token@, now),
            user is Some <==> accepts(old(self)@, token@, now),
            user matches Some(found) ==> found@ == old(self)@[token@].user,
    {
        retain_fresh(&mut self.tokens, now);
        match remove_token(&mut self.tokens, token) {
            Some(record) => {
                if fresh(record.created, now) {
                    Some(UserId::new(record.user))
                } else {
                    None
                }
            },
            None => None,
        }
    }
}

impl Default for PreAuthCache {
    fn default() -> (cache: Self)
        ensures
            cache@ == no_entries(),
    {
        PreAuthCache::new()
    }
}

/// One thing that can happen to the cache.
pub enum PreAuthOp {
    Insert { token: Seq<char>, user: Seq<char> },
    Cull,
    Consume { token: Seq<char> },
}

/// An operation and the clock reading at which it happens.
pub struct TimedPreAuthOp {
    pub at: u64,
    pub op: PreAuthOp,
}

/// The records after one operation.
pub open spec fn apply(
    entries: Map<Seq<char>, PreAuthEntry>,
    step: TimedPreAuthOp,
) -> Map<Seq<char>, PreAuthEntry> {
    match step.op {
        PreAuthOp::Insert { token, user } => entries.insert(
            token,
            PreAuthEntry { created: step.at, user },
        ),
        PreAuthOp::Cull => fresh_entries(entries, step.at),
        PreAuthOp::Consume { token } => after_consume(entries, token, step.at),
    }
}

/// The records after a run of operations, first to last.
pub open spec fn run(
    entries: Map<Seq<char>, PreAuthEntry>,
    steps: Seq<TimedPreAuthOp>,
) -> Map<Seq<char>, PreAuthEntry>
    decreases steps.len(),
{
    if steps.len() == 0 {
        entries
    } else {
        run(apply(entries, steps.first()), steps.drop_first())
    }
}

/// Whether no step of `steps` records `token`.
pub open spec fn never_inserts(steps: Seq<TimedPreAuthOp>, token: Seq<char>) -> bool {
    forall|i: int|
        0 <= i < steps.len() ==> !((#[trigger] steps[i]).op matches PreAuthOp::Insert {
            token: inserted,
            ..
        } && inserted == token)
}

proof fn lemma_absent_token_stays_absent(
    entries: Map<Seq<char>, PreAuthEntry>,
    token: Seq<char>,
    steps: Seq<TimedPreAuthOp>,
)
    requires
        !entries.dom().contains(token),
        never_inserts(steps, token),
    ensures
        !run(entries, steps).dom().contains(token),
    decreases steps.len(),
{
    if steps.len() > 0 {
        let rest = steps.drop_first();
        assert(steps[0] == steps.first());
        assert forall|i: int| 0 <= i < rest.len() implies !((#[trigger] rest[i]).op matches PreAuthOp::Insert {
            token: inserted,
            ..
        } && inserted == token) by {
            assert(rest[i] == steps[i + 1]);
        }
        lemma_absent_token_stays_absent(apply(entries, steps.first()), token, rest);
    }
}

/// A token is used at most once: after one attempt to use it, whatever else
/// is recorded, culled or used meanwhile, a later attempt with the same token
/// is refused unless the token was recorded again.
pub proof fn lemma_token_is_single_use(
    entries: Map<Seq<char>, PreAuthEntry>,
    token: Seq<char>,
    first: u64,
    between: Seq<TimedPreAuthOp>,
    second: u64,
)
    requires
        never_inserts(between, token),
    ensures
        !accepts(run(after_consume(entries, token, first), between), token, second),
{
    lemma_absent_token_stays_absent(after_consume(entries, token, first), token, between);
}

proof fn lemma_stale_entry_stays_stale(
    entries: Map<Seq<char>, PreAuthEntry>,
    token: Seq<char>,
    created: u64,
    steps: Seq<TimedPreAuthOp>,
)
    requires
        entries.dom().contains(token) ==> entries[token].created == created,
        never_inserts(steps, token),
    ensures
        run(entries, steps).dom().contains(token) ==> run(entries, steps)[token].created
            == created,
    decreases steps.len(),
{
    if steps.len() > 0 {
        let rest = steps.drop_first();
        assert(steps[0] == steps.first());
        assert forall|i: int| 0 <= i < rest.len() implies !((#[trigger] rest[i]).op matches PreAuthOp::Insert {
            token: inserted,
            ..
        } && inserted == token) by {
            assert(rest[i] == steps[i + 1]);
        }
        lemma_stale_entry_stays_stale(apply(entries, steps.first()), token, created, rest);
    }
}

/// A token is never accepted fifteen seconds or more after it was recorded:
/// if `token` was recorded at `created` and not again since, an attempt at
/// `now` is refused once the lifetime has passed.
pub proof fn lemma_expired_token_is_refused(
    entries: Map<Seq<char>, PreAuthEntry>,
    token: Seq<char>,
    user: Seq<char>,
    created: u64,
    between: Seq<TimedPreAuthOp>,
    now: u64,
)
    requires
        never_inserts(between, token),
        now - created >= PRE_AUTH_LIFETIME_MILLIS,
    ensures
        !accepts(
            run(entries.insert(token, PreAuthEntry { created, user }), between),
            token,
            now,
        ),
{
    lemma_stale_entry_stays_stale(
        entries.insert(token, PreAuthEntry { created, user }),
        token,
        created,
        between,
    );
}

} // verus!
