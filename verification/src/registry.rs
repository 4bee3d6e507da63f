//! Share registry: short-lived, single-use publication of an encoded
//! envelope under an unguessable share code.
//!
//! The registry owns every entry; a fetch runs lookup, validity check and
//! mutation in one exclusive (`&mut`) step, so a caller that serializes
//! calls through one lock gets the atomic check-and-consume the model
//! describes. State lives only in the process: dropping the registry
//! clears every share.
use vstd::prelude::*;

use vstd::pervasive::VecAdditionalExecFns;

verus! {

/// Default lifetime of a published share: one hour.
pub const DEFAULT_TTL_SECS: u64 = 3600;

/// Default number of retrievals a published share allows.
pub const DEFAULT_USES: u32 = 1;

/// Length in characters of every share code.
pub const SHARE_CODE_LEN: usize = 36;

/// Failures of a fetch. All three collapse to the same not-found status at
/// the network boundary; the distinction exists for the caller's logging.
#[derive(Clone, Copy, Debug, PartialEq, Eq, Structural)]
pub enum FetchError {
    /// The code is unknown: it never existed or was already removed.
    NotFound,
    /// The code existed but its lifetime had elapsed; the entry is purged.
    Expired,
    /// The code's uses were already consumed; the entry is purged.
    AlreadyUsed,
}

impl FetchError {
    /// The short human-readable reason the retrieval boundary serves with
    /// its uniform not-found status.
    pub fn reason(&self) -> (r: String)
        ensures
            *self == FetchError::NotFound ==> r@ == "Invalid code"@,
            *self == FetchError::Expired ==> r@ == "Expired or used"@,
            *self == FetchError::AlreadyUsed ==> r@ == "Already used"@,
    {
        match self {
            FetchError::NotFound => "Invalid code".to_owned(),
            FetchError::Expired => "Expired or used".to_owned(),
            FetchError::AlreadyUsed => "Already used".to_owned(),
        }
    }
}

/// One published share: the envelope as text, an absolute expiry, the
/// retrievals still allowed, and a display filename.
pub struct ShareEntry {
    pub encoded_envelope: String,
    pub expiry: u64,
    pub remaining_uses: u32,
    pub display_name: String,
}

/// The mathematical image of a `ShareEntry`.
pub struct ShareEntryModel {
    pub encoded_envelope: Seq<char>,
    pub expiry: u64,
    pub remaining_uses: u32,
    pub display_name: Seq<char>,
}

impl View for ShareEntry {
    type V = ShareEntryModel;

    open spec fn view(&self) -> ShareEntryModel {
        ShareEntryModel {
            encoded_envelope: self.encoded_envelope@,
            expiry: self.expiry,
            remaining_uses: self.remaining_uses,
            display_name: self.display_name@,
        }
    }
}

/// What a successful fetch hands back: the encoded envelope and the
/// display filename it was published with.
#[derive(Clone, Debug, PartialEq, Eq)]
pub struct ShareResponse {
    pub encrypted: String,
    pub original_filename: String,
}

/// A share code bound to its entry, as the registry stores it.
struct StoredShare {
    code: String,
    entry: ShareEntry,
}

/// The registry: a mapping from share code to entry. Abstractly a
/// `Map<Seq<char>, ShareEntryModel>`; concretely a vector with pairwise
/// distinct codes.
pub struct Registry {
    shares: Vec<StoredShare>,
}

spec fn codes_unique(s: Seq<StoredShare>) -> bool {
    forall|i: int, j: int| 0 <= i < j < s.len() ==> s[i].code@ != s[j].code@
}

spec fn map_of(s: Seq<StoredShare>) -> Map<Seq<char>, ShareEntryModel>
    decreases s.len(),
{
    if s.len() == 0 {
        Map::empty()
    } else {
        map_of(s.drop_last()).insert(s.last().code@, s.last().entry@)
    }
}

impl View for Registry {
    type V = Map<Seq<char>, ShareEntryModel>;

    closed spec fn view(&self) -> Map<Seq<char>, ShareEntryModel> {
        map_of(self.shares@)
    }
}

/// What one fetch does to the registry's map and returns: absent codes
/// fail as `NotFound`; an entry past its expiry is purged with `Expired`;
/// one with no remaining uses is purged with `AlreadyUsed`; otherwise the
/// remaining uses drop by one — removal when they reach zero — and the
/// envelope and name come back, all in one atomic step.
pub open spec fn spec_fetch(
    m: Map<Seq<char>, ShareEntryModel>,
    code: Seq<char>,
    now: u64,
) -> (Map<Seq<char>, ShareEntryModel>, Result<(Seq<char>, Seq<char>), FetchError>) {
    if !m.dom().contains(code) {
        (m, Err(FetchError::NotFound))
    } else {
        let e = m[code];
        if now > e.expiry {
            (m.remove(code), Err(FetchError::Expired))
        } else if e.remaining_uses == 0 {
            (m.remove(code), Err(FetchError::AlreadyUsed))
        } else if e.remaining_uses == 1 {
            (m.remove(code), Ok((e.encoded_envelope, e.display_name)))
        } else {
            (
                m.insert(
                    code,
                    ShareEntryModel {
                        encoded_envelope: e.encoded_envelope,
                        expiry: e.expiry,
                        remaining_uses: (e.remaining_uses - 1) as u32,
                        display_name: e.display_name,
                    },
                ),
                Ok((e.encoded_envelope, e.display_name)),
            )
        }
    }
}

/// An executable fetch result agrees with a mathematical one.
pub open spec fn fetch_models(
    r: Result<ShareResponse, FetchError>,
    m: Result<(Seq<char>, Seq<char>), FetchError>,
) -> bool {
    match r {
        Ok(resp) => m == Ok::<(Seq<char>, Seq<char>), FetchError>(
            (resp.encrypted@, resp.original_filename@),
        ),
        Err(e) => m == Err::<(Seq<char>, Seq<char>), FetchError>(e),
    }
}

/// Relies on ring::rand::SystemRandom::fill (via ring::rand::SecureRandom):
/// 16 bytes from the system's cryptographically secure random source, or
/// `Err` when the source refuses. Nothing can be promised of the bytes
/// themselves.
#[verifier::external_body]
fn random_code_bytes() -> (r: Result<[u8; 16], ()>) {
    let rng = ring::rand::SystemRandom::new();
    let mut bytes = [0u8; 16];
    match ring::rand::SecureRandom::fill(&rng, &mut bytes) {
        Ok(()) => Ok(bytes),
        Err(_) => Err(()),
    }
}

/// Relies on uuid::Builder::from_random_bytes and the hyphenated Display
/// rendering of the version-4 UUID it builds: the builder only stamps the
/// version and variant bits — it cannot fail — and the rendering is 36
/// characters.
#[verifier::external_body]
fn code_text_from_bytes(bytes: &[u8; 16]) -> (r: String)
    ensures
        r@.len() == SHARE_CODE_LEN,
{
    uuid::Builder::from_random_bytes(*bytes).into_uuid().to_string()
}

proof fn lemma_map_of(s: Seq<StoredShare>)
    requires
        codes_unique(s),
    ensures
        forall|c: Seq<char>| #[trigger]
            map_of(s).dom().contains(c) ==> exists|i: int| 0 <= i < s.len() && s[i].code@ == c,
        forall|i: int| 0 <= i < s.len() ==> map_of(s).dom().contains(#[trigger] s[i].code@),
        forall|i: int| 0 <= i < s.len() ==> map_of(s)[#[trigger] s[i].code@] == s[i].entry@,
    decreases s.len(),
{
    if s.len() > 0 {
        let s0 = s.drop_last();
        let last = s.last();
        assert forall|i: int, j: int| 0 <= i < j < s0.len() implies s0[i].code@ != s0[j].code@ by {
            assert(s[i].code@ != s[j].code@);
        }
        lemma_map_of(s0);
        assert forall|i: int| 0 <= i < s.len() implies map_of(s).dom().contains(
            #[trigger] s[i].code@,
        ) && map_of(s)[s[i].code@] == s[i].entry@ by {
            if i < s.len() - 1 {
                assert(s0[i] == s[i]);
                assert(map_of(s0).dom().contains(s[i].code@));
                assert(s[i].code@ != last.code@);
            }
        }
        assert forall|c: Seq<char>| #[trigger] map_of(s).dom().contains(c) implies exists|i: int|
            0 <= i < s.len() && s[i].code@ == c by {
            if c == last.code@ {
                assert(s[s.len() - 1].code@ == c);
            } else {
                assert(map_of(s0).dom().contains(c));
                let i = choose|i: int| 0 <= i < s0.len() && s0[i].code@ == c;
                assert(s[i].code@ == c);
            }
        }
    }
}

proof fn lemma_map_of_push(s: Seq<StoredShare>, x: StoredShare)
    requires
        codes_unique(s),
        forall|i: int| 0 <= i < s.len() ==> s[i].code@ != x.code@,
    ensures
        codes_unique(s.push(x)),
        map_of(s.push(x)) == map_of(s).insert(x.code@, x.entry@),
{
    let t = s.push(x);
    assert forall|i: int, j: int| 0 <= i < j < t.len() implies t[i].code@ != t[j].code@ by {
        if j < t.len() - 1 {
            assert(s[i].code@ != s[j].code@);
        } else {
            assert(s[i].code@ != x.code@);
        }
    }
    assert(t.drop_last() =~= s);
    assert(t.last() == x);
}

proof fn lemma_map_of_update(s: Seq<StoredShare>, i: int, x: StoredShare)
    requires
        codes_unique(s),
        0 <= i < s.len(),
        x.code@ == s[i].code@,
    ensures
        codes_unique(s.update(i, x)),
        map_of(s.update(i, x)) == map_of(s).insert(x.code@, x.entry@),
    decreases s.len(),
{
    let t = s.update(i, x);
    assert forall|a: int, b: int| 0 <= a < b < t.len() implies t[a].code@ != t[b].code@ by {
        assert(t[a].code@ == s[a].code@);
        assert(t[b].code@ == s[b].code@);
        assert(s[a].code@ != s[b].code@);
    }
    let s0 = s.drop_last();
    assert forall|a: int, b: int| 0 <= a < b < s0.len() implies s0[a].code@ != s0[b].code@ by {
        assert(s[a].code@ != s[b].code@);
    }
    if i == s.len() - 1 {
        assert(t.drop_last() =~= s0);
        assert(t.last() == x);
        assert(map_of(t) == map_of(s0).insert(x.code@, x.entry@));
        assert(map_of(s) == map_of(s0).insert(s[i].code@, s[i].entry@));
        assert(map_of(t) =~= map_of(s).insert(x.code@, x.entry@));
    } else {
        let last = s.last();
        assert(t.drop_last() =~= s0.update(i, x));
        assert(t.last() == last);
        lemma_map_of_update(s0, i, x);
        assert(map_of(t) == map_of(s0).insert(x.code@, x.entry@).insert(last.code@, last.entry@));
        assert(map_of(s).insert(x.code@, x.entry@) == map_of(s0).insert(
            last.code@,
            last.entry@,
        ).insert(x.code@, x.entry@));
        assert(x.code@ != last.code@);
        assert(map_of(s0).insert(x.code@, x.entry@).insert(last.code@, last.entry@) =~= map_of(
            s0,
        ).insert(last.code@, last.entry@).insert(x.code@, x.entry@));
    }
}

proof fn lemma_map_of_remove(s: Seq<StoredShare>, i: int)
    requires
        codes_unique(s),
        0 <= i < s.len(),
    ensures
        codes_unique(s.remove(i)),
        map_of(s.remove(i)) == map_of(s).remove(s[i].code@),
    decreases s.len(),
{
    let t = s.remove(i);
    assert forall|a: int, b: int| 0 <= a < b < t.len() implies t[a].code@ != t[b].code@ by {
        let a0 = if a < i {
            a
        } else {
            a + 1
        };
        let b0 = if b < i {
            b
        } else {
            b + 1
        };
        assert(t[a] == s[a0]);
        assert(t[b] == s[b0]);
        assert(s[a0].code@ != s[b0].code@);
    }
    let s0 = s.drop_last();
    assert forall|a: int, b: int| 0 <= a < b < s0.len() implies s0[a].code@ != s0[b].code@ by {
        assert(s[a].code@ != s[b].code@);
    }
    lemma_map_of(s0);
    if i == s.len() - 1 {
        assert(t =~= s0);
        assert(!map_of(s0).dom().contains(s[i].code@));
        assert(map_of(s0).insert(s[i].code@, s[i].entry@).remove(s[i].code@) =~= map_of(s0));
    } else {
        let last = s.last();
        assert(t.drop_last() =~= s0.remove(i));
        assert(t.last() == last);
        assert(s0[i] == s[i]);
        lemma_map_of_remove(s0, i);
        assert(map_of(t) == map_of(s0).remove(s[i].code@).insert(last.code@, last.entry@));
        assert(s[i].code@ != last.code@);
        assert(map_of(s0).remove(s[i].code@).insert(last.code@, last.entry@) =~= map_of(
            s0,
        ).insert(last.code@, last.entry@).remove(s[i].code@));
    }
}

impl Registry {
    /// The registry's codes are pairwise distinct.
    pub closed spec fn wf(&self) -> bool {
        codes_unique(self.shares@)
    }

    /// A fresh registry holding no shares.
    pub fn new() -> (r: Registry)
        ensures
            r.wf(),
            r@ == Map::<Seq<char>, ShareEntryModel>::empty(),
    {
        Registry { shares: Vec::new() }
    }

    fn find_index(&self, code: &String) -> (r: Option<usize>)
        ensures
            r matches Some(i) ==> i < self.shares@.len() && self.shares@[i as int].code@ == code@,
            r is None ==> forall|i: int| 0 <= i < self.shares@.len() ==> self.shares@[i].code@
                != code@,
    {
        let mut j: usize = 0;
        while j < self.shares.len()
            invariant
                j <= self.shares@.len(),
                forall|i: int| 0 <= i < j ==> self.shares@[i].code@ != code@,
            decreases self.shares@.len() - j,
        {
            if self.shares[j].code == *code {
                return Some(j);
            }
            j = j + 1;
        }
        None
    }

    /// Publishes an encoded envelope under a fresh share code, with
    /// `remaining_uses` retrievals allowed until `now_secs + ttl_secs`.
    ///
    /// The code is a fresh random token of fixed length; the registry's map
    /// afterwards holds exactly the published entry under it. Fails — with
    /// the registry unchanged — exactly when the secure random source
    /// refuses to produce a code.
    pub fn publish_with_uses(
        &mut self,
        encoded_envelope: String,
        display_name: String,
        ttl_secs: u64,
        remaining_uses: u32,
        now_secs: u64,
    ) -> (r: Result<String, ()>)
        requires
            old(self).wf(),
            now_secs + ttl_secs <= u64::MAX,
        ensures
            final(self).wf(),
            r matches Ok(code) ==> code@.len() == SHARE_CODE_LEN && final(self)@ == old(
                self,
            )@.insert(
                code@,
                ShareEntryModel {
                    encoded_envelope: encoded_envelope@,
                    expiry: (now_secs + ttl_secs) as u64,
                    remaining_uses: remaining_uses,
                    display_name: display_name@,
                },
            ),
            r is Err ==> final(self)@ == old(self)@,
    {
        let bytes = match random_code_bytes() {
            Ok(b) => b,
            Err(_) => {
                return Err(());
            },
        };
        let code = code_text_from_bytes(&bytes);
        let entry = ShareEntry {
            encoded_envelope,
            expiry: now_secs + ttl_secs,
            remaining_uses,
            display_name,
        };
        let stored = StoredShare { code: code.clone(), entry };
        match self.find_index(&code) {
            Some(i) => {
                proof {
                    lemma_map_of_update(self.shares@, i as int, stored);
                }
                self.shares.set(i, stored);
            },
            None => {
                proof {
                    lemma_map_of_push(self.shares@, stored);
                }
                self.shares.push(stored);
            },
        }
        Ok(code)
    }

    /// Publishes an encoded envelope as a single-use share: one retrieval,
    /// within `ttl_secs` of `now_secs`. Fails — with the registry
    /// unchanged — exactly when the secure random source refuses to
    /// produce a code.
    pub fn publish(
        &mut self,
        encoded_envelope: String,
        display_name: String,
        ttl_secs: u64,
        now_secs: u64,
    ) -> (r: Result<String, ()>)
        requires
            old(self).wf(),
            now_secs + ttl_secs <= u64::MAX,
        ensures
            final(self).wf(),
            r matches Ok(code) ==> code@.len() == SHARE_CODE_LEN && final(self)@ == old(
                self,
            )@.insert(
                code@,
                ShareEntryModel {
                    encoded_envelope: encoded_envelope@,
                    expiry: (now_secs + ttl_secs) as u64,
                    remaining_uses: DEFAULT_USES,
                    display_name: display_name@,
                },
            ),
            r is Err ==> final(self)@ == old(self)@,
    {
        self.publish_with_uses(encoded_envelope, display_name, ttl_secs, DEFAULT_USES, now_secs)
    }

    /// Resolves a share code at time `now_secs`: the atomic check-and-consume
    /// step. The registry afterwards, and the result, are exactly what
    /// `spec_fetch` says of the registry before.
    pub fn fetch(&mut self, code: &String, now_secs: u64) -> (r: Result<ShareResponse, FetchError>)
        requires
            old(self).wf(),
        ensures
            final(self).wf(),
            final(self)@ == spec_fetch(old(self)@, code@, now_secs).0,
            fetch_models(r, spec_fetch(old(self)@, code@, now_secs).1),
    {
        proof {
            lemma_map_of(self.shares@);
        }
        let idx = match self.find_index(code) {
            Some(i) => i,
            None => {
                return Err(FetchError::NotFound);
            },
        };
        let expiry = self.shares[idx].entry.expiry;
        let uses = self.shares[idx].entry.remaining_uses;
        if now_secs > expiry {
            proof {
                lemma_map_of_remove(self.shares@, idx as int);
            }
            self.shares.remove(idx);
            return Err(FetchError::Expired);
        }
        if uses == 0 {
            proof {
                lemma_map_of_remove(self.shares@, idx as int);
            }
            self.shares.remove(idx);
            return Err(FetchError::AlreadyUsed);
        }
        let encrypted = self.shares[idx].entry.encoded_envelope.clone();
        let original_filename = self.shares[idx].entry.display_name.clone();
        if uses == 1 {
            proof {
                lemma_map_of_remove(self.shares@, idx as int);
            }
            self.shares.remove(idx);
            Ok(ShareResponse { encrypted, original_filename })
        } else {
            let updated = StoredShare {
                code: self.shares[idx].code.clone(),
                entry: ShareEntry {
                    encoded_envelope: self.shares[idx].entry.encoded_envelope.clone(),
                    expiry,
                    remaining_uses: uses - 1,
                    display_name: self.shares[idx].entry.display_name.clone(),
                },
            };
            proof {
                lemma_map_of_update(self.shares@, idx as int, updated);
            }
            self.shares.set(idx, updated);
            Ok(ShareResponse { encrypted, original_filename })
        }
    }
}

/// The results, in order, of a run of fetches of one code at the given
/// times, starting from registry map `m`.
pub open spec fn fetch_results(
    m: Map<Seq<char>, ShareEntryModel>,
    code: Seq<char>,
    times: Seq<u64>,
) -> Seq<Result<(Seq<char>, Seq<char>), FetchError>>
    decreases times.len(),
{
    if times.len() == 0 {
        Seq::empty()
    } else {
        let stepped = spec_fetch(m, code, times[0]);
        seq![stepped.1] + fetch_results(stepped.0, code, times.drop_first())
    }
}

/// How many of a run of fetch results succeeded.
pub open spec fn count_successes(rs: Seq<Result<(Seq<char>, Seq<char>), FetchError>>) -> nat
    decreases rs.len(),
{
    if rs.len() == 0 {
        0
    } else {
        (if rs[0] is Ok {
            1nat
        } else {
            0nat
        }) + count_successes(rs.drop_first())
    }
}

/// A code the registry does not hold cannot be fetched: every fetch of it
/// fails as `NotFound` and leaves the registry as it was.
pub proof fn lemma_absent_code_never_succeeds(
    m: Map<Seq<char>, ShareEntryModel>,
    code: Seq<char>,
    times: Seq<u64>,
)
    requires
        !m.dom().contains(code),
    ensures
        fetch_results(m, code, times).len() == times.len(),
        count_successes(fetch_results(m, code, times)) == 0,
        forall|k: int| 0 <= k < times.len() ==> fetch_results(m, code, times)[k] == Err::<
            (Seq<char>, Seq<char>),
            FetchError,
        >(FetchError::NotFound),
    decreases times.len(),
{
    if times.len() > 0 {
        let stepped = spec_fetch(m, code, times[0]);
        let rest = fetch_results(m, code, times.drop_first());
        lemma_absent_code_never_succeeds(m, code, times.drop_first());
        let rs = fetch_results(m, code, times);
        assert(stepped.0 == m);
        assert(rs == seq![stepped.1] + rest);
        assert(rs.drop_first() =~= rest);
        assert(count_successes(rs) == count_successes(rest));
        assert forall|k: int| 0 <= k < times.len() implies rs[k] == Err::<
            (Seq<char>, Seq<char>),
            FetchError,
        >(FetchError::NotFound) by {
            if k > 0 {
                assert(rs[k] == rest[k - 1]);
            }
        }
    }
}

/// Single use: after publishing installs an entry with one remaining use,
/// the first fetch within its lifetime returns exactly the published
/// envelope and name and removes the entry; a second fetch of the same
/// code finds nothing and changes nothing.
pub proof fn lemma_single_use(
    m: Map<Seq<char>, ShareEntryModel>,
    code: Seq<char>,
    e: ShareEntryModel,
    now1: u64,
    now2: u64,
)
    requires
        e.remaining_uses == 1,
        now1 <= e.expiry,
    ensures
        ({
            let first = spec_fetch(m.insert(code, e), code, now1);
            let second = spec_fetch(first.0, code, now2);
            &&& first.1 == Ok::<(Seq<char>, Seq<char>), FetchError>(
                (e.encoded_envelope, e.display_name),
            )
            &&& !first.0.dom().contains(code)
            &&& second.1 == Err::<(Seq<char>, Seq<char>), FetchError>(FetchError::NotFound)
            &&& second.0 == first.0
        }),
{
}

/// Expiry: once an entry's lifetime has elapsed, fetching it fails as
/// `Expired` and purges it — even when its remaining uses were never
/// consumed — and the code stays unretrievable afterwards.
pub proof fn lemma_expiry(
    m: Map<Seq<char>, ShareEntryModel>,
    code: Seq<char>,
    e: ShareEntryModel,
    now1: u64,
    now2: u64,
)
    requires
        now1 > e.expiry,
    ensures
        ({
            let first = spec_fetch(m.insert(code, e), code, now1);
            let second = spec_fetch(first.0, code, now2);
            &&& first.1 == Err::<(Seq<char>, Seq<char>), FetchError>(FetchError::Expired)
            &&& !first.0.dom().contains(code)
            &&& second.1 == Err::<(Seq<char>, Seq<char>), FetchError>(FetchError::NotFound)
            &&& second.0 == first.0
        }),
{
}

/// Serialized concurrency: however many fetches of one freshly published
/// single-use code arrive, and in whatever order they are serialized
/// within its lifetime, exactly the first succeeds — with the published
/// envelope and name — and every other one fails as `NotFound`.
pub proof fn lemma_exactly_one_success(
    m: Map<Seq<char>, ShareEntryModel>,
    code: Seq<char>,
    e: ShareEntryModel,
    times: Seq<u64>,
)
    requires
        e.remaining_uses == 1,
        times.len() >= 1,
        forall|k: int| 0 <= k < times.len() ==> times[k] <= e.expiry,
    ensures
        ({
            let rs = fetch_results(m.insert(code, e), code, times);
            &&& rs.len() == times.len()
            &&& rs[0] == Ok::<(Seq<char>, Seq<char>), FetchError>(
                (e.encoded_envelope, e.display_name),
            )
            &&& count_successes(rs) == 1
            &&& forall|k: int| 1 <= k < rs.len() ==> rs[k] == Err::<
                (Seq<char>, Seq<char>),
                FetchError,
            >(FetchError::NotFound)
        }),
{
    let m1 = m.insert(code, e);
    let first = spec_fetch(m1, code, times[0]);
    assert(first.0 == m1.remove(code));
    assert(!first.0.dom().contains(code));
    let rest = fetch_results(first.0, code, times.drop_first());
    lemma_absent_code_never_succeeds(first.0, code, times.drop_first());
    let rs = fetch_results(m1, code, times);
    assert(rs == seq![first.1] + rest);
    assert(rs.drop_first() =~= rest);
    assert(count_successes(rs) == 1 + count_successes(rest));
    assert forall|k: int| 1 <= k < rs.len() implies rs[k] == Err::<
        (Seq<char>, Seq<char>),
        FetchError,
    >(FetchError::NotFound) by {
        assert(rs[k] == rest[k - 1]);
    }
}

} // verus!
