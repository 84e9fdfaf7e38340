//! Event integrity chain — SHA-256 hash linking.
//!
//! Each event carries a `prev_hash` linking it to its predecessor.
//! The hash covers `prev_hash || event_json`:
//! `hash = hex(SHA-256(utf8(prev_hash) ++ utf8(event_json)))`,
//! stored as a 64-character lowercase hex string. Verification walks
//! the chain forwards, recomputing each hash and comparing it with the
//! stored one, and checking that each link names its predecessor's
//! stored hash, so that a modified, deleted or inserted event breaks
//! the chain.

use vstd::prelude::*;
use crate::text::{str_eq, trim_str, trim};
use sha2::Digest;

verus! {

/// Length of a SHA-256 hex digest.
pub const HASH_HEX_LEN: usize = 64;

// ─── trusted primitives ──────────────────────────────────────

/// The SHA-256 digest of `data` (FIPS 180-4).
pub uninterp spec fn sha256_of(data: Seq<u8>) -> Seq<u8>;

/// `sha2::Sha256`: `new`, `update(a)`, `update(b)`, `finalize`.
/// Feeding `a` then `b` digests their concatenation; the digest is
/// 32 bytes long.
#[verifier::external_body]
fn sha256_two(a: &[u8], b: &[u8]) -> (r: Vec<u8>)
    ensures
        r@ == sha256_of(a@ + b@),
        r@.len() == 32,
{
    let mut hasher = sha2::Sha256::new();
    hasher.update(a);
    hasher.update(b);
    hasher.finalize().to_vec()
}

/// Lowercase hex digit of a nibble.
pub open spec fn hex_digit(n: u8) -> char {
    if n < 10 {
        (('0' as u8) + n) as char
    } else {
        (('a' as u8) + (n - 10)) as char
    }
}

/// Lowercase hex encoding: two characters per byte, high nibble first.
pub open spec fn hex_lower(bytes: Seq<u8>) -> Seq<char>
    decreases bytes.len(),
{
    if bytes.len() == 0 {
        Seq::empty()
    } else {
        hex_lower(bytes.drop_last()) + seq![hex_digit(bytes.last() / 16), hex_digit(bytes.last() % 16)]
    }
}

/// `hex::encode`: each byte as two lowercase hex digits, high nibble
/// first, in order.
#[verifier::external_body]
fn hex_encode(bytes: &[u8]) -> (r: String)
    ensures
        r@ == hex_lower(bytes@),
{
    hex::encode(bytes)
}

// ─── chain hashing ───────────────────────────────────────────

/// The hash that links `event_json` to `prev_hash`.
pub open spec fn event_hash(prev_hash: Seq<char>, event_json: Seq<char>) -> Seq<char> {
    hex_lower(sha256_of(vstd::utf8::encode_utf8(prev_hash) + vstd::utf8::encode_utf8(event_json)))
}

/// Compute the hash of an event given the previous hash and the
/// event's JSON representation: `SHA-256(prev_hash_hex || event_json)`.
pub fn compute_event_hash(prev_hash: &str, event_json: &str) -> (r: String)
    ensures
        r@ == event_hash(prev_hash@, event_json@),
{
    let digest = sha256_two(prev_hash.as_bytes(), event_json.as_bytes());
    hex_encode(digest.as_slice())
}

/// Verify a single link in the chain: `expected_hash` equals the
/// recomputed hash of `prev_hash || event_json`.
pub fn verify_link(prev_hash: &str, event_json: &str, expected_hash: &str) -> (r: bool)
    ensures
        r == (event_hash(prev_hash@, event_json@) == expected_hash@),
{
    let h = compute_event_hash(prev_hash, event_json);
    str_eq(h.as_str(), expected_hash)
}

/// Genesis hash from the chain seed: the hash of the trimmed seed.
pub open spec fn genesis_of(seed: Seq<char>) -> Seq<char> {
    hex_lower(sha256_of(vstd::utf8::encode_utf8(trim(seed))))
}

/// Compute the genesis hash (chain seed) from a resolved seed string.
pub fn genesis_hash_from_seed(seed: &str) -> (r: String)
    ensures
        r@ == genesis_of(seed@),
{
    let t = trim_str(seed);
    let empty: [u8; 0] = [];
    let digest = sha256_two(t.as_str().as_bytes(), empty.as_slice());
    proof {
        assert(vstd::utf8::encode_utf8(t@) + empty@ =~= vstd::utf8::encode_utf8(t@));
    }
    hex_encode(digest.as_slice())
}

// ─── chain seed ──────────────────────────────────────────────

/// The chain seed chosen from what could be read: the trimmed machine
/// ID when it is not blank, else the trimmed seed file when it is not
/// blank, else none (a new random seed is needed).
pub open spec fn seed_choice(machine_id: Option<Seq<char>>, seed_file: Option<Seq<char>>) -> Option<Seq<char>> {
    match machine_id {
        Some(m) if trim(m).len() > 0 => Some(trim(m)),
        _ => match seed_file {
            Some(f) if trim(f).len() > 0 => Some(trim(f)),
            _ => None,
        },
    }
}

/// Choose the chain seed from the contents of `/etc/machine-id` and of
/// the seed file (`None` where unreadable).
pub fn choose_seed(machine_id: Option<&str>, seed_file: Option<&str>) -> (r: Option<String>)
    ensures
        match r {
            Some(s) => seed_choice(opt_seq(machine_id), opt_seq(seed_file)) == Some(s@),
            None => seed_choice(opt_seq(machine_id), opt_seq(seed_file)) is None,
        },
{
    match machine_id {
        Some(m) => {
            let t = trim_str(m);
            if !t.as_str().is_empty() {
                return Some(t);
            }
        },
        None => {},
    }
    match seed_file {
        Some(f) => {
            let t = trim_str(f);
            if !t.as_str().is_empty() {
                return Some(t);
            }
        },
        None => {},
    }
    None
}

/// The view of an optional string slice.
pub open spec fn opt_seq(o: Option<&str>) -> Option<Seq<char>> {
    match o {
        Some(s) => Some(s@),
        None => None,
    }
}

/// Where the chain seed is kept: `$XDG_STATE_HOME`, else
/// `$HOME/.local/state`, else `/tmp`; then `harness/chain-seed`.
pub open spec fn seed_path_of(xdg_state: Option<Seq<char>>, home: Option<Seq<char>>) -> Seq<char> {
    let base = match xdg_state {
        Some(x) => x,
        None => match home {
            Some(h) => crate::paths::path_join(h, ".local/state"@),
            None => "/tmp"@,
        },
    };
    crate::paths::path_join(crate::paths::path_join(base, "harness"@), "chain-seed"@)
}

/// The seed file path given `XDG_STATE_HOME` and `HOME` (`None` when
/// unset).
pub fn seed_file_path(xdg_state: Option<&str>, home: Option<&str>) -> (r: String)
    ensures
        r@ == seed_path_of(opt_seq(xdg_state), opt_seq(home)),
{
    let base = match xdg_state {
        Some(x) => x.to_owned(),
        None => match home {
            Some(h) => crate::paths::join(h, ".local/state"),
            None => "/tmp".to_owned(),
        },
    };
    let h = crate::paths::join(base.as_str(), "harness");
    crate::paths::join(h.as_str(), "chain-seed")
}

/// 32 bytes from the operating system's random source
/// (`getrandom::fill`); `None` when the source fails. Nothing is stated
/// of the bytes: they are random.
#[verifier::external_body]
fn random_bytes_32() -> (r: Option<Vec<u8>>)
    ensures
        r matches Some(v) ==> v@.len() == 32,
{
    let mut buf = [0u8; 32];
    match getrandom::fill(&mut buf) {
        Ok(()) => Some(buf.to_vec()),
        Err(_) => None,
    }
}

/// A fresh random seed: 32 random bytes in lowercase hex (64
/// characters); `None` when the random source fails.
pub fn generate_random_seed() -> (r: Option<String>)
    ensures
        r matches Some(s) ==> exists|b: Seq<u8>| b.len() == 32 && s@ == hex_lower(b),
{
    match random_bytes_32() {
        Some(b) => Some(hex_encode(b.as_slice())),
        None => None,
    }
}

// ─── chain verification ──────────────────────────────────────

/// Result of verifying the full chain.
#[derive(Debug, Clone, PartialEq, Eq)]
pub enum ChainVerdict {
    /// All links verified successfully.
    Intact {
        /// Number of events verified.
        count: usize,
    },
    /// A break was detected at the given position.
    Broken {
        /// 0-indexed position of the first broken link.
        position: usize,
        /// Expected hash (recomputed).
        expected: String,
        /// Actual hash found in the journal.
        found: String,
    },
    /// The chain is empty (no events to verify).
    Empty,
}

/// One stored link `(prev_hash, event_json, stored_hash)` checks out.
pub open spec fn link_ok(l: (String, String, String)) -> bool {
    event_hash(l.0@, l.1@) == l.2@
}

/// Link `i` hangs off the stored hash of the link before it (the first
/// link hangs off whatever it names).
pub open spec fn link_chains(links: Seq<(String, String, String)>, i: int) -> bool {
    i == 0 || links[i].0@ == links[i - 1].2@
}

/// Link `i` checks out against its own stored hash and hangs off its
/// predecessor.
pub open spec fn link_sound(links: Seq<(String, String, String)>, i: int) -> bool {
    link_ok(links[i]) && link_chains(links, i)
}

/// Every link in `links[..n]` is sound.
pub open spec fn links_sound_upto(links: Seq<(String, String, String)>, n: int) -> bool {
    forall|i: int| 0 <= i < n ==> #[trigger] link_sound(links, i)
}

/// Every link in `links[..n]` checks out against its own stored hash.
pub open spec fn links_ok_upto(links: Seq<(String, String, String)>, n: int) -> bool {
    forall|i: int| 0 <= i < n ==> link_ok(#[trigger] links[i])
}

/// The verdict `verify_chain` gives for `links`: `Empty` for no links;
/// `Intact` when every link checks out and hangs off its predecessor;
/// else `Broken` at the first link that does not, with its recomputed
/// and its stored hash.
pub open spec fn chain_verdict_ok(links: Seq<(String, String, String)>, v: ChainVerdict) -> bool {
    match v {
        ChainVerdict::Empty => links.len() == 0,
        ChainVerdict::Intact { count } => links.len() > 0 && count == links.len()
            && links_sound_upto(links, links.len() as int),
        ChainVerdict::Broken { position, expected, found } => {
            &&& position < links.len()
            &&& links_sound_upto(links, position as int)
            &&& !link_sound(links, position as int)
            &&& expected@ == event_hash(links[position as int].0@, links[position as int].1@)
            &&& found@ == links[position as int].2@
        },
    }
}

/// Verify a sequence of `(prev_hash, event_json, stored_hash)` tuples.
///
/// The caller reads the chain in order. Empty input gives `Empty`;
/// otherwise the first link whose stored hash differs from the
/// recomputed one, or whose `prev_hash` is not the stored hash of the
/// link before it, is reported as `Broken`; `Intact` with the count
/// when every link checks out.
pub fn verify_chain(links: &[(String, String, String)]) -> (r: ChainVerdict)
    ensures
        chain_verdict_ok(links@, r),
{
    if links.len() == 0 {
        return ChainVerdict::Empty;
    }
    let mut i: usize = 0;
    while i < links.len()
        invariant
            i <= links.len(),
            links_sound_upto(links@, i as int),
        decreases links.len() - i,
    {
        let l = &links[i];
        let own = verify_link(l.0.as_str(), l.1.as_str(), l.2.as_str());
        let chained = i == 0 || str_eq(l.0.as_str(), links[i - 1].2.as_str());
        proof {
            assert(own && chained <==> link_sound(links@, i as int));
        }
        if !(own && chained) {
            let expected = compute_event_hash(l.0.as_str(), l.1.as_str());
            return ChainVerdict::Broken { position: i, expected, found: l.2.clone() };
        }
        i = i + 1;
    }
    ChainVerdict::Intact { count: links.len() }
}

/// A copy of a stored link.
pub fn clone_link(l: &(String, String, String)) -> (r: (String, String, String))
    ensures
        r == *l,
{
    (l.0.clone(), l.1.clone(), l.2.clone())
}

/// Whether a verdict reports no break (`Intact` or `Empty`).
pub open spec fn verdict_sound(v: ChainVerdict) -> bool {
    !(v is Broken)
}

/// Integrity of a chain spot-check given its links newest first, as a
/// journal query returns them: the links are put back in chain order
/// and verified; `true` unless a break is found.
pub fn integrity_of_recent_links(newest_first: Vec<(String, String, String)>) -> (r: bool)
    ensures
        r == links_sound_upto(newest_first@.reverse(), newest_first@.len() as int),
{
    let mut ordered: Vec<(String, String, String)> = Vec::new();
    let mut k = newest_first.len();
    while k > 0
        invariant
            k <= newest_first.len(),
            ordered@ == newest_first@.reverse().subrange(0, (newest_first.len() - k) as int),
        decreases k,
    {
        k = k - 1;
        ordered.push(clone_link(&newest_first[k]));
        proof {
            assert(ordered@ =~= newest_first@.reverse().subrange(0, (newest_first.len() - k) as int));
        }
    }
    proof {
        assert(ordered@ =~= newest_first@.reverse());
    }
    let v = verify_chain(ordered.as_slice());
    match v {
        ChainVerdict::Broken { .. } => false,
        _ => true,
    }
}

// ─── the chain itself ────────────────────────────────────────

/// A hash-linked chain of event payloads: each link stores the hash of
/// its predecessor (the genesis hash for the first), the payload and
/// its own hash. This is the state a journal writer keeps between
/// appends.
pub struct HashChain {
    genesis: String,
    links: Vec<(String, String, String)>,
}

/// The chain is well linked: every link checks out, the first link
/// hangs off the genesis hash, and each later link off the stored hash
/// of the one before.
pub open spec fn well_linked(genesis: Seq<char>, links: Seq<(String, String, String)>) -> bool {
    &&& links_ok_upto(links, links.len() as int)
    &&& links.len() > 0 ==> links[0].0@ == genesis
    &&& forall|i: int| 0 < i < links.len() ==> (#[trigger] links[i]).0@ == links[i - 1].2@
}

impl HashChain {
    /// The chain's genesis hash.
    pub closed spec fn genesis_hash(&self) -> Seq<char> {
        self.genesis@
    }

    /// The stored links, oldest first.
    pub closed spec fn links(&self) -> Seq<(String, String, String)> {
        self.links@
    }

    pub closed spec fn wf(&self) -> bool {
        well_linked(self.genesis@, self.links@)
    }

    /// An empty chain seeded with `genesis`.
    pub fn new(genesis: String) -> (c: Self)
        ensures
            c.wf(),
            c.genesis_hash() == genesis@,
            c.links().len() == 0,
    {
        HashChain { genesis, links: Vec::new() }
    }

    /// The hash the next appended link will hang off: the last stored
    /// hash, or the genesis hash for an empty chain.
    pub fn last_hash(&self) -> (r: String)
        ensures
            r == self.last_hash_spec(),
            r@ == (if self.links().len() == 0 { self.genesis_hash() } else { self.links().last().2@ }),
    {
        if self.links.len() == 0 {
            self.genesis.clone()
        } else {
            self.links[self.links.len() - 1].2.clone()
        }
    }

    /// Number of stored links.
    pub fn len(&self) -> (r: usize)
        ensures
            r == self.links().len(),
    {
        self.links.len()
    }

    /// Append a payload: link it to the last hash and store the new hash.
    /// Returns the new hash.
    pub fn append(&mut self, payload: String) -> (r: String)
        requires
            old(self).wf(),
        ensures
            final(self).wf(),
            final(self).genesis_hash() == old(self).genesis_hash(),
            final(self).links() == old(self).links().push((old(self).last_hash_spec(), payload, r)),
            r@ == event_hash(old(self).last_hash_spec()@, payload@),
    {
        let prev = self.last_hash();
        let hash = compute_event_hash(prev.as_str(), payload.as_str());
        let r = hash.clone();
        let ghost old_links = self.links@;
        self.links.push((prev, payload, hash));
        proof {
            assert forall|i: int| 0 <= i < self.links@.len() implies link_ok(#[trigger] self.links@[i]) by {
                if i < old_links.len() {
                    assert(self.links@[i] == old_links[i]);
                }
            }
            assert forall|i: int| 0 < i < self.links@.len() implies (#[trigger] self.links@[i]).0@ == self.links@[i - 1].2@ by {
                if i < old_links.len() {
                    assert(self.links@[i] == old_links[i]);
                }
            }
        }
        r
    }

    /// The hash the next link hangs off, as a string value.
    pub closed spec fn last_hash_spec(&self) -> String {
        if self.links@.len() == 0 { self.genesis } else { self.links@.last().2 }
    }

    /// Spot-check the last (up to) ten links, as the journal does.
    /// `true` when they verify.
    pub fn check_integrity(&self) -> (r: bool)
        ensures
            r == links_sound_upto(
                self.links().subrange(
                    if self.links().len() >= 10 { self.links().len() - 10 } else { 0 },
                    self.links().len() as int,
                ),
                if self.links().len() >= 10 { 10 } else { self.links().len() as int },
            ),
    {
        let n = self.links.len();
        let start = if n >= 10 { n - 10 } else { 0 };
        let mut tail: Vec<(String, String, String)> = Vec::new();
        let mut i = start;
        while i < n
            invariant
                start <= i <= n == self.links@.len(),
                tail@ == self.links@.subrange(start as int, i as int),
            decreases n - i,
        {
            tail.push(clone_link(&self.links[i]));
            i = i + 1;
            proof {
                assert(tail@ =~= self.links@.subrange(start as int, i as int));
            }
        }
        let v = verify_chain(tail.as_slice());
        match v {
            ChainVerdict::Broken { .. } => false,
            _ => true,
        }
    }

    /// All stored links, oldest first.
    pub fn to_links(&self) -> (r: Vec<(String, String, String)>)
        ensures
            r@ == self.links(),
    {
        let mut out: Vec<(String, String, String)> = Vec::new();
        let mut i: usize = 0;
        while i < self.links.len()
            invariant
                i <= self.links@.len(),
                out@ == self.links@.subrange(0, i as int),
            decreases self.links@.len() - i,
        {
            out.push(clone_link(&self.links[i]));
            i = i + 1;
            proof {
                assert(out@ =~= self.links@.subrange(0, i as int));
            }
        }
        proof {
            assert(out@ =~= self.links@);
        }
        out
    }
}

// ─── laws ────────────────────────────────────────────────────

/// A chain grown only by `append` is always reported intact (or empty)
/// by `verify_chain`, whatever was appended.
pub proof fn lemma_appended_chain_verifies(c: HashChain, v: ChainVerdict)
    requires
        c.wf(),
        chain_verdict_ok(c.links(), v),
    ensures
        verdict_sound(v),
{
    let links = c.links();
    assert forall|i: int| 0 <= i < links.len() implies #[trigger] link_sound(links, i) by {
        assert(link_ok(links[i]));
        if i > 0 {
            assert(links[i].0@ == links[i - 1].2@);
        }
    }
}

/// Tamper evidence: when a link of the chain is not sound (its stored
/// hash does not match its predecessor's hash and payload, or it does
/// not hang off the link before it) and every earlier link is,
/// `verify_chain` reports a break at that link.
pub proof fn lemma_tampered_chain_breaks(links: Seq<(String, String, String)>, k: int, v: ChainVerdict)
    requires
        0 <= k < links.len(),
        !link_sound(links, k),
        links_sound_upto(links, k),
        chain_verdict_ok(links, v),
    ensures
        v matches ChainVerdict::Broken { position, .. } && position == k,
{
    match v {
        ChainVerdict::Broken { position, .. } => {
            if (position as int) < k {
                assert(link_sound(links, position as int));
            }
            if (position as int) > k {
                assert(link_sound(links, k));
            }
        },
        ChainVerdict::Intact { .. } => {
            assert(link_sound(links, k));
        },
        ChainVerdict::Empty => {},
    }
}

/// Deletion is caught: removing an inner link `i` (one with links both
/// before and after it) from a chain grown by `append` makes
/// `verify_chain` report a break at `i`, unless the removed link's
/// stored hash equals its predecessor's.
pub proof fn lemma_deleted_link_breaks(c: HashChain, i: int, v: ChainVerdict)
    requires
        c.wf(),
        1 <= i,
        i + 1 < c.links().len(),
        c.links()[i].2@ != c.links()[i - 1].2@,
        chain_verdict_ok(c.links().remove(i), v),
    ensures
        v matches ChainVerdict::Broken { position, .. } && position == i,
{
    let links = c.links();
    let d = links.remove(i);
    assert(d[i] == links[i + 1]);
    assert(d[i - 1] == links[i - 1]);
    assert(links[i + 1].0@ == links[i].2@);
    assert(!link_sound(d, i));
    assert forall|j: int| 0 <= j < i implies #[trigger] link_sound(d, j) by {
        assert(d[j] == links[j]);
        assert(link_ok(links[j]));
        if j > 0 {
            assert(d[j - 1] == links[j - 1]);
            assert(links[j].0@ == links[j - 1].2@);
        }
    }
    lemma_tampered_chain_breaks(d, i, v);
}

/// Insertion is caught: a link inserted at `i` in a chain grown by
/// `append`, before an existing link, makes `verify_chain` report a
/// break, unless the inserted link's stored hash equals the stored hash
/// of the link before it (the genesis hash at the front).
pub proof fn lemma_inserted_link_breaks(c: HashChain, i: int, l: (String, String, String), v: ChainVerdict)
    requires
        c.wf(),
        0 <= i < c.links().len(),
        l.2@ != (if i == 0 { c.genesis_hash() } else { c.links()[i - 1].2@ }),
        chain_verdict_ok(c.links().insert(i, l), v),
    ensures
        v is Broken,
{
    let links = c.links();
    let d = links.insert(i, l);
    assert(d[i] == l);
    assert(d[i + 1] == links[i]);
    assert forall|j: int| 0 <= j < i implies #[trigger] link_sound(d, j) by {
        assert(d[j] == links[j]);
        assert(link_ok(links[j]));
        if j > 0 {
            assert(d[j - 1] == links[j - 1]);
            assert(links[j].0@ == links[j - 1].2@);
        }
    }
    if i > 0 {
        assert(links[i].0@ == links[i - 1].2@);
    } else {
        assert(links[0].0@ == c.genesis_hash());
    }
    assert(!link_chains(d, i + 1));
    if link_sound(d, i) {
        assert(links_sound_upto(d, i + 1));
        lemma_tampered_chain_breaks(d, i + 1, v);
    } else {
        lemma_tampered_chain_breaks(d, i, v);
    }
}

} // verus!
