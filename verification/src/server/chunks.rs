//! Payloads that are too large for one reply: kept for a while per peer, and
//! handed out in chunks.

use vstd::prelude::*;
use vstd::string::*;

use crate::map::TextMap;

verus! {

/// How long a payload is kept after it was last read, in nanoseconds.
pub const LIST_PACKAGES_CHUNK_CACHE_TTL: u64 = 30_000_000_000;

/// The sizes that replies keep to.
#[derive(Clone, Copy)]
pub struct ChunkLimits {
    /// The largest payload that goes out in one reply.
    pub max_payload: usize,
    /// The size of a chunk.
    pub chunk_size: usize,
    /// The largest payload that goes out in chunks.
    pub max_total: usize,
}

impl ChunkLimits {
    /// Chunks hold something, and the number of bytes fits in what a peer is told.
    pub open spec fn valid(self) -> bool {
        self.chunk_size > 0 && self.max_total <= u32::MAX
    }
}

/// A payload that waits to be fetched, and when it was last read.
pub struct CachedPayload {
    pub bytes: Vec<u8>,
    /// Nanoseconds on a clock that does not go back.
    pub at: u64,
}

/// The time that has gone by since `at`.
pub open spec fn elapsed(at: u64, now: u64) -> int {
    if now >= at {
        now - at
    } else {
        0
    }
}

/// Whether the payload has been kept for as long as it may be.
pub open spec fn is_expired(entry: CachedPayload, now: u64) -> bool {
    elapsed(entry.at, now) >= LIST_PACKAGES_CHUNK_CACHE_TTL
}

/// Whether the payload has been kept for as long as it may be.
fn expired(entry: &CachedPayload, now: u64) -> (yes: bool)
    ensures
        yes == is_expired(*entry, now),
{
    now.saturating_sub(entry.at) >= LIST_PACKAGES_CHUNK_CACHE_TTL
}

/// The entries that have not expired.
pub open spec fn unexpired(entries: Map<Seq<char>, CachedPayload>, now: u64) -> Map<
    Seq<char>,
    CachedPayload,
> {
    entries.restrict(
        Set::new(|k: Seq<char>| entries.contains_key(k) && !is_expired(entries[k], now)),
    )
}

/// How many chunks of a size a payload makes.
pub open spec fn chunk_count(len: nat, chunk_size: nat) -> nat {
    if len % chunk_size == 0 {
        len / chunk_size
    } else {
        len / chunk_size + 1
    }
}

/// The chunk of that number.
pub open spec fn chunk(payload: Seq<u8>, index: int, chunk_size: int) -> Seq<u8> {
    let start = index * chunk_size;
    let end = start + chunk_size;
    payload.subrange(
        start,
        if end <= payload.len() {
            end
        } else {
            payload.len() as int
        },
    )
}

/// What a request for a chunk comes to.
pub enum ChunkRead {
    /// Nothing is kept for the peer.
    Missing,
    /// What was kept for the peer has expired, and is gone now.
    Expired,
    /// The payload has no chunk of that number.
    OutOfRange,
    /// The chunk.
    Chunk(Vec<u8>),
}

/// What is kept once `payload` was offered to the peer.
pub open spec fn offered(
    entries: Map<Seq<char>, CachedPayload>,
    pubkey: Seq<char>,
    payload: Vec<u8>,
    now: u64,
) -> Map<Seq<char>, CachedPayload> {
    unexpired(entries, now).insert(pubkey, CachedPayload { bytes: payload, at: now })
}

/// What a request of the peer for a chunk comes to, and what is kept after it.
pub open spec fn reads(
    before: Map<Seq<char>, CachedPayload>,
    pubkey: Seq<char>,
    index: u32,
    chunk_size: usize,
    now: u64,
    after: Map<Seq<char>, CachedPayload>,
    read: ChunkRead,
) -> bool {
    let entry = before[pubkey];
    if !before.contains_key(pubkey) {
        read is Missing && after == before
    } else if is_expired(entry, now) {
        read is Expired && after == before.remove(pubkey)
    } else if index * chunk_size >= entry.bytes@.len() {
        read is OutOfRange && after == before
    } else {
        &&& read matches ChunkRead::Chunk(bytes) && bytes@ == chunk(
            entry.bytes@,
            index as int,
            chunk_size as int,
        )
        &&& after == before.insert(pubkey, CachedPayload { bytes: entry.bytes, at: now })
    }
}

/// The payloads that wait to be fetched, by the key of the peer that asked.
pub struct ChunkCache {
    pub entries: TextMap<CachedPayload>,
}

impl ChunkCache {
    /// A cache that keeps nothing.
    pub fn new() -> (cache: Self)
        ensures
            cache.entries@ == Map::<Seq<char>, CachedPayload>::empty(),
    {
        ChunkCache { entries: TextMap::new() }
    }

    /// Lets the expired payloads go.
    fn evict(&mut self, now: u64)
        ensures
            final(self).entries@ == unexpired(old(self).entries@, now),
    {
        let ghost start = self.entries@;
        let mut gone: Vec<String> = Vec::new();
        {
            let keys = self.entries.keys();
            let mut i: usize = 0;
            while i < keys.len()
                invariant
                    i <= keys@.len(),
                    start == self.entries@,
                    forall|j: int|
                        0 <= j < keys@.len() ==> start.contains_key(#[trigger] keys@[j]@),
                    forall|j: int|
                        0 <= j < gone@.len() ==> start.contains_key(#[trigger] gone@[j]@)
                            && is_expired(start[gone@[j]@], now),
                    forall|j: int|
                        0 <= j < i && is_expired(start[#[trigger] keys@[j]@], now) ==> exists|
                            k: int,
                        |
                            0 <= k < gone@.len() && #[trigger] gone@[k]@ == keys@[j]@,
                decreases keys@.len() - i,
            {
                let ghost was = gone@;
                match self.entries.get(keys[i].as_str()) {
                    Some(entry) => {
                        if expired(entry, now) {
                            gone.push(keys[i].clone());
                            proof {
                                assert forall|j: int|
                                    0 <= j <= i && is_expired(
                                        start[#[trigger] keys@[j]@],
                                        now,
                                    ) implies exists|k: int|
                                    0 <= k < gone@.len() && #[trigger] gone@[k]@ == keys@[j]@ by {
                                    if j == i {
                                        assert(gone@[was.len() as int]@ == keys@[j]@);
                                    } else {
                                        let k = choose|k: int|
                                            0 <= k < was.len() && #[trigger] was[k]@ == keys@[j]@;
                                        assert(gone@[k]@ == keys@[j]@);
                                    }
                                }
                            }
                        }
                    },
                    None => {},
                }
                i += 1;
            }
            proof {
                assert forall|key: Seq<char>| #[trigger] start.contains_key(key) && is_expired(
                    start[key],
                    now,
                ) implies exists|k: int| 0 <= k < gone@.len() && #[trigger] gone@[k]@ == key by {
                    let j = choose|j: int| 0 <= j < keys@.len() && keys@[j]@ == key;
                    assert(is_expired(start[keys@[j]@], now));
                }
            }
        }
        let mut i: usize = 0;
        while i < gone.len()
            invariant
                i <= gone@.len(),
                forall|j: int|
                    0 <= j < gone@.len() ==> start.contains_key(#[trigger] gone@[j]@)
                        && is_expired(start[gone@[j]@], now),
                forall|key: Seq<char>| #[trigger]
                    start.contains_key(key) && is_expired(start[key], now) ==> exists|k: int|
                        0 <= k < gone@.len() && #[trigger] gone@[k]@ == key,
                forall|key: Seq<char>| #[trigger]
                    self.entries@.contains_key(key) <==> start.contains_key(key) && forall|j: int|
                        0 <= j < i ==> #[trigger] gone@[j]@ != key,
                forall|key: Seq<char>| #[trigger]
                    self.entries@.contains_key(key) ==> self.entries@[key] == start[key],
            decreases gone@.len() - i,
        {
            let _ = self.entries.remove(gone[i].as_str());
            i += 1;
        }
        proof {
            assert(self.entries@ =~= unexpired(start, now));
        }
    }

    /// Keeps `payload` for the peer, in place of what was kept for it, and lets
    /// the expired payloads of others go.
    pub fn offer(&mut self, pubkey: &str, payload: Vec<u8>, now: u64)
        ensures
            final(self).entries@ == offered(old(self).entries@, pubkey@, payload, now),
    {
        self.evict(now);
        self.entries.insert(pubkey.to_owned(), CachedPayload { bytes: payload, at: now });
    }

    /// The chunk of that number of what is kept for the peer. A chunk that is
    /// handed out starts the payload's time anew.
    pub fn read_chunk(
        &mut self,
        pubkey: &str,
        index: u32,
        chunk_size: usize,
        now: u64,
    ) -> (read: ChunkRead)
        requires
            chunk_size > 0,
        ensures
            reads(
                old(self).entries@,
                pubkey@,
                index,
                chunk_size,
                now,
                final(self).entries@,
                read,
            ),
    {
        let ghost start = self.entries@;
        let bytes = match self.entries.get(pubkey) {
            None => {
                return ChunkRead::Missing;
            },
            Some(entry) => {
                if expired(entry, now) {
                    None
                } else {
                    proof {
                        assert(0 <= index * chunk_size <= 0xffff_ffff * 0xffff_ffff_ffff_ffff)
                            by (nonlinear_arith)
                            requires
                                0 <= index <= 0xffff_ffff,
                                0 <= chunk_size <= 0xffff_ffff_ffff_ffff,
                        ;
                    }
                    let from: u128 = index as u128 * chunk_size as u128;
                    if from >= entry.bytes.len() as u128 {
                        return ChunkRead::OutOfRange;
                    }
                    let to: u128 = from + chunk_size as u128;
                    let end: usize = if to <= entry.bytes.len() as u128 {
                        to as usize
                    } else {
                        entry.bytes.len()
                    };
                    Some(copy_range(&entry.bytes, from as usize, end))
                }
            },
        };
        match bytes {
            None => {
                let _ = self.entries.remove(pubkey);
                ChunkRead::Expired
            },
            Some(bytes) => {
                if let Some(entry) = self.entries.remove(pubkey) {
                    self.entries.insert(
                        pubkey.to_owned(),
                        CachedPayload { bytes: entry.bytes, at: now },
                    );
                    proof {
                        assert(start.remove(pubkey@).insert(
                            pubkey@,
                            CachedPayload { bytes: entry.bytes, at: now },
                        ) =~= start.insert(
                            pubkey@,
                            CachedPayload { bytes: entry.bytes, at: now },
                        ));
                    }
                }
                ChunkRead::Chunk(bytes)
            },
        }
    }
}

/// The bytes from `from` to `to`.
pub fn copy_range(bytes: &Vec<u8>, from: usize, to: usize) -> (part: Vec<u8>)
    requires
        from <= to <= bytes@.len(),
    ensures
        part@ == bytes@.subrange(from as int, to as int),
{
    let mut part: Vec<u8> = Vec::new();
    let mut i: usize = from;
    while i < to
        invariant
            from <= i <= to <= bytes@.len(),
            part@ == bytes@.subrange(from as int, i as int),
        decreases to - i,
    {
        part.push(bytes[i]);
        proof {
            assert(bytes@.subrange(from as int, i + 1) =~= bytes@.subrange(
                from as int,
                i as int,
            ).push(bytes@[i as int]));
        }
        i += 1;
    }
    part
}

/// How many chunks of a size a payload makes.
pub fn count_chunks(len: usize, chunk_size: usize) -> (count: usize)
    requires
        chunk_size > 0,
    ensures
        count == chunk_count(len as nat, chunk_size as nat),
        count <= len,
{
    proof {
        vstd::arithmetic::div_mod::lemma_fundamental_div_mod(len as int, chunk_size as int);
        vstd::arithmetic::div_mod::lemma_div_is_ordered_by_denominator(
            len as int,
            1,
            chunk_size as int,
        );
        vstd::arithmetic::div_mod::lemma_div_pos_is_pos(len as int, chunk_size as int);
    }
    let whole: usize = len / chunk_size;
    if len % chunk_size == 0 {
        whole
    } else {
        proof {
            if whole == len {
                assert(chunk_size * len >= len) by (nonlinear_arith)
                    requires
                        chunk_size >= 1,
                        len >= 0,
                ;
            }
        }
        whole + 1
    }
}

/// The four bytes of a number, the most significant first.
pub open spec fn be32(n: u32) -> Seq<u8> {
    seq![
        (n / 0x100_0000) as u8,
        (n / 0x1_0000 % 0x100) as u8,
        (n / 0x100 % 0x100) as u8,
        (n % 0x100) as u8,
    ]
}

/// The two bytes of a number, the most significant first.
pub open spec fn be16(n: u16) -> Seq<u8> {
    seq![(n / 0x100) as u8, (n % 0x100) as u8]
}

/// The number that four bytes make, the most significant first.
pub open spec fn from_be32(b: Seq<u8>) -> int {
    b[0] * 0x100_0000 + b[1] * 0x1_0000 + b[2] * 0x100 + b[3]
}

/// Appends the four bytes of a number.
pub fn push_be32(bytes: &mut Vec<u8>, n: u32)
    ensures
        final(bytes)@ == old(bytes)@ + be32(n),
{
    let ghost start = bytes@;
    bytes.push((n / 0x100_0000) as u8);
    bytes.push((n / 0x1_0000 % 0x100) as u8);
    bytes.push((n / 0x100 % 0x100) as u8);
    bytes.push((n % 0x100) as u8);
    proof {
        assert(bytes@ =~= start + be32(n));
    }
}

/// Appends the two bytes of a number.
pub fn push_be16(bytes: &mut Vec<u8>, n: u16)
    ensures
        final(bytes)@ == old(bytes)@ + be16(n),
{
    let ghost start = bytes@;
    bytes.push((n / 0x100) as u8);
    bytes.push((n % 0x100) as u8);
    proof {
        assert(bytes@ =~= start + be16(n));
    }
}

/// The number that the first four bytes make.
pub fn read_be32(bytes: &Vec<u8>) -> (n: u32)
    requires
        bytes@.len() >= 4,
    ensures
        n == from_be32(bytes@),
{
    bytes[0] as u32 * 0x100_0000 + bytes[1] as u32 * 0x1_0000 + bytes[2] as u32 * 0x100
        + bytes[3] as u32
}

/// What a peer is told of a payload that it has to fetch in chunks: the code of
/// the type that it stands for, its length and the number of chunks.
pub open spec fn chunked_metadata(type_code: u16, total: u32, count: u32) -> Seq<u8> {
    be16(type_code) + be32(total) + be32(count)
}

/// What a peer is told of a payload that it has to fetch in chunks.
pub fn write_chunked_metadata(type_code: u16, total: u32, count: u32) -> (meta: Vec<u8>)
    ensures
        meta@ == chunked_metadata(type_code, total, count),
{
    let mut meta: Vec<u8> = Vec::new();
    push_be16(&mut meta, type_code);
    push_be32(&mut meta, total);
    push_be32(&mut meta, count);
    meta
}

/// What the first `n` chunks of a payload make when put together.
pub open spec fn assembled(payload: Seq<u8>, chunk_size: int, n: nat) -> Seq<u8>
    decreases n,
{
    if n == 0 {
        Seq::empty()
    } else {
        assembled(payload, chunk_size, (n - 1) as nat) + chunk(payload, n - 1, chunk_size)
    }
}

/// The chunks of a payload, in order, make the payload again: as many as the
/// peer is told, each with a number that is in range, and no more.
pub proof fn law_chunks_make_the_payload(payload: Seq<u8>, chunk_size: nat)
    requires
        chunk_size > 0,
    ensures
        assembled(
            payload,
            chunk_size as int,
            chunk_count(payload.len(), chunk_size),
        ) == payload,
        forall|i: int|
            0 <= i ==> (i < chunk_count(payload.len(), chunk_size) <==> #[trigger] (i * chunk_size)
                < payload.len()),
{
    let n = chunk_count(payload.len(), chunk_size) as int;
    let len = payload.len() as int;
    let c = chunk_size as int;
    vstd::arithmetic::div_mod::lemma_fundamental_div_mod(len, c);
    vstd::arithmetic::div_mod::lemma_div_pos_is_pos(len, c);
    assert(n * c >= len && (n == 0 || (n - 1) * c < len)) by {
        let q = len / c;
        let r = len % c;
        assert((q + 1) * c == q * c + c) by (nonlinear_arith);
        assert((q - 1) * c == q * c - c) by (nonlinear_arith);
        assert(c * q == q * c) by (nonlinear_arith);
    }
    assert forall|i: int| 0 <= i implies (i < n <==> #[trigger] (i * c) < len) by {
        if i < n {
            assert(i * c <= (n - 1) * c) by (nonlinear_arith)
                requires
                    i <= n - 1,
                    c > 0,
            ;
        } else {
            assert(i * c >= n * c) by (nonlinear_arith)
                requires
                    i >= n,
                    c > 0,
            ;
        }
    }
    lemma_assembled(payload, c, n as nat);
    if n > 0 {
        assert(payload.take(len) =~= payload);
    } else {
        assert(payload =~= Seq::<u8>::empty());
    }
}

/// The first chunks make the payload's beginning.
proof fn lemma_assembled(payload: Seq<u8>, c: int, n: nat)
    requires
        c > 0,
        n == 0 || (n - 1) * c < payload.len(),
    ensures
        assembled(payload, c, n) == payload.take(
            if n * c <= payload.len() {
                n * c
            } else {
                payload.len() as int
            },
        ),
    decreases n,
{
    if n == 0 {
        assert(0 * c == 0);
        assert(assembled(payload, c, 0) =~= payload.take(0));
    } else {
        assert((n - 1) * c == n * c - c) by (nonlinear_arith);
        assert((n - 1) * c >= 0) by (nonlinear_arith)
            requires
                n >= 1,
                c > 0,
        ;
        if n > 1 {
            assert((n - 2) * c == n * c - 2 * c) by (nonlinear_arith);
        }
        lemma_assembled(payload, c, (n - 1) as nat);
        let end = if n * c <= payload.len() {
            n * c
        } else {
            payload.len() as int
        };
        assert(payload.take((n - 1) * c) + payload.subrange((n - 1) * c, end) =~= payload.take(
            end,
        ));
    }
}

/// A number survives being written and read.
pub proof fn law_be32_round_trip(n: u32)
    ensures
        from_be32(be32(n)) == n,
{
    assert(n / 0x100_0000 < 0x100 && n / 0x1_0000 % 0x100 < 0x100 && n / 0x100 % 0x100 < 0x100 && n
        % 0x100 < 0x100) by (bit_vector);
    assert((n / 0x100_0000) * 0x100_0000 + (n / 0x1_0000 % 0x100) * 0x1_0000 + (n / 0x100 % 0x100)
        * 0x100 + n % 0x100 == n) by (bit_vector);
}

/// A payload that was offered can be fetched until half a minute has gone by,
/// and not after that.
pub proof fn law_offered_payload_can_be_fetched(
    entries: Map<Seq<char>, CachedPayload>,
    pubkey: Seq<char>,
    payload: Vec<u8>,
    at: u64,
    now: u64,
)
    requires
        at <= now,
    ensures
        ({
            let after = offered(entries, pubkey, payload, at);
            &&& after.contains_key(pubkey)
            &&& after[pubkey].bytes@ == payload@
            &&& is_expired(after[pubkey], now) <==> now - at >= 30_000_000_000
        }),
{
}

/// What is kept once the peer has read at each of the times.
pub open spec fn kept_after(
    entries: Map<Seq<char>, CachedPayload>,
    pubkey: Seq<char>,
    times: Seq<u64>,
) -> Map<Seq<char>, CachedPayload>
    decreases times.len(),
{
    if times.len() == 0 {
        entries
    } else {
        let before = kept_after(entries, pubkey, times.drop_last());
        before.insert(
            pubkey,
            CachedPayload { bytes: before[pubkey].bytes, at: times.last() },
        )
    }
}

/// Less than the time that a payload is kept goes by from each time to the next,
/// and from `at` to the first.
pub open spec fn is_steady(at: u64, times: Seq<u64>) -> bool {
    forall|i: int|
        0 <= i < times.len() ==> {
            let before = if i == 0 {
                at
            } else {
                times[i - 1]
            };
            before <= #[trigger] times[i] && times[i] - before < 30_000_000_000
        }
}

/// However long it takes in all, a peer that never waits for half a minute gets
/// every chunk of the payload it was offered.
pub proof fn law_steady_peer_gets_every_chunk(
    entries: Map<Seq<char>, CachedPayload>,
    pubkey: Seq<char>,
    payload: Vec<u8>,
    at: u64,
    times: Seq<u64>,
    chunk_size: nat,
    i: int,
)
    requires
        chunk_size > 0,
        is_steady(at, times),
        times.len() == chunk_count(payload@.len(), chunk_size),
        0 <= i < times.len(),
    ensures
        ({
            let start = offered(entries, pubkey, payload, at);
            let kept = kept_after(start, pubkey, times.take(i));
            &&& kept.contains_key(pubkey)
            &&& kept[pubkey].bytes@ == payload@
            &&& !is_expired(kept[pubkey], times[i])
            &&& i * chunk_size < kept[pubkey].bytes@.len()
        }),
{
    let start = offered(entries, pubkey, payload, at);
    lemma_kept_after(start, pubkey, times.take(i));
    law_chunks_make_the_payload(payload@, chunk_size);
    assert(i * chunk_size < payload@.len());
    let before = if i == 0 {
        at
    } else {
        times[i - 1]
    };
    assert(before <= times[i] && times[i] - before < 30_000_000_000);
}

/// Reading changes nothing of a payload but the time of the last read.
proof fn lemma_kept_after(
    entries: Map<Seq<char>, CachedPayload>,
    pubkey: Seq<char>,
    times: Seq<u64>,
)
    requires
        entries.contains_key(pubkey),
    ensures
        kept_after(entries, pubkey, times).contains_key(pubkey),
        kept_after(entries, pubkey, times)[pubkey].bytes == entries[pubkey].bytes,
        kept_after(entries, pubkey, times)[pubkey].at == if times.len() == 0 {
            entries[pubkey].at
        } else {
            times.last()
        },
    decreases times.len(),
{
    if times.len() > 0 {
        lemma_kept_after(entries, pubkey, times.drop_last());
    }
}

/// An offer to one peer leaves in place what is kept for another and has not
/// expired.
pub proof fn law_peers_do_not_disturb_each_other(
    entries: Map<Seq<char>, CachedPayload>,
    pubkey: Seq<char>,
    payload: Vec<u8>,
    now: u64,
    other: Seq<char>,
)
    requires
        other != pubkey,
        entries.contains_key(other),
        now - entries[other].at < 30_000_000_000,
    ensures
        ({
            let after = offered(entries, pubkey, payload, now);
            after.contains_key(other) && after[other] == entries[other]
        }),
{
}

/// A chunk is handed out exactly where something is kept for the peer, less than
/// half a minute has gone by, and the chunk's number is in range; it holds the
/// bytes of the payload at its place, as many as a chunk has or as are left.
pub proof fn law_a_read_hands_out_the_bytes_at_its_place(
    before: Map<Seq<char>, CachedPayload>,
    pubkey: Seq<char>,
    index: u32,
    chunk_size: usize,
    now: u64,
    after: Map<Seq<char>, CachedPayload>,
    read: ChunkRead,
)
    requires
        reads(before, pubkey, index, chunk_size, now, after, read),
    ensures
        read is Missing <==> !before.contains_key(pubkey),
        read is Expired <==> before.contains_key(pubkey) && now - before[pubkey].at
            >= 30_000_000_000,
        read is Chunk <==> before.contains_key(pubkey) && now - before[pubkey].at < 30_000_000_000
            && index * chunk_size < before[pubkey].bytes@.len(),
        read matches ChunkRead::Chunk(bytes) ==> {
            let all = before[pubkey].bytes@;
            &&& bytes@.len() == if all.len() - index * chunk_size >= chunk_size {
                chunk_size as int
            } else {
                all.len() - index * chunk_size
            }
            &&& forall|j: int|
                0 <= j < bytes@.len() ==> #[trigger] bytes@[j] == all[index * chunk_size + j]
        },
{
    assert(index * chunk_size >= 0) by (nonlinear_arith)
        requires
            index >= 0,
            chunk_size >= 0,
    ;
}

/// A request for a chunk touches nothing that is kept for another peer; what is
/// kept for the peer itself stays but for its time, or goes once it has expired.
pub proof fn law_a_read_keeps_what_is_kept(
    before: Map<Seq<char>, CachedPayload>,
    pubkey: Seq<char>,
    index: u32,
    chunk_size: usize,
    now: u64,
    after: Map<Seq<char>, CachedPayload>,
    read: ChunkRead,
)
    requires
        reads(before, pubkey, index, chunk_size, now, after, read),
    ensures
        after.remove(pubkey) == before.remove(pubkey),
        read is Chunk ==> after.contains_key(pubkey) && after[pubkey].bytes == before[pubkey].bytes
            && after[pubkey].at == now,
        read is OutOfRange ==> after.contains_key(pubkey) && after[pubkey] == before[pubkey],
        read is Missing || read is Expired ==> !after.contains_key(pubkey),
{
    assert(after.remove(pubkey) =~= before.remove(pubkey));
}

/// A chunk that is handed out starts the time anew: a request within half a minute
/// of the last one never finds the payload gone.
pub proof fn law_reading_starts_the_time_anew(
    before: Map<Seq<char>, CachedPayload>,
    pubkey: Seq<char>,
    index: u32,
    chunk_size: usize,
    now: u64,
    between: Map<Seq<char>, CachedPayload>,
    first: ChunkRead,
    next_index: u32,
    later: u64,
    after: Map<Seq<char>, CachedPayload>,
    second: ChunkRead,
)
    requires
        reads(before, pubkey, index, chunk_size, now, between, first),
        first is Chunk,
        reads(between, pubkey, next_index, chunk_size, later, after, second),
        later - now < 30_000_000_000,
    ensures
        second is Chunk || second is OutOfRange,
        second is Chunk <==> next_index * chunk_size < before[pubkey].bytes@.len(),
{
}

/// After an offer, what is kept for the peer is what was offered, from now on; what
/// is kept for another peer stays as it is exactly where less than half a minute
/// has gone by.
pub proof fn law_an_offer_keeps_what_has_time_left(
    entries: Map<Seq<char>, CachedPayload>,
    pubkey: Seq<char>,
    payload: Vec<u8>,
    now: u64,
    other: Seq<char>,
)
    ensures
        ({
            let after = offered(entries, pubkey, payload, now);
            &&& after.contains_key(pubkey) && after[pubkey].bytes == payload && after[pubkey].at
                == now
            &&& other != pubkey ==> {
                &&& after.contains_key(other) <==> entries.contains_key(other) && now
                    - entries[other].at < 30_000_000_000
                &&& after.contains_key(other) ==> after[other] == entries[other]
            }
        }),
{
}

/// What a peer is told of a payload can be read back: first the code of its type,
/// then its length, then the number of chunks, the most significant byte of each
/// first.
pub proof fn law_metadata_can_be_read_back(type_code: u16, total: u32, count: u32)
    ensures
        ({
            let m = chunked_metadata(type_code, total, count);
            &&& m.len() == 10
            &&& m[0] * 256 + m[1] == type_code
            &&& m[2] * 16_777_216 + m[3] * 65_536 + m[4] * 256 + m[5] == total
            &&& m[6] * 16_777_216 + m[7] * 65_536 + m[8] * 256 + m[9] == count
        }),
{
    law_be32_round_trip(total);
    law_be32_round_trip(count);
    let m = chunked_metadata(type_code, total, count);
    assert(m.subrange(2, 6) =~= be32(total));
    assert(m.subrange(6, 10) =~= be32(count));
    assert(m[2] == m.subrange(2, 6)[0] && m[3] == m.subrange(2, 6)[1] && m[4] == m.subrange(
        2,
        6,
    )[2] && m[5] == m.subrange(2, 6)[3]);
    assert(m[6] == m.subrange(6, 10)[0] && m[7] == m.subrange(6, 10)[1] && m[8] == m.subrange(
        6,
        10,
    )[2] && m[9] == m.subrange(6, 10)[3]);
}

} // verus!
