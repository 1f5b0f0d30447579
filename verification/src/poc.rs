use vstd::prelude::*;
use crate::shabal::{shabal256, shabal256_digest};

verus! {

/// Size of one hash in bytes.
pub const HASH_SIZE: usize = 32;

/// Size of a scoop in bytes: two hashes.
pub const SCOOP_SIZE: usize = 64;

/// Number of scoops in a nonce.
pub const NUM_SCOOPS: usize = 4096;

/// Size of a nonce in bytes.
pub const NONCE_SIZE: usize = 262144;

/// Largest number of bytes hashed for one link of the nonce chain.
pub const HASH_CAP: usize = 4096;

/// Number of hashes in a nonce.
pub const HASHES_PER_NONCE: usize = 8192;

/// Big-endian bytes of a 64-bit number.
pub open spec fn be_bytes(x: u64) -> Seq<u8> {
    Seq::new(8, |k: int| ((x >> ((7 - k) * 8) as u64) & 0xff) as u8)
}

/// The number whose little-endian encoding starts `h`.
pub open spec fn le_u64(h: Seq<u8>) -> u64 {
    (h[0] as u64) | ((h[1] as u64) << 8u64) | ((h[2] as u64) << 16u64) | ((h[3] as u64)
        << 24u64) | ((h[4] as u64) << 32u64) | ((h[5] as u64) << 40u64) | ((h[6] as u64)
        << 48u64) | ((h[7] as u64) << 56u64)
}

/// The scoop number a 32-byte digest selects: its last 12 bits.
pub open spec fn scoop_of_digest(h: Seq<u8>) -> u32 {
    (((h[30] & 0x0f) as u32) << 8u32) | (h[31] as u32)
}

/// The scoop for a block: chosen by the digest of the generation signature
/// followed by the big-endian height.
pub open spec fn spec_scoop(height: u64, gensig: Seq<u8>) -> u32 {
    scoop_of_digest(shabal256_digest(gensig + be_bytes(height)))
}

/// The generation signature that follows `last_gensig` when the block was
/// forged by `last_generator`.
pub open spec fn spec_new_gensig(last_generator: u64, last_gensig: Seq<u8>) -> Seq<u8> {
    shabal256_digest(last_gensig + be_bytes(last_generator))
}

/// The raw deadline of a scoop: the first eight bytes, little endian, of the
/// digest of the generation signature followed by the scoop.
pub open spec fn scoop_deadline(gensig: Seq<u8>, scoop: Seq<u8>) -> u64 {
    le_u64(shabal256_digest(gensig + scoop))
}

/// The raw deadline of the `i`-th scoop in `data`.
pub open spec fn nth_deadline(data: Seq<u8>, gensig: Seq<u8>, i: int) -> u64 {
    scoop_deadline(gensig, data.subrange(i * 64, i * 64 + 64))
}

/// Best deadline among the first `n` scoops of `data` and the index where it
/// first occurs; `(u64::MAX, 0)` where there is none.
pub open spec fn best_deadline(data: Seq<u8>, gensig: Seq<u8>, n: nat) -> (u64, u64)
    decreases n,
{
    if n == 0 {
        (u64::MAX, 0)
    } else {
        let prev = best_deadline(data, gensig, (n - 1) as nat);
        let d = nth_deadline(data, gensig, n - 1);
        if d < prev.0 {
            (d, (n - 1) as u64)
        } else {
            prev
        }
    }
}

/// The bytes hashed for one link of the nonce chain: at most `HASH_CAP` of
/// the bytes that follow it.
pub open spec fn hash_window(tail: Seq<u8>) -> Seq<u8> {
    if tail.len() <= HASH_CAP {
        tail
    } else {
        tail.take(HASH_CAP as int)
    }
}

/// The seed of a nonce: account id and nonce number, big endian.
pub open spec fn nonce_seed(numeric_id: u64, nonce: u64) -> Seq<u8> {
    be_bytes(numeric_id) + be_bytes(nonce)
}

/// The generation buffer after `k` hashes have been put in front of the seed.
pub open spec fn gen_tail(seed: Seq<u8>, k: nat) -> Seq<u8>
    decreases k,
{
    if k == 0 {
        seed
    } else {
        let prev = gen_tail(seed, (k - 1) as nat);
        shabal256_digest(hash_window(prev)) + prev
    }
}

/// The bytes of a nonce (in the original, unshuffled scoop order): the
/// chained hashes, each byte xored with the digest of the whole buffer.
pub open spec fn nonce_data(numeric_id: u64, nonce: u64) -> Seq<u8> {
    let g = gen_tail(nonce_seed(numeric_id, nonce), HASHES_PER_NONCE as nat);
    let f = shabal256_digest(g);
    Seq::new(NONCE_SIZE as nat, |j: int| g[j] ^ f[j % 32])
}

fn push_be_bytes(buf: &mut Vec<u8>, x: u64)
    ensures
        final(buf)@ == old(buf)@ + be_bytes(x),
{
    let ghost start = buf@;
    let mut k: usize = 0;
    while k < 8
        invariant
            k <= 8,
            buf@ == start + be_bytes(x).take(k as int),
        decreases 8 - k,
    {
        let shift: u64 = ((7 - k) * 8) as u64;
        let b: u8 = ((x >> shift) & 0xff) as u8;
        buf.push(b);
        assert(be_bytes(x).take(k + 1) =~= be_bytes(x).take(k as int).push(b));
        k = k + 1;
    }
    assert(be_bytes(x).take(8) =~= be_bytes(x));
}

fn push_bytes(buf: &mut Vec<u8>, src: &[u8])
    ensures
        final(buf)@ == old(buf)@ + src@,
{
    let ghost start = buf@;
    let mut i: usize = 0;
    while i < src.len()
        invariant
            i <= src@.len(),
            buf@ == start + src@.take(i as int),
        decreases src@.len() - i,
    {
        buf.push(src[i]);
        assert(src@.take(i + 1) =~= src@.take(i as int).push(src@[i as int]));
        i = i + 1;
    }
    assert(src@.take(src@.len() as int) =~= src@);
}

fn digest_with_number(prefix: &[u8; 32], x: u64) -> (hash: [u8; 32])
    ensures
        hash@ == shabal256_digest(prefix@ + be_bytes(x)),
{
    let mut data: Vec<u8> = Vec::new();
    push_bytes(&mut data, prefix.as_slice());
    push_be_bytes(&mut data, x);
    assert(data@ =~= prefix@ + be_bytes(x));
    shabal256(data.as_slice())
}

/// Selects the scoop for `height` under the generation signature `gensig`.
pub fn calculate_scoop(height: u64, gensig: &[u8; 32]) -> (scoop: u32)
    ensures
        scoop == spec_scoop(height, gensig@),
        scoop < NUM_SCOOPS,
{
    let hash = digest_with_number(gensig, height);
    let h30 = hash[30];
    let h31 = hash[31];
    assert(((((h30 & 0x0f) as u32) << 8u32) | (h31 as u32)) < 4096) by (bit_vector);
    (((h30 & 0x0f) as u32) << 8u32) | (h31 as u32)
}

/// Computes the generation signature of the next block from the previous
/// one and the account that forged it.
pub fn calculate_new_gensig(last_generator: u64, last_gensig: &[u8; 32]) -> (gensig: [u8; 32])
    ensures
        gensig@ == spec_new_gensig(last_generator, last_gensig@),
{
    digest_with_number(last_gensig, last_generator)
}

fn le_u64_of(h: &[u8; 32]) -> (x: u64)
    ensures
        x == le_u64(h@),
{
    (h[0] as u64) | ((h[1] as u64) << 8u64) | ((h[2] as u64) << 16u64) | ((h[3] as u64)
        << 24u64) | ((h[4] as u64) << 32u64) | ((h[5] as u64) << 40u64) | ((h[6] as u64)
        << 48u64) | ((h[7] as u64) << 56u64)
}

/// Finds the best (lowest) deadline among the first `number_of_nonces`
/// scoops of `data`, and the index of the first scoop that reaches it.
pub fn find_best_deadline_rust(data: &[u8], number_of_nonces: u64, gensig: &[u8; 32]) -> (r: (
    u64,
    u64,
))
    requires
        number_of_nonces * 64 <= data@.len(),
    ensures
        r == best_deadline(data@, gensig@, number_of_nonces as nat),
        forall|i: int| 0 <= i < number_of_nonces ==> r.0 <= nth_deadline(data@, gensig@, i),
        number_of_nonces > 0 ==> r.1 < number_of_nonces && nth_deadline(data@, gensig@, r.1 as int)
            == r.0,
        forall|i: int| 0 <= i < r.1 ==> r.0 < nth_deadline(data@, gensig@, i),
{
    let mut best: u64 = u64::MAX;
    let mut offset: u64 = 0;
    let mut i: u64 = 0;
    while i < number_of_nonces
        invariant
            i <= number_of_nonces,
            number_of_nonces * 64 <= data@.len(),
            (best, offset) == best_deadline(data@, gensig@, i as nat),
        decreases number_of_nonces - i,
    {
        let len = data.len();
        assert(i * 64 + 64 <= len);
        let start: usize = (i * 64) as usize;
        let scoop = vstd::slice::slice_subrange(data, start, start + 64);
        let mut buf: Vec<u8> = Vec::new();
        push_bytes(&mut buf, gensig.as_slice());
        push_bytes(&mut buf, scoop);
        assert(buf@ =~= gensig@ + data@.subrange(i * 64, i * 64 + 64));
        let hash = shabal256(buf.as_slice());
        let deadline = le_u64_of(&hash);
        if deadline < best {
            best = deadline;
            offset = i;
        }
        i = i + 1;
    }
    proof {
        lemma_best_deadline_is_first_minimum(data@, gensig@, number_of_nonces as nat);
    }
    (best, offset)
}

/// The best deadline is a lower bound of every deadline considered, is
/// reached at its offset, and no earlier scoop reaches it.
pub proof fn lemma_best_deadline_is_first_minimum(data: Seq<u8>, gensig: Seq<u8>, n: nat)
    requires
        n <= u64::MAX,
    ensures
        forall|i: int| 0 <= i < n ==> best_deadline(data, gensig, n).0 <= nth_deadline(data, gensig, i),
        n > 0 ==> best_deadline(data, gensig, n).1 < n && nth_deadline(
            data,
            gensig,
            best_deadline(data, gensig, n).1 as int,
        ) == best_deadline(data, gensig, n).0,
        forall|i: int|
            0 <= i < best_deadline(data, gensig, n).1 ==> best_deadline(data, gensig, n).0
                < nth_deadline(data, gensig, i),
    decreases n,
{
    if n > 0 {
        lemma_best_deadline_is_first_minimum(data, gensig, (n - 1) as nat);
        let prev = best_deadline(data, gensig, (n - 1) as nat);
        let d = nth_deadline(data, gensig, n - 1);
        if n == 1 {
            assert(prev == (u64::MAX, 0u64));
        }
        if d < prev.0 {
            assert(best_deadline(data, gensig, n) == (d, (n - 1) as u64));
        } else {
            assert(best_deadline(data, gensig, n) == prev);
        }
    }
}

/// Generates one nonce of `numeric_id` in the original scoop order.
fn generate_nonce(numeric_id: u64, nonce: u64) -> (data: Vec<u8>)
    ensures
        data@ == nonce_data(numeric_id, nonce),
{
    let total: usize = NONCE_SIZE + 16;
    let mut buffer: Vec<u8> = Vec::new();
    let mut z: usize = 0;
    while z < NONCE_SIZE
        invariant
            z <= NONCE_SIZE,
            buffer@.len() == z,
        decreases NONCE_SIZE - z,
    {
        buffer.push(0u8);
        z = z + 1;
    }
    push_be_bytes(&mut buffer, numeric_id);
    push_be_bytes(&mut buffer, nonce);
    let ghost seed = nonce_seed(numeric_id, nonce);
    assert(buffer@.subrange(NONCE_SIZE as int, total as int) =~= seed);
    assert(gen_tail(seed, 0) == seed);
    let mut k: usize = 0;
    let mut i: usize = NONCE_SIZE;
    while k < HASHES_PER_NONCE
        invariant
            k <= HASHES_PER_NONCE,
            i == NONCE_SIZE - k * HASH_SIZE,
            buffer@.len() == total,
            total == NONCE_SIZE + 16,
            seed == nonce_seed(numeric_id, nonce),
            buffer@.subrange(i as int, total as int) == gen_tail(seed, k as nat),
        decreases HASHES_PER_NONCE - k,
    {
        let ghost tail = buffer@.subrange(i as int, total as int);
        let len: usize = if total - i <= HASH_CAP {
            total - i
        } else {
            HASH_CAP
        };
        let window = vstd::slice::slice_subrange(buffer.as_slice(), i, i + len);
        assert(window@ =~= hash_window(tail));
        let hash = shabal256(window);
        let ghost before = buffer@;
        let mut j: usize = 0;
        while j < HASH_SIZE
            invariant
                j <= HASH_SIZE,
                i >= HASH_SIZE,
                i <= total,
                buffer@.len() == total,
                forall|t: int| 0 <= t < j ==> buffer@[i - HASH_SIZE + t] == hash@[t],
                forall|t: int|
                    0 <= t < total && !(i - HASH_SIZE <= t < i - HASH_SIZE + j) ==> buffer@[t]
                        == before[t],
            decreases HASH_SIZE - j,
        {
            buffer.set(i - HASH_SIZE + j, hash[j]);
            j = j + 1;
        }
        assert(buffer@.subrange((i - HASH_SIZE) as int, total as int) =~= hash@ + tail);
        i = i - HASH_SIZE;
        k = k + 1;
    }
    assert(buffer@.subrange(0, total as int) =~= buffer@);
    let fin = shabal256(buffer.as_slice());
    let ghost g = buffer@;
    let mut data: Vec<u8> = Vec::new();
    let mut j: usize = 0;
    while j < NONCE_SIZE
        invariant
            j <= NONCE_SIZE,
            buffer@ == g,
            g.len() == total,
            total == NONCE_SIZE + 16,
            fin@ == shabal256_digest(g),
            data@.len() == j,
            forall|t: int| 0 <= t < j ==> data@[t] == g[t] ^ fin@[t % 32],
        decreases NONCE_SIZE - j,
    {
        data.push(buffer[j] ^ fin[j % 32]);
        j = j + 1;
    }
    assert(data@ =~= nonce_data(numeric_id, nonce));
    data
}

/// Generates `local_nonces` consecutive nonces of `numeric_id`, starting at
/// `local_startnonce`, into the front of `cache` (one nonce after another,
/// each in the original scoop order); the rest of `cache` is left as it was.
pub fn noncegen_rust(cache: &mut [u8], numeric_id: u64, local_startnonce: u64, local_nonces: u64)
    requires
        local_nonces * NONCE_SIZE <= old(cache)@.len(),
        local_startnonce + local_nonces <= u64::MAX + 1,
    ensures
        final(cache)@.len() == old(cache)@.len(),
        forall|n: int|
            0 <= n < local_nonces ==> #[trigger] final(cache)@.subrange(
                n * NONCE_SIZE,
                n * NONCE_SIZE + NONCE_SIZE,
            ) == nonce_data(numeric_id, (local_startnonce + n) as u64),
        final(cache)@.subrange(local_nonces * NONCE_SIZE, old(cache)@.len() as int) == old(
            cache,
        )@.subrange(local_nonces * NONCE_SIZE, old(cache)@.len() as int),
{
    let ghost original = cache@;
    let len = cache.len();
    let mut n: u64 = 0;
    while n < local_nonces
        invariant
            n <= local_nonces,
            local_nonces * NONCE_SIZE <= len,
            len == original.len(),
            cache@.len() == len,
            local_startnonce + local_nonces <= u64::MAX + 1,
            forall|m: int|
                0 <= m < n ==> #[trigger] cache@.subrange(m * NONCE_SIZE, m * NONCE_SIZE + NONCE_SIZE)
                    == nonce_data(numeric_id, (local_startnonce + m) as u64),
            cache@.subrange(n * NONCE_SIZE, len as int) == original.subrange(n * NONCE_SIZE, len as int),
        decreases local_nonces - n,
    {
        let data = generate_nonce(numeric_id, local_startnonce + n);
        assert(n * NONCE_SIZE + NONCE_SIZE <= local_nonces * NONCE_SIZE);
        let base: usize = (n * (NONCE_SIZE as u64)) as usize;
        let ghost before = cache@;
        let mut j: usize = 0;
        while j < NONCE_SIZE
            invariant
                j <= NONCE_SIZE,
                base + NONCE_SIZE <= len,
                cache@.len() == len,
                data@.len() == NONCE_SIZE,
                forall|t: int| 0 <= t < j ==> cache@[base + t] == data@[t],
                forall|t: int| 0 <= t < len && !(base <= t < base + j) ==> cache@[t] == before[t],
            decreases NONCE_SIZE - j,
        {
            cache[base + j] = data[j];
            j = j + 1;
        }
        proof {
            assert(cache@.subrange(base as int, base + NONCE_SIZE) =~= data@);
            assert forall|m: int| 0 <= m < n + 1 implies #[trigger] cache@.subrange(
                m * NONCE_SIZE,
                m * NONCE_SIZE + NONCE_SIZE,
            ) == nonce_data(numeric_id, (local_startnonce + m) as u64) by {
                if m < n {
                    assert(m * NONCE_SIZE + NONCE_SIZE <= base);
                    assert(cache@.subrange(m * NONCE_SIZE, m * NONCE_SIZE + NONCE_SIZE) =~= before.subrange(
                        m * NONCE_SIZE,
                        m * NONCE_SIZE + NONCE_SIZE,
                    ));
                }
            }
            assert(cache@.subrange((n + 1) * NONCE_SIZE, len as int) =~= original.subrange(
                (n + 1) * NONCE_SIZE,
                len as int,
            )) by {
                assert forall|t: int| (n + 1) * NONCE_SIZE <= t < len implies cache@[t] == original[t] by {
                    assert(before.subrange(n * NONCE_SIZE, len as int)[t - n * NONCE_SIZE] == original.subrange(
                        n * NONCE_SIZE,
                        len as int,
                    )[t - n * NONCE_SIZE]);
                }
            }
        }
        n = n + 1;
    }
}

/// Byte `k` (counted from the most significant) of a 64-bit number.
pub open spec fn be_byte(x: u64, k: int) -> u8 {
    ((x >> ((7 - k) * 8) as u64) & 0xff) as u8
}

/// The nonce that a 16-byte seed generates: the chained hashes put in front
/// of the seed, each byte xored with the digest of the whole buffer.
pub open spec fn nonce_from_seed(seed: Seq<u8>) -> Seq<u8> {
    let g = gen_tail(seed, HASHES_PER_NONCE as nat);
    let f = shabal256_digest(g);
    Seq::new(NONCE_SIZE as nat, |j: int| g[j] ^ f[j % 32])
}

/// The seed of nonce `nonce` of account `numeric_id` is sixteen bytes: the
/// account id, most significant byte first, then all 64 bits of the nonce
/// number, most significant byte first; the nonce is generated from it.
pub proof fn lemma_nonce_seed_layout(numeric_id: u64, nonce: u64)
    ensures
        nonce_seed(numeric_id, nonce).len() == 16,
        forall|k: int|
            0 <= k < 8 ==> #[trigger] nonce_seed(numeric_id, nonce)[k] == be_byte(numeric_id, k),
        forall|k: int|
            0 <= k < 8 ==> #[trigger] nonce_seed(numeric_id, nonce)[8 + k] == be_byte(nonce, k),
        forall|seed: Seq<u8>|
            seed.len() == 16 && (forall|k: int| 0 <= k < 8 ==> #[trigger] seed[k] == be_byte(numeric_id, k))
                && (forall|k: int| 0 <= k < 8 ==> #[trigger] seed[8 + k] == be_byte(nonce, k))
                ==> nonce_data(numeric_id, nonce) == nonce_from_seed(seed),
{
    let s = nonce_seed(numeric_id, nonce);
    assert forall|seed: Seq<u8>|
        seed.len() == 16 && (forall|k: int| 0 <= k < 8 ==> #[trigger] seed[k] == be_byte(numeric_id, k))
            && (forall|k: int| 0 <= k < 8 ==> #[trigger] seed[8 + k] == be_byte(nonce, k))
        implies nonce_data(numeric_id, nonce) == nonce_from_seed(seed) by {
        assert forall|i: int| 0 <= i < 16 implies seed[i] == s[i] by {
            if i >= 8 {
                assert(seed[8 + (i - 8)] == be_byte(nonce, i - 8));
            }
        }
        assert(seed =~= s);
    }
}

proof fn lemma_be_bytes_determine(a: u64, b: u64)
    requires
        forall|k: int| 0 <= k < 8 ==> be_byte(a, k) == be_byte(b, k),
    ensures
        a == b,
{
    assert(be_byte(a, 0) == be_byte(b, 0));
    assert(be_byte(a, 1) == be_byte(b, 1));
    assert(be_byte(a, 2) == be_byte(b, 2));
    assert(be_byte(a, 3) == be_byte(b, 3));
    assert(be_byte(a, 4) == be_byte(b, 4));
    assert(be_byte(a, 5) == be_byte(b, 5));
    assert(be_byte(a, 6) == be_byte(b, 6));
    assert(be_byte(a, 7) == be_byte(b, 7));
    assert(a == b) by (bit_vector)
        requires
            ((a >> 56u64) & 0xff) as u8 == ((b >> 56u64) & 0xff) as u8,
            ((a >> 48u64) & 0xff) as u8 == ((b >> 48u64) & 0xff) as u8,
            ((a >> 40u64) & 0xff) as u8 == ((b >> 40u64) & 0xff) as u8,
            ((a >> 32u64) & 0xff) as u8 == ((b >> 32u64) & 0xff) as u8,
            ((a >> 24u64) & 0xff) as u8 == ((b >> 24u64) & 0xff) as u8,
            ((a >> 16u64) & 0xff) as u8 == ((b >> 16u64) & 0xff) as u8,
            ((a >> 8u64) & 0xff) as u8 == ((b >> 8u64) & 0xff) as u8,
            ((a >> 0u64) & 0xff) as u8 == ((b >> 0u64) & 0xff) as u8,
    ;
}

/// Different accounts or different nonce numbers (all 64 bits counted)
/// never share a seed.
pub proof fn lemma_nonce_seed_injective(id1: u64, nonce1: u64, id2: u64, nonce2: u64)
    requires
        nonce_seed(id1, nonce1) == nonce_seed(id2, nonce2),
    ensures
        id1 == id2,
        nonce1 == nonce2,
{
    lemma_nonce_seed_layout(id1, nonce1);
    lemma_nonce_seed_layout(id2, nonce2);
    assert forall|k: int| 0 <= k < 8 implies be_byte(id1, k) == be_byte(id2, k) by {
        assert(nonce_seed(id1, nonce1)[k] == be_bytes(id1)[k]);
        assert(nonce_seed(id2, nonce2)[k] == be_bytes(id2)[k]);
        assert(nonce_seed(id1, nonce1)[k] == nonce_seed(id2, nonce2)[k]);
    }
    assert forall|k: int| 0 <= k < 8 implies be_byte(nonce1, k) == be_byte(nonce2, k) by {
        assert(nonce_seed(id1, nonce1)[8 + k] == be_bytes(nonce1)[k]);
        assert(nonce_seed(id2, nonce2)[8 + k] == be_bytes(nonce2)[k]);
        assert(nonce_seed(id1, nonce1)[8 + k] == nonce_seed(id2, nonce2)[8 + k]);
    }
    lemma_be_bytes_determine(id1, id2);
    lemma_be_bytes_determine(nonce1, nonce2);
}

} // verus!
