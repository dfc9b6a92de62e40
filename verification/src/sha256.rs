//! SHA-256 (FIPS 180-4), proved equal to its definition: padding, message
//! schedule, 64 compression rounds per 512-bit block, big-endian digest.
use vstd::prelude::*;

verus! {

/// Addition modulo 2^32.
pub open spec fn add32(a: int) -> u32 {
    (a % 0x1_0000_0000) as u32
}

pub open spec fn rotr(x: u32, n: u32) -> u32 {
    (x >> n) | (x << (32 - n) as u32)
}

pub open spec fn ch(e: u32, f: u32, g: u32) -> u32 {
    (e & f) ^ (!e & g)
}

pub open spec fn maj(a: u32, b: u32, c: u32) -> u32 {
    (a & b) ^ (a & c) ^ (b & c)
}

pub open spec fn big_sigma0(a: u32) -> u32 {
    rotr(a, 2) ^ rotr(a, 13) ^ rotr(a, 22)
}

pub open spec fn big_sigma1(e: u32) -> u32 {
    rotr(e, 6) ^ rotr(e, 11) ^ rotr(e, 25)
}

pub open spec fn small_sigma0(x: u32) -> u32 {
    rotr(x, 7) ^ rotr(x, 18) ^ (x >> 3)
}

pub open spec fn small_sigma1(x: u32) -> u32 {
    rotr(x, 17) ^ rotr(x, 19) ^ (x >> 10)
}

/// The round constants.
pub open spec fn round_constants() -> Seq<u32> {
    seq![
        0x428a2f98u32, 0x71374491, 0xb5c0fbcf, 0xe9b5dba5, 0x3956c25b, 0x59f111f1, 0x923f82a4,
        0xab1c5ed5, 0xd807aa98, 0x12835b01, 0x243185be, 0x550c7dc3, 0x72be5d74, 0x80deb1fe,
        0x9bdc06a7, 0xc19bf174, 0xe49b69c1, 0xefbe4786, 0x0fc19dc6, 0x240ca1cc, 0x2de92c6f,
        0x4a7484aa, 0x5cb0a9dc, 0x76f988da, 0x983e5152, 0xa831c66d, 0xb00327c8, 0xbf597fc7,
        0xc6e00bf3, 0xd5a79147, 0x06ca6351, 0x14292967, 0x27b70a85, 0x2e1b2138, 0x4d2c6dfc,
        0x53380d13, 0x650a7354, 0x766a0abb, 0x81c2c92e, 0x92722c85, 0xa2bfe8a1, 0xa81a664b,
        0xc24b8b70, 0xc76c51a3, 0xd192e819, 0xd6990624, 0xf40e3585, 0x106aa070, 0x19a4c116,
        0x1e376c08, 0x2748774c, 0x34b0bcb5, 0x391c0cb3, 0x4ed8aa4a, 0x5b9cca4f, 0x682e6ff3,
        0x748f82ee, 0x78a5636f, 0x84c87814, 0x8cc70208, 0x90befffa, 0xa4506ceb, 0xbef9a3f7,
        0xc67178f2,
    ]
}

/// The hash state: eight working words.
#[derive(Clone, Copy)]
pub struct HashState {
    pub a: u32,
    pub b: u32,
    pub c: u32,
    pub d: u32,
    pub e: u32,
    pub f: u32,
    pub g: u32,
    pub h: u32,
}

pub open spec fn initial_state() -> HashState {
    HashState {
        a: 0x6a09e667,
        b: 0xbb67ae85,
        c: 0x3c6ef372,
        d: 0xa54ff53a,
        e: 0x510e527f,
        f: 0x9b05688c,
        g: 0x1f83d9ab,
        h: 0x5be0cd19,
    }
}

/// Big-endian word from the four bytes at `i`.
pub open spec fn be_word(m: Seq<u8>, i: int) -> u32 {
    ((m[i] as u32) << 24u32) | ((m[i + 1] as u32) << 16u32) | ((m[i + 2] as u32) << 8u32) | (m[i
        + 3] as u32)
}

/// The first `n` words of a block's message schedule.
pub open spec fn schedule(block: Seq<u8>, n: nat) -> Seq<u32>
    decreases n,
{
    if n == 0 {
        Seq::empty()
    } else {
        let w = schedule(block, (n - 1) as nat);
        let t = n - 1;
        if t < 16 {
            w.push(be_word(block, 4 * t))
        } else {
            w.push(add32(small_sigma1(w[t - 2]) + w[t - 7] + small_sigma0(w[t - 15]) + w[t - 16]))
        }
    }
}

/// One compression round with schedule word `w` and constant `k`.
pub open spec fn round(s: HashState, w: u32, k: u32) -> HashState {
    let t1 = s.h + big_sigma1(s.e) + ch(s.e, s.f, s.g) + k + w;
    let t2 = big_sigma0(s.a) + maj(s.a, s.b, s.c);
    HashState {
        a: add32(t1 + t2),
        b: s.a,
        c: s.b,
        d: s.c,
        e: add32(s.d + t1),
        f: s.e,
        g: s.f,
        h: s.g,
    }
}

/// The state after the first `n` rounds.
pub open spec fn rounds(s: HashState, w: Seq<u32>, n: nat) -> HashState
    decreases n,
{
    if n == 0 {
        s
    } else {
        round(rounds(s, w, (n - 1) as nat), w[n - 1], round_constants()[n - 1])
    }
}

pub open spec fn add_states(x: HashState, y: HashState) -> HashState {
    HashState {
        a: add32(x.a + y.a),
        b: add32(x.b + y.b),
        c: add32(x.c + y.c),
        d: add32(x.d + y.d),
        e: add32(x.e + y.e),
        f: add32(x.f + y.f),
        g: add32(x.g + y.g),
        h: add32(x.h + y.h),
    }
}

/// One 64-byte block folded into the state.
pub open spec fn compress(s: HashState, block: Seq<u8>) -> HashState {
    add_states(s, rounds(s, schedule(block, 64), 64))
}

/// Number of zero bytes between the `0x80` marker and the length.
pub open spec fn zero_pad_len(n: nat) -> nat {
    ((119 - (n % 64)) % 64) as nat
}

/// The eight big-endian bytes of `x`.
pub open spec fn be64_bytes(x: u64) -> Seq<u8> {
    seq![
        (x >> 56u64) as u8,
        (x >> 48u64) as u8,
        (x >> 40u64) as u8,
        (x >> 32u64) as u8,
        (x >> 24u64) as u8,
        (x >> 16u64) as u8,
        (x >> 8u64) as u8,
        x as u8,
    ]
}

/// The padded message: a one bit, zeros, and the bit length, to a multiple
/// of 64 bytes.
pub open spec fn padded(m: Seq<u8>) -> Seq<u8> {
    m + seq![0x80u8] + Seq::new(zero_pad_len(m.len()), |i: int| 0u8) + be64_bytes(
        (m.len() * 8) as u64,
    )
}

/// The state after the first `n` blocks of `p`.
pub open spec fn hash_blocks(p: Seq<u8>, n: nat) -> HashState
    decreases n,
{
    if n == 0 {
        initial_state()
    } else {
        compress(hash_blocks(p, (n - 1) as nat), p.subrange(64 * (n - 1), 64 * n as int))
    }
}

pub open spec fn be32_bytes(x: u32) -> Seq<u8> {
    seq![(x >> 24u32) as u8, (x >> 16u32) as u8, (x >> 8u32) as u8, x as u8]
}

pub open spec fn digest_bytes(s: HashState) -> Seq<u8> {
    be32_bytes(s.a) + be32_bytes(s.b) + be32_bytes(s.c) + be32_bytes(s.d) + be32_bytes(s.e)
        + be32_bytes(s.f) + be32_bytes(s.g) + be32_bytes(s.h)
}

/// SHA-256 of `m`.
pub open spec fn sha256_spec(m: Seq<u8>) -> Seq<u8> {
    let p = padded(m);
    digest_bytes(hash_blocks(p, p.len() / 64))
}

// ─── Computing it ────────────────────────────────────────────────────────────

fn rotr_exec(x: u32, n: u32) -> (r: u32)
    requires
        0 < n < 32,
    ensures
        r == rotr(x, n),
{
    (x >> n) | (x << (32 - n))
}

fn word_at(m: &Vec<u8>, i: usize) -> (r: u32)
    requires
        i + 4 <= m@.len(),
    ensures
        r == be_word(m@, i as int),
{
    let n: usize = m.len();
    ((m[i] as u32) << 24u32) | ((m[i + 1] as u32) << 16u32) | ((m[i + 2] as u32) << 8u32) | (m[i
        + 3] as u32)
}

proof fn lemma_be_word_sub(m: Seq<u8>, off: int, t: int)
    requires
        0 <= off,
        0 <= t < 16,
        off + 64 <= m.len(),
    ensures
        be_word(m.subrange(off, off + 64), 4 * t) == be_word(m, off + 4 * t),
{
    let b = m.subrange(off, off + 64);
    assert(b[4 * t] == m[off + 4 * t]);
    assert(b[4 * t + 1] == m[off + 4 * t + 1]);
    assert(b[4 * t + 2] == m[off + 4 * t + 2]);
    assert(b[4 * t + 3] == m[off + 4 * t + 3]);
}

/// The message schedule of the block at `off`.
fn message_schedule(m: &Vec<u8>, off: usize) -> (w: Vec<u32>)
    requires
        off + 64 <= m@.len(),
    ensures
        w@ == schedule(m@.subrange(off as int, off + 64), 64),
        w@.len() == 64,
{
    let n: usize = m.len();
    let ghost block = m@.subrange(off as int, off + 64);
    let mut w: Vec<u32> = Vec::new();
    let mut t: usize = 0;
    while t < 64
        invariant
            t <= 64,
            off + 64 <= m@.len(),
            m@.len() == n,
            block == m@.subrange(off as int, off + 64),
            w@ == schedule(block, t as nat),
            w@.len() == t,
        decreases 64 - t,
    {
        if t < 16 {
            let v = word_at(m, off + 4 * t);
            proof {
                lemma_be_word_sub(m@, off as int, t as int);
            }
            w.push(v);
        } else {
            let x15 = w[t - 15];
            let x2 = w[t - 2];
            let s0: u32 = rotr_exec(x15, 7) ^ rotr_exec(x15, 18) ^ (x15 >> 3u32);
            let s1: u32 = rotr_exec(x2, 17) ^ rotr_exec(x2, 19) ^ (x2 >> 10u32);
            let sum: u64 = s1 as u64 + w[t - 7] as u64 + s0 as u64 + w[t - 16] as u64;
            w.push((sum % 0x1_0000_0000u64) as u32);
        }
        t = t + 1;
    }
    w
}

/// Folds the block at `off` into the state.
fn compress_block(s: HashState, m: &Vec<u8>, off: usize, k: &[u32; 64]) -> (r: HashState)
    requires
        off + 64 <= m@.len(),
        k@ == round_constants(),
    ensures
        r == compress(s, m@.subrange(off as int, off + 64)),
{
    let w = message_schedule(m, off);
    let mut a = s.a;
    let mut b = s.b;
    let mut c = s.c;
    let mut d = s.d;
    let mut e = s.e;
    let mut f = s.f;
    let mut g = s.g;
    let mut h = s.h;
    let mut t: usize = 0;
    while t < 64
        invariant
            t <= 64,
            w@.len() == 64,
            k@ == round_constants(),
            (HashState { a, b, c, d, e, f, g, h }) == rounds(s, w@, t as nat),
        decreases 64 - t,
    {
        let s1: u32 = rotr_exec(e, 6) ^ rotr_exec(e, 11) ^ rotr_exec(e, 25);
        let chv: u32 = (e & f) ^ (!e & g);
        let t1: u64 = h as u64 + s1 as u64 + chv as u64 + k[t] as u64 + w[t] as u64;
        let s0: u32 = rotr_exec(a, 2) ^ rotr_exec(a, 13) ^ rotr_exec(a, 22);
        let mj: u32 = (a & b) ^ (a & c) ^ (b & c);
        let t2: u64 = s0 as u64 + mj as u64;
        h = g;
        g = f;
        f = e;
        e = ((d as u64 + t1) % 0x1_0000_0000u64) as u32;
        d = c;
        c = b;
        b = a;
        a = ((t1 + t2) % 0x1_0000_0000u64) as u32;
        t = t + 1;
    }
    HashState {
        a: ((s.a as u64 + a as u64) % 0x1_0000_0000u64) as u32,
        b: ((s.b as u64 + b as u64) % 0x1_0000_0000u64) as u32,
        c: ((s.c as u64 + c as u64) % 0x1_0000_0000u64) as u32,
        d: ((s.d as u64 + d as u64) % 0x1_0000_0000u64) as u32,
        e: ((s.e as u64 + e as u64) % 0x1_0000_0000u64) as u32,
        f: ((s.f as u64 + f as u64) % 0x1_0000_0000u64) as u32,
        g: ((s.g as u64 + g as u64) % 0x1_0000_0000u64) as u32,
        h: ((s.h as u64 + h as u64) % 0x1_0000_0000u64) as u32,
    }
}

fn push_be32(out: &mut Vec<u8>, x: u32)
    ensures
        final(out)@ == old(out)@ + be32_bytes(x),
{
    out.push((x >> 24u32) as u8);
    out.push((x >> 16u32) as u8);
    out.push((x >> 8u32) as u8);
    out.push(x as u8);
    assert(final(out)@ =~= old(out)@ + be32_bytes(x));
}

/// The padded message.
fn pad_message(data: &[u8]) -> (msg: Vec<u8>)
    requires
        data@.len() * 8 <= u64::MAX,
    ensures
        msg@ == padded(data@),
        msg@.len() % 64 == 0,
{
    let len: usize = data.len();
    let bit_len: u64 = (len as u64) * 8;
    let mut msg: Vec<u8> = Vec::new();
    let mut i: usize = 0;
    while i < len
        invariant
            i <= len,
            len == data@.len(),
            msg@ == data@.take(i as int),
        decreases len - i,
    {
        msg.push(data[i]);
        i = i + 1;
        assert(msg@ =~= data@.take(i as int));
    }
    assert(data@.take(len as int) =~= data@);
    msg.push(0x80u8);
    let zeros: usize = (119 - len % 64) % 64;
    let mut z: usize = 0;
    while z < zeros
        invariant
            z <= zeros,
            zeros == zero_pad_len(len as nat),
            len == data@.len(),
            msg@ == data@ + seq![0x80u8] + Seq::new(z as nat, |j: int| 0u8),
        decreases zeros - z,
    {
        msg.push(0u8);
        z = z + 1;
        assert(msg@ =~= data@ + seq![0x80u8] + Seq::new(z as nat, |j: int| 0u8));
    }
    let ghost base = msg@;
    msg.push((bit_len >> 56u64) as u8);
    msg.push((bit_len >> 48u64) as u8);
    msg.push((bit_len >> 40u64) as u8);
    msg.push((bit_len >> 32u64) as u8);
    msg.push((bit_len >> 24u64) as u8);
    msg.push((bit_len >> 16u64) as u8);
    msg.push((bit_len >> 8u64) as u8);
    msg.push(bit_len as u8);
    assert(msg@ =~= base + be64_bytes(bit_len));
    assert(msg@ =~= padded(data@));
    proof {
        lemma_padded_len(data@.len());
    }
    msg
}

proof fn lemma_padded_len(n: nat)
    ensures
        (n + 1 + zero_pad_len(n) + 8) % 64 == 0,
{
    let r = n % 64;
    assert(n == 64 * (n / 64) + r);
    if r <= 55 {
        assert(zero_pad_len(n) == 55 - r);
        assert(n + 1 + zero_pad_len(n) + 8 == 64 * (n / 64) + 64);
    } else {
        assert(zero_pad_len(n) == 119 - r);
        assert(n + 1 + zero_pad_len(n) + 8 == 64 * (n / 64) + 128);
    }
}

/// SHA-256 digest of `data` (32 bytes).
pub fn sha256(data: &[u8]) -> (r: Vec<u8>)
    requires
        data@.len() * 8 <= u64::MAX,
    ensures
        r@ == sha256_spec(data@),
        r@.len() == 32,
{
    let k: [u32; 64] = [
        0x428a2f98u32, 0x71374491, 0xb5c0fbcf, 0xe9b5dba5, 0x3956c25b, 0x59f111f1, 0x923f82a4,
        0xab1c5ed5, 0xd807aa98, 0x12835b01, 0x243185be, 0x550c7dc3, 0x72be5d74, 0x80deb1fe,
        0x9bdc06a7, 0xc19bf174, 0xe49b69c1, 0xefbe4786, 0x0fc19dc6, 0x240ca1cc, 0x2de92c6f,
        0x4a7484aa, 0x5cb0a9dc, 0x76f988da, 0x983e5152, 0xa831c66d, 0xb00327c8, 0xbf597fc7,
        0xc6e00bf3, 0xd5a79147, 0x06ca6351, 0x14292967, 0x27b70a85, 0x2e1b2138, 0x4d2c6dfc,
        0x53380d13, 0x650a7354, 0x766a0abb, 0x81c2c92e, 0x92722c85, 0xa2bfe8a1, 0xa81a664b,
        0xc24b8b70, 0xc76c51a3, 0xd192e819, 0xd6990624, 0xf40e3585, 0x106aa070, 0x19a4c116,
        0x1e376c08, 0x2748774c, 0x34b0bcb5, 0x391c0cb3, 0x4ed8aa4a, 0x5b9cca4f, 0x682e6ff3,
        0x748f82ee, 0x78a5636f, 0x84c87814, 0x8cc70208, 0x90befffa, 0xa4506ceb, 0xbef9a3f7,
        0xc67178f2,
    ];
    assert(k@ =~= round_constants());
    let msg = pad_message(data);
    let total: usize = msg.len();
    assert(total % 64 == 0);
    let nblocks: usize = total / 64;
    assert(64 * nblocks == total);
    let mut st = HashState {
        a: 0x6a09e667,
        b: 0xbb67ae85,
        c: 0x3c6ef372,
        d: 0xa54ff53a,
        e: 0x510e527f,
        f: 0x9b05688c,
        g: 0x1f83d9ab,
        h: 0x5be0cd19,
    };
    let mut bi: usize = 0;
    while bi < nblocks
        invariant
            bi <= nblocks,
            nblocks == msg@.len() / 64,
            64 * nblocks == msg@.len(),
            msg@.len() == total,
            k@ == round_constants(),
            st == hash_blocks(msg@, bi as nat),
        decreases nblocks - bi,
    {
        assert(64 * bi + 64 <= 64 * nblocks) by (nonlinear_arith)
            requires
                bi < nblocks,
        ;
        st = compress_block(st, &msg, 64 * bi, &k);
        bi = bi + 1;
    }
    let mut out: Vec<u8> = Vec::new();
    push_be32(&mut out, st.a);
    push_be32(&mut out, st.b);
    push_be32(&mut out, st.c);
    push_be32(&mut out, st.d);
    push_be32(&mut out, st.e);
    push_be32(&mut out, st.f);
    push_be32(&mut out, st.g);
    push_be32(&mut out, st.h);
    assert(out@ =~= digest_bytes(st));
    out
}

} // verus!
