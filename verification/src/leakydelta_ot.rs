//! The leaky-delta oblivious-transfer extension: amortizes K base oblivious
//! transfers into arbitrarily many authenticated-bit columns.
//!
//! Roles are asymmetric: the sender holds delta and one stream cipher per
//! column, the receiver holds two stream ciphers per column. Each batch
//! yields K authenticated bits; transposing the K x K bit matrix on both
//! sides makes the IT-MAC relation hold column-wise.
//!
//! The K base oblivious transfers themselves are an external collaborator
//! reached only through an interface: this module fixes their message
//! formats and wire encoding, prepares what goes into them (the sender's
//! choice bits, the receiver's seed pairs), and builds the extension state
//! from what comes out of them (one 32-byte seed per column for the sender,
//! both seeds for the receiver).
use vstd::prelude::*;

use vstd::bytes::{spec_u64_to_le_bytes, u64_to_le_bytes};

use crate::types::{bit128, block_of_bytes, bytes_of_block, Delta, Error, KeyType, MacType, K};

verus! {

/// Number of bits per column block; one batch yields K authenticated bits.
pub const BLOCK_SIZE: usize = K;

/// Byte length of one serialized base-transfer first message.
pub const INIT_LEN: usize = 32;

/// Byte length of one masked message in a base-transfer reply.
pub const MSG_LEN: usize = 32;

/// A 32-byte message carried by one base oblivious transfer; it seeds one
/// stream cipher of the extension.
pub type OtMessage = [u8; 32];

/// The first message of one base oblivious transfer, a fixed-width byte
/// string.
#[derive(Debug, Clone, Copy, PartialEq, Eq)]
pub struct Init(pub [u8; INIT_LEN]);

/// The final message of one base oblivious transfer: two masked messages of
/// `MSG_LEN` bytes each, of which only the chosen one is decryptable.
#[derive(Debug, Clone, Copy, PartialEq, Eq)]
pub struct InitReply {
    pub c0: [u8; MSG_LEN],
    pub c1: [u8; MSG_LEN],
}

/// A block of K base-transfer first messages.
#[derive(Debug, Clone, PartialEq)]
pub struct OtInit(pub Vec<Init>);

/// A serialized block of K base-transfer first messages.
#[derive(Debug, Clone, PartialEq, Eq)]
pub struct SerializedOtInit(pub Vec<u8>);

/// A block of K base-transfer replies.
#[derive(Debug, Clone, PartialEq)]
pub struct OtInitReply(pub Vec<InitReply>);

impl View for OtInit {
    type V = Seq<Seq<u8>>;

    open spec fn view(&self) -> Seq<Seq<u8>> {
        Seq::new(self.0@.len(), |i: int| self.0@[i].0@)
    }
}

impl View for OtInitReply {
    type V = Seq<Seq<u8>>;

    open spec fn view(&self) -> Seq<Seq<u8>> {
        Seq::new(self.0@.len(), |i: int| self.0@[i].c0@ + self.0@[i].c1@)
    }
}

/// The first `n` blocks, concatenated in order.
pub open spec fn spec_concat_blocks(blocks: Seq<Seq<u8>>, n: int) -> Seq<u8>
    decreases n,
{
    if n <= 0 {
        Seq::empty()
    } else {
        spec_concat_blocks(blocks, n - 1) + blocks[n - 1]
    }
}

/// The K blocks of `len` bytes each that a byte string splits into.
pub open spec fn spec_parse_blocks(bytes: Seq<u8>, len: int) -> Seq<Seq<u8>> {
    Seq::new(K as nat, |i: int| bytes.subrange(i * len, (i + 1) * len))
}

impl OtInit {
    /// Serializes the base-transfer first messages as one byte string of
    /// `INIT_LEN` bytes per message.
    pub fn serialize(&self) -> (r: SerializedOtInit)
        ensures
            r.0@ == spec_concat_blocks(self@, self@.len() as int),
    {
        let mut buffer: Vec<u8> = Vec::new();
        let n = self.0.len();
        for i in 0..n
            invariant
                n == self.0@.len(),
                buffer@ == spec_concat_blocks(self@, i as int),
        {
            let mut block = bytes_of_block(&self.0[i].0);
            buffer.append(&mut block);
        }
        SerializedOtInit(buffer)
    }
}

impl SerializedOtInit {
    /// Parses a block of K base-transfer first messages; any other byte
    /// length is a deserialization error.
    pub fn deserialize(&self) -> (r: Result<OtInit, Error>)
        ensures
            r is Ok <==> self.0@.len() == 32 * K,
            r matches Ok(m) ==> m@ == spec_parse_blocks(self.0@, 32),
            r matches Err(e) ==> e == Error::OtInitDeserializationError,
    {
        if self.0.len() != 32 * K {
            return Err(Error::OtInitDeserializationError);
        }
        let mut inits: Vec<Init> = Vec::new();
        for i in 0..K
            invariant
                self.0@.len() == 32 * K,
                inits@.len() == i,
                forall|j: int|
                    0 <= j < i ==> #[trigger] inits@[j].0@ == self.0@.subrange(
                        32 * j,
                        32 * j + 32,
                    ),
        {
            let mut block: [u8; 32] = [0u8; 32];
            for b in 0..32
                invariant
                    self.0@.len() == 32 * K,
                    i < K,
                    forall|t: int| 0 <= t < b ==> block@[t] == self.0@[32 * (i as int) + t],
            {
                block[b] = self.0[32 * i + b];
            }
            assert(block@ =~= self.0@.subrange(32 * (i as int), 32 * (i as int) + 32));
            inits.push(Init(block));
        }
        let m = OtInit(inits);
        assert(m@ =~= spec_parse_blocks(self.0@, 32));
        Ok(m)
    }
}

impl OtInitReply {
    /// Serializes the base-transfer replies as one byte string of
    /// `MSG_LEN * 2` bytes per reply.
    pub fn serialize(&self) -> (r: Vec<u8>)
        ensures
            r@ == spec_concat_blocks(self@, self@.len() as int),
    {
        let mut buffer: Vec<u8> = Vec::new();
        let n = self.0.len();
        for i in 0..n
            invariant
                n == self.0@.len(),
                buffer@ == spec_concat_blocks(self@, i as int),
        {
            let mut c0 = bytes_of_block(&self.0[i].c0);
            let mut c1 = bytes_of_block(&self.0[i].c1);
            buffer.append(&mut c0);
            buffer.append(&mut c1);
            proof {
                assert(buffer@ =~= spec_concat_blocks(self@, i as int) + self@[i as int]);
            }
        }
        buffer
    }

    /// Parses a block of K base-transfer replies; any other byte length is a
    /// deserialization error.
    pub fn deserialize(buffer: Vec<u8>) -> (r: Result<Self, Error>)
        ensures
            r is Ok <==> buffer@.len() == MSG_LEN * 2 * K,
            r matches Ok(m) ==> m@ == spec_parse_blocks(buffer@, 64),
            r matches Err(e) ==> e == Error::OtInitDeserializationError,
    {
        if buffer.len() != MSG_LEN * 2 * K {
            return Err(Error::OtInitDeserializationError);
        }
        let mut replies: Vec<InitReply> = Vec::new();
        for i in 0..K
            invariant
                buffer@.len() == 64 * K,
                replies@.len() == i,
                forall|j: int|
                    0 <= j < i ==> #[trigger] (replies@[j].c0@ + replies@[j].c1@)
                        == buffer@.subrange(64 * j, 64 * j + 64),
        {
            let mut c0: [u8; 32] = [0u8; 32];
            let mut c1: [u8; 32] = [0u8; 32];
            for b in 0..32
                invariant
                    buffer@.len() == 64 * K,
                    i < K,
                    forall|t: int| 0 <= t < b ==> c0@[t] == buffer@[64 * (i as int) + t],
                    forall|t: int| 0 <= t < b ==> c1@[t] == buffer@[64 * (i as int) + 32 + t],
            {
                c0[b] = buffer[64 * i + b];
                c1[b] = buffer[64 * i + 32 + b];
            }
            proof {
                assert(c0@ + c1@ =~= buffer@.subrange(64 * (i as int), 64 * (i as int) + 64));
            }
            replies.push(InitReply { c0, c1 });
        }
        let m = OtInitReply(replies);
        assert(m@ =~= spec_parse_blocks(buffer@, 64));
        Ok(m)
    }
}

proof fn lemma_concat_blocks_len(blocks: Seq<Seq<u8>>, len: int, n: int)
    requires
        0 <= n <= blocks.len(),
        len >= 0,
        forall|i: int| 0 <= i < blocks.len() ==> #[trigger] blocks[i].len() == len,
    ensures
        spec_concat_blocks(blocks, n).len() == n * len,
    decreases n,
{
    if n > 0 {
        lemma_concat_blocks_len(blocks, len, n - 1);
        assert(spec_concat_blocks(blocks, n) == spec_concat_blocks(blocks, n - 1) + blocks[n
            - 1]);
        assert(blocks[n - 1].len() == len);
        assert((n - 1) * len + len == n * len) by (nonlinear_arith);
    } else {
        assert(n == 0);
        assert(n * len == 0) by (nonlinear_arith)
            requires
                n == 0,
        ;
    }
}

proof fn lemma_concat_blocks_index(blocks: Seq<Seq<u8>>, len: int, n: int, i: int)
    requires
        0 <= i < n <= blocks.len(),
        len >= 0,
        forall|k: int| 0 <= k < blocks.len() ==> #[trigger] blocks[k].len() == len,
    ensures
        spec_concat_blocks(blocks, n).subrange(i * len, (i + 1) * len) == blocks[i],
    decreases n,
{
    lemma_concat_blocks_len(blocks, len, n - 1);
    lemma_concat_blocks_len(blocks, len, n);
    assert((i + 1) * len == i * len + len) by (nonlinear_arith);
    assert(i * len >= 0 && i * len <= (n - 1) * len && (i + 1) * len <= n * len)
        by (nonlinear_arith)
        requires
            0 <= i && i < n && len >= 0,
    ;
    if i == n - 1 {
        assert(i * len == (n - 1) * len);
        assert(spec_concat_blocks(blocks, n).subrange(i * len, (i + 1) * len) =~= blocks[i]);
    } else {
        lemma_concat_blocks_index(blocks, len, n - 1, i);
        assert((i + 1) * len <= (n - 1) * len) by (nonlinear_arith)
            requires
                i + 1 <= n - 1 && len >= 0,
        ;
        assert(spec_concat_blocks(blocks, n).subrange(i * len, (i + 1) * len)
            =~= spec_concat_blocks(blocks, n - 1).subrange(i * len, (i + 1) * len));
    }
}

/// Serialization round trip: splitting the concatenation of K well-formed
/// blocks of `len` bytes each yields the original blocks, so deserializing a
/// serialized message block returns the message unchanged.
pub proof fn lemma_blocks_round_trip(blocks: Seq<Seq<u8>>, len: int)
    requires
        blocks.len() == K,
        len > 0,
        forall|i: int| 0 <= i < K ==> #[trigger] blocks[i].len() == len,
    ensures
        spec_concat_blocks(blocks, K as int).len() == (K as int) * len,
        spec_parse_blocks(spec_concat_blocks(blocks, K as int), len) == blocks,
{
    lemma_concat_blocks_len(blocks, len, K as int);
    let parsed = spec_parse_blocks(spec_concat_blocks(blocks, K as int), len);
    assert forall|i: int| 0 <= i < K implies parsed[i] == blocks[i] by {
        lemma_concat_blocks_index(blocks, len, K as int, i);
    }
    assert(parsed =~= blocks);
}


/// Reads one output column of the K x K bit-matrix transpose: bit `i` of the
/// result tells whether the bit of row `i` selected by `test_bit` is set.
pub fn transpose_column(t_i: &Vec<KeyType>, test_bit: u128) -> (r: MacType)
    requires
        t_i@.len() >= K,
    ensures
        forall|i: int|
            0 <= i < K ==> #[trigger] bit128(r.0, i) == ((t_i@[i].0 & test_bit) != 0),
{
    let mut key: u128 = 0;
    proof {
        assert forall|j: int| 0 <= j < 128 implies !(#[trigger] bit128(0u128, j)) by {
            let jj = j as u128;
            assert((0u128 >> jj) & 1 == 0) by (bit_vector);
        }
    }
    for i in 0..K
        invariant
            t_i@.len() >= K,
            forall|j: int|
                0 <= j < i ==> #[trigger] bit128(key, j) == ((t_i@[j].0 & test_bit) != 0),
            forall|j: int| i <= j < 128 ==> !(#[trigger] bit128(key, j)),
    {
        let bit_from_ot: u128 = if t_i[i].0 & test_bit != 0 {
            1
        } else {
            0
        };
        let new_key = key | (bit_from_ot << (i as u128));
        proof {
            let k = key;
            let b = bit_from_ot;
            let ii = i as u128;
            assert(!bit128(k, i as int));
            assert((k >> ii) & 1 == 0 || (k >> ii) & 1 == 1) by (bit_vector);
            assert((k >> ii) & 1 == 0);
            assert forall|j: int| 0 <= j < 128 && j != i as int implies #[trigger] bit128(
                k | (b << ii),
                j,
            ) == bit128(k, j) by {
                let jj = j as u128;
                assert(((k | (b << ii)) >> jj) & 1 == (k >> jj) & 1) by (bit_vector)
                    requires
                        jj < 128,
                        ii < 128,
                        jj != ii,
                        b <= 1,
                ;
            }
            assert(((k | (b << ii)) >> ii) & 1 == b) by (bit_vector)
                requires
                    ii < 128,
                    b <= 1,
                    (k >> ii) & 1 == 0,
            ;
        }
        key = new_key;
    }
    MacType(key)
}

/// Transposes the K x K bit matrix given as K rows of 128 bits each: bit `i`
/// of output word `j` is bit `j` of input row `i`. Both sides of the
/// extension use this same transpose, which makes the IT-MAC relation hold
/// column-wise.
pub fn matrix_transpose(t_i: &Vec<KeyType>) -> (out: Vec<MacType>)
    requires
        t_i@.len() >= K,
    ensures
        out@.len() == K,
        forall|j: int, i: int|
            0 <= j < K && 0 <= i < K ==> #[trigger] bit128(out@[j].0, i) == bit128(
                t_i@[i].0,
                j,
            ),
{
    let mut out: Vec<MacType> = Vec::new();
    for j in 0..K
        invariant
            t_i@.len() >= K,
            out@.len() == j,
            forall|jj: int, i: int|
                0 <= jj < j && 0 <= i < K ==> #[trigger] bit128(out@[jj].0, i) == bit128(
                    t_i@[i].0,
                    jj,
                ),
    {
        let col = transpose_column(t_i, 1u128 << (j as u128));
        proof {
            assert forall|i: int| 0 <= i < K implies ((t_i@[i].0 & (1u128 << (j as u128)))
                != 0) == bit128(t_i@[i].0, j as int) by {
                let v = t_i@[i].0;
                let jj = j as u128;
                assert((v & (1u128 << jj) != 0) == ((v >> jj) & 1 == 1)) by (bit_vector)
                    requires
                        jj < 128,
                ;
            }
        }
        out.push(col);
    }
    out
}

#[verifier::external_type_specification]
#[verifier::external_body]
pub struct ExChaCha20Rng(rand_chacha::ChaCha20Rng);

/// The `i`-th 64-bit word of the ChaCha20 stream under `seed`, counting the
/// words drawn from the start of a fresh generator.
pub uninterp spec fn chacha_u64(seed: Seq<u8>, i: nat) -> u64;

/// The 128-bit block standing at word position `pos` of the stream under
/// `seed`: two consecutive words, low half first.
pub open spec fn spec_stream_u128(seed: Seq<u8>, pos: nat) -> u128 {
    (chacha_u64(seed, pos) as u128) | ((chacha_u64(seed, pos + 1) as u128) << 64)
}

/// The 32 bytes standing at word position `pos` of the stream under `seed`:
/// four consecutive words, each serialized little-endian.
pub open spec fn spec_seed_block(seed: Seq<u8>, pos: nat) -> Seq<u8> {
    spec_u64_to_le_bytes(chacha_u64(seed, pos)) + spec_u64_to_le_bytes(
        chacha_u64(seed, pos + 1),
    ) + spec_u64_to_le_bytes(chacha_u64(seed, pos + 2)) + spec_u64_to_le_bytes(
        chacha_u64(seed, pos + 3),
    )
}

/// Relies on `ChaCha20Rng::from_seed` (through `SeedableRng`): it builds a
/// generator from a 32-byte seed; what it yields is stated where the words
/// are drawn.
#[verifier::external_body]
fn chacha_rng_from_seed(seed: [u8; 32]) -> rand_chacha::ChaCha20Rng {
    <rand_chacha::ChaCha20Rng as rand_core::SeedableRng>::from_seed(seed)
}

/// One stream cipher of the extension: a ChaCha20 generator together with
/// the seed it was built from and the number of 64-bit words drawn so far.
/// The generator is only ever read in whole words, so each drawn word is
/// pinned by the seed and the position alone.
pub(crate) struct ChaChaStream {
    rng: rand_chacha::ChaCha20Rng,
    seed: Ghost<Seq<u8>>,
    pos: Ghost<nat>,
}

impl ChaChaStream {
    /// The seed the stream was built from.
    pub closed spec fn spec_seed(&self) -> Seq<u8> {
        self.seed@
    }

    /// The number of 64-bit words drawn so far.
    pub closed spec fn spec_pos(&self) -> nat {
        self.pos@
    }

    /// Builds a fresh stream and records its seed, at position zero.
    fn from_seed(seed: [u8; 32]) -> (s: Self)
        ensures
            s.spec_seed() == seed@,
            s.spec_pos() == 0,
    {
        ChaChaStream { rng: chacha_rng_from_seed(seed), seed: Ghost(seed@), pos: Ghost(0nat) }
    }

    /// Relies on `ChaCha20Rng::from_seed` and `RngCore::next_u64` being
    /// deterministic: the generator is built from the recorded seed and read
    /// only through `next_u64`, so the word returned here is a function of
    /// that seed and of how many words were drawn before.
    #[verifier::external_body]
    fn next_u64(&mut self) -> (r: u64)
        ensures
            final(self).spec_seed() == old(self).spec_seed(),
            final(self).spec_pos() == old(self).spec_pos() + 1,
            r == chacha_u64(old(self).spec_seed(), old(self).spec_pos()),
    {
        rand_core::RngCore::next_u64(&mut self.rng)
    }

    /// Draws a 128-bit block: two words, low half first.
    fn next_u128(&mut self) -> (r: u128)
        ensures
            final(self).spec_seed() == old(self).spec_seed(),
            final(self).spec_pos() == old(self).spec_pos() + 2,
            r == spec_stream_u128(old(self).spec_seed(), old(self).spec_pos()),
    {
        let lo = self.next_u64();
        let hi = self.next_u64();
        (lo as u128) | ((hi as u128) << 64)
    }

    /// Draws one 32-byte seed: four words, serialized in order.
    fn next_seed_block(&mut self) -> (r: OtMessage)
        ensures
            final(self).spec_seed() == old(self).spec_seed(),
            final(self).spec_pos() == old(self).spec_pos() + 4,
            r@ == spec_seed_block(old(self).spec_seed(), old(self).spec_pos()),
    {
        let mut bytes = u64_to_le_bytes(self.next_u64());
        let mut b1 = u64_to_le_bytes(self.next_u64());
        let mut b2 = u64_to_le_bytes(self.next_u64());
        let mut b3 = u64_to_le_bytes(self.next_u64());
        bytes.append(&mut b1);
        bytes.append(&mut b2);
        bytes.append(&mut b3);
        block_of_bytes(&bytes)
    }
}

/// The corrected column block of the sender: the drawn block, with the
/// receiver's correction word `u` folded in where the delta bit is set.
pub open spec fn spec_sender_column(delta: Delta, draw: u128, u: u128, i: int) -> u128 {
    draw ^ (if bit128(delta.0, i) {
        u
    } else {
        0u128
    })
}

/// The transpose relation of the sender's batch: bit `i` of key word `j` is
/// bit `j` of the corrected column block `i`.
pub open spec fn spec_sender_transpose(
    delta: Delta,
    draws: Seq<u128>,
    ot_rx: Seq<MacType>,
    keys: Seq<MacType>,
) -> bool {
    forall|j: int, i: int|
        0 <= j < K && 0 <= i < K ==> #[trigger] bit128(keys[j].0, i) == bit128(
            spec_sender_column(delta, draws[i], ot_rx[i].0, i),
            j,
        )
}

/// The receiver's batch relation: each correction word is `t0 ^ t1 ^ x`, and
/// bit `i` of MAC word `j` is bit `j` of the `t0` block of column `i`.
pub open spec fn spec_receiver_batch(
    x: u128,
    t0: Seq<u128>,
    t1: Seq<u128>,
    macs: Seq<MacType>,
    ot: Seq<MacType>,
) -> bool {
    &&& forall|i: int| 0 <= i < K ==> #[trigger] ot[i].0 == t0[i] ^ t1[i] ^ x
    &&& forall|j: int, i: int|
        0 <= j < K && 0 <= i < K ==> #[trigger] bit128(macs[j].0, i) == bit128(t0[i], j)
}

/// The sender's half of the extension after setup: delta, and one stream
/// cipher per column, seeded by the base-transfer message its delta bit
/// selected.
pub struct LeakyOtSender {
    delta: Delta,
    otg: Vec<ChaChaStream>,
}

impl LeakyOtSender {
    /// The setup invariant: one stream cipher per column.
    pub closed spec fn wf(&self) -> bool {
        self.otg@.len() == K
    }

    /// The sender's delta.
    pub closed spec fn spec_delta(&self) -> Delta {
        self.delta
    }

    /// The seed of the stream of column `i`.
    pub closed spec fn spec_stream_seed(&self, i: int) -> Seq<u8> {
        self.otg@[i].spec_seed()
    }

    /// The word position of the stream of column `i`.
    pub closed spec fn spec_stream_pos(&self, i: int) -> nat {
        self.otg@[i].spec_pos()
    }

    /// The 128-bit blocks the next batch will draw, one per column.
    pub open spec fn spec_draws(&self) -> Seq<u128> {
        Seq::new(
            K as nat,
            |i: int| spec_stream_u128(self.spec_stream_seed(i), self.spec_stream_pos(i)),
        )
    }

    /// Builds the sender's streams from the K seeds obtained through the
    /// base transfers, one per delta bit.
    pub fn from_seeds(delta: Delta, seeds: &Vec<OtMessage>) -> (s: Self)
        requires
            seeds@.len() >= K,
        ensures
            s.wf(),
            s.spec_delta() == delta,
            forall|i: int| 0 <= i < K ==> #[trigger] s.spec_stream_seed(i) == seeds@[i]@,
            forall|i: int| 0 <= i < K ==> #[trigger] s.spec_stream_pos(i) == 0,
    {
        let mut otg: Vec<ChaChaStream> = Vec::new();
        for i in 0..K
            invariant
                seeds@.len() >= K,
                otg@.len() == i,
                forall|j: int| 0 <= j < i ==> #[trigger] otg@[j].spec_seed() == seeds@[j]@,
                forall|j: int| 0 <= j < i ==> #[trigger] otg@[j].spec_pos() == 0,
        {
            otg.push(ChaChaStream::from_seed(seeds[i]));
        }
        LeakyOtSender { delta, otg }
    }

    /// One batch of the sender's side: draws the next 128-bit block of each
    /// column's stream, folds in the receiver's correction word where the
    /// delta bit is set, and transposes the corrected columns into K key
    /// words. The keys are thereby a function of the stream seeds, the
    /// stream positions and the correction words.
    pub fn send(&mut self, ot_rx: &Vec<MacType>) -> (keys_out: Vec<MacType>)
        requires
            old(self).wf(),
            ot_rx@.len() >= K,
        ensures
            final(self).wf(),
            final(self).spec_delta() == old(self).spec_delta(),
            forall|i: int|
                0 <= i < K ==> #[trigger] final(self).spec_stream_seed(i) == old(
                    self,
                ).spec_stream_seed(i),
            forall|i: int|
                0 <= i < K ==> #[trigger] final(self).spec_stream_pos(i) == old(
                    self,
                ).spec_stream_pos(i) + 2,
            keys_out@.len() == K,
            spec_sender_transpose(
                old(self).spec_delta(),
                old(self).spec_draws(),
                ot_rx@,
                keys_out@,
            ),
    {
        let mut q: Vec<KeyType> = Vec::new();
        let mut i: usize = 0;
        while i < K
            invariant
                i <= K,
                self.otg@.len() == K,
                self.delta == old(self).spec_delta(),
                ot_rx@.len() >= K,
                q@.len() == i,
                forall|t: int| i <= t < K ==> #[trigger] self.otg@[t] == old(self).otg@[t],
                forall|t: int|
                    0 <= t < i ==> #[trigger] self.otg@[t].spec_seed() == old(
                        self,
                    ).otg@[t].spec_seed(),
                forall|t: int|
                    0 <= t < i ==> #[trigger] self.otg@[t].spec_pos() == old(
                        self,
                    ).otg@[t].spec_pos() + 2,
                forall|t: int|
                    0 <= t < i ==> #[trigger] q@[t].0 == spec_sender_column(
                        self.delta,
                        spec_stream_u128(
                            old(self).otg@[t].spec_seed(),
                            old(self).otg@[t].spec_pos(),
                        ),
                        ot_rx@[t].0,
                        t,
                    ),
            decreases K - i,
        {
            let ghost prev = self.otg@;
            let mut stream = self.otg.remove(i);
            let d = stream.next_u128();
            self.otg.insert(i, stream);
            proof {
                assert(self.otg@ =~= prev.update(i as int, stream));
            }
            let chosen = self.delta.0 & (1u128 << (i as u128)) != 0;
            proof {
                let v = self.delta.0;
                let ii = i as u128;
                assert((v & (1u128 << ii) != 0) == ((v >> ii) & 1 == 1)) by (bit_vector)
                    requires
                        ii < 128,
                ;
            }
            let k = if chosen {
                d ^ ot_rx[i].0
            } else {
                proof {
                    let dd = d;
                    assert(dd ^ 0 == dd) by (bit_vector);
                }
                d
            };
            q.push(KeyType(k));
            i += 1;
        }
        let keys_out = matrix_transpose(&q);
        proof {
            assert forall|t: int| 0 <= t < K implies #[trigger] q@[t].0 == spec_sender_column(
                old(self).spec_delta(),
                old(self).spec_draws()[t],
                ot_rx@[t].0,
                t,
            ) by {
                assert(old(self).spec_draws()[t] == spec_stream_u128(
                    old(self).otg@[t].spec_seed(),
                    old(self).otg@[t].spec_pos(),
                ));
            }
            assert(spec_sender_transpose(
                old(self).spec_delta(),
                old(self).spec_draws(),
                ot_rx@,
                keys_out@,
            ));
        }
        keys_out
    }
}

/// The receiver's half of the extension after setup: two stream ciphers per
/// column, seeded by the message pair it created for the base transfers.
pub struct LeakyOtReceiver {
    otg0: Vec<ChaChaStream>,
    otg1: Vec<ChaChaStream>,
}

impl LeakyOtReceiver {
    /// The setup invariant: two stream ciphers per column.
    pub closed spec fn wf(&self) -> bool {
        self.otg0@.len() == K && self.otg1@.len() == K
    }

    /// The seed of stream 0 of column `i`.
    pub closed spec fn spec_stream_seed0(&self, i: int) -> Seq<u8> {
        self.otg0@[i].spec_seed()
    }

    /// The word position of stream 0 of column `i`.
    pub closed spec fn spec_stream_pos0(&self, i: int) -> nat {
        self.otg0@[i].spec_pos()
    }

    /// The seed of stream 1 of column `i`.
    pub closed spec fn spec_stream_seed1(&self, i: int) -> Seq<u8> {
        self.otg1@[i].spec_seed()
    }

    /// The word position of stream 1 of column `i`.
    pub closed spec fn spec_stream_pos1(&self, i: int) -> nat {
        self.otg1@[i].spec_pos()
    }

    /// The `t0` blocks the next batch will draw, one per column.
    pub open spec fn spec_t0(&self) -> Seq<u128> {
        Seq::new(
            K as nat,
            |i: int| spec_stream_u128(self.spec_stream_seed0(i), self.spec_stream_pos0(i)),
        )
    }

    /// The `t1` blocks the next batch will draw, one per column.
    pub open spec fn spec_t1(&self) -> Seq<u128> {
        Seq::new(
            K as nat,
            |i: int| spec_stream_u128(self.spec_stream_seed1(i), self.spec_stream_pos1(i)),
        )
    }

    /// Builds the receiver's streams from the K seed pairs it created for
    /// the base transfers.
    pub fn from_seed_pairs(seeds0: &Vec<OtMessage>, seeds1: &Vec<OtMessage>) -> (r: Self)
        requires
            seeds0@.len() >= K,
            seeds1@.len() >= K,
        ensures
            r.wf(),
            forall|i: int| 0 <= i < K ==> #[trigger] r.spec_stream_seed0(i) == seeds0@[i]@,
            forall|i: int| 0 <= i < K ==> #[trigger] r.spec_stream_seed1(i) == seeds1@[i]@,
            forall|i: int| 0 <= i < K ==> #[trigger] r.spec_stream_pos0(i) == 0,
            forall|i: int| 0 <= i < K ==> #[trigger] r.spec_stream_pos1(i) == 0,
    {
        let mut otg0: Vec<ChaChaStream> = Vec::new();
        let mut otg1: Vec<ChaChaStream> = Vec::new();
        for i in 0..K
            invariant
                seeds0@.len() >= K,
                seeds1@.len() >= K,
                otg0@.len() == i,
                otg1@.len() == i,
                forall|j: int| 0 <= j < i ==> #[trigger] otg0@[j].spec_seed() == seeds0@[j]@,
                forall|j: int| 0 <= j < i ==> #[trigger] otg1@[j].spec_seed() == seeds1@[j]@,
                forall|j: int| 0 <= j < i ==> #[trigger] otg0@[j].spec_pos() == 0,
                forall|j: int| 0 <= j < i ==> #[trigger] otg1@[j].spec_pos() == 0,
        {
            otg0.push(ChaChaStream::from_seed(seeds0[i]));
            otg1.push(ChaChaStream::from_seed(seeds1[i]));
        }
        LeakyOtReceiver { otg0, otg1 }
    }

    /// One batch of the receiver's side: per column, draws the next blocks
    /// `t0` and `t1` of the two streams, broadcasts the correction word
    /// `t0 ^ t1 ^ random_bits`, and transposes the `t0` blocks into K MAC
    /// words. Returns the MAC words and the correction words, in that
    /// order; both are a function of the stream seeds and positions and of
    /// `random_bits`.
    pub fn new_batch(&mut self, random_bits: u128) -> (r: (Vec<MacType>, Vec<MacType>))
        requires
            old(self).wf(),
        ensures
            final(self).wf(),
            forall|i: int|
                0 <= i < K ==> #[trigger] final(self).spec_stream_seed0(i) == old(
                    self,
                ).spec_stream_seed0(i),
            forall|i: int|
                0 <= i < K ==> #[trigger] final(self).spec_stream_seed1(i) == old(
                    self,
                ).spec_stream_seed1(i),
            forall|i: int|
                0 <= i < K ==> #[trigger] final(self).spec_stream_pos0(i) == old(
                    self,
                ).spec_stream_pos0(i) + 2,
            forall|i: int|
                0 <= i < K ==> #[trigger] final(self).spec_stream_pos1(i) == old(
                    self,
                ).spec_stream_pos1(i) + 2,
            r.0@.len() == K,
            r.1@.len() == K,
            spec_receiver_batch(random_bits, old(self).spec_t0(), old(self).spec_t1(), r.0@, r.1@),
    {
        let mut t_i: Vec<KeyType> = Vec::new();
        let mut ot_out: Vec<MacType> = Vec::new();
        let mut i: usize = 0;
        while i < K
            invariant
                i <= K,
                self.otg0@.len() == K,
                self.otg1@.len() == K,
                t_i@.len() == i,
                ot_out@.len() == i,
                forall|t: int| i <= t < K ==> #[trigger] self.otg0@[t] == old(self).otg0@[t],
                forall|t: int| i <= t < K ==> #[trigger] self.otg1@[t] == old(self).otg1@[t],
                forall|t: int|
                    0 <= t < i ==> #[trigger] self.otg0@[t].spec_seed() == old(
                        self,
                    ).otg0@[t].spec_seed(),
                forall|t: int|
                    0 <= t < i ==> #[trigger] self.otg1@[t].spec_seed() == old(
                        self,
                    ).otg1@[t].spec_seed(),
                forall|t: int|
                    0 <= t < i ==> #[trigger] self.otg0@[t].spec_pos() == old(
                        self,
                    ).otg0@[t].spec_pos() + 2,
                forall|t: int|
                    0 <= t < i ==> #[trigger] self.otg1@[t].spec_pos() == old(
                        self,
                    ).otg1@[t].spec_pos() + 2,
                forall|t: int|
                    0 <= t < i ==> #[trigger] t_i@[t].0 == spec_stream_u128(
                        old(self).otg0@[t].spec_seed(),
                        old(self).otg0@[t].spec_pos(),
                    ),
                forall|t: int|
                    0 <= t < i ==> #[trigger] ot_out@[t].0 == spec_stream_u128(
                        old(self).otg0@[t].spec_seed(),
                        old(self).otg0@[t].spec_pos(),
                    ) ^ spec_stream_u128(
                        old(self).otg1@[t].spec_seed(),
                        old(self).otg1@[t].spec_pos(),
                    ) ^ random_bits,
            decreases K - i,
        {
            let ghost prev0 = self.otg0@;
            let ghost prev1 = self.otg1@;
            let mut stream0 = self.otg0.remove(i);
            let mut stream1 = self.otg1.remove(i);
            let t0 = stream0.next_u128();
            let t1 = stream1.next_u128();
            self.otg0.insert(i, stream0);
            self.otg1.insert(i, stream1);
            proof {
                assert(self.otg0@ =~= prev0.update(i as int, stream0));
                assert(self.otg1@ =~= prev1.update(i as int, stream1));
            }
            t_i.push(KeyType(t0));
            ot_out.push(MacType(t0 ^ t1 ^ random_bits));
            i += 1;
        }
        let macs_out = matrix_transpose(&t_i);
        let r = (macs_out, ot_out);
        proof {
            assert forall|t: int| 0 <= t < K implies #[trigger] t_i@[t].0 == old(
                self,
            ).spec_t0()[t] && r.1@[t].0 == old(self).spec_t0()[t] ^ old(self).spec_t1()[t]
                ^ random_bits by {
                assert(old(self).spec_t0()[t] == spec_stream_u128(
                    old(self).otg0@[t].spec_seed(),
                    old(self).otg0@[t].spec_pos(),
                ));
                assert(old(self).spec_t1()[t] == spec_stream_u128(
                    old(self).otg1@[t].spec_seed(),
                    old(self).otg1@[t].spec_pos(),
                ));
            }
            assert(spec_receiver_batch(
                random_bits,
                old(self).spec_t0(),
                old(self).spec_t1(),
                r.0@,
                r.1@,
            ));
        }
        r
    }
}

/// The extension's IT-MAC relation, column-wise: when the sender's drawn
/// block of each column equals the receiver's stream block selected by the
/// delta bit (which the base transfers guarantee), then for every produced
/// authenticated bit `j` the receiver's MAC word differs from the sender's
/// key word by `x_j * delta`, where `x_j` is bit `j` of the receiver's
/// plaintext word.
pub proof fn lemma_extension_it_mac(
    delta: Delta,
    x: u128,
    t0: Seq<u128>,
    t1: Seq<u128>,
    draws: Seq<u128>,
    ot: Seq<MacType>,
    macs: Seq<MacType>,
    keys: Seq<MacType>,
    j: int,
)
    requires
        t0.len() == K,
        t1.len() == K,
        draws.len() == K,
        ot.len() == K,
        macs.len() >= K,
        keys.len() >= K,
        0 <= j < K,
        forall|i: int|
            0 <= i < K ==> #[trigger] draws[i] == (if bit128(delta.0, i) {
                t1[i]
            } else {
                t0[i]
            }),
        forall|i: int| 0 <= i < K ==> #[trigger] ot[i].0 == t0[i] ^ t1[i] ^ x,
        spec_sender_transpose(delta, draws, ot, keys),
        forall|i: int| 0 <= i < K ==> #[trigger] bit128(macs[j].0, i) == bit128(t0[i], j),
    ensures
        macs[j].0 ^ keys[j].0 == (if bit128(x, j) {
            delta.0
        } else {
            0u128
        }),
{
    let m = macs[j].0;
    let k = keys[j].0;
    let rhs: u128 = if bit128(x, j) {
        delta.0
    } else {
        0u128
    };
    let jj = j as u128;
    assert forall|i: int| 0 <= i < 128 implies bit128(m ^ k, i) == bit128(rhs, i) by {
        let ii = i as u128;
        assert((((m ^ k) >> ii) & 1 == 1) == (((m >> ii) & 1 == 1) != ((k >> ii) & 1 == 1)))
            by (bit_vector)
            requires
                ii < 128,
        ;
        let p = t0[i];
        let q = t1[i];
        let d = draws[i];
        let u = ot[i].0;
        let col = spec_sender_column(delta, d, u, i);
        assert(bit128(m, i) == bit128(p, j));
        assert(bit128(k, i) == bit128(col, j));
        assert(bit128(m ^ k, i) == (bit128(m, i) != bit128(k, i)));
        assert((0u128 >> ii) & 1 == 0) by (bit_vector);
        if bit128(delta.0, i) {
            assert(q ^ (p ^ q ^ x) == p ^ x) by (bit_vector);
            assert(col == p ^ x);
            assert((((p ^ x) >> jj) & 1 == 1) == (((p >> jj) & 1 == 1) != ((x >> jj) & 1
                == 1))) by (bit_vector)
                requires
                    jj < 128,
            ;
            assert(bit128(col, j) == (bit128(p, j) != bit128(x, j)));
        } else {
            assert(p ^ 0 == p) by (bit_vector);
            assert(col == p);
        }
    }
    crate::types::lemma_u128_bit_ext(m ^ k, rhs);
}


/// Serialization round trip for the first-message block: deserializing the
/// serialization of a well-formed block returns its messages unchanged.
pub proof fn lemma_ot_init_round_trip(m: OtInit)
    requires
        m@.len() == K,
        forall|i: int| 0 <= i < K ==> #[trigger] m@[i].len() == 32,
    ensures
        spec_concat_blocks(m@, K as int).len() == 32 * K,
        spec_parse_blocks(spec_concat_blocks(m@, K as int), 32) == m@,
{
    lemma_blocks_round_trip(m@, 32);
}

/// Serialization round trip for the reply block: deserializing the
/// serialization of a well-formed block returns its replies unchanged.
pub proof fn lemma_ot_init_reply_round_trip(m: OtInitReply)
    requires
        m@.len() == K,
        forall|i: int| 0 <= i < K ==> #[trigger] m@[i].len() == 64,
    ensures
        spec_concat_blocks(m@, K as int).len() == MSG_LEN * 2 * K,
        spec_parse_blocks(spec_concat_blocks(m@, K as int), 64) == m@,
{
    lemma_blocks_round_trip(m@, 64);
}

/// The choice bits the sender hands to the K base oblivious transfers: the
/// bits of its delta, lowest first.
pub fn delta_choice_bits(delta: &Delta) -> (r: Vec<bool>)
    ensures
        r@.len() == K,
        forall|i: int| 0 <= i < K ==> #[trigger] r@[i] == bit128(delta.0, i),
{
    let mut bits: Vec<bool> = Vec::new();
    for i in 0..K
        invariant
            bits@.len() == i,
            forall|j: int| 0 <= j < i ==> #[trigger] bits@[j] == bit128(delta.0, j),
    {
        let chosen = delta.0 & (1u128 << (i as u128)) != 0;
        proof {
            let v = delta.0;
            let ii = i as u128;
            assert((v & (1u128 << ii) != 0) == ((v >> ii) & 1 == 1)) by (bit_vector)
                requires
                    ii < 128,
            ;
        }
        bits.push(chosen);
    }
    bits
}

/// Draws the K fresh message pairs the receiver feeds into the base
/// oblivious transfers, from a dedicated stream under `seed`; their two
/// halves later seed the two streams of each column. Pair `i` holds the
/// stream's 32-byte blocks at word positions `8 * i` and `8 * i + 4`.
pub fn generate_seed_pairs(seed: [u8; 32]) -> (r: (Vec<OtMessage>, Vec<OtMessage>))
    ensures
        r.0@.len() == K,
        r.1@.len() == K,
        forall|i: int|
            0 <= i < K ==> #[trigger] r.0@[i]@ == spec_seed_block(seed@, (8 * i) as nat),
        forall|i: int|
            0 <= i < K ==> #[trigger] r.1@[i]@ == spec_seed_block(seed@, (8 * i + 4) as nat),
{
    let mut stream = ChaChaStream::from_seed(seed);
    let mut seeds0: Vec<OtMessage> = Vec::new();
    let mut seeds1: Vec<OtMessage> = Vec::new();
    for i in 0..K
        invariant
            stream.spec_seed() == seed@,
            stream.spec_pos() == 8 * i,
            seeds0@.len() == i,
            seeds1@.len() == i,
            forall|j: int|
                0 <= j < i ==> #[trigger] seeds0@[j]@ == spec_seed_block(seed@, (8 * j) as nat),
            forall|j: int|
                0 <= j < i ==> #[trigger] seeds1@[j]@ == spec_seed_block(
                    seed@,
                    (8 * j + 4) as nat,
                ),
    {
        seeds0.push(stream.next_seed_block());
        seeds1.push(stream.next_seed_block());
    }
    (seeds0, seeds1)
}


/// The IT-MAC relation for a first batch produced through the interface:
/// when the sender's streams are seeded with the delta-selected halves of
/// the receiver's seed pairs — which is exactly what the K base transfers
/// guarantee — and each side then produces its first batch from its fresh
/// streams, every produced authenticated bit `j` satisfies
/// `mac ^ key == x_j * delta`.
pub proof fn lemma_first_batch_it_mac(
    delta: Delta,
    x: u128,
    seeds0: Seq<Seq<u8>>,
    seeds1: Seq<Seq<u8>>,
    sender_seeds: Seq<Seq<u8>>,
    ot: Seq<MacType>,
    macs: Seq<MacType>,
    keys: Seq<MacType>,
    j: int,
)
    requires
        seeds0.len() == K,
        seeds1.len() == K,
        sender_seeds.len() == K,
        ot.len() == K,
        macs.len() >= K,
        keys.len() >= K,
        0 <= j < K,
        forall|i: int|
            0 <= i < K ==> #[trigger] sender_seeds[i] == (if bit128(delta.0, i) {
                seeds1[i]
            } else {
                seeds0[i]
            }),
        forall|i: int|
            0 <= i < K ==> #[trigger] ot[i].0 == spec_stream_u128(seeds0[i], 0)
                ^ spec_stream_u128(seeds1[i], 0) ^ x,
        spec_sender_transpose(
            delta,
            Seq::new(K as nat, |i: int| spec_stream_u128(sender_seeds[i], 0)),
            ot,
            keys,
        ),
        forall|i: int|
            0 <= i < K ==> #[trigger] bit128(macs[j].0, i) == bit128(
                spec_stream_u128(seeds0[i], 0),
                j,
            ),
    ensures
        macs[j].0 ^ keys[j].0 == (if bit128(x, j) {
            delta.0
        } else {
            0u128
        }),
{
    let t0 = Seq::new(K as nat, |i: int| spec_stream_u128(seeds0[i], 0));
    let t1 = Seq::new(K as nat, |i: int| spec_stream_u128(seeds1[i], 0));
    let draws = Seq::new(K as nat, |i: int| spec_stream_u128(sender_seeds[i], 0));
    assert forall|i: int| 0 <= i < K implies #[trigger] draws[i] == (if bit128(delta.0, i) {
        t1[i]
    } else {
        t0[i]
    }) by {
        assert(sender_seeds[i] == (if bit128(delta.0, i) {
            seeds1[i]
        } else {
            seeds0[i]
        }));
    }
    lemma_extension_it_mac(delta, x, t0, t1, draws, ot, macs, keys, j);
}

} // verus!
