//! The keystream engine: a per-file substitution table and a running key,
//! both derived from the four-byte seed that opens every save file.

use vstd::prelude::*;

verus! {

/// The constant every stored seed is combined with to obtain the initial key.
pub const SEED_MASK: u32 = 0x5555_5555;

/// The odd multiplier that drives the substitution table.
pub const TABLE_MULTIPLIER: u32 = 39916801;

/// Number of entries of the substitution table: one per possible raw byte.
pub const TABLE_SIZE: usize = 256;

/// Rotation of a 32-bit word to the right by one bit.
pub open spec fn rotate_right_one(k: u32) -> u32 {
    (k >> 1) | (k << 31)
}

/// One round of the table generator: rotate, then multiply modulo 2^32.
pub open spec fn table_step(k: u32) -> u32 {
    rotate_right_one(k).wrapping_mul(TABLE_MULTIPLIER)
}

/// The generator's value after `i + 1` rounds started from `base`.
pub open spec fn table_entry(base: u32, i: nat) -> u32
    decreases i,
{
    if i == 0 {
        table_step(base)
    } else {
        table_step(table_entry(base, (i - 1) as nat))
    }
}

/// The key a file starts with, given the seed stored in its first four bytes.
pub open spec fn base_key(seed: u32) -> u32 {
    seed ^ SEED_MASK
}

/// The substitution table of the file whose stored seed is `seed`.
pub open spec fn key_table(seed: u32) -> Seq<u32> {
    Seq::new(TABLE_SIZE as nat, |i: int| table_entry(base_key(seed), i as nat))
}

/// The least significant byte of a word.
pub open spec fn low_byte(k: u32) -> u8 {
    (k & 0xff) as u8
}

/// The four bytes of a word, least significant first.
pub open spec fn word_bytes(v: u32) -> Seq<u8> {
    seq![low_byte(v), low_byte(v >> 8), low_byte(v >> 16), low_byte(v >> 24)]
}

/// The word whose bytes, least significant first, are `b0`, `b1`, `b2`, `b3`.
pub open spec fn word_of(b0: u8, b1: u8, b2: u8, b3: u8) -> u32 {
    (b0 as u32) | ((b1 as u32) << 8) | ((b2 as u32) << 16) | ((b3 as u32) << 24)
}

/// The running key after one raw byte has crossed the stream.
pub open spec fn absorb_byte(key: u32, table: Seq<u32>, raw: u8) -> u32 {
    key ^ table[raw as int]
}

/// The running key after the four raw bytes of a word have crossed the
/// stream, in the order in which they are stored.
pub open spec fn absorb_word(key: u32, table: Seq<u32>, raw: u32) -> u32 {
    let k0 = absorb_byte(key, table, low_byte(raw));
    let k1 = absorb_byte(k0, table, low_byte(raw >> 8));
    let k2 = absorb_byte(k1, table, low_byte(raw >> 16));
    absorb_byte(k2, table, low_byte(raw >> 24))
}

/// The running key after a run of raw bytes has crossed the stream.
pub open spec fn absorb(key: u32, table: Seq<u32>, raw: Seq<u8>) -> u32
    decreases raw.len(),
{
    if raw.len() == 0 {
        key
    } else {
        absorb_byte(absorb(key, table, raw.drop_last()), table, raw.last())
    }
}

/// Splitting a word into bytes and joining them again gives the word back.
pub proof fn lemma_word_bytes_join(v: u32)
    ensures
        word_of(low_byte(v), low_byte(v >> 8), low_byte(v >> 16), low_byte(v >> 24)) == v,
        word_bytes(v).len() == 4,
{
    assert(((v & 0xff) as u8 as u32) | ((((v >> 8) & 0xff) as u8 as u32) << 8) | ((((v >> 16)
        & 0xff) as u8 as u32) << 16) | ((((v >> 24) & 0xff) as u8 as u32) << 24) == v)
        by (bit_vector);
}

/// Joining four bytes into a word and splitting it again gives the bytes back.
pub proof fn lemma_word_of_split(b0: u8, b1: u8, b2: u8, b3: u8)
    ensures
        word_bytes(word_of(b0, b1, b2, b3)) == seq![b0, b1, b2, b3],
{
    let v = word_of(b0, b1, b2, b3);
    assert(v == (b0 as u32) | ((b1 as u32) << 8) | ((b2 as u32) << 16) | ((b3 as u32) << 24));
    assert((v & 0xff) as u8 == b0 && ((v >> 8) & 0xff) as u8 == b1 && ((v >> 16) & 0xff) as u8
        == b2 && ((v >> 24) & 0xff) as u8 == b3) by (bit_vector)
        requires
            v == (b0 as u32) | ((b1 as u32) << 8) | ((b2 as u32) << 16) | ((b3 as u32) << 24),
    ;
}

/// Masking is its own inverse, on words and on bytes.
pub proof fn lemma_mask_twice(v: u32, b: u8, key: u32)
    ensures
        (v ^ key) ^ key == v,
        (b ^ low_byte(key)) ^ low_byte(key) == b,
{
    assert((v ^ key) ^ key == v) by (bit_vector);
    let m = low_byte(key);
    assert((b ^ m) ^ m == b) by (bit_vector);
}

/// The running key and the substitution table of one open file.
#[derive(Debug, Clone, PartialEq, Eq)]
pub struct Keystream {
    pub key: u32,
    pub table: Vec<u32>,
}

impl Keystream {
    /// The table has one entry for every raw byte.
    pub open spec fn wf(&self) -> bool {
        self.table@.len() == TABLE_SIZE
    }

    /// The state in which nothing is masked: key and table are all zero.
    pub fn new() -> (r: Keystream)
        ensures
            r.wf(),
            r.key == 0,
            r.table@ == Seq::new(TABLE_SIZE as nat, |i: int| 0u32),
    {
        let mut table: Vec<u32> = Vec::new();
        let mut i: usize = 0;
        while i < TABLE_SIZE
            invariant
                i <= TABLE_SIZE,
                table@ == Seq::new(i as nat, |j: int| 0u32),
            decreases TABLE_SIZE - i,
        {
            table.push(0);
            i = i + 1;
            assert(table@ =~= Seq::new(i as nat, |j: int| 0u32));
        }
        Keystream { key: 0, table }
    }

    /// Derives the state of the file whose first four bytes hold `seed`.
    pub fn derive_key(seed: u32) -> (r: Keystream)
        ensures
            r.wf(),
            r.key == base_key(seed),
            r.table@ == key_table(seed),
    {
        let base: u32 = seed ^ SEED_MASK;
        let mut k: u32 = base;
        let mut table: Vec<u32> = Vec::new();
        let mut i: usize = 0;
        while i < TABLE_SIZE
            invariant
                i <= TABLE_SIZE,
                base == base_key(seed),
                table@.len() == i,
                forall|j: int| 0 <= j < i ==> table@[j] == table_entry(base, j as nat),
                i == 0 ==> k == base,
                i > 0 ==> k == table_entry(base, (i - 1) as nat),
            decreases TABLE_SIZE - i,
        {
            k = (k >> 1) | (k << 31);
            k = k.wrapping_mul(TABLE_MULTIPLIER);
            table.push(k);
            i = i + 1;
        }
        assert(table@ =~= key_table(seed));
        Keystream { key: base, table }
    }

    /// The mask of the next single byte: the low byte of the running key.
    pub fn next(&self) -> (r: u8)
        ensures
            r == low_byte(self.key),
    {
        (self.key & 0xff) as u8
    }

    /// Folds the raw bytes `val` into the running key, in order.
    pub fn update_key(&mut self, val: &[u8])
        requires
            old(self).wf(),
        ensures
            final(self).wf(),
            final(self).table == old(self).table,
            final(self).key == absorb(old(self).key, old(self).table@, val@),
    {
        let mut i: usize = 0;
        while i < val.len()
            invariant
                i <= val.len(),
                self.wf(),
                self.table == old(self).table,
                self.key == absorb(old(self).key, old(self).table@, val@.take(i as int)),
            decreases val.len() - i,
        {
            let b = val[i];
            assert(val@.take(i + 1).drop_last() =~= val@.take(i as int));
            self.key = self.key ^ self.table[b as usize];
            i = i + 1;
        }
        assert(val@.take(i as int) =~= val@);
    }
}

/// Folding the four bytes of a word into the key one by one is the same as
/// folding the word.
pub proof fn lemma_absorb_word_bytes(key: u32, table: Seq<u32>, raw: u32)
    ensures
        absorb(key, table, word_bytes(raw)) == absorb_word(key, table, raw),
{
    let w = word_bytes(raw);
    let w3 = w.drop_last();
    let w2 = w3.drop_last();
    let w1 = w2.drop_last();
    let w0 = w1.drop_last();
    assert(w0.len() == 0);
    assert(absorb(key, table, w0) == key);
    assert(absorb(key, table, w1) == absorb_byte(key, table, w1.last()));
    assert(absorb(key, table, w2) == absorb_byte(absorb(key, table, w1), table, w2.last()));
    assert(absorb(key, table, w3) == absorb_byte(absorb(key, table, w2), table, w3.last()));
    assert(absorb(key, table, w) == absorb_byte(absorb(key, table, w3), table, w.last()));
}

} // verus!
