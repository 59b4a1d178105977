//! The save format as mathematics: the plain values a file is made of, the
//! bytes they become under a key, and the stream a reader walks.

use crate::gd::gd_file::Fault;
use crate::gd::keystream::{
    absorb_byte, absorb_word, base_key, key_table, lemma_mask_twice, lemma_word_bytes_join,
    lemma_word_of_split, low_byte, word_bytes, word_of, TABLE_SIZE,
};
use vstd::prelude::*;

verus! {

/// One primitive value of the plain (unmasked) save format.
pub enum Token {
    /// A single byte; the key advances over its raw byte.
    Byte(u8),
    /// A 32-bit word; the key advances over its four raw bytes.
    Word(u32),
    /// A 32-bit word that leaves the key where it is: a block's length field
    /// and the zero word that closes a block.
    Mark(u32),
}

impl Token {
    /// The number of bytes the token takes in the file.
    pub open spec fn width(self) -> nat {
        match self {
            Token::Byte(_) => 1,
            Token::Word(_) => 4,
            Token::Mark(_) => 4,
        }
    }

    /// The raw bytes of the token when the running key is `key`.
    pub open spec fn raw(self, key: u32) -> Seq<u8> {
        match self {
            Token::Byte(v) => seq![v ^ low_byte(key)],
            Token::Word(v) => word_bytes(v ^ key),
            Token::Mark(v) => word_bytes(v ^ key),
        }
    }

    /// The running key behind the token.
    pub open spec fn next_key(self, key: u32, table: Seq<u32>) -> u32 {
        match self {
            Token::Byte(v) => absorb_byte(key, table, v ^ low_byte(key)),
            Token::Word(v) => absorb_word(key, table, v ^ key),
            Token::Mark(_) => key,
        }
    }
}

/// The number of bytes a run of tokens takes in the file.
pub open spec fn width(ts: Seq<Token>) -> nat
    decreases ts.len(),
{
    if ts.len() == 0 {
        0
    } else {
        ts[0].width() + width(ts.skip(1))
    }
}

/// The running key behind a run of tokens that starts under `key`.
pub open spec fn key_after(key: u32, table: Seq<u32>, ts: Seq<Token>) -> u32
    decreases ts.len(),
{
    if ts.len() == 0 {
        key
    } else {
        key_after(ts[0].next_key(key, table), table, ts.skip(1))
    }
}

/// The raw bytes of a run of tokens that starts under `key`.
pub open spec fn encode(key: u32, table: Seq<u32>, ts: Seq<Token>) -> Seq<u8>
    decreases ts.len(),
{
    if ts.len() == 0 {
        Seq::empty()
    } else {
        ts[0].raw(key) + encode(ts[0].next_key(key, table), table, ts.skip(1))
    }
}

/// A run of tokens takes as many bytes as its width says.
pub proof fn lemma_encode_len(key: u32, table: Seq<u32>, ts: Seq<Token>)
    ensures
        encode(key, table, ts).len() == width(ts),
    decreases ts.len(),
{
    if ts.len() > 0 {
        lemma_encode_len(ts[0].next_key(key, table), table, ts.skip(1));
    }
}

/// A single token: its width, bytes and key are those of the token.
pub proof fn lemma_one(key: u32, table: Seq<u32>, t: Token)
    ensures
        width(seq![t]) == t.width(),
        key_after(key, table, seq![t]) == t.next_key(key, table),
        encode(key, table, seq![t]) == t.raw(key),
{
    let ts = seq![t];
    assert(ts.skip(1).len() == 0);
    assert(width(ts) == t.width() + width(ts.skip(1)));
    assert(key_after(key, table, ts) == key_after(t.next_key(key, table), table, ts.skip(1)));
    assert(ts[0] == t);
    assert(encode(t.next_key(key, table), table, ts.skip(1)) =~= Seq::<u8>::empty());
    assert(encode(key, table, ts) =~= t.raw(key));
}

/// Two runs written one behind the other: the widths add up, the second run
/// starts under the key that the first one leaves.
pub proof fn lemma_concat(key: u32, table: Seq<u32>, a: Seq<Token>, b: Seq<Token>)
    ensures
        width(a + b) == width(a) + width(b),
        key_after(key, table, a + b) == key_after(key_after(key, table, a), table, b),
        encode(key, table, a + b) == encode(key, table, a) + encode(
            key_after(key, table, a),
            table,
            b,
        ),
    decreases a.len(),
{
    if a.len() == 0 {
        assert(a + b =~= b);
        assert(encode(key, table, a) + encode(key, table, b) =~= encode(key, table, b));
    } else {
        let k = a[0].next_key(key, table);
        assert((a + b).skip(1) =~= a.skip(1) + b);
        assert((a + b)[0] == a[0]);
        lemma_concat(k, table, a.skip(1), b);
        assert(encode(key, table, a + b) =~= encode(key, table, a) + encode(
            key_after(key, table, a),
            table,
            b,
        ));
    }
}

/// A save file under the reader's or the writer's hand.
pub struct Stream {
    /// The raw bytes of the file.
    pub data: Seq<u8>,
    /// The offset of the next byte to read.
    pub pos: nat,
    /// The running key.
    pub key: u32,
    /// The substitution table.
    pub table: Seq<u32>,
    /// The first failure met while reading, if any. Once set it stays.
    pub fault: Option<Fault>,
}

impl Stream {
    /// The cursor lies inside the file and the table is complete.
    pub open spec fn wf(self) -> bool {
        &&& self.pos <= self.data.len()
        &&& self.data.len() <= usize::MAX
        &&& self.table.len() == TABLE_SIZE
    }

    /// Nothing has failed so far.
    pub open spec fn ok(self) -> bool {
        self.fault is None
    }

    /// The stream with `fault` recorded, unless an earlier one stands.
    pub open spec fn fail(self, fault: Fault) -> Stream {
        if self.ok() {
            Stream { fault: Some(fault), ..self }
        } else {
            self
        }
    }

    /// The word stored raw at the cursor.
    pub open spec fn raw_word(self) -> u32 {
        word_of(
            self.data[self.pos as int],
            self.data[self.pos as int + 1],
            self.data[self.pos as int + 2],
            self.data[self.pos as int + 3],
        )
    }

    /// Reads one byte.
    #[verifier::opaque]
    pub open spec fn byte(self) -> (u8, Stream) {
        if !self.ok() {
            (0, self)
        } else if self.pos + 1 > self.data.len() {
            (0, self.fail(Fault::UnexpectedEof))
        } else {
            let raw = self.data[self.pos as int];
            (
                raw ^ low_byte(self.key),
                Stream { pos: self.pos + 1, key: absorb_byte(self.key, self.table, raw), ..self },
            )
        }
    }

    /// Reads one word.
    #[verifier::opaque]
    pub open spec fn word(self) -> (u32, Stream) {
        if !self.ok() {
            (0, self)
        } else if self.pos + 4 > self.data.len() {
            (0, self.fail(Fault::UnexpectedEof))
        } else {
            let raw = self.raw_word();
            (
                raw ^ self.key,
                Stream { pos: self.pos + 4, key: absorb_word(self.key, self.table, raw), ..self },
            )
        }
    }

    /// Reads one word and leaves the key where it is.
    #[verifier::opaque]
    pub open spec fn peek(self) -> (u32, Stream) {
        if !self.ok() {
            (0, self)
        } else if self.pos + 4 > self.data.len() {
            (0, self.fail(Fault::UnexpectedEof))
        } else {
            (self.raw_word() ^ self.key, Stream { pos: self.pos + 4, ..self })
        }
    }

    /// The stream after `ts` has been written at its end.
    #[verifier::opaque]
    pub open spec fn emit(self, ts: Seq<Token>) -> Stream {
        Stream {
            data: self.data + encode(self.key, self.table, ts),
            key: key_after(self.key, self.table, ts),
            ..self
        }
    }

    /// The bytes at the cursor are those of `ts` under the running key.
    #[verifier::opaque]
    pub open spec fn holds(self, ts: Seq<Token>) -> bool {
        &&& self.pos + width(ts) <= self.data.len()
        &&& self.data.subrange(self.pos as int, (self.pos + width(ts)) as int) == encode(
            self.key,
            self.table,
            ts,
        )
    }

    /// The stream with the cursor and the key moved behind `ts`.
    #[verifier::opaque]
    pub open spec fn skip(self, ts: Seq<Token>) -> Stream {
        Stream {
            pos: self.pos + width(ts),
            key: key_after(self.key, self.table, ts),
            ..self
        }
    }
}

/// Writing two runs in turn is writing their concatenation.
pub proof fn lemma_emit_concat(s: Stream, a: Seq<Token>, b: Seq<Token>)
    ensures
        s.emit(a + b) == s.emit(a).emit(b),
{
    reveal(Stream::emit);
    lemma_concat(s.key, s.table, a, b);
    assert(s.emit(a + b).data =~= s.emit(a).emit(b).data);
}

/// A stream holds two runs in a row exactly when it holds the first and,
/// behind it, the second.
pub proof fn lemma_holds_concat(s: Stream, a: Seq<Token>, b: Seq<Token>)
    ensures
        s.holds(a + b) <==> s.holds(a) && s.skip(a).holds(b),
        s.skip(a + b) == s.skip(a).skip(b),
{
    reveal(Stream::holds);
    reveal(Stream::skip);
    lemma_concat(s.key, s.table, a, b);
    lemma_encode_len(s.key, s.table, a);
    lemma_encode_len(s.key, s.table, a + b);
    lemma_encode_len(key_after(s.key, s.table, a), s.table, b);
    let p = s.pos as int;
    let wa = width(a) as int;
    let wb = width(b) as int;
    let ea = encode(s.key, s.table, a);
    let eb = encode(key_after(s.key, s.table, a), s.table, b);
    if s.holds(a + b) {
        assert(s.data.subrange(p, p + wa) =~= s.data.subrange(p, p + wa + wb).subrange(0, wa));
        assert((ea + eb).subrange(0, wa) =~= ea);
        assert(s.data.subrange(p + wa, p + wa + wb) =~= s.data.subrange(
            p,
            p + wa + wb,
        ).subrange(wa, wa + wb));
        assert((ea + eb).subrange(wa, wa + wb) =~= eb);
    }
    if s.holds(a) && s.skip(a).holds(b) {
        assert(s.data.subrange(p, p + wa + wb) =~= s.data.subrange(p, p + wa) + s.data.subrange(
            p + wa,
            p + wa + wb,
        ));
    }
}

/// Every stream holds the empty run.
pub proof fn lemma_holds_nothing(s: Stream)
    requires
        s.pos <= s.data.len(),
    ensures
        s.holds(Seq::empty()),
        s.skip(Seq::empty()) == s,
        s.emit(Seq::empty()) == s,
{
    reveal(Stream::emit);
    reveal(Stream::holds);
    reveal(Stream::skip);
    let e = Seq::<Token>::empty();
    assert(s.data.subrange(s.pos as int, (s.pos + width(e)) as int) =~= encode(s.key, s.table, e));
    assert(s.emit(e).data =~= s.data);
}

/// The word that follows the seed in every save file.
pub const MAGIC: u32 = 0x5843_4447;

impl Stream {
    /// A file that has just been opened: cursor at the start, nothing masked.
    pub open spec fn start(data: Seq<u8>) -> Stream {
        Stream {
            data,
            pos: 0,
            key: 0,
            table: Seq::new(TABLE_SIZE as nat, |i: int| 0u32),
            fault: None,
        }
    }

    /// Reads the seed at the cursor and derives key and table from it.
    pub open spec fn keyed(self) -> Stream {
        if !self.ok() {
            self
        } else if self.pos + 4 > self.data.len() {
            self.fail(Fault::KeyDerivationFailed)
        } else {
            Stream {
                pos: self.pos + 4,
                key: base_key(self.raw_word()),
                table: key_table(self.raw_word()),
                ..self
            }
        }
    }

    /// Goes back to the start of the file, derives the key and checks the
    /// magic number.
    pub open spec fn validated(self) -> Stream {
        let s = Stream { pos: 0, ..self }.keyed();
        let (magic, s) = s.word();
        if s.ok() && magic != MAGIC {
            s.fail(Fault::InvalidMagicHeader)
        } else {
            s
        }
    }

    /// The stream after the seed has been written raw at its end and key and
    /// table have been derived from it.
    pub open spec fn seeded(self, seed: u32) -> Stream {
        Stream {
            data: self.data + word_bytes(seed),
            key: base_key(seed),
            table: key_table(seed),
            ..self
        }
    }
}

/// A byte at the cursor is one `Byte` token, and the other way round.
pub proof fn lemma_byte(s: Stream, v: u8)
    requires
        s.ok(),
    ensures
        s.holds(seq![Token::Byte(v)]) <==> s.byte().1.ok() && s.byte().0 == v,
        s.byte().1.ok() ==> s.byte().1 == s.skip(seq![Token::Byte(s.byte().0)]),
{
    reveal(Stream::byte);
    reveal(Stream::holds);
    reveal(Stream::skip);
    let m = low_byte(s.key);
    if s.pos + 1 <= s.data.len() {
        let raw = s.data[s.pos as int];
        let got = s.byte().0;
        lemma_one(s.key, s.table, Token::Byte(v));
        lemma_one(s.key, s.table, Token::Byte(got));
        lemma_mask_twice(0, raw, s.key);
        lemma_mask_twice(0, v, s.key);
        let sub = s.data.subrange(s.pos as int, s.pos as int + 1);
        assert(sub =~= seq![raw]);
        assert(seq![v ^ m][0] == v ^ m);
        if s.holds(seq![Token::Byte(v)]) {
            assert(sub[0] == (v ^ m));
        }
        if got == v {
            assert(sub =~= seq![v ^ m]);
        }
    } else {
        lemma_one(s.key, s.table, Token::Byte(v));
    }
}

/// A word at the cursor is one `Word` token, and the other way round.
pub proof fn lemma_word(s: Stream, v: u32)
    requires
        s.ok(),
    ensures
        s.holds(seq![Token::Word(v)]) <==> s.word().1.ok() && s.word().0 == v,
        s.word().1.ok() ==> s.word().1 == s.skip(seq![Token::Word(s.word().0)]),
{
    reveal(Stream::word);
    reveal(Stream::holds);
    reveal(Stream::skip);
    lemma_one(s.key, s.table, Token::Word(v));
    if s.pos + 4 <= s.data.len() {
        let got = s.word().0;
        lemma_one(s.key, s.table, Token::Word(got));
        lemma_raw_word(s, v ^ s.key);
        lemma_mask_twice(s.raw_word(), 0, s.key);
        lemma_mask_twice(v, 0, s.key);
    }
}

/// A word read past the key is one `Mark` token, and the other way round.
pub proof fn lemma_peek(s: Stream, v: u32)
    requires
        s.ok(),
    ensures
        s.holds(seq![Token::Mark(v)]) <==> s.peek().1.ok() && s.peek().0 == v,
        s.peek().1.ok() ==> s.peek().1 == s.skip(seq![Token::Mark(s.peek().0)]),
{
    reveal(Stream::peek);
    reveal(Stream::holds);
    reveal(Stream::skip);
    lemma_one(s.key, s.table, Token::Mark(v));
    if s.pos + 4 <= s.data.len() {
        let got = s.peek().0;
        lemma_one(s.key, s.table, Token::Mark(got));
        lemma_raw_word(s, v ^ s.key);
        lemma_mask_twice(s.raw_word(), 0, s.key);
        lemma_mask_twice(v, 0, s.key);
    }
}

/// The four bytes at the cursor spell `raw` exactly when the word stored
/// there is `raw`.
pub proof fn lemma_raw_word(s: Stream, raw: u32)
    requires
        s.pos + 4 <= s.data.len(),
    ensures
        s.data.subrange(s.pos as int, s.pos as int + 4) == word_bytes(raw) <==> s.raw_word() == raw,
        s.data.subrange(s.pos as int, s.pos as int + 4) == word_bytes(s.raw_word()),
{
    let p = s.pos as int;
    let sub = s.data.subrange(p, p + 4);
    lemma_word_of_split(s.data[p], s.data[p + 1], s.data[p + 2], s.data[p + 3]);
    lemma_word_bytes_join(raw);
    assert(sub =~= seq![s.data[p], s.data[p + 1], s.data[p + 2], s.data[p + 3]]);
    if sub == word_bytes(raw) {
        assert(sub[0] == low_byte(raw));
        assert(sub[1] == low_byte(raw >> 8));
        assert(sub[2] == low_byte(raw >> 16));
        assert(sub[3] == low_byte(raw >> 24));
    }
}

/// The offset at which a block ends when its length field, read with the
/// cursor at `pos`, announces `len` bytes.
pub open spec fn frame_end(pos: nat, len: u32) -> u64 {
    if pos + len > u64::MAX {
        u64::MAX
    } else {
        (pos + len) as u64
    }
}

/// A record's tokens inside a block: the sequence id, the length of the
/// payload in bytes, the payload, and the closing zero.
#[verifier::opaque]
pub open spec fn framed(id: u32, body: Seq<Token>) -> Seq<Token> {
    seq![Token::Word(id), Token::Mark(width(body) as u32)] + body + seq![Token::Mark(0)]
}

impl Stream {
    /// Reads a version field and checks it against the accepted versions.
    pub open spec fn version(self, accepted: Seq<u32>) -> (u32, Stream) {
        let (found, s) = self.word();
        if s.ok() && !accepted.contains(found) {
            (found, s.fail(Fault::UnsupportedVersion(found, accepted)))
        } else {
            (found, s)
        }
    }

    /// The length that the length field of the block at the cursor announces:
    /// the word behind the sequence id, read past the key.
    pub open spec fn announced(self) -> u32 {
        self.word().1.peek().0
    }

    /// Enters a block: reads its sequence id and its length field, and
    /// checks the id against `id`. Gives the offset at which the block ends.
    #[verifier::opaque]
    pub open spec fn block_start(self, id: u32) -> (u64, Stream) {
        let (found, s) = self.word();
        let (len, s) = s.peek();
        let end = frame_end(s.pos, len);
        if s.ok() && found != id {
            (end, s.fail(Fault::FailedToValidateBlockOrder(found, id)))
        } else {
            (end, s)
        }
    }

    /// Reads the zero word that closes a run of fields, past the key.
    pub open spec fn zero(self) -> (u32, Stream) {
        let (word, s) = self.peek();
        if s.ok() && word != 0 {
            (word, s.fail(Fault::FailedToValidateBlockEnding(word, 0)))
        } else {
            (word, s)
        }
    }

    /// Leaves a block: the cursor must stand at `end`, and the word there
    /// must be zero.
    #[verifier::opaque]
    pub open spec fn block_end(self, end: u64) -> Stream {
        if self.ok() && end != self.pos {
            self.fail(Fault::IncorrectBlockEndPosition(self.pos as u64, end))
        } else {
            let (zero, s) = self.peek();
            if s.ok() && zero != 0 {
                s.fail(Fault::FailedToValidateBlockEnding(zero, 0))
            } else {
                s
            }
        }
    }

    /// The stream of a writer that closes a block: the length field, whose
    /// four bytes end at offset `end` and were written under `mask`, receives
    /// the number of bytes written since, and the closing zero is added.
    pub open spec fn closed(self, end: nat, mask: u32) -> Stream {
        let len = (self.data.len() - end) as u32;
        Stream {
            data: self.data.subrange(0, end - 4) + word_bytes(len ^ mask) + self.data.subrange(
                end as int,
                self.data.len() as int,
            ) + word_bytes(0 ^ self.key),
            ..self
        }
    }
}

/// Opening a block with an empty length field, writing the payload and
/// closing the block leaves the framed payload in the file, if the payload's
/// width fits the length field. The payload takes as many bytes as its width.
pub proof fn lemma_frame_written(s: Stream, id: u32, body: Seq<Token>)
    ensures
        ({
            let open = s.emit(seq![Token::Word(id), Token::Mark(0)]);
            let mask = key_after(s.key, s.table, seq![Token::Word(id)]);
            &&& open.data.len() == s.data.len() + 8
            &&& open.emit(body).data.len() == open.data.len() + width(body)
            &&& width(body) <= u32::MAX ==> open.emit(body).closed(open.data.len(), mask)
                == s.emit(framed(id, body))
        }),
{
    reveal(Stream::emit);
    reveal(framed);
    let head = seq![Token::Word(id)];
    let gap = seq![Token::Mark(0)];
    let len = seq![Token::Mark(width(body) as u32)];
    let tail = seq![Token::Mark(0)];
    let k1 = key_after(s.key, s.table, head);
    lemma_one(s.key, s.table, Token::Word(id));
    lemma_one(k1, s.table, Token::Mark(0));
    lemma_one(k1, s.table, Token::Mark(width(body) as u32));
    let k2 = key_after(k1, s.table, body);
    lemma_one(k2, s.table, Token::Mark(0));
    lemma_encode_len(k1, s.table, body);
    lemma_word_bytes_join(0 ^ k1);
    lemma_word_bytes_join((width(body) as u32) ^ k1);
    lemma_word_bytes_join(id ^ s.key);
    assert(seq![Token::Word(id), Token::Mark(0)] =~= head + gap);
    assert(seq![Token::Word(id), Token::Mark(width(body) as u32)] =~= head + len);
    lemma_concat(s.key, s.table, head, gap);
    lemma_concat(s.key, s.table, head, len);
    lemma_concat(s.key, s.table, head + len, body);
    lemma_concat(s.key, s.table, head + len + body, tail);
    let open = s.emit(head + gap);
    let full = open.emit(body);
    assert(open.key == k1);
    assert(full.key == k2);
    assert(full.data.len() - open.data.len() == width(body));
    if width(body) <= u32::MAX {
        let done = full.closed(open.data.len(), k1);
        let want = s.emit(framed(id, body));
        assert(want.key == k2);
        assert(done.data =~= want.data);
    }
}

/// The code unit of a wide string whose bytes are `lo` and `hi`.
pub open spec fn unit_of(lo: u8, hi: u8) -> u16 {
    (lo as u16) | ((hi as u16) << 8)
}

/// A surrogate code unit stands for no character of its own.
pub open spec fn is_surrogate(unit: u16) -> bool {
    0xD800 <= unit <= 0xDFFF
}

/// The low byte of a character's code point.
pub open spec fn char_low(c: char) -> u8 {
    low_byte(c as u32)
}

/// The second byte of a character's code point.
pub open spec fn char_high(c: char) -> u8 {
    low_byte((c as u32) >> 8)
}

/// The characters of a narrow string, one byte each.
pub open spec fn narrow_bytes(cs: Seq<char>) -> Seq<Token>
    decreases cs.len(),
{
    if cs.len() == 0 {
        Seq::empty()
    } else {
        narrow_bytes(cs.drop_last()).push(Token::Byte(char_low(cs.last())))
    }
}

/// A narrow string: the number of characters, then one byte for each.
#[verifier::opaque]
pub open spec fn string_tokens(cs: Seq<char>) -> Seq<Token> {
    seq![Token::Word(cs.len() as u32)] + narrow_bytes(cs)
}

/// A narrow string can be written when its length fits in 32 bits and each
/// character in one byte.
pub open spec fn string_fits(cs: Seq<char>) -> bool {
    &&& cs.len() <= u32::MAX
    &&& forall|i: int| 0 <= i < cs.len() ==> #[trigger] cs[i] as u32 <= 0xff
}

/// The characters of a wide string, two bytes each, low byte first.
pub open spec fn wide_bytes(cs: Seq<char>) -> Seq<Token>
    decreases cs.len(),
{
    if cs.len() == 0 {
        Seq::empty()
    } else {
        wide_bytes(cs.drop_last()).push(Token::Byte(char_low(cs.last()))).push(
            Token::Byte(char_high(cs.last())),
        )
    }
}

/// A wide string: the number of characters, then two bytes for each.
#[verifier::opaque]
pub open spec fn wstring_tokens(cs: Seq<char>) -> Seq<Token> {
    seq![Token::Word(cs.len() as u32)] + wide_bytes(cs)
}

/// A wide string can be written when its length fits in 32 bits and each
/// character in 16 bits.
pub open spec fn wstring_fits(cs: Seq<char>) -> bool {
    &&& cs.len() <= u32::MAX
    &&& forall|i: int| 0 <= i < cs.len() ==> #[trigger] cs[i] as u32 <= 0xffff
}

impl Stream {
    /// Reads `n` single-byte characters.
    pub open spec fn narrow(self, n: nat) -> (Seq<char>, Stream)
        decreases n,
    {
        if n == 0 {
            (Seq::empty(), self)
        } else {
            let (cs, s) = self.narrow((n - 1) as nat);
            let (b, s) = s.byte();
            (cs.push(b as char), s)
        }
    }

    /// Reads a narrow string: a count, then that many single-byte characters.
    #[verifier::opaque]
    pub open spec fn string(self) -> (Seq<char>, Stream) {
        let (n, s) = self.word();
        s.narrow(n as nat)
    }

    /// Reads one two-byte character, low byte first.
    pub open spec fn wide_char(self) -> (char, Stream) {
        let (lo, s) = self.byte();
        let (hi, s) = s.byte();
        let unit = unit_of(lo, hi);
        if s.ok() && is_surrogate(unit) {
            (unit as char, s.fail(Fault::InvalidWideChar(unit)))
        } else {
            (unit as char, s)
        }
    }

    /// Reads `n` two-byte characters.
    pub open spec fn wide(self, n: nat) -> (Seq<char>, Stream)
        decreases n,
    {
        if n == 0 {
            (Seq::empty(), self)
        } else {
            let (cs, s) = self.wide((n - 1) as nat);
            let (c, s) = s.wide_char();
            (cs.push(c), s)
        }
    }

    /// Reads a wide string: a count, then that many two-byte characters.
    #[verifier::opaque]
    pub open spec fn wstring(self) -> (Seq<char>, Stream) {
        let (n, s) = self.word();
        s.wide(n as nat)
    }
}

/// A stream that has failed stays as it is, however many characters are
/// asked of it; and what has failed after `i` characters has failed after `n`.
pub proof fn lemma_narrow_sticks(s: Stream, i: nat, n: nat)
    requires
        i <= n,
        !s.narrow(i).1.ok(),
    ensures
        s.narrow(n).1 == s.narrow(i).1,
    decreases n,
{
    reveal(Stream::byte);
    if i < n {
        lemma_narrow_sticks(s, i, (n - 1) as nat);
    }
}

/// As [`lemma_narrow_sticks`], for two-byte characters.
pub proof fn lemma_wide_sticks(s: Stream, i: nat, n: nat)
    requires
        i <= n,
        !s.wide(i).1.ok(),
    ensures
        s.wide(n).1 == s.wide(i).1,
    decreases n,
{
    reveal(Stream::byte);
    if i < n {
        lemma_wide_sticks(s, i, (n - 1) as nat);
    }
}

/// A character whose code point fits in one byte is its own low byte.
pub proof fn lemma_char_bytes(c: char)
    ensures
        c as u32 <= 0xff ==> char_low(c) as char == c,
        c as u32 <= 0xffff ==> unit_of(char_low(c), char_high(c)) as char == c && !is_surrogate(
            unit_of(char_low(c), char_high(c)),
        ),
{
    let x = c as u32;
    if x <= 0xff {
        assert((x & 0xff) as u8 as u32 == x) by (bit_vector)
            requires
                x <= 0xff,
        ;
    }
    if x <= 0xffff {
        let lo = (x & 0xff) as u8;
        let hi = ((x >> 8) & 0xff) as u8;
        assert(((lo as u16) | ((hi as u16) << 8)) as u32 == x) by (bit_vector)
            requires
                x <= 0xffff,
                lo == (x & 0xff) as u8,
                hi == ((x >> 8) & 0xff) as u8,
        ;
    }
}

/// The two bytes of a code unit are the low and the high byte of its
/// character, and a byte is the low byte of its character.
pub proof fn lemma_unit_bytes(lo: u8, hi: u8)
    ensures
        char_low(lo as char) == lo,
        (lo as char) as u32 <= 0xff,
        !is_surrogate(unit_of(lo, hi)) ==> {
            &&& char_low(unit_of(lo, hi) as char) == lo
            &&& char_high(unit_of(lo, hi) as char) == hi
            &&& (unit_of(lo, hi) as char) as u32 <= 0xffff
        },
{
    let x = lo as u32;
    assert((x & 0xff) as u8 == lo) by (bit_vector)
        requires
            x == lo as u32,
    ;
    let unit = unit_of(lo, hi);
    let y = unit as u32;
    assert((y & 0xff) as u8 == lo && ((y >> 8) & 0xff) as u8 == hi) by (bit_vector)
        requires
            y == ((lo as u16) | ((hi as u16) << 8)) as u32,
    ;
}

/// Reading back the characters of a narrow string.
pub proof fn lemma_narrow_read_back(s: Stream, cs: Seq<char>)
    requires
        s.ok(),
        forall|i: int| 0 <= i < cs.len() ==> #[trigger] cs[i] as u32 <= 0xff,
        s.holds(narrow_bytes(cs)),
    ensures
        s.narrow(cs.len()) == (cs, s.skip(narrow_bytes(cs))),
    decreases cs.len(),
{
    reveal(Stream::skip);
    if cs.len() == 0 {
        assert(s.skip(narrow_bytes(cs)) == s);
        assert(cs =~= Seq::<char>::empty());
    } else {
        let init = cs.drop_last();
        let t = Token::Byte(char_low(cs.last()));
        assert(narrow_bytes(cs) =~= narrow_bytes(init) + seq![t]);
        lemma_holds_concat(s, narrow_bytes(init), seq![t]);
        lemma_narrow_read_back(s, init);
        let mid = s.skip(narrow_bytes(init));
        lemma_byte(mid, char_low(cs.last()));
        lemma_char_bytes(cs.last());
        assert(init.push(cs.last()) =~= cs);
    }
}

/// Reading back a narrow string.
pub proof fn lemma_string_read_back(s: Stream, cs: Seq<char>)
    requires
        s.ok(),
        string_fits(cs),
        s.holds(string_tokens(cs)),
    ensures
        s.string() == (cs, s.skip(string_tokens(cs))),
{
    reveal(Stream::string);
    reveal(string_tokens);
    let head = seq![Token::Word(cs.len() as u32)];
    lemma_holds_concat(s, head, narrow_bytes(cs));
    lemma_word(s, cs.len() as u32);
    lemma_narrow_read_back(s.skip(head), cs);
}

/// The characters read of a narrow string are the bytes that stand in the file.
pub proof fn lemma_narrow_write_back(s: Stream, n: nat)
    requires
        s.wf(),
        s.ok(),
        s.narrow(n).1.ok(),
    ensures
        ({
            let (cs, t) = s.narrow(n);
            &&& cs.len() == n
            &&& forall|i: int| 0 <= i < cs.len() ==> #[trigger] cs[i] as u32 <= 0xff
            &&& s.holds(narrow_bytes(cs))
            &&& t == s.skip(narrow_bytes(cs))
            &&& t.wf()
        }),
    decreases n,
{
    reveal(Stream::byte);
    if n == 0 {
        lemma_holds_nothing(s);
    } else {
        let (init, mid) = s.narrow((n - 1) as nat);
        lemma_narrow_write_back(s, (n - 1) as nat);
        let (b, t) = mid.byte();
        lemma_byte(mid, b);
        lemma_unit_bytes(b, 0);
        let cs = init.push(b as char);
        assert(cs.drop_last() =~= init);
        assert(narrow_bytes(cs) =~= narrow_bytes(init) + seq![Token::Byte(b)]);
        lemma_holds_concat(s, narrow_bytes(init), seq![Token::Byte(b)]);
    }
}

/// A narrow string that was read is one that can be written, and writing it
/// gives the bytes it was read from.
pub proof fn lemma_string_write_back(s: Stream)
    requires
        s.wf(),
        s.ok(),
        s.string().1.ok(),
    ensures
        ({
            let (cs, t) = s.string();
            &&& string_fits(cs)
            &&& s.holds(string_tokens(cs))
            &&& t == s.skip(string_tokens(cs))
            &&& t.wf()
        }),
{
    reveal(Stream::holds);
    reveal(Stream::skip);
    reveal(Stream::string);
    reveal(string_tokens);
    let (n, mid) = s.word();
    if !mid.ok() {
        lemma_narrow_sticks(mid, 0, n as nat);
    }
    lemma_word(s, n);
    lemma_narrow_write_back(mid, n as nat);
    let (cs, t) = mid.narrow(n as nat);
    lemma_holds_concat(s, seq![Token::Word(n)], narrow_bytes(cs));
}

/// Reading back the characters of a wide string.
pub proof fn lemma_wide_read_back(s: Stream, cs: Seq<char>)
    requires
        s.ok(),
        forall|i: int| 0 <= i < cs.len() ==> #[trigger] cs[i] as u32 <= 0xffff,
        s.holds(wide_bytes(cs)),
    ensures
        s.wide(cs.len()) == (cs, s.skip(wide_bytes(cs))),
    decreases cs.len(),
{
    reveal(Stream::skip);
    if cs.len() == 0 {
        assert(s.skip(wide_bytes(cs)) == s);
        assert(cs =~= Seq::<char>::empty());
    } else {
        let init = cs.drop_last();
        let lo = Token::Byte(char_low(cs.last()));
        let hi = Token::Byte(char_high(cs.last()));
        assert(wide_bytes(cs) =~= (wide_bytes(init) + seq![lo]) + seq![hi]);
        lemma_holds_concat(s, wide_bytes(init) + seq![lo], seq![hi]);
        lemma_holds_concat(s, wide_bytes(init), seq![lo]);
        lemma_wide_read_back(s, init);
        let mid = s.skip(wide_bytes(init));
        lemma_byte(mid, char_low(cs.last()));
        lemma_byte(mid.skip(seq![lo]), char_high(cs.last()));
        lemma_char_bytes(cs.last());
        assert(init.push(cs.last()) =~= cs);
    }
}

/// Reading back a wide string.
pub proof fn lemma_wstring_read_back(s: Stream, cs: Seq<char>)
    requires
        s.ok(),
        wstring_fits(cs),
        s.holds(wstring_tokens(cs)),
    ensures
        s.wstring() == (cs, s.skip(wstring_tokens(cs))),
{
    reveal(Stream::wstring);
    reveal(wstring_tokens);
    let head = seq![Token::Word(cs.len() as u32)];
    lemma_holds_concat(s, head, wide_bytes(cs));
    lemma_word(s, cs.len() as u32);
    lemma_wide_read_back(s.skip(head), cs);
}

/// The characters read of a wide string are the byte pairs that stand in
/// the file, low byte first.
pub proof fn lemma_wide_write_back(s: Stream, n: nat)
    requires
        s.wf(),
        s.ok(),
        s.wide(n).1.ok(),
    ensures
        ({
            let (cs, t) = s.wide(n);
            &&& cs.len() == n
            &&& forall|i: int| 0 <= i < cs.len() ==> #[trigger] cs[i] as u32 <= 0xffff
            &&& s.holds(wide_bytes(cs))
            &&& t == s.skip(wide_bytes(cs))
            &&& t.wf()
        }),
    decreases n,
{
    reveal(Stream::byte);
    if n == 0 {
        lemma_holds_nothing(s);
    } else {
        let (init, mid) = s.wide((n - 1) as nat);
        lemma_wide_write_back(s, (n - 1) as nat);
        let (lo, mid2) = mid.byte();
        let (hi, t) = mid2.byte();
        lemma_byte(mid, lo);
        lemma_byte(mid2, hi);
        lemma_unit_bytes(lo, hi);
        let c = unit_of(lo, hi) as char;
        let cs = init.push(c);
        assert(cs.drop_last() =~= init);
        assert(wide_bytes(cs) =~= (wide_bytes(init) + seq![Token::Byte(lo)]) + seq![
            Token::Byte(hi),
        ]);
        lemma_holds_concat(s, wide_bytes(init), seq![Token::Byte(lo)]);
        lemma_holds_concat(s, wide_bytes(init) + seq![Token::Byte(lo)], seq![Token::Byte(hi)]);
    }
}

/// A wide string that was read is one that can be written, and writing it
/// gives the bytes it was read from.
pub proof fn lemma_wstring_write_back(s: Stream)
    requires
        s.wf(),
        s.ok(),
        s.wstring().1.ok(),
    ensures
        ({
            let (cs, t) = s.wstring();
            &&& wstring_fits(cs)
            &&& s.holds(wstring_tokens(cs))
            &&& t == s.skip(wstring_tokens(cs))
            &&& t.wf()
        }),
{
    reveal(Stream::holds);
    reveal(Stream::skip);
    reveal(Stream::wstring);
    reveal(wstring_tokens);
    let (n, mid) = s.word();
    if !mid.ok() {
        lemma_wide_sticks(mid, 0, n as nat);
    }
    lemma_word(s, n);
    lemma_wide_write_back(mid, n as nat);
    let (cs, t) = mid.wide(n as nat);
    lemma_holds_concat(s, seq![Token::Word(n)], wide_bytes(cs));
}

/// Behind a run that a well-formed stream holds, the stream is well formed.
pub proof fn lemma_skip_wf(s: Stream, ts: Seq<Token>)
    requires
        s.wf(),
        s.holds(ts),
    ensures
        s.skip(ts).wf(),
        s.skip(ts).fault == s.fault,
{
    reveal(Stream::holds);
    reveal(Stream::skip);
}

/// A version field is one word, and it is accepted exactly when the word
/// is one of the accepted versions.
pub proof fn lemma_version(s: Stream, accepted: Seq<u32>, v: u32)
    requires
        s.ok(),
    ensures
        s.holds(seq![Token::Word(v)]) && accepted.contains(v) <==> s.version(accepted).1.ok()
            && s.version(accepted).0 == v,
        s.version(accepted).1.ok() ==> s.version(accepted).1 == s.skip(
            seq![Token::Word(s.version(accepted).0)],
        ),
{
    lemma_word(s, v);
}

/// Reading back a framed payload: the block opens on the payload, and
/// behind the payload it closes on the end of the frame.
pub proof fn lemma_frame_read_back(s: Stream, id: u32, body: Seq<Token>)
    requires
        s.wf(),
        s.ok(),
        width(body) <= u32::MAX,
        s.holds(framed(id, body)),
    ensures
        ({
            let inner = s.skip(seq![Token::Word(id), Token::Mark(width(body) as u32)]);
            let end = (inner.pos + width(body)) as u64;
            &&& s.block_start(id) == (end, inner)
            &&& inner.wf()
            &&& inner.ok()
            &&& inner.holds(body)
            &&& inner.skip(body).block_end(end) == s.skip(framed(id, body))
        }),
{
    reveal(Stream::holds);
    reveal(Stream::skip);
    reveal(framed);
    reveal(Stream::block_start);
    reveal(Stream::block_end);
    let len = width(body) as u32;
    let a = seq![Token::Word(id)];
    let b = seq![Token::Mark(len)];
    let z = seq![Token::Mark(0)];
    assert(seq![Token::Word(id), Token::Mark(len)] =~= a + b);
    lemma_holds_concat(s, a + b + body, z);
    lemma_holds_concat(s, a + b, body);
    lemma_holds_concat(s, a, b);
    lemma_word(s, id);
    lemma_peek(s.skip(a), len);
    lemma_one(s.key, s.table, Token::Word(id));
    lemma_one(s.skip(a).key, s.table, Token::Mark(len));
    let inner = s.skip(a + b);
    let out = inner.skip(body);
    lemma_peek(out, 0);
    lemma_one(out.key, out.table, Token::Mark(0));
}

/// A frame that was read is the framed payload: the length field gives the
/// width of the payload, and the frame can be written back.
pub proof fn lemma_frame_write_back(s: Stream, id: u32, body: Seq<Token>)
    requires
        s.wf(),
        s.ok(),
        s.block_start(id).1.ok(),
        s.block_start(id).1.holds(body),
        s.block_start(id).1.skip(body).block_end(s.block_start(id).0).ok(),
    ensures
        width(body) <= u32::MAX,
        s.holds(framed(id, body)),
        s.block_start(id).1.skip(body).block_end(s.block_start(id).0) == s.skip(framed(id, body)),
        s.skip(framed(id, body)).wf(),
{
    reveal(Stream::peek);
    reveal(Stream::skip);
    reveal(framed);
    reveal(Stream::block_start);
    reveal(Stream::block_end);
    let (found, s1) = s.word();
    let (len, inner) = s1.peek();
    let end = frame_end(inner.pos, len);
    let a = seq![Token::Word(id)];
    let b = seq![Token::Mark(len)];
    let z = seq![Token::Mark(0)];
    lemma_word(s, found);
    lemma_peek(s1, len);
    lemma_one(s.key, s.table, Token::Word(id));
    lemma_one(s1.key, s.table, Token::Mark(len));
    let out = inner.skip(body);
    let (zero, last) = out.peek();
    lemma_peek(out, 0);
    lemma_one(out.key, out.table, Token::Mark(0));
    assert(width(body) == len);
    assert(seq![Token::Word(id), Token::Mark(len)] =~= a + b);
    lemma_holds_concat(s, a, b);
    lemma_holds_concat(s, a + b, body);
    lemma_holds_concat(s, a + b + body, z);
}

/// A block whose payload ends elsewhere than its length field announced fails
/// on leaving, with the offset reached and the offset announced.
pub proof fn lemma_block_end_position(s: Stream, end: u64)
    requires
        s.ok(),
        s.pos != end,
    ensures
        s.block_end(end).fault == Some(Fault::IncorrectBlockEndPosition(s.pos as u64, end)),
{
    reveal(Stream::block_end);
}

/// A wide character is written as its low byte and then its high byte, each
/// masked with the low byte of the key that runs at its place; and the two
/// bytes of a character of the basic plane spell its code point.
pub proof fn lemma_wide_char_order(key: u32, table: Seq<u32>, c: char)
    ensures
        wide_bytes(seq![c]) == seq![Token::Byte(char_low(c)), Token::Byte(char_high(c))],
        encode(key, table, wide_bytes(seq![c])) == seq![
            char_low(c) ^ low_byte(key),
            char_high(c) ^ low_byte(absorb_byte(key, table, char_low(c) ^ low_byte(key))),
        ],
        c as u32 <= 0xffff ==> unit_of(char_low(c), char_high(c)) as char == c,
{
    let lo = Token::Byte(char_low(c));
    let hi = Token::Byte(char_high(c));
    let one = seq![c];
    assert(one.drop_last().len() == 0);
    assert(wide_bytes(one.drop_last()) =~= Seq::<Token>::empty());
    assert(wide_bytes(one) =~= seq![lo, hi]);
    assert(seq![lo, hi] =~= seq![lo] + seq![hi]);
    lemma_concat(key, table, seq![lo], seq![hi]);
    lemma_one(key, table, lo);
    lemma_one(lo.next_key(key, table), table, hi);
    assert(encode(key, table, seq![lo] + seq![hi]) =~= seq![
        char_low(c) ^ low_byte(key),
        char_high(c) ^ low_byte(absorb_byte(key, table, char_low(c) ^ low_byte(key))),
    ]);
    lemma_char_bytes(c);
}

/// Ambient form of [`lemma_holds_concat`], first half.
pub broadcast proof fn auto_holds_concat(s: Stream, a: Seq<Token>, b: Seq<Token>)
    ensures
        #[trigger] s.holds(a + b) <==> s.holds(a) && s.skip(a).holds(b),
{
    lemma_holds_concat(s, a, b);
}

/// Ambient form of [`lemma_holds_concat`], second half.
pub broadcast proof fn auto_skip_concat(s: Stream, a: Seq<Token>, b: Seq<Token>)
    ensures
        #[trigger] s.skip(a + b) == s.skip(a).skip(b),
{
    lemma_holds_concat(s, a, b);
}

/// Ambient form of [`lemma_emit_concat`].
pub broadcast proof fn auto_emit_concat(s: Stream, a: Seq<Token>, b: Seq<Token>)
    ensures
        #[trigger] s.emit(a + b) == s.emit(a).emit(b),
{
    lemma_emit_concat(s, a, b);
}

/// Ambient form of [`lemma_byte`], for a byte that the stream holds.
pub broadcast proof fn auto_byte_held(s: Stream, v: u8)
    requires
        s.ok(),
        #[trigger] s.holds(seq![Token::Byte(v)]),
    ensures
        s.byte() == (v, s.skip(seq![Token::Byte(v)])),
{
    lemma_byte(s, v);
}

/// Ambient form of [`lemma_byte`], for a byte that was read.
pub broadcast proof fn auto_byte_read(s: Stream)
    requires
        s.wf(),
        (#[trigger] s.byte()).1.ok(),
    ensures
        s.ok(),
        s.holds(seq![Token::Byte(s.byte().0)]),
        s.byte().1 == s.skip(seq![Token::Byte(s.byte().0)]),
        s.byte().1.wf(),
{
    reveal(Stream::byte);
    lemma_byte(s, s.byte().0);
}

/// Ambient form of [`lemma_word`], for a word that the stream holds.
pub broadcast proof fn auto_word_held(s: Stream, v: u32)
    requires
        s.ok(),
        #[trigger] s.holds(seq![Token::Word(v)]),
    ensures
        s.word() == (v, s.skip(seq![Token::Word(v)])),
{
    lemma_word(s, v);
}

/// Ambient form of [`lemma_word`], for a word that was read.
pub broadcast proof fn auto_word_read(s: Stream)
    requires
        s.wf(),
        (#[trigger] s.word()).1.ok(),
    ensures
        s.ok(),
        s.holds(seq![Token::Word(s.word().0)]),
        s.word().1 == s.skip(seq![Token::Word(s.word().0)]),
        s.word().1.wf(),
{
    reveal(Stream::word);
    lemma_word(s, s.word().0);
}

/// Ambient form of [`lemma_peek`], for a word that the stream holds.
pub broadcast proof fn auto_peek_held(s: Stream, v: u32)
    requires
        s.ok(),
        #[trigger] s.holds(seq![Token::Mark(v)]),
    ensures
        s.peek() == (v, s.skip(seq![Token::Mark(v)])),
{
    lemma_peek(s, v);
}

/// Ambient form of [`lemma_peek`], for a word that was read.
pub broadcast proof fn auto_peek_read(s: Stream)
    requires
        s.wf(),
        (#[trigger] s.peek()).1.ok(),
    ensures
        s.ok(),
        s.holds(seq![Token::Mark(s.peek().0)]),
        s.peek().1 == s.skip(seq![Token::Mark(s.peek().0)]),
        s.peek().1.wf(),
{
    reveal(Stream::peek);
    lemma_peek(s, s.peek().0);
}

/// Ambient form of [`lemma_string_read_back`].
pub broadcast proof fn auto_string_held(s: Stream, cs: Seq<char>)
    requires
        s.ok(),
        string_fits(cs),
        #[trigger] s.holds(string_tokens(cs)),
    ensures
        s.string() == (cs, s.skip(string_tokens(cs))),
{
    lemma_string_read_back(s, cs);
}

/// Ambient form of [`lemma_string_write_back`].
pub broadcast proof fn auto_string_read(s: Stream)
    requires
        s.wf(),
        (#[trigger] s.string()).1.ok(),
    ensures
        s.ok(),
        string_fits(s.string().0),
        s.holds(string_tokens(s.string().0)),
        s.string().1 == s.skip(string_tokens(s.string().0)),
        s.string().1.wf(),
{
    reveal(Stream::word);
    reveal(Stream::string);
    if !s.ok() {
        lemma_narrow_sticks(s, 0, s.word().0 as nat);
    }
    lemma_string_write_back(s);
}

/// Ambient form of [`lemma_wstring_read_back`].
pub broadcast proof fn auto_wstring_held(s: Stream, cs: Seq<char>)
    requires
        s.ok(),
        wstring_fits(cs),
        #[trigger] s.holds(wstring_tokens(cs)),
    ensures
        s.wstring() == (cs, s.skip(wstring_tokens(cs))),
{
    lemma_wstring_read_back(s, cs);
}

/// Ambient form of [`lemma_wstring_write_back`].
pub broadcast proof fn auto_wstring_read(s: Stream)
    requires
        s.wf(),
        (#[trigger] s.wstring()).1.ok(),
    ensures
        s.ok(),
        wstring_fits(s.wstring().0),
        s.holds(wstring_tokens(s.wstring().0)),
        s.wstring().1 == s.skip(wstring_tokens(s.wstring().0)),
        s.wstring().1.wf(),
{
    reveal(Stream::word);
    reveal(Stream::wstring);
    if !s.ok() {
        lemma_wide_sticks(s, 0, s.word().0 as nat);
    }
    lemma_wstring_write_back(s);
}

/// Nothing is read of a narrow string from a stream that has failed.
pub broadcast proof fn auto_string_sticks(s: Stream)
    requires
        !s.ok(),
    ensures
        (#[trigger] s.string()).1 == s,
{
    reveal(Stream::word);
    reveal(Stream::string);
    lemma_narrow_sticks(s, 0, s.word().0 as nat);
}

/// Nothing is read of a wide string from a stream that has failed.
pub broadcast proof fn auto_wstring_sticks(s: Stream)
    requires
        !s.ok(),
    ensures
        (#[trigger] s.wstring()).1 == s,
{
    reveal(Stream::word);
    reveal(Stream::wstring);
    lemma_wide_sticks(s, 0, s.word().0 as nat);
}

/// Behind a run that a well-formed stream holds, the stream is well formed.
pub broadcast proof fn auto_skip_wf(s: Stream, ts: Seq<Token>)
    requires
        s.wf(),
        #[trigger] s.holds(ts),
    ensures
        s.skip(ts).wf(),
{
    reveal(Stream::holds);
    reveal(Stream::skip);
}

/// Nothing to skip leaves the stream where it is.
pub broadcast proof fn auto_skip_nothing(s: Stream)
    ensures
        #[trigger] s.skip(Seq::<Token>::empty()) == s,
{
    reveal(Stream::skip);
}

/// A stream holds the empty run wherever its cursor lies inside the file.
pub broadcast proof fn auto_holds_nothing(s: Stream)
    ensures
        #[trigger] s.holds(Seq::<Token>::empty()) <==> s.pos <= s.data.len(),
{
    reveal(Stream::holds);
    if s.pos <= s.data.len() {
        lemma_holds_nothing(s);
    }
}

/// Nothing to write leaves the stream as it is.
pub broadcast proof fn auto_emit_nothing(s: Stream)
    ensures
        #[trigger] s.emit(Seq::<Token>::empty()) == s,
{
    reveal(Stream::emit);
    assert(s.emit(Seq::<Token>::empty()).data =~= s.data);
}

/// A block that opened on a well-formed stream leaves it well formed.
pub broadcast proof fn auto_block_start_read(s: Stream, id: u32)
    requires
        s.wf(),
        (#[trigger] s.block_start(id)).1.ok(),
    ensures
        s.ok(),
        s.block_start(id).1.wf(),
        s.block_start(id).1.data == s.data,
{
    reveal(Stream::word);
    reveal(Stream::peek);
    reveal(Stream::block_start);
}

/// No block opens on a stream that has failed.
pub broadcast proof fn auto_block_start_sticks(s: Stream, id: u32)
    requires
        !s.ok(),
    ensures
        (#[trigger] s.block_start(id)).1 == s,
{
    reveal(Stream::word);
    reveal(Stream::peek);
    reveal(Stream::block_start);
}

/// No block closes on a stream that has failed.
pub broadcast proof fn auto_block_end_sticks(s: Stream, end: u64)
    requires
        !s.ok(),
    ensures
        #[trigger] s.block_end(end) == s,
{
    reveal(Stream::peek);
    reveal(Stream::block_end);
}

/// No byte is read from a stream that has failed.
pub broadcast proof fn auto_byte_sticks(s: Stream)
    requires
        !s.ok(),
    ensures
        (#[trigger] s.byte()).1 == s,
{
    reveal(Stream::byte);
}

/// No word is read from a stream that has failed.
pub broadcast proof fn auto_word_sticks(s: Stream)
    requires
        !s.ok(),
    ensures
        (#[trigger] s.word()).1 == s,
{
    reveal(Stream::word);
}

/// No word is read past the key from a stream that has failed.
pub broadcast proof fn auto_peek_sticks(s: Stream)
    requires
        !s.ok(),
    ensures
        (#[trigger] s.peek()).1 == s,
{
    reveal(Stream::peek);
}

/// Skipping a run neither raises nor clears a failure.
pub broadcast proof fn auto_skip_fault(s: Stream, ts: Seq<Token>)
    ensures
        (#[trigger] s.skip(ts)).fault == s.fault,
{
    reveal(Stream::skip);
}

/// A block that closed on a well-formed stream leaves it well formed.
pub broadcast proof fn auto_block_end_read(s: Stream, end: u64)
    requires
        s.wf(),
        (#[trigger] s.block_end(end)).ok(),
    ensures
        s.ok(),
        s.block_end(end).wf(),
{
    reveal(Stream::block_end);
    reveal(Stream::peek);
}

/// Skipping a run moves the cursor by the width of the run.
pub broadcast proof fn auto_skip_pos(s: Stream, ts: Seq<Token>)
    ensures
        (#[trigger] s.skip(ts)).pos == s.pos + width(ts),
        s.skip(ts).data == s.data,
{
    reveal(Stream::skip);
}

/// The widths of two runs add up.
pub broadcast proof fn auto_width_concat(a: Seq<Token>, b: Seq<Token>)
    ensures
        #[trigger] width(a + b) == width(a) + width(b),
{
    lemma_concat(0, Seq::empty(), a, b);
}

/// The width of a single token is its own.
pub broadcast proof fn auto_width_one(t: Token)
    ensures
        #[trigger] width(seq![t]) == t.width(),
{
    lemma_one(0, Seq::empty(), t);
}

/// The empty run has no width.
pub broadcast proof fn auto_width_nothing()
    ensures
        #[trigger] width(Seq::<Token>::empty()) == 0,
{
}

/// A block that closes behind its payload announced the width of the
/// payload: the payload takes as many bytes as the length field says, and
/// so no more than a length field can say.
pub proof fn lemma_frame_bounds(s: Stream, id: u32, out: Stream)
    requires
        s.wf(),
        s.block_start(id).1.ok(),
        out.data == s.data,
        out.block_end(s.block_start(id).0).ok(),
    ensures
        s.block_start(id).1.pos <= out.pos,
        out.pos - s.block_start(id).1.pos <= u32::MAX,
{
    reveal(Stream::block_start);
    reveal(Stream::block_end);
    reveal(Stream::word);
    reveal(Stream::peek);
}

/// How far a reader has come, measured in the widths of what it has read.
pub broadcast group group_widths {
    auto_skip_pos,
    auto_width_concat,
    auto_width_one,
    auto_width_nothing,
}

/// What a failed stream gives: nothing.
pub broadcast group group_sticks {
    auto_byte_sticks,
    auto_word_sticks,
    auto_peek_sticks,
    auto_string_sticks,
    auto_wstring_sticks,
    auto_block_start_sticks,
    auto_block_end_sticks,
}

/// What a writer leaves when it writes one run behind another.
pub broadcast group group_emit {
    auto_emit_concat,
    auto_emit_nothing,
}

/// What a stream holds and skips where a version leaves a field out.
pub broadcast group group_gaps {
    auto_skip_nothing,
    auto_holds_nothing,
}

/// What a stream that holds a value gives when the value is read.
pub broadcast group group_read_back {
    auto_skip_fault,
    auto_holds_concat,
    auto_skip_concat,
    auto_skip_wf,
    auto_byte_held,
    auto_word_held,
    auto_peek_held,
    auto_string_held,
    auto_wstring_held,
}

/// What a stream holds where a value was read.
pub broadcast group group_write_back {
    auto_skip_fault,
    auto_holds_concat,
    auto_skip_concat,
    auto_byte_read,
    auto_word_read,
    auto_peek_read,
    auto_string_read,
    auto_wstring_read,
    auto_block_start_read,
    auto_block_end_read,
}

} // verus!
