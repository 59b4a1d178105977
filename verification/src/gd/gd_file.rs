//! The in-memory save file: primitive values, framed blocks and version
//! fields, read and written through the keystream.

use crate::gd::keystream::{
    absorb, absorb_byte, lemma_absorb_word_bytes, lemma_word_of_split, word_bytes, word_of,
    Keystream,
};
use crate::gd::wire::{
    char_high, char_low, key_after, lemma_byte, lemma_emit_concat, lemma_frame_written,
    lemma_holds_concat, lemma_holds_nothing, lemma_narrow_sticks, lemma_one, lemma_skip_wf,
    lemma_string_read_back, lemma_string_write_back, lemma_wide_sticks, lemma_word, narrow_bytes,
    string_fits, string_tokens, wide_bytes, wstring_fits, wstring_tokens, Stream, Token, MAGIC,
};
use vstd::prelude::*;
use vstd::slice::slice_to_vec;

verus! {

/// Why reading or writing a save file stopped.
#[derive(Debug, Clone, PartialEq, Eq)]
pub enum FileError {
    /// A record carries a version that its reader does not accept:
    /// the version found, then the versions accepted.
    UnsupportedVersion(u32, Vec<u32>),
    /// A block's payload ended at another offset than its length field
    /// announced: the offset reached, then the offset announced.
    IncorrectBlockEndPosition(u64, u64),
    /// The word that closes a block is not zero: the word found, then zero.
    FailedToValidateBlockEnding(u32, u32),
    /// A block carries another sequence id than the record expected at this
    /// place: the id found, then the id expected.
    FailedToValidateBlockOrder(u32, u32),
    /// Fewer bytes reached the destination than were handed over:
    /// the bytes written, then the bytes expected.
    FailedToValidateWriteAmount(usize, u32),
    /// The word behind the seed is not the format's magic number.
    InvalidMagicHeader,
    /// The file ended before the four bytes of the seed.
    KeyDerivationFailed,
    /// The file ended in the middle of a value.
    UnexpectedEof,
    /// The byte that codes the character's sex is not a known code.
    ParseSexError(u8),
    /// The byte that codes the expansion status is not a known code.
    ParseExpansionStatusError(u8),
    /// A code unit of a wide string is a surrogate and stands for no character.
    InvalidWideChar(u16),
    /// A value cannot be written: a count or a block length does not fit in
    /// 32 bits, or a character does not fit in its code unit.
    Unencodable,
}

/// The mathematical value of a [`FileError`].
pub enum Fault {
    UnsupportedVersion(u32, Seq<u32>),
    IncorrectBlockEndPosition(u64, u64),
    FailedToValidateBlockEnding(u32, u32),
    FailedToValidateBlockOrder(u32, u32),
    FailedToValidateWriteAmount(usize, u32),
    InvalidMagicHeader,
    KeyDerivationFailed,
    UnexpectedEof,
    ParseSexError(u8),
    ParseExpansionStatusError(u8),
    InvalidWideChar(u16),
    Unencodable,
}

impl View for FileError {
    type V = Fault;

    open spec fn view(&self) -> Fault {
        match *self {
            FileError::UnsupportedVersion(found, accepted) => Fault::UnsupportedVersion(
                found,
                accepted@,
            ),
            FileError::IncorrectBlockEndPosition(at, end) => Fault::IncorrectBlockEndPosition(
                at,
                end,
            ),
            FileError::FailedToValidateBlockEnding(found, zero) => {
                Fault::FailedToValidateBlockEnding(found, zero)
            },
            FileError::FailedToValidateBlockOrder(found, id) => Fault::FailedToValidateBlockOrder(
                found,
                id,
            ),
            FileError::FailedToValidateWriteAmount(written, expected) => {
                Fault::FailedToValidateWriteAmount(written, expected)
            },
            FileError::InvalidMagicHeader => Fault::InvalidMagicHeader,
            FileError::KeyDerivationFailed => Fault::KeyDerivationFailed,
            FileError::UnexpectedEof => Fault::UnexpectedEof,
            FileError::ParseSexError(code) => Fault::ParseSexError(code),
            FileError::ParseExpansionStatusError(code) => Fault::ParseExpansionStatusError(code),
            FileError::InvalidWideChar(unit) => Fault::InvalidWideChar(unit),
            FileError::Unencodable => Fault::Unencodable,
        }
    }
}

/// What a reader claims of a value it hands out: on success the value and
/// the stream are those of `want`; on failure the fault is that of `want`,
/// and the file stands where the failure was met.
pub open spec fn yields<T>(want: (T, Stream), r: Result<T, FileError>, now: Stream) -> bool {
    match r {
        Ok(v) => want == (v, now),
        Err(e) => want.1 == now.fail(e@),
    }
}

/// As [`yields`], for a value that stands for its view.
pub open spec fn yields_view<T: View>(
    want: (T::V, Stream),
    r: Result<T, FileError>,
    now: Stream,
) -> bool {
    match r {
        Ok(v) => want == (v@, now),
        Err(e) => want.1 == now.fail(e@),
    }
}

/// What a reader claims of a step that hands out nothing.
pub open spec fn passes(want: Stream, r: Result<(), FileError>, now: Stream) -> bool {
    match r {
        Ok(()) => want == now,
        Err(e) => want == now.fail(e@),
    }
}

/// One framed region of a file, between its opening and its closing.
#[derive(Debug, Clone, Copy, PartialEq, Eq)]
pub struct Block {
    /// The length of the payload in bytes, as the length field gives it.
    pub len: u32,
    /// The offset of the first byte behind the payload.
    pub end: u64,
    /// The running key under which the length field is masked.
    pub mask: u32,
}

impl Default for Block {
    fn default() -> (r: Block)
        ensures
            r == (Block { len: 0, end: 0, mask: 0 }),
    {
        Block { len: 0, end: 0, mask: 0 }
    }
}

/// A save file held in memory: its bytes, a cursor for reading, and the
/// keystream. Values are read at the cursor and written at the end.
#[derive(Debug, Clone, PartialEq, Eq)]
pub struct GDFile {
    data: Vec<u8>,
    pos: usize,
    keys: Keystream,
}

impl View for GDFile {
    type V = Stream;

    closed spec fn view(&self) -> Stream {
        Stream {
            data: self.data@,
            pos: self.pos as nat,
            key: self.keys.key,
            table: self.keys.table@,
            fault: None,
        }
    }
}

/// Checks that as many bytes reached their destination as were handed over.
pub fn check_write_amount(written: usize, expected: u32) -> (r: Result<(), FileError>)
    ensures
        r == if written == expected {
            Ok::<(), FileError>(())
        } else {
            Err::<(), FileError>(FileError::FailedToValidateWriteAmount(written, expected))
        },
{
    if written != expected as usize {
        return Err(FileError::FailedToValidateWriteAmount(written, expected));
    }
    Ok(())
}

/// Moves the records of `items` into the array `slots`, in order.
pub fn fill_array<T, const N: usize>(items: Vec<T>, slots: [T; N]) -> (r: [T; N])
    requires
        items@.len() == N,
    ensures
        r@ == items@,
{
    let mut rest = items;
    let mut r = slots;
    let mut i: usize = N;
    while i > 0
        invariant
            i <= N,
            items@.len() == N,
            rest@ == items@.take(i as int),
            forall|j: int| i <= j < N ==> r@[j] == items@[j],
        decreases i,
    {
        i = i - 1;
        match rest.pop() {
            Some(item) => {
                r[i] = item;
            },
            None => {},
        }
        assert(rest@ =~= items@.take(i as int));
    }
    assert(r@ =~= items@);
    r
}

/// Joins four bytes, least significant first, into a word.
pub fn join_word(b0: u8, b1: u8, b2: u8, b3: u8) -> (r: u32)
    ensures
        r == word_of(b0, b1, b2, b3),
{
    (b0 as u32) | ((b1 as u32) << 8) | ((b2 as u32) << 16) | ((b3 as u32) << 24)
}

/// Splits a word into its four bytes, least significant first.
pub fn split_word(v: u32) -> (r: [u8; 4])
    ensures
        r@ == word_bytes(v),
{
    let r = [
        (v & 0xff) as u8,
        ((v >> 8) & 0xff) as u8,
        ((v >> 16) & 0xff) as u8,
        ((v >> 24) & 0xff) as u8,
    ];
    assert(r@ =~= word_bytes(v));
    r
}

impl GDFile {
    /// The cursor lies inside the file, the table is complete, and nothing
    /// has failed.
    pub open spec fn wf(&self) -> bool {
        self@.wf() && self@.ok()
    }

    /// Opens the file whose bytes are `data`: the cursor stands at the
    /// start, and nothing is masked until a key is read or written.
    pub fn new(data: Vec<u8>) -> (r: GDFile)
        ensures
            r.wf(),
            r@ == Stream::start(data@),
    {
        let keys = Keystream::new();
        let r = GDFile { data, pos: 0, keys };
        assert(r.data@.len() == r.data.len());
        r
    }

    /// The bytes of the file.
    pub fn bytes(&self) -> (r: &Vec<u8>)
        ensures
            r@ == self@.data,
    {
        &self.data
    }

    /// Gives up the file for its bytes.
    pub fn into_bytes(self) -> (r: Vec<u8>)
        ensures
            r@ == self@.data,
    {
        self.data
    }

    /// The offset of the next byte to read.
    pub fn position(&self) -> (r: usize)
        ensures
            r == self@.pos,
    {
        self.pos
    }

    /// The running key.
    pub fn key(&self) -> (r: u32)
        ensures
            r == self@.key,
    {
        self.keys.key
    }

    /// Reads the seed at the cursor and derives key and table from it.
    pub fn read_key(&mut self) -> (r: Result<(), FileError>)
        requires
            old(self).wf(),
        ensures
            final(self).wf(),
            passes(old(self)@.keyed(), r, final(self)@),
    {
        if self.data.len() - self.pos < 4 {
            return Err(FileError::KeyDerivationFailed);
        }
        let seed = join_word(
            self.data[self.pos],
            self.data[self.pos + 1],
            self.data[self.pos + 2],
            self.data[self.pos + 3],
        );
        self.keys = Keystream::derive_key(seed);
        self.pos = self.pos + 4;
        Ok(())
    }

    /// Writes `seed` raw at the end of the file and derives key and table
    /// from it.
    pub fn write_key(&mut self, seed: u32)
        requires
            old(self).wf(),
        ensures
            final(self).wf(),
            final(self)@ == old(self)@.seeded(seed),
    {
        let raw = split_word(seed);
        self.push_raw(&raw);
        self.keys = Keystream::derive_key(seed);
    }

    /// Appends four raw bytes to the file.
    fn push_raw(&mut self, raw: &[u8; 4])
        requires
            old(self).wf(),
        ensures
            final(self).wf(),
            final(self)@ == (Stream { data: old(self)@.data + raw@, ..old(self)@ }),
    {
        self.data.push(raw[0]);
        self.data.push(raw[1]);
        self.data.push(raw[2]);
        self.data.push(raw[3]);
        assert(self.data@ =~= old(self).data@ + raw@);
        assert(self.data@.len() == self.data.len());
    }

    /// Goes back to the start of the file, derives the key from the seed
    /// and checks the magic number behind it.
    pub fn validate(&mut self) -> (r: Result<(), FileError>)
        requires
            old(self).wf(),
        ensures
            final(self).wf(),
            passes(old(self)@.validated(), r, final(self)@),
    {
        proof {
            reveal(Stream::word);
        }
        self.pos = 0;
        self.read_key()?;
        let magic = self.read_int()?;
        if magic != MAGIC {
            return Err(FileError::InvalidMagicHeader);
        }
        Ok(())
    }

    /// Reads one byte.
    pub fn read_byte(&mut self) -> (r: Result<u8, FileError>)
        requires
            old(self).wf(),
        ensures
            final(self).wf(),
            yields(old(self)@.byte(), r, final(self)@),
    {
        proof {
            reveal(Stream::byte);
        }
        if self.pos >= self.data.len() {
            return Err(FileError::UnexpectedEof);
        }
        let raw = self.data[self.pos];
        let ret = raw ^ self.keys.next();
        let buf = [raw];
        proof {
            let s = buf@;
            assert(s.drop_last().len() == 0);
            assert(absorb(self.keys.key, self.keys.table@, s) == absorb_byte(
                absorb(self.keys.key, self.keys.table@, s.drop_last()),
                self.keys.table@,
                s.last(),
            ));
        }
        self.keys.update_key(buf.as_slice());
        self.pos = self.pos + 1;
        Ok(ret)
    }

    /// Reads one 32-bit word, least significant byte first.
    pub fn read_int(&mut self) -> (r: Result<u32, FileError>)
        requires
            old(self).wf(),
        ensures
            final(self).wf(),
            yields(old(self)@.word(), r, final(self)@),
    {
        proof {
            reveal(Stream::word);
        }
        if self.data.len() - self.pos < 4 {
            return Err(FileError::UnexpectedEof);
        }
        let buf = [
            self.data[self.pos],
            self.data[self.pos + 1],
            self.data[self.pos + 2],
            self.data[self.pos + 3],
        ];
        let raw = join_word(buf[0], buf[1], buf[2], buf[3]);
        let ret = raw ^ self.keys.key;
        proof {
            lemma_word_of_split(buf[0], buf[1], buf[2], buf[3]);
            lemma_absorb_word_bytes(self.keys.key, self.keys.table@, raw);
            assert(buf@ =~= word_bytes(raw));
        }
        self.keys.update_key(buf.as_slice());
        self.pos = self.pos + 4;
        Ok(ret)
    }

    /// Reads one 32-bit word and leaves the key where it is.
    pub fn next_int(&mut self) -> (r: Result<u32, FileError>)
        requires
            old(self).wf(),
        ensures
            final(self).wf(),
            yields(old(self)@.peek(), r, final(self)@),
    {
        proof {
            reveal(Stream::peek);
        }
        if self.data.len() - self.pos < 4 {
            return Err(FileError::UnexpectedEof);
        }
        let raw = join_word(
            self.data[self.pos],
            self.data[self.pos + 1],
            self.data[self.pos + 2],
            self.data[self.pos + 3],
        );
        self.pos = self.pos + 4;
        Ok(raw ^ self.keys.key)
    }

    /// Reads a single-precision float and gives its IEEE-754 bit pattern.
    pub fn read_float(&mut self) -> (r: Result<u32, FileError>)
        requires
            old(self).wf(),
        ensures
            final(self).wf(),
            yields(old(self)@.word(), r, final(self)@),
    {
        self.read_int()
    }

    /// Writes one byte.
    pub fn write_byte(&mut self, v: u8)
        requires
            old(self).wf(),
        ensures
            final(self).wf(),
            final(self)@ == old(self)@.emit(seq![Token::Byte(v)]),
    {
        proof {
            reveal(Stream::emit);
        }
        let raw = v ^ self.keys.next();
        let buf = [raw];
        proof {
            let s = buf@;
            assert(s.drop_last().len() == 0);
            assert(absorb(self.keys.key, self.keys.table@, s) == absorb_byte(
                absorb(self.keys.key, self.keys.table@, s.drop_last()),
                self.keys.table@,
                s.last(),
            ));
            lemma_one(self.keys.key, self.keys.table@, Token::Byte(v));
        }
        self.data.push(raw);
        self.keys.update_key(buf.as_slice());
        assert(self.data@.len() == self.data.len());
        assert(self.data@ =~= old(self).data@ + seq![raw]);
    }

    /// Writes one 32-bit word, least significant byte first.
    pub fn write_int(&mut self, v: u32)
        requires
            old(self).wf(),
        ensures
            final(self).wf(),
            final(self)@ == old(self)@.emit(seq![Token::Word(v)]),
    {
        proof {
            reveal(Stream::emit);
        }
        let raw = v ^ self.keys.key;
        let buf = split_word(raw);
        proof {
            lemma_absorb_word_bytes(self.keys.key, self.keys.table@, raw);
            lemma_one(self.keys.key, self.keys.table@, Token::Word(v));
        }
        self.push_raw(&buf);
        self.keys.update_key(buf.as_slice());
    }

    /// Writes one 32-bit word and leaves the key where it is.
    pub fn write_mark(&mut self, v: u32)
        requires
            old(self).wf(),
        ensures
            final(self).wf(),
            final(self)@ == old(self)@.emit(seq![Token::Mark(v)]),
    {
        proof {
            reveal(Stream::emit);
        }
        let buf = split_word(v ^ self.keys.key);
        proof {
            lemma_one(self.keys.key, self.keys.table@, Token::Mark(v));
        }
        self.push_raw(&buf);
    }

    /// Writes a single-precision float, given as its IEEE-754 bit pattern.
    pub fn write_float(&mut self, v: u32)
        requires
            old(self).wf(),
        ensures
            final(self).wf(),
            final(self)@ == old(self)@.emit(seq![Token::Word(v)]),
    {
        self.write_int(v)
    }
}

/// What a writer claims of a run of tokens: it succeeds exactly when the
/// value fits the format, and then the tokens stand at the end of the file.
pub open spec fn wrote(
    before: Stream,
    ts: Seq<Token>,
    fits: bool,
    r: Result<(), FileError>,
    now: Stream,
) -> bool {
    match r {
        Ok(()) => fits && now == before.emit(ts),
        Err(e) => !fits && e == FileError::Unencodable,
    }
}

/// `String::push` of the standard library: the character is added behind
/// the last one, and nothing else changes.
#[verifier::external_body]
fn push_char(s: &mut String, c: char)
    ensures
        final(s)@ == old(s)@.push(c),
{
    s.push(c)
}

/// `char::from_u32` of the standard library: the character whose code point
/// is `v`, unless `v` is a surrogate or lies above the last code point.
#[verifier::external_body]
fn char_from_u32(v: u32) -> (r: Option<char>)
    ensures
        r == if v <= 0xD7FF || (0xE000 <= v && v <= 0x10FFFF) {
            Some(v as char)
        } else {
            None::<char>
        },
{
    char::from_u32(v)
}

impl GDFile {
    /// Reads a version field and checks it against the accepted versions.
    pub fn read_version(&mut self, accepted: &[u32]) -> (r: Result<u32, FileError>)
        requires
            old(self).wf(),
        ensures
            final(self).wf(),
            yields(old(self)@.version(accepted@), r, final(self)@),
    {
        let found = self.read_int()?;
        let mut known = false;
        let mut i: usize = 0;
        while i < accepted.len()
            invariant
                i <= accepted.len(),
                known <==> exists|j: int| 0 <= j < i && accepted@[j] == found,
            decreases accepted.len() - i,
        {
            if accepted[i] == found {
                known = true;
            }
            i = i + 1;
        }
        if !known {
            return Err(FileError::UnsupportedVersion(found, slice_to_vec(accepted)));
        }
        Ok(found)
    }

    /// Enters a block: reads its sequence id and its length field, and
    /// checks the id against `n`. The block takes the length and the end
    /// that the length field announces, also where the id is another one;
    /// where the file ends before them, the block is left as it was.
    pub fn read_block_start(&mut self, b: &mut Block, n: u32) -> (r: Result<(), FileError>)
        requires
            old(self).wf(),
        ensures
            final(self).wf(),
            final(b).mask == old(b).mask,
            match r {
                Ok(()) => {
                    &&& old(self)@.block_start(n) == (final(b).end, final(self)@)
                    &&& final(b).len == old(self)@.announced()
                },
                Err(e) => {
                    &&& old(self)@.block_start(n).1 == final(self)@.fail(e@)
                    &&& if e is FailedToValidateBlockOrder {
                        &&& final(b).len == old(self)@.announced()
                        &&& final(b).end == old(self)@.block_start(n).0
                    } else {
                        *final(b) == *old(b)
                    }
                },
            },
    {
        proof {
            reveal(Stream::word);
            reveal(Stream::peek);
            reveal(Stream::block_start);
        }
        let found = self.read_int()?;
        let len = self.next_int()?;
        b.len = len;
        b.end = (self.pos as u64).saturating_add(len as u64);
        if found != n {
            return Err(FileError::FailedToValidateBlockOrder(found, n));
        }
        Ok(())
    }

    /// Leaves a block: the cursor must stand where the block ends, and the
    /// word there must be zero.
    pub fn read_block_end(&mut self, b: &mut Block) -> (r: Result<(), FileError>)
        requires
            old(self).wf(),
        ensures
            final(self).wf(),
            *final(b) == *old(b),
            passes(old(self)@.block_end(old(b).end), r, final(self)@),
    {
        proof {
            reveal(Stream::block_end);
        }
        if b.end != self.pos as u64 {
            return Err(FileError::IncorrectBlockEndPosition(self.pos as u64, b.end));
        }
        let zero = self.next_int()?;
        if zero != 0 {
            return Err(FileError::FailedToValidateBlockEnding(zero, 0));
        }
        Ok(())
    }

    /// Opens a block: writes the sequence id and an empty length field.
    pub fn write_block_start(&mut self, b: &mut Block, n: u32)
        requires
            old(self).wf(),
        ensures
            final(self).wf(),
            final(self)@ == old(self)@.emit(seq![Token::Word(n), Token::Mark(0)]),
            final(b).end == final(self)@.data.len(),
            final(self)@.data.len() == old(self)@.data.len() + 8,
            final(b).mask == key_after(old(self)@.key, old(self)@.table, seq![Token::Word(n)]),
            final(b).len == 0,
    {
        proof {
            reveal(Stream::emit);
        }
        proof {
            lemma_emit_concat(self@, seq![Token::Word(n)], seq![Token::Mark(0)]);
            assert(seq![Token::Word(n)] + seq![Token::Mark(0)] =~= seq![
                Token::Word(n),
                Token::Mark(0),
            ]);
            lemma_frame_written(self@, n, Seq::empty());
        }
        self.write_int(n);
        b.mask = self.keys.key;
        self.write_mark(0);
        b.len = 0;
        b.end = self.data.len() as u64;
    }

    /// Closes a block opened by [`GDFile::write_block_start`]: fills in the
    /// length field and writes the closing zero.
    pub fn write_block_end(&mut self, b: &mut Block) -> (r: Result<(), FileError>)
        requires
            old(self).wf(),
            4 <= old(b).end <= old(self)@.data.len(),
        ensures
            final(self).wf(),
            final(b).end == old(b).end,
            final(b).mask == old(b).mask,
            match r {
                Ok(()) => {
                    &&& old(self)@.data.len() - old(b).end <= u32::MAX
                    &&& final(b).len == old(self)@.data.len() - old(b).end
                    &&& final(self)@ == old(self)@.closed(old(b).end as nat, old(b).mask)
                },
                Err(e) => old(self)@.data.len() - old(b).end > u32::MAX && e
                    == FileError::Unencodable,
            },
    {
        proof {
            reveal(Stream::emit);
        }
        let end = b.end as usize;
        let size = self.data.len() - end;
        if size > 0xffff_ffff {
            return Err(FileError::Unencodable);
        }
        let len = size as u32;
        let raw = split_word(len ^ b.mask);
        self.data.set(end - 4, raw[0]);
        self.data.set(end - 3, raw[1]);
        self.data.set(end - 2, raw[2]);
        self.data.set(end - 1, raw[3]);
        b.len = len;
        let ghost patched = self.data@;
        let ghost before = self@;
        self.write_mark(0);
        proof {
            lemma_one(before.key, before.table, Token::Mark(0));
            let want = old(self)@.closed(old(b).end as nat, old(b).mask);
            assert(patched =~= old(self).data@.subrange(0, end - 4) + raw@ + old(
                self,
            ).data@.subrange(end as int, old(self).data@.len() as int));
            assert(self@.data =~= want.data);
        }
        Ok(())
    }

    /// Reads a narrow string: a count, then that many single-byte characters.
    pub fn read_string(&mut self) -> (r: Result<String, FileError>)
        requires
            old(self).wf(),
        ensures
            final(self).wf(),
            yields_view(old(self)@.string(), r, final(self)@),
    {
        proof {
            reveal(Stream::word);
        }
        proof {
            reveal(Stream::string);
        }
        let n = self.read_int()?;
        let ghost from = self@;
        let mut s = String::new();
        let mut i: u32 = 0;
        while i < n
            invariant
                i <= n,
                self.wf(),
                old(self)@.word() == (n, from),
                from.narrow(i as nat) == (s@, self@),
            decreases n - i,
        {
            let ghost at = self@;
            match self.read_byte() {
                Ok(b) => {
                    push_char(&mut s, b as char);
                },
                Err(e) => {
                    proof {
                        reveal(Stream::string);
                        assert(from.narrow((i + 1) as nat).1 == at.byte().1);
                        lemma_narrow_sticks(from, (i + 1) as nat, n as nat);
                    }
                    return Err(e);
                },
            }
            i = i + 1;
        }
        Ok(s)
    }

    /// Reads a wide string: a count, then that many two-byte characters,
    /// each with its low byte first.
    pub fn read_wstring(&mut self) -> (r: Result<String, FileError>)
        requires
            old(self).wf(),
        ensures
            final(self).wf(),
            yields_view(old(self)@.wstring(), r, final(self)@),
    {
        proof {
            reveal(Stream::word);
        }
        proof {
            reveal(Stream::wstring);
        }
        let n = self.read_int()?;
        let ghost from = self@;
        let mut s = String::new();
        let mut i: u32 = 0;
        while i < n
            invariant
                i <= n,
                self.wf(),
                old(self)@.word() == (n, from),
                from.wide(i as nat) == (s@, self@),
            decreases n - i,
        {
            let ghost at = self@;
            match self.read_wide_char() {
                Ok(c) => {
                    push_char(&mut s, c);
                },
                Err(e) => {
                    proof {
                        reveal(Stream::wstring);
                        assert(from.wide((i + 1) as nat).1 == at.wide_char().1);
                        lemma_wide_sticks(from, (i + 1) as nat, n as nat);
                    }
                    return Err(e);
                },
            }
            i = i + 1;
        }
        Ok(s)
    }

    /// Reads one two-byte character, low byte first.
    pub fn read_wide_char(&mut self) -> (r: Result<char, FileError>)
        requires
            old(self).wf(),
        ensures
            final(self).wf(),
            yields(old(self)@.wide_char(), r, final(self)@),
    {
        proof {
            reveal(Stream::byte);
        }
        let lo = self.read_byte()?;
        let hi = self.read_byte()?;
        let unit: u16 = (lo as u16) | ((hi as u16) << 8);
        match char_from_u32(unit as u32) {
            Some(c) => Ok(c),
            None => Err(FileError::InvalidWideChar(unit)),
        }
    }

    /// Writes a narrow string: the number of characters, then one byte for
    /// each. Fails on a character that does not fit in one byte.
    pub fn write_string(&mut self, s: &str) -> (r: Result<(), FileError>)
        requires
            old(self).wf(),
        ensures
            final(self).wf(),
            wrote(old(self)@, string_tokens(s@), string_fits(s@), r, final(self)@),
    {
        proof {
            reveal(string_tokens);
        }
        let n = s.unicode_len();
        if n > 0xffff_ffff {
            return Err(FileError::Unencodable);
        }
        self.write_int(n as u32);
        let ghost head = seq![Token::Word(n as u32)];
        let mut i: usize = 0;
        while i < n
            invariant
                i <= n,
                n == s@.len(),
                self.wf(),
                self@ == old(self)@.emit(head + narrow_bytes(s@.take(i as int))),
                forall|j: int| 0 <= j < i ==> #[trigger] s@[j] as u32 <= 0xff,
            decreases n - i,
        {
            let code = s.get_char(i) as u32;
            if code > 0xff {
                return Err(FileError::Unencodable);
            }
            proof {
                let done = narrow_bytes(s@.take(i as int));
                let t = Token::Byte(char_low(s@[i as int]));
                assert(s@.take(i + 1).drop_last() =~= s@.take(i as int));
                assert(head + done.push(t) =~= (head + done) + seq![t]);
                lemma_emit_concat(old(self)@, head + done, seq![t]);
            }
            self.write_byte((code & 0xff) as u8);
            i = i + 1;
        }
        assert(s@.take(n as int) =~= s@);
        Ok(())
    }

    /// Writes a wide string: the number of characters, then two bytes for
    /// each, low byte first. Fails on a character that does not fit in 16 bits.
    pub fn write_wstring(&mut self, s: &str) -> (r: Result<(), FileError>)
        requires
            old(self).wf(),
        ensures
            final(self).wf(),
            wrote(old(self)@, wstring_tokens(s@), wstring_fits(s@), r, final(self)@),
    {
        proof {
            reveal(wstring_tokens);
        }
        let n = s.unicode_len();
        if n > 0xffff_ffff {
            return Err(FileError::Unencodable);
        }
        self.write_int(n as u32);
        let ghost head = seq![Token::Word(n as u32)];
        let mut i: usize = 0;
        while i < n
            invariant
                i <= n,
                n == s@.len(),
                self.wf(),
                self@ == old(self)@.emit(head + wide_bytes(s@.take(i as int))),
                forall|j: int| 0 <= j < i ==> #[trigger] s@[j] as u32 <= 0xffff,
            decreases n - i,
        {
            let code = s.get_char(i) as u32;
            if code > 0xffff {
                return Err(FileError::Unencodable);
            }
            proof {
                let done = wide_bytes(s@.take(i as int));
                let lo = Token::Byte(char_low(s@[i as int]));
                let hi = Token::Byte(char_high(s@[i as int]));
                assert(s@.take(i + 1).drop_last() =~= s@.take(i as int));
                assert(head + done.push(lo).push(hi) =~= ((head + done) + seq![lo]) + seq![hi]);
                lemma_emit_concat(old(self)@, head + done, seq![lo]);
                lemma_emit_concat(old(self)@, (head + done) + seq![lo], seq![hi]);
            }
            self.write_byte((code & 0xff) as u8);
            self.write_byte(((code >> 8) & 0xff) as u8);
            i = i + 1;
        }
        assert(s@.take(n as int) =~= s@);
        Ok(())
    }
}

/// A record of the save format: a value that can be read from a file and
/// written to one.
pub trait ReadWrite: View + Sized {
    /// What a reader makes of the bytes at the cursor: the record, and the
    /// stream behind it. A failure is recorded in the stream.
    spec fn parse(s: Stream) -> (Self::V, Stream);

    /// The plain values that make up the record, in file order.
    spec fn tokens(v: Self::V) -> Seq<Token>;

    /// The record can be written: its counts and block lengths fit in 32
    /// bits and its characters in their code units.
    spec fn fits(v: Self::V) -> bool;

    /// The record is one that reading yields: its version is an accepted
    /// one, the fields that its version leaves out are empty, and its
    /// counts agree with its lists.
    spec fn canonical(v: Self::V) -> bool;

    /// Reads the record at the cursor. On failure the record is left as it
    /// was, and the file stands where the failure was met.
    fn read(&mut self, f: &mut GDFile) -> (r: Result<(), FileError>)
        requires
            old(f).wf(),
        ensures
            final(f).wf(),
            match r {
                Ok(()) => Self::parse(old(f)@) == (final(self)@, final(f)@),
                Err(e) => Self::parse(old(f)@).1 == final(f)@.fail(e@) && *final(self)
                    == *old(self),
            },
    ;

    /// Writes the record at the end of the file.
    fn write(&self, f: &mut GDFile) -> (r: Result<(), FileError>)
        requires
            old(f).wf(),
        ensures
            final(f).wf(),
            wrote(old(f)@, Self::tokens(self@), Self::fits(self@), r, final(f)@),
    ;

    /// Nothing is read from a stream that has failed.
    proof fn lemma_fault_sticks(s: Stream)
        requires
            !s.ok(),
        ensures
            Self::parse(s).1 == s,
    ;

    /// Reading what was written gives the record back.
    proof fn lemma_read_back(s: Stream, v: Self::V)
        requires
            s.wf(),
            s.ok(),
            Self::canonical(v),
            Self::fits(v),
            s.holds(Self::tokens(v)),
        ensures
            Self::parse(s) == (v, s.skip(Self::tokens(v))),
    ;

    /// Writing what was read gives the bytes back.
    proof fn lemma_write_back(s: Stream)
        requires
            s.wf(),
            s.ok(),
            Self::parse(s).1.ok(),
        ensures
            Self::canonical(Self::parse(s).0),
            Self::fits(Self::parse(s).0),
            s.holds(Self::tokens(Self::parse(s).0)),
            Self::parse(s).1 == s.skip(Self::tokens(Self::parse(s).0)),
    ;
}

/// The mathematical values of a run of records.
pub open spec fn views<T: View>(items: Seq<T>) -> Seq<T::V> {
    items.map_values(|t: T| t@)
}

/// No records have no values.
pub proof fn lemma_views_empty<T: View>(items: Seq<T>)
    requires
        items.len() == 0,
    ensures
        views(items) == Seq::<T::V>::empty(),
{
    assert(views(items) =~= Seq::<T::V>::empty());
}

/// Reads `n` records in a row.
pub open spec fn parse_items<T: ReadWrite>(s: Stream, n: nat) -> (Seq<T::V>, Stream)
    decreases n,
{
    if n == 0 {
        (Seq::empty(), s)
    } else {
        let (items, s) = parse_items::<T>(s, (n - 1) as nat);
        let (item, s) = T::parse(s);
        (items.push(item), s)
    }
}

/// Reads a count, then that many records.
#[verifier::opaque]
pub open spec fn parse_list<T: ReadWrite>(s: Stream) -> (Seq<T::V>, Stream) {
    let (n, s) = s.word();
    parse_items::<T>(s, n as nat)
}

/// The tokens of a run of records.
pub open spec fn item_tokens<T: ReadWrite>(items: Seq<T::V>) -> Seq<Token>
    decreases items.len(),
{
    if items.len() == 0 {
        Seq::empty()
    } else {
        item_tokens::<T>(items.drop_last()) + T::tokens(items.last())
    }
}

/// The tokens of a counted list: the count, then the records.
#[verifier::opaque]
pub open spec fn list_tokens<T: ReadWrite>(items: Seq<T::V>) -> Seq<Token> {
    seq![Token::Word(items.len() as u32)] + item_tokens::<T>(items)
}

/// Every record of the run can be written.
pub open spec fn items_fit<T: ReadWrite>(items: Seq<T::V>) -> bool {
    forall|i: int| 0 <= i < items.len() ==> T::fits(#[trigger] items[i])
}

/// A counted list can be written when its count fits in 32 bits and each
/// of its records can be written.
pub open spec fn list_fits<T: ReadWrite>(items: Seq<T::V>) -> bool {
    items.len() <= u32::MAX && items_fit::<T>(items)
}

/// Every record of the run is one that reading yields.
pub open spec fn items_canonical<T: ReadWrite>(items: Seq<T::V>) -> bool {
    forall|i: int| 0 <= i < items.len() ==> T::canonical(#[trigger] items[i])
}

/// As [`yields`], for a run of records.
pub open spec fn yields_items<T: ReadWrite>(
    want: (Seq<T::V>, Stream),
    r: Result<Vec<T>, FileError>,
    now: Stream,
) -> bool {
    match r {
        Ok(items) => want == (views(items@), now),
        Err(e) => want.1 == now.fail(e@),
    }
}

/// What has failed after `i` records has failed after `n`.
pub proof fn lemma_items_stick<T: ReadWrite>(s: Stream, i: nat, n: nat)
    requires
        i <= n,
        !parse_items::<T>(s, i).1.ok(),
    ensures
        parse_items::<T>(s, n).1 == parse_items::<T>(s, i).1,
    decreases n,
{
    if i < n {
        lemma_items_stick::<T>(s, i, (n - 1) as nat);
        T::lemma_fault_sticks(parse_items::<T>(s, (n - 1) as nat).1);
    }
}

/// Reading back a run of records.
pub proof fn lemma_items_read_back<T: ReadWrite>(s: Stream, items: Seq<T::V>)
    requires
        s.wf(),
        s.ok(),
        items_canonical::<T>(items),
        items_fit::<T>(items),
        s.holds(item_tokens::<T>(items)),
    ensures
        parse_items::<T>(s, items.len()) == (items, s.skip(item_tokens::<T>(items))),
    decreases items.len(),
{
    reveal(Stream::skip);
    if items.len() == 0 {
        assert(s.skip(item_tokens::<T>(items)) == s);
        assert(items =~= Seq::<T::V>::empty());
    } else {
        let init = items.drop_last();
        lemma_holds_concat(s, item_tokens::<T>(init), T::tokens(items.last()));
        lemma_items_read_back::<T>(s, init);
        lemma_skip_wf(s, item_tokens::<T>(init));
        T::lemma_read_back(s.skip(item_tokens::<T>(init)), items.last());
        assert(init.push(items.last()) =~= items);
    }
}

/// A run of records that was read can be written, and writing it gives the
/// bytes it was read from.
pub proof fn lemma_items_write_back<T: ReadWrite>(s: Stream, n: nat)
    requires
        s.wf(),
        s.ok(),
        parse_items::<T>(s, n).1.ok(),
    ensures
        ({
            let (items, t) = parse_items::<T>(s, n);
            &&& items.len() == n
            &&& items_canonical::<T>(items)
            &&& items_fit::<T>(items)
            &&& s.holds(item_tokens::<T>(items))
            &&& t == s.skip(item_tokens::<T>(items))
            &&& t.wf()
        }),
    decreases n,
{
    reveal(Stream::word);
    if n == 0 {
        lemma_holds_nothing(s);
    } else {
        let (init, mid) = parse_items::<T>(s, (n - 1) as nat);
        if !mid.ok() {
            T::lemma_fault_sticks(mid);
        }
        lemma_items_write_back::<T>(s, (n - 1) as nat);
        T::lemma_write_back(mid);
        let (item, t) = T::parse(mid);
        let items = init.push(item);
        assert(items.drop_last() =~= init);
        lemma_holds_concat(s, item_tokens::<T>(init), T::tokens(item));
        lemma_skip_wf(mid, T::tokens(item));
    }
}

/// Reading back a counted list.
pub proof fn lemma_list_read_back<T: ReadWrite>(s: Stream, items: Seq<T::V>)
    requires
        s.wf(),
        s.ok(),
        items_canonical::<T>(items),
        list_fits::<T>(items),
        s.holds(list_tokens::<T>(items)),
    ensures
        parse_list::<T>(s) == (items, s.skip(list_tokens::<T>(items))),
{
    reveal(parse_list);
    reveal(list_tokens);
    let head = seq![Token::Word(items.len() as u32)];
    lemma_holds_concat(s, head, item_tokens::<T>(items));
    lemma_word(s, items.len() as u32);
    lemma_skip_wf(s, head);
    lemma_items_read_back::<T>(s.skip(head), items);
}

/// A counted list that was read can be written, and writing it gives the
/// bytes it was read from.
pub proof fn lemma_list_write_back<T: ReadWrite>(s: Stream)
    requires
        s.wf(),
        s.ok(),
        parse_list::<T>(s).1.ok(),
    ensures
        ({
            let (items, t) = parse_list::<T>(s);
            &&& items_canonical::<T>(items)
            &&& list_fits::<T>(items)
            &&& s.holds(list_tokens::<T>(items))
            &&& t == s.skip(list_tokens::<T>(items))
            &&& t.wf()
        }),
{
    reveal(Stream::word);
    reveal(parse_list);
    reveal(list_tokens);
    let (n, mid) = s.word();
    if !mid.ok() {
        lemma_items_stick::<T>(mid, 0, n as nat);
    }
    lemma_word(s, n);
    lemma_items_write_back::<T>(mid, n as nat);
    let (items, t) = parse_items::<T>(mid, n as nat);
    lemma_holds_concat(s, seq![Token::Word(n)], item_tokens::<T>(items));
}

/// Nothing is read of a list from a stream that has failed.
pub proof fn lemma_list_sticks<T: ReadWrite>(s: Stream)
    requires
        !s.ok(),
    ensures
        parse_list::<T>(s).1 == s,
{
    reveal(Stream::word);
    reveal(parse_list);
    lemma_items_stick::<T>(s, 0, s.word().0 as nat);
}

impl GDFile {
    /// Reads a count, then that many records.
    pub fn read_vec<T: ReadWrite + Default>(&mut self) -> (r: Result<Vec<T>, FileError>)
        requires
            old(self).wf(),
        ensures
            final(self).wf(),
            yields_items(parse_list::<T>(old(self)@), r, final(self)@),
    {
        proof {
            reveal(Stream::word);
        }
        proof {
            reveal(parse_list);
        }
        let n = self.read_int()?;
        self.read_arr(n as usize)
    }

    /// Reads `n` records in a row.
    pub fn read_arr<T: ReadWrite + Default>(&mut self, n: usize) -> (r: Result<
        Vec<T>,
        FileError,
    >)
        requires
            old(self).wf(),
        ensures
            final(self).wf(),
            yields_items(parse_items::<T>(old(self)@, n as nat), r, final(self)@),
            r matches Ok(items) ==> items@.len() == n,
    {
        let mut items: Vec<T> = Vec::new();
        let mut i: usize = 0;
        while i < n
            invariant
                i <= n,
                self.wf(),
                items@.len() == i,
                parse_items::<T>(old(self)@, i as nat) == (views(items@), self@),
            decreases n - i,
        {
            let ghost at = self@;
            let mut item = T::default();
            match item.read(self) {
                Ok(()) => {},
                Err(e) => {
                    proof {
                        assert(parse_items::<T>(old(self)@, (i + 1) as nat).1 == T::parse(at).1);
                        lemma_items_stick::<T>(old(self)@, (i + 1) as nat, n as nat);
                    }
                    return Err(e);
                },
            }
            proof {
                assert(views(items@).push(item@) =~= views(items@.push(item)));
            }
            items.push(item);
            i = i + 1;
        }
        Ok(items)
    }

    /// Writes the number of records, then the records.
    pub fn write_vec<T: ReadWrite + Default>(&mut self, items: &[T]) -> (r: Result<
        (),
        FileError,
    >)
        requires
            old(self).wf(),
        ensures
            final(self).wf(),
            wrote(
                old(self)@,
                list_tokens::<T>(views(items@)),
                list_fits::<T>(views(items@)),
                r,
                final(self)@,
            ),
    {
        proof {
            reveal(list_tokens);
        }
        if items.len() > 0xffff_ffff {
            return Err(FileError::Unencodable);
        }
        let ghost head = seq![Token::Word(items.len() as u32)];
        self.write_int(items.len() as u32);
        proof {
            lemma_emit_concat(old(self)@, head, item_tokens::<T>(views(items@)));
        }
        self.write_arr(items)
    }

    /// Writes the records one behind the other.
    pub fn write_arr<T: ReadWrite + Default>(&mut self, items: &[T]) -> (r: Result<
        (),
        FileError,
    >)
        requires
            old(self).wf(),
        ensures
            final(self).wf(),
            wrote(
                old(self)@,
                item_tokens::<T>(views(items@)),
                items_fit::<T>(views(items@)),
                r,
                final(self)@,
            ),
    {
        let ghost all = views(items@);
        let mut i: usize = 0;
        proof {
            lemma_holds_nothing(self@);
        }
        while i < items.len()
            invariant
                i <= items.len(),
                self.wf(),
                all == views(items@),
                self@ == old(self)@.emit(item_tokens::<T>(all.take(i as int))),
                items_fit::<T>(all.take(i as int)),
            decreases items.len() - i,
        {
            let ghost done = item_tokens::<T>(all.take(i as int));
            proof {
                assert(all.take(i + 1).drop_last() =~= all.take(i as int));
                assert(all.take(i + 1).last() == items@[i as int]@);
                lemma_emit_concat(old(self)@, done, T::tokens(items@[i as int]@));
            }
            match items[i].write(self) {
                Ok(()) => {},
                Err(e) => {
                    assert(!T::fits(all[i as int]));
                    return Err(e);
                },
            }
            proof {
                assert forall|j: int| 0 <= j < i + 1 implies T::fits(
                    #[trigger] all.take(i + 1)[j],
                ) by {
                    if j < i {
                        assert(all.take(i as int)[j] == all.take(i + 1)[j]);
                    }
                }
            }
            i = i + 1;
        }
        assert(all.take(i as int) =~= all);
        Ok(())
    }
}

/// Ambient form of [`ReadWrite::lemma_fault_sticks`].
pub broadcast proof fn auto_record_sticks<T: ReadWrite>(s: Stream)
    requires
        !s.ok(),
    ensures
        (#[trigger] T::parse(s)).1 == s,
{
    T::lemma_fault_sticks(s);
}

/// Ambient form of [`ReadWrite::lemma_read_back`].
pub broadcast proof fn auto_record_held<T: ReadWrite>(s: Stream, v: T::V)
    requires
        s.wf(),
        s.ok(),
        T::canonical(v),
        T::fits(v),
        #[trigger] s.holds(T::tokens(v)),
    ensures
        T::parse(s) == (v, s.skip(T::tokens(v))),
{
    T::lemma_read_back(s, v);
}

/// Ambient form of [`ReadWrite::lemma_write_back`].
pub broadcast proof fn auto_record_read<T: ReadWrite>(s: Stream)
    requires
        s.wf(),
        (#[trigger] T::parse(s)).1.ok(),
    ensures
        s.ok(),
        T::canonical(T::parse(s).0),
        T::fits(T::parse(s).0),
        s.holds(T::tokens(T::parse(s).0)),
        T::parse(s).1 == s.skip(T::tokens(T::parse(s).0)),
        T::parse(s).1.wf(),
{
    if !s.ok() {
        T::lemma_fault_sticks(s);
    }
    T::lemma_write_back(s);
    lemma_skip_wf(s, T::tokens(T::parse(s).0));
}

/// Ambient form of [`lemma_list_sticks`].
pub broadcast proof fn auto_list_sticks<T: ReadWrite>(s: Stream)
    requires
        !s.ok(),
    ensures
        (#[trigger] parse_list::<T>(s)).1 == s,
{
    lemma_list_sticks::<T>(s);
}

/// Ambient form of [`lemma_list_read_back`].
pub broadcast proof fn auto_list_held<T: ReadWrite>(s: Stream, items: Seq<T::V>)
    requires
        s.wf(),
        s.ok(),
        items_canonical::<T>(items),
        list_fits::<T>(items),
        #[trigger] s.holds(list_tokens::<T>(items)),
    ensures
        parse_list::<T>(s) == (items, s.skip(list_tokens::<T>(items))),
{
    lemma_list_read_back::<T>(s, items);
}

/// Ambient form of [`lemma_list_write_back`].
pub broadcast proof fn auto_list_read<T: ReadWrite>(s: Stream)
    requires
        s.wf(),
        (#[trigger] parse_list::<T>(s)).1.ok(),
    ensures
        s.ok(),
        items_canonical::<T>(parse_list::<T>(s).0),
        list_fits::<T>(parse_list::<T>(s).0),
        s.holds(list_tokens::<T>(parse_list::<T>(s).0)),
        parse_list::<T>(s).1 == s.skip(list_tokens::<T>(parse_list::<T>(s).0)),
        parse_list::<T>(s).1.wf(),
{
    if !s.ok() {
        lemma_list_sticks::<T>(s);
    }
    lemma_list_write_back::<T>(s);
}

/// Ambient form of [`lemma_items_stick`].
pub broadcast proof fn auto_items_stick<T: ReadWrite>(s: Stream, n: nat)
    requires
        !s.ok(),
    ensures
        (#[trigger] parse_items::<T>(s, n)).1 == s,
{
    lemma_items_stick::<T>(s, 0, n);
}

/// Ambient form of [`lemma_items_read_back`].
pub broadcast proof fn auto_items_held<T: ReadWrite>(s: Stream, items: Seq<T::V>)
    requires
        s.wf(),
        s.ok(),
        items_canonical::<T>(items),
        items_fit::<T>(items),
        #[trigger] s.holds(item_tokens::<T>(items)),
    ensures
        parse_items::<T>(s, items.len()) == (items, s.skip(item_tokens::<T>(items))),
{
    lemma_items_read_back::<T>(s, items);
}

/// Ambient form of [`lemma_items_write_back`].
pub broadcast proof fn auto_items_read<T: ReadWrite>(s: Stream, n: nat)
    requires
        s.wf(),
        (#[trigger] parse_items::<T>(s, n)).1.ok(),
    ensures
        s.ok(),
        parse_items::<T>(s, n).0.len() == n,
        items_canonical::<T>(parse_items::<T>(s, n).0),
        items_fit::<T>(parse_items::<T>(s, n).0),
        s.holds(item_tokens::<T>(parse_items::<T>(s, n).0)),
        parse_items::<T>(s, n).1 == s.skip(item_tokens::<T>(parse_items::<T>(s, n).0)),
        parse_items::<T>(s, n).1.wf(),
{
    if !s.ok() {
        lemma_items_stick::<T>(s, 0, n);
    }
    lemma_items_write_back::<T>(s, n);
}

/// What a failed stream gives of records and lists: nothing.
pub broadcast group group_records_stick {
    auto_record_sticks,
    auto_list_sticks,
    auto_items_stick,
}

/// What a stream that holds records and lists gives when they are read.
pub broadcast group group_records_held {
    auto_record_held,
    auto_list_held,
    auto_items_held,
}

/// What a stream holds where records and lists were read.
pub broadcast group group_records_read {
    auto_record_read,
    auto_list_read,
    auto_items_read,
}

impl ReadWrite for u8 {
    open spec fn parse(s: Stream) -> (u8, Stream) {
        s.byte()
    }

    open spec fn tokens(v: u8) -> Seq<Token> {
        seq![Token::Byte(v)]
    }

    open spec fn fits(v: u8) -> bool {
        true
    }

    open spec fn canonical(v: u8) -> bool {
        true
    }

    fn read(&mut self, f: &mut GDFile) -> (r: Result<(), FileError>) {
        let v = f.read_byte()?;
        *self = v;
        Ok(())
    }

    fn write(&self, f: &mut GDFile) -> (r: Result<(), FileError>) {
        f.write_byte(*self);
        Ok(())
    }

    proof fn lemma_fault_sticks(s: Stream) {
        reveal(Stream::byte);
    }

    proof fn lemma_read_back(s: Stream, v: u8) {
        lemma_byte(s, v);
    }

    proof fn lemma_write_back(s: Stream) {
        lemma_byte(s, s.byte().0);
    }
}

impl ReadWrite for u32 {
    open spec fn parse(s: Stream) -> (u32, Stream) {
        s.word()
    }

    open spec fn tokens(v: u32) -> Seq<Token> {
        seq![Token::Word(v)]
    }

    open spec fn fits(v: u32) -> bool {
        true
    }

    open spec fn canonical(v: u32) -> bool {
        true
    }

    fn read(&mut self, f: &mut GDFile) -> (r: Result<(), FileError>) {
        let v = f.read_int()?;
        *self = v;
        Ok(())
    }

    fn write(&self, f: &mut GDFile) -> (r: Result<(), FileError>) {
        f.write_int(*self);
        Ok(())
    }

    proof fn lemma_fault_sticks(s: Stream) {
        reveal(Stream::word);
    }

    proof fn lemma_read_back(s: Stream, v: u32) {
        lemma_word(s, v);
    }

    proof fn lemma_write_back(s: Stream) {
        lemma_word(s, s.word().0);
    }
}

impl ReadWrite for String {
    open spec fn parse(s: Stream) -> (Seq<char>, Stream) {
        s.string()
    }

    open spec fn tokens(v: Seq<char>) -> Seq<Token> {
        string_tokens(v)
    }

    open spec fn fits(v: Seq<char>) -> bool {
        string_fits(v)
    }

    open spec fn canonical(v: Seq<char>) -> bool {
        true
    }

    fn read(&mut self, f: &mut GDFile) -> (r: Result<(), FileError>) {
        let v = f.read_string()?;
        *self = v;
        Ok(())
    }

    fn write(&self, f: &mut GDFile) -> (r: Result<(), FileError>) {
        f.write_string(self.as_str())
    }

    proof fn lemma_fault_sticks(s: Stream) {
        reveal(Stream::word);
        reveal(Stream::string);
        lemma_narrow_sticks(s, 0, s.word().0 as nat);
    }

    proof fn lemma_read_back(s: Stream, v: Seq<char>) {
        lemma_string_read_back(s, v);
    }

    proof fn lemma_write_back(s: Stream) {
        lemma_string_write_back(s);
    }
}

} // verus!
