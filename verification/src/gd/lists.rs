//! The places a character has been to: riftgates, respawn points, map
//! markers and shrines, each a list of identifiers per difficulty.

use crate::gd::gd_file::{
    group_records_held, group_records_read, group_records_stick, item_tokens, items_canonical,
    lemma_items_read_back, lemma_items_stick, lemma_items_write_back, lemma_views_empty, list_fits,
    list_tokens, parse_items, parse_list, views, Block, Fault, FileError, GDFile, ReadWrite,
};
use crate::gd::wire::{
    framed, group_emit, group_read_back, group_sticks, group_write_back, lemma_block_end_position,
    lemma_frame_read_back, lemma_frame_write_back, lemma_frame_written, width, Stream, Token,
};
use vstd::prelude::*;

verus! {

/// The number of bytes of an identifier.
pub const UID_SIZE: usize = 16;

/// The identifier of a place or of a character: sixteen bytes.
#[derive(Debug, Clone, PartialEq, Eq)]
pub struct CharUID(pub [u8; 16]);

impl CharUID {
    /// The identifier whose bytes are all zero.
    pub open spec fn blank() -> Seq<u8> {
        Seq::new(UID_SIZE as nat, |i: int| 0u8)
    }
}

impl View for CharUID {
    type V = Seq<u8>;

    open spec fn view(&self) -> Seq<u8> {
        self.0@
    }
}

impl Default for CharUID {
    fn default() -> (r: CharUID)
        ensures
            r@ == CharUID::blank(),
    {
        let zeros: [u8; 16] = [0, 0, 0, 0, 0, 0, 0, 0, 0, 0, 0, 0, 0, 0, 0, 0];
        assert(zeros@ =~= CharUID::blank());
        CharUID(zeros)
    }
}

impl ReadWrite for CharUID {
    open spec fn parse(s: Stream) -> (Seq<u8>, Stream) {
        parse_items::<u8>(s, UID_SIZE as nat)
    }

    open spec fn tokens(v: Seq<u8>) -> Seq<Token> {
        item_tokens::<u8>(v)
    }

    open spec fn fits(v: Seq<u8>) -> bool {
        true
    }

    open spec fn canonical(v: Seq<u8>) -> bool {
        v.len() == UID_SIZE
    }

    fn read(&mut self, f: &mut GDFile) -> (r: Result<(), FileError>) {
        let bytes = f.read_arr::<u8>(UID_SIZE)?;
        let mut uid = [0u8; 16];
        let mut i: usize = 0;
        while i < UID_SIZE
            invariant
                i <= UID_SIZE,
                bytes@.len() == UID_SIZE,
                forall|j: int| 0 <= j < i ==> uid@[j] == bytes@[j],
            decreases UID_SIZE - i,
        {
            uid[i] = bytes[i];
            i = i + 1;
        }
        assert(uid@ =~= views(bytes@));
        *self = CharUID(uid);
        Ok(())
    }

    fn write(&self, f: &mut GDFile) -> (r: Result<(), FileError>) {
        assert(views(self.0@) =~= self.0@);
        f.write_arr(self.0.as_slice())
    }

    proof fn lemma_fault_sticks(s: Stream) {
        lemma_items_stick::<u8>(s, 0, UID_SIZE as nat);
    }

    proof fn lemma_read_back(s: Stream, v: Seq<u8>) {
        lemma_items_read_back::<u8>(s, v);
    }

    proof fn lemma_write_back(s: Stream) {
        lemma_items_write_back::<u8>(s, UID_SIZE as nat);
    }
}

/// The riftgates a character has opened, per difficulty.
#[derive(Debug, Clone, PartialEq, Eq)]
pub struct TeleportList {
    pub version: u32,
    pub uids: [Vec<CharUID>; 3],
}

/// The mathematical value of a record that holds nothing but lists of identifiers.
pub struct UidListsView {
    pub version: u32,
    pub uids: Seq<Seq<Seq<u8>>>,
}

impl TeleportList {
    /// The sequence id of the block.
    pub const BLOCK_SEQ: u32 = 6;

    /// The versions a reader accepts.
    pub open spec fn versions() -> Seq<u32> {
        seq![1u32]
    }

    /// The record whose every field is empty or zero.
    pub open spec fn blank() -> UidListsView {
        UidListsView {
            version: 0,
            uids: seq![Seq::empty(), Seq::empty(), Seq::empty()],
        }
    }

    /// What a reader makes of the fields of the record.
    #[verifier::opaque]
    pub open spec fn parse_body(s: Stream) -> (UidListsView, Stream) {
        let (version, s) = s.version(Self::versions());
        let (uids0, s) = parse_list::<CharUID>(s);
        let (uids1, s) = parse_list::<CharUID>(s);
        let (uids2, s) = parse_list::<CharUID>(s);
        (
            UidListsView {
                version,
                uids: seq![uids0, uids1, uids2],
            },
            s,
        )
    }

    /// The fields of the record, in file order.
    #[verifier::opaque]
    pub open spec fn body_tokens(v: UidListsView) -> Seq<Token> {
        seq![Token::Word(v.version)]
            + list_tokens::<CharUID>(v.uids[0])
            + list_tokens::<CharUID>(v.uids[1])
            + list_tokens::<CharUID>(v.uids[2])
    }

    /// The fields of the record can be written.
    pub open spec fn body_fits(v: UidListsView) -> bool {
        &&& list_fits::<CharUID>(v.uids[0])
        &&& list_fits::<CharUID>(v.uids[1])
        &&& list_fits::<CharUID>(v.uids[2])
    }

    /// A record whose version is not an accepted one fails with that version,
    /// whatever follows it.
    pub proof fn lemma_version_gate(s: Stream)
        requires
            s.block_start(Self::BLOCK_SEQ).1.ok(),
            s.block_start(Self::BLOCK_SEQ).1.word().1.ok(),
            !Self::versions().contains(s.block_start(Self::BLOCK_SEQ).1.word().0),
        ensures
            Self::parse(s).1.fault == Some(
                Fault::UnsupportedVersion(
                    s.block_start(Self::BLOCK_SEQ).1.word().0,
                    Self::versions(),
                ),
            ),
    {
        broadcast use group_sticks, group_records_stick;

        reveal(TeleportList::parse_body);
    }

    /// A block whose payload ends elsewhere than its length field announced
    /// fails with the offset reached and the offset announced.
    pub proof fn lemma_length_checked(s: Stream)
        requires
            Self::parse_body(s.block_start(Self::BLOCK_SEQ).1).1.ok(),
            Self::parse_body(s.block_start(Self::BLOCK_SEQ).1).1.pos != s.block_start(
                Self::BLOCK_SEQ,
            ).0,
        ensures
            Self::parse(s).1.fault == Some(
                Fault::IncorrectBlockEndPosition(
                    Self::parse_body(s.block_start(Self::BLOCK_SEQ).1).1.pos as u64,
                    s.block_start(Self::BLOCK_SEQ).0,
                ),
            ),
    {
        lemma_block_end_position(
            Self::parse_body(s.block_start(Self::BLOCK_SEQ).1).1,
            s.block_start(Self::BLOCK_SEQ).0,
        );
    }
}

impl View for TeleportList {
    type V = UidListsView;

    open spec fn view(&self) -> UidListsView {
        UidListsView {
            version: self.version,
            uids: seq![views(self.uids@[0]@), views(self.uids@[1]@), views(self.uids@[2]@)],
        }
    }
}

impl Default for TeleportList {
    fn default() -> (r: TeleportList)
        ensures
            r@ == TeleportList::blank(),
    {
        let r = TeleportList {
            version: 0,
            uids: [Vec::new(), Vec::new(), Vec::new()],
        };
        proof {
            lemma_views_empty(r.uids@[0]@);
            lemma_views_empty(r.uids@[1]@);
            lemma_views_empty(r.uids@[2]@);
        }
        r
    }
}

impl ReadWrite for TeleportList {
    open spec fn parse(s: Stream) -> (UidListsView, Stream) {
        let (end, s) = s.block_start(Self::BLOCK_SEQ);
        let (v, s) = Self::parse_body(s);
        (v, s.block_end(end))
    }

    open spec fn tokens(v: UidListsView) -> Seq<Token> {
        framed(Self::BLOCK_SEQ, Self::body_tokens(v))
    }

    open spec fn fits(v: UidListsView) -> bool {
        Self::body_fits(v) && width(Self::body_tokens(v)) <= u32::MAX
    }

    open spec fn canonical(v: UidListsView) -> bool {
        &&& Self::versions().contains(v.version)
        &&& v.uids.len() == 3
        &&& items_canonical::<CharUID>(v.uids[0])
        &&& items_canonical::<CharUID>(v.uids[1])
        &&& items_canonical::<CharUID>(v.uids[2])
    }

    fn read(&mut self, f: &mut GDFile) -> (r: Result<(), FileError>) {
        broadcast use group_sticks, group_records_stick;

        proof {
            reveal(TeleportList::parse_body);
        }
        let mut b = Block::default();
        f.read_block_start(&mut b, Self::BLOCK_SEQ)?;
        let accepted: [u32; 1] = [1];
        assert(accepted@ =~= Self::versions());
        let version = f.read_version(accepted.as_slice())?;
        let uids0 = f.read_vec::<CharUID>()?;
        let uids1 = f.read_vec::<CharUID>()?;
        let uids2 = f.read_vec::<CharUID>()?;
        f.read_block_end(&mut b)?;
        *self = TeleportList {
            version,
            uids: [uids0, uids1, uids2],
        };
        Ok(())
    }

    fn write(&self, f: &mut GDFile) -> (r: Result<(), FileError>) {
        broadcast use group_emit;

        proof {
            reveal(TeleportList::body_tokens);
        }
        let ghost start = f@;
        let mut b = Block::default();
        f.write_block_start(&mut b, Self::BLOCK_SEQ);
        f.write_int(self.version);
        f.write_vec(self.uids[0].as_slice())?;
        f.write_vec(self.uids[1].as_slice())?;
        f.write_vec(self.uids[2].as_slice())?;
        proof {
            lemma_frame_written(start, Self::BLOCK_SEQ, Self::body_tokens(self@));
        }
        f.write_block_end(&mut b)
    }

    proof fn lemma_fault_sticks(s: Stream) {
        broadcast use group_sticks, group_records_stick;

        reveal(TeleportList::parse_body);
    }

    proof fn lemma_read_back(s: Stream, v: UidListsView) {
        broadcast use group_read_back, group_records_held;

        reveal(TeleportList::parse_body);
        reveal(TeleportList::body_tokens);
        lemma_frame_read_back(s, Self::BLOCK_SEQ, Self::body_tokens(v));
        assert(v.uids =~= seq![v.uids[0], v.uids[1], v.uids[2]]);
    }

    proof fn lemma_write_back(s: Stream) {
        broadcast use group_sticks, group_records_stick, group_write_back, group_records_read;

        reveal(TeleportList::parse_body);
        reveal(TeleportList::body_tokens);
        let inner = s.block_start(Self::BLOCK_SEQ).1;
        lemma_frame_write_back(
            s,
            Self::BLOCK_SEQ,
            Self::body_tokens(Self::parse_body(inner).0),
        );
    }
}

/// The places a character may wake up at, per difficulty, and the one
/// chosen for each difficulty.
#[derive(Debug, Clone, PartialEq, Eq)]
pub struct RespawnList {
    pub version: u32,
    pub uids: [Vec<CharUID>; 3],
    pub spawns: [CharUID; 3],
}

/// The mathematical value of a [`RespawnList`].
pub struct RespawnListView {
    pub version: u32,
    pub uids: Seq<Seq<Seq<u8>>>,
    pub spawns: Seq<Seq<u8>>,
}

impl RespawnList {
    /// The sequence id of the block.
    pub const BLOCK_SEQ: u32 = 5;

    /// The versions a reader accepts.
    pub open spec fn versions() -> Seq<u32> {
        seq![1u32]
    }

    /// The record whose every field is empty or zero.
    pub open spec fn blank() -> RespawnListView {
        RespawnListView {
            version: 0,
            uids: seq![Seq::empty(), Seq::empty(), Seq::empty()],
            spawns: seq![CharUID::blank(), CharUID::blank(), CharUID::blank()],
        }
    }

    /// What a reader makes of the fields of the record.
    #[verifier::opaque]
    pub open spec fn parse_body(s: Stream) -> (RespawnListView, Stream) {
        let (version, s) = s.version(Self::versions());
        let (uids0, s) = parse_list::<CharUID>(s);
        let (uids1, s) = parse_list::<CharUID>(s);
        let (uids2, s) = parse_list::<CharUID>(s);
        let (spawns0, s) = CharUID::parse(s);
        let (spawns1, s) = CharUID::parse(s);
        let (spawns2, s) = CharUID::parse(s);
        (
            RespawnListView {
                version,
                uids: seq![uids0, uids1, uids2],
                spawns: seq![spawns0, spawns1, spawns2],
            },
            s,
        )
    }

    /// The fields of the record, in file order.
    #[verifier::opaque]
    pub open spec fn body_tokens(v: RespawnListView) -> Seq<Token> {
        seq![Token::Word(v.version)]
            + list_tokens::<CharUID>(v.uids[0])
            + list_tokens::<CharUID>(v.uids[1])
            + list_tokens::<CharUID>(v.uids[2])
            + CharUID::tokens(v.spawns[0])
            + CharUID::tokens(v.spawns[1])
            + CharUID::tokens(v.spawns[2])
    }

    /// The fields of the record can be written.
    pub open spec fn body_fits(v: RespawnListView) -> bool {
        &&& list_fits::<CharUID>(v.uids[0])
        &&& list_fits::<CharUID>(v.uids[1])
        &&& list_fits::<CharUID>(v.uids[2])
    }

    /// A record whose version is not an accepted one fails with that version,
    /// whatever follows it.
    pub proof fn lemma_version_gate(s: Stream)
        requires
            s.block_start(Self::BLOCK_SEQ).1.ok(),
            s.block_start(Self::BLOCK_SEQ).1.word().1.ok(),
            !Self::versions().contains(s.block_start(Self::BLOCK_SEQ).1.word().0),
        ensures
            Self::parse(s).1.fault == Some(
                Fault::UnsupportedVersion(
                    s.block_start(Self::BLOCK_SEQ).1.word().0,
                    Self::versions(),
                ),
            ),
    {
        broadcast use group_sticks, group_records_stick;

        reveal(RespawnList::parse_body);
    }

    /// A block whose payload ends elsewhere than its length field announced
    /// fails with the offset reached and the offset announced.
    pub proof fn lemma_length_checked(s: Stream)
        requires
            Self::parse_body(s.block_start(Self::BLOCK_SEQ).1).1.ok(),
            Self::parse_body(s.block_start(Self::BLOCK_SEQ).1).1.pos != s.block_start(
                Self::BLOCK_SEQ,
            ).0,
        ensures
            Self::parse(s).1.fault == Some(
                Fault::IncorrectBlockEndPosition(
                    Self::parse_body(s.block_start(Self::BLOCK_SEQ).1).1.pos as u64,
                    s.block_start(Self::BLOCK_SEQ).0,
                ),
            ),
    {
        lemma_block_end_position(
            Self::parse_body(s.block_start(Self::BLOCK_SEQ).1).1,
            s.block_start(Self::BLOCK_SEQ).0,
        );
    }
}

impl View for RespawnList {
    type V = RespawnListView;

    open spec fn view(&self) -> RespawnListView {
        RespawnListView {
            version: self.version,
            uids: seq![views(self.uids@[0]@), views(self.uids@[1]@), views(self.uids@[2]@)],
            spawns: seq![self.spawns@[0]@, self.spawns@[1]@, self.spawns@[2]@],
        }
    }
}

impl Default for RespawnList {
    fn default() -> (r: RespawnList)
        ensures
            r@ == RespawnList::blank(),
    {
        let r = RespawnList {
            version: 0,
            uids: [Vec::new(), Vec::new(), Vec::new()],
            spawns: [CharUID::default(), CharUID::default(), CharUID::default()],
        };
        proof {
            lemma_views_empty(r.uids@[0]@);
            lemma_views_empty(r.uids@[1]@);
            lemma_views_empty(r.uids@[2]@);
        }
        r
    }
}

impl ReadWrite for RespawnList {
    open spec fn parse(s: Stream) -> (RespawnListView, Stream) {
        let (end, s) = s.block_start(Self::BLOCK_SEQ);
        let (v, s) = Self::parse_body(s);
        (v, s.block_end(end))
    }

    open spec fn tokens(v: RespawnListView) -> Seq<Token> {
        framed(Self::BLOCK_SEQ, Self::body_tokens(v))
    }

    open spec fn fits(v: RespawnListView) -> bool {
        Self::body_fits(v) && width(Self::body_tokens(v)) <= u32::MAX
    }

    open spec fn canonical(v: RespawnListView) -> bool {
        &&& Self::versions().contains(v.version)
        &&& v.uids.len() == 3
        &&& items_canonical::<CharUID>(v.uids[0])
        &&& items_canonical::<CharUID>(v.uids[1])
        &&& items_canonical::<CharUID>(v.uids[2])
        &&& v.spawns.len() == 3
        &&& CharUID::canonical(v.spawns[0])
        &&& CharUID::canonical(v.spawns[1])
        &&& CharUID::canonical(v.spawns[2])
    }

    fn read(&mut self, f: &mut GDFile) -> (r: Result<(), FileError>) {
        broadcast use group_sticks, group_records_stick;

        proof {
            reveal(RespawnList::parse_body);
        }
        let mut b = Block::default();
        f.read_block_start(&mut b, Self::BLOCK_SEQ)?;
        let accepted: [u32; 1] = [1];
        assert(accepted@ =~= Self::versions());
        let version = f.read_version(accepted.as_slice())?;
        let uids0 = f.read_vec::<CharUID>()?;
        let uids1 = f.read_vec::<CharUID>()?;
        let uids2 = f.read_vec::<CharUID>()?;
        let mut spawns0 = CharUID::default();
        spawns0.read(f)?;
        let mut spawns1 = CharUID::default();
        spawns1.read(f)?;
        let mut spawns2 = CharUID::default();
        spawns2.read(f)?;
        f.read_block_end(&mut b)?;
        *self = RespawnList {
            version,
            uids: [uids0, uids1, uids2],
            spawns: [spawns0, spawns1, spawns2],
        };
        Ok(())
    }

    fn write(&self, f: &mut GDFile) -> (r: Result<(), FileError>) {
        broadcast use group_emit;

        proof {
            reveal(RespawnList::body_tokens);
        }
        let ghost start = f@;
        let mut b = Block::default();
        f.write_block_start(&mut b, Self::BLOCK_SEQ);
        f.write_int(self.version);
        f.write_vec(self.uids[0].as_slice())?;
        f.write_vec(self.uids[1].as_slice())?;
        f.write_vec(self.uids[2].as_slice())?;
        self.spawns[0].write(f)?;
        self.spawns[1].write(f)?;
        self.spawns[2].write(f)?;
        proof {
            lemma_frame_written(start, Self::BLOCK_SEQ, Self::body_tokens(self@));
        }
        f.write_block_end(&mut b)
    }

    proof fn lemma_fault_sticks(s: Stream) {
        broadcast use group_sticks, group_records_stick;

        reveal(RespawnList::parse_body);
    }

    proof fn lemma_read_back(s: Stream, v: RespawnListView) {
        broadcast use group_read_back, group_records_held;

        reveal(RespawnList::parse_body);
        reveal(RespawnList::body_tokens);
        lemma_frame_read_back(s, Self::BLOCK_SEQ, Self::body_tokens(v));
        assert(v.uids =~= seq![v.uids[0], v.uids[1], v.uids[2]]);
        assert(v.spawns =~= seq![v.spawns[0], v.spawns[1], v.spawns[2]]);
    }

    proof fn lemma_write_back(s: Stream) {
        broadcast use group_sticks, group_records_stick, group_write_back, group_records_read;

        reveal(RespawnList::parse_body);
        reveal(RespawnList::body_tokens);
        let inner = s.block_start(Self::BLOCK_SEQ).1;
        lemma_frame_write_back(
            s,
            Self::BLOCK_SEQ,
            Self::body_tokens(Self::parse_body(inner).0),
        );
    }
}

/// The map markers a character has uncovered, per difficulty.
#[derive(Debug, Clone, PartialEq, Eq)]
pub struct MarkerList {
    pub version: u32,
    pub uids: [Vec<CharUID>; 3],
}

impl MarkerList {
    /// The sequence id of the block.
    pub const BLOCK_SEQ: u32 = 7;

    /// The versions a reader accepts.
    pub open spec fn versions() -> Seq<u32> {
        seq![1u32]
    }

    /// The record whose every field is empty or zero.
    pub open spec fn blank() -> UidListsView {
        UidListsView {
            version: 0,
            uids: seq![Seq::empty(), Seq::empty(), Seq::empty()],
        }
    }

    /// What a reader makes of the fields of the record.
    #[verifier::opaque]
    pub open spec fn parse_body(s: Stream) -> (UidListsView, Stream) {
        let (version, s) = s.version(Self::versions());
        let (uids0, s) = parse_list::<CharUID>(s);
        let (uids1, s) = parse_list::<CharUID>(s);
        let (uids2, s) = parse_list::<CharUID>(s);
        (
            UidListsView {
                version,
                uids: seq![uids0, uids1, uids2],
            },
            s,
        )
    }

    /// The fields of the record, in file order.
    #[verifier::opaque]
    pub open spec fn body_tokens(v: UidListsView) -> Seq<Token> {
        seq![Token::Word(v.version)]
            + list_tokens::<CharUID>(v.uids[0])
            + list_tokens::<CharUID>(v.uids[1])
            + list_tokens::<CharUID>(v.uids[2])
    }

    /// The fields of the record can be written.
    pub open spec fn body_fits(v: UidListsView) -> bool {
        &&& list_fits::<CharUID>(v.uids[0])
        &&& list_fits::<CharUID>(v.uids[1])
        &&& list_fits::<CharUID>(v.uids[2])
    }

    /// A record whose version is not an accepted one fails with that version,
    /// whatever follows it.
    pub proof fn lemma_version_gate(s: Stream)
        requires
            s.block_start(Self::BLOCK_SEQ).1.ok(),
            s.block_start(Self::BLOCK_SEQ).1.word().1.ok(),
            !Self::versions().contains(s.block_start(Self::BLOCK_SEQ).1.word().0),
        ensures
            Self::parse(s).1.fault == Some(
                Fault::UnsupportedVersion(
                    s.block_start(Self::BLOCK_SEQ).1.word().0,
                    Self::versions(),
                ),
            ),
    {
        broadcast use group_sticks, group_records_stick;

        reveal(MarkerList::parse_body);
    }

    /// A block whose payload ends elsewhere than its length field announced
    /// fails with the offset reached and the offset announced.
    pub proof fn lemma_length_checked(s: Stream)
        requires
            Self::parse_body(s.block_start(Self::BLOCK_SEQ).1).1.ok(),
            Self::parse_body(s.block_start(Self::BLOCK_SEQ).1).1.pos != s.block_start(
                Self::BLOCK_SEQ,
            ).0,
        ensures
            Self::parse(s).1.fault == Some(
                Fault::IncorrectBlockEndPosition(
                    Self::parse_body(s.block_start(Self::BLOCK_SEQ).1).1.pos as u64,
                    s.block_start(Self::BLOCK_SEQ).0,
                ),
            ),
    {
        lemma_block_end_position(
            Self::parse_body(s.block_start(Self::BLOCK_SEQ).1).1,
            s.block_start(Self::BLOCK_SEQ).0,
        );
    }
}

impl View for MarkerList {
    type V = UidListsView;

    open spec fn view(&self) -> UidListsView {
        UidListsView {
            version: self.version,
            uids: seq![views(self.uids@[0]@), views(self.uids@[1]@), views(self.uids@[2]@)],
        }
    }
}

impl Default for MarkerList {
    fn default() -> (r: MarkerList)
        ensures
            r@ == MarkerList::blank(),
    {
        let r = MarkerList {
            version: 0,
            uids: [Vec::new(), Vec::new(), Vec::new()],
        };
        proof {
            lemma_views_empty(r.uids@[0]@);
            lemma_views_empty(r.uids@[1]@);
            lemma_views_empty(r.uids@[2]@);
        }
        r
    }
}

impl ReadWrite for MarkerList {
    open spec fn parse(s: Stream) -> (UidListsView, Stream) {
        let (end, s) = s.block_start(Self::BLOCK_SEQ);
        let (v, s) = Self::parse_body(s);
        (v, s.block_end(end))
    }

    open spec fn tokens(v: UidListsView) -> Seq<Token> {
        framed(Self::BLOCK_SEQ, Self::body_tokens(v))
    }

    open spec fn fits(v: UidListsView) -> bool {
        Self::body_fits(v) && width(Self::body_tokens(v)) <= u32::MAX
    }

    open spec fn canonical(v: UidListsView) -> bool {
        &&& Self::versions().contains(v.version)
        &&& v.uids.len() == 3
        &&& items_canonical::<CharUID>(v.uids[0])
        &&& items_canonical::<CharUID>(v.uids[1])
        &&& items_canonical::<CharUID>(v.uids[2])
    }

    fn read(&mut self, f: &mut GDFile) -> (r: Result<(), FileError>) {
        broadcast use group_sticks, group_records_stick;

        proof {
            reveal(MarkerList::parse_body);
        }
        let mut b = Block::default();
        f.read_block_start(&mut b, Self::BLOCK_SEQ)?;
        let accepted: [u32; 1] = [1];
        assert(accepted@ =~= Self::versions());
        let version = f.read_version(accepted.as_slice())?;
        let uids0 = f.read_vec::<CharUID>()?;
        let uids1 = f.read_vec::<CharUID>()?;
        let uids2 = f.read_vec::<CharUID>()?;
        f.read_block_end(&mut b)?;
        *self = MarkerList {
            version,
            uids: [uids0, uids1, uids2],
        };
        Ok(())
    }

    fn write(&self, f: &mut GDFile) -> (r: Result<(), FileError>) {
        broadcast use group_emit;

        proof {
            reveal(MarkerList::body_tokens);
        }
        let ghost start = f@;
        let mut b = Block::default();
        f.write_block_start(&mut b, Self::BLOCK_SEQ);
        f.write_int(self.version);
        f.write_vec(self.uids[0].as_slice())?;
        f.write_vec(self.uids[1].as_slice())?;
        f.write_vec(self.uids[2].as_slice())?;
        proof {
            lemma_frame_written(start, Self::BLOCK_SEQ, Self::body_tokens(self@));
        }
        f.write_block_end(&mut b)
    }

    proof fn lemma_fault_sticks(s: Stream) {
        broadcast use group_sticks, group_records_stick;

        reveal(MarkerList::parse_body);
    }

    proof fn lemma_read_back(s: Stream, v: UidListsView) {
        broadcast use group_read_back, group_records_held;

        reveal(MarkerList::parse_body);
        reveal(MarkerList::body_tokens);
        lemma_frame_read_back(s, Self::BLOCK_SEQ, Self::body_tokens(v));
        assert(v.uids =~= seq![v.uids[0], v.uids[1], v.uids[2]]);
    }

    proof fn lemma_write_back(s: Stream) {
        broadcast use group_sticks, group_records_stick, group_write_back, group_records_read;

        reveal(MarkerList::parse_body);
        reveal(MarkerList::body_tokens);
        let inner = s.block_start(Self::BLOCK_SEQ).1;
        lemma_frame_write_back(
            s,
            Self::BLOCK_SEQ,
            Self::body_tokens(Self::parse_body(inner).0),
        );
    }
}

/// The shrines a character has found and restored: two lists per
/// difficulty.
#[derive(Debug, Clone, PartialEq, Eq)]
pub struct ShrineList {
    pub version: u32,
    pub uids: [Vec<CharUID>; 6],
}

impl ShrineList {
    /// The sequence id of the block.
    pub const BLOCK_SEQ: u32 = 17;

    /// The versions a reader accepts.
    pub open spec fn versions() -> Seq<u32> {
        seq![2u32]
    }

    /// The record whose every field is empty or zero.
    pub open spec fn blank() -> UidListsView {
        UidListsView {
            version: 0,
            uids: seq![
                Seq::empty(),
                Seq::empty(),
                Seq::empty(),
                Seq::empty(),
                Seq::empty(),
                Seq::empty(),
            ],
        }
    }

    /// What a reader makes of the fields of the record.
    #[verifier::opaque]
    pub open spec fn parse_body(s: Stream) -> (UidListsView, Stream) {
        let (version, s) = s.version(Self::versions());
        let (uids0, s) = parse_list::<CharUID>(s);
        let (uids1, s) = parse_list::<CharUID>(s);
        let (uids2, s) = parse_list::<CharUID>(s);
        let (uids3, s) = parse_list::<CharUID>(s);
        let (uids4, s) = parse_list::<CharUID>(s);
        let (uids5, s) = parse_list::<CharUID>(s);
        (
            UidListsView {
                version,
                uids: seq![uids0, uids1, uids2, uids3, uids4, uids5],
            },
            s,
        )
    }

    /// The fields of the record, in file order.
    #[verifier::opaque]
    pub open spec fn body_tokens(v: UidListsView) -> Seq<Token> {
        seq![Token::Word(v.version)]
            + list_tokens::<CharUID>(v.uids[0])
            + list_tokens::<CharUID>(v.uids[1])
            + list_tokens::<CharUID>(v.uids[2])
            + list_tokens::<CharUID>(v.uids[3])
            + list_tokens::<CharUID>(v.uids[4])
            + list_tokens::<CharUID>(v.uids[5])
    }

    /// The fields of the record can be written.
    pub open spec fn body_fits(v: UidListsView) -> bool {
        &&& list_fits::<CharUID>(v.uids[0])
        &&& list_fits::<CharUID>(v.uids[1])
        &&& list_fits::<CharUID>(v.uids[2])
        &&& list_fits::<CharUID>(v.uids[3])
        &&& list_fits::<CharUID>(v.uids[4])
        &&& list_fits::<CharUID>(v.uids[5])
    }

    /// A record whose version is not an accepted one fails with that version,
    /// whatever follows it.
    pub proof fn lemma_version_gate(s: Stream)
        requires
            s.block_start(Self::BLOCK_SEQ).1.ok(),
            s.block_start(Self::BLOCK_SEQ).1.word().1.ok(),
            !Self::versions().contains(s.block_start(Self::BLOCK_SEQ).1.word().0),
        ensures
            Self::parse(s).1.fault == Some(
                Fault::UnsupportedVersion(
                    s.block_start(Self::BLOCK_SEQ).1.word().0,
                    Self::versions(),
                ),
            ),
    {
        broadcast use group_sticks, group_records_stick;

        reveal(ShrineList::parse_body);
    }

    /// A block whose payload ends elsewhere than its length field announced
    /// fails with the offset reached and the offset announced.
    pub proof fn lemma_length_checked(s: Stream)
        requires
            Self::parse_body(s.block_start(Self::BLOCK_SEQ).1).1.ok(),
            Self::parse_body(s.block_start(Self::BLOCK_SEQ).1).1.pos != s.block_start(
                Self::BLOCK_SEQ,
            ).0,
        ensures
            Self::parse(s).1.fault == Some(
                Fault::IncorrectBlockEndPosition(
                    Self::parse_body(s.block_start(Self::BLOCK_SEQ).1).1.pos as u64,
                    s.block_start(Self::BLOCK_SEQ).0,
                ),
            ),
    {
        lemma_block_end_position(
            Self::parse_body(s.block_start(Self::BLOCK_SEQ).1).1,
            s.block_start(Self::BLOCK_SEQ).0,
        );
    }
}

impl View for ShrineList {
    type V = UidListsView;

    open spec fn view(&self) -> UidListsView {
        UidListsView {
            version: self.version,
            uids: seq![
                views(self.uids@[0]@),
                views(self.uids@[1]@),
                views(self.uids@[2]@),
                views(self.uids@[3]@),
                views(self.uids@[4]@),
                views(self.uids@[5]@),
            ],
        }
    }
}

impl Default for ShrineList {
    fn default() -> (r: ShrineList)
        ensures
            r@ == ShrineList::blank(),
    {
        let r = ShrineList {
            version: 0,
            uids: [Vec::new(), Vec::new(), Vec::new(), Vec::new(), Vec::new(), Vec::new()],
        };
        proof {
            lemma_views_empty(r.uids@[0]@);
            lemma_views_empty(r.uids@[1]@);
            lemma_views_empty(r.uids@[2]@);
            lemma_views_empty(r.uids@[3]@);
            lemma_views_empty(r.uids@[4]@);
            lemma_views_empty(r.uids@[5]@);
        }
        r
    }
}

impl ReadWrite for ShrineList {
    open spec fn parse(s: Stream) -> (UidListsView, Stream) {
        let (end, s) = s.block_start(Self::BLOCK_SEQ);
        let (v, s) = Self::parse_body(s);
        (v, s.block_end(end))
    }

    open spec fn tokens(v: UidListsView) -> Seq<Token> {
        framed(Self::BLOCK_SEQ, Self::body_tokens(v))
    }

    open spec fn fits(v: UidListsView) -> bool {
        Self::body_fits(v) && width(Self::body_tokens(v)) <= u32::MAX
    }

    open spec fn canonical(v: UidListsView) -> bool {
        &&& Self::versions().contains(v.version)
        &&& v.uids.len() == 6
        &&& items_canonical::<CharUID>(v.uids[0])
        &&& items_canonical::<CharUID>(v.uids[1])
        &&& items_canonical::<CharUID>(v.uids[2])
        &&& items_canonical::<CharUID>(v.uids[3])
        &&& items_canonical::<CharUID>(v.uids[4])
        &&& items_canonical::<CharUID>(v.uids[5])
    }

    fn read(&mut self, f: &mut GDFile) -> (r: Result<(), FileError>) {
        broadcast use group_sticks, group_records_stick;

        proof {
            reveal(ShrineList::parse_body);
        }
        let mut b = Block::default();
        f.read_block_start(&mut b, Self::BLOCK_SEQ)?;
        let accepted: [u32; 1] = [2];
        assert(accepted@ =~= Self::versions());
        let version = f.read_version(accepted.as_slice())?;
        let uids0 = f.read_vec::<CharUID>()?;
        let uids1 = f.read_vec::<CharUID>()?;
        let uids2 = f.read_vec::<CharUID>()?;
        let uids3 = f.read_vec::<CharUID>()?;
        let uids4 = f.read_vec::<CharUID>()?;
        let uids5 = f.read_vec::<CharUID>()?;
        f.read_block_end(&mut b)?;
        *self = ShrineList {
            version,
            uids: [uids0, uids1, uids2, uids3, uids4, uids5],
        };
        Ok(())
    }

    fn write(&self, f: &mut GDFile) -> (r: Result<(), FileError>) {
        broadcast use group_emit;

        proof {
            reveal(ShrineList::body_tokens);
        }
        let ghost start = f@;
        let mut b = Block::default();
        f.write_block_start(&mut b, Self::BLOCK_SEQ);
        f.write_int(self.version);
        f.write_vec(self.uids[0].as_slice())?;
        f.write_vec(self.uids[1].as_slice())?;
        f.write_vec(self.uids[2].as_slice())?;
        f.write_vec(self.uids[3].as_slice())?;
        f.write_vec(self.uids[4].as_slice())?;
        f.write_vec(self.uids[5].as_slice())?;
        proof {
            lemma_frame_written(start, Self::BLOCK_SEQ, Self::body_tokens(self@));
        }
        f.write_block_end(&mut b)
    }

    proof fn lemma_fault_sticks(s: Stream) {
        broadcast use group_sticks, group_records_stick;

        reveal(ShrineList::parse_body);
    }

    proof fn lemma_read_back(s: Stream, v: UidListsView) {
        broadcast use group_read_back, group_records_held;

        reveal(ShrineList::parse_body);
        reveal(ShrineList::body_tokens);
        lemma_frame_read_back(s, Self::BLOCK_SEQ, Self::body_tokens(v));
        assert(v.uids =~= seq![v.uids[0], v.uids[1], v.uids[2], v.uids[3], v.uids[4], v.uids[5]]);
    }

    proof fn lemma_write_back(s: Stream) {
        broadcast use group_sticks, group_records_stick, group_write_back, group_records_read;

        reveal(ShrineList::parse_body);
        reveal(ShrineList::body_tokens);
        let inner = s.block_start(Self::BLOCK_SEQ).1;
        lemma_frame_write_back(
            s,
            Self::BLOCK_SEQ,
            Self::body_tokens(Self::parse_body(inner).0),
        );
    }
}

} // verus!
