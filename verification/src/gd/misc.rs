//! The smaller blocks of a save file: Crucible tokens, tutorial pages, the
//! quick bars, faction standings and lore notes.

use crate::gd::gd_file::{
    fill_array, group_records_held, group_records_read, group_records_stick, item_tokens,
    items_canonical, items_fit, lemma_views_empty, list_fits, list_tokens, parse_items, parse_list,
    views, wrote, Block, Fault, FileError, GDFile, ReadWrite,
};
use crate::gd::wire::{
    framed, group_emit, group_gaps, group_read_back, group_sticks, group_write_back,
    lemma_block_end_position, lemma_frame_read_back, lemma_frame_write_back, lemma_frame_written,
    lemma_holds_concat, lemma_holds_nothing, lemma_skip_wf, string_fits, string_tokens, width,
    wstring_fits, wstring_tokens, Stream, Token,
};
use vstd::prelude::*;

verus! {

/// The tokens a character has earned in the Crucible, per difficulty.
#[derive(Debug, Clone, PartialEq, Eq)]
pub struct Crucible {
    pub version: u32,
    pub tokens_per_difficulty: [Vec<String>; 3],
}

/// The mathematical value of a [`Crucible`].
pub struct CrucibleView {
    pub version: u32,
    pub tokens_per_difficulty: Seq<Seq<Seq<char>>>,
}

impl Crucible {
    /// The sequence id of the block.
    pub const BLOCK_SEQ: u32 = 10;

    /// The versions a reader accepts.
    pub open spec fn versions() -> Seq<u32> {
        seq![2u32]
    }

    /// The record whose every field is empty or zero.
    pub open spec fn blank() -> CrucibleView {
        CrucibleView {
            version: 0,
            tokens_per_difficulty: seq![Seq::empty(), Seq::empty(), Seq::empty()],
        }
    }

    /// What a reader makes of the fields of the record.
    #[verifier::opaque]
    pub open spec fn parse_body(s: Stream) -> (CrucibleView, Stream) {
        let (version, s) = s.version(Self::versions());
        let (tokens_per_difficulty0, s) = parse_list::<String>(s);
        let (tokens_per_difficulty1, s) = parse_list::<String>(s);
        let (tokens_per_difficulty2, s) = parse_list::<String>(s);
        (
            CrucibleView {
                version,
                tokens_per_difficulty: seq![
                    tokens_per_difficulty0,
                    tokens_per_difficulty1,
                    tokens_per_difficulty2,
                ],
            },
            s,
        )
    }

    /// The fields of the record, in file order.
    #[verifier::opaque]
    pub open spec fn body_tokens(v: CrucibleView) -> Seq<Token> {
        seq![Token::Word(v.version)]
            + list_tokens::<String>(v.tokens_per_difficulty[0])
            + list_tokens::<String>(v.tokens_per_difficulty[1])
            + list_tokens::<String>(v.tokens_per_difficulty[2])
    }

    /// The fields of the record can be written.
    pub open spec fn body_fits(v: CrucibleView) -> bool {
        &&& list_fits::<String>(v.tokens_per_difficulty[0])
        &&& list_fits::<String>(v.tokens_per_difficulty[1])
        &&& list_fits::<String>(v.tokens_per_difficulty[2])
    }

    /// A record whose version is not an accepted one fails with that version,
    /// whatever follows it.
    pub proof fn lemma_version_gate(s: Stream)
        requires
            s.block_start(Self::BLOCK_SEQ).1.ok(),
            s.block_start(Self::BLOCK_SEQ).1.word().1.ok(),
            !Self::versions().contains(s.block_start(Self::BLOCK_SEQ).1.word().0),
        ensures
            Self::parse(s).1.fault == Some(
                Fault::UnsupportedVersion(
                    s.block_start(Self::BLOCK_SEQ).1.word().0,
                    Self::versions(),
                ),
            ),
    {
        broadcast use group_sticks, group_records_stick;

        reveal(Crucible::parse_body);
    }

    /// A block whose payload ends elsewhere than its length field announced
    /// fails with the offset reached and the offset announced.
    pub proof fn lemma_length_checked(s: Stream)
        requires
            Self::parse_body(s.block_start(Self::BLOCK_SEQ).1).1.ok(),
            Self::parse_body(s.block_start(Self::BLOCK_SEQ).1).1.pos != s.block_start(
                Self::BLOCK_SEQ,
            ).0,
        ensures
            Self::parse(s).1.fault == Some(
                Fault::IncorrectBlockEndPosition(
                    Self::parse_body(s.block_start(Self::BLOCK_SEQ).1).1.pos as u64,
                    s.block_start(Self::BLOCK_SEQ).0,
                ),
            ),
    {
        lemma_block_end_position(
            Self::parse_body(s.block_start(Self::BLOCK_SEQ).1).1,
            s.block_start(Self::BLOCK_SEQ).0,
        );
    }
}

impl View for Crucible {
    type V = CrucibleView;

    open spec fn view(&self) -> CrucibleView {
        CrucibleView {
            version: self.version,
            tokens_per_difficulty: seq![
                views(self.tokens_per_difficulty@[0]@),
                views(self.tokens_per_difficulty@[1]@),
                views(self.tokens_per_difficulty@[2]@),
            ],
        }
    }
}

impl Default for Crucible {
    fn default() -> (r: Crucible)
        ensures
            r@ == Crucible::blank(),
    {
        let r = Crucible {
            version: 0,
            tokens_per_difficulty: [Vec::new(), Vec::new(), Vec::new()],
        };
        proof {
            lemma_views_empty(r.tokens_per_difficulty@[0]@);
            lemma_views_empty(r.tokens_per_difficulty@[1]@);
            lemma_views_empty(r.tokens_per_difficulty@[2]@);
        }
        r
    }
}

impl ReadWrite for Crucible {
    open spec fn parse(s: Stream) -> (CrucibleView, Stream) {
        let (end, s) = s.block_start(Self::BLOCK_SEQ);
        let (v, s) = Self::parse_body(s);
        (v, s.block_end(end))
    }

    open spec fn tokens(v: CrucibleView) -> Seq<Token> {
        framed(Self::BLOCK_SEQ, Self::body_tokens(v))
    }

    open spec fn fits(v: CrucibleView) -> bool {
        Self::body_fits(v) && width(Self::body_tokens(v)) <= u32::MAX
    }

    open spec fn canonical(v: CrucibleView) -> bool {
        &&& Self::versions().contains(v.version)
        &&& v.tokens_per_difficulty.len() == 3
        &&& items_canonical::<String>(v.tokens_per_difficulty[0])
        &&& items_canonical::<String>(v.tokens_per_difficulty[1])
        &&& items_canonical::<String>(v.tokens_per_difficulty[2])
    }

    fn read(&mut self, f: &mut GDFile) -> (r: Result<(), FileError>) {
        broadcast use group_sticks, group_records_stick;

        proof {
            reveal(Crucible::parse_body);
        }
        let mut b = Block::default();
        f.read_block_start(&mut b, Self::BLOCK_SEQ)?;
        let accepted: [u32; 1] = [2];
        assert(accepted@ =~= Self::versions());
        let version = f.read_version(accepted.as_slice())?;
        let tokens_per_difficulty0 = f.read_vec::<String>()?;
        let tokens_per_difficulty1 = f.read_vec::<String>()?;
        let tokens_per_difficulty2 = f.read_vec::<String>()?;
        f.read_block_end(&mut b)?;
        *self = Crucible {
            version,
            tokens_per_difficulty: [
                tokens_per_difficulty0,
                tokens_per_difficulty1,
                tokens_per_difficulty2,
            ],
        };
        Ok(())
    }

    fn write(&self, f: &mut GDFile) -> (r: Result<(), FileError>) {
        broadcast use group_emit;

        proof {
            reveal(Crucible::body_tokens);
        }
        let ghost start = f@;
        let mut b = Block::default();
        f.write_block_start(&mut b, Self::BLOCK_SEQ);
        f.write_int(self.version);
        f.write_vec(self.tokens_per_difficulty[0].as_slice())?;
        f.write_vec(self.tokens_per_difficulty[1].as_slice())?;
        f.write_vec(self.tokens_per_difficulty[2].as_slice())?;
        proof {
            lemma_frame_written(start, Self::BLOCK_SEQ, Self::body_tokens(self@));
        }
        f.write_block_end(&mut b)
    }

    proof fn lemma_fault_sticks(s: Stream) {
        broadcast use group_sticks, group_records_stick;

        reveal(Crucible::parse_body);
    }

    proof fn lemma_read_back(s: Stream, v: CrucibleView) {
        broadcast use group_read_back, group_records_held;

        reveal(Crucible::parse_body);
        reveal(Crucible::body_tokens);
        lemma_frame_read_back(s, Self::BLOCK_SEQ, Self::body_tokens(v));
        assert(v.tokens_per_difficulty =~= seq![
            v.tokens_per_difficulty[0],
            v.tokens_per_difficulty[1],
            v.tokens_per_difficulty[2],
        ]);
    }

    proof fn lemma_write_back(s: Stream) {
        broadcast use group_sticks, group_records_stick, group_write_back, group_records_read;

        reveal(Crucible::parse_body);
        reveal(Crucible::body_tokens);
        let inner = s.block_start(Self::BLOCK_SEQ).1;
        lemma_frame_write_back(
            s,
            Self::BLOCK_SEQ,
            Self::body_tokens(Self::parse_body(inner).0),
        );
    }
}

/// The tutorial pages a character has been shown.
#[derive(Debug, Clone, PartialEq, Eq)]
pub struct TutorialPages {
    pub version: u32,
    pub pages: Vec<u32>,
}

/// The mathematical value of a [`TutorialPages`].
pub struct TutorialPagesView {
    pub version: u32,
    pub pages: Seq<u32>,
}

impl TutorialPages {
    /// The sequence id of the block.
    pub const BLOCK_SEQ: u32 = 15;

    /// The versions a reader accepts.
    pub open spec fn versions() -> Seq<u32> {
        seq![1u32]
    }

    /// The record whose every field is empty or zero.
    pub open spec fn blank() -> TutorialPagesView {
        TutorialPagesView {
            version: 0,
            pages: Seq::empty(),
        }
    }

    /// What a reader makes of the fields of the record.
    #[verifier::opaque]
    pub open spec fn parse_body(s: Stream) -> (TutorialPagesView, Stream) {
        let (version, s) = s.version(Self::versions());
        let (pages, s) = parse_list::<u32>(s);
        (
            TutorialPagesView {
                version,
                pages,
            },
            s,
        )
    }

    /// The fields of the record, in file order.
    #[verifier::opaque]
    pub open spec fn body_tokens(v: TutorialPagesView) -> Seq<Token> {
        seq![Token::Word(v.version)]
            + list_tokens::<u32>(v.pages)
    }

    /// The fields of the record can be written.
    pub open spec fn body_fits(v: TutorialPagesView) -> bool {
        &&& list_fits::<u32>(v.pages)
    }

    /// A record whose version is not an accepted one fails with that version,
    /// whatever follows it.
    pub proof fn lemma_version_gate(s: Stream)
        requires
            s.block_start(Self::BLOCK_SEQ).1.ok(),
            s.block_start(Self::BLOCK_SEQ).1.word().1.ok(),
            !Self::versions().contains(s.block_start(Self::BLOCK_SEQ).1.word().0),
        ensures
            Self::parse(s).1.fault == Some(
                Fault::UnsupportedVersion(
                    s.block_start(Self::BLOCK_SEQ).1.word().0,
                    Self::versions(),
                ),
            ),
    {
        broadcast use group_sticks, group_records_stick;

        reveal(TutorialPages::parse_body);
    }

    /// A block whose payload ends elsewhere than its length field announced
    /// fails with the offset reached and the offset announced.
    pub proof fn lemma_length_checked(s: Stream)
        requires
            Self::parse_body(s.block_start(Self::BLOCK_SEQ).1).1.ok(),
            Self::parse_body(s.block_start(Self::BLOCK_SEQ).1).1.pos != s.block_start(
                Self::BLOCK_SEQ,
            ).0,
        ensures
            Self::parse(s).1.fault == Some(
                Fault::IncorrectBlockEndPosition(
                    Self::parse_body(s.block_start(Self::BLOCK_SEQ).1).1.pos as u64,
                    s.block_start(Self::BLOCK_SEQ).0,
                ),
            ),
    {
        lemma_block_end_position(
            Self::parse_body(s.block_start(Self::BLOCK_SEQ).1).1,
            s.block_start(Self::BLOCK_SEQ).0,
        );
    }
}

impl View for TutorialPages {
    type V = TutorialPagesView;

    open spec fn view(&self) -> TutorialPagesView {
        TutorialPagesView {
            version: self.version,
            pages: views(self.pages@),
        }
    }
}

impl Default for TutorialPages {
    fn default() -> (r: TutorialPages)
        ensures
            r@ == TutorialPages::blank(),
    {
        let r = TutorialPages {
            version: 0,
            pages: Vec::new(),
        };
        proof {
            lemma_views_empty(r.pages@);
        }
        r
    }
}

impl ReadWrite for TutorialPages {
    open spec fn parse(s: Stream) -> (TutorialPagesView, Stream) {
        let (end, s) = s.block_start(Self::BLOCK_SEQ);
        let (v, s) = Self::parse_body(s);
        (v, s.block_end(end))
    }

    open spec fn tokens(v: TutorialPagesView) -> Seq<Token> {
        framed(Self::BLOCK_SEQ, Self::body_tokens(v))
    }

    open spec fn fits(v: TutorialPagesView) -> bool {
        Self::body_fits(v) && width(Self::body_tokens(v)) <= u32::MAX
    }

    open spec fn canonical(v: TutorialPagesView) -> bool {
        &&& Self::versions().contains(v.version)
        &&& items_canonical::<u32>(v.pages)
    }

    fn read(&mut self, f: &mut GDFile) -> (r: Result<(), FileError>) {
        broadcast use group_sticks, group_records_stick;

        proof {
            reveal(TutorialPages::parse_body);
        }
        let mut b = Block::default();
        f.read_block_start(&mut b, Self::BLOCK_SEQ)?;
        let accepted: [u32; 1] = [1];
        assert(accepted@ =~= Self::versions());
        let version = f.read_version(accepted.as_slice())?;
        let pages = f.read_vec::<u32>()?;
        f.read_block_end(&mut b)?;
        *self = TutorialPages {
            version,
            pages,
        };
        Ok(())
    }

    fn write(&self, f: &mut GDFile) -> (r: Result<(), FileError>) {
        broadcast use group_emit;

        proof {
            reveal(TutorialPages::body_tokens);
        }
        let ghost start = f@;
        let mut b = Block::default();
        f.write_block_start(&mut b, Self::BLOCK_SEQ);
        f.write_int(self.version);
        f.write_vec(self.pages.as_slice())?;
        proof {
            lemma_frame_written(start, Self::BLOCK_SEQ, Self::body_tokens(self@));
        }
        f.write_block_end(&mut b)
    }

    proof fn lemma_fault_sticks(s: Stream) {
        broadcast use group_sticks, group_records_stick;

        reveal(TutorialPages::parse_body);
    }

    proof fn lemma_read_back(s: Stream, v: TutorialPagesView) {
        broadcast use group_read_back, group_records_held;

        reveal(TutorialPages::parse_body);
        reveal(TutorialPages::body_tokens);
        lemma_frame_read_back(s, Self::BLOCK_SEQ, Self::body_tokens(v));
    }

    proof fn lemma_write_back(s: Stream) {
        broadcast use group_sticks, group_records_stick, group_write_back, group_records_read;

        reveal(TutorialPages::parse_body);
        reveal(TutorialPages::body_tokens);
        let inner = s.block_start(Self::BLOCK_SEQ).1;
        lemma_frame_write_back(
            s,
            Self::BLOCK_SEQ,
            Self::body_tokens(Self::parse_body(inner).0),
        );
    }
}

/// An entry of the interface block whose meaning is not known.
#[derive(Debug, Clone, PartialEq, Eq)]
pub struct UIUnknown {
    pub unknown4: String,
    pub unknown5: String,
    pub unknown6: u8,
}

/// The mathematical value of a [`UIUnknown`].
pub struct UIUnknownView {
    pub unknown4: Seq<char>,
    pub unknown5: Seq<char>,
    pub unknown6: u8,
}

impl UIUnknown {
    /// The record whose every field is empty or zero.
    pub open spec fn blank() -> UIUnknownView {
        UIUnknownView {
            unknown4: Seq::empty(),
            unknown5: Seq::empty(),
            unknown6: 0,
        }
    }

    /// What a reader makes of the fields of the record.
    #[verifier::opaque]
    pub open spec fn parse_body(s: Stream) -> (UIUnknownView, Stream) {
        let (unknown4, s) = s.string();
        let (unknown5, s) = s.string();
        let (unknown6, s) = s.byte();
        (
            UIUnknownView {
                unknown4,
                unknown5,
                unknown6,
            },
            s,
        )
    }

    /// The fields of the record, in file order.
    #[verifier::opaque]
    pub open spec fn body_tokens(v: UIUnknownView) -> Seq<Token> {
        string_tokens(v.unknown4)
            + string_tokens(v.unknown5)
            + seq![Token::Byte(v.unknown6)]
    }

    /// The fields of the record can be written.
    pub open spec fn body_fits(v: UIUnknownView) -> bool {
        &&& string_fits(v.unknown4)
        &&& string_fits(v.unknown5)
    }
}

impl View for UIUnknown {
    type V = UIUnknownView;

    open spec fn view(&self) -> UIUnknownView {
        UIUnknownView {
            unknown4: self.unknown4@,
            unknown5: self.unknown5@,
            unknown6: self.unknown6,
        }
    }
}

impl Default for UIUnknown {
    fn default() -> (r: UIUnknown)
        ensures
            r@ == UIUnknown::blank(),
    {
        UIUnknown {
            unknown4: String::new(),
            unknown5: String::new(),
            unknown6: 0,
        }
    }
}

impl ReadWrite for UIUnknown {
    open spec fn parse(s: Stream) -> (UIUnknownView, Stream) {
        Self::parse_body(s)
    }

    open spec fn tokens(v: UIUnknownView) -> Seq<Token> {
        Self::body_tokens(v)
    }

    open spec fn fits(v: UIUnknownView) -> bool {
        Self::body_fits(v)
    }

    open spec fn canonical(v: UIUnknownView) -> bool {
        true
    }

    fn read(&mut self, f: &mut GDFile) -> (r: Result<(), FileError>) {
        broadcast use group_sticks, group_records_stick;

        proof {
            reveal(UIUnknown::parse_body);
        }
        let unknown4 = f.read_string()?;
        let unknown5 = f.read_string()?;
        let unknown6 = f.read_byte()?;
        *self = UIUnknown {
            unknown4,
            unknown5,
            unknown6,
        };
        Ok(())
    }

    fn write(&self, f: &mut GDFile) -> (r: Result<(), FileError>) {
        broadcast use group_emit;

        proof {
            reveal(UIUnknown::body_tokens);
        }
        f.write_string(self.unknown4.as_str())?;
        f.write_string(self.unknown5.as_str())?;
        f.write_byte(self.unknown6);
        Ok(())
    }

    proof fn lemma_fault_sticks(s: Stream) {
        broadcast use group_sticks, group_records_stick;

        reveal(UIUnknown::parse_body);
    }

    proof fn lemma_read_back(s: Stream, v: UIUnknownView) {
        broadcast use group_read_back, group_records_held;

        reveal(UIUnknown::parse_body);
        reveal(UIUnknown::body_tokens);
    }

    proof fn lemma_write_back(s: Stream) {
        broadcast use group_sticks, group_records_stick, group_write_back, group_records_read;

        reveal(UIUnknown::parse_body);
        reveal(UIUnknown::body_tokens);
    }
}

/// The standing of a character with one faction.
#[derive(Debug, Clone, PartialEq, Eq)]
pub struct Faction {
    /// A single-precision float, held as its bit pattern.
    pub value: u32,
    pub modified: u8,
    pub unlocked: u8,
    /// A single-precision float, held as its bit pattern.
    pub positive_boost: u32,
    /// A single-precision float, held as its bit pattern.
    pub negative_boost: u32,
}

/// The mathematical value of a [`Faction`].
pub struct FactionView {
    pub value: u32,
    pub modified: u8,
    pub unlocked: u8,
    pub positive_boost: u32,
    pub negative_boost: u32,
}

impl Faction {
    /// The record whose every field is empty or zero.
    pub open spec fn blank() -> FactionView {
        FactionView {
            value: 0,
            modified: 0,
            unlocked: 0,
            positive_boost: 0,
            negative_boost: 0,
        }
    }

    /// What a reader makes of the fields of the record.
    #[verifier::opaque]
    pub open spec fn parse_body(s: Stream) -> (FactionView, Stream) {
        let (modified, s) = s.byte();
        let (unlocked, s) = s.byte();
        let (value, s) = s.word();
        let (positive_boost, s) = s.word();
        let (negative_boost, s) = s.word();
        (
            FactionView {
                value,
                modified,
                unlocked,
                positive_boost,
                negative_boost,
            },
            s,
        )
    }

    /// The fields of the record, in file order.
    #[verifier::opaque]
    pub open spec fn body_tokens(v: FactionView) -> Seq<Token> {
        seq![Token::Byte(v.modified)]
            + seq![Token::Byte(v.unlocked)]
            + seq![Token::Word(v.value)]
            + seq![Token::Word(v.positive_boost)]
            + seq![Token::Word(v.negative_boost)]
    }

    /// The fields of the record can be written.
    pub open spec fn body_fits(v: FactionView) -> bool {
        true
    }
}

impl View for Faction {
    type V = FactionView;

    open spec fn view(&self) -> FactionView {
        FactionView {
            value: self.value,
            modified: self.modified,
            unlocked: self.unlocked,
            positive_boost: self.positive_boost,
            negative_boost: self.negative_boost,
        }
    }
}

impl Default for Faction {
    fn default() -> (r: Faction)
        ensures
            r@ == Faction::blank(),
    {
        Faction {
            value: 0,
            modified: 0,
            unlocked: 0,
            positive_boost: 0,
            negative_boost: 0,
        }
    }
}

impl ReadWrite for Faction {
    open spec fn parse(s: Stream) -> (FactionView, Stream) {
        Self::parse_body(s)
    }

    open spec fn tokens(v: FactionView) -> Seq<Token> {
        Self::body_tokens(v)
    }

    open spec fn fits(v: FactionView) -> bool {
        Self::body_fits(v)
    }

    open spec fn canonical(v: FactionView) -> bool {
        true
    }

    fn read(&mut self, f: &mut GDFile) -> (r: Result<(), FileError>) {
        broadcast use group_sticks, group_records_stick;

        proof {
            reveal(Faction::parse_body);
        }
        let modified = f.read_byte()?;
        let unlocked = f.read_byte()?;
        let value = f.read_float()?;
        let positive_boost = f.read_float()?;
        let negative_boost = f.read_float()?;
        *self = Faction {
            value,
            modified,
            unlocked,
            positive_boost,
            negative_boost,
        };
        Ok(())
    }

    fn write(&self, f: &mut GDFile) -> (r: Result<(), FileError>) {
        broadcast use group_emit;

        proof {
            reveal(Faction::body_tokens);
        }
        f.write_byte(self.modified);
        f.write_byte(self.unlocked);
        f.write_float(self.value);
        f.write_float(self.positive_boost);
        f.write_float(self.negative_boost);
        Ok(())
    }

    proof fn lemma_fault_sticks(s: Stream) {
        broadcast use group_sticks, group_records_stick;

        reveal(Faction::parse_body);
    }

    proof fn lemma_read_back(s: Stream, v: FactionView) {
        broadcast use group_read_back, group_records_held;

        reveal(Faction::parse_body);
        reveal(Faction::body_tokens);
    }

    proof fn lemma_write_back(s: Stream) {
        broadcast use group_sticks, group_records_stick, group_write_back, group_records_read;

        reveal(Faction::parse_body);
        reveal(Faction::body_tokens);
    }
}

/// The standing of a character with every faction.
#[derive(Debug, Clone, PartialEq, Eq)]
pub struct FactionList {
    pub factions: Vec<Faction>,
    pub version: u32,
    pub faction: u32,
}

/// The mathematical value of a [`FactionList`].
pub struct FactionListView {
    pub factions: Seq<FactionView>,
    pub version: u32,
    pub faction: u32,
}

impl FactionList {
    /// The sequence id of the block.
    pub const BLOCK_SEQ: u32 = 13;

    /// The versions a reader accepts.
    pub open spec fn versions() -> Seq<u32> {
        seq![5u32]
    }

    /// The record whose every field is empty or zero.
    pub open spec fn blank() -> FactionListView {
        FactionListView {
            factions: Seq::empty(),
            version: 0,
            faction: 0,
        }
    }

    /// What a reader makes of the fields of the record.
    #[verifier::opaque]
    pub open spec fn parse_body(s: Stream) -> (FactionListView, Stream) {
        let (version, s) = s.version(Self::versions());
        let (faction, s) = s.word();
        let (factions, s) = parse_list::<Faction>(s);
        (
            FactionListView {
                factions,
                version,
                faction,
            },
            s,
        )
    }

    /// The fields of the record, in file order.
    #[verifier::opaque]
    pub open spec fn body_tokens(v: FactionListView) -> Seq<Token> {
        seq![Token::Word(v.version)]
            + seq![Token::Word(v.faction)]
            + list_tokens::<Faction>(v.factions)
    }

    /// The fields of the record can be written.
    pub open spec fn body_fits(v: FactionListView) -> bool {
        &&& list_fits::<Faction>(v.factions)
    }

    /// A record whose version is not an accepted one fails with that version,
    /// whatever follows it.
    pub proof fn lemma_version_gate(s: Stream)
        requires
            s.block_start(Self::BLOCK_SEQ).1.ok(),
            s.block_start(Self::BLOCK_SEQ).1.word().1.ok(),
            !Self::versions().contains(s.block_start(Self::BLOCK_SEQ).1.word().0),
        ensures
            Self::parse(s).1.fault == Some(
                Fault::UnsupportedVersion(
                    s.block_start(Self::BLOCK_SEQ).1.word().0,
                    Self::versions(),
                ),
            ),
    {
        broadcast use group_sticks, group_records_stick;

        reveal(FactionList::parse_body);
    }

    /// A block whose payload ends elsewhere than its length field announced
    /// fails with the offset reached and the offset announced.
    pub proof fn lemma_length_checked(s: Stream)
        requires
            Self::parse_body(s.block_start(Self::BLOCK_SEQ).1).1.ok(),
            Self::parse_body(s.block_start(Self::BLOCK_SEQ).1).1.pos != s.block_start(
                Self::BLOCK_SEQ,
            ).0,
        ensures
            Self::parse(s).1.fault == Some(
                Fault::IncorrectBlockEndPosition(
                    Self::parse_body(s.block_start(Self::BLOCK_SEQ).1).1.pos as u64,
                    s.block_start(Self::BLOCK_SEQ).0,
                ),
            ),
    {
        lemma_block_end_position(
            Self::parse_body(s.block_start(Self::BLOCK_SEQ).1).1,
            s.block_start(Self::BLOCK_SEQ).0,
        );
    }
}

impl View for FactionList {
    type V = FactionListView;

    open spec fn view(&self) -> FactionListView {
        FactionListView {
            factions: views(self.factions@),
            version: self.version,
            faction: self.faction,
        }
    }
}

impl Default for FactionList {
    fn default() -> (r: FactionList)
        ensures
            r@ == FactionList::blank(),
    {
        let r = FactionList {
            factions: Vec::new(),
            version: 0,
            faction: 0,
        };
        proof {
            lemma_views_empty(r.factions@);
        }
        r
    }
}

impl ReadWrite for FactionList {
    open spec fn parse(s: Stream) -> (FactionListView, Stream) {
        let (end, s) = s.block_start(Self::BLOCK_SEQ);
        let (v, s) = Self::parse_body(s);
        (v, s.block_end(end))
    }

    open spec fn tokens(v: FactionListView) -> Seq<Token> {
        framed(Self::BLOCK_SEQ, Self::body_tokens(v))
    }

    open spec fn fits(v: FactionListView) -> bool {
        Self::body_fits(v) && width(Self::body_tokens(v)) <= u32::MAX
    }

    open spec fn canonical(v: FactionListView) -> bool {
        &&& Self::versions().contains(v.version)
        &&& items_canonical::<Faction>(v.factions)
    }

    fn read(&mut self, f: &mut GDFile) -> (r: Result<(), FileError>) {
        broadcast use group_sticks, group_records_stick;

        proof {
            reveal(FactionList::parse_body);
        }
        let mut b = Block::default();
        f.read_block_start(&mut b, Self::BLOCK_SEQ)?;
        let accepted: [u32; 1] = [5];
        assert(accepted@ =~= Self::versions());
        let version = f.read_version(accepted.as_slice())?;
        let faction = f.read_int()?;
        let factions = f.read_vec::<Faction>()?;
        f.read_block_end(&mut b)?;
        *self = FactionList {
            factions,
            version,
            faction,
        };
        Ok(())
    }

    fn write(&self, f: &mut GDFile) -> (r: Result<(), FileError>) {
        broadcast use group_emit;

        proof {
            reveal(FactionList::body_tokens);
        }
        let ghost start = f@;
        let mut b = Block::default();
        f.write_block_start(&mut b, Self::BLOCK_SEQ);
        f.write_int(self.version);
        f.write_int(self.faction);
        f.write_vec(self.factions.as_slice())?;
        proof {
            lemma_frame_written(start, Self::BLOCK_SEQ, Self::body_tokens(self@));
        }
        f.write_block_end(&mut b)
    }

    proof fn lemma_fault_sticks(s: Stream) {
        broadcast use group_sticks, group_records_stick;

        reveal(FactionList::parse_body);
    }

    proof fn lemma_read_back(s: Stream, v: FactionListView) {
        broadcast use group_read_back, group_records_held;

        reveal(FactionList::parse_body);
        reveal(FactionList::body_tokens);
        lemma_frame_read_back(s, Self::BLOCK_SEQ, Self::body_tokens(v));
    }

    proof fn lemma_write_back(s: Stream) {
        broadcast use group_sticks, group_records_stick, group_write_back, group_records_read;

        reveal(FactionList::parse_body);
        reveal(FactionList::body_tokens);
        let inner = s.block_start(Self::BLOCK_SEQ).1;
        lemma_frame_write_back(
            s,
            Self::BLOCK_SEQ,
            Self::body_tokens(Self::parse_body(inner).0),
        );
    }
}

/// The lore notes a character has collected.
#[derive(Debug, Clone, PartialEq, Eq)]
pub struct NoteList {
    pub version: u32,
    pub notes: Vec<String>,
}

/// The mathematical value of a [`NoteList`].
pub struct NoteListView {
    pub version: u32,
    pub notes: Seq<Seq<char>>,
}

impl NoteList {
    /// The sequence id of the block.
    pub const BLOCK_SEQ: u32 = 12;

    /// The versions a reader accepts.
    pub open spec fn versions() -> Seq<u32> {
        seq![1u32]
    }

    /// The record whose every field is empty or zero.
    pub open spec fn blank() -> NoteListView {
        NoteListView {
            version: 0,
            notes: Seq::empty(),
        }
    }

    /// What a reader makes of the fields of the record.
    #[verifier::opaque]
    pub open spec fn parse_body(s: Stream) -> (NoteListView, Stream) {
        let (version, s) = s.version(Self::versions());
        let (notes, s) = parse_list::<String>(s);
        (
            NoteListView {
                version,
                notes,
            },
            s,
        )
    }

    /// The fields of the record, in file order.
    #[verifier::opaque]
    pub open spec fn body_tokens(v: NoteListView) -> Seq<Token> {
        seq![Token::Word(v.version)]
            + list_tokens::<String>(v.notes)
    }

    /// The fields of the record can be written.
    pub open spec fn body_fits(v: NoteListView) -> bool {
        &&& list_fits::<String>(v.notes)
    }

    /// A record whose version is not an accepted one fails with that version,
    /// whatever follows it.
    pub proof fn lemma_version_gate(s: Stream)
        requires
            s.block_start(Self::BLOCK_SEQ).1.ok(),
            s.block_start(Self::BLOCK_SEQ).1.word().1.ok(),
            !Self::versions().contains(s.block_start(Self::BLOCK_SEQ).1.word().0),
        ensures
            Self::parse(s).1.fault == Some(
                Fault::UnsupportedVersion(
                    s.block_start(Self::BLOCK_SEQ).1.word().0,
                    Self::versions(),
                ),
            ),
    {
        broadcast use group_sticks, group_records_stick;

        reveal(NoteList::parse_body);
    }

    /// A block whose payload ends elsewhere than its length field announced
    /// fails with the offset reached and the offset announced.
    pub proof fn lemma_length_checked(s: Stream)
        requires
            Self::parse_body(s.block_start(Self::BLOCK_SEQ).1).1.ok(),
            Self::parse_body(s.block_start(Self::BLOCK_SEQ).1).1.pos != s.block_start(
                Self::BLOCK_SEQ,
            ).0,
        ensures
            Self::parse(s).1.fault == Some(
                Fault::IncorrectBlockEndPosition(
                    Self::parse_body(s.block_start(Self::BLOCK_SEQ).1).1.pos as u64,
                    s.block_start(Self::BLOCK_SEQ).0,
                ),
            ),
    {
        lemma_block_end_position(
            Self::parse_body(s.block_start(Self::BLOCK_SEQ).1).1,
            s.block_start(Self::BLOCK_SEQ).0,
        );
    }
}

impl View for NoteList {
    type V = NoteListView;

    open spec fn view(&self) -> NoteListView {
        NoteListView {
            version: self.version,
            notes: views(self.notes@),
        }
    }
}

impl Default for NoteList {
    fn default() -> (r: NoteList)
        ensures
            r@ == NoteList::blank(),
    {
        let r = NoteList {
            version: 0,
            notes: Vec::new(),
        };
        proof {
            lemma_views_empty(r.notes@);
        }
        r
    }
}

impl ReadWrite for NoteList {
    open spec fn parse(s: Stream) -> (NoteListView, Stream) {
        let (end, s) = s.block_start(Self::BLOCK_SEQ);
        let (v, s) = Self::parse_body(s);
        (v, s.block_end(end))
    }

    open spec fn tokens(v: NoteListView) -> Seq<Token> {
        framed(Self::BLOCK_SEQ, Self::body_tokens(v))
    }

    open spec fn fits(v: NoteListView) -> bool {
        Self::body_fits(v) && width(Self::body_tokens(v)) <= u32::MAX
    }

    open spec fn canonical(v: NoteListView) -> bool {
        &&& Self::versions().contains(v.version)
        &&& items_canonical::<String>(v.notes)
    }

    fn read(&mut self, f: &mut GDFile) -> (r: Result<(), FileError>) {
        broadcast use group_sticks, group_records_stick;

        proof {
            reveal(NoteList::parse_body);
        }
        let mut b = Block::default();
        f.read_block_start(&mut b, Self::BLOCK_SEQ)?;
        let accepted: [u32; 1] = [1];
        assert(accepted@ =~= Self::versions());
        let version = f.read_version(accepted.as_slice())?;
        let notes = f.read_vec::<String>()?;
        f.read_block_end(&mut b)?;
        *self = NoteList {
            version,
            notes,
        };
        Ok(())
    }

    fn write(&self, f: &mut GDFile) -> (r: Result<(), FileError>) {
        broadcast use group_emit;

        proof {
            reveal(NoteList::body_tokens);
        }
        let ghost start = f@;
        let mut b = Block::default();
        f.write_block_start(&mut b, Self::BLOCK_SEQ);
        f.write_int(self.version);
        f.write_vec(self.notes.as_slice())?;
        proof {
            lemma_frame_written(start, Self::BLOCK_SEQ, Self::body_tokens(self@));
        }
        f.write_block_end(&mut b)
    }

    proof fn lemma_fault_sticks(s: Stream) {
        broadcast use group_sticks, group_records_stick;

        reveal(NoteList::parse_body);
    }

    proof fn lemma_read_back(s: Stream, v: NoteListView) {
        broadcast use group_read_back, group_records_held;

        reveal(NoteList::parse_body);
        reveal(NoteList::body_tokens);
        lemma_frame_read_back(s, Self::BLOCK_SEQ, Self::body_tokens(v));
    }

    proof fn lemma_write_back(s: Stream) {
        broadcast use group_sticks, group_records_stick, group_write_back, group_records_read;

        reveal(NoteList::parse_body);
        reveal(NoteList::body_tokens);
        let inner = s.block_start(Self::BLOCK_SEQ).1;
        lemma_frame_write_back(
            s,
            Self::BLOCK_SEQ,
            Self::body_tokens(Self::parse_body(inner).0),
        );
    }
}

/// One slot of a quick bar: empty, a skill, or an item.
#[derive(Debug, Clone, PartialEq, Eq)]
pub struct UISlot {
    pub bitmap_down: String,
    pub bitmap_up: String,
    pub equip_location: u32,
    pub is_item_skill: u8,
    pub item: String,
    pub label: String,
    pub skill: String,
    pub slot_type: u32,
}

/// The mathematical value of a [`UISlot`].
pub struct UISlotView {
    pub bitmap_down: Seq<char>,
    pub bitmap_up: Seq<char>,
    pub equip_location: u32,
    pub is_item_skill: u8,
    pub item: Seq<char>,
    pub label: Seq<char>,
    pub skill: Seq<char>,
    pub slot_type: u32,
}

impl UISlot {
    /// The type of a slot that holds a skill.
    pub const SKILL: u32 = 0;

    /// The type of a slot that holds an item.
    pub const ITEM: u32 = 4;

    /// The record whose every field is empty or zero.
    pub open spec fn blank() -> UISlotView {
        UISlotView {
            bitmap_down: Seq::empty(),
            bitmap_up: Seq::empty(),
            equip_location: 0,
            is_item_skill: 0,
            item: Seq::empty(),
            label: Seq::empty(),
            skill: Seq::empty(),
            slot_type: 0,
        }
    }

    /// What a reader makes of the fields of the record: the type of the
    /// slot, then the fields that this type has.
    #[verifier::opaque]
    pub open spec fn parse_body(s: Stream) -> (UISlotView, Stream) {
        let (slot_type, s) = s.word();
        if slot_type == Self::SKILL {
            let (skill, s) = s.string();
            let (is_item_skill, s) = s.byte();
            let (item, s) = s.string();
            let (equip_location, s) = s.word();
            (
                UISlotView {
                    slot_type,
                    skill,
                    is_item_skill,
                    item,
                    equip_location,
                    ..Self::blank()
                },
                s,
            )
        } else if slot_type == Self::ITEM {
            let (item, s) = s.string();
            let (bitmap_up, s) = s.string();
            let (bitmap_down, s) = s.string();
            let (label, s) = s.wstring();
            (UISlotView { slot_type, item, bitmap_up, bitmap_down, label, ..Self::blank() }, s)
        } else {
            (UISlotView { slot_type, ..Self::blank() }, s)
        }
    }

    /// The fields of the record, in file order.
    #[verifier::opaque]
    pub open spec fn body_tokens(v: UISlotView) -> Seq<Token> {
        seq![Token::Word(v.slot_type)] + (if v.slot_type == Self::SKILL {
            string_tokens(v.skill) + seq![Token::Byte(v.is_item_skill)] + string_tokens(v.item)
                + seq![Token::Word(v.equip_location)]
        } else if v.slot_type == Self::ITEM {
            string_tokens(v.item) + string_tokens(v.bitmap_up) + string_tokens(v.bitmap_down)
                + wstring_tokens(v.label)
        } else {
            Seq::empty()
        })
    }

    /// The fields of the record can be written.
    pub open spec fn body_fits(v: UISlotView) -> bool {
        if v.slot_type == Self::SKILL {
            string_fits(v.skill) && string_fits(v.item)
        } else if v.slot_type == Self::ITEM {
            string_fits(v.item) && string_fits(v.bitmap_up) && string_fits(v.bitmap_down)
                && wstring_fits(v.label)
        } else {
            true
        }
    }
}

impl View for UISlot {
    type V = UISlotView;

    open spec fn view(&self) -> UISlotView {
        UISlotView {
            bitmap_down: self.bitmap_down@,
            bitmap_up: self.bitmap_up@,
            equip_location: self.equip_location,
            is_item_skill: self.is_item_skill,
            item: self.item@,
            label: self.label@,
            skill: self.skill@,
            slot_type: self.slot_type,
        }
    }
}

impl Default for UISlot {
    fn default() -> (r: UISlot)
        ensures
            r@ == UISlot::blank(),
    {
        UISlot {
            bitmap_down: String::new(),
            bitmap_up: String::new(),
            equip_location: 0,
            is_item_skill: 0,
            item: String::new(),
            label: String::new(),
            skill: String::new(),
            slot_type: 0,
        }
    }
}

impl ReadWrite for UISlot {
    open spec fn parse(s: Stream) -> (UISlotView, Stream) {
        Self::parse_body(s)
    }

    open spec fn tokens(v: UISlotView) -> Seq<Token> {
        Self::body_tokens(v)
    }

    open spec fn fits(v: UISlotView) -> bool {
        Self::body_fits(v)
    }

    open spec fn canonical(v: UISlotView) -> bool {
        if v.slot_type == Self::SKILL {
            v == (UISlotView {
                slot_type: v.slot_type,
                skill: v.skill,
                is_item_skill: v.is_item_skill,
                item: v.item,
                equip_location: v.equip_location,
                ..Self::blank()
            })
        } else if v.slot_type == Self::ITEM {
            v == (UISlotView {
                slot_type: v.slot_type,
                item: v.item,
                bitmap_up: v.bitmap_up,
                bitmap_down: v.bitmap_down,
                label: v.label,
                ..Self::blank()
            })
        } else {
            v == (UISlotView { slot_type: v.slot_type, ..Self::blank() })
        }
    }

    fn read(&mut self, f: &mut GDFile) -> (r: Result<(), FileError>) {
        broadcast use group_sticks;

        proof {
            reveal(UISlot::parse_body);
        }
        let slot_type = f.read_int()?;
        let mut slot = UISlot::default();
        slot.slot_type = slot_type;
        if slot_type == Self::SKILL {
            slot.skill = f.read_string()?;
            slot.is_item_skill = f.read_byte()?;
            slot.item = f.read_string()?;
            slot.equip_location = f.read_int()?;
        } else if slot_type == Self::ITEM {
            slot.item = f.read_string()?;
            slot.bitmap_up = f.read_string()?;
            slot.bitmap_down = f.read_string()?;
            slot.label = f.read_wstring()?;
        }
        *self = slot;
        Ok(())
    }

    fn write(&self, f: &mut GDFile) -> (r: Result<(), FileError>) {
        broadcast use group_emit;

        proof {
            reveal(UISlot::body_tokens);
        }
        f.write_int(self.slot_type);
        if self.slot_type == Self::SKILL {
            f.write_string(self.skill.as_str())?;
            f.write_byte(self.is_item_skill);
            f.write_string(self.item.as_str())?;
            f.write_int(self.equip_location);
        } else if self.slot_type == Self::ITEM {
            f.write_string(self.item.as_str())?;
            f.write_string(self.bitmap_up.as_str())?;
            f.write_string(self.bitmap_down.as_str())?;
            f.write_wstring(self.label.as_str())?;
        }
        Ok(())
    }

    proof fn lemma_fault_sticks(s: Stream) {
        broadcast use group_sticks;

        reveal(UISlot::parse_body);
    }

    proof fn lemma_read_back(s: Stream, v: UISlotView) {
        broadcast use group_gaps, group_read_back;

        reveal(UISlot::parse_body);
        reveal(UISlot::body_tokens);
    }

    proof fn lemma_write_back(s: Stream) {
        broadcast use group_gaps, group_sticks, group_write_back;

        reveal(UISlot::parse_body);
        reveal(UISlot::body_tokens);
    }
}

/// One quick bar: a set of slots, and from version 7 of the interface block
/// on an id.
#[derive(Debug, Clone, PartialEq, Eq)]
pub struct UISkillSet {
    pub id: u32,
    pub slots: Vec<UISlot>,
}

/// The mathematical value of a [`UISkillSet`].
pub struct UISkillSetView {
    pub id: u32,
    pub slots: Seq<UISlotView>,
}

impl View for UISkillSet {
    type V = UISkillSetView;

    open spec fn view(&self) -> UISkillSetView {
        UISkillSetView { id: self.id, slots: views(self.slots@) }
    }
}

impl UISkillSet {
    /// The set without a slot.
    pub open spec fn blank() -> UISkillSetView {
        UISkillSetView { id: 0, slots: Seq::empty() }
    }

    /// What a reader makes of a set of `cap` slots in an interface block of
    /// version `version`.
    pub open spec fn parse_in(s: Stream, version: u32, cap: nat) -> (UISkillSetView, Stream) {
        let (id, s) = if version >= 7 {
            s.word()
        } else {
            (0u32, s)
        };
        let (slots, s) = parse_items::<UISlot>(s, cap);
        (UISkillSetView { id, slots }, s)
    }

    /// The fields of a set in an interface block of version `version`.
    pub open spec fn tokens_in(v: UISkillSetView, version: u32) -> Seq<Token> {
        (if version >= 7 {
            seq![Token::Word(v.id)]
        } else {
            Seq::empty()
        }) + item_tokens::<UISlot>(v.slots)
    }

    /// The set can be written.
    pub open spec fn fits(v: UISkillSetView) -> bool {
        items_fit::<UISlot>(v.slots)
    }

    /// The set is one that reading `cap` slots in version `version` yields.
    pub open spec fn canonical_in(v: UISkillSetView, version: u32, cap: nat) -> bool {
        &&& version >= 7 || v.id == 0
        &&& v.slots.len() == cap
        &&& items_canonical::<UISlot>(v.slots)
    }

    /// Reads `n` sets in a row.
    pub open spec fn parse_sets(s: Stream, version: u32, cap: nat, n: nat) -> (
        Seq<UISkillSetView>,
        Stream,
    )
        decreases n,
    {
        if n == 0 {
            (Seq::empty(), s)
        } else {
            let (sets, s) = Self::parse_sets(s, version, cap, (n - 1) as nat);
            let (set, s) = Self::parse_in(s, version, cap);
            (sets.push(set), s)
        }
    }

    /// The tokens of a run of sets.
    pub open spec fn sets_tokens(sets: Seq<UISkillSetView>, version: u32) -> Seq<Token>
        decreases sets.len(),
    {
        if sets.len() == 0 {
            Seq::empty()
        } else {
            Self::sets_tokens(sets.drop_last(), version) + Self::tokens_in(sets.last(), version)
        }
    }

    /// Every set of the run can be written.
    pub open spec fn sets_fit(sets: Seq<UISkillSetView>) -> bool {
        forall|i: int| 0 <= i < sets.len() ==> Self::fits(#[trigger] sets[i])
    }

    /// Every set of the run is one that reading yields.
    pub open spec fn sets_canonical(sets: Seq<UISkillSetView>, version: u32, cap: nat) -> bool {
        forall|i: int| 0 <= i < sets.len() ==> Self::canonical_in(#[trigger] sets[i], version, cap)
    }

    /// An empty set with room for `cap` slots.
    pub fn with_slots(cap: usize) -> (r: UISkillSet)
        ensures
            r@ == UISkillSet::blank(),
    {
        let r = UISkillSet { id: 0, slots: Vec::with_capacity(cap) };
        proof {
            lemma_views_empty(r.slots@);
        }
        r
    }

    /// Reads a set of `slots` slots in an interface block of version
    /// `version`. On failure the set is left as it was.
    pub fn read(&mut self, version: u32, slots: usize, f: &mut GDFile) -> (r: Result<
        (),
        FileError,
    >)
        requires
            old(f).wf(),
        ensures
            final(f).wf(),
            match r {
                Ok(()) => Self::parse_in(old(f)@, version, slots as nat) == (
                    final(self)@,
                    final(f)@,
                ),
                Err(e) => Self::parse_in(old(f)@, version, slots as nat).1 == final(f)@.fail(e@)
                    && *final(self) == *old(self),
            },
    {
        broadcast use group_sticks, group_records_stick;

        let id = if version >= 7 {
            f.read_int()?
        } else {
            0
        };
        let read = f.read_arr::<UISlot>(slots)?;
        self.id = id;
        self.slots = read;
        Ok(())
    }

    /// Writes the set.
    pub fn write(&self, version: u32, f: &mut GDFile) -> (r: Result<(), FileError>)
        requires
            old(f).wf(),
        ensures
            final(f).wf(),
            wrote(old(f)@, Self::tokens_in(self@, version), Self::fits(self@), r, final(f)@),
    {
        broadcast use group_emit;

        if version >= 7 {
            f.write_int(self.id);
        }
        f.write_arr(self.slots.as_slice())
    }

    /// Nothing is read of a set from a stream that has failed.
    pub proof fn lemma_set_sticks(s: Stream, version: u32, cap: nat)
        requires
            !s.ok(),
        ensures
            Self::parse_in(s, version, cap).1 == s,
    {
        broadcast use group_sticks, group_records_stick;

    }

    /// Reading a set that was written gives the set back.
    pub proof fn lemma_set_read_back(s: Stream, v: UISkillSetView, version: u32, cap: nat)
        requires
            s.wf(),
            s.ok(),
            Self::canonical_in(v, version, cap),
            Self::fits(v),
            s.holds(Self::tokens_in(v, version)),
        ensures
            Self::parse_in(s, version, cap) == (v, s.skip(Self::tokens_in(v, version))),
    {
        broadcast use group_gaps, group_read_back, group_records_held;

    }

    /// Writing a set that was read gives the bytes back.
    pub proof fn lemma_set_write_back(s: Stream, version: u32, cap: nat)
        requires
            s.wf(),
            s.ok(),
            Self::parse_in(s, version, cap).1.ok(),
        ensures
            ({
                let (v, t) = Self::parse_in(s, version, cap);
                &&& Self::canonical_in(v, version, cap)
                &&& Self::fits(v)
                &&& s.holds(Self::tokens_in(v, version))
                &&& t == s.skip(Self::tokens_in(v, version))
                &&& t.wf()
            }),
    {
        broadcast use
            group_gaps,
            group_sticks,
            group_records_stick,
            group_write_back,
            group_records_read,
        ;

    }

    /// What has failed after `i` sets has failed after `n`.
    pub proof fn lemma_sets_stick(s: Stream, version: u32, cap: nat, i: nat, n: nat)
        requires
            i <= n,
            !Self::parse_sets(s, version, cap, i).1.ok(),
        ensures
            Self::parse_sets(s, version, cap, n).1 == Self::parse_sets(s, version, cap, i).1,
        decreases n,
    {
        if i < n {
            Self::lemma_sets_stick(s, version, cap, i, (n - 1) as nat);
            Self::lemma_set_sticks(
                Self::parse_sets(s, version, cap, (n - 1) as nat).1,
                version,
                cap,
            );
        }
    }

    /// Reading back a run of sets.
    pub proof fn lemma_sets_read_back(s: Stream, sets: Seq<UISkillSetView>, version: u32, cap: nat)
        requires
            s.wf(),
            s.ok(),
            Self::sets_canonical(sets, version, cap),
            Self::sets_fit(sets),
            s.holds(Self::sets_tokens(sets, version)),
        ensures
            Self::parse_sets(s, version, cap, sets.len()) == (
                sets,
                s.skip(Self::sets_tokens(sets, version)),
            ),
        decreases sets.len(),
    {
        if sets.len() == 0 {
            lemma_holds_nothing(s);
            assert(sets =~= Seq::<UISkillSetView>::empty());
        } else {
            let init = sets.drop_last();
            lemma_holds_concat(
                s,
                Self::sets_tokens(init, version),
                Self::tokens_in(sets.last(), version),
            );
            Self::lemma_sets_read_back(s, init, version, cap);
            lemma_skip_wf(s, Self::sets_tokens(init, version));
            Self::lemma_set_read_back(
                s.skip(Self::sets_tokens(init, version)),
                sets.last(),
                version,
                cap,
            );
            assert(init.push(sets.last()) =~= sets);
        }
    }

    /// A run of sets that was read can be written, and writing it gives the
    /// bytes it was read from.
    pub proof fn lemma_sets_write_back(s: Stream, version: u32, cap: nat, n: nat)
        requires
            s.wf(),
            s.ok(),
            Self::parse_sets(s, version, cap, n).1.ok(),
        ensures
            ({
                let (sets, t) = Self::parse_sets(s, version, cap, n);
                &&& sets.len() == n
                &&& Self::sets_canonical(sets, version, cap)
                &&& Self::sets_fit(sets)
                &&& s.holds(Self::sets_tokens(sets, version))
                &&& t == s.skip(Self::sets_tokens(sets, version))
                &&& t.wf()
            }),
        decreases n,
    {
        if n == 0 {
            lemma_holds_nothing(s);
        } else {
            let (init, mid) = Self::parse_sets(s, version, cap, (n - 1) as nat);
            if !mid.ok() {
                Self::lemma_set_sticks(mid, version, cap);
            }
            Self::lemma_sets_write_back(s, version, cap, (n - 1) as nat);
            Self::lemma_set_write_back(mid, version, cap);
            let (set, t) = Self::parse_in(mid, version, cap);
            let sets = init.push(set);
            assert(sets.drop_last() =~= init);
            lemma_holds_concat(s, Self::sets_tokens(init, version), Self::tokens_in(set, version));
        }
    }
}

/// Ambient form of [`UISkillSet::lemma_sets_stick`].
pub broadcast proof fn auto_sets_stick(s: Stream, version: u32, cap: nat, n: nat)
    requires
        !s.ok(),
    ensures
        (#[trigger] UISkillSet::parse_sets(s, version, cap, n)).1 == s,
{
    UISkillSet::lemma_sets_stick(s, version, cap, 0, n);
}

/// Ambient form of [`UISkillSet::lemma_sets_read_back`].
pub broadcast proof fn auto_sets_held(
    s: Stream,
    sets: Seq<UISkillSetView>,
    version: u32,
    cap: nat,
)
    requires
        s.wf(),
        s.ok(),
        #[trigger] UISkillSet::sets_canonical(sets, version, cap),
        UISkillSet::sets_fit(sets),
        #[trigger] s.holds(UISkillSet::sets_tokens(sets, version)),
    ensures
        UISkillSet::parse_sets(s, version, cap, sets.len()) == (
            sets,
            s.skip(UISkillSet::sets_tokens(sets, version)),
        ),
{
    UISkillSet::lemma_sets_read_back(s, sets, version, cap);
}

/// Ambient form of [`UISkillSet::lemma_sets_write_back`].
pub broadcast proof fn auto_sets_read(s: Stream, version: u32, cap: nat, n: nat)
    requires
        s.wf(),
        (#[trigger] UISkillSet::parse_sets(s, version, cap, n)).1.ok(),
    ensures
        s.ok(),
        UISkillSet::parse_sets(s, version, cap, n).0.len() == n,
        UISkillSet::sets_canonical(UISkillSet::parse_sets(s, version, cap, n).0, version, cap),
        UISkillSet::sets_fit(UISkillSet::parse_sets(s, version, cap, n).0),
        s.holds(UISkillSet::sets_tokens(UISkillSet::parse_sets(s, version, cap, n).0, version)),
        UISkillSet::parse_sets(s, version, cap, n).1 == s.skip(
            UISkillSet::sets_tokens(UISkillSet::parse_sets(s, version, cap, n).0, version),
        ),
        UISkillSet::parse_sets(s, version, cap, n).1.wf(),
{
    if !s.ok() {
        UISkillSet::lemma_sets_stick(s, version, cap, 0, n);
    }
    UISkillSet::lemma_sets_write_back(s, version, cap, n);
}

/// The interface block: the quick bars and the camera.
#[derive(Debug, Clone, PartialEq, Eq)]
pub struct UI {
    pub version: u32,
    pub unknown1: u8,
    pub unknown2: u32,
    pub unknown3: u8,
    /// Five entries whose meaning is not known.
    pub unknowns: [UIUnknown; 5],
    /// A single-precision float, held as its bit pattern.
    pub camera_distance: u32,
    pub num_skill_set: u32,
    pub slots_per_set: u32,
    pub skill_sets: Vec<UISkillSet>,
}

/// The mathematical value of a [`UI`].
pub struct UIView {
    pub version: u32,
    pub unknown1: u8,
    pub unknown2: u32,
    pub unknown3: u8,
    pub unknowns: Seq<UIUnknownView>,
    pub camera_distance: u32,
    pub num_skill_set: u32,
    pub slots_per_set: u32,
    pub skill_sets: Seq<UISkillSetView>,
}

impl UI {
    /// The sequence id of the block.
    pub const BLOCK_SEQ: u32 = 14;

    /// The versions a reader accepts.
    pub open spec fn versions() -> Seq<u32> {
        seq![4u32, 5u32, 6u32, 7u32]
    }

    /// The number of slots of the one quick bar that a block before version
    /// 7 holds.
    pub open spec fn legacy_slots(version: u32) -> u32 {
        if version >= 6 {
            47
        } else if version == 5 {
            46
        } else {
            36
        }
    }

    /// The record whose every field is empty or zero.
    pub open spec fn blank() -> UIView {
        UIView {
            version: 0,
            unknown1: 0,
            unknown2: 0,
            unknown3: 0,
            unknowns: Seq::new(5, |i: int| UIUnknown::blank()),
            camera_distance: 0,
            num_skill_set: 0,
            slots_per_set: 0,
            skill_sets: Seq::empty(),
        }
    }

    /// What a reader makes of the fields of the record.
    #[verifier::opaque]
    pub open spec fn parse_body(s: Stream) -> (UIView, Stream) {
        let (version, s) = s.version(Self::versions());
        let (unknown1, s) = s.byte();
        let (unknown2, s) = s.word();
        let (unknown3, s) = s.byte();
        let (unknowns, s) = parse_items::<UIUnknown>(s, 5);
        let (num_skill_set, s) = if version >= 7 {
            s.word()
        } else {
            (1u32, s)
        };
        let (slots_per_set, s) = if version >= 7 {
            s.word()
        } else {
            (Self::legacy_slots(version), s)
        };
        let (skill_sets, s) = UISkillSet::parse_sets(
            s,
            version,
            slots_per_set as nat,
            num_skill_set as nat,
        );
        let (camera_distance, s) = s.word();
        (
            UIView {
                version,
                unknown1,
                unknown2,
                unknown3,
                unknowns,
                camera_distance,
                num_skill_set,
                slots_per_set,
                skill_sets,
            },
            s,
        )
    }

    /// The fields of the record, in file order.
    #[verifier::opaque]
    pub open spec fn body_tokens(v: UIView) -> Seq<Token> {
        seq![Token::Word(v.version)] + seq![Token::Byte(v.unknown1)] + seq![
            Token::Word(v.unknown2),
        ] + seq![Token::Byte(v.unknown3)] + item_tokens::<UIUnknown>(v.unknowns) + (if v.version
            >= 7 {
            seq![Token::Word(v.num_skill_set)] + seq![Token::Word(v.slots_per_set)]
        } else {
            Seq::empty()
        }) + UISkillSet::sets_tokens(v.skill_sets, v.version) + seq![
            Token::Word(v.camera_distance),
        ]
    }

    /// The fields of the record can be written.
    pub open spec fn body_fits(v: UIView) -> bool {
        &&& items_fit::<UIUnknown>(v.unknowns)
        &&& UISkillSet::sets_fit(v.skill_sets)
    }

    /// A record whose version is not an accepted one fails with that version,
    /// whatever follows it.
    pub proof fn lemma_version_gate(s: Stream)
        requires
            s.block_start(Self::BLOCK_SEQ).1.ok(),
            s.block_start(Self::BLOCK_SEQ).1.word().1.ok(),
            !Self::versions().contains(s.block_start(Self::BLOCK_SEQ).1.word().0),
        ensures
            Self::parse(s).1.fault == Some(
                Fault::UnsupportedVersion(
                    s.block_start(Self::BLOCK_SEQ).1.word().0,
                    Self::versions(),
                ),
            ),
    {
        broadcast use group_sticks, group_records_stick, auto_sets_stick;

        reveal(UI::parse_body);
    }

    /// A block whose payload ends elsewhere than its length field announced
    /// fails with the offset reached and the offset announced.
    pub proof fn lemma_length_checked(s: Stream)
        requires
            Self::parse_body(s.block_start(Self::BLOCK_SEQ).1).1.ok(),
            Self::parse_body(s.block_start(Self::BLOCK_SEQ).1).1.pos != s.block_start(
                Self::BLOCK_SEQ,
            ).0,
        ensures
            Self::parse(s).1.fault == Some(
                Fault::IncorrectBlockEndPosition(
                    Self::parse_body(s.block_start(Self::BLOCK_SEQ).1).1.pos as u64,
                    s.block_start(Self::BLOCK_SEQ).0,
                ),
            ),
    {
        lemma_block_end_position(
            Self::parse_body(s.block_start(Self::BLOCK_SEQ).1).1,
            s.block_start(Self::BLOCK_SEQ).0,
        );
    }
}

impl View for UI {
    type V = UIView;

    open spec fn view(&self) -> UIView {
        UIView {
            version: self.version,
            unknown1: self.unknown1,
            unknown2: self.unknown2,
            unknown3: self.unknown3,
            unknowns: views(self.unknowns@),
            camera_distance: self.camera_distance,
            num_skill_set: self.num_skill_set,
            slots_per_set: self.slots_per_set,
            skill_sets: views(self.skill_sets@),
        }
    }
}

impl Default for UI {
    fn default() -> (r: UI)
        ensures
            r@ == UI::blank(),
    {
        let r = UI {
            version: 0,
            unknown1: 0,
            unknown2: 0,
            unknown3: 0,
            unknowns: [
                UIUnknown::default(),
                UIUnknown::default(),
                UIUnknown::default(),
                UIUnknown::default(),
                UIUnknown::default(),
            ],
            camera_distance: 0,
            num_skill_set: 0,
            slots_per_set: 0,
            skill_sets: Vec::new(),
        };
        proof {
            assert(views(r.unknowns@) =~= Seq::new(5, |i: int| UIUnknown::blank()));
            lemma_views_empty(r.skill_sets@);
        }
        r
    }
}

impl ReadWrite for UI {
    open spec fn parse(s: Stream) -> (UIView, Stream) {
        let (end, s) = s.block_start(Self::BLOCK_SEQ);
        let (v, s) = Self::parse_body(s);
        (v, s.block_end(end))
    }

    open spec fn tokens(v: UIView) -> Seq<Token> {
        framed(Self::BLOCK_SEQ, Self::body_tokens(v))
    }

    open spec fn fits(v: UIView) -> bool {
        Self::body_fits(v) && width(Self::body_tokens(v)) <= u32::MAX
    }

    open spec fn canonical(v: UIView) -> bool {
        &&& Self::versions().contains(v.version)
        &&& v.unknowns.len() == 5
        &&& items_canonical::<UIUnknown>(v.unknowns)
        &&& v.version >= 7 || (v.num_skill_set == 1 && v.slots_per_set == Self::legacy_slots(
            v.version,
        ))
        &&& v.skill_sets.len() == v.num_skill_set
        &&& UISkillSet::sets_canonical(v.skill_sets, v.version, v.slots_per_set as nat)
    }

    fn read(&mut self, f: &mut GDFile) -> (r: Result<(), FileError>) {
        broadcast use group_sticks, group_records_stick, auto_sets_stick;

        proof {
            reveal(UI::parse_body);
        }
        let mut b = Block::default();
        f.read_block_start(&mut b, Self::BLOCK_SEQ)?;
        let accepted: [u32; 4] = [4, 5, 6, 7];
        assert(accepted@ =~= Self::versions());
        let version = f.read_version(accepted.as_slice())?;
        let unknown1 = f.read_byte()?;
        let unknown2 = f.read_int()?;
        let unknown3 = f.read_byte()?;
        let unknowns = fill_array(
            f.read_arr::<UIUnknown>(5)?,
            [
                UIUnknown::default(),
                UIUnknown::default(),
                UIUnknown::default(),
                UIUnknown::default(),
                UIUnknown::default(),
            ],
        );
        let num_skill_set = if version >= 7 {
            f.read_int()?
        } else {
            1
        };
        let slots_per_set = if version >= 7 {
            f.read_int()?
        } else if version >= 6 {
            47
        } else if version == 5 {
            46
        } else {
            36
        };
        let ghost from = f@;
        let mut skill_sets: Vec<UISkillSet> = Vec::new();
        let mut i: u32 = 0;
        while i < num_skill_set
            invariant
                i <= num_skill_set,
                f.wf(),
                UI::parse_body(old(f)@.block_start(UI::BLOCK_SEQ).1).1 == UISkillSet::parse_sets(
                    from,
                    version,
                    slots_per_set as nat,
                    num_skill_set as nat,
                ).1.word().1,
                old(f)@.block_start(UI::BLOCK_SEQ).0 == b.end,
                UISkillSet::parse_sets(from, version, slots_per_set as nat, i as nat) == (
                    views(skill_sets@),
                    f@,
                ),
            decreases num_skill_set - i,
        {
            let ghost at = f@;
            let mut set = UISkillSet::with_slots(slots_per_set as usize);
            match set.read(version, slots_per_set as usize, f) {
                Ok(()) => {},
                Err(e) => {
                    proof {
                        assert(UISkillSet::parse_sets(
                            from,
                            version,
                            slots_per_set as nat,
                            (i + 1) as nat,
                        ).1 == UISkillSet::parse_in(at, version, slots_per_set as nat).1);
                        UISkillSet::lemma_sets_stick(
                            from,
                            version,
                            slots_per_set as nat,
                            (i + 1) as nat,
                            num_skill_set as nat,
                        );
                    }
                    broadcast use group_sticks;

                    return Err(e);
                },
            }
            proof {
                assert(views(skill_sets@).push(set@) =~= views(skill_sets@.push(set)));
            }
            skill_sets.push(set);
            i = i + 1;
        }
        let camera_distance = f.read_float()?;
        f.read_block_end(&mut b)?;
        *self = UI {
            version,
            unknown1,
            unknown2,
            unknown3,
            unknowns,
            camera_distance,
            num_skill_set,
            slots_per_set,
            skill_sets,
        };
        Ok(())
    }

    fn write(&self, f: &mut GDFile) -> (r: Result<(), FileError>) {
        broadcast use group_emit;

        proof {
            reveal(UI::body_tokens);
        }
        let ghost start = f@;
        let mut b = Block::default();
        f.write_block_start(&mut b, Self::BLOCK_SEQ);
        f.write_int(self.version);
        f.write_byte(self.unknown1);
        f.write_int(self.unknown2);
        f.write_byte(self.unknown3);
        f.write_arr(self.unknowns.as_slice())?;
        if self.version >= 7 {
            f.write_int(self.num_skill_set);
            f.write_int(self.slots_per_set);
        }
        let ghost all = views(self.skill_sets@);
        let ghost from = f@;
        let mut i: usize = 0;
        while i < self.skill_sets.len()
            invariant
                i <= self.skill_sets.len(),
                f.wf(),
                all == views(self.skill_sets@),
                f@ == from.emit(UISkillSet::sets_tokens(all.take(i as int), self.version)),
                UISkillSet::sets_fit(all.take(i as int)),
            decreases self.skill_sets.len() - i,
        {
            broadcast use group_emit;

            proof {
                assert(all.take(i + 1).drop_last() =~= all.take(i as int));
                assert(all.take(i + 1).last() == self.skill_sets@[i as int]@);
            }
            match self.skill_sets[i].write(self.version, f) {
                Ok(()) => {},
                Err(e) => {
                    assert(!UISkillSet::fits(all[i as int]));
                    return Err(e);
                },
            }
            proof {
                assert forall|j: int| 0 <= j < i + 1 implies UISkillSet::fits(
                    #[trigger] all.take(i + 1)[j],
                ) by {
                    if j < i {
                        assert(all.take(i as int)[j] == all.take(i + 1)[j]);
                    }
                }
            }
            i = i + 1;
        }
        assert(all.take(i as int) =~= all);
        f.write_float(self.camera_distance);
        proof {
            lemma_frame_written(start, Self::BLOCK_SEQ, Self::body_tokens(self@));
        }
        f.write_block_end(&mut b)
    }

    proof fn lemma_fault_sticks(s: Stream) {
        broadcast use group_sticks, group_records_stick, auto_sets_stick;

        reveal(UI::parse_body);
    }

    proof fn lemma_read_back(s: Stream, v: UIView) {
        broadcast use group_gaps, group_read_back, group_records_held, auto_sets_held;

        reveal(UI::parse_body);
        reveal(UI::body_tokens);
        lemma_frame_read_back(s, Self::BLOCK_SEQ, Self::body_tokens(v));
    }

    proof fn lemma_write_back(s: Stream) {
        broadcast use
            group_gaps,
            group_sticks,
            group_records_stick,
            group_write_back,
            group_records_read,
            auto_sets_stick,
            auto_sets_read,
        ;

        reveal(UI::parse_body);
        reveal(UI::body_tokens);
        let inner = s.block_start(Self::BLOCK_SEQ).1;
        lemma_frame_write_back(s, Self::BLOCK_SEQ, Self::body_tokens(Self::parse_body(inner).0));
    }
}

} // verus!
