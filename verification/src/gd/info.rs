//! What a save file says of the game in progress, and the attributes of the
//! character.

use crate::gd::gd_file::{
    group_records_held, group_records_read, group_records_stick, items_canonical, lemma_views_empty,
    list_fits, list_tokens, parse_list, views, wrote, Block, Fault, FileError, GDFile, ReadWrite,
};
use crate::gd::wire::{
    framed, group_emit, group_gaps, group_read_back, group_sticks, group_widths, group_write_back,
    lemma_block_end_position, lemma_frame_bounds, lemma_frame_read_back, lemma_frame_write_back,
    lemma_frame_written, string_fits, string_tokens, width, Stream, Token,
};
use vstd::prelude::*;
use vstd::std_specs::convert::FromSpecImpl;

verus! {

/// The difficulty of the main campaign.
#[derive(Debug, Clone, Copy, PartialEq, Eq)]
pub enum Difficulty {
    Normal,
    Elite,
    Ultimate,
}

impl Difficulty {
    /// The difficulty of a game that has not been read yet.
    pub open spec fn blank() -> Difficulty {
        Difficulty::Normal
    }

    /// The difficulty that a byte of a file stands for. A byte that is no
    /// known code stands for the first difficulty.
    pub open spec fn of_code(t: u8) -> Difficulty {
        if t == 1 {
            Difficulty::Elite
        } else if t == 2 {
            Difficulty::Ultimate
        } else {
            Difficulty::Normal
        }
    }

    /// The byte that stands for the difficulty in a file.
    pub open spec fn code_of(self) -> u8 {
        match self {
            Difficulty::Normal => 0,
            Difficulty::Elite => 1,
            Difficulty::Ultimate => 2,
        }
    }

    /// What a reader makes of the byte at the cursor.
    pub open spec fn parse(s: Stream) -> (Difficulty, Stream) {
        let (code, s) = s.byte();
        (Self::of_code(code), s)
    }

    /// The byte that stands for the difficulty, as a token.
    pub open spec fn tokens(v: Difficulty) -> Seq<Token> {
        seq![Token::Byte(v.code_of())]
    }

    /// Every difficulty can be written.
    pub open spec fn fits(v: Difficulty) -> bool {
        true
    }

    /// Every difficulty is one that reading yields.
    pub open spec fn canonical(v: Difficulty) -> bool {
        true
    }

    /// Reads the difficulty at the cursor. On failure it is left as it was.
    pub fn read(&mut self, f: &mut GDFile) -> (r: Result<(), FileError>)
        requires
            old(f).wf(),
        ensures
            final(f).wf(),
            match r {
                Ok(()) => Self::parse(old(f)@) == (*final(self), final(f)@),
                Err(e) => Self::parse(old(f)@).1 == final(f)@.fail(e@) && *final(self)
                    == *old(self),
            },
    {
        let code = f.read_byte()?;
        *self = Difficulty::from(code);
        Ok(())
    }

    /// Writes the difficulty at the end of the file.
    pub fn write(&self, f: &mut GDFile) -> (r: Result<(), FileError>)
        requires
            old(f).wf(),
        ensures
            final(f).wf(),
            wrote(old(f)@, Self::tokens(*self), true, r, final(f)@),
    {
        f.write_byte(u8::from(*self));
        Ok(())
    }
}

impl Default for Difficulty {
    fn default() -> (r: Difficulty)
        ensures
            r == Difficulty::blank(),
    {
        Difficulty::Normal
    }
}

impl View for Difficulty {
    type V = Difficulty;

    open spec fn view(&self) -> Difficulty {
        *self
    }
}

impl From<u8> for Difficulty {
    fn from(t: u8) -> (r: Difficulty) {
        match t {
            1 => Difficulty::Elite,
            2 => Difficulty::Ultimate,
            _ => Difficulty::Normal,
        }
    }
}

impl FromSpecImpl<u8> for Difficulty {
    open spec fn obeys_from_spec() -> bool {
        true
    }

    open spec fn from_spec(t: u8) -> Difficulty {
        Difficulty::of_code(t)
    }
}

impl From<Difficulty> for u8 {
    fn from(t: Difficulty) -> (r: u8) {
        match t {
            Difficulty::Normal => 0,
            Difficulty::Elite => 1,
            Difficulty::Ultimate => 2,
        }
    }
}

impl FromSpecImpl<Difficulty> for u8 {
    open spec fn obeys_from_spec() -> bool {
        true
    }

    open spec fn from_spec(t: Difficulty) -> u8 {
        t.code_of()
    }
}

/// The difficulty of the Crucible.
#[derive(Debug, Clone, Copy, PartialEq, Eq)]
pub enum CrucibleDifficulty {
    Aspirant,
    Challenger,
    Gladiator,
}

impl CrucibleDifficulty {
    /// The difficulty of a game that has not been read yet.
    pub open spec fn blank() -> CrucibleDifficulty {
        CrucibleDifficulty::Aspirant
    }

    /// The difficulty that a byte of a file stands for. A byte that is no
    /// known code stands for the first difficulty.
    pub open spec fn of_code(t: u8) -> CrucibleDifficulty {
        if t == 1 {
            CrucibleDifficulty::Challenger
        } else if t == 2 {
            CrucibleDifficulty::Gladiator
        } else {
            CrucibleDifficulty::Aspirant
        }
    }

    /// The byte that stands for the difficulty in a file.
    pub open spec fn code_of(self) -> u8 {
        match self {
            CrucibleDifficulty::Aspirant => 0,
            CrucibleDifficulty::Challenger => 1,
            CrucibleDifficulty::Gladiator => 2,
        }
    }

    /// What a reader makes of the byte at the cursor.
    pub open spec fn parse(s: Stream) -> (CrucibleDifficulty, Stream) {
        let (code, s) = s.byte();
        (Self::of_code(code), s)
    }

    /// The byte that stands for the difficulty, as a token.
    pub open spec fn tokens(v: CrucibleDifficulty) -> Seq<Token> {
        seq![Token::Byte(v.code_of())]
    }

    /// Every difficulty can be written.
    pub open spec fn fits(v: CrucibleDifficulty) -> bool {
        true
    }

    /// Every difficulty is one that reading yields.
    pub open spec fn canonical(v: CrucibleDifficulty) -> bool {
        true
    }

    /// Reads the difficulty at the cursor. On failure it is left as it was.
    pub fn read(&mut self, f: &mut GDFile) -> (r: Result<(), FileError>)
        requires
            old(f).wf(),
        ensures
            final(f).wf(),
            match r {
                Ok(()) => Self::parse(old(f)@) == (*final(self), final(f)@),
                Err(e) => Self::parse(old(f)@).1 == final(f)@.fail(e@) && *final(self)
                    == *old(self),
            },
    {
        let code = f.read_byte()?;
        *self = CrucibleDifficulty::from(code);
        Ok(())
    }

    /// Writes the difficulty at the end of the file.
    pub fn write(&self, f: &mut GDFile) -> (r: Result<(), FileError>)
        requires
            old(f).wf(),
        ensures
            final(f).wf(),
            wrote(old(f)@, Self::tokens(*self), true, r, final(f)@),
    {
        f.write_byte(u8::from(*self));
        Ok(())
    }
}

impl Default for CrucibleDifficulty {
    fn default() -> (r: CrucibleDifficulty)
        ensures
            r == CrucibleDifficulty::blank(),
    {
        CrucibleDifficulty::Aspirant
    }
}

impl View for CrucibleDifficulty {
    type V = CrucibleDifficulty;

    open spec fn view(&self) -> CrucibleDifficulty {
        *self
    }
}

impl From<u8> for CrucibleDifficulty {
    fn from(t: u8) -> (r: CrucibleDifficulty) {
        match t {
            1 => CrucibleDifficulty::Challenger,
            2 => CrucibleDifficulty::Gladiator,
            _ => CrucibleDifficulty::Aspirant,
        }
    }
}

impl FromSpecImpl<u8> for CrucibleDifficulty {
    open spec fn obeys_from_spec() -> bool {
        true
    }

    open spec fn from_spec(t: u8) -> CrucibleDifficulty {
        CrucibleDifficulty::of_code(t)
    }
}

impl From<CrucibleDifficulty> for u8 {
    fn from(t: CrucibleDifficulty) -> (r: u8) {
        match t {
            CrucibleDifficulty::Aspirant => 0,
            CrucibleDifficulty::Challenger => 1,
            CrucibleDifficulty::Gladiator => 2,
        }
    }
}

impl FromSpecImpl<CrucibleDifficulty> for u8 {
    open spec fn obeys_from_spec() -> bool {
        true
    }

    open spec fn from_spec(t: CrucibleDifficulty) -> u8 {
        t.code_of()
    }
}

/// What a save file says of the game in progress.
#[derive(Debug, Clone, PartialEq, Eq)]
pub struct Info {
    pub greatest_difficulty: Difficulty,
    pub greatest_crucible_difficulty: CrucibleDifficulty,
    pub money: u32,
    pub difficulty: Difficulty,
    pub alternate_config: u8,
    pub alternate_config_enabled: u8,
    pub compass_state: u8,
    pub current_tribute: u32,
    pub has_been_in_game: u8,
    pub is_in_main_quest: u8,
    pub loot_filters: Vec<u8>,
    pub loot_mode: u32,
    pub skill_window_show_help: u8,
    pub texture: String,
    pub version: u32,
}

/// The mathematical value of an [`Info`].
pub struct InfoView {
    pub greatest_difficulty: Difficulty,
    pub greatest_crucible_difficulty: CrucibleDifficulty,
    pub money: u32,
    pub difficulty: Difficulty,
    pub alternate_config: u8,
    pub alternate_config_enabled: u8,
    pub compass_state: u8,
    pub current_tribute: u32,
    pub has_been_in_game: u8,
    pub is_in_main_quest: u8,
    pub loot_filters: Seq<u8>,
    pub loot_mode: u32,
    pub skill_window_show_help: u8,
    pub texture: Seq<char>,
    pub version: u32,
}

impl Info {
    /// The sequence id of the block.
    pub const BLOCK_SEQ: u32 = 1;

    /// The versions a reader accepts.
    pub open spec fn versions() -> Seq<u32> {
        seq![3u32, 4u32, 5u32]
    }

    /// The record whose every field is empty or zero.
    pub open spec fn blank() -> InfoView {
        InfoView {
            greatest_difficulty: Difficulty::blank(),
            greatest_crucible_difficulty: CrucibleDifficulty::blank(),
            money: 0,
            difficulty: Difficulty::blank(),
            alternate_config: 0,
            alternate_config_enabled: 0,
            compass_state: 0,
            current_tribute: 0,
            has_been_in_game: 0,
            is_in_main_quest: 0,
            loot_filters: Seq::empty(),
            loot_mode: 0,
            skill_window_show_help: 0,
            texture: Seq::empty(),
            version: 0,
        }
    }

    /// What a reader makes of the fields of the record.
    #[verifier::opaque]
    pub open spec fn parse_body(s: Stream) -> (InfoView, Stream) {
        let (version, s) = s.version(Self::versions());
        let (is_in_main_quest, s) = s.byte();
        let (has_been_in_game, s) = s.byte();
        let (difficulty, s) = Difficulty::parse(s);
        let (greatest_difficulty, s) = Difficulty::parse(s);
        let (money, s) = s.word();
        let (greatest_crucible_difficulty, current_tribute, s) = if version >= 4 {
            let (greatest_crucible_difficulty, s) = CrucibleDifficulty::parse(s);
            let (current_tribute, s) = s.word();
            (greatest_crucible_difficulty, current_tribute, s)
        } else {
            (CrucibleDifficulty::blank(), 0u32, s)
        };
        let (compass_state, s) = s.byte();
        let (loot_mode, s) = if version >= 2 && version <= 4 {
            s.word()
        } else {
            (0, s)
        };
        let (skill_window_show_help, s) = s.byte();
        let (alternate_config, s) = s.byte();
        let (alternate_config_enabled, s) = s.byte();
        let (texture, s) = s.string();
        let (loot_filters, s) = if version >= 5 {
            parse_list::<u8>(s)
        } else {
            (Seq::empty(), s)
        };
        (
            InfoView {
                greatest_difficulty,
                greatest_crucible_difficulty,
                money,
                difficulty,
                alternate_config,
                alternate_config_enabled,
                compass_state,
                current_tribute,
                has_been_in_game,
                is_in_main_quest,
                loot_filters,
                loot_mode,
                skill_window_show_help,
                texture,
                version,
            },
            s,
        )
    }

    /// The fields of the record, in file order.
    #[verifier::opaque]
    pub open spec fn body_tokens(v: InfoView) -> Seq<Token> {
        seq![Token::Word(v.version)]
            + seq![Token::Byte(v.is_in_main_quest)]
            + seq![Token::Byte(v.has_been_in_game)]
            + Difficulty::tokens(v.difficulty)
            + Difficulty::tokens(v.greatest_difficulty)
            + seq![Token::Word(v.money)]
            + (if v.version >= 4 {
                CrucibleDifficulty::tokens(v.greatest_crucible_difficulty)
                    + seq![Token::Word(v.current_tribute)]
            } else {
                Seq::empty()
            })
            + seq![Token::Byte(v.compass_state)]
            + (if v.version >= 2 && v.version <= 4 {
                seq![Token::Word(v.loot_mode)]
            } else {
                Seq::empty()
            })
            + seq![Token::Byte(v.skill_window_show_help)]
            + seq![Token::Byte(v.alternate_config)]
            + seq![Token::Byte(v.alternate_config_enabled)]
            + string_tokens(v.texture)
            + (if v.version >= 5 {
                list_tokens::<u8>(v.loot_filters)
            } else {
                Seq::empty()
            })
    }

    /// The fields of the record can be written.
    pub open spec fn body_fits(v: InfoView) -> bool {
        &&& Difficulty::fits(v.difficulty)
        &&& Difficulty::fits(v.greatest_difficulty)
        &&& (v.version >= 4 ==> CrucibleDifficulty::fits(v.greatest_crucible_difficulty))
        &&& string_fits(v.texture)
        &&& (v.version >= 5 ==> list_fits::<u8>(v.loot_filters))
    }

    /// Nothing is lost in reading the block at the cursor: its difficulty
    /// codes are known codes, so that writing gives them back.
    pub open spec fn lossless(s: Stream) -> bool {
        let (end, s) = s.block_start(Self::BLOCK_SEQ);
        let (version, s) = s.version(Self::versions());
        let (is_in_main_quest, s) = s.byte();
        let (has_been_in_game, s) = s.byte();
        let (difficulty, s) = s.byte();
        let (greatest_difficulty, s) = s.byte();
        let (money, s) = s.word();
        let (greatest_crucible_difficulty, s) = if version >= 4 {
            s.byte()
        } else {
            (0u8, s)
        };
        difficulty <= 2 && greatest_difficulty <= 2 && greatest_crucible_difficulty <= 2
    }

    /// A record whose version is not an accepted one fails with that version,
    /// whatever follows it.
    pub proof fn lemma_version_gate(s: Stream)
        requires
            s.block_start(Self::BLOCK_SEQ).1.ok(),
            s.block_start(Self::BLOCK_SEQ).1.word().1.ok(),
            !Self::versions().contains(s.block_start(Self::BLOCK_SEQ).1.word().0),
        ensures
            Self::parse(s).1.fault == Some(
                Fault::UnsupportedVersion(
                    s.block_start(Self::BLOCK_SEQ).1.word().0,
                    Self::versions(),
                ),
            ),
    {
        broadcast use group_sticks, group_records_stick;

        reveal(Info::parse_body);
    }

    /// A block whose payload ends elsewhere than its length field announced
    /// fails with the offset reached and the offset announced.
    pub proof fn lemma_length_checked(s: Stream)
        requires
            Self::parse_body(s.block_start(Self::BLOCK_SEQ).1).1.ok(),
            Self::parse_body(s.block_start(Self::BLOCK_SEQ).1).1.pos != s.block_start(
                Self::BLOCK_SEQ,
            ).0,
        ensures
            Self::parse(s).1.fault == Some(
                Fault::IncorrectBlockEndPosition(
                    Self::parse_body(s.block_start(Self::BLOCK_SEQ).1).1.pos as u64,
                    s.block_start(Self::BLOCK_SEQ).0,
                ),
            ),
    {
        lemma_block_end_position(
            Self::parse_body(s.block_start(Self::BLOCK_SEQ).1).1,
            s.block_start(Self::BLOCK_SEQ).0,
        );
    }
}

impl View for Info {
    type V = InfoView;

    open spec fn view(&self) -> InfoView {
        InfoView {
            greatest_difficulty: self.greatest_difficulty@,
            greatest_crucible_difficulty: self.greatest_crucible_difficulty@,
            money: self.money,
            difficulty: self.difficulty@,
            alternate_config: self.alternate_config,
            alternate_config_enabled: self.alternate_config_enabled,
            compass_state: self.compass_state,
            current_tribute: self.current_tribute,
            has_been_in_game: self.has_been_in_game,
            is_in_main_quest: self.is_in_main_quest,
            loot_filters: views(self.loot_filters@),
            loot_mode: self.loot_mode,
            skill_window_show_help: self.skill_window_show_help,
            texture: self.texture@,
            version: self.version,
        }
    }
}

impl Default for Info {
    fn default() -> (r: Info)
        ensures
            r@ == Info::blank(),
    {
        let r = Info {
            greatest_difficulty: Difficulty::default(),
            greatest_crucible_difficulty: CrucibleDifficulty::default(),
            money: 0,
            difficulty: Difficulty::default(),
            alternate_config: 0,
            alternate_config_enabled: 0,
            compass_state: 0,
            current_tribute: 0,
            has_been_in_game: 0,
            is_in_main_quest: 0,
            loot_filters: Vec::new(),
            loot_mode: 0,
            skill_window_show_help: 0,
            texture: String::new(),
            version: 0,
        };
        proof {
            lemma_views_empty(r.loot_filters@);
        }
        r
    }
}

impl Info {
    /// What a reader makes of the bytes at the cursor: the record, and the
    /// stream behind it. A failure is recorded in the stream.
    pub open spec fn parse(s: Stream) -> (InfoView, Stream) {
        let (end, s) = s.block_start(Self::BLOCK_SEQ);
        let (v, s) = Self::parse_body(s);
        (v, s.block_end(end))
    }

    /// The plain values that make up the record, in file order.
    pub open spec fn tokens(v: InfoView) -> Seq<Token> {
        framed(Self::BLOCK_SEQ, Self::body_tokens(v))
    }

    /// The record can be written: its counts and block lengths fit in 32
    /// bits and its characters in their code units.
    pub open spec fn fits(v: InfoView) -> bool {
        Self::body_fits(v) && width(Self::body_tokens(v)) <= u32::MAX
    }

    /// The record is one that reading yields: its version is an accepted
    /// one, the fields that its version leaves out are empty, and its
    /// counts agree with its lists.
    pub open spec fn canonical(v: InfoView) -> bool {
        &&& Self::versions().contains(v.version)
        &&& Difficulty::canonical(v.difficulty)
        &&& Difficulty::canonical(v.greatest_difficulty)
        &&& (v.version >= 4 ==> CrucibleDifficulty::canonical(v.greatest_crucible_difficulty))
        &&& (v.version < 4 ==> {
            &&& v.greatest_crucible_difficulty == CrucibleDifficulty::blank()
            &&& v.current_tribute == 0
        })
        &&& (!(v.version >= 2 && v.version <= 4) ==> v.loot_mode == 0)
        &&& (v.version >= 5 ==> items_canonical::<u8>(v.loot_filters))
        &&& (v.version < 5 ==> v.loot_filters =~= Seq::<u8>::empty())
    }

    /// Reads the record at the cursor. On failure the record is left as it
    /// was, and the file stands where the failure was met.
    pub fn read(&mut self, f: &mut GDFile) -> (r: Result<(), FileError>)
        requires
            old(f).wf(),
        ensures
            final(f).wf(),
            match r {
                Ok(()) => Self::parse(old(f)@) == (final(self)@, final(f)@),
                Err(e) => Self::parse(old(f)@).1 == final(f)@.fail(e@) && *final(self)
                    == *old(self),
            },
    {
        broadcast use group_sticks, group_records_stick;

        proof {
            reveal(Info::parse_body);
        }
        let mut b = Block::default();
        f.read_block_start(&mut b, Self::BLOCK_SEQ)?;
        let accepted: [u32; 3] = [3, 4, 5];
        assert(accepted@ =~= Self::versions());
        let version = f.read_version(accepted.as_slice())?;
        let is_in_main_quest = f.read_byte()?;
        let has_been_in_game = f.read_byte()?;
        let mut difficulty = Difficulty::default();
        difficulty.read(f)?;
        let mut greatest_difficulty = Difficulty::default();
        greatest_difficulty.read(f)?;
        let money = f.read_int()?;
        let mut greatest_crucible_difficulty = CrucibleDifficulty::default();
        let mut current_tribute: u32 = 0;
        if version >= 4 {
            greatest_crucible_difficulty.read(f)?;
            current_tribute = f.read_int()?;
        }
        let compass_state = f.read_byte()?;
        let loot_mode = if version >= 2 && version <= 4 {
            f.read_int()?
        } else {
            0
        };
        let skill_window_show_help = f.read_byte()?;
        let alternate_config = f.read_byte()?;
        let alternate_config_enabled = f.read_byte()?;
        let texture = f.read_string()?;
        let loot_filters = if version >= 5 {
            f.read_vec::<u8>()?
        } else {
            Vec::new()
        };
        f.read_block_end(&mut b)?;
        proof {
            if version < 5 {
                lemma_views_empty(loot_filters@);
            }
        }
        *self = Info {
            greatest_difficulty,
            greatest_crucible_difficulty,
            money,
            difficulty,
            alternate_config,
            alternate_config_enabled,
            compass_state,
            current_tribute,
            has_been_in_game,
            is_in_main_quest,
            loot_filters,
            loot_mode,
            skill_window_show_help,
            texture,
            version,
        };
        Ok(())
    }

    /// Writes the record at the end of the file.
    pub fn write(&self, f: &mut GDFile) -> (r: Result<(), FileError>)
        requires
            old(f).wf(),
        ensures
            final(f).wf(),
            wrote(old(f)@, Self::tokens(self@), Self::fits(self@), r, final(f)@),
    {
        broadcast use group_emit;

        proof {
            reveal(Info::body_tokens);
        }
        let ghost start = f@;
        let mut b = Block::default();
        f.write_block_start(&mut b, Self::BLOCK_SEQ);
        f.write_int(self.version);
        f.write_byte(self.is_in_main_quest);
        f.write_byte(self.has_been_in_game);
        self.difficulty.write(f)?;
        self.greatest_difficulty.write(f)?;
        f.write_int(self.money);
        if self.version >= 4 {
            self.greatest_crucible_difficulty.write(f)?;
            f.write_int(self.current_tribute);
        }
        f.write_byte(self.compass_state);
        if self.version >= 2 && self.version <= 4 {
            f.write_int(self.loot_mode);
        }
        f.write_byte(self.skill_window_show_help);
        f.write_byte(self.alternate_config);
        f.write_byte(self.alternate_config_enabled);
        f.write_string(self.texture.as_str())?;
        if self.version >= 5 {
            f.write_vec(self.loot_filters.as_slice())?;
        }
        proof {
            lemma_frame_written(start, Self::BLOCK_SEQ, Self::body_tokens(self@));
        }
        f.write_block_end(&mut b)
    }

    /// Nothing is read from a stream that has failed.
    pub proof fn lemma_fault_sticks(s: Stream)
        requires
            !s.ok(),
        ensures
            Self::parse(s).1 == s,
    {
        broadcast use group_sticks, group_records_stick;

        reveal(Info::parse_body);
    }

    /// Reading what was written gives the record back.
    pub proof fn lemma_read_back(s: Stream, v: InfoView)
        requires
            s.wf(),
            s.ok(),
            Self::canonical(v),
            Self::fits(v),
            s.holds(Self::tokens(v)),
        ensures
            Self::parse(s) == (v, s.skip(Self::tokens(v))),
    {
        broadcast use group_gaps, group_read_back, group_records_held;

        reveal(Info::parse_body);
        reveal(Info::body_tokens);
        lemma_frame_read_back(s, Self::BLOCK_SEQ, Self::body_tokens(v));
    }

    /// Writing what was read gives the bytes back, where nothing was lost in
    /// reading.
    pub proof fn lemma_write_back(s: Stream)
        requires
            s.wf(),
            s.ok(),
            Self::parse(s).1.ok(),
            Self::lossless(s),
        ensures
            Self::canonical(Self::parse(s).0),
            Self::fits(Self::parse(s).0),
            s.holds(Self::tokens(Self::parse(s).0)),
            Self::parse(s).1 == s.skip(Self::tokens(Self::parse(s).0)),
            Self::parse(s).1.wf(),
    {
        broadcast use
            group_gaps,
            group_sticks,
            group_records_stick,
            group_write_back,
            group_records_read,
        ;

        reveal(Info::parse_body);
        reveal(Info::body_tokens);
        let inner = s.block_start(Self::BLOCK_SEQ).1;
        lemma_frame_write_back(
            s,
            Self::BLOCK_SEQ,
            Self::body_tokens(Self::parse_body(inner).0),
        );
    }

    /// What was read is a record that reading yields, and it can be written,
    /// whether or not something was lost in reading.
    pub proof fn lemma_read_canonical(s: Stream)
        requires
            s.wf(),
            s.ok(),
            Self::parse(s).1.ok(),
        ensures
            Self::canonical(Self::parse(s).0),
            Self::fits(Self::parse(s).0),
            Self::parse(s).1.wf(),
    {
        broadcast use
            group_gaps,
            group_sticks,
            group_records_stick,
            group_write_back,
            group_records_read,
            group_widths,
        ;

        reveal(Info::parse_body);
        reveal(Info::body_tokens);
        let inner = s.block_start(Self::BLOCK_SEQ).1;
        lemma_frame_bounds(s, Self::BLOCK_SEQ, Self::parse_body(inner).1);
    }
}

/// Ambient form of [`Info::lemma_fault_sticks`].
pub broadcast proof fn auto_info_sticks(s: Stream)
    requires
        !s.ok(),
    ensures
        (#[trigger] Info::parse(s)).1 == s,
{
    Info::lemma_fault_sticks(s);
}

/// Ambient form of [`Info::lemma_read_back`].
pub broadcast proof fn auto_info_held(s: Stream, v: InfoView)
    requires
        s.wf(),
        s.ok(),
        Info::canonical(v),
        Info::fits(v),
        #[trigger] s.holds(Info::tokens(v)),
    ensures
        Info::parse(s) == (v, s.skip(Info::tokens(v))),
{
    Info::lemma_read_back(s, v);
}

/// Ambient form of [`Info::lemma_write_back`].
pub broadcast proof fn auto_info_read(s: Stream)
    requires
        s.wf(),
        (#[trigger] Info::parse(s)).1.ok(),
        Info::lossless(s),
    ensures
        s.ok(),
        Info::canonical(Info::parse(s).0),
        Info::fits(Info::parse(s).0),
        s.holds(Info::tokens(Info::parse(s).0)),
        Info::parse(s).1 == s.skip(Info::tokens(Info::parse(s).0)),
        Info::parse(s).1.wf(),
{
    if !s.ok() {
        Info::lemma_fault_sticks(s);
    }
    Info::lemma_write_back(s);
}

/// Ambient form of [`Info::lemma_read_canonical`].
pub broadcast proof fn auto_info_canonical(s: Stream)
    requires
        s.wf(),
        (#[trigger] Info::parse(s)).1.ok(),
    ensures
        s.ok(),
        Info::canonical(Info::parse(s).0),
        Info::fits(Info::parse(s).0),
        Info::parse(s).1.wf(),
{
    if !s.ok() {
        Info::lemma_fault_sticks(s);
    }
    Info::lemma_read_canonical(s);
}

/// The attributes of a character and the points it has left to spend.
#[derive(Debug, Clone, PartialEq, Eq)]
pub struct Bio {
    pub experience: u32,
    pub skill_points: u32,
    /// A single-precision float, held as its bit pattern.
    pub physique: u32,
    /// A single-precision float, held as its bit pattern.
    pub cunning: u32,
    /// A single-precision float, held as its bit pattern.
    pub spirit: u32,
    pub attribute_points: u32,
    pub devotion_points: u32,
    /// A single-precision float, held as its bit pattern.
    pub health: u32,
    /// A single-precision float, held as its bit pattern.
    pub energy: u32,
    pub total_devotion: u32,
    pub level: u32,
    pub version: u32,
}

/// The mathematical value of a [`Bio`].
pub struct BioView {
    pub experience: u32,
    pub skill_points: u32,
    pub physique: u32,
    pub cunning: u32,
    pub spirit: u32,
    pub attribute_points: u32,
    pub devotion_points: u32,
    pub health: u32,
    pub energy: u32,
    pub total_devotion: u32,
    pub level: u32,
    pub version: u32,
}

impl Bio {
    /// The sequence id of the block.
    pub const BLOCK_SEQ: u32 = 2;

    /// The versions a reader accepts.
    pub open spec fn versions() -> Seq<u32> {
        seq![8u32]
    }

    /// The record whose every field is empty or zero.
    pub open spec fn blank() -> BioView {
        BioView {
            experience: 0,
            skill_points: 0,
            physique: 0,
            cunning: 0,
            spirit: 0,
            attribute_points: 0,
            devotion_points: 0,
            health: 0,
            energy: 0,
            total_devotion: 0,
            level: 0,
            version: 0,
        }
    }

    /// What a reader makes of the fields of the record.
    #[verifier::opaque]
    pub open spec fn parse_body(s: Stream) -> (BioView, Stream) {
        let (version, s) = s.version(Self::versions());
        let (level, s) = s.word();
        let (experience, s) = s.word();
        let (attribute_points, s) = s.word();
        let (skill_points, s) = s.word();
        let (devotion_points, s) = s.word();
        let (total_devotion, s) = s.word();
        let (physique, s) = s.word();
        let (cunning, s) = s.word();
        let (spirit, s) = s.word();
        let (health, s) = s.word();
        let (energy, s) = s.word();
        (
            BioView {
                experience,
                skill_points,
                physique,
                cunning,
                spirit,
                attribute_points,
                devotion_points,
                health,
                energy,
                total_devotion,
                level,
                version,
            },
            s,
        )
    }

    /// The fields of the record, in file order.
    #[verifier::opaque]
    pub open spec fn body_tokens(v: BioView) -> Seq<Token> {
        seq![Token::Word(8)]
            + seq![Token::Word(v.level)]
            + seq![Token::Word(v.experience)]
            + seq![Token::Word(v.attribute_points)]
            + seq![Token::Word(v.skill_points)]
            + seq![Token::Word(v.devotion_points)]
            + seq![Token::Word(v.total_devotion)]
            + seq![Token::Word(v.physique)]
            + seq![Token::Word(v.cunning)]
            + seq![Token::Word(v.spirit)]
            + seq![Token::Word(v.health)]
            + seq![Token::Word(v.energy)]
    }

    /// The fields of the record can be written.
    pub open spec fn body_fits(v: BioView) -> bool {
        true
    }

    /// A record whose version is not an accepted one fails with that version,
    /// whatever follows it.
    pub proof fn lemma_version_gate(s: Stream)
        requires
            s.block_start(Self::BLOCK_SEQ).1.ok(),
            s.block_start(Self::BLOCK_SEQ).1.word().1.ok(),
            !Self::versions().contains(s.block_start(Self::BLOCK_SEQ).1.word().0),
        ensures
            Self::parse(s).1.fault == Some(
                Fault::UnsupportedVersion(
                    s.block_start(Self::BLOCK_SEQ).1.word().0,
                    Self::versions(),
                ),
            ),
    {
        broadcast use group_sticks, group_records_stick;

        reveal(Bio::parse_body);
    }

    /// A block whose payload ends elsewhere than its length field announced
    /// fails with the offset reached and the offset announced.
    pub proof fn lemma_length_checked(s: Stream)
        requires
            Self::parse_body(s.block_start(Self::BLOCK_SEQ).1).1.ok(),
            Self::parse_body(s.block_start(Self::BLOCK_SEQ).1).1.pos != s.block_start(
                Self::BLOCK_SEQ,
            ).0,
        ensures
            Self::parse(s).1.fault == Some(
                Fault::IncorrectBlockEndPosition(
                    Self::parse_body(s.block_start(Self::BLOCK_SEQ).1).1.pos as u64,
                    s.block_start(Self::BLOCK_SEQ).0,
                ),
            ),
    {
        lemma_block_end_position(
            Self::parse_body(s.block_start(Self::BLOCK_SEQ).1).1,
            s.block_start(Self::BLOCK_SEQ).0,
        );
    }
}

impl View for Bio {
    type V = BioView;

    open spec fn view(&self) -> BioView {
        BioView {
            experience: self.experience,
            skill_points: self.skill_points,
            physique: self.physique,
            cunning: self.cunning,
            spirit: self.spirit,
            attribute_points: self.attribute_points,
            devotion_points: self.devotion_points,
            health: self.health,
            energy: self.energy,
            total_devotion: self.total_devotion,
            level: self.level,
            version: self.version,
        }
    }
}

impl Default for Bio {
    fn default() -> (r: Bio)
        ensures
            r@ == Bio::blank(),
    {
        Bio {
            experience: 0,
            skill_points: 0,
            physique: 0,
            cunning: 0,
            spirit: 0,
            attribute_points: 0,
            devotion_points: 0,
            health: 0,
            energy: 0,
            total_devotion: 0,
            level: 0,
            version: 0,
        }
    }
}

impl ReadWrite for Bio {
    open spec fn parse(s: Stream) -> (BioView, Stream) {
        let (end, s) = s.block_start(Self::BLOCK_SEQ);
        let (v, s) = Self::parse_body(s);
        (v, s.block_end(end))
    }

    open spec fn tokens(v: BioView) -> Seq<Token> {
        framed(Self::BLOCK_SEQ, Self::body_tokens(v))
    }

    open spec fn fits(v: BioView) -> bool {
        Self::body_fits(v) && width(Self::body_tokens(v)) <= u32::MAX
    }

    open spec fn canonical(v: BioView) -> bool {
        &&& Self::versions().contains(v.version)
    }

    fn read(&mut self, f: &mut GDFile) -> (r: Result<(), FileError>) {
        broadcast use group_sticks, group_records_stick;

        proof {
            reveal(Bio::parse_body);
        }
        let mut b = Block::default();
        f.read_block_start(&mut b, Self::BLOCK_SEQ)?;
        let accepted: [u32; 1] = [8];
        assert(accepted@ =~= Self::versions());
        let version = f.read_version(accepted.as_slice())?;
        let level = f.read_int()?;
        let experience = f.read_int()?;
        let attribute_points = f.read_int()?;
        let skill_points = f.read_int()?;
        let devotion_points = f.read_int()?;
        let total_devotion = f.read_int()?;
        let physique = f.read_float()?;
        let cunning = f.read_float()?;
        let spirit = f.read_float()?;
        let health = f.read_float()?;
        let energy = f.read_float()?;
        f.read_block_end(&mut b)?;
        *self = Bio {
            experience,
            skill_points,
            physique,
            cunning,
            spirit,
            attribute_points,
            devotion_points,
            health,
            energy,
            total_devotion,
            level,
            version,
        };
        Ok(())
    }

    fn write(&self, f: &mut GDFile) -> (r: Result<(), FileError>) {
        broadcast use group_emit;

        proof {
            reveal(Bio::body_tokens);
        }
        let ghost start = f@;
        let mut b = Block::default();
        f.write_block_start(&mut b, Self::BLOCK_SEQ);
        f.write_int(8);
        f.write_int(self.level);
        f.write_int(self.experience);
        f.write_int(self.attribute_points);
        f.write_int(self.skill_points);
        f.write_int(self.devotion_points);
        f.write_int(self.total_devotion);
        f.write_float(self.physique);
        f.write_float(self.cunning);
        f.write_float(self.spirit);
        f.write_float(self.health);
        f.write_float(self.energy);
        proof {
            lemma_frame_written(start, Self::BLOCK_SEQ, Self::body_tokens(self@));
        }
        f.write_block_end(&mut b)
    }

    proof fn lemma_fault_sticks(s: Stream) {
        broadcast use group_sticks, group_records_stick;

        reveal(Bio::parse_body);
    }

    proof fn lemma_read_back(s: Stream, v: BioView) {
        broadcast use group_read_back, group_records_held;

        reveal(Bio::parse_body);
        reveal(Bio::body_tokens);
        lemma_frame_read_back(s, Self::BLOCK_SEQ, Self::body_tokens(v));
    }

    proof fn lemma_write_back(s: Stream) {
        broadcast use group_sticks, group_records_stick, group_write_back, group_records_read;

        reveal(Bio::parse_body);
        reveal(Bio::body_tokens);
        let inner = s.block_start(Self::BLOCK_SEQ).1;
        lemma_frame_write_back(
            s,
            Self::BLOCK_SEQ,
            Self::body_tokens(Self::parse_body(inner).0),
        );
    }
}

} // verus!
