//! A character: the header of its save file and the blocks that follow it.

use crate::gd::gd_file::{
    group_records_held, group_records_read, group_records_stick, join_word, views, wrote, Fault,
    FileError, GDFile, ReadWrite,
};
use crate::gd::info::{
    auto_info_canonical, auto_info_held, auto_info_read, auto_info_sticks, Bio, BioView, Info,
    InfoView,
};
use crate::gd::inventory::{Inventory, InventoryView, Stash, StashView};
use crate::gd::keystream::{base_key, key_table, lemma_word_bytes_join, word_bytes, word_of};
use crate::gd::lists::{
    CharUID, MarkerList, RespawnList, RespawnListView, ShrineList, TeleportList, UidListsView,
};
use crate::gd::misc::{
    Crucible, CrucibleView, FactionList, FactionListView, NoteList, NoteListView, TutorialPages,
    TutorialPagesView, UI, UIView,
};
use crate::gd::skills::{Skill, SkillList, SkillListView, SkillView};
use crate::gd::stats::{Stats, StatsView};
use crate::gd::text::{contains, has_run, starts_with};
use crate::gd::wire::{
    encode, group_emit, group_gaps, group_read_back, group_sticks, group_write_back, lemma_concat,
    lemma_encode_len, lemma_holds_concat, lemma_one, lemma_raw_word, lemma_skip_wf, lemma_word,
    string_fits, string_tokens, width, wstring_fits, wstring_tokens, Stream, Token, MAGIC,
};
use vstd::prelude::*;
use vstd::std_specs::convert::TryFromSpecImpl;

verus! {

/// The sex of a character.
#[derive(Debug, Clone, Copy, PartialEq, Eq)]
pub enum Sex {
    Female,
    Male,
}

impl Sex {
    /// The sex of a character that has not been read yet.
    pub open spec fn blank() -> Sex {
        Sex::Female
    }

    /// The sex that a byte of a file stands for.
    pub open spec fn decode(t: u8) -> Result<Sex, FileError> {
        if t == 0 {
            Ok(Sex::Female)
        } else if t == 1 {
            Ok(Sex::Male)
        } else {
            Err(FileError::ParseSexError(t))
        }
    }

    /// The byte that stands for the sex in a file.
    pub open spec fn code_of(self) -> u8 {
        match self {
            Sex::Female => 0,
            Sex::Male => 1,
        }
    }

    /// The byte that stands for the sex in a file.
    pub fn code(self) -> (r: u8)
        ensures
            r == self.code_of(),
    {
        match self {
            Sex::Female => 0,
            Sex::Male => 1,
        }
    }
}

impl Default for Sex {
    fn default() -> (r: Sex)
        ensures
            r == Sex::blank(),
    {
        Sex::Female
    }
}

impl View for Sex {
    type V = Sex;

    open spec fn view(&self) -> Sex {
        *self
    }
}

impl TryFrom<u8> for Sex {
    type Error = FileError;

    fn try_from(t: u8) -> (r: Result<Sex, FileError>) {
        match t {
            0 => Ok(Sex::Female),
            1 => Ok(Sex::Male),
            _ => Err(FileError::ParseSexError(t)),
        }
    }
}

impl TryFromSpecImpl<u8> for Sex {
    open spec fn obeys_try_from_spec() -> bool {
        true
    }

    open spec fn try_from_spec(t: u8) -> Result<Sex, FileError> {
        Sex::decode(t)
    }
}

impl ReadWrite for Sex {
    open spec fn parse(s: Stream) -> (Sex, Stream) {
        let (code, s) = s.byte();
        match Sex::decode(code) {
            Ok(sex) => (sex, s),
            Err(e) => (Sex::blank(), s.fail(e@)),
        }
    }

    open spec fn tokens(v: Sex) -> Seq<Token> {
        seq![Token::Byte(v.code_of())]
    }

    open spec fn fits(v: Sex) -> bool {
        true
    }

    open spec fn canonical(v: Sex) -> bool {
        true
    }

    fn read(&mut self, f: &mut GDFile) -> (r: Result<(), FileError>) {
        let code = f.read_byte()?;
        match Sex::try_from(code) {
            Ok(sex) => {
                *self = sex;
                Ok(())
            },
            Err(e) => Err(e),
        }
    }

    fn write(&self, f: &mut GDFile) -> (r: Result<(), FileError>) {
        f.write_byte(self.code());
        Ok(())
    }

    proof fn lemma_fault_sticks(s: Stream) {
        broadcast use group_sticks;

    }

    proof fn lemma_read_back(s: Stream, v: Sex) {
        broadcast use group_read_back;

    }

    proof fn lemma_write_back(s: Stream) {
        broadcast use group_sticks, group_write_back;

    }
}

/// The expansions a character has been played with.
#[derive(Debug, Clone, Copy, PartialEq, Eq)]
pub enum ExpansionStatus {
    Vanilla,
    Crucible,
    ForgottenGods,
    AshesOfMalmouth,
}

impl ExpansionStatus {
    /// The status of a character that has not been read yet.
    pub open spec fn blank() -> ExpansionStatus {
        ExpansionStatus::Vanilla
    }

    /// The status that a byte of a file stands for.
    pub open spec fn decode(t: u8) -> Result<ExpansionStatus, FileError> {
        if t == 0 {
            Ok(ExpansionStatus::Vanilla)
        } else if t == 1 {
            Ok(ExpansionStatus::AshesOfMalmouth)
        } else if t == 2 {
            Ok(ExpansionStatus::Crucible)
        } else if t == 3 {
            Ok(ExpansionStatus::ForgottenGods)
        } else {
            Err(FileError::ParseExpansionStatusError(t))
        }
    }

    /// The byte that stands for the status in a file.
    pub open spec fn code_of(self) -> u8 {
        match self {
            ExpansionStatus::Vanilla => 0,
            ExpansionStatus::AshesOfMalmouth => 1,
            ExpansionStatus::Crucible => 2,
            ExpansionStatus::ForgottenGods => 3,
        }
    }

    /// The byte that stands for the status in a file.
    pub fn code(self) -> (r: u8)
        ensures
            r == self.code_of(),
    {
        match self {
            ExpansionStatus::Vanilla => 0,
            ExpansionStatus::AshesOfMalmouth => 1,
            ExpansionStatus::Crucible => 2,
            ExpansionStatus::ForgottenGods => 3,
        }
    }
}

impl Default for ExpansionStatus {
    fn default() -> (r: ExpansionStatus)
        ensures
            r == ExpansionStatus::blank(),
    {
        ExpansionStatus::Vanilla
    }
}

impl View for ExpansionStatus {
    type V = ExpansionStatus;

    open spec fn view(&self) -> ExpansionStatus {
        *self
    }
}

impl TryFrom<u8> for ExpansionStatus {
    type Error = FileError;

    fn try_from(t: u8) -> (r: Result<ExpansionStatus, FileError>) {
        match t {
            0 => Ok(ExpansionStatus::Vanilla),
            1 => Ok(ExpansionStatus::AshesOfMalmouth),
            2 => Ok(ExpansionStatus::Crucible),
            3 => Ok(ExpansionStatus::ForgottenGods),
            _ => Err(FileError::ParseExpansionStatusError(t)),
        }
    }
}

impl TryFromSpecImpl<u8> for ExpansionStatus {
    open spec fn obeys_try_from_spec() -> bool {
        true
    }

    open spec fn try_from_spec(t: u8) -> Result<ExpansionStatus, FileError> {
        ExpansionStatus::decode(t)
    }
}

impl ReadWrite for ExpansionStatus {
    open spec fn parse(s: Stream) -> (ExpansionStatus, Stream) {
        let (code, s) = s.byte();
        match ExpansionStatus::decode(code) {
            Ok(status) => (status, s),
            Err(e) => (ExpansionStatus::blank(), s.fail(e@)),
        }
    }

    open spec fn tokens(v: ExpansionStatus) -> Seq<Token> {
        seq![Token::Byte(v.code_of())]
    }

    open spec fn fits(v: ExpansionStatus) -> bool {
        true
    }

    open spec fn canonical(v: ExpansionStatus) -> bool {
        true
    }

    fn read(&mut self, f: &mut GDFile) -> (r: Result<(), FileError>) {
        let code = f.read_byte()?;
        match ExpansionStatus::try_from(code) {
            Ok(status) => {
                *self = status;
                Ok(())
            },
            Err(e) => Err(e),
        }
    }

    fn write(&self, f: &mut GDFile) -> (r: Result<(), FileError>) {
        f.write_byte(self.code());
        Ok(())
    }

    proof fn lemma_fault_sticks(s: Stream) {
        broadcast use group_sticks;

    }

    proof fn lemma_read_back(s: Stream, v: ExpansionStatus) {
        broadcast use group_read_back;

    }

    proof fn lemma_write_back(s: Stream) {
        broadcast use group_sticks, group_write_back;

    }
}

/// What a save file says of the character before its blocks begin.
#[derive(Debug, Clone, PartialEq, Eq)]
pub struct Header {
    pub name: String,
    pub sex: Sex,
    pub hardcore: u8,
    pub level: u32,
    pub expansion_status: ExpansionStatus,
    pub version: u32,
    pub class_id: String,
}

/// The mathematical value of a [`Header`].
pub struct HeaderView {
    pub name: Seq<char>,
    pub sex: Sex,
    pub hardcore: u8,
    pub level: u32,
    pub expansion_status: ExpansionStatus,
    pub version: u32,
    pub class_id: Seq<char>,
}

impl Header {
    /// The versions a reader accepts.
    pub open spec fn versions() -> Seq<u32> {
        seq![1u32, 2u32]
    }

    /// The record whose every field is empty or zero.
    pub open spec fn blank() -> HeaderView {
        HeaderView {
            name: Seq::empty(),
            sex: Sex::blank(),
            hardcore: 0,
            level: 0,
            expansion_status: ExpansionStatus::blank(),
            version: 0,
            class_id: Seq::empty(),
        }
    }

    /// What a reader makes of the fields of the record.
    #[verifier::opaque]
    pub open spec fn parse_body(s: Stream) -> (HeaderView, Stream) {
        let (version, s) = s.version(Self::versions());
        let (name, s) = s.wstring();
        let (sex, s) = Sex::parse(s);
        let (class_id, s) = s.string();
        let (level, s) = s.word();
        let (hardcore, s) = s.byte();
        let (expansion_status, s) = if version >= 2 {
            ExpansionStatus::parse(s)
        } else {
            (ExpansionStatus::blank(), s)
        };
        (
            HeaderView {
                name,
                sex,
                hardcore,
                level,
                expansion_status,
                version,
                class_id,
            },
            s,
        )
    }

    /// The fields of the record, in file order.
    #[verifier::opaque]
    pub open spec fn body_tokens(v: HeaderView) -> Seq<Token> {
        seq![Token::Word(v.version)]
            + wstring_tokens(v.name)
            + Sex::tokens(v.sex)
            + string_tokens(v.class_id)
            + seq![Token::Word(v.level)]
            + seq![Token::Byte(v.hardcore)]
            + (if v.version >= 2 {
                ExpansionStatus::tokens(v.expansion_status)
            } else {
                Seq::empty()
            })
    }

    /// The fields of the record can be written.
    pub open spec fn body_fits(v: HeaderView) -> bool {
        &&& wstring_fits(v.name)
        &&& Sex::fits(v.sex)
        &&& string_fits(v.class_id)
        &&& (v.version >= 2 ==> ExpansionStatus::fits(v.expansion_status))
    }

    /// A record whose version is not an accepted one fails with that version,
    /// whatever follows it.
    pub proof fn lemma_version_gate(s: Stream)
        requires
            s.ok(),
            s.word().1.ok(),
            !Self::versions().contains(s.word().0),
        ensures
            Self::parse(s).1.fault == Some(
                Fault::UnsupportedVersion(s.word().0, Self::versions()),
            ),
    {
        broadcast use group_sticks, group_records_stick;

        reveal(Header::parse_body);
    }
}

impl View for Header {
    type V = HeaderView;

    open spec fn view(&self) -> HeaderView {
        HeaderView {
            name: self.name@,
            sex: self.sex@,
            hardcore: self.hardcore,
            level: self.level,
            expansion_status: self.expansion_status@,
            version: self.version,
            class_id: self.class_id@,
        }
    }
}

impl Default for Header {
    fn default() -> (r: Header)
        ensures
            r@ == Header::blank(),
    {
        Header {
            name: String::new(),
            sex: Sex::default(),
            hardcore: 0,
            level: 0,
            expansion_status: ExpansionStatus::default(),
            version: 0,
            class_id: String::new(),
        }
    }
}

impl ReadWrite for Header {
    open spec fn parse(s: Stream) -> (HeaderView, Stream) {
        Self::parse_body(s)
    }

    open spec fn tokens(v: HeaderView) -> Seq<Token> {
        Self::body_tokens(v)
    }

    open spec fn fits(v: HeaderView) -> bool {
        Self::body_fits(v)
    }

    open spec fn canonical(v: HeaderView) -> bool {
        &&& Self::versions().contains(v.version)
        &&& Sex::canonical(v.sex)
        &&& (v.version >= 2 ==> ExpansionStatus::canonical(v.expansion_status))
        &&& (v.version < 2 ==> v.expansion_status == ExpansionStatus::blank())
    }

    fn read(&mut self, f: &mut GDFile) -> (r: Result<(), FileError>) {
        broadcast use group_sticks, group_records_stick;

        proof {
            reveal(Header::parse_body);
        }
        let accepted: [u32; 2] = [1, 2];
        assert(accepted@ =~= Self::versions());
        let version = f.read_version(accepted.as_slice())?;
        let name = f.read_wstring()?;
        let mut sex = Sex::default();
        sex.read(f)?;
        let class_id = f.read_string()?;
        let level = f.read_int()?;
        let hardcore = f.read_byte()?;
        let mut expansion_status = ExpansionStatus::default();
        if version >= 2 {
            expansion_status.read(f)?;
        }
        *self = Header {
            name,
            sex,
            hardcore,
            level,
            expansion_status,
            version,
            class_id,
        };
        Ok(())
    }

    fn write(&self, f: &mut GDFile) -> (r: Result<(), FileError>) {
        broadcast use group_emit;

        proof {
            reveal(Header::body_tokens);
        }
        f.write_int(self.version);
        f.write_wstring(self.name.as_str())?;
        self.sex.write(f)?;
        f.write_string(self.class_id.as_str())?;
        f.write_int(self.level);
        f.write_byte(self.hardcore);
        if self.version >= 2 {
            self.expansion_status.write(f)?;
        }
        Ok(())
    }

    proof fn lemma_fault_sticks(s: Stream) {
        broadcast use group_sticks, group_records_stick;

        reveal(Header::parse_body);
    }

    proof fn lemma_read_back(s: Stream, v: HeaderView) {
        broadcast use group_gaps, group_read_back, group_records_held;

        reveal(Header::parse_body);
        reveal(Header::body_tokens);
    }

    proof fn lemma_write_back(s: Stream) {
        broadcast use
            group_gaps,
            group_sticks,
            group_records_stick,
            group_write_back,
            group_records_read,
        ;

        reveal(Header::parse_body);
        reveal(Header::body_tokens);
    }
}

/// A character, as its save file holds it.
#[derive(Debug, Clone, PartialEq, Eq)]
pub struct Char {
    pub header: Header,
    pub stats: Stats,
    pub bio: Bio,
    pub version: u32,
    pub uid: CharUID,
    pub info: Info,
    pub inventory: Inventory,
    pub stash: Stash,
    pub respawns: RespawnList,
    pub teleports: TeleportList,
    pub markers: MarkerList,
    pub shrines: ShrineList,
    pub skills: SkillList,
    pub notes: NoteList,
    pub factions: FactionList,
    pub ui: UI,
    pub tutorials: TutorialPages,
    pub crucible: Crucible,
    /// The seed of the file that the character was read from, and under which it is written.
    pub seed: u32,
}

/// The mathematical value of a [`Char`].
pub struct CharView {
    pub header: HeaderView,
    pub stats: StatsView,
    pub bio: BioView,
    pub version: u32,
    pub uid: Seq<u8>,
    pub info: InfoView,
    pub inventory: InventoryView,
    pub stash: StashView,
    pub respawns: RespawnListView,
    pub teleports: UidListsView,
    pub markers: UidListsView,
    pub shrines: UidListsView,
    pub skills: SkillListView,
    pub notes: NoteListView,
    pub factions: FactionListView,
    pub ui: UIView,
    pub tutorials: TutorialPagesView,
    pub crucible: CrucibleView,
    pub seed: u32,
}

impl Char {
    /// The versions a reader accepts.
    pub open spec fn versions() -> Seq<u32> {
        seq![6u32, 7u32, 8u32]
    }

    /// The record whose every field is empty or zero.
    pub open spec fn blank() -> CharView {
        CharView {
            header: Header::blank(),
            stats: Stats::blank(),
            bio: Bio::blank(),
            version: 0,
            uid: CharUID::blank(),
            info: Info::blank(),
            inventory: Inventory::blank(),
            stash: Stash::blank(),
            respawns: RespawnList::blank(),
            teleports: TeleportList::blank(),
            markers: MarkerList::blank(),
            shrines: ShrineList::blank(),
            skills: SkillList::blank(),
            notes: NoteList::blank(),
            factions: FactionList::blank(),
            ui: UI::blank(),
            tutorials: TutorialPages::blank(),
            crucible: Crucible::blank(),
            seed: PLAIN_SEED,
        }
    }

    /// What a reader makes of the fields of the record.
    #[verifier::opaque]
    pub open spec fn parse_body(s: Stream) -> (CharView, Stream) {
        let (header, s) = Header::parse(s);
        let (zero, s) = s.zero();
        let (version, s) = s.version(Self::versions());
        let (uid, s) = CharUID::parse(s);
        let (info, s) = Info::parse(s);
        let (bio, s) = Bio::parse(s);
        let (inventory, s) = Inventory::parse(s);
        let (stash, s) = Stash::parse(s);
        let (respawns, s) = RespawnList::parse(s);
        let (teleports, s) = TeleportList::parse(s);
        let (markers, s) = MarkerList::parse(s);
        let (shrines, s) = ShrineList::parse(s);
        let (skills, s) = SkillList::parse(s);
        let (notes, s) = NoteList::parse(s);
        let (factions, s) = FactionList::parse(s);
        let (ui, s) = UI::parse(s);
        let (tutorials, s) = TutorialPages::parse(s);
        let (stats, s) = Stats::parse(s);
        let (crucible, s) = if version >= 7 {
            Crucible::parse(s)
        } else {
            (Crucible::blank(), s)
        };
        (
            CharView {
                header,
                stats,
                bio,
                version,
                uid,
                info,
                inventory,
                stash,
                respawns,
                teleports,
                markers,
                shrines,
                skills,
                notes,
                factions,
                ui,
                tutorials,
                crucible,
                seed: PLAIN_SEED,
            },
            s,
        )
    }

    /// The fields of the record, in file order.
    #[verifier::opaque]
    pub open spec fn body_tokens(v: CharView) -> Seq<Token> {
        Header::tokens(v.header)
            + seq![Token::Mark(0)]
            + seq![Token::Word(v.version)]
            + CharUID::tokens(v.uid)
            + Info::tokens(v.info)
            + Bio::tokens(v.bio)
            + Inventory::tokens(v.inventory)
            + Stash::tokens(v.stash)
            + RespawnList::tokens(v.respawns)
            + TeleportList::tokens(v.teleports)
            + MarkerList::tokens(v.markers)
            + ShrineList::tokens(v.shrines)
            + SkillList::tokens(v.skills)
            + NoteList::tokens(v.notes)
            + FactionList::tokens(v.factions)
            + UI::tokens(v.ui)
            + TutorialPages::tokens(v.tutorials)
            + Stats::tokens(v.stats)
            + (if v.version >= 7 {
                Crucible::tokens(v.crucible)
            } else {
                Seq::empty()
            })
    }

    /// The fields of the record can be written.
    pub open spec fn body_fits(v: CharView) -> bool {
        &&& Header::fits(v.header)
        &&& Info::fits(v.info)
        &&& Bio::fits(v.bio)
        &&& Inventory::fits(v.inventory)
        &&& Stash::fits(v.stash)
        &&& RespawnList::fits(v.respawns)
        &&& TeleportList::fits(v.teleports)
        &&& MarkerList::fits(v.markers)
        &&& ShrineList::fits(v.shrines)
        &&& SkillList::fits(v.skills)
        &&& NoteList::fits(v.notes)
        &&& FactionList::fits(v.factions)
        &&& UI::fits(v.ui)
        &&& TutorialPages::fits(v.tutorials)
        &&& Stats::fits(v.stats)
        &&& (v.version >= 7 ==> Crucible::fits(v.crucible))
    }

    /// Nothing is lost in reading the blocks at the cursor: the difficulty
    /// codes of the first block are known codes.
    pub open spec fn lossless(s: Stream) -> bool {
        let (header, s) = Header::parse(s);
        let (zero, s) = s.zero();
        let (version, s) = s.version(Self::versions());
        let (uid, s) = CharUID::parse(s);
        Info::lossless(s)
    }
}

impl View for Char {
    type V = CharView;

    open spec fn view(&self) -> CharView {
        CharView {
            header: self.header@,
            stats: self.stats@,
            bio: self.bio@,
            version: self.version,
            uid: self.uid@,
            info: self.info@,
            inventory: self.inventory@,
            stash: self.stash@,
            respawns: self.respawns@,
            teleports: self.teleports@,
            markers: self.markers@,
            shrines: self.shrines@,
            skills: self.skills@,
            notes: self.notes@,
            factions: self.factions@,
            ui: self.ui@,
            tutorials: self.tutorials@,
            crucible: self.crucible@,
            seed: self.seed,
        }
    }
}

impl Default for Char {
    fn default() -> (r: Char)
        ensures
            r@ == Char::blank(),
    {
        Char {
            header: Header::default(),
            stats: Stats::default(),
            bio: Bio::default(),
            version: 0,
            uid: CharUID::default(),
            info: Info::default(),
            inventory: Inventory::default(),
            stash: Stash::default(),
            respawns: RespawnList::default(),
            teleports: TeleportList::default(),
            markers: MarkerList::default(),
            shrines: ShrineList::default(),
            skills: SkillList::default(),
            notes: NoteList::default(),
            factions: FactionList::default(),
            ui: UI::default(),
            tutorials: TutorialPages::default(),
            crucible: Crucible::default(),
            seed: PLAIN_SEED,
        }
    }
}

impl Char {
    /// The record is one that reading yields: its version is an accepted
    /// one, the fields that its version leaves out are empty, and its
    /// counts agree with its lists.
    pub open spec fn canonical(v: CharView) -> bool {
        &&& v.seed == PLAIN_SEED
        &&& Header::canonical(v.header)
        &&& Self::versions().contains(v.version)
        &&& CharUID::canonical(v.uid)
        &&& Info::canonical(v.info)
        &&& Bio::canonical(v.bio)
        &&& Inventory::canonical(v.inventory)
        &&& Stash::canonical(v.stash)
        &&& RespawnList::canonical(v.respawns)
        &&& TeleportList::canonical(v.teleports)
        &&& MarkerList::canonical(v.markers)
        &&& ShrineList::canonical(v.shrines)
        &&& SkillList::canonical(v.skills)
        &&& NoteList::canonical(v.notes)
        &&& FactionList::canonical(v.factions)
        &&& UI::canonical(v.ui)
        &&& TutorialPages::canonical(v.tutorials)
        &&& Stats::canonical(v.stats)
        &&& (v.version >= 7 ==> Crucible::canonical(v.crucible))
        &&& (v.version < 7 ==> v.crucible == Crucible::blank())
    }

    /// Reads the header and the blocks at the cursor. On failure the character
    /// is left as it was, and the file stands where the failure was met.
    pub fn read_body(&mut self, f: &mut GDFile) -> (r: Result<(), FileError>)
        requires
            old(f).wf(),
        ensures
            final(f).wf(),
            match r {
                Ok(()) => Self::parse_body(old(f)@) == (final(self)@, final(f)@),
                Err(e) => Self::parse_body(old(f)@).1 == final(f)@.fail(e@) && *final(self)
                    == *old(self),
            },
    {
        broadcast use group_sticks, group_records_stick, auto_info_sticks;

        proof {
            reveal(Char::parse_body);
        }
        let seed: u32 = PLAIN_SEED;
        let mut header = Header::default();
        header.read(f)?;
        let zero = f.next_int()?;
        if zero != 0 {
            return Err(FileError::FailedToValidateBlockEnding(zero, 0));
        }
        let accepted: [u32; 3] = [6, 7, 8];
        assert(accepted@ =~= Self::versions());
        let version = f.read_version(accepted.as_slice())?;
        let mut uid = CharUID::default();
        uid.read(f)?;
        let mut info = Info::default();
        info.read(f)?;
        let mut bio = Bio::default();
        bio.read(f)?;
        let mut inventory = Inventory::default();
        inventory.read(f)?;
        let mut stash = Stash::default();
        stash.read(f)?;
        let mut respawns = RespawnList::default();
        respawns.read(f)?;
        let mut teleports = TeleportList::default();
        teleports.read(f)?;
        let mut markers = MarkerList::default();
        markers.read(f)?;
        let mut shrines = ShrineList::default();
        shrines.read(f)?;
        let mut skills = SkillList::default();
        skills.read(f)?;
        let mut notes = NoteList::default();
        notes.read(f)?;
        let mut factions = FactionList::default();
        factions.read(f)?;
        let mut ui = UI::default();
        ui.read(f)?;
        let mut tutorials = TutorialPages::default();
        tutorials.read(f)?;
        let mut stats = Stats::default();
        stats.read(f)?;
        let mut crucible = Crucible::default();
        if version >= 7 {
            crucible.read(f)?;
        }
        *self = Char {
            header,
            stats,
            bio,
            version,
            uid,
            info,
            inventory,
            stash,
            respawns,
            teleports,
            markers,
            shrines,
            skills,
            notes,
            factions,
            ui,
            tutorials,
            crucible,
            seed,
        };
        Ok(())
    }

    /// Writes the header and the blocks at the end of the file.
    pub fn write_body(&self, f: &mut GDFile) -> (r: Result<(), FileError>)
        requires
            old(f).wf(),
        ensures
            final(f).wf(),
            wrote(old(f)@, Self::body_tokens(self@), Self::body_fits(self@), r, final(f)@),
    {
        broadcast use group_emit;

        proof {
            reveal(Char::body_tokens);
        }
        self.header.write(f)?;
        f.write_mark(0);
        f.write_int(self.version);
        self.uid.write(f)?;
        self.info.write(f)?;
        self.bio.write(f)?;
        self.inventory.write(f)?;
        self.stash.write(f)?;
        self.respawns.write(f)?;
        self.teleports.write(f)?;
        self.markers.write(f)?;
        self.shrines.write(f)?;
        self.skills.write(f)?;
        self.notes.write(f)?;
        self.factions.write(f)?;
        self.ui.write(f)?;
        self.tutorials.write(f)?;
        self.stats.write(f)?;
        if self.version >= 7 {
            self.crucible.write(f)?;
        }
        Ok(())
    }

    /// Nothing is read from a stream that has failed.
    pub proof fn lemma_body_sticks(s: Stream)
        requires
            !s.ok(),
        ensures
            Self::parse_body(s).1 == s,
    {
        broadcast use group_sticks, group_records_stick, auto_info_sticks;

        reveal(Char::parse_body);
    }

    /// Reading what was written gives the record back.
    pub proof fn lemma_body_read_back(s: Stream, v: CharView)
        requires
            s.wf(),
            s.ok(),
            Self::canonical(v),
            Self::body_fits(v),
            s.holds(Self::body_tokens(v)),
        ensures
            Self::parse_body(s) == (v, s.skip(Self::body_tokens(v))),
    {
        broadcast use group_gaps, group_read_back, group_records_held, auto_info_held;

        reveal(Char::parse_body);
        reveal(Char::body_tokens);
    }

    /// Writing what was read gives the bytes back, where nothing was lost in
    /// reading.
    pub proof fn lemma_body_write_back(s: Stream)
        requires
            s.wf(),
            s.ok(),
            Self::parse_body(s).1.ok(),
            Self::lossless(s),
        ensures
            Self::canonical(Self::parse_body(s).0),
            Self::body_fits(Self::parse_body(s).0),
            s.holds(Self::body_tokens(Self::parse_body(s).0)),
            Self::parse_body(s).1 == s.skip(Self::body_tokens(Self::parse_body(s).0)),
            Self::parse_body(s).1.wf(),
    {
        broadcast use
            group_gaps,
            group_sticks,
            group_records_stick,
            group_write_back,
            group_records_read,
            auto_info_sticks,
            auto_info_read,
        ;

        reveal(Char::parse_body);
        reveal(Char::body_tokens);
    }

    /// What was read is a record that reading yields, and it can be written,
    /// whether or not something was lost in reading.
    pub proof fn lemma_read_canonical(s: Stream)
        requires
            s.wf(),
            s.ok(),
            Self::parse_body(s).1.ok(),
        ensures
            Self::canonical(Self::parse_body(s).0),
            Self::body_fits(Self::parse_body(s).0),
            Self::parse_body(s).1.wf(),
    {
        broadcast use
            group_gaps,
            group_sticks,
            group_records_stick,
            group_write_back,
            group_records_read,
            auto_info_sticks,
            auto_info_canonical,
        ;

        reveal(Char::parse_body);
        reveal(Char::body_tokens);
    }
}

/// The seed that files are written with unless another one is asked for.
/// Under it the key and the table are zero, and nothing is masked.
pub const PLAIN_SEED: u32 = 0x5555_5555;

impl Char {
    /// The character as its blocks alone give it: with the plain seed.
    pub open spec fn plain(v: CharView) -> CharView {
        CharView { seed: PLAIN_SEED, ..v }
    }

    /// The seed that the file whose bytes are `data` was written with.
    pub open spec fn seed_of(data: Seq<u8>) -> u32 {
        word_of(data[0], data[1], data[2], data[3])
    }

    /// What a reader makes of a whole file: the key is derived from the
    /// seed, the magic number is checked, then the header and the blocks
    /// are read. The character keeps the seed.
    pub open spec fn parse(s: Stream) -> (CharView, Stream) {
        let (v, t) = Self::parse_body(s.validated());
        (CharView { seed: Self::seed_of(s.data), ..v }, t)
    }

    /// What a reader makes of the file whose bytes are `data`.
    pub open spec fn decode(data: Seq<u8>) -> (CharView, Stream) {
        Self::parse(Stream::start(data))
    }

    /// The plain values of a whole file behind its seed: the magic number,
    /// the header and the blocks.
    pub open spec fn tokens(v: CharView) -> Seq<Token> {
        seq![Token::Word(MAGIC)] + Self::body_tokens(v)
    }

    /// The bytes of the file that holds `v`, under the seed that `v` keeps.
    pub open spec fn encode(v: CharView) -> Seq<u8> {
        word_bytes(v.seed) + encode(base_key(v.seed), key_table(v.seed), Self::tokens(v))
    }

    /// Nothing is lost in reading the file whose bytes are `data`.
    pub open spec fn lossless_file(data: Seq<u8>) -> bool {
        Self::lossless(Stream::start(data).validated())
    }

    /// A character that has not been read yet: every field is empty or
    /// zero, and the seed is the plain one.
    pub fn new() -> (r: Char)
        ensures
            r@ == Char::blank(),
    {
        Char::default()
    }

    /// Reads a whole file, from its first byte on, keeps its seed, and hands
    /// the character on. On failure the character is left as it was, and the
    /// file stands where the failure was met.
    pub fn read(&mut self, f: &mut GDFile) -> (r: Result<&mut Self, FileError>)
        requires
            old(f).wf(),
        ensures
            final(f).wf(),
            match r {
                Ok(ret) => Self::parse(old(f)@) == (ret@, final(f)@) && *final(self) == *final(ret),
                Err(e) => Self::parse(old(f)@).1 == final(f)@.fail(e@) && *final(self)
                    == *old(self),
            },
    {
        broadcast use group_sticks;

        let bytes = f.bytes();
        let seed = if bytes.len() >= 4 {
            join_word(bytes[0], bytes[1], bytes[2], bytes[3])
        } else {
            PLAIN_SEED
        };
        match f.validate() {
            Ok(()) => {},
            Err(e) => {
                proof {
                    Self::lemma_body_sticks(old(f)@.validated());
                }
                return Err(e);
            },
        }
        self.read_body(f)?;
        self.seed = seed;
        Ok(self)
    }

    /// Reads the name of the character of a file: the file is read as far as
    /// its header. On failure the character is left as it was.
    pub fn get_name(&mut self, f: &mut GDFile) -> (r: Result<String, FileError>)
        requires
            old(f).wf(),
        ensures
            final(f).wf(),
            match r {
                Ok(name) => {
                    &&& Header::parse(old(f)@.validated()) == (final(self).header@, final(f)@)
                    &&& name@ == final(self).header.name@
                    &&& final(self)@ == (CharView { header: final(self).header@, ..old(self)@ })
                },
                Err(e) => Header::parse(old(f)@.validated()).1 == final(f)@.fail(e@)
                    && *final(self) == *old(self),
            },
    {
        match f.validate() {
            Ok(()) => {},
            Err(e) => {
                proof {
                    Header::lemma_fault_sticks(old(f)@.validated());
                }
                return Err(e);
            },
        }
        self.header.read(f)?;
        Ok(self.header.name.clone())
    }

    /// Writes a whole file at the end of `f`, under the seed that the
    /// character keeps: the seed of the file it was read from, or the plain
    /// seed where it was read from none.
    pub fn write(&self, f: &mut GDFile) -> (r: Result<(), FileError>)
        requires
            old(f).wf(),
        ensures
            final(f).wf(),
            wrote(
                old(f)@.seeded(self.seed),
                Self::tokens(self@),
                Self::body_fits(self@),
                r,
                final(f)@,
            ),
    {
        broadcast use group_emit;

        f.write_key(self.seed);
        f.write_int(MAGIC);
        self.write_body(f)
    }

    /// Writes a whole file at the end of `f`, as [`Char::write`] does.
    pub fn save_as(&self, f: &mut GDFile) -> (r: Result<(), FileError>)
        requires
            old(f).wf(),
        ensures
            final(f).wf(),
            wrote(
                old(f)@.seeded(self.seed),
                Self::tokens(self@),
                Self::body_fits(self@),
                r,
                final(f)@,
            ),
    {
        self.write(f)
    }

    /// The bytes of the file that holds the character.
    pub fn to_bytes(&self) -> (r: Result<Vec<u8>, FileError>)
        ensures
            match r {
                Ok(bytes) => Self::body_fits(self@) && bytes@ == Self::encode(self@),
                Err(e) => !Self::body_fits(self@) && e == FileError::Unencodable,
            },
    {
        let mut f = GDFile::new(Vec::new());
        proof {
            Self::lemma_written_file(Stream::start(Seq::empty()), self@);
        }
        match self.write(&mut f) {
            Ok(()) => Ok(f.into_bytes()),
            Err(e) => Err(e),
        }
    }

    /// The character that the file whose bytes are `data` holds.
    pub fn from_bytes(data: Vec<u8>) -> (r: Result<Char, FileError>)
        ensures
            match r {
                Ok(c) => Self::decode(data@).0 == c@ && Self::decode(data@).1.ok(),
                Err(e) => Self::decode(data@).1.fault == Some(e@),
            },
    {
        let mut f = GDFile::new(data);
        let mut c = Char::new();
        match c.read(&mut f) {
            Ok(_) => Ok(c),
            Err(e) => Err(e),
        }
    }

    /// What a writer leaves in an empty file is the encoding of the character.
    pub proof fn lemma_written_file(s: Stream, v: CharView)
        requires
            s.data.len() == 0,
        ensures
            s.seeded(v.seed).emit(Self::tokens(v)).data == Self::encode(v),
    {
        reveal(Stream::emit);
        assert(s.seeded(v.seed).data =~= word_bytes(v.seed));
    }

    /// The blocks of a character do not depend on its seed.
    pub proof fn lemma_plain(v: CharView)
        ensures
            Self::body_tokens(Self::plain(v)) == Self::body_tokens(v),
            Self::body_fits(Self::plain(v)) == Self::body_fits(v),
            Self::tokens(Self::plain(v)) == Self::tokens(v),
    {
        reveal(Char::body_tokens);
    }

    /// Decoding the encoding of a character gives the character back: every
    /// field is as it was, the seed too, and the whole file has been read.
    pub proof fn lemma_decode_encode(v: CharView)
        requires
            Self::canonical(Self::plain(v)),
            Self::body_fits(v),
            Self::encode(v).len() <= usize::MAX,
        ensures
            Self::decode(Self::encode(v)).0 == v,
            Self::decode(Self::encode(v)).1.ok(),
            Self::decode(Self::encode(v)).1.pos == Self::encode(v).len(),
    {
        reveal(Stream::holds);
        reveal(Stream::skip);
        reveal(Stream::word);
        Self::lemma_plain(v);
        let seed = v.seed;
        let data = Self::encode(v);
        let key = base_key(seed);
        let table = key_table(seed);
        let body = Self::body_tokens(v);
        let magic = seq![Token::Word(MAGIC)];
        lemma_encode_len(key, table, Self::tokens(v));
        lemma_word_bytes_join(seed);
        let start = Stream { pos: 0, ..Stream::start(data) };
        assert(start.raw_word() == seed);
        assert(Self::seed_of(data) == seed);
        let keyed = start.keyed();
        assert(keyed.key == key && keyed.table == table && keyed.pos == 4);
        assert(data.subrange(4, 4 + width(Self::tokens(v)) as int) =~= encode(
            key,
            table,
            Self::tokens(v),
        ));
        assert(keyed.holds(Self::tokens(v)));
        lemma_holds_concat(keyed, magic, body);
        lemma_word(keyed, MAGIC);
        let inner = keyed.skip(magic);
        assert(Stream::start(data).validated() == inner);
        lemma_skip_wf(keyed, magic);
        Self::lemma_body_read_back(inner, Self::plain(v));
        lemma_concat(key, table, magic, body);
        lemma_one(key, table, Token::Word(MAGIC));
    }

    /// Encoding what was decoded gives the bytes back, as far as they were
    /// read, where nothing was lost in reading.
    pub proof fn lemma_encode_decode(data: Seq<u8>)
        requires
            data.len() <= usize::MAX,
            Self::decode(data).1.ok(),
            Self::lossless_file(data),
        ensures
            Self::canonical(Self::plain(Self::decode(data).0)),
            Self::body_fits(Self::decode(data).0),
            Self::decode(data).1.pos <= data.len(),
            Self::encode(Self::decode(data).0) == data.take(Self::decode(data).1.pos as int),
    {
        reveal(Stream::holds);
        reveal(Stream::skip);
        reveal(Stream::word);
        let start = Stream { pos: 0, ..Stream::start(data) };
        let keyed = start.keyed();
        let (word, inner) = keyed.word();
        if !Stream::start(data).validated().ok() {
            Self::lemma_body_sticks(Stream::start(data).validated());
        }
        assert(inner == Stream::start(data).validated());
        assert(keyed.ok());
        let seed = Self::seed_of(data);
        let key = base_key(seed);
        let table = key_table(seed);
        let magic = seq![Token::Word(MAGIC)];
        lemma_raw_word(start, seed);
        lemma_word(keyed, MAGIC);
        Self::lemma_body_write_back(inner);
        let v = Self::decode(data).0;
        Self::lemma_plain(v);
        assert(Self::plain(v) == Self::parse_body(inner).0);
        let body = Self::body_tokens(v);
        lemma_holds_concat(keyed, magic, body);
        lemma_concat(key, table, magic, body);
        lemma_encode_len(key, table, Self::tokens(v));
        let end = Self::decode(data).1.pos as int;
        assert(data.take(end) =~= data.subrange(0, 4) + data.subrange(4, end));
    }

    /// A character that was read and not changed is written as the file it
    /// was read from: the same length and the same bytes, as far as the file
    /// was read and where nothing was lost in reading.
    pub proof fn lemma_same_file(data: Seq<u8>)
        requires
            data.len() <= usize::MAX,
            Self::decode(data).1.ok(),
            Self::lossless_file(data),
            Self::decode(data).1.pos == data.len(),
        ensures
            Self::encode(Self::decode(data).0) == data,
            Self::encode(Self::decode(data).0).len() == data.len(),
    {
        Self::lemma_encode_decode(data);
        assert(data.take(data.len() as int) =~= data);
    }

    /// What was decoded is a character that decoding yields, and it can be
    /// encoded again, whether or not something was lost in reading.
    pub proof fn lemma_decoded_is_valid(data: Seq<u8>)
        requires
            data.len() <= usize::MAX,
            Self::decode(data).1.ok(),
        ensures
            Self::canonical(Self::plain(Self::decode(data).0)),
            Self::body_fits(Self::decode(data).0),
    {
        reveal(Stream::word);
        let inner = Stream::start(data).validated();
        if !inner.ok() {
            Self::lemma_body_sticks(inner);
        }
        Self::lemma_read_canonical(inner);
        Self::lemma_plain(Self::decode(data).0);
        assert(Self::plain(Self::decode(data).0) == Self::parse_body(inner).0);
    }

    /// Two readers of the same bytes end with the same fields, the same key
    /// and the same cursor.
    pub proof fn lemma_decode_deterministic(first: Seq<u8>, second: Seq<u8>)
        requires
            first == second,
        ensures
            Self::decode(first) == Self::decode(second),
    {
    }

    /// A file whose version is not an accepted one fails with that version,
    /// whatever follows it.
    pub proof fn lemma_version_gate(s: Stream)
        requires
            s.ok(),
            Header::parse(s).1.zero().1.word().1.ok(),
            !Self::versions().contains(Header::parse(s).1.zero().1.word().0),
        ensures
            Self::parse_body(s).1.fault == Some(
                Fault::UnsupportedVersion(
                    Header::parse(s).1.zero().1.word().0,
                    Self::versions(),
                ),
            ),
    {
        broadcast use group_sticks, group_records_stick, auto_info_sticks;

        reveal(Char::parse_body);
    }
}

/// How the record names of devotion stars begin.
pub const DEVOTION_RECORDS: &'static str = "records/skills/devotion";

/// What the record names of class skills hold.
pub const CLASS_RECORDS: &'static str = "records/skills/playerclass";

/// The bit pattern of the float 50, the value an attribute starts with.
pub const BASE_ATTRIBUTE: u32 = 0x4248_0000;

/// The skill is a devotion star that has been bound.
pub open spec fn is_bound_star(v: SkillView) -> bool {
    DEVOTION_RECORDS@.is_prefix_of(v.name) && v.enabled == 1 && v.level == 1
}

/// The skill is a bound devotion star of the first level: resetting the
/// devotions removes it.
pub open spec fn is_first_star(v: SkillView) -> bool {
    v.devotion_level == 1 && is_bound_star(v)
}

/// The skill belongs to a class: resetting the skills removes it.
pub open spec fn is_class_skill(v: SkillView) -> bool {
    has_run(v.name, CLASS_RECORDS@)
}

/// The points that a skill gives back when the skills are reset.
pub open spec fn refund_of(v: SkillView) -> u32 {
    if CLASS_RECORDS@.is_prefix_of(v.name) && v.enabled == 1 {
        v.level
    } else {
        0
    }
}

/// The skill points that the skills give back when they are reset, modulo 2^32.
pub open spec fn skill_refund(skills: Seq<SkillView>) -> u32
    decreases skills.len(),
{
    if skills.len() == 0 {
        0
    } else {
        skill_refund(skills.drop_last()).wrapping_add(refund_of(skills.last()))
    }
}

/// The number of bound devotion stars, modulo 2^32.
pub open spec fn star_refund(skills: Seq<SkillView>) -> u32
    decreases skills.len(),
{
    if skills.len() == 0 {
        0
    } else if is_bound_star(skills.last()) {
        star_refund(skills.drop_last()).wrapping_add(1)
    } else {
        star_refund(skills.drop_last())
    }
}

/// A skill after the devotions have been reset: a star above the first
/// level is enabled at level zero, and a class skill casts nothing by itself.
pub open spec fn settled(v: SkillView) -> SkillView {
    let v = if v.devotion_level > 1 {
        SkillView { enabled: 1, level: 0, ..v }
    } else {
        v
    };
    if CLASS_RECORDS@.is_prefix_of(v.name) {
        SkillView { auto_cast_skill: Seq::empty(), auto_cast_controller: Seq::empty(), ..v }
    } else {
        v
    }
}

/// What resetting the devotions makes of a skill: nothing of a bound star
/// of the first level, and of any other skill the settled skill.
pub open spec fn settling() -> spec_fn(SkillView) -> Option<SkillView> {
    |v: SkillView|
        if is_first_star(v) {
            None
        } else {
            Some(settled(v))
        }
}

/// The skills after the devotions have been reset.
pub open spec fn settled_skills(skills: Seq<SkillView>) -> Seq<SkillView> {
    skills.filter_map(settling())
}

/// The skills that stay when the skills are reset: those of no class.
pub open spec fn staying() -> spec_fn(SkillView) -> bool {
    |v: SkillView| !is_class_skill(v)
}

/// Counts the skill points that the skills give back when they are reset.
pub fn count_skill_refund(skills: &Vec<Skill>) -> (r: u32)
    ensures
        r == skill_refund(views(skills@)),
{
    let ghost all = views(skills@);
    let mut points: u32 = 0;
    let mut i: usize = 0;
    while i < skills.len()
        invariant
            i <= skills.len(),
            all == views(skills@),
            points == skill_refund(all.take(i as int)),
        decreases skills.len() - i,
    {
        proof {
            assert(all.take(i + 1).drop_last() =~= all.take(i as int));
        }
        let skill = &skills[i];
        if starts_with(skill.name.as_str(), CLASS_RECORDS) && skill.enabled == 1 {
            points = points.wrapping_add(skill.level);
        } else {
            points = points.wrapping_add(0);
        }
        i = i + 1;
    }
    assert(all.take(i as int) =~= all);
    points
}

/// Counts the bound devotion stars.
pub fn count_star_refund(skills: &Vec<Skill>) -> (r: u32)
    ensures
        r == star_refund(views(skills@)),
{
    let ghost all = views(skills@);
    let mut points: u32 = 0;
    let mut i: usize = 0;
    while i < skills.len()
        invariant
            i <= skills.len(),
            all == views(skills@),
            points == star_refund(all.take(i as int)),
        decreases skills.len() - i,
    {
        proof {
            assert(all.take(i + 1).drop_last() =~= all.take(i as int));
        }
        let skill = &skills[i];
        if starts_with(skill.name.as_str(), DEVOTION_RECORDS) && skill.enabled == 1 && skill.level
            == 1 {
            points = points.wrapping_add(1);
        }
        i = i + 1;
    }
    assert(all.take(i as int) =~= all);
    points
}

/// Removes the skills of every class.
pub fn drop_class_skills(skills: &mut Vec<Skill>)
    ensures
        views(final(skills)@) == views(old(skills)@).filter(staying()),
{
    let ghost all = views(skills@);
    let mut kept: Vec<Skill> = Vec::new();
    let ghost mut done: int = 0;
    proof {
        reveal(Seq::filter);
        assert(views(kept@) =~= all.take(0).filter(staying()));
        assert(all.skip(0) =~= all);
    }
    while skills.len() > 0
        invariant
            0 <= done <= all.len(),
            skills@.len() == all.len() - done,
            views(skills@) == all.skip(done),
            views(kept@) == all.take(done).filter(staying()),
        decreases skills.len(),
    {
        proof {
            reveal(Seq::filter);
            let next = all.take(done + 1);
            assert(next.drop_last() =~= all.take(done));
            assert(next.last() == all[done]);
            assert(next.filter(staying()) == if staying()(all[done]) {
                all.take(done).filter(staying()).push(all[done])
            } else {
                all.take(done).filter(staying())
            });
            assert(views(skills@)[0] == all.skip(done)[0]);
            assert forall|j: int| 0 <= j < skills@.len() - 1 implies views(skills@.remove(0))[j]
                == all.skip(done + 1)[j] by {
                assert(views(skills@)[j + 1] == all.skip(done)[j + 1]);
            }
            assert(views(skills@.remove(0)) =~= all.skip(done + 1));
        }
        let skill = skills.remove(0);
        if !contains(skill.name.as_str(), CLASS_RECORDS) {
            proof {
                assert(views(kept@.push(skill)) =~= views(kept@).push(skill@));
            }
            kept.push(skill);
        }
        proof {
            done = done + 1;
        }
    }
    proof {
        assert(all.take(done) =~= all);
    }
    *skills = kept;
}

/// Removes the bound devotion stars of the first level and settles the
/// skills that stay.
pub fn settle_skills(skills: &mut Vec<Skill>)
    ensures
        views(final(skills)@) == settled_skills(views(old(skills)@)),
{
    let ghost all = views(skills@);
    let mut kept: Vec<Skill> = Vec::new();
    let ghost mut done: int = 0;
    proof {
        assert(views(kept@) =~= all.take(0).filter_map(settling()));
        assert(all.skip(0) =~= all);
    }
    while skills.len() > 0
        invariant
            0 <= done <= all.len(),
            skills@.len() == all.len() - done,
            views(skills@) == all.skip(done),
            views(kept@) == all.take(done).filter_map(settling()),
        decreases skills.len(),
    {
        proof {
            let next = all.take(done + 1);
            assert(next.drop_last() =~= all.take(done));
            assert(next.last() == all[done]);
            assert(next.filter_map(settling()) == match settling()(all[done]) {
                Some(v) => all.take(done).filter_map(settling()) + seq![v],
                None => all.take(done).filter_map(settling()),
            });
            assert(views(skills@)[0] == all.skip(done)[0]);
            assert forall|j: int| 0 <= j < skills@.len() - 1 implies views(skills@.remove(0))[j]
                == all.skip(done + 1)[j] by {
                assert(views(skills@)[j + 1] == all.skip(done)[j + 1]);
            }
            assert(views(skills@.remove(0)) =~= all.skip(done + 1));
        }
        let mut skill = skills.remove(0);
        let first_star = skill.devotion_level == 1 && starts_with(
            skill.name.as_str(),
            DEVOTION_RECORDS,
        ) && skill.enabled == 1 && skill.level == 1;
        if !first_star {
            if skill.devotion_level > 1 {
                skill.enabled = 1;
                skill.level = 0;
            }
            if starts_with(skill.name.as_str(), CLASS_RECORDS) {
                skill.auto_cast_skill = String::new();
                skill.auto_cast_controller = String::new();
            }
            proof {
                assert(views(kept@.push(skill)) =~= views(kept@) + seq![skill@]);
            }
            kept.push(skill);
        }
        proof {
            done = done + 1;
        }
    }
    proof {
        assert(all.take(done) =~= all);
    }
    *skills = kept;
}

impl Char {
    /// Gives the character another name, and hands the character on.
    pub fn rename(&mut self, new_name: &str) -> (ret: &mut Self)
        ensures
            ret@ == (CharView {
                header: HeaderView { name: new_name@, ..old(self)@.header },
                ..old(self)@
            }),
            *final(self) == *final(ret),
    {
        self.header.name = new_name.to_owned();
        self
    }

    /// Forgets how often the character has died.
    pub fn reset_deaths(&mut self) -> (ret: &mut Self)
        ensures
            ret@ == (CharView {
                stats: StatsView { deaths: 0, ..old(self)@.stats },
                ..old(self)@
            }),
            *final(self) == *final(ret),
    {
        self.stats.deaths = 0;
        self
    }

    /// Takes back the skill points: the skills of every class are removed,
    /// and the points of those that were enabled return to the character.
    /// Points are counted modulo 2^32.
    pub fn reset_skills(&mut self) -> (ret: &mut Self)
        ensures
            ret@ == (CharView {
                skills: SkillListView {
                    skill_reclamation_points_used: 0,
                    skills: old(self)@.skills.skills.filter(staying()),
                    ..old(self)@.skills
                },
                bio: BioView {
                    skill_points: old(self)@.bio.skill_points.wrapping_add(
                        skill_refund(old(self)@.skills.skills),
                    ),
                    ..old(self)@.bio
                },
                ..old(self)@
            }),
            *final(self) == *final(ret),
    {
        self.skills.skill_reclamation_points_used = 0;
        let points = count_skill_refund(&self.skills.skills);
        drop_class_skills(&mut self.skills.skills);
        self.bio.skill_points = self.bio.skill_points.wrapping_add(points);
        self
    }

    /// Takes back the devotion points: the bound stars of the first level
    /// are removed, the stars above it are enabled at level zero, class
    /// skills cast nothing by themselves any more, and one point for each
    /// bound star returns to the character. Points are counted modulo 2^32.
    pub fn reset_devotions(&mut self) -> (ret: &mut Self)
        ensures
            ret@ == (CharView {
                skills: SkillListView {
                    devotion_reclamation_points_used: 0,
                    skills: settled_skills(old(self)@.skills.skills),
                    ..old(self)@.skills
                },
                bio: BioView {
                    devotion_points: old(self)@.bio.devotion_points.wrapping_add(
                        star_refund(old(self)@.skills.skills),
                    ),
                    total_devotion: old(self)@.bio.devotion_points.wrapping_add(
                        star_refund(old(self)@.skills.skills),
                    ),
                    ..old(self)@.bio
                },
                ..old(self)@
            }),
            *final(self) == *final(ret),
    {
        self.skills.devotion_reclamation_points_used = 0;
        let points = count_star_refund(&self.skills.skills);
        settle_skills(&mut self.skills.skills);
        self.bio.devotion_points = self.bio.devotion_points.wrapping_add(points);
        self.bio.total_devotion = self.bio.devotion_points;
        self
    }

    /// Takes back the attribute points: `spent`, the number of points that
    /// the three attributes hold above their start, returns to the
    /// character, and the attributes go back to their start. Points are
    /// counted modulo 2^32.
    pub fn reset_attributes(&mut self, spent: u32) -> (ret: &mut Self)
        ensures
            ret@ == (CharView {
                bio: BioView {
                    attribute_points: old(self)@.bio.attribute_points.wrapping_add(spent),
                    cunning: BASE_ATTRIBUTE,
                    physique: BASE_ATTRIBUTE,
                    spirit: BASE_ATTRIBUTE,
                    ..old(self)@.bio
                },
                ..old(self)@
            }),
            *final(self) == *final(ret),
    {
        self.bio.attribute_points = self.bio.attribute_points.wrapping_add(spent);
        self.bio.cunning = BASE_ATTRIBUTE;
        self.bio.physique = BASE_ATTRIBUTE;
        self.bio.spirit = BASE_ATTRIBUTE;
        self
    }

    /// Takes back the devotion, attribute and skill points and forgets the
    /// deaths, in this order.
    pub fn reset_all(&mut self, spent: u32) -> (ret: &mut Self)
        ensures
            ret@ == Self::after_reset(old(self)@, spent),
            *final(self) == *final(ret),
    {
        self.reset_devotions().reset_attributes(spent).reset_deaths().reset_skills()
    }

    /// The character after all four resets.
    pub open spec fn after_reset(v: CharView, spent: u32) -> CharView {
        let skills = settled_skills(v.skills.skills);
        CharView {
            skills: SkillListView {
                devotion_reclamation_points_used: 0,
                skill_reclamation_points_used: 0,
                skills: skills.filter(staying()),
                ..v.skills
            },
            bio: BioView {
                devotion_points: v.bio.devotion_points.wrapping_add(star_refund(v.skills.skills)),
                total_devotion: v.bio.devotion_points.wrapping_add(star_refund(v.skills.skills)),
                attribute_points: v.bio.attribute_points.wrapping_add(spent),
                cunning: BASE_ATTRIBUTE,
                physique: BASE_ATTRIBUTE,
                spirit: BASE_ATTRIBUTE,
                skill_points: v.bio.skill_points.wrapping_add(skill_refund(skills)),
                ..v.bio
            },
            stats: StatsView { deaths: 0, ..v.stats },
            ..v
        }
    }
}

} // verus!
