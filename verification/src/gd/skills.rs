//! The skills of a character.

use crate::gd::gd_file::{
    group_records_held, group_records_read, group_records_stick, items_canonical, lemma_views_empty,
    list_fits, list_tokens, parse_list, views, Block, Fault, FileError, GDFile, ReadWrite,
};
use crate::gd::wire::{
    framed, group_emit, group_read_back, group_sticks, group_write_back, lemma_block_end_position,
    lemma_frame_read_back, lemma_frame_write_back, lemma_frame_written, string_fits, string_tokens,
    width, Stream, Token,
};
use vstd::prelude::*;

verus! {

/// A skill that an item grants.
#[derive(Debug, Clone, PartialEq, Eq)]
pub struct ItemSkill {
    pub name: String,
    pub auto_cast_skill: String,
    pub auto_cast_controller: String,
    pub item_slot: u32,
    pub item_id: String,
}

/// The mathematical value of an [`ItemSkill`].
pub struct ItemSkillView {
    pub name: Seq<char>,
    pub auto_cast_skill: Seq<char>,
    pub auto_cast_controller: Seq<char>,
    pub item_slot: u32,
    pub item_id: Seq<char>,
}

impl ItemSkill {
    /// The record whose every field is empty or zero.
    pub open spec fn blank() -> ItemSkillView {
        ItemSkillView {
            name: Seq::empty(),
            auto_cast_skill: Seq::empty(),
            auto_cast_controller: Seq::empty(),
            item_slot: 0,
            item_id: Seq::empty(),
        }
    }

    /// What a reader makes of the fields of the record.
    #[verifier::opaque]
    pub open spec fn parse_body(s: Stream) -> (ItemSkillView, Stream) {
        let (name, s) = s.string();
        let (auto_cast_skill, s) = s.string();
        let (auto_cast_controller, s) = s.string();
        let (item_slot, s) = s.word();
        let (item_id, s) = s.string();
        (
            ItemSkillView {
                name,
                auto_cast_skill,
                auto_cast_controller,
                item_slot,
                item_id,
            },
            s,
        )
    }

    /// The fields of the record, in file order.
    #[verifier::opaque]
    pub open spec fn body_tokens(v: ItemSkillView) -> Seq<Token> {
        string_tokens(v.name)
            + string_tokens(v.auto_cast_skill)
            + string_tokens(v.auto_cast_controller)
            + seq![Token::Word(v.item_slot)]
            + string_tokens(v.item_id)
    }

    /// The fields of the record can be written.
    pub open spec fn body_fits(v: ItemSkillView) -> bool {
        &&& string_fits(v.name)
        &&& string_fits(v.auto_cast_skill)
        &&& string_fits(v.auto_cast_controller)
        &&& string_fits(v.item_id)
    }
}

impl View for ItemSkill {
    type V = ItemSkillView;

    open spec fn view(&self) -> ItemSkillView {
        ItemSkillView {
            name: self.name@,
            auto_cast_skill: self.auto_cast_skill@,
            auto_cast_controller: self.auto_cast_controller@,
            item_slot: self.item_slot,
            item_id: self.item_id@,
        }
    }
}

impl Default for ItemSkill {
    fn default() -> (r: ItemSkill)
        ensures
            r@ == ItemSkill::blank(),
    {
        ItemSkill {
            name: String::new(),
            auto_cast_skill: String::new(),
            auto_cast_controller: String::new(),
            item_slot: 0,
            item_id: String::new(),
        }
    }
}

impl ReadWrite for ItemSkill {
    open spec fn parse(s: Stream) -> (ItemSkillView, Stream) {
        Self::parse_body(s)
    }

    open spec fn tokens(v: ItemSkillView) -> Seq<Token> {
        Self::body_tokens(v)
    }

    open spec fn fits(v: ItemSkillView) -> bool {
        Self::body_fits(v)
    }

    open spec fn canonical(v: ItemSkillView) -> bool {
        true
    }

    fn read(&mut self, f: &mut GDFile) -> (r: Result<(), FileError>) {
        broadcast use group_sticks, group_records_stick;

        proof {
            reveal(ItemSkill::parse_body);
        }
        let name = f.read_string()?;
        let auto_cast_skill = f.read_string()?;
        let auto_cast_controller = f.read_string()?;
        let item_slot = f.read_int()?;
        let item_id = f.read_string()?;
        *self = ItemSkill {
            name,
            auto_cast_skill,
            auto_cast_controller,
            item_slot,
            item_id,
        };
        Ok(())
    }

    fn write(&self, f: &mut GDFile) -> (r: Result<(), FileError>) {
        broadcast use group_emit;

        proof {
            reveal(ItemSkill::body_tokens);
        }
        f.write_string(self.name.as_str())?;
        f.write_string(self.auto_cast_skill.as_str())?;
        f.write_string(self.auto_cast_controller.as_str())?;
        f.write_int(self.item_slot);
        f.write_string(self.item_id.as_str())?;
        Ok(())
    }

    proof fn lemma_fault_sticks(s: Stream) {
        broadcast use group_sticks, group_records_stick;

        reveal(ItemSkill::parse_body);
    }

    proof fn lemma_read_back(s: Stream, v: ItemSkillView) {
        broadcast use group_read_back, group_records_held;

        reveal(ItemSkill::parse_body);
        reveal(ItemSkill::body_tokens);
    }

    proof fn lemma_write_back(s: Stream) {
        broadcast use group_sticks, group_records_stick, group_write_back, group_records_read;

        reveal(ItemSkill::parse_body);
        reveal(ItemSkill::body_tokens);
    }
}

/// A skill or a devotion star, and how far it has been raised.
#[derive(Debug, Clone, PartialEq, Eq)]
pub struct Skill {
    pub name: String,
    pub enabled: u8,
    pub level: u32,
    pub devotion_level: u32,
    pub experience: u32,
    pub active: u32,
    pub unknown1: u8,
    pub unknown2: u8,
    pub auto_cast_skill: String,
    pub auto_cast_controller: String,
}

/// The mathematical value of a [`Skill`].
pub struct SkillView {
    pub name: Seq<char>,
    pub enabled: u8,
    pub level: u32,
    pub devotion_level: u32,
    pub experience: u32,
    pub active: u32,
    pub unknown1: u8,
    pub unknown2: u8,
    pub auto_cast_skill: Seq<char>,
    pub auto_cast_controller: Seq<char>,
}

impl Skill {
    /// The record whose every field is empty or zero.
    pub open spec fn blank() -> SkillView {
        SkillView {
            name: Seq::empty(),
            enabled: 0,
            level: 0,
            devotion_level: 0,
            experience: 0,
            active: 0,
            unknown1: 0,
            unknown2: 0,
            auto_cast_skill: Seq::empty(),
            auto_cast_controller: Seq::empty(),
        }
    }

    /// What a reader makes of the fields of the record.
    #[verifier::opaque]
    pub open spec fn parse_body(s: Stream) -> (SkillView, Stream) {
        let (name, s) = s.string();
        let (level, s) = s.word();
        let (enabled, s) = s.byte();
        let (devotion_level, s) = s.word();
        let (experience, s) = s.word();
        let (active, s) = s.word();
        let (unknown1, s) = s.byte();
        let (unknown2, s) = s.byte();
        let (auto_cast_skill, s) = s.string();
        let (auto_cast_controller, s) = s.string();
        (
            SkillView {
                name,
                enabled,
                level,
                devotion_level,
                experience,
                active,
                unknown1,
                unknown2,
                auto_cast_skill,
                auto_cast_controller,
            },
            s,
        )
    }

    /// The fields of the record, in file order.
    #[verifier::opaque]
    pub open spec fn body_tokens(v: SkillView) -> Seq<Token> {
        string_tokens(v.name)
            + seq![Token::Word(v.level)]
            + seq![Token::Byte(v.enabled)]
            + seq![Token::Word(v.devotion_level)]
            + seq![Token::Word(v.experience)]
            + seq![Token::Word(v.active)]
            + seq![Token::Byte(v.unknown1)]
            + seq![Token::Byte(v.unknown2)]
            + string_tokens(v.auto_cast_skill)
            + string_tokens(v.auto_cast_controller)
    }

    /// The fields of the record can be written.
    pub open spec fn body_fits(v: SkillView) -> bool {
        &&& string_fits(v.name)
        &&& string_fits(v.auto_cast_skill)
        &&& string_fits(v.auto_cast_controller)
    }
}

impl View for Skill {
    type V = SkillView;

    open spec fn view(&self) -> SkillView {
        SkillView {
            name: self.name@,
            enabled: self.enabled,
            level: self.level,
            devotion_level: self.devotion_level,
            experience: self.experience,
            active: self.active,
            unknown1: self.unknown1,
            unknown2: self.unknown2,
            auto_cast_skill: self.auto_cast_skill@,
            auto_cast_controller: self.auto_cast_controller@,
        }
    }
}

impl Default for Skill {
    fn default() -> (r: Skill)
        ensures
            r@ == Skill::blank(),
    {
        Skill {
            name: String::new(),
            enabled: 0,
            level: 0,
            devotion_level: 0,
            experience: 0,
            active: 0,
            unknown1: 0,
            unknown2: 0,
            auto_cast_skill: String::new(),
            auto_cast_controller: String::new(),
        }
    }
}

impl ReadWrite for Skill {
    open spec fn parse(s: Stream) -> (SkillView, Stream) {
        Self::parse_body(s)
    }

    open spec fn tokens(v: SkillView) -> Seq<Token> {
        Self::body_tokens(v)
    }

    open spec fn fits(v: SkillView) -> bool {
        Self::body_fits(v)
    }

    open spec fn canonical(v: SkillView) -> bool {
        true
    }

    fn read(&mut self, f: &mut GDFile) -> (r: Result<(), FileError>) {
        broadcast use group_sticks, group_records_stick;

        proof {
            reveal(Skill::parse_body);
        }
        let name = f.read_string()?;
        let level = f.read_int()?;
        let enabled = f.read_byte()?;
        let devotion_level = f.read_int()?;
        let experience = f.read_int()?;
        let active = f.read_int()?;
        let unknown1 = f.read_byte()?;
        let unknown2 = f.read_byte()?;
        let auto_cast_skill = f.read_string()?;
        let auto_cast_controller = f.read_string()?;
        *self = Skill {
            name,
            enabled,
            level,
            devotion_level,
            experience,
            active,
            unknown1,
            unknown2,
            auto_cast_skill,
            auto_cast_controller,
        };
        Ok(())
    }

    fn write(&self, f: &mut GDFile) -> (r: Result<(), FileError>) {
        broadcast use group_emit;

        proof {
            reveal(Skill::body_tokens);
        }
        f.write_string(self.name.as_str())?;
        f.write_int(self.level);
        f.write_byte(self.enabled);
        f.write_int(self.devotion_level);
        f.write_int(self.experience);
        f.write_int(self.active);
        f.write_byte(self.unknown1);
        f.write_byte(self.unknown2);
        f.write_string(self.auto_cast_skill.as_str())?;
        f.write_string(self.auto_cast_controller.as_str())?;
        Ok(())
    }

    proof fn lemma_fault_sticks(s: Stream) {
        broadcast use group_sticks, group_records_stick;

        reveal(Skill::parse_body);
    }

    proof fn lemma_read_back(s: Stream, v: SkillView) {
        broadcast use group_read_back, group_records_held;

        reveal(Skill::parse_body);
        reveal(Skill::body_tokens);
    }

    proof fn lemma_write_back(s: Stream) {
        broadcast use group_sticks, group_records_stick, group_write_back, group_records_read;

        reveal(Skill::parse_body);
        reveal(Skill::body_tokens);
    }
}

/// The skills of a character and the points taken back so far.
#[derive(Debug, Clone, PartialEq, Eq)]
pub struct SkillList {
    pub skill_reclamation_points_used: u32,
    pub devotion_reclamation_points_used: u32,
    pub skills: Vec<Skill>,
    pub version: u32,
    pub item_skills: Vec<ItemSkill>,
    pub masteries_allowed: u32,
}

/// The mathematical value of a [`SkillList`].
pub struct SkillListView {
    pub skill_reclamation_points_used: u32,
    pub devotion_reclamation_points_used: u32,
    pub skills: Seq<SkillView>,
    pub version: u32,
    pub item_skills: Seq<ItemSkillView>,
    pub masteries_allowed: u32,
}

impl SkillList {
    /// The sequence id of the block.
    pub const BLOCK_SEQ: u32 = 8;

    /// The versions a reader accepts.
    pub open spec fn versions() -> Seq<u32> {
        seq![5u32]
    }

    /// The record whose every field is empty or zero.
    pub open spec fn blank() -> SkillListView {
        SkillListView {
            skill_reclamation_points_used: 0,
            devotion_reclamation_points_used: 0,
            skills: Seq::empty(),
            version: 0,
            item_skills: Seq::empty(),
            masteries_allowed: 0,
        }
    }

    /// What a reader makes of the fields of the record.
    #[verifier::opaque]
    pub open spec fn parse_body(s: Stream) -> (SkillListView, Stream) {
        let (version, s) = s.version(Self::versions());
        let (skills, s) = parse_list::<Skill>(s);
        let (masteries_allowed, s) = s.word();
        let (skill_reclamation_points_used, s) = s.word();
        let (devotion_reclamation_points_used, s) = s.word();
        let (item_skills, s) = parse_list::<ItemSkill>(s);
        (
            SkillListView {
                skill_reclamation_points_used,
                devotion_reclamation_points_used,
                skills,
                version,
                item_skills,
                masteries_allowed,
            },
            s,
        )
    }

    /// The fields of the record, in file order.
    #[verifier::opaque]
    pub open spec fn body_tokens(v: SkillListView) -> Seq<Token> {
        seq![Token::Word(v.version)]
            + list_tokens::<Skill>(v.skills)
            + seq![Token::Word(v.masteries_allowed)]
            + seq![Token::Word(v.skill_reclamation_points_used)]
            + seq![Token::Word(v.devotion_reclamation_points_used)]
            + list_tokens::<ItemSkill>(v.item_skills)
    }

    /// The fields of the record can be written.
    pub open spec fn body_fits(v: SkillListView) -> bool {
        &&& list_fits::<Skill>(v.skills)
        &&& list_fits::<ItemSkill>(v.item_skills)
    }

    /// A record whose version is not an accepted one fails with that version,
    /// whatever follows it.
    pub proof fn lemma_version_gate(s: Stream)
        requires
            s.block_start(Self::BLOCK_SEQ).1.ok(),
            s.block_start(Self::BLOCK_SEQ).1.word().1.ok(),
            !Self::versions().contains(s.block_start(Self::BLOCK_SEQ).1.word().0),
        ensures
            Self::parse(s).1.fault == Some(
                Fault::UnsupportedVersion(
                    s.block_start(Self::BLOCK_SEQ).1.word().0,
                    Self::versions(),
                ),
            ),
    {
        broadcast use group_sticks, group_records_stick;

        reveal(SkillList::parse_body);
    }

    /// A block whose payload ends elsewhere than its length field announced
    /// fails with the offset reached and the offset announced.
    pub proof fn lemma_length_checked(s: Stream)
        requires
            Self::parse_body(s.block_start(Self::BLOCK_SEQ).1).1.ok(),
            Self::parse_body(s.block_start(Self::BLOCK_SEQ).1).1.pos != s.block_start(
                Self::BLOCK_SEQ,
            ).0,
        ensures
            Self::parse(s).1.fault == Some(
                Fault::IncorrectBlockEndPosition(
                    Self::parse_body(s.block_start(Self::BLOCK_SEQ).1).1.pos as u64,
                    s.block_start(Self::BLOCK_SEQ).0,
                ),
            ),
    {
        lemma_block_end_position(
            Self::parse_body(s.block_start(Self::BLOCK_SEQ).1).1,
            s.block_start(Self::BLOCK_SEQ).0,
        );
    }
}

impl View for SkillList {
    type V = SkillListView;

    open spec fn view(&self) -> SkillListView {
        SkillListView {
            skill_reclamation_points_used: self.skill_reclamation_points_used,
            devotion_reclamation_points_used: self.devotion_reclamation_points_used,
            skills: views(self.skills@),
            version: self.version,
            item_skills: views(self.item_skills@),
            masteries_allowed: self.masteries_allowed,
        }
    }
}

impl Default for SkillList {
    fn default() -> (r: SkillList)
        ensures
            r@ == SkillList::blank(),
    {
        let r = SkillList {
            skill_reclamation_points_used: 0,
            devotion_reclamation_points_used: 0,
            skills: Vec::new(),
            version: 0,
            item_skills: Vec::new(),
            masteries_allowed: 0,
        };
        proof {
            lemma_views_empty(r.skills@);
            lemma_views_empty(r.item_skills@);
        }
        r
    }
}

impl ReadWrite for SkillList {
    open spec fn parse(s: Stream) -> (SkillListView, Stream) {
        let (end, s) = s.block_start(Self::BLOCK_SEQ);
        let (v, s) = Self::parse_body(s);
        (v, s.block_end(end))
    }

    open spec fn tokens(v: SkillListView) -> Seq<Token> {
        framed(Self::BLOCK_SEQ, Self::body_tokens(v))
    }

    open spec fn fits(v: SkillListView) -> bool {
        Self::body_fits(v) && width(Self::body_tokens(v)) <= u32::MAX
    }

    open spec fn canonical(v: SkillListView) -> bool {
        &&& Self::versions().contains(v.version)
        &&& items_canonical::<Skill>(v.skills)
        &&& items_canonical::<ItemSkill>(v.item_skills)
    }

    fn read(&mut self, f: &mut GDFile) -> (r: Result<(), FileError>) {
        broadcast use group_sticks, group_records_stick;

        proof {
            reveal(SkillList::parse_body);
        }
        let mut b = Block::default();
        f.read_block_start(&mut b, Self::BLOCK_SEQ)?;
        let accepted: [u32; 1] = [5];
        assert(accepted@ =~= Self::versions());
        let version = f.read_version(accepted.as_slice())?;
        let skills = f.read_vec::<Skill>()?;
        let masteries_allowed = f.read_int()?;
        let skill_reclamation_points_used = f.read_int()?;
        let devotion_reclamation_points_used = f.read_int()?;
        let item_skills = f.read_vec::<ItemSkill>()?;
        f.read_block_end(&mut b)?;
        *self = SkillList {
            skill_reclamation_points_used,
            devotion_reclamation_points_used,
            skills,
            version,
            item_skills,
            masteries_allowed,
        };
        Ok(())
    }

    fn write(&self, f: &mut GDFile) -> (r: Result<(), FileError>) {
        broadcast use group_emit;

        proof {
            reveal(SkillList::body_tokens);
        }
        let ghost start = f@;
        let mut b = Block::default();
        f.write_block_start(&mut b, Self::BLOCK_SEQ);
        f.write_int(self.version);
        f.write_vec(self.skills.as_slice())?;
        f.write_int(self.masteries_allowed);
        f.write_int(self.skill_reclamation_points_used);
        f.write_int(self.devotion_reclamation_points_used);
        f.write_vec(self.item_skills.as_slice())?;
        proof {
            lemma_frame_written(start, Self::BLOCK_SEQ, Self::body_tokens(self@));
        }
        f.write_block_end(&mut b)
    }

    proof fn lemma_fault_sticks(s: Stream) {
        broadcast use group_sticks, group_records_stick;

        reveal(SkillList::parse_body);
    }

    proof fn lemma_read_back(s: Stream, v: SkillListView) {
        broadcast use group_read_back, group_records_held;

        reveal(SkillList::parse_body);
        reveal(SkillList::body_tokens);
        lemma_frame_read_back(s, Self::BLOCK_SEQ, Self::body_tokens(v));
    }

    proof fn lemma_write_back(s: Stream) {
        broadcast use group_sticks, group_records_stick, group_write_back, group_records_read;

        reveal(SkillList::parse_body);
        reveal(SkillList::body_tokens);
        let inner = s.block_start(Self::BLOCK_SEQ).1;
        lemma_frame_write_back(
            s,
            Self::BLOCK_SEQ,
            Self::body_tokens(Self::parse_body(inner).0),
        );
    }
}

} // verus!
