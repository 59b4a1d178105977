//! The statistics block of a character.

use crate::gd::gd_file::{
    group_records_held, group_records_read, group_records_stick, item_tokens, items_canonical,
    items_fit, lemma_views_empty, list_fits, list_tokens, parse_items, parse_list, views, Block,
    Fault, FileError, GDFile, ReadWrite,
};
use crate::gd::wire::{
    framed, group_emit, group_gaps, group_read_back, group_sticks, group_write_back,
    lemma_block_end_position, lemma_frame_read_back, lemma_frame_write_back, lemma_frame_written,
    string_fits, string_tokens, width, Stream, Token,
};
use vstd::prelude::*;

verus! {

/// How often a skill has been used.
#[derive(Debug, Clone, PartialEq, Eq)]
pub struct SkillMap {
    pub skill: String,
    pub active: u32,
}

/// The mathematical value of a [`SkillMap`].
pub struct SkillMapView {
    pub skill: Seq<char>,
    pub active: u32,
}

impl SkillMap {
    /// The record whose every field is empty or zero.
    pub open spec fn blank() -> SkillMapView {
        SkillMapView {
            skill: Seq::empty(),
            active: 0,
        }
    }

    /// What a reader makes of the fields of the record.
    #[verifier::opaque]
    pub open spec fn parse_body(s: Stream) -> (SkillMapView, Stream) {
        let (skill, s) = s.string();
        let (active, s) = s.word();
        (
            SkillMapView {
                skill,
                active,
            },
            s,
        )
    }

    /// The fields of the record, in file order.
    #[verifier::opaque]
    pub open spec fn body_tokens(v: SkillMapView) -> Seq<Token> {
        string_tokens(v.skill)
            + seq![Token::Word(v.active)]
    }

    /// The fields of the record can be written.
    pub open spec fn body_fits(v: SkillMapView) -> bool {
        &&& string_fits(v.skill)
    }
}

impl View for SkillMap {
    type V = SkillMapView;

    open spec fn view(&self) -> SkillMapView {
        SkillMapView {
            skill: self.skill@,
            active: self.active,
        }
    }
}

impl Default for SkillMap {
    fn default() -> (r: SkillMap)
        ensures
            r@ == SkillMap::blank(),
    {
        SkillMap {
            skill: String::new(),
            active: 0,
        }
    }
}

impl ReadWrite for SkillMap {
    open spec fn parse(s: Stream) -> (SkillMapView, Stream) {
        Self::parse_body(s)
    }

    open spec fn tokens(v: SkillMapView) -> Seq<Token> {
        Self::body_tokens(v)
    }

    open spec fn fits(v: SkillMapView) -> bool {
        Self::body_fits(v)
    }

    open spec fn canonical(v: SkillMapView) -> bool {
        true
    }

    fn read(&mut self, f: &mut GDFile) -> (r: Result<(), FileError>) {
        broadcast use group_sticks, group_records_stick;

        proof {
            reveal(SkillMap::parse_body);
        }
        let skill = f.read_string()?;
        let active = f.read_int()?;
        *self = SkillMap {
            skill,
            active,
        };
        Ok(())
    }

    fn write(&self, f: &mut GDFile) -> (r: Result<(), FileError>) {
        broadcast use group_emit;

        proof {
            reveal(SkillMap::body_tokens);
        }
        f.write_string(self.skill.as_str())?;
        f.write_int(self.active);
        Ok(())
    }

    proof fn lemma_fault_sticks(s: Stream) {
        broadcast use group_sticks, group_records_stick;

        reveal(SkillMap::parse_body);
    }

    proof fn lemma_read_back(s: Stream, v: SkillMapView) {
        broadcast use group_read_back, group_records_held;

        reveal(SkillMap::parse_body);
        reveal(SkillMap::body_tokens);
    }

    proof fn lemma_write_back(s: Stream) {
        broadcast use group_sticks, group_records_stick, group_write_back, group_records_read;

        reveal(SkillMap::parse_body);
        reveal(SkillMap::body_tokens);
    }
}

/// The strongest monster killed and the last fights, for one difficulty.
#[derive(Debug, Clone, PartialEq, Eq)]
pub struct StatsPerDifficulty {
    pub greatest_monster_killed_name: String,
    pub greatest_monster_killed_level: u32,
    pub greatest_monster_killed_life_and_mana: u32,
    pub last_monster_hit: String,
    pub last_monster_hit_by: String,
    /// The nemeses killed. In a file the count stands apart, behind the other statistics.
    pub nemesis_kills: u32,
}

/// The mathematical value of a [`StatsPerDifficulty`].
pub struct StatsPerDifficultyView {
    pub greatest_monster_killed_name: Seq<char>,
    pub greatest_monster_killed_level: u32,
    pub greatest_monster_killed_life_and_mana: u32,
    pub last_monster_hit: Seq<char>,
    pub last_monster_hit_by: Seq<char>,
    pub nemesis_kills: u32,
}

impl StatsPerDifficulty {
    /// The record whose every field is empty or zero.
    pub open spec fn blank() -> StatsPerDifficultyView {
        StatsPerDifficultyView {
            greatest_monster_killed_name: Seq::empty(),
            greatest_monster_killed_level: 0,
            greatest_monster_killed_life_and_mana: 0,
            last_monster_hit: Seq::empty(),
            last_monster_hit_by: Seq::empty(),
            nemesis_kills: 0,
        }
    }

    /// What a reader makes of the fields of the record.
    #[verifier::opaque]
    pub open spec fn parse_body(s: Stream) -> (StatsPerDifficultyView, Stream) {
        let (greatest_monster_killed_name, s) = s.string();
        let (greatest_monster_killed_level, s) = s.word();
        let (greatest_monster_killed_life_and_mana, s) = s.word();
        let (last_monster_hit, s) = s.string();
        let (last_monster_hit_by, s) = s.string();
        (
            StatsPerDifficultyView {
                greatest_monster_killed_name,
                greatest_monster_killed_level,
                greatest_monster_killed_life_and_mana,
                last_monster_hit,
                last_monster_hit_by,
                nemesis_kills: 0,
            },
            s,
        )
    }

    /// The fields of the record, in file order.
    #[verifier::opaque]
    pub open spec fn body_tokens(v: StatsPerDifficultyView) -> Seq<Token> {
        string_tokens(v.greatest_monster_killed_name)
            + seq![Token::Word(v.greatest_monster_killed_level)]
            + seq![Token::Word(v.greatest_monster_killed_life_and_mana)]
            + string_tokens(v.last_monster_hit)
            + string_tokens(v.last_monster_hit_by)
    }

    /// The fields of the record can be written.
    pub open spec fn body_fits(v: StatsPerDifficultyView) -> bool {
        &&& string_fits(v.greatest_monster_killed_name)
        &&& string_fits(v.last_monster_hit)
        &&& string_fits(v.last_monster_hit_by)
    }
}

impl View for StatsPerDifficulty {
    type V = StatsPerDifficultyView;

    open spec fn view(&self) -> StatsPerDifficultyView {
        StatsPerDifficultyView {
            greatest_monster_killed_name: self.greatest_monster_killed_name@,
            greatest_monster_killed_level: self.greatest_monster_killed_level,
            greatest_monster_killed_life_and_mana: self.greatest_monster_killed_life_and_mana,
            last_monster_hit: self.last_monster_hit@,
            last_monster_hit_by: self.last_monster_hit_by@,
            nemesis_kills: self.nemesis_kills,
        }
    }
}

impl Default for StatsPerDifficulty {
    fn default() -> (r: StatsPerDifficulty)
        ensures
            r@ == StatsPerDifficulty::blank(),
    {
        StatsPerDifficulty {
            greatest_monster_killed_name: String::new(),
            greatest_monster_killed_level: 0,
            greatest_monster_killed_life_and_mana: 0,
            last_monster_hit: String::new(),
            last_monster_hit_by: String::new(),
            nemesis_kills: 0,
        }
    }
}

impl ReadWrite for StatsPerDifficulty {
    open spec fn parse(s: Stream) -> (StatsPerDifficultyView, Stream) {
        Self::parse_body(s)
    }

    open spec fn tokens(v: StatsPerDifficultyView) -> Seq<Token> {
        Self::body_tokens(v)
    }

    open spec fn fits(v: StatsPerDifficultyView) -> bool {
        Self::body_fits(v)
    }

    open spec fn canonical(v: StatsPerDifficultyView) -> bool {
        &&& v.nemesis_kills == 0
    }

    fn read(&mut self, f: &mut GDFile) -> (r: Result<(), FileError>) {
        broadcast use group_sticks, group_records_stick;

        proof {
            reveal(StatsPerDifficulty::parse_body);
        }
        let greatest_monster_killed_name = f.read_string()?;
        let greatest_monster_killed_level = f.read_int()?;
        let greatest_monster_killed_life_and_mana = f.read_int()?;
        let last_monster_hit = f.read_string()?;
        let last_monster_hit_by = f.read_string()?;
        let nemesis_kills: u32 = 0;
        *self = StatsPerDifficulty {
            greatest_monster_killed_name,
            greatest_monster_killed_level,
            greatest_monster_killed_life_and_mana,
            last_monster_hit,
            last_monster_hit_by,
            nemesis_kills,
        };
        Ok(())
    }

    fn write(&self, f: &mut GDFile) -> (r: Result<(), FileError>) {
        broadcast use group_emit;

        proof {
            reveal(StatsPerDifficulty::body_tokens);
        }
        f.write_string(self.greatest_monster_killed_name.as_str())?;
        f.write_int(self.greatest_monster_killed_level);
        f.write_int(self.greatest_monster_killed_life_and_mana);
        f.write_string(self.last_monster_hit.as_str())?;
        f.write_string(self.last_monster_hit_by.as_str())?;
        Ok(())
    }

    proof fn lemma_fault_sticks(s: Stream) {
        broadcast use group_sticks, group_records_stick;

        reveal(StatsPerDifficulty::parse_body);
    }

    proof fn lemma_read_back(s: Stream, v: StatsPerDifficultyView) {
        broadcast use group_read_back, group_records_held;

        reveal(StatsPerDifficulty::parse_body);
        reveal(StatsPerDifficulty::body_tokens);
    }

    proof fn lemma_write_back(s: Stream) {
        broadcast use group_sticks, group_records_stick, group_write_back, group_records_read;

        reveal(StatsPerDifficulty::parse_body);
        reveal(StatsPerDifficulty::body_tokens);
    }
}

impl StatsPerDifficulty {
    /// The entry as it stands at its own place in a file: without the count
    /// of killed nemeses, which stands further on.
    pub open spec fn head(v: StatsPerDifficultyView) -> StatsPerDifficultyView {
        StatsPerDifficultyView { nemesis_kills: 0, ..v }
    }

    /// The entries as they stand at their own place in a file.
    pub open spec fn heads(entries: Seq<StatsPerDifficultyView>) -> Seq<StatsPerDifficultyView> {
        Seq::new(entries.len(), |i: int| Self::head(entries[i]))
    }

    /// The counts of killed nemeses, one of each entry.
    pub open spec fn kills(entries: Seq<StatsPerDifficultyView>) -> Seq<u32> {
        Seq::new(entries.len(), |i: int| entries[i].nemesis_kills)
    }

    /// The entries `heads`, each with its count of `kills`.
    pub open spec fn with_kills(heads: Seq<StatsPerDifficultyView>, kills: Seq<u32>) -> Seq<
        StatsPerDifficultyView,
    > {
        Seq::new(
            heads.len(),
            |i: int| StatsPerDifficultyView { nemesis_kills: kills[i], ..heads[i] },
        )
    }

    /// Gives each of the three entries its count of killed nemeses.
    pub fn merge(heads: Vec<StatsPerDifficulty>, kills: Vec<u32>) -> (r: [StatsPerDifficulty; 3])
        requires
            heads@.len() == 3,
            kills@.len() == 3,
        ensures
            views(r@) == Self::with_kills(views(heads@), views(kills@)),
    {
        let mut rest = heads;
        let ghost all = views(heads@);
        let mut third = StatsPerDifficulty::default();
        let mut second = StatsPerDifficulty::default();
        let mut first = StatsPerDifficulty::default();
        match rest.pop() {
            Some(entry) => {
                third = entry;
            },
            None => {},
        }
        match rest.pop() {
            Some(entry) => {
                second = entry;
            },
            None => {},
        }
        match rest.pop() {
            Some(entry) => {
                first = entry;
            },
            None => {},
        }
        assert(first@ == all[0] && second@ == all[1] && third@ == all[2]);
        first.nemesis_kills = kills[0];
        second.nemesis_kills = kills[1];
        third.nemesis_kills = kills[2];
        let r = [first, second, third];
        assert(views(r@) =~= Self::with_kills(all, views(kills@)));
        r
    }

    /// The counts of killed nemeses of the three entries.
    pub fn kills_of(entries: &[StatsPerDifficulty; 3]) -> (r: Vec<u32>)
        ensures
            views(r@) == Self::kills(views(entries@)),
    {
        let mut r: Vec<u32> = Vec::new();
        r.push(entries[0].nemesis_kills);
        r.push(entries[1].nemesis_kills);
        r.push(entries[2].nemesis_kills);
        assert(views(r@) =~= Self::kills(views(entries@)));
        r
    }

    /// The count of killed nemeses is no part of what an entry writes at its
    /// own place.
    pub proof fn lemma_head_tokens(entries: Seq<StatsPerDifficultyView>)
        ensures
            item_tokens::<StatsPerDifficulty>(Self::heads(entries)) == item_tokens::<
                StatsPerDifficulty,
            >(entries),
            items_fit::<StatsPerDifficulty>(Self::heads(entries)) == items_fit::<
                StatsPerDifficulty,
            >(entries),
        decreases entries.len(),
    {
        reveal(StatsPerDifficulty::body_tokens);
        if entries.len() > 0 {
            Self::lemma_head_tokens(entries.drop_last());
            assert(Self::heads(entries).drop_last() =~= Self::heads(entries.drop_last()));
            assert(Self::heads(entries).last() == Self::head(entries.last()));
        }
        assert forall|i: int| 0 <= i < entries.len() implies StatsPerDifficulty::fits(
            #[trigger] Self::heads(entries)[i],
        ) == StatsPerDifficulty::fits(entries[i]) by {}
        if items_fit::<StatsPerDifficulty>(entries) {
            assert forall|i: int| 0 <= i < entries.len() implies StatsPerDifficulty::fits(
                #[trigger] Self::heads(entries)[i],
            ) by {
                assert(StatsPerDifficulty::fits(entries[i]));
            }
        }
        if items_fit::<StatsPerDifficulty>(Self::heads(entries)) {
            assert forall|i: int| 0 <= i < entries.len() implies StatsPerDifficulty::fits(
                #[trigger] entries[i],
            ) by {
                assert(StatsPerDifficulty::fits(Self::heads(entries)[i]));
            }
        }
    }
}

/// Entries are their heads with their counts of killed nemeses.
pub broadcast proof fn auto_heads(entries: Seq<StatsPerDifficultyView>)
    ensures
        StatsPerDifficulty::with_kills(
            #[trigger] StatsPerDifficulty::heads(entries),
            StatsPerDifficulty::kills(entries),
        ) == entries,
        StatsPerDifficulty::heads(entries).len() == entries.len(),
        StatsPerDifficulty::kills(entries).len() == entries.len(),
        items_canonical::<StatsPerDifficulty>(StatsPerDifficulty::heads(entries)),
{
    assert(StatsPerDifficulty::with_kills(
        StatsPerDifficulty::heads(entries),
        StatsPerDifficulty::kills(entries),
    ) =~= entries);
}

/// Heads that were read and counts that were read are the heads and the
/// counts of the entries made of them.
pub broadcast proof fn auto_merged(heads: Seq<StatsPerDifficultyView>, kills: Seq<u32>)
    requires
        items_canonical::<StatsPerDifficulty>(heads),
        heads.len() == kills.len(),
    ensures
        StatsPerDifficulty::heads(#[trigger] StatsPerDifficulty::with_kills(heads, kills))
            == heads,
        StatsPerDifficulty::kills(StatsPerDifficulty::with_kills(heads, kills)) == kills,
        StatsPerDifficulty::with_kills(heads, kills).len() == heads.len(),
{
    let merged = StatsPerDifficulty::with_kills(heads, kills);
    assert forall|i: int| 0 <= i < heads.len() implies #[trigger] StatsPerDifficulty::heads(
        merged,
    )[i] == heads[i] by {
        assert(StatsPerDifficulty::canonical(heads[i]));
    }
    assert(StatsPerDifficulty::heads(merged) =~= heads);
    assert(StatsPerDifficulty::kills(merged) =~= kills);
}

/// How entries and their counts of killed nemeses belong together.
pub broadcast group group_kills {
    auto_heads,
    auto_merged,
}

/// What a character has done so far: time played, kills, deaths, damage,
/// crafting and the like.
#[derive(Debug, Clone, PartialEq, Eq)]
pub struct Stats {
    pub champion_kills: u32,
    pub deaths: u32,
    pub hero_kills: u32,
    pub kills: u32,
    pub playtime: u32,
    pub version: u32,
    pub critical_hits_inflicted: u32,
    pub critical_hits_received: u32,
    pub difficulty_skip: u8,
    pub endless_essence: u32,
    pub endless_souls: u32,
    pub experience_from_kills: u32,
    /// A single-precision float, held as its bit pattern.
    pub greatest_damage_inflicted: u32,
    /// A single-precision float, held as its bit pattern.
    pub greatest_damage_received: u32,
    pub health_potions_used: u32,
    pub hits_inflicted: u32,
    pub hits_received: u32,
    pub items_crafted: u32,
    /// A single-precision float, held as its bit pattern.
    pub last_hit: u32,
    /// A single-precision float, held as its bit pattern.
    pub last_hit_by: u32,
    pub lore_notes_collected: u32,
    pub mana_potions_used: u32,
    pub max_level: u32,
    pub mythical_relics_crafted: u32,
    pub one_shot_chests_opened: u32,
    pub relics_crafted: u32,
    pub shrines_restored: u32,
    pub skill_map: Vec<SkillMap>,
    /// One entry per difficulty.
    pub stats_difficulty: [StatsPerDifficulty; 3],
    pub survival_defenses_built: u32,
    pub survival_greatest_score: u32,
    pub survival_greatest_wave: u32,
    pub survival_powerups_activated: u32,
    pub transcendent_relics_crafted: u32,
    pub unknown1: u32,
    pub unknown2: u32,
}

/// The mathematical value of a [`Stats`].
pub struct StatsView {
    pub champion_kills: u32,
    pub deaths: u32,
    pub hero_kills: u32,
    pub kills: u32,
    pub playtime: u32,
    pub version: u32,
    pub critical_hits_inflicted: u32,
    pub critical_hits_received: u32,
    pub difficulty_skip: u8,
    pub endless_essence: u32,
    pub endless_souls: u32,
    pub experience_from_kills: u32,
    pub greatest_damage_inflicted: u32,
    pub greatest_damage_received: u32,
    pub health_potions_used: u32,
    pub hits_inflicted: u32,
    pub hits_received: u32,
    pub items_crafted: u32,
    pub last_hit: u32,
    pub last_hit_by: u32,
    pub lore_notes_collected: u32,
    pub mana_potions_used: u32,
    pub max_level: u32,
    pub mythical_relics_crafted: u32,
    pub one_shot_chests_opened: u32,
    pub relics_crafted: u32,
    pub shrines_restored: u32,
    pub skill_map: Seq<SkillMapView>,
    pub stats_difficulty: Seq<StatsPerDifficultyView>,
    pub survival_defenses_built: u32,
    pub survival_greatest_score: u32,
    pub survival_greatest_wave: u32,
    pub survival_powerups_activated: u32,
    pub transcendent_relics_crafted: u32,
    pub unknown1: u32,
    pub unknown2: u32,
}

impl Stats {
    /// The sequence id of the block.
    pub const BLOCK_SEQ: u32 = 16;

    /// The versions a reader accepts.
    pub open spec fn versions() -> Seq<u32> {
        seq![7u32, 9u32, 11u32]
    }

    /// The record whose every field is empty or zero.
    pub open spec fn blank() -> StatsView {
        StatsView {
            champion_kills: 0,
            deaths: 0,
            hero_kills: 0,
            kills: 0,
            playtime: 0,
            version: 0,
            critical_hits_inflicted: 0,
            critical_hits_received: 0,
            difficulty_skip: 0,
            endless_essence: 0,
            endless_souls: 0,
            experience_from_kills: 0,
            greatest_damage_inflicted: 0,
            greatest_damage_received: 0,
            health_potions_used: 0,
            hits_inflicted: 0,
            hits_received: 0,
            items_crafted: 0,
            last_hit: 0,
            last_hit_by: 0,
            lore_notes_collected: 0,
            mana_potions_used: 0,
            max_level: 0,
            mythical_relics_crafted: 0,
            one_shot_chests_opened: 0,
            relics_crafted: 0,
            shrines_restored: 0,
            skill_map: Seq::empty(),
            stats_difficulty: Seq::new(3, |i: int| StatsPerDifficulty::blank()),
            survival_defenses_built: 0,
            survival_greatest_score: 0,
            survival_greatest_wave: 0,
            survival_powerups_activated: 0,
            transcendent_relics_crafted: 0,
            unknown1: 0,
            unknown2: 0,
        }
    }

    /// What a reader makes of the fields of the record.
    #[verifier::opaque]
    pub open spec fn parse_body(s: Stream) -> (StatsView, Stream) {
        let (version, s) = s.version(Self::versions());
        let (playtime, s) = s.word();
        let (deaths, s) = s.word();
        let (kills, s) = s.word();
        let (experience_from_kills, s) = s.word();
        let (health_potions_used, s) = s.word();
        let (mana_potions_used, s) = s.word();
        let (max_level, s) = s.word();
        let (hits_received, s) = s.word();
        let (hits_inflicted, s) = s.word();
        let (critical_hits_inflicted, s) = s.word();
        let (critical_hits_received, s) = s.word();
        let (greatest_damage_inflicted, s) = s.word();
        let (stats_difficulty, s) = parse_items::<StatsPerDifficulty>(s, 3);
        let (champion_kills, s) = s.word();
        let (last_hit, s) = s.word();
        let (last_hit_by, s) = s.word();
        let (greatest_damage_received, s) = s.word();
        let (hero_kills, s) = s.word();
        let (items_crafted, s) = s.word();
        let (relics_crafted, s) = s.word();
        let (transcendent_relics_crafted, s) = s.word();
        let (mythical_relics_crafted, s) = s.word();
        let (shrines_restored, s) = s.word();
        let (one_shot_chests_opened, s) = s.word();
        let (lore_notes_collected, s) = s.word();
        let (nemesis_kills, s) = parse_items::<u32>(s, 3);
        let (
            survival_greatest_wave,
            survival_greatest_score,
            survival_defenses_built,
            survival_powerups_activated,
            s,
        ) = if version >= 9 {
            let (survival_greatest_wave, s) = s.word();
            let (survival_greatest_score, s) = s.word();
            let (survival_defenses_built, s) = s.word();
            let (survival_powerups_activated, s) = s.word();
            (
                survival_greatest_wave,
                survival_greatest_score,
                survival_defenses_built,
                survival_powerups_activated,
                s,
            )
        } else {
            (0u32, 0u32, 0u32, 0u32, s)
        };
        let (skill_map, endless_souls, endless_essence, difficulty_skip, s) = if version >= 11 {
            let (skill_map, s) = parse_list::<SkillMap>(s);
            let (endless_souls, s) = s.word();
            let (endless_essence, s) = s.word();
            let (difficulty_skip, s) = s.byte();
            (skill_map, endless_souls, endless_essence, difficulty_skip, s)
        } else {
            (Seq::empty(), 0u32, 0u32, 0u8, s)
        };
        let (unknown1, s) = s.word();
        let (unknown2, s) = s.word();
        (
            StatsView {
                champion_kills,
                deaths,
                hero_kills,
                kills,
                playtime,
                version,
                critical_hits_inflicted,
                critical_hits_received,
                difficulty_skip,
                endless_essence,
                endless_souls,
                experience_from_kills,
                greatest_damage_inflicted,
                greatest_damage_received,
                health_potions_used,
                hits_inflicted,
                hits_received,
                items_crafted,
                last_hit,
                last_hit_by,
                lore_notes_collected,
                mana_potions_used,
                max_level,
                mythical_relics_crafted,
                one_shot_chests_opened,
                relics_crafted,
                shrines_restored,
                skill_map,
                stats_difficulty: StatsPerDifficulty::with_kills(stats_difficulty, nemesis_kills),
                survival_defenses_built,
                survival_greatest_score,
                survival_greatest_wave,
                survival_powerups_activated,
                transcendent_relics_crafted,
                unknown1,
                unknown2,
            },
            s,
        )
    }

    /// The fields of the record, in file order.
    #[verifier::opaque]
    pub open spec fn body_tokens(v: StatsView) -> Seq<Token> {
        seq![Token::Word(v.version)]
            + seq![Token::Word(v.playtime)]
            + seq![Token::Word(v.deaths)]
            + seq![Token::Word(v.kills)]
            + seq![Token::Word(v.experience_from_kills)]
            + seq![Token::Word(v.health_potions_used)]
            + seq![Token::Word(v.mana_potions_used)]
            + seq![Token::Word(v.max_level)]
            + seq![Token::Word(v.hits_received)]
            + seq![Token::Word(v.hits_inflicted)]
            + seq![Token::Word(v.critical_hits_inflicted)]
            + seq![Token::Word(v.critical_hits_received)]
            + seq![Token::Word(v.greatest_damage_inflicted)]
            + item_tokens::<StatsPerDifficulty>(StatsPerDifficulty::heads(v.stats_difficulty))
            + seq![Token::Word(v.champion_kills)]
            + seq![Token::Word(v.last_hit)]
            + seq![Token::Word(v.last_hit_by)]
            + seq![Token::Word(v.greatest_damage_received)]
            + seq![Token::Word(v.hero_kills)]
            + seq![Token::Word(v.items_crafted)]
            + seq![Token::Word(v.relics_crafted)]
            + seq![Token::Word(v.transcendent_relics_crafted)]
            + seq![Token::Word(v.mythical_relics_crafted)]
            + seq![Token::Word(v.shrines_restored)]
            + seq![Token::Word(v.one_shot_chests_opened)]
            + seq![Token::Word(v.lore_notes_collected)]
            + item_tokens::<u32>(StatsPerDifficulty::kills(v.stats_difficulty))
            + (if v.version >= 9 {
                seq![Token::Word(v.survival_greatest_wave)]
                    + seq![Token::Word(v.survival_greatest_score)]
                    + seq![Token::Word(v.survival_defenses_built)]
                    + seq![Token::Word(v.survival_powerups_activated)]
            } else {
                Seq::empty()
            })
            + (if v.version >= 11 {
                list_tokens::<SkillMap>(v.skill_map)
                    + seq![Token::Word(v.endless_souls)]
                    + seq![Token::Word(v.endless_essence)]
                    + seq![Token::Byte(v.difficulty_skip)]
            } else {
                Seq::empty()
            })
            + seq![Token::Word(v.unknown1)]
            + seq![Token::Word(v.unknown2)]
    }

    /// The fields of the record can be written.
    pub open spec fn body_fits(v: StatsView) -> bool {
        &&& items_fit::<StatsPerDifficulty>(StatsPerDifficulty::heads(v.stats_difficulty))
        &&& (v.version >= 11 ==> list_fits::<SkillMap>(v.skill_map))
    }

    /// A record whose version is not an accepted one fails with that version,
    /// whatever follows it.
    pub proof fn lemma_version_gate(s: Stream)
        requires
            s.block_start(Self::BLOCK_SEQ).1.ok(),
            s.block_start(Self::BLOCK_SEQ).1.word().1.ok(),
            !Self::versions().contains(s.block_start(Self::BLOCK_SEQ).1.word().0),
        ensures
            Self::parse(s).1.fault == Some(
                Fault::UnsupportedVersion(
                    s.block_start(Self::BLOCK_SEQ).1.word().0,
                    Self::versions(),
                ),
            ),
    {
        broadcast use group_sticks, group_records_stick;

        reveal(Stats::parse_body);
    }

    /// A block whose payload ends elsewhere than its length field announced
    /// fails with the offset reached and the offset announced.
    pub proof fn lemma_length_checked(s: Stream)
        requires
            Self::parse_body(s.block_start(Self::BLOCK_SEQ).1).1.ok(),
            Self::parse_body(s.block_start(Self::BLOCK_SEQ).1).1.pos != s.block_start(
                Self::BLOCK_SEQ,
            ).0,
        ensures
            Self::parse(s).1.fault == Some(
                Fault::IncorrectBlockEndPosition(
                    Self::parse_body(s.block_start(Self::BLOCK_SEQ).1).1.pos as u64,
                    s.block_start(Self::BLOCK_SEQ).0,
                ),
            ),
    {
        lemma_block_end_position(
            Self::parse_body(s.block_start(Self::BLOCK_SEQ).1).1,
            s.block_start(Self::BLOCK_SEQ).0,
        );
    }
}

impl View for Stats {
    type V = StatsView;

    open spec fn view(&self) -> StatsView {
        StatsView {
            champion_kills: self.champion_kills,
            deaths: self.deaths,
            hero_kills: self.hero_kills,
            kills: self.kills,
            playtime: self.playtime,
            version: self.version,
            critical_hits_inflicted: self.critical_hits_inflicted,
            critical_hits_received: self.critical_hits_received,
            difficulty_skip: self.difficulty_skip,
            endless_essence: self.endless_essence,
            endless_souls: self.endless_souls,
            experience_from_kills: self.experience_from_kills,
            greatest_damage_inflicted: self.greatest_damage_inflicted,
            greatest_damage_received: self.greatest_damage_received,
            health_potions_used: self.health_potions_used,
            hits_inflicted: self.hits_inflicted,
            hits_received: self.hits_received,
            items_crafted: self.items_crafted,
            last_hit: self.last_hit,
            last_hit_by: self.last_hit_by,
            lore_notes_collected: self.lore_notes_collected,
            mana_potions_used: self.mana_potions_used,
            max_level: self.max_level,
            mythical_relics_crafted: self.mythical_relics_crafted,
            one_shot_chests_opened: self.one_shot_chests_opened,
            relics_crafted: self.relics_crafted,
            shrines_restored: self.shrines_restored,
            skill_map: views(self.skill_map@),
            stats_difficulty: views(self.stats_difficulty@),
            survival_defenses_built: self.survival_defenses_built,
            survival_greatest_score: self.survival_greatest_score,
            survival_greatest_wave: self.survival_greatest_wave,
            survival_powerups_activated: self.survival_powerups_activated,
            transcendent_relics_crafted: self.transcendent_relics_crafted,
            unknown1: self.unknown1,
            unknown2: self.unknown2,
        }
    }
}

impl Default for Stats {
    fn default() -> (r: Stats)
        ensures
            r@ == Stats::blank(),
    {
        let r = Stats {
            champion_kills: 0,
            deaths: 0,
            hero_kills: 0,
            kills: 0,
            playtime: 0,
            version: 0,
            critical_hits_inflicted: 0,
            critical_hits_received: 0,
            difficulty_skip: 0,
            endless_essence: 0,
            endless_souls: 0,
            experience_from_kills: 0,
            greatest_damage_inflicted: 0,
            greatest_damage_received: 0,
            health_potions_used: 0,
            hits_inflicted: 0,
            hits_received: 0,
            items_crafted: 0,
            last_hit: 0,
            last_hit_by: 0,
            lore_notes_collected: 0,
            mana_potions_used: 0,
            max_level: 0,
            mythical_relics_crafted: 0,
            one_shot_chests_opened: 0,
            relics_crafted: 0,
            shrines_restored: 0,
            skill_map: Vec::new(),
            stats_difficulty: [
                StatsPerDifficulty::default(),
                StatsPerDifficulty::default(),
                StatsPerDifficulty::default(),
            ],
            survival_defenses_built: 0,
            survival_greatest_score: 0,
            survival_greatest_wave: 0,
            survival_powerups_activated: 0,
            transcendent_relics_crafted: 0,
            unknown1: 0,
            unknown2: 0,
        };
        proof {
            lemma_views_empty(r.skill_map@);
            assert(views(r.stats_difficulty@) =~= Seq::new(
                3,
                |i: int| StatsPerDifficulty::blank(),
            ));
        }
        r
    }
}

impl ReadWrite for Stats {
    open spec fn parse(s: Stream) -> (StatsView, Stream) {
        let (end, s) = s.block_start(Self::BLOCK_SEQ);
        let (v, s) = Self::parse_body(s);
        (v, s.block_end(end))
    }

    open spec fn tokens(v: StatsView) -> Seq<Token> {
        framed(Self::BLOCK_SEQ, Self::body_tokens(v))
    }

    open spec fn fits(v: StatsView) -> bool {
        Self::body_fits(v) && width(Self::body_tokens(v)) <= u32::MAX
    }

    open spec fn canonical(v: StatsView) -> bool {
        &&& Self::versions().contains(v.version)
        &&& v.stats_difficulty.len() == 3
        &&& (v.version < 9 ==> {
            &&& v.survival_greatest_wave == 0
            &&& v.survival_greatest_score == 0
            &&& v.survival_defenses_built == 0
            &&& v.survival_powerups_activated == 0
        })
        &&& (v.version >= 11 ==> items_canonical::<SkillMap>(v.skill_map))
        &&& (v.version < 11 ==> {
            &&& v.skill_map =~= Seq::<SkillMapView>::empty()
            &&& v.endless_souls == 0
            &&& v.endless_essence == 0
            &&& v.difficulty_skip == 0
        })
    }

    fn read(&mut self, f: &mut GDFile) -> (r: Result<(), FileError>) {
        broadcast use group_sticks, group_records_stick;

        proof {
            reveal(Stats::parse_body);
        }
        let mut b = Block::default();
        f.read_block_start(&mut b, Self::BLOCK_SEQ)?;
        let accepted: [u32; 3] = [7, 9, 11];
        assert(accepted@ =~= Self::versions());
        let version = f.read_version(accepted.as_slice())?;
        let playtime = f.read_int()?;
        let deaths = f.read_int()?;
        let kills = f.read_int()?;
        let experience_from_kills = f.read_int()?;
        let health_potions_used = f.read_int()?;
        let mana_potions_used = f.read_int()?;
        let max_level = f.read_int()?;
        let hits_received = f.read_int()?;
        let hits_inflicted = f.read_int()?;
        let critical_hits_inflicted = f.read_int()?;
        let critical_hits_received = f.read_int()?;
        let greatest_damage_inflicted = f.read_float()?;
        let stats_difficulty = f.read_arr::<StatsPerDifficulty>(3)?;
        let champion_kills = f.read_int()?;
        let last_hit = f.read_float()?;
        let last_hit_by = f.read_float()?;
        let greatest_damage_received = f.read_float()?;
        let hero_kills = f.read_int()?;
        let items_crafted = f.read_int()?;
        let relics_crafted = f.read_int()?;
        let transcendent_relics_crafted = f.read_int()?;
        let mythical_relics_crafted = f.read_int()?;
        let shrines_restored = f.read_int()?;
        let one_shot_chests_opened = f.read_int()?;
        let lore_notes_collected = f.read_int()?;
        let nemesis_kills = f.read_arr::<u32>(3)?;
        let mut survival_greatest_wave: u32 = 0;
        let mut survival_greatest_score: u32 = 0;
        let mut survival_defenses_built: u32 = 0;
        let mut survival_powerups_activated: u32 = 0;
        if version >= 9 {
            survival_greatest_wave = f.read_int()?;
            survival_greatest_score = f.read_int()?;
            survival_defenses_built = f.read_int()?;
            survival_powerups_activated = f.read_int()?;
        }
        let mut skill_map: Vec<SkillMap> = Vec::new();
        let mut endless_souls: u32 = 0;
        let mut endless_essence: u32 = 0;
        let mut difficulty_skip: u8 = 0;
        if version >= 11 {
            skill_map = f.read_vec::<SkillMap>()?;
            endless_souls = f.read_int()?;
            endless_essence = f.read_int()?;
            difficulty_skip = f.read_byte()?;
        }
        let unknown1 = f.read_int()?;
        let unknown2 = f.read_int()?;
        f.read_block_end(&mut b)?;
        proof {
            if version < 11 {
                lemma_views_empty(skill_map@);
            }
        }
        *self = Stats {
            champion_kills,
            deaths,
            hero_kills,
            kills,
            playtime,
            version,
            critical_hits_inflicted,
            critical_hits_received,
            difficulty_skip,
            endless_essence,
            endless_souls,
            experience_from_kills,
            greatest_damage_inflicted,
            greatest_damage_received,
            health_potions_used,
            hits_inflicted,
            hits_received,
            items_crafted,
            last_hit,
            last_hit_by,
            lore_notes_collected,
            mana_potions_used,
            max_level,
            mythical_relics_crafted,
            one_shot_chests_opened,
            relics_crafted,
            shrines_restored,
            skill_map,
            stats_difficulty: StatsPerDifficulty::merge(stats_difficulty, nemesis_kills),
            survival_defenses_built,
            survival_greatest_score,
            survival_greatest_wave,
            survival_powerups_activated,
            transcendent_relics_crafted,
            unknown1,
            unknown2,
        };
        Ok(())
    }

    fn write(&self, f: &mut GDFile) -> (r: Result<(), FileError>) {
        broadcast use group_emit;

        proof {
            reveal(Stats::body_tokens);
        }
        let ghost start = f@;
        let mut b = Block::default();
        f.write_block_start(&mut b, Self::BLOCK_SEQ);
        f.write_int(self.version);
        f.write_int(self.playtime);
        f.write_int(self.deaths);
        f.write_int(self.kills);
        f.write_int(self.experience_from_kills);
        f.write_int(self.health_potions_used);
        f.write_int(self.mana_potions_used);
        f.write_int(self.max_level);
        f.write_int(self.hits_received);
        f.write_int(self.hits_inflicted);
        f.write_int(self.critical_hits_inflicted);
        f.write_int(self.critical_hits_received);
        f.write_float(self.greatest_damage_inflicted);
        proof {
            StatsPerDifficulty::lemma_head_tokens(self@.stats_difficulty);
        }
        f.write_arr(self.stats_difficulty.as_slice())?;
        f.write_int(self.champion_kills);
        f.write_float(self.last_hit);
        f.write_float(self.last_hit_by);
        f.write_float(self.greatest_damage_received);
        f.write_int(self.hero_kills);
        f.write_int(self.items_crafted);
        f.write_int(self.relics_crafted);
        f.write_int(self.transcendent_relics_crafted);
        f.write_int(self.mythical_relics_crafted);
        f.write_int(self.shrines_restored);
        f.write_int(self.one_shot_chests_opened);
        f.write_int(self.lore_notes_collected);
        f.write_arr(StatsPerDifficulty::kills_of(&self.stats_difficulty).as_slice())?;
        if self.version >= 9 {
            f.write_int(self.survival_greatest_wave);
            f.write_int(self.survival_greatest_score);
            f.write_int(self.survival_defenses_built);
            f.write_int(self.survival_powerups_activated);
        }
        if self.version >= 11 {
            f.write_vec(self.skill_map.as_slice())?;
            f.write_int(self.endless_souls);
            f.write_int(self.endless_essence);
            f.write_byte(self.difficulty_skip);
        }
        f.write_int(self.unknown1);
        f.write_int(self.unknown2);
        proof {
            lemma_frame_written(start, Self::BLOCK_SEQ, Self::body_tokens(self@));
        }
        f.write_block_end(&mut b)
    }

    proof fn lemma_fault_sticks(s: Stream) {
        broadcast use group_sticks, group_records_stick;

        reveal(Stats::parse_body);
    }

    proof fn lemma_read_back(s: Stream, v: StatsView) {
        broadcast use group_gaps, group_read_back, group_records_held;

        broadcast use group_kills;
        reveal(Stats::parse_body);
        reveal(Stats::body_tokens);
        lemma_frame_read_back(s, Self::BLOCK_SEQ, Self::body_tokens(v));
    }

    proof fn lemma_write_back(s: Stream) {
        broadcast use
            group_gaps,
            group_sticks,
            group_records_stick,
            group_write_back,
            group_records_read,
        ;

        broadcast use group_kills;
        reveal(Stats::parse_body);
        reveal(Stats::body_tokens);
        let inner = s.block_start(Self::BLOCK_SEQ).1;
        lemma_frame_write_back(
            s,
            Self::BLOCK_SEQ,
            Self::body_tokens(Self::parse_body(inner).0),
        );
    }
}

} // verus!
