use yagde::gd::char;
use yagde::gd::gd_file::GDFile;
use yagde::gd::misc::UIUnknown;
use yagde::gd::skills::Skill;
use yagde::gd::stats::StatsPerDifficulty;

/// A writer of save files that shares no code with the library.
struct Raw {
    out: Vec<u8>,
    key: u32,
    table: [u32; 256],
}

impl Raw {
    fn new(seed: u32) -> Raw {
        let mut k = seed ^ 0x5555_5555;
        let key = k;
        let mut table = [0u32; 256];
        for entry in table.iter_mut() {
            k = k.rotate_right(1);
            k = k.wrapping_mul(39916801);
            *entry = k;
        }
        Raw { out: seed.to_le_bytes().to_vec(), key, table }
    }

    fn word(&mut self, v: u32) {
        let raw = (v ^ self.key).to_le_bytes();
        self.out.extend_from_slice(&raw);
        for b in raw {
            self.key ^= self.table[b as usize];
        }
    }

    fn mark(&mut self, v: u32) {
        self.out.extend_from_slice(&(v ^ self.key).to_le_bytes());
    }

    fn byte(&mut self, v: u8) {
        let raw = v ^ (self.key as u8);
        self.out.push(raw);
        self.key ^= self.table[raw as usize];
    }

    fn string(&mut self, s: &str) {
        self.word(s.chars().count() as u32);
        for c in s.chars() {
            self.byte(c as u32 as u8);
        }
    }

    fn wstring(&mut self, s: &str) {
        self.word(s.chars().count() as u32);
        for c in s.chars() {
            self.byte(c as u32 as u8);
            self.byte((c as u32 >> 8) as u8);
        }
    }

    fn words(&mut self, n: usize) {
        for _ in 0..n {
            self.word(0);
        }
    }

    fn open(&mut self, id: u32) -> (usize, u32) {
        self.word(id);
        let opened = (self.out.len(), self.key);
        self.mark(0);
        opened
    }

    fn close(&mut self, opened: (usize, u32)) {
        let (at, key) = opened;
        let len = (self.out.len() - at - 4) as u32;
        self.out[at..at + 4].copy_from_slice(&(len ^ key).to_le_bytes());
        self.mark(0);
    }
}

/// The bytes of a small save file of version `version` with the given header.
fn save_file(
    seed: u32,
    version: u32,
    name: &str,
    sex: u8,
    hardcore: u8,
    expansion: u8,
    level: u32,
) -> Vec<u8> {
    let mut w = Raw::new(seed);
    w.word(0x5843_4447);
    // header
    w.word(2);
    w.wstring(name);
    w.byte(sex);
    w.string("watchers/class01");
    w.word(level);
    w.byte(hardcore);
    w.byte(expansion);
    w.mark(0);
    w.word(version);
    for i in 0..16 {
        w.byte(i);
    }
    // info
    let b = w.open(1);
    w.word(5);
    w.byte(1);
    w.byte(1);
    w.byte(2);
    w.byte(1);
    w.word(1234);
    w.byte(1);
    w.word(7);
    w.byte(0);
    w.byte(1);
    w.byte(0);
    w.byte(0);
    w.string("creatures/pc/hero01.tex");
    w.word(3);
    w.byte(1);
    w.byte(0);
    w.byte(1);
    w.close(b);
    // bio
    let b = w.open(2);
    w.word(8);
    w.word(level);
    w.word(4321);
    w.word(1);
    w.word(3);
    w.word(0);
    w.word(0);
    w.word(58.0f32.to_bits());
    w.word(50.0f32.to_bits());
    w.word(50.0f32.to_bits());
    w.word(250.0f32.to_bits());
    w.word(250.0f32.to_bits());
    w.close(b);
    // inventory: empty
    let b = w.open(3);
    w.word(5);
    w.byte(0);
    w.close(b);
    // stash: one page with one item
    let b = w.open(4);
    w.word(6);
    w.word(1);
    let page = w.open(0);
    w.word(8);
    w.word(16);
    w.word(1);
    w.string("records/items/sword.dbr");
    w.string("");
    w.string("");
    w.string("");
    w.string("");
    w.word(99);
    w.string("");
    w.string("");
    w.word(0);
    w.string("");
    w.word(0);
    w.word(0);
    w.word(0);
    w.word(1);
    w.word(1.0f32.to_bits());
    w.word(2.0f32.to_bits());
    w.close(page);
    w.close(b);
    // respawns
    let b = w.open(5);
    w.word(1);
    w.words(3);
    for _ in 0..48 {
        w.byte(0);
    }
    w.close(b);
    // teleports, markers, shrines
    let b = w.open(6);
    w.word(1);
    w.word(1);
    for i in 0..16 {
        w.byte(0xf0 + i);
    }
    w.words(2);
    w.close(b);
    let b = w.open(7);
    w.word(1);
    w.words(3);
    w.close(b);
    let b = w.open(17);
    w.word(2);
    w.words(6);
    w.close(b);
    // skills
    let b = w.open(8);
    w.word(5);
    w.word(0);
    w.word(2);
    w.word(0);
    w.word(0);
    w.word(0);
    w.close(b);
    // notes
    let b = w.open(12);
    w.word(1);
    w.word(1);
    w.string("records/notes/first.dbr");
    w.close(b);
    // factions
    let b = w.open(13);
    w.word(5);
    w.word(0);
    w.word(1);
    w.byte(1);
    w.byte(1);
    w.word(100.0f32.to_bits());
    w.word(1.0f32.to_bits());
    w.word(1.0f32.to_bits());
    w.close(b);
    // interface: version 7 with one set of two slots
    let b = w.open(14);
    w.word(7);
    w.byte(0);
    w.word(0);
    w.byte(0);
    for _ in 0..5 {
        w.string("");
        w.string("");
        w.byte(0);
    }
    w.word(1);
    w.word(2);
    w.word(9);
    w.word(0);
    w.string("records/skills/playerclass01/skill.dbr");
    w.byte(0);
    w.string("");
    w.word(0);
    w.word(4);
    w.string("records/items/potion.dbr");
    w.string("up.tex");
    w.string("down.tex");
    w.wstring("Tonic");
    w.word(20.0f32.to_bits());
    w.close(b);
    // tutorials
    let b = w.open(15);
    w.word(1);
    w.word(2);
    w.word(3);
    w.word(5);
    w.close(b);
    // stats
    let b = w.open(16);
    w.word(11);
    w.word(3600);
    w.word(4);
    w.words(9);
    w.word(0);
    for _ in 0..3 {
        w.string("");
        w.word(0);
        w.word(0);
        w.string("");
        w.string("");
    }
    w.word(0);
    w.words(3);
    w.words(8);
    w.words(3);
    w.words(4);
    w.word(0);
    w.word(0);
    w.word(0);
    w.byte(0);
    w.words(2);
    w.close(b);
    if version >= 7 {
        let b = w.open(10);
        w.word(2);
        w.word(1);
        w.string("token");
        w.words(2);
        w.close(b);
    }
    w.out
}

fn open(bytes: Vec<u8>) -> char::Char {
    let mut current_char = char::Char::new();
    let mut f = GDFile::new(bytes);
    current_char.read(&mut f).unwrap();
    current_char
}

fn saved(c: &char::Char) -> Vec<u8> {
    let mut f = GDFile::new(Vec::new());
    c.save_as(&mut f).unwrap();
    f.into_bytes()
}

/// A character with skills and points spent, as a played one has.
fn played() -> char::Char {
    let mut c = open(save_file(0x0bad_cafe, 8, "TestMain", 1, 0, 3, 10));
    c.stats.deaths = 4;
    c.bio.attribute_points = 2;
    c.bio.physique = 106.0f32.to_bits();
    c.bio.cunning = 58.0f32.to_bits();
    c.bio.spirit = 50.0f32.to_bits();
    c.bio.skill_points = 0;
    c.bio.devotion_points = 1;
    c.bio.total_devotion = 3;
    let skill = |name: &str, level: u32, enabled: u8, devotion_level: u32| Skill {
        name: name.to_string(),
        enabled,
        level,
        devotion_level,
        experience: 0,
        active: 0,
        unknown1: 0,
        unknown2: 0,
        auto_cast_skill: "something".to_string(),
        auto_cast_controller: "someone".to_string(),
    };
    c.skills.skills = vec![
        skill("records/skills/playerclass01/_classtree_class01.dbr", 20, 1, 0),
        skill("records/skills/devotion/tier1_01a.dbr", 1, 1, 1),
        skill("records/skills/playerclass01/cadence1.dbr", 7, 1, 0),
        skill("records/skills/devotion/tier1_01b.dbr", 1, 1, 2),
        skill("records/skills/playerclass01/unused.dbr", 5, 0, 0),
        skill("records/skills/misc/other.dbr", 3, 1, 0),
    ];
    c.skills.skill_reclamation_points_used = 6;
    c.skills.devotion_reclamation_points_used = 2;
    c
}

#[test]
fn save_as() {
    let bytes = save_file(0x1234_5678, 8, "TestVanillaFemaleHC", 0, 1, 0, 2);

    let current_char = open(bytes.clone());

    let new_char = current_char.clone();
    let written = saved(&new_char);

    assert_eq!(bytes.len(), written.len());
    assert_eq!(new_char, current_char);
    assert_eq!(written, bytes);
    assert_eq!(open(written), current_char);
}

#[test]
fn rename() {
    const NEW_NAME: &str = "test_rename";
    let bytes = save_file(0x1234_5678, 8, "TestVanillaFemaleHC", 0, 1, 0, 2);

    let current_char = open(bytes);

    let mut new_char = current_char.clone();
    let mut new_file = GDFile::new(Vec::new());
    new_char.rename(NEW_NAME).save_as(&mut new_file).unwrap();
    let written = new_file.into_bytes();

    let mut new_char = open(written);

    assert_eq!(new_char.header.name, NEW_NAME);

    new_char.header.name = current_char.header.name.clone();

    assert_eq!(new_char, current_char);
}

#[test]
fn read_vanilla_female_hc() {
    let current_char = open(save_file(0x1234_5678, 6, "TestVanillaFemaleHC", 0, 1, 0, 2));

    assert_eq!(current_char.header.name, "TestVanillaFemaleHC");
    assert_eq!(current_char.header.hardcore, 1);
    assert_eq!(current_char.header.sex as u8, 0);
    assert_eq!(current_char.header.sex, char::Sex::Female);
    assert_eq!(current_char.header.expansion_status, char::ExpansionStatus::Vanilla);
    assert_eq!(current_char.header.level, 2);
}

#[test]
fn read_vanilla_male_sc() {
    let current_char = open(save_file(0x9e37_79b9, 6, "TestVanillaMaleSC", 1, 0, 0, 2));

    assert_eq!(current_char.header.name, "TestVanillaMaleSC");
    assert_eq!(current_char.header.hardcore, 0);
    assert_eq!(current_char.header.sex as u8, 1);
    assert_eq!(current_char.header.sex, char::Sex::Male);
    assert_eq!(current_char.header.expansion_status, char::ExpansionStatus::Vanilla);
    assert_eq!(current_char.header.level, 2);
}

#[test]
fn read_aom_female_hc() {
    let current_char = open(save_file(0x0000_0001, 7, "TestAoMFemaleHC", 0, 1, 1, 2));

    assert_eq!(current_char.header.name, "TestAoMFemaleHC");
    assert_eq!(current_char.header.hardcore, 1);
    assert_eq!(current_char.header.sex as u8, 0);
    assert_eq!(current_char.header.sex, char::Sex::Female);
    assert_eq!(current_char.header.expansion_status, char::ExpansionStatus::AshesOfMalmouth);
    assert_eq!(current_char.header.level, 2);
}

#[test]
fn read_aom_male_sc() {
    let current_char = open(save_file(0xffff_ffff, 7, "TestAoMMaleSC", 1, 0, 1, 1));

    assert_eq!(current_char.header.name, "TestAoMMaleSC");
    assert_eq!(current_char.header.hardcore, 0);
    assert_eq!(current_char.header.sex as u8, 1);
    assert_eq!(current_char.header.sex, char::Sex::Male);
    assert_eq!(current_char.header.expansion_status, char::ExpansionStatus::AshesOfMalmouth);
    assert_eq!(current_char.header.level, 1);
}

#[test]
fn read_fg_female_hc() {
    let current_char = open(save_file(0x5555_5555, 8, "TestFGFemaleHC", 0, 1, 3, 1));

    assert_eq!(current_char.header.name, "TestFGFemaleHC");
    assert_eq!(current_char.header.hardcore, 1);
    assert_eq!(current_char.header.sex as u8, 0);
    assert_eq!(current_char.header.sex, char::Sex::Female);
    assert_eq!(current_char.header.expansion_status, char::ExpansionStatus::ForgottenGods);
    assert_eq!(current_char.header.level, 1);
}

#[test]
fn read_fg_male_sc() {
    let current_char = open(save_file(0x0f0f_0f0f, 8, "TestFGMaleSC", 1, 0, 3, 1));

    assert_eq!(current_char.header.name, "TestFGMaleSC");
    assert_eq!(current_char.header.hardcore, 0);
    assert_eq!(current_char.header.sex as u8, 1);
    assert_eq!(current_char.header.sex, char::Sex::Male);
    assert_eq!(current_char.header.expansion_status, char::ExpansionStatus::ForgottenGods);
    assert_eq!(current_char.header.level, 1);
}

#[test]
fn read_v121() {
    let current_char = open(save_file(0x7654_3210, 8, "TestOneTwoOne", 1, 1, 2, 100));

    assert_eq!(current_char.header.name, "TestOneTwoOne");
    assert_eq!(current_char.header.hardcore, 1);
    assert_eq!(current_char.header.sex as u8, 1);
    assert_eq!(current_char.header.sex, char::Sex::Male);
    assert_eq!(current_char.header.expansion_status, char::ExpansionStatus::Crucible);
    assert_eq!(current_char.header.level, 100);
}

#[test]
fn reset_deaths() {
    let current_char = open(saved(&played()));
    assert_eq!(current_char.stats.deaths, 4);

    let mut new_char = current_char.clone();
    let mut new_file = GDFile::new(Vec::new());
    new_char.reset_deaths().save_as(&mut new_file).unwrap();
    let new_char = open(new_file.into_bytes());

    assert_eq!(new_char.stats.deaths, 0);
}

#[test]
fn reset_attributes() {
    let current_char = open(saved(&played()));

    let mut new_char = current_char.clone();
    let above = |bits: u32| (f32::from_bits(bits) - 50.0) / 8.0;
    let spent = (above(new_char.bio.cunning) + above(new_char.bio.physique)
        + above(new_char.bio.spirit)) as u32;
    assert_eq!(spent, 8);
    let mut new_file = GDFile::new(Vec::new());
    new_char.reset_attributes(spent).save_as(&mut new_file).unwrap();
    let new_char = open(new_file.into_bytes());

    assert!(new_char.bio.attribute_points >= new_char.header.level);
    assert_eq!(new_char.bio.attribute_points, 10);

    assert_eq!(f32::from_bits(new_char.bio.physique), 50.0);
    assert_eq!(f32::from_bits(new_char.bio.cunning), 50.0);
    assert_eq!(f32::from_bits(new_char.bio.spirit), 50.0);
}

#[test]
fn reset_devotions() {
    let current_char = open(saved(&played()));

    let mut new_char = current_char.clone();
    let mut new_file = GDFile::new(Vec::new());
    new_char.reset_devotions().save_as(&mut new_file).unwrap();
    let new_char = open(new_file.into_bytes());

    assert_eq!(new_char.bio.devotion_points, new_char.bio.total_devotion);
    assert_eq!(new_char.bio.devotion_points, 3);
    assert_eq!(new_char.skills.devotion_reclamation_points_used, 0);
    let names: Vec<&str> = new_char.skills.skills.iter().map(|s| s.name.as_str()).collect();
    assert_eq!(
        names,
        vec![
            "records/skills/playerclass01/_classtree_class01.dbr",
            "records/skills/playerclass01/cadence1.dbr",
            "records/skills/devotion/tier1_01b.dbr",
            "records/skills/playerclass01/unused.dbr",
            "records/skills/misc/other.dbr",
        ]
    );
    let star = &new_char.skills.skills[2];
    assert_eq!((star.enabled, star.level), (1, 0));
    assert_eq!(new_char.skills.skills[0].auto_cast_skill, "");
    assert_eq!(new_char.skills.skills[0].auto_cast_controller, "");
    assert_eq!(new_char.skills.skills[4].auto_cast_skill, "something");
}

#[test]
fn reset_skills() {
    let current_char = open(saved(&played()));

    let mut new_char = current_char.clone();
    let mut new_file = GDFile::new(Vec::new());
    new_char.reset_skills().save_as(&mut new_file).unwrap();
    let new_char = open(new_file.into_bytes());

    /*
       3 Skill Points per level from Levels 2 to 50 (147 Skill Points)
       2 Skill Points per level from Levels 51 to 90 (80 Skill Points)
       1 Skill Point per level from Levels 91 to 100 (10 Skill Points)
    */
    let sp = match new_char.header.level {
        0..=1 => 0,
        2..=50 => (new_char.header.level - 1) * 3,
        51..=90 => 147 + (new_char.header.level - 50) * 2,
        91.. => 147 + 80 + new_char.header.level - 90,
    };
    assert!(new_char.bio.skill_points >= sp);
    assert_eq!(new_char.bio.skill_points, 27);
    assert_eq!(new_char.skills.skill_reclamation_points_used, 0);
    let names: Vec<&str> = new_char.skills.skills.iter().map(|s| s.name.as_str()).collect();
    assert_eq!(
        names,
        vec![
            "records/skills/devotion/tier1_01a.dbr",
            "records/skills/devotion/tier1_01b.dbr",
            "records/skills/misc/other.dbr",
        ]
    );
}

#[test]
fn reset_all_runs_every_reset() {
    let mut new_char = played();
    new_char.reset_all(8);
    let new_char = open(saved(&new_char));

    assert_eq!(new_char.stats.deaths, 0);
    assert_eq!(new_char.bio.attribute_points, 10);
    assert_eq!(new_char.bio.devotion_points, 3);
    assert_eq!(new_char.bio.total_devotion, 3);
    assert_eq!(new_char.bio.skill_points, 27);
    assert_eq!(new_char.skills.skills.len(), 2);
}

#[test]
fn decoded_fields_are_those_written() {
    let c = open(save_file(0x1234_5678, 8, "Ab", 0, 1, 0, 2));
    assert_eq!(c.version, 8);
    assert_eq!(c.header.class_id, "watchers/class01");
    assert_eq!(c.uid.0, [0, 1, 2, 3, 4, 5, 6, 7, 8, 9, 10, 11, 12, 13, 14, 15]);
    assert_eq!(c.info.money, 1234);
    assert_eq!(c.info.texture, "creatures/pc/hero01.tex");
    assert_eq!(c.info.loot_filters, vec![1, 0, 1]);
    assert_eq!(c.info.current_tribute, 7);
    assert_eq!(c.bio.experience, 4321);
    assert_eq!(f32::from_bits(c.bio.physique), 58.0);
    assert_eq!(f32::from_bits(c.bio.health), 250.0);
    assert_eq!(c.inventory.flag, 0);
    assert_eq!(c.inventory.equipment.len(), 12);
    assert_eq!(c.inventory.equipment[11].item.id, "");
    assert_eq!(c.stash.pages.len(), 1);
    assert_eq!(c.stash.pages[0].width, 8);
    assert_eq!(c.stash.pages[0].items[0].item.id, "records/items/sword.dbr");
    assert_eq!(c.stash.pages[0].items[0].item.seed, 99);
    assert_eq!(c.stash.pages[0].items[0].item.stack_count, 1);
    assert_eq!(f32::from_bits(c.stash.pages[0].items[0].y), 2.0);
    assert_eq!(c.teleports.uids[0].len(), 1);
    assert_eq!(c.teleports.uids[0][0].0[15], 0xff);
    assert_eq!(c.shrines.uids.len(), 6);
    assert_eq!(c.skills.masteries_allowed, 2);
    assert_eq!(c.notes.notes, vec!["records/notes/first.dbr".to_string()]);
    assert_eq!(f32::from_bits(c.factions.factions[0].value), 100.0);
    assert_eq!(c.ui.unknowns.len(), 5);
    assert_eq!(c.ui.unknowns[0], UIUnknown::default());
    assert_eq!(c.ui.skill_sets.len(), 1);
    assert_eq!(c.ui.skill_sets[0].id, 9);
    assert_eq!(c.ui.skill_sets[0].slots[0].skill, "records/skills/playerclass01/skill.dbr");
    assert_eq!(c.ui.skill_sets[0].slots[1].label, "Tonic");
    assert_eq!(c.ui.skill_sets[0].slots[1].bitmap_down, "down.tex");
    assert_eq!(f32::from_bits(c.ui.camera_distance), 20.0);
    assert_eq!(c.tutorials.pages, vec![3, 5]);
    assert_eq!(c.stats.playtime, 3600);
    assert_eq!(c.stats.deaths, 4);
    assert_eq!(c.stats.stats_difficulty, std::array::from_fn(|_| StatsPerDifficulty::default()));
    assert_eq!(c.crucible.tokens_per_difficulty[0], vec!["token".to_string()]);
}

#[test]
fn crucible_block_only_from_version_seven() {
    let old = open(save_file(0x1234_5678, 6, "Ab", 0, 1, 0, 2));
    assert_eq!(old.crucible.version, 0);
    assert!(old.crucible.tokens_per_difficulty[0].is_empty());
    let new = open(save_file(0x1234_5678, 7, "Ab", 0, 1, 0, 2));
    assert_eq!(new.crucible.version, 2);
}

#[test]
fn encoding_gives_the_bytes_back() {
    for (seed, version) in [(0x1234_5678u32, 8u32), (0x5555_5555, 6), (0, 7)] {
        let bytes = save_file(seed, version, "TestVanillaFemaleHC", 0, 1, 0, 2);
        let c = open(bytes.clone());
        assert_eq!(c.seed, seed);
        assert_eq!(c.to_bytes().unwrap(), bytes);
        assert_eq!(char::Char::from_bytes(bytes).unwrap(), c);
    }
}

#[test]
fn two_readers_agree() {
    let bytes = save_file(0x1234_5678, 8, "TestVanillaFemaleHC", 0, 1, 0, 2);
    let mut first = GDFile::new(bytes.clone());
    let mut second = GDFile::new(bytes);
    let mut a = char::Char::new();
    let mut b = char::Char::new();
    a.read(&mut first).unwrap();
    b.read(&mut second).unwrap();
    assert_eq!(a, b);
    assert_eq!(first.key(), second.key());
    assert_eq!(first.position(), second.position());
    assert_eq!(first.position(), first.bytes().len());
}

#[test]
fn name_is_read_without_the_blocks() {
    let mut bytes = save_file(0x1234_5678, 8, "TestVanillaFemaleHC", 0, 1, 0, 2);
    bytes.truncate(81);
    let mut c = char::Char::new();
    let mut f = GDFile::new(bytes);
    assert_eq!(c.get_name(&mut f).unwrap(), "TestVanillaFemaleHC");
    assert_eq!(c.header.level, 2);
}
