use yagde::gd::char::{Char, ExpansionStatus, Header, Sex};
use yagde::gd::gd_file::{fill_array, FileError, GDFile, ReadWrite};
use yagde::gd::info::{Bio, CrucibleDifficulty, Difficulty, Info};
use yagde::gd::inventory::{
    Inventory, InventoryEquipment, InventoryItem, InventorySack, Stash, StashItem, StashPage,
};
use yagde::gd::item::Item;
use yagde::gd::lists::{CharUID, MarkerList, RespawnList, ShrineList, TeleportList};
use yagde::gd::misc::{
    Crucible, Faction, FactionList, NoteList, TutorialPages, UISkillSet, UISlot, UIUnknown, UI,
};
use yagde::gd::skills::{ItemSkill, Skill, SkillList};
use yagde::gd::stats::{SkillMap, Stats, StatsPerDifficulty};
use yagde::gd::text;

fn keyed(seed: u32) -> GDFile {
    let mut f = GDFile::new(Vec::new());
    f.write_key(seed);
    f.write_int(0x5843_4447);
    f
}

fn reopened(f: GDFile) -> GDFile {
    let mut g = GDFile::new(f.into_bytes());
    g.validate().unwrap();
    g
}

fn round_trip<T: ReadWrite + Default + PartialEq + std::fmt::Debug>(value: &T) {
    let mut f = keyed(0x1357_9bdf);
    value.write(&mut f).unwrap();
    let key = f.key();
    let mut g = reopened(f);
    let mut back = T::default();
    back.read(&mut g).unwrap();
    assert_eq!(&back, value);
    assert_eq!(g.key(), key);
    assert_eq!(g.position(), g.bytes().len());
}

fn item(id: &str) -> Item {
    Item { id: id.to_string(), seed: 5, stack_count: 2, ..Item::default() }
}

#[test]
fn sex_codes() {
    assert_eq!(Sex::try_from(0u8), Ok(Sex::Female));
    assert_eq!(Sex::try_from(1u8), Ok(Sex::Male));
    assert_eq!(Sex::try_from(2u8), Err(FileError::ParseSexError(2)));
    assert_eq!(Sex::Male.code(), 1);
    assert_eq!(Sex::default(), Sex::Female);
}

#[test]
fn expansion_codes() {
    assert_eq!(ExpansionStatus::try_from(0u8), Ok(ExpansionStatus::Vanilla));
    assert_eq!(ExpansionStatus::try_from(1u8), Ok(ExpansionStatus::AshesOfMalmouth));
    assert_eq!(ExpansionStatus::try_from(2u8), Ok(ExpansionStatus::Crucible));
    assert_eq!(ExpansionStatus::try_from(3u8), Ok(ExpansionStatus::ForgottenGods));
    assert_eq!(ExpansionStatus::try_from(4u8), Err(FileError::ParseExpansionStatusError(4)));
    for code in 0..4u8 {
        assert_eq!(ExpansionStatus::try_from(code).unwrap().code(), code);
    }
}

#[test]
fn difficulty_codes() {
    assert_eq!(Difficulty::from(0), Difficulty::Normal);
    assert_eq!(Difficulty::from(1), Difficulty::Elite);
    assert_eq!(Difficulty::from(2), Difficulty::Ultimate);
    assert_eq!(Difficulty::from(3), Difficulty::Normal);
    assert_eq!(u8::from(Difficulty::Ultimate), 2);
    assert_eq!(CrucibleDifficulty::from(1), CrucibleDifficulty::Challenger);
    assert_eq!(CrucibleDifficulty::from(2), CrucibleDifficulty::Gladiator);
    assert_eq!(CrucibleDifficulty::from(200), CrucibleDifficulty::Aspirant);
    assert_eq!(u8::from(CrucibleDifficulty::Challenger), 1);
}

#[test]
fn header_round_trip() {
    let header = Header {
        name: "Zo\u{eb} \u{142}".to_string(),
        sex: Sex::Male,
        hardcore: 1,
        level: 85,
        expansion_status: ExpansionStatus::ForgottenGods,
        version: 2,
        class_id: "class07".to_string(),
    };
    round_trip(&header);
}

#[test]
fn header_of_version_one_has_no_expansion() {
    let header = Header { version: 1, name: "a".to_string(), ..Header::default() };
    let mut f = keyed(0x5555_5555);
    header.write(&mut f).unwrap();
    assert_eq!(&f.bytes()[8..], &[1, 0, 0, 0, 1, 0, 0, 0, b'a', 0, 0, 0, 0, 0, 0, 0, 0, 0, 0, 0]);
    round_trip(&header);
}

#[test]
fn header_refuses_unknown_codes() {
    let mut f = keyed(0x1234_5678);
    f.write_int(2);
    f.write_wstring("n").unwrap();
    f.write_byte(2);
    let mut g = reopened(f);
    let mut header = Header::default();
    assert_eq!(header.read(&mut g), Err(FileError::ParseSexError(2)));

    let mut f = keyed(0x1234_5678);
    f.write_int(2);
    f.write_wstring("n").unwrap();
    f.write_byte(1);
    f.write_string("").unwrap();
    f.write_int(1);
    f.write_byte(0);
    f.write_byte(9);
    let mut g = reopened(f);
    assert_eq!(header.read(&mut g), Err(FileError::ParseExpansionStatusError(9)));
    assert_eq!(header, Header::default());
}

#[test]
fn version_gate_leaves_the_record_alone() {
    let mut f = keyed(0x1234_5678);
    f.write_int(3);
    f.write_wstring("n").unwrap();
    let mut g = reopened(f);
    let mut header = Header { name: "kept".to_string(), level: 7, ..Header::default() };
    let before = header.clone();
    assert_eq!(header.read(&mut g), Err(FileError::UnsupportedVersion(3, vec![1, 2])));
    assert_eq!(header, before);
}

#[test]
fn version_gates_of_the_blocks() {
    fn gate<T: ReadWrite + Default + PartialEq + std::fmt::Debug>(id: u32, accepted: &[u32]) {
        let mut f = keyed(0x1234_5678);
        f.write_int(id);
        f.write_mark(4);
        f.write_int(99);
        f.write_mark(0);
        let mut g = reopened(f);
        let mut record = T::default();
        assert_eq!(
            record.read(&mut g),
            Err(FileError::UnsupportedVersion(99, accepted.to_vec()))
        );
        assert_eq!(record, T::default());
    }
    gate::<Bio>(2, &[8]);
    gate::<Inventory>(3, &[4, 5]);
    gate::<Stash>(4, &[5, 6]);
    gate::<RespawnList>(5, &[1]);
    gate::<TeleportList>(6, &[1]);
    gate::<ShrineList>(17, &[2]);
    gate::<NoteList>(12, &[1]);
    gate::<UI>(14, &[4, 5, 6, 7]);
    gate::<TutorialPages>(15, &[1]);
    gate::<Stats>(16, &[7, 9, 11]);
    gate::<Crucible>(10, &[2]);
}

#[test]
fn info_version_gate() {
    let mut f = keyed(0x1234_5678);
    f.write_int(1);
    f.write_mark(4);
    f.write_int(6);
    f.write_mark(0);
    let mut g = reopened(f);
    let mut info = Info::default();
    assert_eq!(info.read(&mut g), Err(FileError::UnsupportedVersion(6, vec![3, 4, 5])));
    assert_eq!(info, Info::default());
}

#[test]
fn info_round_trip_in_every_version() {
    for version in [3u32, 4, 5] {
        let info = Info {
            version,
            money: 500,
            difficulty: Difficulty::Elite,
            greatest_difficulty: Difficulty::Ultimate,
            greatest_crucible_difficulty: if version >= 4 {
                CrucibleDifficulty::Gladiator
            } else {
                CrucibleDifficulty::Aspirant
            },
            current_tribute: if version >= 4 { 12 } else { 0 },
            loot_mode: if version <= 4 { 3 } else { 0 },
            loot_filters: if version >= 5 { vec![1, 2, 3] } else { Vec::new() },
            texture: "t.tex".to_string(),
            ..Info::default()
        };
        let mut f = keyed(0x1357_9bdf);
        info.write(&mut f).unwrap();
        let mut g = reopened(f);
        let mut back = Info::default();
        back.read(&mut g).unwrap();
        assert_eq!(back, info);
        assert_eq!(g.position(), g.bytes().len());
    }
}

#[test]
fn info_reads_an_unknown_difficulty_as_the_first() {
    let mut f = keyed(0x5555_5555);
    let info = Info { version: 3, texture: "t".to_string(), ..Info::default() };
    info.write(&mut f).unwrap();
    let mut bytes = f.into_bytes();
    // the difficulty stands behind the block head, the version and two flags
    assert_eq!(bytes[8 + 8 + 4 + 2], 0);
    bytes[8 + 8 + 4 + 2] = 7;
    let mut g = GDFile::new(bytes.clone());
    g.validate().unwrap();
    let mut back = Info::default();
    back.read(&mut g).unwrap();
    assert_eq!(back.difficulty, Difficulty::Normal);
    assert_eq!(back, info);
    let mut again = keyed(0x5555_5555);
    back.write(&mut again).unwrap();
    assert_ne!(again.into_bytes(), bytes);
}

#[test]
fn bio_always_writes_version_eight() {
    let bio = Bio { version: 3, level: 9, ..Bio::default() };
    let mut f = keyed(0x5555_5555);
    bio.write(&mut f).unwrap();
    assert_eq!(&f.bytes()[16..20], &[8, 0, 0, 0]);
    let mut g = reopened(f);
    let mut back = Bio::default();
    back.read(&mut g).unwrap();
    assert_eq!(back, Bio { version: 8, level: 9, ..Bio::default() });
}

#[test]
fn item_round_trip() {
    let it = Item {
        id: "a".to_string(),
        prefix_id: "b".to_string(),
        suffix_id: "c".to_string(),
        modifier_id: "d".to_string(),
        transmute_id: "e".to_string(),
        seed: 1,
        component_id: "f".to_string(),
        component_bonus: "g".to_string(),
        component_seed: 2,
        augment_id: "h".to_string(),
        augment_seed: 3,
        unknown: 4,
        var1: 5,
        stack_count: 6,
    };
    round_trip(&it);
    let mut f = keyed(0x5555_5555);
    it.write(&mut f).unwrap();
    let tail: Vec<u8> = f.bytes()[f.bytes().len() - 16..].to_vec();
    assert_eq!(tail, vec![4, 0, 0, 0, 3, 0, 0, 0, 5, 0, 0, 0, 6, 0, 0, 0]);
}

#[test]
fn inventory_round_trip() {
    let equipment = |attached: u8| InventoryEquipment { attached, item: item("worn") };
    let filled = Inventory {
        version: 5,
        flag: 1,
        focused: 1,
        selected: 0,
        sacks: vec![
            InventorySack {
                temp_bool: 1,
                items: vec![InventoryItem { x: 1, y: 2, item: item("sword") }],
            },
            InventorySack::default(),
        ],
        use_alternate: 1,
        alternate1: 0,
        alternate2: 1,
        equipment: std::array::from_fn(|i| equipment(i as u8)),
        weapon1: [equipment(1), equipment(0)],
        weapon2: [equipment(0), equipment(1)],
    };
    round_trip(&filled);
    round_trip(&Inventory { version: 4, ..Inventory::default() });
}

#[test]
fn empty_inventory_is_version_and_flag() {
    let mut f = keyed(0x5555_5555);
    Inventory { version: 4, ..Inventory::default() }.write(&mut f).unwrap();
    assert_eq!(&f.bytes()[8..], &[3, 0, 0, 0, 5, 0, 0, 0, 4, 0, 0, 0, 0, 0, 0, 0, 0]);
}

#[test]
fn stash_round_trip() {
    let page = |n: u32| StashPage {
        width: n,
        height: 2 * n,
        items: vec![StashItem { x: 1.0f32.to_bits(), y: 2.5f32.to_bits(), item: item("gem") }],
    };
    round_trip(&Stash { version: 6, pages: vec![page(1), page(2), StashPage::default()] });
    round_trip(&Stash { version: 6, pages: Vec::new() });
    round_trip(&Stash { version: 5, pages: vec![page(3)] });
}

#[test]
fn old_stash_has_one_bare_page() {
    let stash =
        Stash { version: 5, pages: vec![StashPage { width: 8, height: 16, items: Vec::new() }] };
    let mut f = keyed(0x5555_5555);
    stash.write(&mut f).unwrap();
    assert_eq!(
        &f.bytes()[8..],
        &[4, 0, 0, 0, 16, 0, 0, 0, 5, 0, 0, 0, 8, 0, 0, 0, 16, 0, 0, 0, 0, 0, 0, 0, 0, 0, 0, 0]
    );
    let stash = Stash { version: 6, ..stash };
    let mut f = keyed(0x5555_5555);
    stash.write(&mut f).unwrap();
    assert_eq!(
        &f.bytes()[8..],
        &[
            4, 0, 0, 0, 32, 0, 0, 0, 6, 0, 0, 0, 1, 0, 0, 0, 0, 0, 0, 0, 12, 0, 0, 0, 8, 0, 0, 0,
            16, 0, 0, 0, 0, 0, 0, 0, 0, 0, 0, 0, 0, 0, 0, 0,
        ]
    );
}

#[test]
fn bare_page_round_trip() {
    let page = StashPage { width: 3, height: 4, items: Vec::new() };
    let mut f = keyed(0x1234_5678);
    page.write_bare(&mut f).unwrap();
    let mut g = reopened(f);
    let mut back = StashPage::default();
    back.read_bare(&mut g).unwrap();
    assert_eq!(back, page);
}

#[test]
fn lists_of_identifiers_round_trip() {
    let uid = |n: u8| CharUID([n; 16]);
    round_trip(&TeleportList {
        version: 1,
        uids: [vec![uid(1), uid(2)], Vec::new(), vec![uid(3)]],
    });
    round_trip(&RespawnList {
        version: 1,
        uids: [Vec::new(), vec![uid(4)], Vec::new()],
        spawns: [uid(5), uid(6), uid(7)],
    });
    round_trip(&ShrineList {
        version: 2,
        uids: [vec![uid(1)], Vec::new(), Vec::new(), vec![uid(2), uid(3)], Vec::new(), Vec::new()],
    });
    round_trip(&uid(9));
}

#[test]
fn crucible_keeps_its_tokens() {
    let crucible = Crucible {
        version: 2,
        tokens_per_difficulty: [
            vec!["a".to_string(), "b".to_string()],
            Vec::new(),
            vec!["c".to_string()],
        ],
    };
    round_trip(&crucible);
}

#[test]
fn stats_round_trip_in_every_version() {
    for version in [7u32, 9, 11] {
        let stats = Stats {
            version,
            playtime: 1,
            deaths: 2,
            kills: 3,
            champion_kills: 4,
            hero_kills: 5,
            greatest_damage_inflicted: 99.5f32.to_bits(),
            stats_difficulty: [
                StatsPerDifficulty {
                    greatest_monster_killed_name: "boss".to_string(),
                    greatest_monster_killed_level: 50,
                    nemesis_kills: 1,
                    ..StatsPerDifficulty::default()
                },
                StatsPerDifficulty { nemesis_kills: 2, ..StatsPerDifficulty::default() },
                StatsPerDifficulty { nemesis_kills: 3, ..StatsPerDifficulty::default() },
            ],
            survival_greatest_wave: if version >= 9 { 30 } else { 0 },
            skill_map: if version >= 11 {
                vec![SkillMap { skill: "s".to_string(), active: 1 }]
            } else {
                Vec::new()
            },
            difficulty_skip: if version >= 11 { 1 } else { 0 },
            unknown1: 7,
            unknown2: 8,
            ..Stats::default()
        };
        round_trip(&stats);
    }
}

#[test]
fn slot_fields_follow_the_type() {
    let skill = UISlot {
        slot_type: 0,
        skill: "skill".to_string(),
        is_item_skill: 1,
        item: "item".to_string(),
        equip_location: 3,
        ..UISlot::default()
    };
    let potion = UISlot {
        slot_type: 4,
        item: "item".to_string(),
        bitmap_up: "up".to_string(),
        bitmap_down: "down".to_string(),
        label: "Label \u{263a}".to_string(),
        ..UISlot::default()
    };
    let empty = UISlot { slot_type: 0xffff_ffff, ..UISlot::default() };
    round_trip(&skill);
    round_trip(&potion);
    round_trip(&empty);
    let mut f = keyed(0x5555_5555);
    empty.write(&mut f).unwrap();
    assert_eq!(&f.bytes()[8..], &[0xff, 0xff, 0xff, 0xff]);
}

#[test]
fn skill_set_with_slots() {
    let set = UISkillSet::with_slots(3);
    assert_eq!(set.id, 0);
    assert!(set.slots.is_empty());
    assert!(set.slots.capacity() >= 3);
    assert_eq!(UISkillSet::with_slots(36), UISkillSet::with_slots(0));
}

#[test]
fn skill_set_reads_as_many_slots_as_it_is_told() {
    let mut f = keyed(0x1234_5678);
    f.write_int(11);
    for slot_type in [1u32, 2, 3] {
        f.write_int(slot_type);
    }
    let mut g = reopened(f);
    let mut set = UISkillSet::with_slots(2);
    set.read(7, 2, &mut g).unwrap();
    assert_eq!(set.id, 11);
    assert_eq!(set.slots.len(), 2);
    assert_eq!(set.slots[1].slot_type, 2);
    assert_eq!(g.read_int().unwrap(), 3);

    let mut f = keyed(0x1234_5678);
    set.write(6, &mut f).unwrap();
    let mut g = reopened(f);
    let mut old = UISkillSet::with_slots(2);
    old.read(6, 2, &mut g).unwrap();
    assert_eq!(old.id, 0);
    assert_eq!(old.slots, set.slots);
}

#[test]
fn interface_block_of_every_version() {
    for (version, slots) in [(4u32, 36usize), (5, 46), (6, 47)] {
        let ui = UI {
            version,
            unknowns: std::array::from_fn(|_| UIUnknown::default()),
            num_skill_set: 1,
            slots_per_set: slots as u32,
            skill_sets: vec![UISkillSet {
                id: 0,
                slots: vec![UISlot { slot_type: 1, ..UISlot::default() }; slots],
            }],
            camera_distance: 12.0f32.to_bits(),
            ..UI::default()
        };
        round_trip(&ui);
    }
    let set =
        |id: u32| UISkillSet { id, slots: vec![UISlot { slot_type: 2, ..UISlot::default() }; 3] };
    round_trip(&UI {
        version: 7,
        unknown1: 1,
        unknown2: 2,
        unknown3: 3,
        unknowns: std::array::from_fn(|i| UIUnknown {
            unknown4: "a".to_string(),
            unknown5: "b".to_string(),
            unknown6: i as u8,
        }),
        num_skill_set: 2,
        slots_per_set: 3,
        skill_sets: vec![set(1), set(2)],
        camera_distance: 0,
    });
}

#[test]
fn changed_count_is_caught_at_the_end_of_the_block() {
    let notes = NoteList { version: 1, notes: vec!["note".to_string(), "more".to_string()] };
    let mut f = keyed(0x5555_5555);
    notes.write(&mut f).unwrap();
    let mut bytes = f.into_bytes();
    // the number of notes stands behind the block head and the version
    assert_eq!(bytes[8 + 8 + 4], 2);
    bytes[8 + 8 + 4] = 1;
    let mut g = GDFile::new(bytes);
    g.validate().unwrap();
    let mut back = NoteList::default();
    assert_eq!(back.read(&mut g), Err(FileError::IncorrectBlockEndPosition(32, 40)));
    assert_eq!(back, NoteList::default());
}

#[test]
fn changed_length_of_a_string_is_caught_at_the_end_of_the_block() {
    let notes = NoteList { version: 1, notes: vec!["note".to_string()] };
    let mut f = keyed(0x5555_5555);
    notes.write(&mut f).unwrap();
    let mut bytes = f.into_bytes();
    assert_eq!(bytes[8 + 8 + 8], 4);
    bytes[8 + 8 + 8] = 3;
    let mut g = GDFile::new(bytes);
    g.validate().unwrap();
    let mut back = NoteList::default();
    assert_eq!(back.read(&mut g), Err(FileError::IncorrectBlockEndPosition(31, 32)));
}

#[test]
fn changed_byte_under_a_key_is_caught() {
    let pages = TutorialPages { version: 1, pages: vec![1, 2, 3] };
    let mut f = keyed(0x1234_5678);
    pages.write(&mut f).unwrap();
    let mut bytes = f.into_bytes();
    let last_page = bytes.len() - 5;
    bytes[last_page] ^= 0x40;
    let mut g = GDFile::new(bytes);
    g.validate().unwrap();
    let mut back = TutorialPages::default();
    assert!(matches!(back.read(&mut g), Err(FileError::FailedToValidateBlockEnding(_, 0))));
}

#[test]
fn unencodable_record() {
    let header = Header { version: 2, class_id: "\u{263a}".to_string(), ..Header::default() };
    let mut f = keyed(0x1234_5678);
    assert_eq!(header.write(&mut f), Err(FileError::Unencodable));
    let mut c = Char::new();
    c.header.name = "\u{1f600}".to_string();
    assert_eq!(c.to_bytes(), Err(FileError::Unencodable));
}

#[test]
fn file_version_gate() {
    let mut f = keyed(0x1234_5678);
    Header { version: 2, ..Header::default() }.write(&mut f).unwrap();
    f.write_mark(0);
    f.write_int(9);
    let mut c = Char::new();
    assert_eq!(
        Char::from_bytes(f.bytes().clone()),
        Err(FileError::UnsupportedVersion(9, vec![6, 7, 8]))
    );
    let mut g = GDFile::new(f.into_bytes());
    assert_eq!(c.read(&mut g), Err(FileError::UnsupportedVersion(9, vec![6, 7, 8])));
    assert_eq!(c, Char::new());
}

#[test]
fn header_must_end_in_zero() {
    let mut f = keyed(0x1234_5678);
    Header { version: 2, ..Header::default() }.write(&mut f).unwrap();
    f.write_mark(3);
    f.write_int(8);
    assert_eq!(
        Char::from_bytes(f.into_bytes()),
        Err(FileError::FailedToValidateBlockEnding(3, 0))
    );
}

#[test]
fn blank_character() {
    let c = Char::new();
    assert_eq!(c, Char::default());
    assert_eq!(c.seed, 0x5555_5555);
    assert_eq!(c.stats.stats_difficulty, std::array::from_fn(|_| StatsPerDifficulty::default()));
    assert_eq!(c.ui.unknowns, std::array::from_fn(|_| UIUnknown::default()));
    assert_eq!(c.inventory.equipment.len(), 12);
    assert_eq!(c.inventory.weapon1.len(), 2);
    assert_eq!(c.inventory.weapon2.len(), 2);
    assert_eq!(c.version, 0);
    assert_eq!(c.header.name, "");
    assert_eq!(c.uid, CharUID([0; 16]));
    assert!(c.skills.skills.is_empty());
}

#[test]
fn written_file_starts_with_seed_and_magic_number() {
    let c = Char::new();
    let mut f = GDFile::new(Vec::new());
    c.write(&mut f).unwrap();
    assert_eq!(&f.bytes()[..8], &[0x55, 0x55, 0x55, 0x55, 0x47, 0x44, 0x43, 0x58]);
    assert_eq!(c.to_bytes().unwrap(), f.into_bytes());
    let keyed = Char { seed: 0x1234_5678, ..c }.to_bytes().unwrap();
    assert_eq!(&keyed[..8], &[0x78, 0x56, 0x34, 0x12, 0x6a, 0x47, 0x22, 0x1f]);
}

#[test]
fn searching_names() {
    assert!(text::starts_with("records/skills/devotion/a", "records/skills/devotion"));
    assert!(!text::starts_with("xrecords/skills/devotion/a", "records/skills/devotion"));
    assert!(!text::starts_with("rec", "records"));
    assert!(text::starts_with("abc", ""));
    assert!(text::contains("xrecords/skills/playerclass01", "records/skills/playerclass"));
    assert!(text::contains("abc", "c"));
    assert!(text::contains("abc", ""));
    assert!(!text::contains("abc", "ca"));
    assert!(!text::contains("ab", "abc"));
    assert!(text::matches_at("h\u{e9}llo", "llo", 2));
    assert!(!text::matches_at("h\u{e9}llo", "llo", 1));
}

#[test]
fn skills_round_trip() {
    let list = SkillList {
        version: 5,
        skills: vec![
            Skill {
                name: "records/skills/playerclass01/a.dbr".to_string(),
                enabled: 1,
                level: 12,
                devotion_level: 0,
                experience: 7,
                active: 1,
                unknown1: 2,
                unknown2: 3,
                auto_cast_skill: "x".to_string(),
                auto_cast_controller: "y".to_string(),
            },
            Skill::default(),
        ],
        masteries_allowed: 2,
        skill_reclamation_points_used: 3,
        devotion_reclamation_points_used: 4,
        item_skills: vec![ItemSkill {
            name: "n".to_string(),
            auto_cast_skill: "a".to_string(),
            auto_cast_controller: "c".to_string(),
            item_slot: 9,
            item_id: "i".to_string(),
        }],
    };
    round_trip(&list);
    let mut f = keyed(0x5555_5555);
    Skill { name: "s".to_string(), level: 1, enabled: 2, devotion_level: 3, ..Skill::default() }
        .write(&mut f)
        .unwrap();
    assert_eq!(&f.bytes()[8..22], &[1, 0, 0, 0, b's', 1, 0, 0, 0, 2, 3, 0, 0, 0]);
}

#[test]
fn factions_and_markers_round_trip() {
    round_trip(&FactionList {
        version: 5,
        faction: 3,
        factions: vec![
            Faction {
                value: 1500.0f32.to_bits(),
                modified: 1,
                unlocked: 1,
                positive_boost: 1.5f32.to_bits(),
                negative_boost: 0.5f32.to_bits(),
            },
            Faction::default(),
        ],
    });
    round_trip(&MarkerList {
        version: 1,
        uids: [vec![CharUID([7; 16])], vec![CharUID([8; 16]), CharUID([9; 16])], Vec::new()],
    });
    let mut f = keyed(0x5555_5555);
    Faction { value: 3, modified: 1, unlocked: 2, positive_boost: 4, negative_boost: 5 }
        .write(&mut f)
        .unwrap();
    assert_eq!(&f.bytes()[8..], &[1, 2, 3, 0, 0, 0, 4, 0, 0, 0, 5, 0, 0, 0]);
}

#[test]
fn record_cut_short_is_left_alone() {
    let stats = Stats {
        version: 7,
        ..Stats::default()
    };
    let mut f = keyed(0x1234_5678);
    stats.write(&mut f).unwrap();
    let mut bytes = f.into_bytes();
    bytes.truncate(bytes.len() - 10);
    let mut g = GDFile::new(bytes);
    g.validate().unwrap();
    let mut back = Stats { deaths: 5, ..Stats::default() };
    assert_eq!(back.read(&mut g), Err(FileError::UnexpectedEof));
    assert_eq!(back, Stats { deaths: 5, ..Stats::default() });
}

#[test]
fn blank_character_is_written_with_every_block() {
    let c = Char::new();
    let mut f = GDFile::new(Vec::new());
    c.write(&mut f).unwrap();
    let bytes = f.into_bytes();
    assert_eq!(bytes.len(), 710);
    assert_eq!(&bytes[..8], &[0x55, 0x55, 0x55, 0x55, 0x47, 0x44, 0x43, 0x58]);
    assert_eq!(&bytes[706..], &[0, 0, 0, 0]);
    // the head of the last block: the statistics, with their length
    assert_eq!(&bytes[710 - 4 - 180 - 8..710 - 4 - 180], &[16, 0, 0, 0, 180, 0, 0, 0]);
}

#[test]
fn blank_blocks_hold_their_tables() {
    let mut f = keyed(0x5555_5555);
    Stats::default().write(&mut f).unwrap();
    assert_eq!(f.bytes().len() - 8, 192);
    let mut f = keyed(0x5555_5555);
    UI::default().write(&mut f).unwrap();
    assert_eq!(f.bytes().len() - 8, 4 + 4 + 4 + 1 + 4 + 1 + 5 * 9 + 4 + 4);
    let mut f = keyed(0x5555_5555);
    Inventory { flag: 1, ..Inventory::default() }.write(&mut f).unwrap();
    let item = 9 * 4 + 5 * 4;
    assert_eq!(f.bytes().len() - 8, 8 + 4 + 1 + 12 + 1 + 12 * (item + 1) + 2 + 4 * (item + 1) + 4);
}

#[test]
fn written_under_the_seed_that_was_read() {
    let mut c = Char::new();
    c.seed = 0x0bad_cafe;
    c.header.version = 2;
    c.header.name = "Kept".to_string();
    let bytes = c.to_bytes().unwrap();
    assert_eq!(&bytes[..4], &0x0bad_cafeu32.to_le_bytes());
    let mut header_only = Char::new();
    let mut g = GDFile::new(bytes.clone());
    assert_eq!(header_only.get_name(&mut g).unwrap(), "Kept");
    assert_eq!(header_only.seed, 0x5555_5555);
}

#[test]
fn nemesis_kills_stand_behind_the_other_statistics() {
    let stats = Stats {
        version: 7,
        stats_difficulty: [
            StatsPerDifficulty { nemesis_kills: 1, ..StatsPerDifficulty::default() },
            StatsPerDifficulty { nemesis_kills: 2, ..StatsPerDifficulty::default() },
            StatsPerDifficulty { nemesis_kills: 3, ..StatsPerDifficulty::default() },
        ],
        unknown1: 4,
        unknown2: 5,
        ..Stats::default()
    };
    let mut f = keyed(0x5555_5555);
    stats.write(&mut f).unwrap();
    let bytes = f.into_bytes();
    let tail: Vec<u8> = bytes[bytes.len() - 24..].to_vec();
    assert_eq!(tail, vec![1, 0, 0, 0, 2, 0, 0, 0, 3, 0, 0, 0, 4, 0, 0, 0, 5, 0, 0, 0, 0, 0, 0, 0]);
    round_trip(&stats);
    let heads = stats.stats_difficulty.to_vec();
    assert_eq!(StatsPerDifficulty::merge(heads, vec![7, 8, 9])[2].nemesis_kills, 9);
    assert_eq!(StatsPerDifficulty::kills_of(&stats.stats_difficulty), vec![1, 2, 3]);
}

#[test]
fn arrays_are_filled_in_order() {
    let filled = fill_array(vec![1u8, 2, 3], [0u8; 3]);
    assert_eq!(filled, [1, 2, 3]);
}
