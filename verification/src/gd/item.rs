//! An item, as it lies in a sack, in the stash or on the character.

use crate::gd::gd_file::{
    group_records_held, group_records_read, group_records_stick, FileError, GDFile, ReadWrite,
};
use crate::gd::wire::{
    group_emit, group_read_back, group_sticks, group_write_back, string_fits, string_tokens, Stream,
    Token,
};
use vstd::prelude::*;

verus! {

/// An item: the records that describe it, the seeds of its random
/// properties, and how many of it are stacked.
#[derive(Debug, Clone, PartialEq, Eq)]
pub struct Item {
    pub id: String,
    pub prefix_id: String,
    pub suffix_id: String,
    pub modifier_id: String,
    pub transmute_id: String,
    pub seed: u32,
    pub component_id: String,
    pub component_bonus: String,
    pub component_seed: u32,
    pub augment_id: String,
    pub augment_seed: u32,
    pub unknown: u32,
    pub var1: u32,
    pub stack_count: u32,
}

/// The mathematical value of an [`Item`].
pub struct ItemView {
    pub id: Seq<char>,
    pub prefix_id: Seq<char>,
    pub suffix_id: Seq<char>,
    pub modifier_id: Seq<char>,
    pub transmute_id: Seq<char>,
    pub seed: u32,
    pub component_id: Seq<char>,
    pub component_bonus: Seq<char>,
    pub component_seed: u32,
    pub augment_id: Seq<char>,
    pub augment_seed: u32,
    pub unknown: u32,
    pub var1: u32,
    pub stack_count: u32,
}

impl Item {
    /// The record whose every field is empty or zero.
    pub open spec fn blank() -> ItemView {
        ItemView {
            id: Seq::empty(),
            prefix_id: Seq::empty(),
            suffix_id: Seq::empty(),
            modifier_id: Seq::empty(),
            transmute_id: Seq::empty(),
            seed: 0,
            component_id: Seq::empty(),
            component_bonus: Seq::empty(),
            component_seed: 0,
            augment_id: Seq::empty(),
            augment_seed: 0,
            unknown: 0,
            var1: 0,
            stack_count: 0,
        }
    }

    /// What a reader makes of the fields of the record.
    #[verifier::opaque]
    pub open spec fn parse_body(s: Stream) -> (ItemView, Stream) {
        let (id, s) = s.string();
        let (prefix_id, s) = s.string();
        let (suffix_id, s) = s.string();
        let (modifier_id, s) = s.string();
        let (transmute_id, s) = s.string();
        let (seed, s) = s.word();
        let (component_id, s) = s.string();
        let (component_bonus, s) = s.string();
        let (component_seed, s) = s.word();
        let (augment_id, s) = s.string();
        let (unknown, s) = s.word();
        let (augment_seed, s) = s.word();
        let (var1, s) = s.word();
        let (stack_count, s) = s.word();
        (
            ItemView {
                id,
                prefix_id,
                suffix_id,
                modifier_id,
                transmute_id,
                seed,
                component_id,
                component_bonus,
                component_seed,
                augment_id,
                augment_seed,
                unknown,
                var1,
                stack_count,
            },
            s,
        )
    }

    /// The fields of the record, in file order.
    #[verifier::opaque]
    pub open spec fn body_tokens(v: ItemView) -> Seq<Token> {
        string_tokens(v.id)
            + string_tokens(v.prefix_id)
            + string_tokens(v.suffix_id)
            + string_tokens(v.modifier_id)
            + string_tokens(v.transmute_id)
            + seq![Token::Word(v.seed)]
            + string_tokens(v.component_id)
            + string_tokens(v.component_bonus)
            + seq![Token::Word(v.component_seed)]
            + string_tokens(v.augment_id)
            + seq![Token::Word(v.unknown)]
            + seq![Token::Word(v.augment_seed)]
            + seq![Token::Word(v.var1)]
            + seq![Token::Word(v.stack_count)]
    }

    /// The fields of the record can be written.
    pub open spec fn body_fits(v: ItemView) -> bool {
        &&& string_fits(v.id)
        &&& string_fits(v.prefix_id)
        &&& string_fits(v.suffix_id)
        &&& string_fits(v.modifier_id)
        &&& string_fits(v.transmute_id)
        &&& string_fits(v.component_id)
        &&& string_fits(v.component_bonus)
        &&& string_fits(v.augment_id)
    }
}

impl View for Item {
    type V = ItemView;

    open spec fn view(&self) -> ItemView {
        ItemView {
            id: self.id@,
            prefix_id: self.prefix_id@,
            suffix_id: self.suffix_id@,
            modifier_id: self.modifier_id@,
            transmute_id: self.transmute_id@,
            seed: self.seed,
            component_id: self.component_id@,
            component_bonus: self.component_bonus@,
            component_seed: self.component_seed,
            augment_id: self.augment_id@,
            augment_seed: self.augment_seed,
            unknown: self.unknown,
            var1: self.var1,
            stack_count: self.stack_count,
        }
    }
}

impl Default for Item {
    fn default() -> (r: Item)
        ensures
            r@ == Item::blank(),
    {
        Item {
            id: String::new(),
            prefix_id: String::new(),
            suffix_id: String::new(),
            modifier_id: String::new(),
            transmute_id: String::new(),
            seed: 0,
            component_id: String::new(),
            component_bonus: String::new(),
            component_seed: 0,
            augment_id: String::new(),
            augment_seed: 0,
            unknown: 0,
            var1: 0,
            stack_count: 0,
        }
    }
}

impl ReadWrite for Item {
    open spec fn parse(s: Stream) -> (ItemView, Stream) {
        Self::parse_body(s)
    }

    open spec fn tokens(v: ItemView) -> Seq<Token> {
        Self::body_tokens(v)
    }

    open spec fn fits(v: ItemView) -> bool {
        Self::body_fits(v)
    }

    open spec fn canonical(v: ItemView) -> bool {
        true
    }

    fn read(&mut self, f: &mut GDFile) -> (r: Result<(), FileError>) {
        broadcast use group_sticks, group_records_stick;

        proof {
            reveal(Item::parse_body);
        }
        let id = f.read_string()?;
        let prefix_id = f.read_string()?;
        let suffix_id = f.read_string()?;
        let modifier_id = f.read_string()?;
        let transmute_id = f.read_string()?;
        let seed = f.read_int()?;
        let component_id = f.read_string()?;
        let component_bonus = f.read_string()?;
        let component_seed = f.read_int()?;
        let augment_id = f.read_string()?;
        let unknown = f.read_int()?;
        let augment_seed = f.read_int()?;
        let var1 = f.read_int()?;
        let stack_count = f.read_int()?;
        *self = Item {
            id,
            prefix_id,
            suffix_id,
            modifier_id,
            transmute_id,
            seed,
            component_id,
            component_bonus,
            component_seed,
            augment_id,
            augment_seed,
            unknown,
            var1,
            stack_count,
        };
        Ok(())
    }

    fn write(&self, f: &mut GDFile) -> (r: Result<(), FileError>) {
        broadcast use group_emit;

        proof {
            reveal(Item::body_tokens);
        }
        f.write_string(self.id.as_str())?;
        f.write_string(self.prefix_id.as_str())?;
        f.write_string(self.suffix_id.as_str())?;
        f.write_string(self.modifier_id.as_str())?;
        f.write_string(self.transmute_id.as_str())?;
        f.write_int(self.seed);
        f.write_string(self.component_id.as_str())?;
        f.write_string(self.component_bonus.as_str())?;
        f.write_int(self.component_seed);
        f.write_string(self.augment_id.as_str())?;
        f.write_int(self.unknown);
        f.write_int(self.augment_seed);
        f.write_int(self.var1);
        f.write_int(self.stack_count);
        Ok(())
    }

    proof fn lemma_fault_sticks(s: Stream) {
        broadcast use group_sticks, group_records_stick;

        reveal(Item::parse_body);
    }

    proof fn lemma_read_back(s: Stream, v: ItemView) {
        broadcast use group_read_back, group_records_held;

        reveal(Item::parse_body);
        reveal(Item::body_tokens);
    }

    proof fn lemma_write_back(s: Stream) {
        broadcast use group_sticks, group_records_stick, group_write_back, group_records_read;

        reveal(Item::parse_body);
        reveal(Item::body_tokens);
    }
}

} // verus!
