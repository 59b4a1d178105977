//! The inventory of a character and its shared stash.

use crate::gd::gd_file::{
    fill_array, group_records_held, group_records_read, group_records_stick, item_tokens,
    items_canonical, items_fit, lemma_views_empty, list_fits, list_tokens, parse_items, parse_list,
    views, wrote, Block, Fault, FileError, GDFile, ReadWrite,
};
use crate::gd::item::{Item, ItemView};
use crate::gd::wire::{
    framed, group_emit, group_gaps, group_read_back, group_sticks, group_write_back,
    lemma_block_end_position, lemma_frame_read_back, lemma_frame_write_back, lemma_frame_written,
    width, Stream, Token,
};
use vstd::prelude::*;

verus! {

/// An item in the stash, and where it lies on its page.
#[derive(Debug, Clone, PartialEq, Eq)]
pub struct StashItem {
    /// A single-precision float, held as its bit pattern.
    pub x: u32,
    /// A single-precision float, held as its bit pattern.
    pub y: u32,
    pub item: Item,
}

/// The mathematical value of a [`StashItem`].
pub struct StashItemView {
    pub x: u32,
    pub y: u32,
    pub item: ItemView,
}

impl StashItem {
    /// The record whose every field is empty or zero.
    pub open spec fn blank() -> StashItemView {
        StashItemView {
            x: 0,
            y: 0,
            item: Item::blank(),
        }
    }

    /// What a reader makes of the fields of the record.
    #[verifier::opaque]
    pub open spec fn parse_body(s: Stream) -> (StashItemView, Stream) {
        let (item, s) = Item::parse(s);
        let (x, s) = s.word();
        let (y, s) = s.word();
        (
            StashItemView {
                x,
                y,
                item,
            },
            s,
        )
    }

    /// The fields of the record, in file order.
    #[verifier::opaque]
    pub open spec fn body_tokens(v: StashItemView) -> Seq<Token> {
        Item::tokens(v.item)
            + seq![Token::Word(v.x)]
            + seq![Token::Word(v.y)]
    }

    /// The fields of the record can be written.
    pub open spec fn body_fits(v: StashItemView) -> bool {
        &&& Item::fits(v.item)
    }
}

impl View for StashItem {
    type V = StashItemView;

    open spec fn view(&self) -> StashItemView {
        StashItemView {
            x: self.x,
            y: self.y,
            item: self.item@,
        }
    }
}

impl Default for StashItem {
    fn default() -> (r: StashItem)
        ensures
            r@ == StashItem::blank(),
    {
        StashItem {
            x: 0,
            y: 0,
            item: Item::default(),
        }
    }
}

impl ReadWrite for StashItem {
    open spec fn parse(s: Stream) -> (StashItemView, Stream) {
        Self::parse_body(s)
    }

    open spec fn tokens(v: StashItemView) -> Seq<Token> {
        Self::body_tokens(v)
    }

    open spec fn fits(v: StashItemView) -> bool {
        Self::body_fits(v)
    }

    open spec fn canonical(v: StashItemView) -> bool {
        &&& Item::canonical(v.item)
    }

    fn read(&mut self, f: &mut GDFile) -> (r: Result<(), FileError>) {
        broadcast use group_sticks, group_records_stick;

        proof {
            reveal(StashItem::parse_body);
        }
        let mut item = Item::default();
        item.read(f)?;
        let x = f.read_float()?;
        let y = f.read_float()?;
        *self = StashItem {
            x,
            y,
            item,
        };
        Ok(())
    }

    fn write(&self, f: &mut GDFile) -> (r: Result<(), FileError>) {
        broadcast use group_emit;

        proof {
            reveal(StashItem::body_tokens);
        }
        self.item.write(f)?;
        f.write_float(self.x);
        f.write_float(self.y);
        Ok(())
    }

    proof fn lemma_fault_sticks(s: Stream) {
        broadcast use group_sticks, group_records_stick;

        reveal(StashItem::parse_body);
    }

    proof fn lemma_read_back(s: Stream, v: StashItemView) {
        broadcast use group_read_back, group_records_held;

        reveal(StashItem::parse_body);
        reveal(StashItem::body_tokens);
    }

    proof fn lemma_write_back(s: Stream) {
        broadcast use group_sticks, group_records_stick, group_write_back, group_records_read;

        reveal(StashItem::parse_body);
        reveal(StashItem::body_tokens);
    }
}

/// One page of the stash.
#[derive(Debug, Clone, PartialEq, Eq)]
pub struct StashPage {
    pub width: u32,
    pub height: u32,
    pub items: Vec<StashItem>,
}

/// The mathematical value of a [`StashPage`].
pub struct StashPageView {
    pub width: u32,
    pub height: u32,
    pub items: Seq<StashItemView>,
}

impl StashPage {
    /// The sequence id of the block.
    pub const BLOCK_SEQ: u32 = 0;

    /// The record whose every field is empty or zero.
    pub open spec fn blank() -> StashPageView {
        StashPageView {
            width: 0,
            height: 0,
            items: Seq::empty(),
        }
    }

    /// What a reader makes of the fields of the record.
    #[verifier::opaque]
    pub open spec fn parse_body(s: Stream) -> (StashPageView, Stream) {
        let (width, s) = s.word();
        let (height, s) = s.word();
        let (items, s) = parse_list::<StashItem>(s);
        (
            StashPageView {
                width,
                height,
                items,
            },
            s,
        )
    }

    /// The fields of the record, in file order.
    #[verifier::opaque]
    pub open spec fn body_tokens(v: StashPageView) -> Seq<Token> {
        seq![Token::Word(v.width)]
            + seq![Token::Word(v.height)]
            + list_tokens::<StashItem>(v.items)
    }

    /// The fields of the record can be written.
    pub open spec fn body_fits(v: StashPageView) -> bool {
        &&& list_fits::<StashItem>(v.items)
    }

    /// Reads a page that stands in no block, as files before version 6 hold
    /// it. On failure the page is left as it was.
    pub fn read_bare(&mut self, f: &mut GDFile) -> (r: Result<(), FileError>)
        requires
            old(f).wf(),
        ensures
            final(f).wf(),
            match r {
                Ok(()) => Self::parse_body(old(f)@) == (final(self)@, final(f)@),
                Err(e) => Self::parse_body(old(f)@).1 == final(f)@.fail(e@) && *final(self)
                    == *old(self),
            },
    {
        broadcast use group_sticks, group_records_stick;

        proof {
            reveal(StashPage::parse_body);
        }
        let width = f.read_int()?;
        let height = f.read_int()?;
        let items = f.read_vec::<StashItem>()?;
        *self = StashPage { width, height, items };
        Ok(())
    }

    /// Writes a page without a block around it, as files before version 6
    /// hold it.
    pub fn write_bare(&self, f: &mut GDFile) -> (r: Result<(), FileError>)
        requires
            old(f).wf(),
        ensures
            final(f).wf(),
            wrote(old(f)@, Self::body_tokens(self@), Self::body_fits(self@), r, final(f)@),
    {
        broadcast use group_emit;

        proof {
            reveal(StashPage::body_tokens);
        }
        f.write_int(self.width);
        f.write_int(self.height);
        f.write_vec(self.items.as_slice())
    }

    /// Nothing is read of a bare page from a stream that has failed.
    pub proof fn lemma_body_sticks(s: Stream)
        requires
            !s.ok(),
        ensures
            Self::parse_body(s).1 == s,
    {
        broadcast use group_sticks, group_records_stick;

        reveal(StashPage::parse_body);
    }

    /// Reading a bare page that was written gives the page back.
    pub proof fn lemma_body_read_back(s: Stream, v: StashPageView)
        requires
            s.wf(),
            s.ok(),
            Self::canonical(v),
            Self::body_fits(v),
            s.holds(Self::body_tokens(v)),
        ensures
            Self::parse_body(s) == (v, s.skip(Self::body_tokens(v))),
    {
        broadcast use group_read_back, group_records_held;

        reveal(StashPage::parse_body);
        reveal(StashPage::body_tokens);
    }

    /// Writing a bare page that was read gives the bytes back.
    pub proof fn lemma_body_write_back(s: Stream)
        requires
            s.wf(),
            s.ok(),
            Self::parse_body(s).1.ok(),
        ensures
            Self::canonical(Self::parse_body(s).0),
            Self::body_fits(Self::parse_body(s).0),
            s.holds(Self::body_tokens(Self::parse_body(s).0)),
            Self::parse_body(s).1 == s.skip(Self::body_tokens(Self::parse_body(s).0)),
            Self::parse_body(s).1.wf(),
    {
        broadcast use group_sticks, group_records_stick, group_write_back, group_records_read;

        reveal(StashPage::parse_body);
        reveal(StashPage::body_tokens);
    }
}

impl View for StashPage {
    type V = StashPageView;

    open spec fn view(&self) -> StashPageView {
        StashPageView {
            width: self.width,
            height: self.height,
            items: views(self.items@),
        }
    }
}

impl Default for StashPage {
    fn default() -> (r: StashPage)
        ensures
            r@ == StashPage::blank(),
    {
        let r = StashPage {
            width: 0,
            height: 0,
            items: Vec::new(),
        };
        proof {
            lemma_views_empty(r.items@);
        }
        r
    }
}

impl ReadWrite for StashPage {
    open spec fn parse(s: Stream) -> (StashPageView, Stream) {
        let (end, s) = s.block_start(Self::BLOCK_SEQ);
        let (v, s) = Self::parse_body(s);
        (v, s.block_end(end))
    }

    open spec fn tokens(v: StashPageView) -> Seq<Token> {
        framed(Self::BLOCK_SEQ, Self::body_tokens(v))
    }

    open spec fn fits(v: StashPageView) -> bool {
        Self::body_fits(v) && width(Self::body_tokens(v)) <= u32::MAX
    }

    open spec fn canonical(v: StashPageView) -> bool {
        &&& items_canonical::<StashItem>(v.items)
    }

    fn read(&mut self, f: &mut GDFile) -> (r: Result<(), FileError>) {
        broadcast use group_sticks, group_records_stick;

        proof {
            reveal(StashPage::parse_body);
        }
        let mut b = Block::default();
        f.read_block_start(&mut b, Self::BLOCK_SEQ)?;
        let mut page = StashPage::default();
        page.read_bare(f)?;
        f.read_block_end(&mut b)?;
        *self = page;
        Ok(())
    }

    fn write(&self, f: &mut GDFile) -> (r: Result<(), FileError>) {
        broadcast use group_emit;

        let ghost start = f@;
        let mut b = Block::default();
        f.write_block_start(&mut b, Self::BLOCK_SEQ);
        self.write_bare(f)?;
        proof {
            lemma_frame_written(start, Self::BLOCK_SEQ, Self::body_tokens(self@));
        }
        f.write_block_end(&mut b)
    }

    proof fn lemma_fault_sticks(s: Stream) {
        broadcast use group_sticks;

        Self::lemma_body_sticks(s);
    }

    proof fn lemma_read_back(s: Stream, v: StashPageView) {
        lemma_frame_read_back(s, Self::BLOCK_SEQ, Self::body_tokens(v));
        Self::lemma_body_read_back(
            s.skip(
                seq![
                    Token::Word(Self::BLOCK_SEQ),
                    Token::Mark(width(Self::body_tokens(v)) as u32),
                ],
            ),
            v,
        );
    }

    proof fn lemma_write_back(s: Stream) {
        broadcast use group_sticks, group_write_back;

        let inner = s.block_start(Self::BLOCK_SEQ).1;
        if !inner.ok() {
            Self::lemma_body_sticks(inner);
        }
        Self::lemma_body_write_back(inner);
        lemma_frame_write_back(s, Self::BLOCK_SEQ, Self::body_tokens(Self::parse_body(inner).0));
    }
}

/// An item in a sack, and where it lies in the sack.
#[derive(Debug, Clone, PartialEq, Eq)]
pub struct InventoryItem {
    pub x: u32,
    pub y: u32,
    pub item: Item,
}

/// The mathematical value of an [`InventoryItem`].
pub struct InventoryItemView {
    pub x: u32,
    pub y: u32,
    pub item: ItemView,
}

impl InventoryItem {
    /// The record whose every field is empty or zero.
    pub open spec fn blank() -> InventoryItemView {
        InventoryItemView {
            x: 0,
            y: 0,
            item: Item::blank(),
        }
    }

    /// What a reader makes of the fields of the record.
    #[verifier::opaque]
    pub open spec fn parse_body(s: Stream) -> (InventoryItemView, Stream) {
        let (item, s) = Item::parse(s);
        let (x, s) = s.word();
        let (y, s) = s.word();
        (
            InventoryItemView {
                x,
                y,
                item,
            },
            s,
        )
    }

    /// The fields of the record, in file order.
    #[verifier::opaque]
    pub open spec fn body_tokens(v: InventoryItemView) -> Seq<Token> {
        Item::tokens(v.item)
            + seq![Token::Word(v.x)]
            + seq![Token::Word(v.y)]
    }

    /// The fields of the record can be written.
    pub open spec fn body_fits(v: InventoryItemView) -> bool {
        &&& Item::fits(v.item)
    }
}

impl View for InventoryItem {
    type V = InventoryItemView;

    open spec fn view(&self) -> InventoryItemView {
        InventoryItemView {
            x: self.x,
            y: self.y,
            item: self.item@,
        }
    }
}

impl Default for InventoryItem {
    fn default() -> (r: InventoryItem)
        ensures
            r@ == InventoryItem::blank(),
    {
        InventoryItem {
            x: 0,
            y: 0,
            item: Item::default(),
        }
    }
}

impl ReadWrite for InventoryItem {
    open spec fn parse(s: Stream) -> (InventoryItemView, Stream) {
        Self::parse_body(s)
    }

    open spec fn tokens(v: InventoryItemView) -> Seq<Token> {
        Self::body_tokens(v)
    }

    open spec fn fits(v: InventoryItemView) -> bool {
        Self::body_fits(v)
    }

    open spec fn canonical(v: InventoryItemView) -> bool {
        &&& Item::canonical(v.item)
    }

    fn read(&mut self, f: &mut GDFile) -> (r: Result<(), FileError>) {
        broadcast use group_sticks, group_records_stick;

        proof {
            reveal(InventoryItem::parse_body);
        }
        let mut item = Item::default();
        item.read(f)?;
        let x = f.read_int()?;
        let y = f.read_int()?;
        *self = InventoryItem {
            x,
            y,
            item,
        };
        Ok(())
    }

    fn write(&self, f: &mut GDFile) -> (r: Result<(), FileError>) {
        broadcast use group_emit;

        proof {
            reveal(InventoryItem::body_tokens);
        }
        self.item.write(f)?;
        f.write_int(self.x);
        f.write_int(self.y);
        Ok(())
    }

    proof fn lemma_fault_sticks(s: Stream) {
        broadcast use group_sticks, group_records_stick;

        reveal(InventoryItem::parse_body);
    }

    proof fn lemma_read_back(s: Stream, v: InventoryItemView) {
        broadcast use group_read_back, group_records_held;

        reveal(InventoryItem::parse_body);
        reveal(InventoryItem::body_tokens);
    }

    proof fn lemma_write_back(s: Stream) {
        broadcast use group_sticks, group_records_stick, group_write_back, group_records_read;

        reveal(InventoryItem::parse_body);
        reveal(InventoryItem::body_tokens);
    }
}

/// One sack of the inventory.
#[derive(Debug, Clone, PartialEq, Eq)]
pub struct InventorySack {
    pub items: Vec<InventoryItem>,
    pub temp_bool: u8,
}

/// The mathematical value of an [`InventorySack`].
pub struct InventorySackView {
    pub items: Seq<InventoryItemView>,
    pub temp_bool: u8,
}

impl InventorySack {
    /// The sequence id of the block.
    pub const BLOCK_SEQ: u32 = 0;

    /// The record whose every field is empty or zero.
    pub open spec fn blank() -> InventorySackView {
        InventorySackView {
            items: Seq::empty(),
            temp_bool: 0,
        }
    }

    /// What a reader makes of the fields of the record.
    #[verifier::opaque]
    pub open spec fn parse_body(s: Stream) -> (InventorySackView, Stream) {
        let (temp_bool, s) = s.byte();
        let (items, s) = parse_list::<InventoryItem>(s);
        (
            InventorySackView {
                items,
                temp_bool,
            },
            s,
        )
    }

    /// The fields of the record, in file order.
    #[verifier::opaque]
    pub open spec fn body_tokens(v: InventorySackView) -> Seq<Token> {
        seq![Token::Byte(v.temp_bool)]
            + list_tokens::<InventoryItem>(v.items)
    }

    /// The fields of the record can be written.
    pub open spec fn body_fits(v: InventorySackView) -> bool {
        &&& list_fits::<InventoryItem>(v.items)
    }

    /// A block whose payload ends elsewhere than its length field announced
    /// fails with the offset reached and the offset announced.
    pub proof fn lemma_length_checked(s: Stream)
        requires
            Self::parse_body(s.block_start(Self::BLOCK_SEQ).1).1.ok(),
            Self::parse_body(s.block_start(Self::BLOCK_SEQ).1).1.pos != s.block_start(
                Self::BLOCK_SEQ,
            ).0,
        ensures
            Self::parse(s).1.fault == Some(
                Fault::IncorrectBlockEndPosition(
                    Self::parse_body(s.block_start(Self::BLOCK_SEQ).1).1.pos as u64,
                    s.block_start(Self::BLOCK_SEQ).0,
                ),
            ),
    {
        lemma_block_end_position(
            Self::parse_body(s.block_start(Self::BLOCK_SEQ).1).1,
            s.block_start(Self::BLOCK_SEQ).0,
        );
    }
}

impl View for InventorySack {
    type V = InventorySackView;

    open spec fn view(&self) -> InventorySackView {
        InventorySackView {
            items: views(self.items@),
            temp_bool: self.temp_bool,
        }
    }
}

impl Default for InventorySack {
    fn default() -> (r: InventorySack)
        ensures
            r@ == InventorySack::blank(),
    {
        let r = InventorySack {
            items: Vec::new(),
            temp_bool: 0,
        };
        proof {
            lemma_views_empty(r.items@);
        }
        r
    }
}

impl ReadWrite for InventorySack {
    open spec fn parse(s: Stream) -> (InventorySackView, Stream) {
        let (end, s) = s.block_start(Self::BLOCK_SEQ);
        let (v, s) = Self::parse_body(s);
        (v, s.block_end(end))
    }

    open spec fn tokens(v: InventorySackView) -> Seq<Token> {
        framed(Self::BLOCK_SEQ, Self::body_tokens(v))
    }

    open spec fn fits(v: InventorySackView) -> bool {
        Self::body_fits(v) && width(Self::body_tokens(v)) <= u32::MAX
    }

    open spec fn canonical(v: InventorySackView) -> bool {
        &&& items_canonical::<InventoryItem>(v.items)
    }

    fn read(&mut self, f: &mut GDFile) -> (r: Result<(), FileError>) {
        broadcast use group_sticks, group_records_stick;

        proof {
            reveal(InventorySack::parse_body);
        }
        let mut b = Block::default();
        f.read_block_start(&mut b, Self::BLOCK_SEQ)?;
        let temp_bool = f.read_byte()?;
        let items = f.read_vec::<InventoryItem>()?;
        f.read_block_end(&mut b)?;
        *self = InventorySack {
            items,
            temp_bool,
        };
        Ok(())
    }

    fn write(&self, f: &mut GDFile) -> (r: Result<(), FileError>) {
        broadcast use group_emit;

        proof {
            reveal(InventorySack::body_tokens);
        }
        let ghost start = f@;
        let mut b = Block::default();
        f.write_block_start(&mut b, Self::BLOCK_SEQ);
        f.write_byte(self.temp_bool);
        f.write_vec(self.items.as_slice())?;
        proof {
            lemma_frame_written(start, Self::BLOCK_SEQ, Self::body_tokens(self@));
        }
        f.write_block_end(&mut b)
    }

    proof fn lemma_fault_sticks(s: Stream) {
        broadcast use group_sticks, group_records_stick;

        reveal(InventorySack::parse_body);
    }

    proof fn lemma_read_back(s: Stream, v: InventorySackView) {
        broadcast use group_read_back, group_records_held;

        reveal(InventorySack::parse_body);
        reveal(InventorySack::body_tokens);
        lemma_frame_read_back(s, Self::BLOCK_SEQ, Self::body_tokens(v));
    }

    proof fn lemma_write_back(s: Stream) {
        broadcast use group_sticks, group_records_stick, group_write_back, group_records_read;

        reveal(InventorySack::parse_body);
        reveal(InventorySack::body_tokens);
        let inner = s.block_start(Self::BLOCK_SEQ).1;
        lemma_frame_write_back(
            s,
            Self::BLOCK_SEQ,
            Self::body_tokens(Self::parse_body(inner).0),
        );
    }
}

/// An item that the character wears or wields.
#[derive(Debug, Clone, PartialEq, Eq)]
pub struct InventoryEquipment {
    pub attached: u8,
    pub item: Item,
}

/// The mathematical value of an [`InventoryEquipment`].
pub struct InventoryEquipmentView {
    pub attached: u8,
    pub item: ItemView,
}

impl InventoryEquipment {
    /// The record whose every field is empty or zero.
    pub open spec fn blank() -> InventoryEquipmentView {
        InventoryEquipmentView {
            attached: 0,
            item: Item::blank(),
        }
    }

    /// What a reader makes of the fields of the record.
    #[verifier::opaque]
    pub open spec fn parse_body(s: Stream) -> (InventoryEquipmentView, Stream) {
        let (item, s) = Item::parse(s);
        let (attached, s) = s.byte();
        (
            InventoryEquipmentView {
                attached,
                item,
            },
            s,
        )
    }

    /// The fields of the record, in file order.
    #[verifier::opaque]
    pub open spec fn body_tokens(v: InventoryEquipmentView) -> Seq<Token> {
        Item::tokens(v.item)
            + seq![Token::Byte(v.attached)]
    }

    /// The fields of the record can be written.
    pub open spec fn body_fits(v: InventoryEquipmentView) -> bool {
        &&& Item::fits(v.item)
    }
}

impl View for InventoryEquipment {
    type V = InventoryEquipmentView;

    open spec fn view(&self) -> InventoryEquipmentView {
        InventoryEquipmentView {
            attached: self.attached,
            item: self.item@,
        }
    }
}

impl Default for InventoryEquipment {
    fn default() -> (r: InventoryEquipment)
        ensures
            r@ == InventoryEquipment::blank(),
    {
        InventoryEquipment {
            attached: 0,
            item: Item::default(),
        }
    }
}

impl ReadWrite for InventoryEquipment {
    open spec fn parse(s: Stream) -> (InventoryEquipmentView, Stream) {
        Self::parse_body(s)
    }

    open spec fn tokens(v: InventoryEquipmentView) -> Seq<Token> {
        Self::body_tokens(v)
    }

    open spec fn fits(v: InventoryEquipmentView) -> bool {
        Self::body_fits(v)
    }

    open spec fn canonical(v: InventoryEquipmentView) -> bool {
        &&& Item::canonical(v.item)
    }

    fn read(&mut self, f: &mut GDFile) -> (r: Result<(), FileError>) {
        broadcast use group_sticks, group_records_stick;

        proof {
            reveal(InventoryEquipment::parse_body);
        }
        let mut item = Item::default();
        item.read(f)?;
        let attached = f.read_byte()?;
        *self = InventoryEquipment {
            attached,
            item,
        };
        Ok(())
    }

    fn write(&self, f: &mut GDFile) -> (r: Result<(), FileError>) {
        broadcast use group_emit;

        proof {
            reveal(InventoryEquipment::body_tokens);
        }
        self.item.write(f)?;
        f.write_byte(self.attached);
        Ok(())
    }

    proof fn lemma_fault_sticks(s: Stream) {
        broadcast use group_sticks, group_records_stick;

        reveal(InventoryEquipment::parse_body);
    }

    proof fn lemma_read_back(s: Stream, v: InventoryEquipmentView) {
        broadcast use group_read_back, group_records_held;

        reveal(InventoryEquipment::parse_body);
        reveal(InventoryEquipment::body_tokens);
    }

    proof fn lemma_write_back(s: Stream) {
        broadcast use group_sticks, group_records_stick, group_write_back, group_records_read;

        reveal(InventoryEquipment::parse_body);
        reveal(InventoryEquipment::body_tokens);
    }
}

/// What a character carries: its sacks and what it wears and wields.
#[derive(Debug, Clone, PartialEq, Eq)]
pub struct Inventory {
    pub version: u32,
    pub flag: u8,
    pub focused: u32,
    pub selected: u32,
    pub sacks: Vec<InventorySack>,
    pub use_alternate: u8,
    pub alternate1: u8,
    pub alternate2: u8,
    /// The twelve equipment slots.
    pub equipment: [InventoryEquipment; 12],
    /// The two slots of the first weapon set.
    pub weapon1: [InventoryEquipment; 2],
    /// The two slots of the second weapon set.
    pub weapon2: [InventoryEquipment; 2],
}

/// The mathematical value of an [`Inventory`].
pub struct InventoryView {
    pub version: u32,
    pub flag: u8,
    pub focused: u32,
    pub selected: u32,
    pub sacks: Seq<InventorySackView>,
    pub use_alternate: u8,
    pub alternate1: u8,
    pub alternate2: u8,
    pub equipment: Seq<InventoryEquipmentView>,
    pub weapon1: Seq<InventoryEquipmentView>,
    pub weapon2: Seq<InventoryEquipmentView>,
}

impl Inventory {
    /// The sequence id of the block.
    pub const BLOCK_SEQ: u32 = 3;

    /// The versions a reader accepts.
    pub open spec fn versions() -> Seq<u32> {
        seq![4u32, 5u32]
    }

    /// The record whose every field is empty or zero.
    pub open spec fn blank() -> InventoryView {
        InventoryView {
            version: 0,
            flag: 0,
            focused: 0,
            selected: 0,
            sacks: Seq::empty(),
            use_alternate: 0,
            alternate1: 0,
            alternate2: 0,
            equipment: Seq::new(12, |i: int| InventoryEquipment::blank()),
            weapon1: Seq::new(2, |i: int| InventoryEquipment::blank()),
            weapon2: Seq::new(2, |i: int| InventoryEquipment::blank()),
        }
    }

    /// What a reader makes of the fields of the record.
    #[verifier::opaque]
    pub open spec fn parse_body(s: Stream) -> (InventoryView, Stream) {
        let (version, s) = s.version(Self::versions());
        let (flag, s) = s.byte();
        if flag != 0 {
            let (sack_count, s) = s.word();
            let (focused, s) = s.word();
            let (selected, s) = s.word();
            let (sacks, s) = parse_items::<InventorySack>(s, sack_count as nat);
            let (use_alternate, s) = s.byte();
            let (equipment, s) = parse_items::<InventoryEquipment>(s, 12);
            let (alternate1, s) = s.byte();
            let (weapon1, s) = parse_items::<InventoryEquipment>(s, 2);
            let (alternate2, s) = s.byte();
            let (weapon2, s) = parse_items::<InventoryEquipment>(s, 2);
            (
                InventoryView {
                    version,
                    flag,
                    focused,
                    selected,
                    sacks,
                    use_alternate,
                    alternate1,
                    alternate2,
                    equipment,
                    weapon1,
                    weapon2,
                },
                s,
            )
        } else {
            (
                InventoryView {
                    version,
                    flag,
                    focused: 0,
                    selected: 0,
                    sacks: Seq::empty(),
                    use_alternate: 0,
                    alternate1: 0,
                    alternate2: 0,
                    equipment: Seq::new(12, |i: int| InventoryEquipment::blank()),
                    weapon1: Seq::new(2, |i: int| InventoryEquipment::blank()),
                    weapon2: Seq::new(2, |i: int| InventoryEquipment::blank()),
                },
                s,
            )
        }
    }

    /// The fields of the record, in file order.
    #[verifier::opaque]
    pub open spec fn body_tokens(v: InventoryView) -> Seq<Token> {
        seq![Token::Word(v.version)]
            + seq![Token::Byte(v.flag)]
            + (if v.flag != 0 {
                seq![Token::Word(v.sacks.len() as u32)]
                    + seq![Token::Word(v.focused)]
                    + seq![Token::Word(v.selected)]
                    + item_tokens::<InventorySack>(v.sacks)
                    + seq![Token::Byte(v.use_alternate)]
                    + item_tokens::<InventoryEquipment>(v.equipment)
                    + seq![Token::Byte(v.alternate1)]
                    + item_tokens::<InventoryEquipment>(v.weapon1)
                    + seq![Token::Byte(v.alternate2)]
                    + item_tokens::<InventoryEquipment>(v.weapon2)
            } else {
                Seq::empty()
            })
    }

    /// The fields of the record can be written.
    pub open spec fn body_fits(v: InventoryView) -> bool {
        &&& (v.flag != 0 ==> {
            &&& v.sacks.len() <= u32::MAX
            &&& items_fit::<InventorySack>(v.sacks)
            &&& items_fit::<InventoryEquipment>(v.equipment)
            &&& items_fit::<InventoryEquipment>(v.weapon1)
            &&& items_fit::<InventoryEquipment>(v.weapon2)
        })
    }

    /// A record whose version is not an accepted one fails with that version,
    /// whatever follows it.
    pub proof fn lemma_version_gate(s: Stream)
        requires
            s.block_start(Self::BLOCK_SEQ).1.ok(),
            s.block_start(Self::BLOCK_SEQ).1.word().1.ok(),
            !Self::versions().contains(s.block_start(Self::BLOCK_SEQ).1.word().0),
        ensures
            Self::parse(s).1.fault == Some(
                Fault::UnsupportedVersion(
                    s.block_start(Self::BLOCK_SEQ).1.word().0,
                    Self::versions(),
                ),
            ),
    {
        broadcast use group_sticks, group_records_stick;

        reveal(Inventory::parse_body);
    }

    /// A block whose payload ends elsewhere than its length field announced
    /// fails with the offset reached and the offset announced.
    pub proof fn lemma_length_checked(s: Stream)
        requires
            Self::parse_body(s.block_start(Self::BLOCK_SEQ).1).1.ok(),
            Self::parse_body(s.block_start(Self::BLOCK_SEQ).1).1.pos != s.block_start(
                Self::BLOCK_SEQ,
            ).0,
        ensures
            Self::parse(s).1.fault == Some(
                Fault::IncorrectBlockEndPosition(
                    Self::parse_body(s.block_start(Self::BLOCK_SEQ).1).1.pos as u64,
                    s.block_start(Self::BLOCK_SEQ).0,
                ),
            ),
    {
        lemma_block_end_position(
            Self::parse_body(s.block_start(Self::BLOCK_SEQ).1).1,
            s.block_start(Self::BLOCK_SEQ).0,
        );
    }
}

impl View for Inventory {
    type V = InventoryView;

    open spec fn view(&self) -> InventoryView {
        InventoryView {
            version: self.version,
            flag: self.flag,
            focused: self.focused,
            selected: self.selected,
            sacks: views(self.sacks@),
            use_alternate: self.use_alternate,
            alternate1: self.alternate1,
            alternate2: self.alternate2,
            equipment: views(self.equipment@),
            weapon1: views(self.weapon1@),
            weapon2: views(self.weapon2@),
        }
    }
}

impl Default for Inventory {
    fn default() -> (r: Inventory)
        ensures
            r@ == Inventory::blank(),
    {
        let r = Inventory {
            version: 0,
            flag: 0,
            focused: 0,
            selected: 0,
            sacks: Vec::new(),
            use_alternate: 0,
            alternate1: 0,
            alternate2: 0,
            equipment: [
                InventoryEquipment::default(),
                InventoryEquipment::default(),
                InventoryEquipment::default(),
                InventoryEquipment::default(),
                InventoryEquipment::default(),
                InventoryEquipment::default(),
                InventoryEquipment::default(),
                InventoryEquipment::default(),
                InventoryEquipment::default(),
                InventoryEquipment::default(),
                InventoryEquipment::default(),
                InventoryEquipment::default(),
            ],
            weapon1: [InventoryEquipment::default(), InventoryEquipment::default()],
            weapon2: [InventoryEquipment::default(), InventoryEquipment::default()],
        };
        proof {
            lemma_views_empty(r.sacks@);
            assert(views(r.equipment@) =~= Seq::new(12, |i: int| InventoryEquipment::blank()));
            assert(views(r.weapon1@) =~= Seq::new(2, |i: int| InventoryEquipment::blank()));
            assert(views(r.weapon2@) =~= Seq::new(2, |i: int| InventoryEquipment::blank()));
        }
        r
    }
}

impl ReadWrite for Inventory {
    open spec fn parse(s: Stream) -> (InventoryView, Stream) {
        let (end, s) = s.block_start(Self::BLOCK_SEQ);
        let (v, s) = Self::parse_body(s);
        (v, s.block_end(end))
    }

    open spec fn tokens(v: InventoryView) -> Seq<Token> {
        framed(Self::BLOCK_SEQ, Self::body_tokens(v))
    }

    open spec fn fits(v: InventoryView) -> bool {
        Self::body_fits(v) && width(Self::body_tokens(v)) <= u32::MAX
    }

    open spec fn canonical(v: InventoryView) -> bool {
        &&& Self::versions().contains(v.version)
        &&& (v.flag != 0 ==> {
            &&& items_canonical::<InventorySack>(v.sacks)
            &&& v.equipment.len() == 12
            &&& items_canonical::<InventoryEquipment>(v.equipment)
            &&& v.weapon1.len() == 2
            &&& items_canonical::<InventoryEquipment>(v.weapon1)
            &&& v.weapon2.len() == 2
            &&& items_canonical::<InventoryEquipment>(v.weapon2)
        })
        &&& (v.flag == 0 ==> {
            &&& v.focused == 0
            &&& v.selected == 0
            &&& v.sacks =~= Seq::<InventorySackView>::empty()
            &&& v.use_alternate == 0
            &&& v.equipment =~= Seq::new(12, |i: int| InventoryEquipment::blank())
            &&& v.alternate1 == 0
            &&& v.weapon1 =~= Seq::new(2, |i: int| InventoryEquipment::blank())
            &&& v.alternate2 == 0
            &&& v.weapon2 =~= Seq::new(2, |i: int| InventoryEquipment::blank())
        })
    }

    fn read(&mut self, f: &mut GDFile) -> (r: Result<(), FileError>) {
        broadcast use group_sticks, group_records_stick;

        proof {
            reveal(Inventory::parse_body);
        }
        let mut b = Block::default();
        f.read_block_start(&mut b, Self::BLOCK_SEQ)?;
        let accepted: [u32; 2] = [4, 5];
        assert(accepted@ =~= Self::versions());
        let version = f.read_version(accepted.as_slice())?;
        let flag = f.read_byte()?;
        let mut focused: u32 = 0;
        let mut selected: u32 = 0;
        let mut sacks: Vec<InventorySack> = Vec::new();
        let mut use_alternate: u8 = 0;
        let mut equipment = [
            InventoryEquipment::default(),
            InventoryEquipment::default(),
            InventoryEquipment::default(),
            InventoryEquipment::default(),
            InventoryEquipment::default(),
            InventoryEquipment::default(),
            InventoryEquipment::default(),
            InventoryEquipment::default(),
            InventoryEquipment::default(),
            InventoryEquipment::default(),
            InventoryEquipment::default(),
            InventoryEquipment::default(),
        ];
        let mut alternate1: u8 = 0;
        let mut weapon1 = [InventoryEquipment::default(), InventoryEquipment::default()];
        let mut alternate2: u8 = 0;
        let mut weapon2 = [InventoryEquipment::default(), InventoryEquipment::default()];
        if flag != 0 {
            let sack_count = f.read_int()?;
            focused = f.read_int()?;
            selected = f.read_int()?;
            sacks = f.read_arr::<InventorySack>(sack_count as usize)?;
            use_alternate = f.read_byte()?;
            equipment = fill_array(f.read_arr::<InventoryEquipment>(12)?, equipment);
            alternate1 = f.read_byte()?;
            weapon1 = fill_array(f.read_arr::<InventoryEquipment>(2)?, weapon1);
            alternate2 = f.read_byte()?;
            weapon2 = fill_array(f.read_arr::<InventoryEquipment>(2)?, weapon2);
        }
        f.read_block_end(&mut b)?;
        proof {
            if flag == 0 {
                lemma_views_empty(sacks@);
                assert(views(equipment@) =~= Seq::new(12, |i: int| InventoryEquipment::blank()));
                assert(views(weapon1@) =~= Seq::new(2, |i: int| InventoryEquipment::blank()));
                assert(views(weapon2@) =~= Seq::new(2, |i: int| InventoryEquipment::blank()));
            }
        }
        *self = Inventory {
            version,
            flag,
            focused,
            selected,
            sacks,
            use_alternate,
            alternate1,
            alternate2,
            equipment,
            weapon1,
            weapon2,
        };
        Ok(())
    }

    fn write(&self, f: &mut GDFile) -> (r: Result<(), FileError>) {
        broadcast use group_emit;

        proof {
            reveal(Inventory::body_tokens);
        }
        let ghost start = f@;
        let mut b = Block::default();
        f.write_block_start(&mut b, Self::BLOCK_SEQ);
        f.write_int(self.version);
        f.write_byte(self.flag);
        if self.flag != 0 {
            if self.sacks.len() > 0xffff_ffff {
                return Err(FileError::Unencodable);
            }
            f.write_int(self.sacks.len() as u32);
            f.write_int(self.focused);
            f.write_int(self.selected);
            f.write_arr(self.sacks.as_slice())?;
            f.write_byte(self.use_alternate);
            f.write_arr(self.equipment.as_slice())?;
            f.write_byte(self.alternate1);
            f.write_arr(self.weapon1.as_slice())?;
            f.write_byte(self.alternate2);
            f.write_arr(self.weapon2.as_slice())?;
        }
        proof {
            lemma_frame_written(start, Self::BLOCK_SEQ, Self::body_tokens(self@));
        }
        f.write_block_end(&mut b)
    }

    proof fn lemma_fault_sticks(s: Stream) {
        broadcast use group_sticks, group_records_stick;

        reveal(Inventory::parse_body);
    }

    proof fn lemma_read_back(s: Stream, v: InventoryView) {
        broadcast use group_gaps, group_read_back, group_records_held;

        reveal(Inventory::parse_body);
        reveal(Inventory::body_tokens);
        lemma_frame_read_back(s, Self::BLOCK_SEQ, Self::body_tokens(v));
    }

    proof fn lemma_write_back(s: Stream) {
        broadcast use
            group_gaps,
            group_sticks,
            group_records_stick,
            group_write_back,
            group_records_read,
        ;

        reveal(Inventory::parse_body);
        reveal(Inventory::body_tokens);
        let inner = s.block_start(Self::BLOCK_SEQ).1;
        lemma_frame_write_back(
            s,
            Self::BLOCK_SEQ,
            Self::body_tokens(Self::parse_body(inner).0),
        );
    }
}

/// The stash that the characters of one player share.
#[derive(Debug, Clone, PartialEq, Eq)]
pub struct Stash {
    pub pages: Vec<StashPage>,
    pub version: u32,
}

/// The mathematical value of a [`Stash`].
pub struct StashView {
    pub pages: Seq<StashPageView>,
    pub version: u32,
}

impl Stash {
    /// The sequence id of the block.
    pub const BLOCK_SEQ: u32 = 4;

    /// The versions a reader accepts.
    pub open spec fn versions() -> Seq<u32> {
        seq![5u32, 6u32]
    }

    /// The stash without a page.
    pub open spec fn blank() -> StashView {
        StashView { pages: Seq::empty(), version: 0 }
    }

    /// The pages of a stash before version 6: one behind the other, with
    /// neither a count before them nor a block around each.
    pub open spec fn bare_tokens(pages: Seq<StashPageView>) -> Seq<Token>
        decreases pages.len(),
    {
        if pages.len() == 0 {
            Seq::empty()
        } else {
            Self::bare_tokens(pages.drop_last()) + StashPage::body_tokens(pages.last())
        }
    }

    /// Every page can be written without a block around it.
    pub open spec fn bare_fit(pages: Seq<StashPageView>) -> bool {
        forall|i: int| 0 <= i < pages.len() ==> StashPage::body_fits(#[trigger] pages[i])
    }

    /// What a reader makes of the fields of the record: from version 6 on a
    /// count and that many framed pages, before that a single bare page.
    #[verifier::opaque]
    pub open spec fn parse_body(s: Stream) -> (StashView, Stream) {
        let (version, s) = s.version(Self::versions());
        if version >= 6 {
            let (count, s) = s.word();
            let (pages, s) = parse_items::<StashPage>(s, count as nat);
            (StashView { pages, version }, s)
        } else {
            let (page, s) = StashPage::parse_body(s);
            (StashView { pages: seq![page], version }, s)
        }
    }

    /// The fields of the record, in file order.
    #[verifier::opaque]
    pub open spec fn body_tokens(v: StashView) -> Seq<Token> {
        seq![Token::Word(v.version)] + (if v.version >= 6 {
            seq![Token::Word(v.pages.len() as u32)] + item_tokens::<StashPage>(v.pages)
        } else {
            Self::bare_tokens(v.pages)
        })
    }

    /// The fields of the record can be written.
    pub open spec fn body_fits(v: StashView) -> bool {
        if v.version >= 6 {
            v.pages.len() <= u32::MAX && items_fit::<StashPage>(v.pages)
        } else {
            Self::bare_fit(v.pages)
        }
    }

    /// A record whose version is not an accepted one fails with that version,
    /// whatever follows it.
    pub proof fn lemma_version_gate(s: Stream)
        requires
            s.block_start(Self::BLOCK_SEQ).1.ok(),
            s.block_start(Self::BLOCK_SEQ).1.word().1.ok(),
            !Self::versions().contains(s.block_start(Self::BLOCK_SEQ).1.word().0),
        ensures
            Self::parse(s).1.fault == Some(
                Fault::UnsupportedVersion(
                    s.block_start(Self::BLOCK_SEQ).1.word().0,
                    Self::versions(),
                ),
            ),
    {
        broadcast use group_sticks, group_records_stick;

        reveal(Stash::parse_body);
        StashPage::lemma_body_sticks(
            s.block_start(Self::BLOCK_SEQ).1.version(Self::versions()).1,
        );
    }

    /// A block whose payload ends elsewhere than its length field announced
    /// fails with the offset reached and the offset announced.
    pub proof fn lemma_length_checked(s: Stream)
        requires
            Self::parse_body(s.block_start(Self::BLOCK_SEQ).1).1.ok(),
            Self::parse_body(s.block_start(Self::BLOCK_SEQ).1).1.pos != s.block_start(
                Self::BLOCK_SEQ,
            ).0,
        ensures
            Self::parse(s).1.fault == Some(
                Fault::IncorrectBlockEndPosition(
                    Self::parse_body(s.block_start(Self::BLOCK_SEQ).1).1.pos as u64,
                    s.block_start(Self::BLOCK_SEQ).0,
                ),
            ),
    {
        lemma_block_end_position(
            Self::parse_body(s.block_start(Self::BLOCK_SEQ).1).1,
            s.block_start(Self::BLOCK_SEQ).0,
        );
    }
}

impl View for Stash {
    type V = StashView;

    open spec fn view(&self) -> StashView {
        StashView { pages: views(self.pages@), version: self.version }
    }
}

impl Default for Stash {
    fn default() -> (r: Stash)
        ensures
            r@ == Stash::blank(),
    {
        let r = Stash { pages: Vec::new(), version: 0 };
        proof {
            lemma_views_empty(r.pages@);
        }
        r
    }
}

impl ReadWrite for Stash {
    open spec fn parse(s: Stream) -> (StashView, Stream) {
        let (end, s) = s.block_start(Self::BLOCK_SEQ);
        let (v, s) = Self::parse_body(s);
        (v, s.block_end(end))
    }

    open spec fn tokens(v: StashView) -> Seq<Token> {
        framed(Self::BLOCK_SEQ, Self::body_tokens(v))
    }

    open spec fn fits(v: StashView) -> bool {
        Self::body_fits(v) && width(Self::body_tokens(v)) <= u32::MAX
    }

    open spec fn canonical(v: StashView) -> bool {
        &&& Self::versions().contains(v.version)
        &&& if v.version >= 6 {
            items_canonical::<StashPage>(v.pages)
        } else {
            v.pages.len() == 1 && StashPage::canonical(v.pages[0])
        }
    }

    fn read(&mut self, f: &mut GDFile) -> (r: Result<(), FileError>) {
        broadcast use group_sticks, group_records_stick;

        proof {
            reveal(Stash::parse_body);
            reveal(StashPage::parse_body);
        }
        let mut b = Block::default();
        f.read_block_start(&mut b, Self::BLOCK_SEQ)?;
        let accepted: [u32; 2] = [5, 6];
        assert(accepted@ =~= Self::versions());
        let version = f.read_version(accepted.as_slice())?;
        let pages = if version >= 6 {
            let count = f.read_int()?;
            f.read_arr::<StashPage>(count as usize)?
        } else {
            let mut page = StashPage::default();
            page.read_bare(f)?;
            let mut pages: Vec<StashPage> = Vec::new();
            pages.push(page);
            assert(views(pages@) =~= seq![page@]);
            pages
        };
        f.read_block_end(&mut b)?;
        *self = Stash { pages, version };
        Ok(())
    }

    fn write(&self, f: &mut GDFile) -> (r: Result<(), FileError>) {
        broadcast use group_emit;

        proof {
            reveal(Stash::body_tokens);
        }
        let ghost start = f@;
        let mut b = Block::default();
        f.write_block_start(&mut b, Self::BLOCK_SEQ);
        f.write_int(self.version);
        if self.version >= 6 {
            if self.pages.len() > 0xffff_ffff {
                return Err(FileError::Unencodable);
            }
            f.write_int(self.pages.len() as u32);
            f.write_arr(self.pages.as_slice())?;
        } else {
            let ghost all = views(self.pages@);
            let ghost from = f@;
            let mut i: usize = 0;
            while i < self.pages.len()
                invariant
                    i <= self.pages.len(),
                    f.wf(),
                    all == views(self.pages@),
                    f@ == from.emit(Self::bare_tokens(all.take(i as int))),
                    Self::bare_fit(all.take(i as int)),
                decreases self.pages.len() - i,
            {
                broadcast use group_emit;

                proof {
                    assert(all.take(i + 1).drop_last() =~= all.take(i as int));
                    assert(all.take(i + 1).last() == self.pages@[i as int]@);
                }
                match self.pages[i].write_bare(f) {
                    Ok(()) => {},
                    Err(e) => {
                        assert(!StashPage::body_fits(all[i as int]));
                        return Err(e);
                    },
                }
                proof {
                    assert forall|j: int| 0 <= j < i + 1 implies StashPage::body_fits(
                        #[trigger] all.take(i + 1)[j],
                    ) by {
                        if j < i {
                            assert(all.take(i as int)[j] == all.take(i + 1)[j]);
                        }
                    }
                }
                i = i + 1;
            }
            assert(all.take(i as int) =~= all);
        }
        proof {
            lemma_frame_written(start, Self::BLOCK_SEQ, Self::body_tokens(self@));
        }
        f.write_block_end(&mut b)
    }

    proof fn lemma_fault_sticks(s: Stream) {
        broadcast use group_sticks, group_records_stick;

        reveal(Stash::parse_body);
        StashPage::lemma_body_sticks(s);
    }

    proof fn lemma_read_back(s: Stream, v: StashView) {
        broadcast use group_read_back, group_records_held;

        reveal(Stash::parse_body);
        reveal(Stash::body_tokens);
        lemma_frame_read_back(s, Self::BLOCK_SEQ, Self::body_tokens(v));
        if v.version < 6 {
            let inner = s.skip(
                seq![
                    Token::Word(Self::BLOCK_SEQ),
                    Token::Mark(width(Self::body_tokens(v)) as u32),
                ],
            );
            let at = inner.skip(seq![Token::Word(v.version)]);
            assert(Self::bare_tokens(v.pages.drop_last()) =~= Seq::<Token>::empty());
            assert(Self::bare_tokens(v.pages) =~= StashPage::body_tokens(v.pages[0]));
            StashPage::lemma_body_read_back(at, v.pages[0]);
            assert(v.pages =~= seq![v.pages[0]]);
        }
    }

    proof fn lemma_write_back(s: Stream) {
        broadcast use group_sticks, group_records_stick, group_write_back, group_records_read;

        reveal(Stash::parse_body);
        reveal(Stash::body_tokens);
        let inner = s.block_start(Self::BLOCK_SEQ).1;
        let (version, at) = inner.version(Self::versions());
        if version < 6 {
            if !at.ok() {
                StashPage::lemma_body_sticks(at);
            }
            if at.ok() && at.wf() {
                StashPage::lemma_body_write_back(at);
                let page = StashPage::parse_body(at).0;
                let pages = seq![page];
                assert(Self::bare_tokens(pages.drop_last()) =~= Seq::<Token>::empty());
                assert(Self::bare_tokens(pages) =~= StashPage::body_tokens(page));
            }
        }
        lemma_frame_write_back(s, Self::BLOCK_SEQ, Self::body_tokens(Self::parse_body(inner).0));
    }
}

} // verus!
