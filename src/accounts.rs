//! Walker over the account table of an entrypoint input buffer.
//!
//! The buffer starts with a `u64` account count.  Each account is either an
//! eight-byte duplicate entry, whose first byte is the index of the account it
//! repeats, or a full entry whose first byte is [`NON_DUP_MARKER`]: seven more
//! header bytes, the 32-byte key, the 32-byte owner, the `u64` lamports, the
//! `u64` data length, the data, [`MAX_PERMITTED_DATA_INCREASE`] spare bytes,
//! padding up to a multiple of [`BPF_ALIGN_OF_U128`] and the `u64` rent epoch.
//! The buffer itself starts on such a boundary; integers are little-endian.

use vstd::prelude::*;
use crate::bytes::{align_up, le_u64, RawCursor};

verus! {

/// First byte of an account entry that is not a duplicate.
pub const NON_DUP_MARKER: u8 = 255;

/// Spare bytes that follow each account's data, room for the data to grow.
pub const MAX_PERMITTED_DATA_INCREASE: usize = 10240;

/// Alignment to which the input is padded after each account's spare bytes.
pub const BPF_ALIGN_OF_U128: usize = 8;

/// Bytes of an account key.
pub const KEY_LEN: usize = 32;

/// Offset of the data length inside a full account entry.
pub const DATA_LEN_OFFSET: usize = 80;

/// One slot of the account table, as a value.
pub enum SlotView {
    Duplicate(u8),
    Unique(Seq<u8>, Seq<u8>),
}

/// One slot of the account table: a duplicate of an earlier slot, or an
/// account's key and data, borrowed from the input.
pub enum AccountSlot<'a> {
    Duplicate(u8),
    Unique { key: &'a [u8], data: &'a [u8] },
}

impl<'a> View for AccountSlot<'a> {
    type V = SlotView;

    open spec fn view(&self) -> SlotView {
        match self {
            AccountSlot::Duplicate(i) => SlotView::Duplicate(*i),
            AccountSlot::Unique { key, data } => SlotView::Unique(key@, data@),
        }
    }
}

/// Where the full account entry starting at `pos` ends, given its data length.
pub open spec fn unique_entry_end(pos: int, data_len: int) -> int {
    align_up(
        pos + DATA_LEN_OFFSET + 8 + data_len + MAX_PERMITTED_DATA_INCREASE,
        BPF_ALIGN_OF_U128 as int,
    ) + 8
}

/// The slot encoded at `pos` of `b` and the position just past it, if the
/// whole entry lies in `b`.
pub open spec fn slot_at(b: Seq<u8>, pos: int) -> Option<(SlotView, int)> {
    if pos < 0 || pos + 8 > b.len() {
        None
    } else if b[pos] != NON_DUP_MARKER {
        Some((SlotView::Duplicate(b[pos]), pos + 8))
    } else if pos + DATA_LEN_OFFSET + 8 > b.len() {
        None
    } else {
        let len = le_u64(b, pos + DATA_LEN_OFFSET);
        let data = pos + DATA_LEN_OFFSET + 8;
        let end = unique_entry_end(pos, len);
        if end > b.len() {
            None
        } else {
            Some(
                (
                    SlotView::Unique(b.subrange(pos + 8, pos + 8 + KEY_LEN), b.subrange(data, data + len)),
                    end,
                ),
            )
        }
    }
}

/// The next `count` slots from `pos` of `b`, up to the first that does not
/// lie in `b`.
pub open spec fn walk(b: Seq<u8>, pos: int, count: nat) -> Seq<SlotView>
    decreases count,
{
    if count == 0 {
        seq![]
    } else {
        match slot_at(b, pos) {
            None => seq![],
            Some((s, next)) => seq![s] + walk(b, next, (count - 1) as nat),
        }
    }
}

/// The slots of the account table of `input`.
pub open spec fn accounts(input: Seq<u8>) -> Seq<SlotView> {
    if input.len() < 8 {
        seq![]
    } else {
        walk(input, 8, le_u64(input, 0) as nat)
    }
}

/// Walker over the account table of an entrypoint input buffer.
pub struct AccountsInfoIter<'a> {
    cursor: RawCursor<'a>,
    count: u64,
}

impl<'a> AccountsInfoIter<'a> {
    pub closed spec fn wf(&self) -> bool {
        self.cursor.wf()
    }

    /// What the walker still yields.
    pub closed spec fn remaining(&self) -> Seq<SlotView> {
        walk(self.cursor.buffer(), self.cursor.position(), self.count as nat)
    }

    /// A walker over the account table of `input`.
    pub fn new(input: &'a [u8]) -> (r: Self)
        ensures
            r.wf(),
            r.remaining() == accounts(input@),
    {
        let mut cursor = RawCursor::new(input);
        let mut count: u64 = 0;
        if cursor.remaining() >= 8 {
            count = cursor.get_u64();
        }
        AccountsInfoIter { cursor, count }
    }

    /// The next slot; `None` once the table is done.
    pub fn next(&mut self) -> (r: Option<AccountSlot<'a>>)
        requires
            old(self).wf(),
        ensures
            final(self).wf(),
            old(self).remaining().len() == 0 ==> r is None && final(self).remaining().len() == 0,
            old(self).remaining().len() > 0 ==> (r matches Some(s) && s@ == old(self).remaining()[0]
                && final(self).remaining() == old(self).remaining().drop_first()),
    {
        let ghost b = self.cursor.buffer();
        let ghost pos = self.cursor.position();
        let ghost count = self.count as nat;
        proof {
            self.cursor.lemma_buffer_fits();
        }
        if self.count == 0 {
            return None;
        }
        let rem = self.cursor.remaining();
        if rem < 8 {
            self.count = 0;
            return None;
        }
        let next_count = self.count - 1;
        let marker = self.cursor.get_u8();
        self.cursor.get_raw(7);
        if marker != NON_DUP_MARKER {
            self.count = next_count;
            proof {
                assert(slot_at(b, pos) == Some((SlotView::Duplicate(marker), pos + 8)));
                assert(walk(b, pos, count).drop_first() =~= walk(b, pos + 8, next_count as nat));
            }
            return Some(AccountSlot::Duplicate(marker));
        }
        if rem < DATA_LEN_OFFSET + 8 {
            self.count = 0;
            return None;
        }
        let key = self.cursor.get_bytes(KEY_LEN);
        let _owner = self.cursor.get_raw(KEY_LEN);
        let _lamports = self.cursor.get_raw(8);
        let len = self.cursor.peek_u64();
        if len as u128 > (self.cursor.remaining() - 8) as u128 {
            self.count = 0;
            return None;
        }
        let data = self.cursor.get_slice();
        let spare = self.cursor.offset();
        if self.cursor.remaining() < MAX_PERMITTED_DATA_INCREASE {
            self.count = 0;
            return None;
        }
        let spare_end = spare + MAX_PERMITTED_DATA_INCREASE;
        let pad = (BPF_ALIGN_OF_U128 - spare_end % BPF_ALIGN_OF_U128) % BPF_ALIGN_OF_U128;
        if self.cursor.remaining() - MAX_PERMITTED_DATA_INCREASE < pad + 8 {
            self.count = 0;
            return None;
        }
        self.cursor.get_raw(MAX_PERMITTED_DATA_INCREASE);
        self.cursor.align(BPF_ALIGN_OF_U128);
        let _rent_epoch = self.cursor.get_u64();
        self.count = next_count;
        proof {
            assert(slot_at(b, pos) == Some(
                (SlotView::Unique(key@, data@), self.cursor.position()),
            ));
            assert(walk(b, pos, count).drop_first() =~= walk(
                b,
                self.cursor.position(),
                next_count as nat,
            ));
        }
        Some(AccountSlot::Unique { key, data })
    }
}

/// Whether `b` holds, at `pos`, an account entry that encodes slot `s`: a
/// duplicate entry of eight bytes whose first byte is the index it repeats,
/// or a full entry with the slot's key, data length and data.  Bytes that the
/// walker skips (flags, owner, lamports, spare room, padding, rent epoch) may
/// hold anything.
pub open spec fn entry_holds(b: Seq<u8>, pos: int, s: SlotView) -> bool {
    match s {
        SlotView::Duplicate(index) => {
            &&& pos + 8 <= b.len()
            &&& index != NON_DUP_MARKER
            &&& b[pos] == index
        },
        SlotView::Unique(key, data) => {
            &&& pos + DATA_LEN_OFFSET + 8 <= b.len()
            &&& unique_entry_end(pos, data.len() as int) <= b.len()
            &&& b[pos] == NON_DUP_MARKER
            &&& key.len() == KEY_LEN
            &&& b.subrange(pos + 8, pos + 8 + KEY_LEN) == key
            &&& le_u64(b, pos + DATA_LEN_OFFSET) == data.len()
            &&& b.subrange(pos + DATA_LEN_OFFSET + 8, pos + DATA_LEN_OFFSET + 8 + data.len()) == data
        },
    }
}

/// The position just past the entry at `pos` that encodes slot `s`.
pub open spec fn entry_end(pos: int, s: SlotView) -> int {
    match s {
        SlotView::Duplicate(_) => pos + 8,
        SlotView::Unique(_, data) => unique_entry_end(pos, data.len() as int),
    }
}

/// Whether `b` holds, one after the other from `pos`, entries that encode
/// `slots` in order.
pub open spec fn laid_out(b: Seq<u8>, pos: int, slots: Seq<SlotView>) -> bool
    decreases slots.len(),
{
    slots.len() == 0 || (entry_holds(b, pos, slots[0]) && laid_out(
        b,
        entry_end(pos, slots[0]),
        slots.drop_first(),
    ))
}

/// Walking entries laid out from `pos` yields the slots they encode.
pub proof fn lemma_walk_laid_out(b: Seq<u8>, pos: int, slots: Seq<SlotView>)
    requires
        0 <= pos,
        laid_out(b, pos, slots),
    ensures
        walk(b, pos, slots.len()) == slots,
    decreases slots.len(),
{
    if slots.len() > 0 {
        let s = slots[0];
        let next = entry_end(pos, s);
        assert(slot_at(b, pos) == Some((s, next)));
        lemma_walk_laid_out(b, next, slots.drop_first());
        assert(walk(b, pos, slots.len()) =~= seq![s] + slots.drop_first());
    }
}

/// An input whose count is that of the entries laid out after it yields
/// exactly the slots they encode, in input order: each full entry its key and
/// its data, each duplicate entry the index it repeats and nothing else.
pub proof fn lemma_accounts_laid_out(input: Seq<u8>, slots: Seq<SlotView>)
    requires
        input.len() >= 8,
        le_u64(input, 0) == slots.len(),
        laid_out(input, 8, slots),
    ensures
        accounts(input) == slots,
{
    lemma_walk_laid_out(input, 8, slots);
}

} // verus!
