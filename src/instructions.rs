//! Walker over the instructions that the instructions system account holds.
//!
//! The account's data starts with a `u16` instruction count and that many
//! `u16` offsets, each counted from the start of the data.  At each offset an
//! instruction is encoded as a `u16` account count, that many 33-byte account
//! references, a 32-byte program id, a `u16` payload length and the payload.
//! All integers are little-endian.

use vstd::prelude::*;
use crate::accounts::KEY_LEN;
use crate::bytes::{le_u16, read_u16, lemma_slice_len_fits};

verus! {

/// Bytes of one account reference inside an encoded instruction: a role byte
/// and a 32-byte key.
pub const ACCOUNT_REF_BYTES: usize = 33;

/// A decoded instruction: its program id and its payload.
pub type InstructionView = (Seq<u8>, Seq<u8>);

/// The view of a decoded instruction handed out as two borrowed slices.
pub open spec fn instruction_view(r: Option<(&[u8], &[u8])>) -> Option<InstructionView> {
    match r {
        Some((id, payload)) => Some((id@, payload@)),
        None => None,
    }
}

/// The offsets that the header of instructions-account data `d` lists; none
/// where the header does not fit in `d`.
pub open spec fn offset_table(d: Seq<u8>) -> Seq<int> {
    if d.len() < 2 || 2 + 2 * le_u16(d, 0) > d.len() {
        seq![]
    } else {
        Seq::new(le_u16(d, 0) as nat, |i: int| le_u16(d, 2 + 2 * i))
    }
}

/// The instruction encoded at the start of `s`, if all of it lies in `s`.
pub open spec fn instruction_from(s: Seq<u8>) -> Option<InstructionView> {
    if s.len() < 2 {
        None
    } else {
        let p = 2 + ACCOUNT_REF_BYTES * le_u16(s, 0);
        if p + KEY_LEN + 2 > s.len() {
            None
        } else {
            let q = p + KEY_LEN + 2;
            let len = le_u16(s, p + KEY_LEN);
            if q + len > s.len() {
                None
            } else {
                Some((s.subrange(p, p + KEY_LEN), s.subrange(q, q + len)))
            }
        }
    }
}

/// The instruction encoded at offset `off` of `d`.
pub open spec fn instruction_at(d: Seq<u8>, off: int) -> Option<InstructionView> {
    if 0 <= off <= d.len() {
        instruction_from(d.subrange(off, d.len() as int))
    } else {
        None
    }
}

/// The outcome of decoding each instruction that `d` lists, in the order of
/// its offset table.
pub open spec fn instructions(d: Seq<u8>) -> Seq<Option<InstructionView>> {
    offset_table(d).map_values(|off: int| instruction_at(d, off))
}

/// Walker over the instructions listed in instructions-account data, in the
/// order of the offset table.
///
/// It is not fused: a step whose instruction does not decode yields `None`,
/// and a later step may still yield an instruction.
pub struct InstructionsIter<'a> {
    data: &'a [u8],
    next: usize,
    count: usize,
}

impl<'a> InstructionsIter<'a> {
    pub closed spec fn wf(&self) -> bool {
        &&& self.next <= self.count
        &&& self.count == 0 || 2 + 2 * self.count <= self.data@.len()
    }

    /// The data the walker reads.
    pub closed spec fn data(&self) -> Seq<u8> {
        self.data@
    }

    /// What the steps still to come yield, one entry each.
    pub closed spec fn remaining(&self) -> Seq<Option<InstructionView>> {
        Seq::new(
            (self.count - self.next) as nat,
            |i: int| instruction_at(self.data@, le_u16(self.data@, 2 + 2 * (self.next + i))),
        )
    }

    /// A walker over every instruction that `data` lists.
    pub fn new(data: &'a [u8]) -> (r: Self)
        ensures
            r.wf(),
            r.data() == data@,
            r.remaining() == instructions(data@),
    {
        proof {
            lemma_slice_len_fits(data);
        }
        let mut count: usize = 0;
        if data.len() >= 2 {
            let n = read_u16(data, 0) as usize;
            if n <= (data.len() - 2) / 2 {
                count = n;
            }
        }
        let r = InstructionsIter { data, next: 0, count };
        assert(r.remaining() =~= instructions(data@));
        r
    }

    /// Decodes the instruction at the start of `data`.
    pub fn parse_instruction(data: &'a [u8]) -> (r: Option<(&'a [u8], &'a [u8])>)
        ensures
            instruction_view(r) == instruction_from(data@),
    {
        proof {
            lemma_slice_len_fits(data);
        }
        if data.len() < 2 {
            return None;
        }
        let n = read_u16(data, 0) as usize;
        let p = 2 + ACCOUNT_REF_BYTES * n;
        if p > data.len() || data.len() - p < KEY_LEN + 2 {
            return None;
        }
        let id = vstd::slice::slice_subrange(data, p, p + KEY_LEN);
        let len = read_u16(data, p + KEY_LEN) as usize;
        let q = p + KEY_LEN + 2;
        if data.len() - q < len {
            return None;
        }
        let payload = vstd::slice::slice_subrange(data, q, q + len);
        Some((id, payload))
    }

    /// Moves to the next instruction and decodes it.  `None` both when no
    /// instruction is left and when this one does not decode.
    pub fn next(&mut self) -> (r: Option<(&'a [u8], &'a [u8])>)
        requires
            old(self).wf(),
        ensures
            final(self).wf(),
            final(self).data() == old(self).data(),
            old(self).remaining().len() == 0 ==> r is None && final(self).remaining()
                == old(self).remaining(),
            old(self).remaining().len() > 0 ==> instruction_view(r) == old(self).remaining()[0]
                && final(self).remaining() == old(self).remaining().drop_first(),
    {
        if self.next >= self.count {
            return None;
        }
        proof {
            lemma_slice_len_fits(self.data);
        }
        let ghost before = self.remaining();
        let off = read_u16(self.data, 2 + 2 * self.next) as usize;
        self.next = self.next + 1;
        assert(self.remaining() =~= before.drop_first());
        if off > self.data.len() {
            return None;
        }
        let rest = vstd::slice::slice_subrange(self.data, off, self.data.len());
        Self::parse_instruction(rest)
    }
}

/// Whether `s` starts with an encoded instruction for program `ix.0` with
/// payload `ix.1`; the account references it lists may hold anything.
pub open spec fn instruction_holds(s: Seq<u8>, ix: InstructionView) -> bool {
    &&& s.len() >= 2
    &&& ix.0.len() == KEY_LEN
    &&& {
        let p = 2 + ACCOUNT_REF_BYTES * le_u16(s, 0);
        &&& p + KEY_LEN + 2 + ix.1.len() <= s.len()
        &&& s.subrange(p, p + KEY_LEN) == ix.0
        &&& le_u16(s, p + KEY_LEN) == ix.1.len()
        &&& s.subrange(p + KEY_LEN + 2, p + KEY_LEN + 2 + ix.1.len()) == ix.1
    }
}

/// Instructions data whose header lists `offsets`, with instruction `ixs[i]`
/// encoded at `offsets[i]`, yields exactly those instructions in the order of
/// the offset table, wherever in the data they stand.
pub proof fn lemma_instructions_listed(d: Seq<u8>, offsets: Seq<int>, ixs: Seq<InstructionView>)
    requires
        offsets.len() == ixs.len(),
        2 + 2 * ixs.len() <= d.len(),
        le_u16(d, 0) == ixs.len(),
        forall|i: int| 0 <= i < offsets.len() ==> le_u16(d, 2 + 2 * i) == #[trigger] offsets[i],
        forall|i: int|
            0 <= i < offsets.len() ==> 0 <= #[trigger] offsets[i] <= d.len() && instruction_holds(
                d.subrange(offsets[i], d.len() as int),
                ixs[i],
            ),
    ensures
        instructions(d) == ixs.map_values(|ix: InstructionView| Some(ix)),
{
    assert forall|i: int| 0 <= i < ixs.len() implies instruction_at(d, offsets[i]) == Some(
        ixs[i],
    ) by {
        assert(instruction_holds(d.subrange(offsets[i], d.len() as int), ixs[i]));
    }
    assert(instructions(d) =~= ixs.map_values(|ix: InstructionView| Some(ix)));
}

} // verus!
