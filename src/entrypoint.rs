//! Finding, in an entrypoint input buffer, the heap size that the transaction
//! asked for.

use vstd::prelude::*;
use crate::accounts::{accounts, AccountSlot, AccountsInfoIter, SlotView};
use crate::compute_budget::{
    compute_budget_id, heap_frame_request, is_compute_budget_program,
    parse_compute_budget_instruction,
};
use crate::instructions::{instructions, InstructionView, InstructionsIter};

verus! {

/// Identifier of the instructions system account,
/// `Sysvar1nstructions1111111111111111111111111` in base 58.
pub open spec fn instructions_sysvar_id() -> Seq<u8> {
    seq![
        6u8, 167, 213, 23, 24, 123, 209, 102, 53, 218, 212, 4, 85, 253, 194, 192,
        193, 36, 198, 143, 33, 86, 117, 165, 219, 186, 203, 95, 8, 0, 0, 0,
    ]
}

/// Relies on `solana_program::sysvar::instructions::check_id`, which compares
/// a key with the instructions system account's identifier; a slice that is
/// not 32 bytes long is no key at all.
#[verifier::external_body]
fn is_instructions_sysvar(key: &[u8]) -> (r: bool)
    ensures
        r == (key@ == instructions_sysvar_id()),
{
    match solana_program::pubkey::Pubkey::try_from(key) {
        Ok(k) => solana_program::sysvar::instructions::check_id(&k),
        Err(_) => false,
    }
}

/// The data of the first non-duplicate slot whose key is the instructions
/// system account's identifier.
pub open spec fn instructions_account_data(slots: Seq<SlotView>) -> Option<Seq<u8>>
    decreases slots.len(),
{
    if slots.len() == 0 {
        None
    } else {
        match slots[0] {
            SlotView::Unique(key, data) if key == instructions_sysvar_id() => Some(data),
            _ => instructions_account_data(slots.drop_first()),
        }
    }
}

/// The first heap size requested by the leading run of compute-budget
/// instructions; the run ends at the first instruction that does not decode
/// or that another program receives.
pub open spec fn requested_heap(ixs: Seq<Option<InstructionView>>) -> Option<u64>
    decreases ixs.len(),
{
    if ixs.len() == 0 {
        None
    } else {
        match ixs[0] {
            None => None,
            Some((id, payload)) => {
                if id != compute_budget_id() {
                    None
                } else {
                    match heap_frame_request(payload) {
                        Some(n) => Some(n),
                        None => requested_heap(ixs.drop_first()),
                    }
                }
            },
        }
    }
}

/// The heap size that the transaction behind entrypoint input `input` asked
/// for, if it did.
pub open spec fn heap_size_request(input: Seq<u8>) -> Option<u64> {
    match instructions_account_data(accounts(input)) {
        None => None,
        Some(d) => requested_heap(instructions(d)),
    }
}

/// Advances `it` to the instructions system account and returns its data.
fn find_instructions_account<'a>(it: &mut AccountsInfoIter<'a>) -> (r: Option<&'a [u8]>)
    requires
        old(it).wf(),
    ensures
        r matches Some(d) ==> instructions_account_data(old(it).remaining()) == Some(d@),
        r is None ==> instructions_account_data(old(it).remaining()) is None,
{
    let ghost target = instructions_account_data(old(it).remaining());
    loop
        invariant
            it.wf(),
            instructions_account_data(it.remaining()) == target,
            target == instructions_account_data(old(it).remaining()),
        decreases it.remaining().len(),
    {
        let ghost before = it.remaining();
        match it.next() {
            None => {
                return None;
            },
            Some(AccountSlot::Duplicate(_)) => {},
            Some(AccountSlot::Unique { key, data }) => {
                if is_instructions_sysvar(key) {
                    return Some(data);
                }
            },
        }
    }
}

/// Returns the heap size in bytes that the transaction requested through the
/// compute-budget program, reading the input buffer that the runtime hands to
/// the entrypoint.  Allocates nothing, so it can run before any allocator.
pub fn extract_heap_size(input: &[u8]) -> (r: Option<u64>)
    ensures
        r == heap_size_request(input@),
{
    let mut accounts_iter = AccountsInfoIter::new(input);
    let data = match find_instructions_account(&mut accounts_iter) {
        None => {
            return None;
        },
        Some(d) => d,
    };
    let mut ixs = InstructionsIter::new(data);
    let ghost target = requested_heap(instructions(data@));
    assert(target == heap_size_request(input@));
    loop
        invariant
            ixs.wf(),
            requested_heap(ixs.remaining()) == target,
            target == heap_size_request(input@),
        decreases ixs.remaining().len(),
    {
        let ghost before = ixs.remaining();
        match ixs.next() {
            None => {
                return None;
            },
            Some((id, payload)) => {
                if !is_compute_budget_program(id) {
                    return None;
                }
                match parse_compute_budget_instruction(payload) {
                    Some(n) => {
                        return Some(n);
                    },
                    None => {},
                }
            },
        }
    }
}

} // verus!
