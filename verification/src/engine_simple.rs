//! The reference backend: a formula that is the address of one other cell
//! takes that cell's value.

use crate::error::EvalError;
use crate::reference::{parse, parse_reference, Reference};
use crate::sheet::{CellIdx, CellView, Sheet};
use crate::sheet_state::{resolve, shown, SheetState};
use vstd::prelude::*;
use vstd::string::StringExecFns;

verus! {

/// The value of the formula `text`, which the caller has stripped of its
/// leading `=`, on `sheet` while the cells `visiting` are being resolved.
///
/// Text that is no address stands for itself. An address that names no cell
/// gives the message for that. A valid address gives what the cell it names
/// shows; `None` where a script decides that.
pub open spec fn reference_value(
    sheet: Map<CellIdx, CellView>,
    text: Seq<char>,
    visiting: Set<CellIdx>,
) -> Option<Seq<char>> {
    match parse_reference(text) {
        Reference::NotAReference => Some(text),
        Reference::InvalidAddress => Some(EvalError::InvalidAddress.text()),
        Reference::Target(target) => shown(sheet, target, visiting),
    }
}

/// Evaluates the formula `text` on `sheet` while the cells `visiting` are
/// being resolved.
pub fn calc_with(sheet: &Sheet, text: &str, visiting: &Vec<CellIdx>) -> (value: String)
    ensures
        reference_value(sheet@, text@, visiting@.to_set()) matches Some(v) ==> value@ == v,
    decreases sheet@.dom().difference(visiting@.to_set()).len(), 1int,
{
    match parse(text) {
        Reference::NotAReference => String::from_str(text),
        Reference::InvalidAddress => EvalError::InvalidAddress.message(),
        Reference::Target(target) => resolve(sheet, &target, visiting),
    }
}

/// Evaluates the formula `text`, already stripped of its leading `=`, on the
/// sheet of `sheet_state`. The state is left as it was.
pub fn calc(sheet_state: &mut SheetState, text: &str) -> (value: String)
    ensures
        *final(sheet_state) == *old(sheet_state),
        reference_value(old(sheet_state).sheet@, text@, Set::empty()) matches Some(v) ==> value@
            == v,
{
    let visiting: Vec<CellIdx> = Vec::new();
    assert(visiting@.to_set() == Set::<CellIdx>::empty());
    calc_with(&sheet_state.sheet, text, &visiting)
}

} // verus!
