//! The resolver: from a cell's address to the value it shows.

use crate::engine_python;
use crate::engine_simple;
use crate::error::EvalError;
use crate::reference::{parse_reference, Reference};
use crate::sheet::{CellIdx, CellView, EngineType, Sheet};
use crate::text::{display_line, first_line, lemma_first_line, strip_first, trim, trimmed};
use vstd::prelude::*;

verus! {

/// A sheet together with what the user is doing to it.
pub struct SheetState {
    /// The cell that is selected.
    pub selected: CellIdx,
    /// The cell shown in the top left corner.
    pub view_offset: CellIdx,
    /// The text being typed for the selected cell, not yet stored.
    pub text: String,
    pub sheet: Sheet,
}

/// What the text of a `Simple` cell asks for.
pub enum Formula {
    /// The cell shows this text.
    Constant(Seq<char>),
    /// The cell shows what this other cell shows.
    Reference(CellIdx),
}

/// What the trimmed text of a `Simple` cell asks for. Text that does not
/// begin with `=` is a constant. Behind `=` stands a formula: the address of
/// a cell, or failing that a constant again.
pub open spec fn simple_formula(text: Seq<char>) -> Formula {
    if text.len() > 0 && text[0] == '=' {
        match parse_reference(text.skip(1)) {
            Reference::NotAReference => Formula::Constant(text.skip(1)),
            Reference::InvalidAddress => Formula::Constant(EvalError::InvalidAddress.text()),
            Reference::Target(target) => Formula::Reference(target),
        }
    } else {
        Formula::Constant(text)
    }
}

/// What the cell at `idx` shows on `sheet`, while the cells `visiting` are
/// being resolved further up the chain of references; `None` where a script
/// decides it.
///
/// A cell that is being resolved already shows the message for a circular
/// reference. A cell without an entry, or with nothing but white space,
/// shows nothing. Otherwise the cell shows the first line of what its
/// backend makes of its trimmed text.
pub open spec fn shown(sheet: Map<CellIdx, CellView>, idx: CellIdx, visiting: Set<CellIdx>) -> Option<
    Seq<char>,
>
    decreases sheet.dom().difference(visiting).len(),
    when sheet.dom().finite()
{
    if visiting.contains(idx) {
        Some(EvalError::CircularReference.text())
    } else if !sheet.contains_key(idx) || trimmed(sheet[idx].text).len() == 0 {
        Some(Seq::empty())
    } else {
        match sheet[idx].engine {
            EngineType::Python => None,
            EngineType::Simple => match simple_formula(trimmed(sheet[idx].text)) {
                Formula::Constant(value) => Some(first_line(value)),
                Formula::Reference(target) => {
                    proof {
                        sheet.dom().lemma_set_insert_diff_decreases(visiting, idx);
                    }
                    match shown(sheet, target, visiting.insert(idx)) {
                        Some(value) => Some(first_line(value)),
                        None => None,
                    }
                },
            },
        }
    }
}

/// What a cell shows is one line of text.
pub proof fn lemma_shown_is_one_line(
    sheet: Map<CellIdx, CellView>,
    idx: CellIdx,
    visiting: Set<CellIdx>,
)
    requires
        sheet.dom().finite(),
    ensures
        shown(sheet, idx, visiting) matches Some(value) ==> !value.contains('\r'),
{
    EvalError::CircularReference.lemma_text_is_one_line();
    if !visiting.contains(idx) && sheet.contains_key(idx) {
        match simple_formula(trimmed(sheet[idx].text)) {
            Formula::Constant(value) => lemma_first_line(value),
            Formula::Reference(target) => {
                if let Some(value) = shown(sheet, target, visiting.insert(idx)) {
                    lemma_first_line(value);
                }
            },
        }
    }
}

/// A cell without an entry shows nothing.
pub proof fn lemma_unset_cell_shows_nothing(sheet: Map<CellIdx, CellView>, idx: CellIdx)
    requires
        sheet.dom().finite(),
        !sheet.contains_key(idx),
    ensures
        shown(sheet, idx, Set::empty()) == Some(Seq::<char>::empty()),
{
}

/// A `Simple` cell whose trimmed text does not begin with `=` shows the first
/// line of that text.
pub proof fn lemma_constant_is_shown(
    sheet: Map<CellIdx, CellView>,
    idx: CellIdx,
    visiting: Set<CellIdx>,
)
    requires
        sheet.dom().finite(),
        sheet.contains_key(idx),
        !visiting.contains(idx),
        sheet[idx].engine == EngineType::Simple,
        trimmed(sheet[idx].text).len() > 0,
        trimmed(sheet[idx].text)[0] != '=',
    ensures
        shown(sheet, idx, visiting) == Some(first_line(trimmed(sheet[idx].text))),
{
}

/// Text stored in a `Simple` cell is shown there: where it begins and ends
/// with something other than white space, begins with something other than
/// `=` and is one line, the cell shows the text as it was stored.
pub proof fn lemma_stored_text_is_shown(sheet: Map<CellIdx, CellView>, idx: CellIdx, text: Seq<char>)
    requires
        sheet.dom().finite(),
        text.len() > 0,
        !crate::text::is_space(text[0]),
        !crate::text::is_space(text.last()),
        text[0] != '=',
        !text.contains('\r'),
    ensures
        shown(
            sheet.insert(idx, CellView { engine: EngineType::Simple, text }),
            idx,
            Set::empty(),
        ) == Some(text),
{
    crate::text::lemma_unspaced_is_trimmed(text);
    lemma_first_line(text);
    let stored = sheet.insert(idx, CellView { engine: EngineType::Simple, text });
    lemma_constant_is_shown(stored, idx, Set::empty());
}

/// A `Simple` cell whose formula is the address of a cell shows what that
/// cell shows while the first is being resolved.
pub proof fn lemma_reference_shows_target(
    sheet: Map<CellIdx, CellView>,
    idx: CellIdx,
    target: CellIdx,
    visiting: Set<CellIdx>,
)
    requires
        sheet.dom().finite(),
        sheet.contains_key(idx),
        !visiting.contains(idx),
        sheet[idx].engine == EngineType::Simple,
        trimmed(sheet[idx].text).len() > 0,
        simple_formula(trimmed(sheet[idx].text)) == Formula::Reference(target),
    ensures
        shown(sheet, idx, visiting) == shown(sheet, target, visiting.insert(idx)),
{
    lemma_shown_is_one_line(sheet, target, visiting.insert(idx));
    if let Some(value) = shown(sheet, target, visiting.insert(idx)) {
        lemma_first_line(value);
    }
}

/// A cell whose formula is its own address shows the message for a circular
/// reference.
pub proof fn lemma_self_reference_is_circular(sheet: Map<CellIdx, CellView>, idx: CellIdx)
    requires
        sheet.dom().finite(),
        sheet.contains_key(idx),
        sheet[idx].engine == EngineType::Simple,
        trimmed(sheet[idx].text).len() > 0,
        simple_formula(trimmed(sheet[idx].text)) == Formula::Reference(idx),
    ensures
        shown(sheet, idx, Set::empty()) == Some(EvalError::CircularReference.text()),
{
    lemma_reference_shows_target(sheet, idx, idx, Set::empty());
}

/// Two cells whose formulas are each other's addresses both show the message
/// for a circular reference.
pub proof fn lemma_mutual_reference_is_circular(
    sheet: Map<CellIdx, CellView>,
    idx: CellIdx,
    other: CellIdx,
)
    requires
        sheet.dom().finite(),
        sheet.contains_key(idx),
        sheet.contains_key(other),
        sheet[idx].engine == EngineType::Simple,
        sheet[other].engine == EngineType::Simple,
        trimmed(sheet[idx].text).len() > 0,
        trimmed(sheet[other].text).len() > 0,
        simple_formula(trimmed(sheet[idx].text)) == Formula::Reference(other),
        simple_formula(trimmed(sheet[other].text)) == Formula::Reference(idx),
    ensures
        shown(sheet, idx, Set::empty()) == Some(EvalError::CircularReference.text()),
{
    lemma_reference_shows_target(sheet, idx, other, Set::empty());
    if other != idx {
        lemma_reference_shows_target(sheet, other, idx, Set::empty().insert(idx));
    }
}

/// A cell whose formula is an address that names no cell, such as one with
/// row 0, shows the message for an invalid address.
pub proof fn lemma_invalid_address_is_shown(sheet: Map<CellIdx, CellView>, idx: CellIdx)
    requires
        sheet.dom().finite(),
        sheet.contains_key(idx),
        sheet[idx].engine == EngineType::Simple,
        trimmed(sheet[idx].text).len() > 0,
        trimmed(sheet[idx].text)[0] == '=',
        parse_reference(trimmed(sheet[idx].text).skip(1)) == Reference::InvalidAddress,
    ensures
        shown(sheet, idx, Set::empty()) == Some(EvalError::InvalidAddress.text()),
{
    EvalError::InvalidAddress.lemma_text_is_one_line();
    lemma_first_line(EvalError::InvalidAddress.text());
}

/// A cell whose formula is the address of a constant shows what the constant
/// shows, and so does a cell whose formula is the address of the first.
pub proof fn lemma_references_reach_constant(
    sheet: Map<CellIdx, CellView>,
    constant: CellIdx,
    first: CellIdx,
    second: CellIdx,
)
    requires
        sheet.dom().finite(),
        sheet.contains_key(constant),
        sheet.contains_key(first),
        sheet.contains_key(second),
        constant != first,
        constant != second,
        first != second,
        sheet[constant].engine == EngineType::Simple,
        sheet[first].engine == EngineType::Simple,
        sheet[second].engine == EngineType::Simple,
        trimmed(sheet[constant].text).len() > 0,
        trimmed(sheet[first].text).len() > 0,
        trimmed(sheet[second].text).len() > 0,
        trimmed(sheet[constant].text)[0] != '=',
        simple_formula(trimmed(sheet[first].text)) == Formula::Reference(constant),
        simple_formula(trimmed(sheet[second].text)) == Formula::Reference(first),
    ensures
        shown(sheet, first, Set::empty()) == shown(sheet, constant, Set::empty()),
        shown(sheet, second, Set::empty()) == shown(sheet, constant, Set::empty()),
{
    let none = Set::<CellIdx>::empty();
    lemma_constant_is_shown(sheet, constant, none);
    lemma_constant_is_shown(sheet, constant, none.insert(first));
    lemma_constant_is_shown(sheet, constant, none.insert(second).insert(first));
    lemma_reference_shows_target(sheet, first, constant, none);
    lemma_reference_shows_target(sheet, first, constant, none.insert(second));
    lemma_reference_shows_target(sheet, second, first, none);
}

/// Whether `idx` is among `visiting`.
fn is_visiting(visiting: &Vec<CellIdx>, idx: &CellIdx) -> (found: bool)
    ensures
        found == visiting@.to_set().contains(*idx),
{
    let mut i: usize = 0;
    while i < visiting.len()
        invariant
            i <= visiting.len(),
            forall|j: int| 0 <= j < i ==> visiting@[j] != *idx,
        decreases visiting.len() - i,
    {
        if visiting[i].col == idx.col && visiting[i].row == idx.row {
            assert(visiting@.contains(*idx));
            return true;
        }
        i += 1;
    }
    false
}

/// The cells `visiting` and `idx` after them.
fn and_visiting(visiting: &Vec<CellIdx>, idx: &CellIdx) -> (longer: Vec<CellIdx>)
    ensures
        longer@ == visiting@.push(*idx),
{
    let mut longer: Vec<CellIdx> = Vec::new();
    let mut i: usize = 0;
    while i < visiting.len()
        invariant
            i <= visiting.len(),
            longer@ == visiting@.take(i as int),
        decreases visiting.len() - i,
    {
        longer.push(visiting[i]);
        i += 1;
        assert(visiting@.take(i as int) == visiting@.take(i - 1).push(visiting@[i - 1]));
    }
    assert(visiting@.take(visiting.len() as int) == visiting@);
    longer.push(*idx);
    longer
}

/// What the cell at `idx` shows on `sheet`, while the cells `visiting` are
/// being resolved further up the chain.
pub fn resolve(sheet: &Sheet, idx: &CellIdx, visiting: &Vec<CellIdx>) -> (value: String)
    ensures
        shown(sheet@, *idx, visiting@.to_set()) matches Some(v) ==> value@ == v,
        !value@.contains('\r'),
    decreases sheet@.dom().difference(visiting@.to_set()).len(), 0int,
{
    proof {
        sheet.lemma_finitely_many_cells();
        EvalError::CircularReference.lemma_text_is_one_line();
    }
    if is_visiting(visiting, idx) {
        return EvalError::CircularReference.message();
    }
    let cell = match sheet.get(idx) {
        Some(cell) => cell,
        None => {
            return String::new();
        },
    };
    let text = trim(cell.value.as_str());
    if text.as_str().is_empty() {
        return text;
    }
    let inner = and_visiting(visiting, idx);
    proof {
        visiting@.lemma_push_to_set_commute(*idx);
        sheet@.dom().lemma_set_insert_diff_decreases(visiting@.to_set(), *idx);
    }
    let raw = match cell.engine {
        EngineType::Simple => match strip_first(text.as_str(), '=') {
            Some(formula) => engine_simple::calc_with(sheet, formula.as_str(), &inner),
            None => text,
        },
        EngineType::Python => engine_python::calc_with(sheet, text.as_str(), &inner),
    };
    proof {
        lemma_first_line(raw@);
        if let Some(v) = shown(sheet@, *idx, visiting@.to_set()) {
            if let Formula::Reference(target) = simple_formula(trimmed(sheet@[*idx].text)) {
                let inner_value = shown(sheet@, target, inner@.to_set())->0;
                lemma_first_line(inner_value);
            }
        }
    }
    display_line(raw)
}

impl SheetState {
    /// The state at the start of a session: an empty sheet, the first cell
    /// selected and shown in the corner, nothing typed.
    pub fn new() -> (state: SheetState)
        ensures
            state.selected == (CellIdx { col: 0, row: 0 }),
            state.view_offset == (CellIdx { col: 0, row: 0 }),
            state.text@ == Seq::<char>::empty(),
            state.sheet@ == Map::<CellIdx, CellView>::empty(),
    {
        SheetState {
            selected: CellIdx { col: 0, row: 0 },
            view_offset: CellIdx { col: 0, row: 0 },
            text: String::new(),
            sheet: Sheet::new(),
        }
    }

    /// What the cell at `idx` shows. The state is left as it was.
    pub fn get_value(&mut self, idx: &CellIdx) -> (value: String)
        ensures
            *final(self) == *old(self),
            shown(old(self).sheet@, *idx, Set::empty()) matches Some(v) ==> value@ == v,
            !old(self).sheet@.contains_key(*idx) ==> value@ == Seq::<char>::empty(),
            !value@.contains('\r'),
    {
        let visiting: Vec<CellIdx> = Vec::new();
        proof {
            assert(visiting@.to_set() == Set::<CellIdx>::empty());
            self.sheet.lemma_finitely_many_cells();
        }
        resolve(&self.sheet, idx, &visiting)
    }
}

} // verus!
