use rusty_sheet::engine_simple;
use rusty_sheet::error::EvalError;
use rusty_sheet::sheet::{CellIdx, Sheet};
use rusty_sheet::sheet_state::{resolve, SheetState};

const A1: CellIdx = CellIdx { col: 0, row: 0 };
const B1: CellIdx = CellIdx { col: 1, row: 0 };
const C1: CellIdx = CellIdx { col: 2, row: 0 };
const A2: CellIdx = CellIdx { col: 0, row: 1 };

#[test]
fn new_state_starts_at_the_first_cell() {
    let state = SheetState::new();
    assert_eq!(state.selected, A1);
    assert_eq!(state.view_offset, A1);
    assert_eq!(state.text, "");
    assert_eq!(state.sheet.get(&A1), None);
}

#[test]
fn unset_cell_shows_nothing() {
    let mut state = SheetState::new();
    state.sheet.set_text(A1, "x".to_string());
    assert_eq!(state.get_value(&B1), "");
    assert_eq!(state.get_value(&CellIdx { col: u32::MAX, row: u32::MAX }), "");
}

#[test]
fn literal_is_shown_as_it_is() {
    let mut state = SheetState::new();
    state.sheet.set_text(A1, "hello".to_string());
    assert_eq!(state.get_value(&A1), "hello");
}

#[test]
fn literal_is_shown_trimmed() {
    let mut state = SheetState::new();
    state.sheet.set_text(A1, "  hello world \t".to_string());
    assert_eq!(state.get_value(&A1), "hello world");
}

#[test]
fn white_space_alone_shows_nothing() {
    let mut state = SheetState::new();
    state.sheet.set_text(A1, " \t \r\n".to_string());
    assert_eq!(state.get_value(&A1), "");
    state.sheet.set_text(B1, "=A1".to_string());
    assert_eq!(state.get_value(&B1), "");
}

#[test]
fn address_without_equals_sign_is_a_literal() {
    let mut state = SheetState::new();
    state.sheet.set_text(A1, "hello".to_string());
    state.sheet.set_text(B1, "A1".to_string());
    assert_eq!(state.get_value(&B1), "A1");
}

#[test]
fn single_reference() {
    let mut state = SheetState::new();
    state.sheet.set_text(A1, "hello".to_string());
    state.sheet.set_text(B1, "=A1".to_string());
    assert_eq!(state.get_value(&B1), "hello");
}

#[test]
fn reference_is_trimmed_before_it_is_read() {
    let mut state = SheetState::new();
    state.sheet.set_text(A1, "hello".to_string());
    state.sheet.set_text(B1, "  =A1 \n".to_string());
    assert_eq!(state.get_value(&B1), "hello");
}

#[test]
fn chained_reference() {
    let mut state = SheetState::new();
    state.sheet.set_text(A1, "hello".to_string());
    state.sheet.set_text(B1, "=A1".to_string());
    state.sheet.set_text(C1, "=B1".to_string());
    assert_eq!(state.get_value(&C1), "hello");
}

#[test]
fn far_reference() {
    let mut state = SheetState::new();
    state.sheet.set_text(CellIdx { col: 53, row: 999 }, "far".to_string());
    state.sheet.set_text(A1, "=BB1000".to_string());
    assert_eq!(state.get_value(&A1), "far");
}

#[test]
fn reference_to_unset_cell_shows_nothing() {
    let mut state = SheetState::new();
    state.sheet.set_text(A1, "=Z99".to_string());
    assert_eq!(state.get_value(&A1), "");
}

#[test]
fn formula_that_is_no_address_is_a_literal() {
    let mut state = SheetState::new();
    state.sheet.set_text(A1, "=hello".to_string());
    assert_eq!(state.get_value(&A1), "hello");
    state.sheet.set_text(A1, "=A1B".to_string());
    assert_eq!(state.get_value(&A1), "A1B");
    state.sheet.set_text(A1, "=".to_string());
    assert_eq!(state.get_value(&A1), "");
}

#[test]
fn row_zero_shows_invalid_address() {
    let mut state = SheetState::new();
    state.sheet.set_text(A1, "=A0".to_string());
    assert_eq!(state.get_value(&A1), EvalError::InvalidAddress.message());
    assert_eq!(state.get_value(&A1), "Error: invalid address");
}

#[test]
fn reference_backend_on_row_zero() {
    let mut state = SheetState::new();
    assert_eq!(engine_simple::calc(&mut state, "A0"), "Error: invalid address");
}

#[test]
fn address_beyond_the_range_shows_invalid_address() {
    let mut state = SheetState::new();
    state.sheet.set_text(A1, "=A4294967297".to_string());
    assert_eq!(state.get_value(&A1), "Error: invalid address");
    state.sheet.set_text(A1, "=MWLQKWW1".to_string());
    assert_eq!(state.get_value(&A1), "Error: invalid address");
}

#[test]
fn invalid_address_is_passed_on() {
    let mut state = SheetState::new();
    state.sheet.set_text(A1, "=A0".to_string());
    state.sheet.set_text(B1, "=A1".to_string());
    assert_eq!(state.get_value(&B1), "Error: invalid address");
}

#[test]
fn self_reference_shows_circular_reference() {
    let mut state = SheetState::new();
    state.sheet.set_text(A1, "=A1".to_string());
    assert_eq!(state.get_value(&A1), EvalError::CircularReference.message());
    assert_eq!(state.get_value(&A1), "Error: circular reference");
}

#[test]
fn mutual_reference_shows_circular_reference() {
    let mut state = SheetState::new();
    state.sheet.set_text(A1, "=B1".to_string());
    state.sheet.set_text(B1, "=A1".to_string());
    assert_eq!(state.get_value(&A1), "Error: circular reference");
    assert_eq!(state.get_value(&B1), "Error: circular reference");
}

#[test]
fn long_cycle_shows_circular_reference() {
    let mut state = SheetState::new();
    state.sheet.set_text(A1, "=B1".to_string());
    state.sheet.set_text(B1, "=C1".to_string());
    state.sheet.set_text(C1, "=A2".to_string());
    state.sheet.set_text(A2, "=B1".to_string());
    assert_eq!(state.get_value(&A1), "Error: circular reference");
    assert_eq!(state.get_value(&A2), "Error: circular reference");
}

#[test]
fn cell_is_free_again_after_a_cycle() {
    let mut state = SheetState::new();
    state.sheet.set_text(A1, "=A1".to_string());
    assert_eq!(state.get_value(&A1), "Error: circular reference");
    state.sheet.set_text(A1, "fine".to_string());
    assert_eq!(state.get_value(&A1), "fine");
}

#[test]
fn long_chain_is_followed_to_its_end() {
    let mut state = SheetState::new();
    state.sheet.set_text(CellIdx { col: 0, row: 0 }, "end".to_string());
    for row in 1..200u32 {
        state.sheet.set_text(CellIdx { col: 0, row }, format!("=A{}", row));
    }
    assert_eq!(state.get_value(&CellIdx { col: 0, row: 199 }), "end");
}

#[test]
fn only_the_first_line_is_shown() {
    let mut state = SheetState::new();
    state.sheet.set_text(A1, "first\rsecond\rthird".to_string());
    assert_eq!(state.get_value(&A1), "first");
    state.sheet.set_text(B1, "=A1".to_string());
    assert_eq!(state.get_value(&B1), "first");
}

#[test]
fn line_feed_does_not_end_the_line() {
    let mut state = SheetState::new();
    state.sheet.set_text(A1, "first\nsecond".to_string());
    assert_eq!(state.get_value(&A1), "first\nsecond");
}

#[test]
fn get_value_leaves_the_state_alone() {
    let mut state = SheetState::new();
    state.sheet.set_text(A1, "hello".to_string());
    state.sheet.set_text(B1, "=A1".to_string());
    state.selected = C1;
    state.text = "typing".to_string();
    assert_eq!(state.get_value(&B1), "hello");
    assert_eq!(state.selected, C1);
    assert_eq!(state.view_offset, A1);
    assert_eq!(state.text, "typing");
    assert_eq!(state.sheet.get_text(&A1), "hello");
    assert_eq!(state.sheet.get_text(&B1), "=A1");
}

#[test]
fn reference_backend_on_an_address() {
    let mut state = SheetState::new();
    state.sheet.set_text(A1, "hello".to_string());
    assert_eq!(engine_simple::calc(&mut state, "A1"), "hello");
    assert_eq!(engine_simple::calc(&mut state, "B7"), "");
}

#[test]
fn reference_backend_on_other_text() {
    let mut state = SheetState::new();
    assert_eq!(engine_simple::calc(&mut state, "hello"), "hello");
    assert_eq!(engine_simple::calc(&mut state, "=A1"), "=A1");
    assert_eq!(engine_simple::calc(&mut state, "two\rlines"), "two\rlines");
    assert_eq!(engine_simple::calc(&mut state, ""), "");
}

#[test]
fn resolve_knows_the_cells_being_resolved() {
    let mut sheet = Sheet::new();
    sheet.set_text(A1, "hello".to_string());
    sheet.set_text(B1, "=A1".to_string());
    assert_eq!(resolve(&sheet, &B1, &vec![]), "hello");
    assert_eq!(resolve(&sheet, &B1, &vec![C1]), "hello");
    assert_eq!(resolve(&sheet, &B1, &vec![A1]), "Error: circular reference");
    assert_eq!(resolve(&sheet, &B1, &vec![B1]), "Error: circular reference");
    assert_eq!(engine_simple::calc_with(&sheet, "A1", &vec![A1]), "Error: circular reference");
}
