use rusty_sheet::engine_python::{self, display, display_outcome, ScriptValue};
use rusty_sheet::error::EvalError;
use rusty_sheet::sheet::{Cell, CellIdx, EngineType, Sheet};
use rusty_sheet::sheet_state::SheetState;

const A1: CellIdx = CellIdx { col: 0, row: 0 };
const B1: CellIdx = CellIdx { col: 1, row: 0 };
const C1: CellIdx = CellIdx { col: 2, row: 0 };

fn script(text: &str) -> Cell {
    Cell { engine: EngineType::Python, value: text.to_string() }
}

fn shown_for(text: &str) -> String {
    let mut state = SheetState::new();
    state.sheet.insert(A1, script(text));
    state.get_value(&A1)
}

#[test]
fn script_text_value() {
    assert_eq!(shown_for("'test'"), "test");
}

#[test]
fn script_integer_value() {
    assert_eq!(shown_for("6"), "6");
}

#[test]
fn script_float_value() {
    assert_eq!(shown_for("5.2"), "5.2");
}

#[test]
fn script_arithmetic() {
    assert_eq!(shown_for("1 + 2 * 3"), "7");
    assert_eq!(shown_for("7 / 2"), "3.5");
    assert_eq!(shown_for("'a' + 'b'"), "ab");
}

#[test]
fn script_numbers_at_the_edges() {
    assert_eq!(shown_for("-3"), "-3");
    assert_eq!(shown_for("-0.5"), "-0.5");
    assert_eq!(shown_for("6.0"), "6.0");
    assert_eq!(shown_for("2 ** 100"), "1267650600228229401496703205376");
    assert_eq!(shown_for("1e100"), "1e+100");
    assert_eq!(shown_for("float('nan')"), "nan");
    assert_eq!(shown_for("float('inf')"), "inf");
    assert_eq!(shown_for("-float('inf')"), "-inf");
}

#[test]
fn script_text_is_trimmed_before_it_is_evaluated() {
    assert_eq!(shown_for("   6   "), "6");
}

#[test]
fn script_of_white_space_shows_nothing() {
    assert_eq!(shown_for("   "), "");
}

#[test]
fn script_cross_reference() {
    let mut state = SheetState::new();
    state.sheet.insert(A1, script("5.2"));
    state.sheet.insert(B1, script("cell('A1')"));
    assert_eq!(state.get_value(&B1), "5.2");
}

#[test]
fn script_cross_reference_to_a_literal() {
    let mut state = SheetState::new();
    state.sheet.set_text(A1, "hello".to_string());
    state.sheet.insert(B1, script("cell('A1') + ' world'"));
    assert_eq!(state.get_value(&B1), "hello world");
}

#[test]
fn script_cross_reference_through_a_reference() {
    let mut state = SheetState::new();
    state.sheet.set_text(A1, "hello".to_string());
    state.sheet.set_text(B1, "=A1".to_string());
    state.sheet.insert(C1, script("cell('B1')"));
    assert_eq!(state.get_value(&C1), "hello");
}

#[test]
fn reference_to_a_script() {
    let mut state = SheetState::new();
    state.sheet.insert(A1, script("2 + 2"));
    state.sheet.set_text(B1, "=A1".to_string());
    assert_eq!(state.get_value(&B1), "4");
}

#[test]
fn script_cross_reference_to_unset_cell() {
    assert_eq!(shown_for("cell('Z9')"), "");
}

#[test]
fn script_cross_reference_to_row_zero() {
    assert_eq!(shown_for("cell('B0')"), "Error: invalid address");
}

#[test]
fn script_cross_reference_to_no_address() {
    assert_eq!(shown_for("cell('hello')"), "Error: invalid address");
    assert_eq!(shown_for("cell('=B1')"), "Error: invalid address");
    assert_eq!(shown_for("cell('')"), "Error: invalid address");
    assert_eq!(shown_for("cell()"), "Error: invalid address");
}

#[test]
fn script_cross_reference_with_a_wrong_argument() {
    assert_eq!(shown_for("cell(5)"), "Error: evaluation failed");
}

#[test]
fn script_self_reference_shows_circular_reference() {
    assert_eq!(shown_for("cell('A1')"), "Error: circular reference");
}

#[test]
fn script_in_a_cycle_shows_circular_reference() {
    let mut state = SheetState::new();
    state.sheet.set_text(A1, "=B1".to_string());
    state.sheet.insert(B1, script("cell('A1')"));
    assert_eq!(state.get_value(&A1), "Error: circular reference");
    assert_eq!(state.get_value(&B1), "Error: circular reference");
}

#[test]
fn script_syntax_error_shows_evaluation_failed() {
    assert_eq!(shown_for("(("), EvalError::EvaluationFailed.message());
    assert_eq!(shown_for("=6"), "Error: evaluation failed");
    assert_eq!(shown_for("x = 1"), "Error: evaluation failed");
}

#[test]
fn script_exception_shows_evaluation_failed() {
    assert_eq!(shown_for("1 / 0"), "Error: evaluation failed");
    assert_eq!(shown_for("no_such_name"), "Error: evaluation failed");
    assert_eq!(shown_for("int('x')"), "Error: evaluation failed");
}

#[test]
fn script_with_a_nul_character_shows_evaluation_failed() {
    assert_eq!(shown_for("'a\u{0}b'"), "Error: evaluation failed");
}

#[test]
fn nul_character_fails_in_every_place() {
    let mut state = SheetState::new();
    let sheet = Sheet::new();
    assert_eq!(engine_python::run(&sheet, "\u{0}", &vec![]), Err(EvalError::EvaluationFailed));
    assert_eq!(engine_python::run(&sheet, "6\u{0}", &vec![]), Err(EvalError::EvaluationFailed));
    assert_eq!(engine_python::calc_with(&sheet, "6 +\u{0} 1", &vec![]), "Error: evaluation failed");
    assert_eq!(engine_python::calc(&mut state, "'a\u{0}b'"), "Error: evaluation failed");
    assert_eq!(engine_python::calc(&mut state, "'a\\x00b'"), "a\u{0}b");
}

#[test]
fn script_of_another_type_shows_unsupported_result() {
    assert_eq!(shown_for("[1, 2]"), EvalError::UnsupportedResultType.message());
    assert_eq!(shown_for("None"), "Error: unsupported result type");
    assert_eq!(shown_for("(1, 2)"), "Error: unsupported result type");
    assert_eq!(shown_for("{'a': 1}"), "Error: unsupported result type");
    assert_eq!(shown_for("True"), "Error: unsupported result type");
    assert_eq!(shown_for("b'bytes'"), "Error: unsupported result type");
    assert_eq!(shown_for("1j"), "Error: unsupported result type");
    assert_eq!(shown_for("cell"), "Error: unsupported result type");
}

#[test]
fn script_result_of_several_lines_shows_the_first() {
    assert_eq!(shown_for("'first\\rsecond'"), "first");
    assert_eq!(shown_for("'first\\nsecond'"), "first\nsecond");
}

#[test]
fn script_backend_does_not_cut_lines() {
    let mut state = SheetState::new();
    assert_eq!(engine_python::calc(&mut state, "'first\\rsecond'"), "first\rsecond");
}

#[test]
fn script_backend_alone() {
    let mut state = SheetState::new();
    state.sheet.set_text(A1, "hello".to_string());
    assert_eq!(engine_python::calc(&mut state, "cell('A1')"), "hello");
    assert_eq!(engine_python::calc(&mut state, "len(cell('A1'))"), "5");
    assert_eq!(engine_python::calc(&mut state, "cell(sheet, 'A1')"), "hello");
}

#[test]
fn script_backend_knows_the_cells_being_resolved() {
    let mut sheet = Sheet::new();
    sheet.set_text(A1, "hello".to_string());
    assert_eq!(engine_python::calc_with(&sheet, "cell('A1')", &vec![]), "hello");
    assert_eq!(engine_python::calc_with(&sheet, "cell('A1')", &vec![B1]), "hello");
    assert_eq!(
        engine_python::calc_with(&sheet, "cell('A1')", &vec![A1]),
        "Error: circular reference"
    );
}

#[test]
fn run_tells_values_apart() {
    let sheet = Sheet::new();
    assert_eq!(engine_python::run(&sheet, "'x'", &vec![]), Ok(ScriptValue::Text("x".to_string())));
    assert_eq!(engine_python::run(&sheet, "12", &vec![]), Ok(ScriptValue::Integer("12".to_string())));
    assert_eq!(
        engine_python::run(&sheet, "1.5", &vec![]),
        Ok(ScriptValue::Float("1.5".to_string()))
    );
    assert_eq!(engine_python::run(&sheet, "[]", &vec![]), Ok(ScriptValue::Other));
    assert_eq!(engine_python::run(&sheet, "1 / 0", &vec![]), Err(EvalError::EvaluationFailed));
}

#[test]
fn cell_takes_the_last_argument_as_the_address() {
    let mut sheet = Sheet::new();
    sheet.set_text(A1, "hello".to_string());
    assert_eq!(engine_python::cell(&sheet, &vec![], vec!["A1".to_string()]), "hello");
    assert_eq!(
        engine_python::cell(&sheet, &vec![], vec!["sheet".to_string(), "A1".to_string()]),
        "hello"
    );
    assert_eq!(
        engine_python::cell(&sheet, &vec![], vec!["A1".to_string(), "B1".to_string()]),
        ""
    );
    assert_eq!(engine_python::cell(&sheet, &vec![], vec![]), "Error: invalid address");
    assert_eq!(
        engine_python::cell(&sheet, &vec![A1], vec!["A1".to_string()]),
        "Error: circular reference"
    );
}

#[test]
fn display_of_each_kind_of_value() {
    assert_eq!(display(ScriptValue::Text("some text".to_string())), "some text");
    assert_eq!(display(ScriptValue::Text("".to_string())), "");
    assert_eq!(display(ScriptValue::Float("5.2".to_string())), "5.2");
    assert_eq!(display(ScriptValue::Integer("-6".to_string())), "-6");
    assert_eq!(display(ScriptValue::Other), "Error: unsupported result type");
}

#[test]
fn display_of_each_outcome() {
    assert_eq!(display_outcome(Ok(ScriptValue::Text("t".to_string()))), "t");
    assert_eq!(display_outcome(Ok(ScriptValue::Other)), "Error: unsupported result type");
    assert_eq!(display_outcome(Err(EvalError::EvaluationFailed)), "Error: evaluation failed");
}
