//! The script backend: the cell's text is an expression for the embedded
//! Python interpreter.
//!
//! The expression sees one function, `cell`, which takes the address of a
//! cell as text and returns what that cell shows. It reads the address from
//! its last argument, and the name `sheet` is bound too, so that
//! `cell(sheet, 'A1')` evaluates as `cell('A1')` does.
//!
//! The interpreter is the process's own and is started by the first
//! evaluation. One evaluation runs at a time. An expression that does not
//! terminate holds its caller for ever: nothing here interrupts it.

use crate::error::EvalError;
use crate::reference::{parse, Reference};
use crate::sheet::{CellIdx, Sheet};
use crate::sheet_state::{resolve, SheetState};
use pyo3::types::{PyCFunction, PyDict, PyFloat, PyLong, PyString, PyTuple};
use pyo3::{Py, PyAny, PyErr, PyResult, Python};
use vstd::prelude::*;

verus! {

/// `Py<T>` of pyo3: an owned reference to a Python object. Nothing is known
/// of what it refers to.
#[verifier::external_type_specification]
#[verifier::external_body]
#[verifier::reject_recursive_types(T)]
pub struct ExPy<T>(Py<T>);

/// `PyAny` of pyo3: a Python object of any type.
#[verifier::external_type_specification]
#[verifier::external_body]
pub struct ExPyAny(PyAny);

/// `PyErr` of pyo3: an exception that Python raised.
#[verifier::external_type_specification]
#[verifier::external_body]
pub struct ExPyErr(PyErr);

/// What an expression evaluated to, as far as a cell can show it.
#[derive(Clone, PartialEq, Eq, Debug)]
pub enum ScriptValue {
    /// A Python `str`, with its characters.
    Text(String),
    /// A Python `int`, as Python's `str()` writes it.
    Integer(String),
    /// A Python `float`, as Python's `str()` writes it.
    Float(String),
    /// A value of any other type.
    Other,
}

/// What a cell shows for a value that an expression evaluated to: text as it
/// is, a number as it is written, and for anything else the message for an
/// unsupported result.
pub open spec fn display_text(value: ScriptValue) -> Seq<char> {
    match value {
        ScriptValue::Text(text) => text@,
        ScriptValue::Integer(written) => written@,
        ScriptValue::Float(written) => written@,
        ScriptValue::Other => EvalError::UnsupportedResultType.text(),
    }
}

/// What a cell shows for `value`.
pub fn display(value: ScriptValue) -> (shown: String)
    ensures
        shown@ == display_text(value),
{
    match value {
        ScriptValue::Text(text) => text,
        ScriptValue::Integer(written) => written,
        ScriptValue::Float(written) => written,
        ScriptValue::Other => EvalError::UnsupportedResultType.message(),
    }
}

/// What the function `cell` returns to an expression that called it with the
/// arguments `args`, on `sheet` while the cells `visiting` are being
/// resolved: what the cell shows whose address is the last argument. Without
/// an argument, or with one that is no valid address, that is the message
/// for an invalid address.
pub fn cell(sheet: &Sheet, visiting: &Vec<CellIdx>, args: Vec<String>) -> (shown: String)
    ensures
        args@.len() == 0 ==> shown@ == EvalError::InvalidAddress.text(),
        args@.len() > 0 ==> match crate::reference::parse_reference(args@.last()@) {
            Reference::Target(target) => crate::sheet_state::shown(
                sheet@,
                target,
                visiting@.to_set(),
            ) matches Some(v) ==> shown@ == v,
            _ => shown@ == EvalError::InvalidAddress.text(),
        },
{
    let n = args.len();
    if n == 0 {
        return EvalError::InvalidAddress.message();
    }
    match parse(args[n - 1].as_str()) {
        Reference::Target(target) => resolve(sheet, &target, visiting),
        _ => EvalError::InvalidAddress.message(),
    }
}

/// Evaluates `text` as a Python expression with `Python::eval` of pyo3,
/// under `Python::with_gil`. The expression's local names are a `PyDict` that
/// binds `cell` to a function made by `PyCFunction::new_closure`, which hands
/// its arguments to `cell` of this module together with copies of `sheet` and
/// `visiting`, and `sheet` to a text. Hands back the object that the
/// expression evaluated to, or the error that Python raised.
///
/// One thing is claimed of the outcome: a text that holds a NUL character is
/// an error. `Python::eval` makes a `CString` of the text before Python sees
/// it, and returns the error of `CString::new`, which refuses such a text.
/// What any other text evaluates to depends on the interpreter's state, and
/// nothing is claimed of it. The call returns only if the expression's
/// evaluation ends.
#[verifier::external_body]
fn evaluate(sheet: &Sheet, text: &str, visiting: &Vec<CellIdx>) -> (outcome: Result<
    Py<PyAny>,
    PyErr,
>)
    ensures
        text@.contains('\0') ==> outcome is Err,
{
    let (sheet, visiting) = (sheet.clone(), visiting.clone());
    let lookup = move |args: &PyTuple, _named: Option<&PyDict>| -> PyResult<String> {
        Ok(cell(&sheet, &visiting, args.extract()?))
    };
    Python::with_gil(
        |py| {
            let locals = PyDict::new(py);
            locals.set_item("cell", PyCFunction::new_closure(py, None, None, lookup)?)?;
            locals.set_item("sheet", "sheet")?;
            Ok(py.eval(text, None, Some(locals))?.into())
        },
    )
}

/// Tells the type of a Python object apart with `PyAny::is_exact_instance_of`
/// of pyo3, one variant for each type, and takes its text out: for a `str`
/// its characters, by `PyAny::extract`, and for an `int` or a `float` what
/// `PyAny::str` gives. Fails where Python fails to give that text.
///
/// Nothing is claimed of the result: the object is opaque here.
#[verifier::external_body]
fn classify(object: &Py<PyAny>) -> (value: Result<ScriptValue, PyErr>) {
    Python::with_gil(
        |py| {
            let object = object.as_ref(py);
            if object.is_exact_instance_of::<PyString>() {
                Ok(ScriptValue::Text(object.extract()?))
            } else if object.is_exact_instance_of::<PyLong>() {
                Ok(ScriptValue::Integer(object.str()?.extract()?))
            } else if object.is_exact_instance_of::<PyFloat>() {
                Ok(ScriptValue::Float(object.str()?.extract()?))
            } else {
                Ok(ScriptValue::Other)
            }
        },
    )
}

/// What a cell shows for the outcome of an evaluation: the message for a
/// failed evaluation where Python raised an error, and else what it shows
/// for the value.
pub open spec fn outcome_text(outcome: Result<ScriptValue, EvalError>) -> Seq<char> {
    match outcome {
        Ok(value) => display_text(value),
        Err(error) => error.text(),
    }
}

/// What a cell shows for the outcome of an evaluation.
pub fn display_outcome(outcome: Result<ScriptValue, EvalError>) -> (shown: String)
    ensures
        shown@ == outcome_text(outcome),
{
    match outcome {
        Ok(value) => display(value),
        Err(error) => error.message(),
    }
}

/// Evaluates the expression `text` on `sheet` while the cells `visiting` are
/// being resolved. An error that Python raises becomes a failed evaluation,
/// and so does a text that holds a NUL character, which never reaches
/// Python.
pub fn run(sheet: &Sheet, text: &str, visiting: &Vec<CellIdx>) -> (outcome: Result<
    ScriptValue,
    EvalError,
>)
    ensures
        outcome matches Err(error) ==> error == EvalError::EvaluationFailed,
        text@.contains('\0') ==> outcome == Err::<ScriptValue, EvalError>(
            EvalError::EvaluationFailed,
        ),
{
    match evaluate(sheet, text, visiting) {
        Ok(object) => match classify(&object) {
            Ok(value) => Ok(value),
            Err(_) => Err(EvalError::EvaluationFailed),
        },
        Err(_) => Err(EvalError::EvaluationFailed),
    }
}

/// What the expression `text` shows on `sheet` while the cells `visiting`
/// are being resolved. A text that holds a NUL character shows the message
/// for a failed evaluation; for any other text the interpreter decides.
pub fn calc_with(sheet: &Sheet, text: &str, visiting: &Vec<CellIdx>) -> (shown: String)
    ensures
        text@.contains('\0') ==> shown@ == EvalError::EvaluationFailed.text(),
{
    display_outcome(run(sheet, text, visiting))
}

/// What the expression `text` shows on the sheet of `sheet_state`. The state
/// is left as it was. A text that holds a NUL character shows the message for
/// a failed evaluation; for any other text the interpreter decides.
pub fn calc(sheet_state: &mut SheetState, text: &str) -> (shown: String)
    ensures
        *final(sheet_state) == *old(sheet_state),
        text@.contains('\0') ==> shown@ == EvalError::EvaluationFailed.text(),
{
    let visiting: Vec<CellIdx> = Vec::new();
    calc_with(&sheet_state.sheet, text, &visiting)
}

} // verus!
