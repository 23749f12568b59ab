//! Execution environments: backends that run guest scripting source and hand
//! back captured text. The decision of what a finished run reports is
//! verified here; only the embedded interpreter call itself is trusted.

use vstd::prelude::*;

use crate::repl::SessionContext;

verus! {

/// How one run of guest code ended: the textual description of an in-guest
/// error if one was raised, the textual form of the conventional result
/// variable if the guest bound it to an integer or string, and whatever the
/// guest wrote to its standard output.
pub struct GuestOutcome {
    pub raised: Option<String>,
    pub value: Option<String>,
    pub printed: String,
}

/// The text a guest run feeds back to the model: an error's description
/// first (recovered, not raised), else the result variable's textual form,
/// preferentially over captured output, else the captured output itself.
pub open spec fn outcome_text(o: GuestOutcome) -> Seq<char> {
    match o.raised {
        Some(e) => e@,
        None => match o.value {
            Some(v) => v@,
            None => o.printed@,
        },
    }
}

/// Executable mirror of [`outcome_text`]: normalise a finished guest run
/// into the one string shown to the model. An in-guest error is a successful
/// result by design: content for the next turn, not a dispatcher failure.
pub fn execution_outcome(o: GuestOutcome) -> (r: String)
    ensures
        r@ == outcome_text(o),
{
    match o.raised {
        Some(e) => e,
        None => match o.value {
            Some(v) => v,
            None => o.printed,
        },
    }
}

/// Failure of an execution backend whose host is unavailable. The
/// in-process backend recovers every in-guest failure in-band and never
/// returns one.
#[derive(Debug, PartialEq, Eq, Structural)]
pub enum ExecError {
    Unavailable,
}

/// A place where guest code runs: one capability, source text in, captured
/// text out. The backend is chosen at session construction and callers stay
/// polymorphic over this single operation, never special-casing a backend.
pub trait ExecutionEnvironment {
    fn execute_code(&self, code: String) -> Result<String, ExecError>;
}

/// The Python driver run around the guest source: it captures standard
/// output, binds the session context (entries arrive newest first, so the
/// dict is built over them reversed, and the newest binding of a name wins,
/// exactly as the session's own lookup does), recovers any raised error as
/// text, reads the conventional result variable, and leaves one report
/// triple.
const GUEST_HARNESS: &'static str = "import io\nimport sys\nguest_buf = io.StringIO()\nguest_old_stdout = sys.stdout\nsys.stdout = guest_buf\nguest_err = None\nguest_ns = {'context': dict(reversed(guest_ctx))}\ntry:\n    exec(guest_src, guest_ns)\nexcept BaseException as guest_e:\n    guest_err = type(guest_e).__name__ + ': ' + str(guest_e)\nfinally:\n    sys.stdout = guest_old_stdout\nguest_val = guest_ns.get('my_answer')\nif isinstance(guest_val, (int, str)):\n    guest_val = str(guest_val)\nelse:\n    guest_val = None\nguest_report = (guest_err, guest_val, guest_buf.getvalue())\n";

/// Relies on pyo3's `Python::with_gil`, `PyDict` `new`/`set_item`/`get_item`
/// and `Python::run`: runs [`GUEST_HARNESS`] over the guest source with the
/// session entries bound, and reads the report triple back as plain values.
/// Nothing is assumed of the outcome — guest code may do anything — so every
/// caller must hold for all values of the result.
#[verifier::external_body]
pub(crate) fn run_guest(code: &str, ctx: &SessionContext) -> (r: GuestOutcome) {
    pyo3::Python::with_gil(|py| {
        let locals = pyo3::types::PyDict::new(py);
        let report = locals
            .set_item("guest_src", code)
            .and_then(|_| locals.set_item("guest_ctx", &ctx.entries))
            .and_then(|_| py.run(GUEST_HARNESS, None, Some(locals)))
            .and_then(|_| locals.get_item("guest_report"))
            .and_then(|v| v.map_or(Ok((None, None, String::new())), |v| v.extract()));
        match report {
            Ok((raised, value, printed)) => GuestOutcome { raised, value, printed },
            Err(e) => GuestOutcome { raised: Some(e.to_string()), value: None, printed: String::new() },
        }
    })
}

/// Runs guest source in the embedding process's own Python interpreter,
/// with a fresh namespace per call and an empty session context.
pub struct Pyo3Executor;

impl ExecutionEnvironment for Pyo3Executor {
    /// The in-process backend never fails: every in-guest error — a raised
    /// exception, a syntax error — is recovered by the harness and returned
    /// as the success text, normalised by [`execution_outcome`] in the
    /// precedence its contract fixes (error text first, else the result
    /// variable's textual form, else the captured output).
    fn execute_code(&self, code: String) -> (r: Result<String, ExecError>)
        ensures
            r is Ok,
    {
        Ok(execution_outcome(run_guest(code.as_str(), &SessionContext::new())))
    }
}

} // verus!
