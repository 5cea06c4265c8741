//! Error model: typed validation failures carrying a location path,
//! aggregated into a single report per top-level call, plus a distinct
//! class of internal errors that abort without location context.

use vstd::prelude::*;

verus! {

/// Build-time failures: a malformed or unresolvable schema detail.
/// Fatal, reported once, never retried.
#[derive(Clone, Copy, PartialEq, Eq, Structural, Debug)]
pub enum BuildError {
    /// A reserved priority knob holds a non-integer value.
    InvalidPriority { key: u64 },
    /// A schema names a class the class table does not define.
    UnknownClass { class: usize },
    /// A schema references a definition slot that does not exist.
    UnknownSlot { slot: usize },
}

/// A condition tag for one validation failure.
#[derive(Clone, Copy, PartialEq, Eq, Structural, Debug)]
pub enum ErrorKind {
    /// Strict-mode rejection: the input is not an exact instance of the
    /// model class named here (name is an interned symbol).
    ModelClassType { class_name: u64 },
    /// A self-referential schema was re-entered while already being
    /// validated on the active stack.
    RecursionLoop,
    /// The input is not an integer and cannot be coerced to one.
    IntType,
    /// The input is a string that does not spell a (small enough) integer.
    IntParsing,
    /// The input is not a string.
    StrType,
    /// The input is neither a mapping nor an instance with readable fields.
    MappingType,
    /// A declared field was not supplied by the input.
    MissingField,
    /// A reassignment named a field the schema does not declare.
    NoSuchAttribute { field: u64 },
    /// The post-construction hook raised; reported against the input.
    PostInitFailure,
}

/// One located failure: a condition tag plus the path of field names
/// from the top-level input down to the offending value.
#[derive(Debug)]
pub struct LineError {
    pub kind: ErrorKind,
    pub location: Vec<u64>,
}

/// Specification-level image of a `LineError`.
pub struct LineErrM {
    pub kind: ErrorKind,
    pub location: Seq<u64>,
}

impl View for LineError {
    type V = LineErrM;

    open spec fn view(&self) -> LineErrM {
        LineErrM { kind: self.kind, location: self.location@ }
    }
}

/// A whole-call failure: either an aggregate of located line errors or
/// an internal fault that carries no location context.
#[derive(Debug)]
pub enum ValError {
    LineErrors(Vec<LineError>),
    InternalError,
}

/// Specification-level image of a `ValError`.
pub enum ErrM {
    LineErrors(Seq<LineErrM>),
    InternalError,
}

pub open spec fn line_errors_view(v: Seq<LineError>) -> Seq<LineErrM> {
    Seq::new(v.len(), |i: int| v[i]@)
}

impl View for ValError {
    type V = ErrM;

    open spec fn view(&self) -> ErrM {
        match self {
            ValError::LineErrors(v) => ErrM::LineErrors(line_errors_view(v@)),
            ValError::InternalError => ErrM::InternalError,
        }
    }
}

/// A single unlocated line error wrapped as a whole-call failure.
pub open spec fn spec_single_error(kind: ErrorKind) -> ErrM {
    ErrM::LineErrors(seq![LineErrM { kind: kind, location: Seq::empty() }])
}

pub fn single_error(kind: ErrorKind) -> (r: ValError)
    ensures
        r@ == spec_single_error(kind),
{
    let line = LineError { kind, location: Vec::new() };
    let mut v: Vec<LineError> = Vec::new();
    v.push(line);
    let r = ValError::LineErrors(v);
    proof {
        assert(line_errors_view(seq![line]) =~= seq![LineErrM {
            kind: kind,
            location: Seq::empty(),
        }]);
        assert(r@ =~~= spec_single_error(kind));
    }
    r
}

/// The same line errors, each with `field` prefixed to its location:
/// how a parent attributes a child's failures to one of its fields.
pub open spec fn spec_prefix_location(field: u64, errs: Seq<LineErrM>) -> Seq<LineErrM> {
    Seq::new(errs.len(), |i: int| LineErrM {
        kind: errs[i].kind,
        location: seq![field] + errs[i].location,
    })
}

#[verifier::loop_isolation(false)]
pub fn prefix_location(field: u64, errs: &Vec<LineError>) -> (r: Vec<LineError>)
    ensures
        line_errors_view(r@) =~= spec_prefix_location(field, line_errors_view(errs@)),
{
    let mut out: Vec<LineError> = Vec::new();
    let mut i: usize = 0;
    while i < errs.len()
        invariant
            i <= errs@.len(),
            out@.len() == i,
            forall|j: int| 0 <= j < i ==> out@[j]@ == (LineErrM {
                kind: errs@[j]@.kind,
                location: seq![field] + errs@[j]@.location,
            }),
        decreases errs@.len() - i,
    {
        let e = &errs[i];
        let mut loc: Vec<u64> = Vec::new();
        loc.push(field);
        let mut k: usize = 0;
        while k < e.location.len()
            invariant
                k <= e.location@.len(),
                loc@ =~= seq![field] + e.location@.take(k as int),
            decreases e.location@.len() - k,
        {
            loc.push(e.location[k]);
            proof {
                assert(loc@ =~= seq![field] + e.location@.take(k + 1));
            }
            k = k + 1;
        }
        proof {
            assert(e.location@.take(e.location@.len() as int) =~= e.location@);
        }
        out.push(LineError { kind: e.kind, location: loc });
        i = i + 1;
    }
    out
}

/// `a` then `b`: sibling line errors aggregated in input order.
pub fn concat_errors(a: Vec<LineError>, b: Vec<LineError>) -> (r: Vec<LineError>)
    ensures
        line_errors_view(r@) =~= line_errors_view(a@) + line_errors_view(b@),
{
    let mut out = a;
    let mut rest = b;
    out.append(&mut rest);
    out
}

} // verus!
