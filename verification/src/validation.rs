use vstd::prelude::*;

use crate::outcome::{Outcome, BAD_REQUEST};

verus! {

// ---------------------------------------------------------------------
// What a failed check reports.

/// The rule that a field broke, with the bounds it was checked against.
#[derive(Debug)]
pub enum Rule {
    Length { min: u64 },
    Range { min: u64, max: u64 },
    Email,
    Url,
}

impl Rule {
    /// The error code of the rule, as clients see it.
    pub open spec fn code_view(self) -> Seq<char> {
        match self {
            Rule::Length { .. } => "length"@,
            Rule::Range { .. } => "range"@,
            Rule::Email => "email"@,
            Rule::Url => "url"@,
        }
    }

    pub fn code(&self) -> (r: &'static str)
        ensures
            r@ == self.code_view(),
    {
        match self {
            Rule::Length { .. } => "length",
            Rule::Range { .. } => "range",
            Rule::Email => "email",
            Rule::Url => "url",
        }
    }

    pub fn duplicate(&self) -> (r: Rule)
        ensures
            r == *self,
    {
        match self {
            Rule::Length { min } => Rule::Length { min: *min },
            Rule::Range { min, max } => Rule::Range { min: *min, max: *max },
            Rule::Email => Rule::Email,
            Rule::Url => Rule::Url,
        }
    }
}

/// The offending value of a field.
#[derive(Debug)]
pub enum ParamValue {
    Text(String),
    Number(u64),
}

/// The model of a `ParamValue`.
pub enum ParamValueView {
    Text(Seq<char>),
    Number(u64),
}

impl View for ParamValue {
    type V = ParamValueView;

    open spec fn view(&self) -> ParamValueView {
        match self {
            ParamValue::Text(s) => ParamValueView::Text(s@),
            ParamValue::Number(n) => ParamValueView::Number(*n),
        }
    }
}

impl ParamValue {
    pub fn duplicate(&self) -> (r: ParamValue)
        ensures
            r@ == self@,
    {
        match self {
            ParamValue::Text(s) => ParamValue::Text(s.clone()),
            ParamValue::Number(n) => ParamValue::Number(*n),
        }
    }
}

/// One broken rule: which field, which rule, and the value it had.
#[derive(Debug)]
pub struct Violation {
    pub field: String,
    pub rule: Rule,
    pub value: ParamValue,
}

/// The model of a `Violation`.
pub struct ViolationView {
    pub field: Seq<char>,
    pub rule: Rule,
    pub value: ParamValueView,
}

impl View for Violation {
    type V = ViolationView;

    open spec fn view(&self) -> ViolationView {
        ViolationView { field: self.field@, rule: self.rule, value: self.value@ }
    }
}

impl Violation {
    pub fn duplicate(&self) -> (r: Violation)
        ensures
            r@ == self@,
    {
        Violation { field: self.field.clone(), rule: self.rule.duplicate(), value: self.value.duplicate() }
    }
}

/// Every rule that a value broke, field by field in declaration order.
#[derive(Debug)]
pub struct ValidationErrors(pub Vec<Violation>);

impl View for ValidationErrors {
    type V = Seq<ViolationView>;

    open spec fn view(&self) -> Seq<ViolationView> {
        self.0@.map_values(|v: Violation| v@)
    }
}

impl ValidationErrors {
    pub fn duplicate(&self) -> (r: ValidationErrors)
        ensures
            r@ == self@,
    {
        let mut out: Vec<Violation> = Vec::new();
        let n: usize = self.0.len();
        for i in 0..n
            invariant
                n == self.0@.len(),
                out@.len() == i,
                forall|j: int| 0 <= j < i ==> (#[trigger] out@[j])@ == self.0@[j]@,
        {
            out.push(self.0[i].duplicate());
        }
        let r = ValidationErrors(out);
        assert(r@ =~= self@);
        r
    }
}

/// The violation that a single field adds.
pub open spec fn violation(field: Seq<char>, rule: Rule, value: ParamValueView) -> Seq<
    ViolationView,
> {
    seq![ViolationView { field, rule, value }]
}

// ---------------------------------------------------------------------
// The checks.

/// A value whose fields carry validation rules.
pub trait Validate {
    /// The rules that the value breaks, in field order.
    spec fn violations(&self) -> Seq<ViolationView>;

    /// Checks every rule: `Ok` exactly when none is broken, else each broken
    /// rule once.
    fn validate(&self) -> (r: Result<(), ValidationErrors>)
        ensures
            r is Ok <==> self.violations().len() == 0,
            r matches Err(e) ==> e@ == self.violations(),
    ;
}

/// Calls `validator::validate_length(s, Some(min), None, None)`, which
/// counts the `char`s of `s` and compares the count with `min`.
#[verifier::external_body]
pub(crate) fn length_at_least(s: &String, min: u64) -> (r: bool)
    ensures
        r == (s@.len() >= min),
{
    validator::validate_length(s, Some(min), None, None)
}

/// What `validator::validate_email` answers for `s`.
pub uninterp spec fn is_email(s: Seq<char>) -> bool;

/// Calls `validator::validate_email`; the answer is named `is_email`.
#[verifier::external_body]
pub(crate) fn check_email(s: &String) -> (r: bool)
    ensures
        r == is_email(s@),
{
    validator::validate_email(s.as_str())
}

/// What `validator::validate_url` answers for `s`.
pub uninterp spec fn is_url(s: Seq<char>) -> bool;

/// Calls `validator::validate_url`; the answer is named `is_url`.
#[verifier::external_body]
pub(crate) fn check_url(s: &String) -> (r: bool)
    ensures
        r == is_url(s@),
{
    validator::validate_url(s.as_str())
}

/// Whether `value` lies in `min..=max` (the `range` rule).
pub fn in_range(value: u64, min: u64, max: u64) -> (r: bool)
    ensures
        r == (min <= value && value <= max),
{
    min <= value && value <= max
}

/// Gathers the violations collected for a value into the result of its
/// check.
pub fn finish_validation(found: Vec<Violation>) -> (r: Result<(), ValidationErrors>)
    ensures
        r is Ok <==> found@.len() == 0,
        r matches Err(e) ==> e@ == found@.map_values(|v: Violation| v@),
{
    if found.len() == 0 {
        Ok(())
    } else {
        Err(ValidationErrors(found))
    }
}

// ---------------------------------------------------------------------
// Validated values and the guards that produce them.

/// A JSON body.
pub struct Json<T>(pub T);

/// A value that passed its checks.
pub struct Validated<T>(pub T);

impl<T> Validated<Json<T>> {
    pub fn into_deep_inner(self) -> (r: T)
        ensures
            r == self.0.0,
    {
        self.0.0
    }
}

impl<T> Validated<T> {
    pub fn into_inner(self) -> (r: T)
        ensures
            r == self.0,
    {
        self.0
    }
}

/// The violations kept for the `400` catcher of a request.
#[derive(Debug)]
pub struct CachedValidationErrors(pub Option<ValidationErrors>);

/// What the validated guard concludes for what the inner guard gave.
pub open spec fn validated_outcome_ok<T: Validate, E, F>(
    inner: Outcome<T, E, F>,
    out: Outcome<Validated<T>, Result<ValidationErrors, E>, F>,
) -> bool {
    match inner {
        Outcome::Failure(status, e) => out == Outcome::<
            Validated<T>,
            Result<ValidationErrors, E>,
            F,
        >::Failure(status, Err(e)),
        Outcome::Forward(f) => out == Outcome::<Validated<T>, Result<ValidationErrors, E>, F>::Forward(
            f,
        ),
        Outcome::Success(d) => if d.violations().len() == 0 {
            out == Outcome::<Validated<T>, Result<ValidationErrors, E>, F>::Success(Validated(d))
        } else {
            out matches Outcome::Failure(status, Ok(errs)) && status == BAD_REQUEST && errs@
                == d.violations()
        },
    }
}

/// The violations that the validated guard keeps for the catcher.
pub open spec fn validated_cache<T: Validate, E, F>(inner: Outcome<T, E, F>) -> Option<
    Seq<ViolationView>,
> {
    match inner {
        Outcome::Success(d) => if d.violations().len() == 0 {
            None
        } else {
            Some(d.violations())
        },
        _ => None,
    }
}

/// The validated guard (for a body or for a request guard): the inner
/// guard's failure and forward pass through; a value it produced is
/// checked, and when it breaks a rule the request fails with `400`, the
/// violations are reported, and a copy is kept for the catcher.
pub fn validated_guard<T: Validate, E, F>(inner: Outcome<T, E, F>) -> (r: (
    Outcome<Validated<T>, Result<ValidationErrors, E>, F>,
    Option<CachedValidationErrors>,
))
    ensures
        validated_outcome_ok(inner, r.0),
        validated_cache(inner) is None ==> r.1 is None,
        validated_cache(inner) matches Some(vs) ==> r.1 matches Some(c) && c.0 matches Some(e)
            && e@ == vs,
{
    match inner {
        Outcome::Failure(status, e) => (Outcome::Failure(status, Err(e)), None),
        Outcome::Forward(f) => (Outcome::Forward(f), None),
        Outcome::Success(data) => match data.validate() {
            Ok(()) => (Outcome::Success(Validated(data)), None),
            Err(errs) => {
                let kept = errs.duplicate();
                (Outcome::Failure(BAD_REQUEST, Ok(errs)), Some(CachedValidationErrors(Some(kept))))
            },
        },
    }
}

/// Why a validated form was refused: the inner form's own errors, or the
/// names of the fields that broke a rule.
pub enum FormFailure<E> {
    Inner(E),
    Fields(Vec<String>),
}

/// The names of the fields in `vs`.
pub open spec fn field_names(vs: Seq<ViolationView>) -> Set<Seq<char>> {
    Set::new(|f: Seq<char>| exists|i: int| 0 <= i < vs.len() && #[trigger] vs[i].field == f)
}

/// The views of a list of names.
pub open spec fn names_view(names: Seq<String>) -> Seq<Seq<char>> {
    names.map_values(|s: String| s@)
}

fn contains_name(names: &Vec<String>, name: &String) -> (r: bool)
    ensures
        r == names_view(names@).contains(name@),
{
    let n: usize = names.len();
    for i in 0..n
        invariant
            n == names@.len(),
            forall|j: int| 0 <= j < i ==> names@[j]@ != name@,
    {
        if names[i] == *name {
            assert(names_view(names@)[i as int] == name@);
            return true;
        }
    }
    assert forall|k: int| 0 <= k < names_view(names@).len() implies names_view(names@)[k]
        != name@ by {
        assert(names_view(names@)[k] == names@[k]@);
    }
    false
}

/// The names of the fields that `errs` speaks of, each once.
pub fn violated_fields(errs: &ValidationErrors) -> (r: Vec<String>)
    ensures
        names_view(r@).no_duplicates(),
        names_view(r@).to_set() == field_names(errs@),
{
    let mut names: Vec<String> = Vec::new();
    let n: usize = errs.0.len();
    let ghost vs = errs@;
    for i in 0..n
        invariant
            n == errs.0@.len(),
            vs == errs@,
            names_view(names@).no_duplicates(),
            names_view(names@).to_set() == field_names(vs.take(i as int)),
    {
        let field = &errs.0[i].field;
        assert(vs[i as int].field == field@);
        let ghost before = names_view(names@);
        if !contains_name(&names, field) {
            names.push(field.clone());
            assert(names_view(names@) =~= before.push(field@));
        }
        assert(names_view(names@).to_set() =~= field_names(vs.take(i + 1))) by {
            assert forall|f: Seq<char>| field_names(vs.take(i + 1)).contains(f) implies names_view(
                names@,
            ).to_set().contains(f) by {
                let k: int = choose|k: int| 0 <= k < vs.take(i + 1).len() && #[trigger] vs.take(
                    i + 1,
                )[k].field == f;
                if k < i {
                    assert(vs.take(i as int)[k].field == f);
                    assert(field_names(vs.take(i as int)).contains(f));
                    assert(before.to_set().contains(f));
                    assert(before.contains(f));
                    let m: int = choose|m: int| 0 <= m < before.len() && before[m] == f;
                    assert(names_view(names@)[m] == f);
                } else {
                    assert(f == field@);
                    if before.contains(field@) {
                        let m: int = choose|m: int| 0 <= m < before.len() && before[m] == f;
                        assert(names_view(names@)[m] == f);
                    } else {
                        assert(names_view(names@)[before.len() as int] == f);
                    }
                }
            }
            assert forall|f: Seq<char>| names_view(names@).to_set().contains(f) implies field_names(
                vs.take(i + 1),
            ).contains(f) by {
                assert(names_view(names@).contains(f));
                let m: int = choose|m: int| 0 <= m < names_view(names@).len() && names_view(names@)[m]
                    == f;
                if m < before.len() {
                    assert(before.contains(f));
                    assert(before.to_set().contains(f));
                    assert(field_names(vs.take(i as int)).contains(f));
                    let k: int = choose|k: int| 0 <= k < vs.take(i as int).len() && #[trigger] vs.take(
                        i as int,
                    )[k].field == f;
                    assert(vs.take(i + 1)[k].field == f);
                } else {
                    assert(vs.take(i + 1)[i as int].field == f);
                }
            }
        }
    }
    assert(vs.take(n as int) =~= vs);
    names
}

/// The validated form guard: the inner form's errors pass through; a value
/// it produced is checked, and when it breaks a rule the form is refused
/// with the names of the offending fields, each once.
pub fn validated_form<T: Validate, E>(inner: Result<T, E>) -> (r: Result<Validated<T>, FormFailure<E>>)
    ensures
        (match inner {
            Err(e) => r == Err::<Validated<T>, FormFailure<E>>(FormFailure::Inner(e)),
            Ok(d) => if d.violations().len() == 0 {
                r == Ok::<Validated<T>, FormFailure<E>>(Validated(d))
            } else {
                r matches Err(FormFailure::Fields(names)) && names_view(names@).no_duplicates()
                    && names_view(names@).to_set() == field_names(d.violations())
            },
        }),
{
    match inner {
        Err(e) => Err(FormFailure::Inner(e)),
        Ok(data) => match data.validate() {
            Ok(()) => Ok(Validated(data)),
            Err(errs) => Err(FormFailure::Fields(violated_fields(&errs))),
        },
    }
}

// ---------------------------------------------------------------------
// The catcher.

/// The body of the `400` answer.
pub struct Error {
    code: u128,
    message: String,
    errors: Option<ValidationErrors>,
}

impl Error {
    pub closed spec fn code_view(&self) -> u128 {
        self.code
    }

    pub closed spec fn message_view(&self) -> Seq<char> {
        self.message@
    }

    pub closed spec fn errors_view(&self) -> Option<Seq<ViolationView>> {
        match self.errors {
            Some(e) => Some(e@),
            None => None,
        }
    }

    pub fn code(&self) -> (r: u128)
        ensures
            r == self.code_view(),
    {
        self.code
    }

    pub fn message(&self) -> (r: &str)
        ensures
            r@ == self.message_view(),
    {
        self.message.as_str()
    }

    pub fn errors(&self) -> (r: Option<&ValidationErrors>)
        ensures
            self.errors_view() is None <==> r is None,
            r matches Some(e) ==> self.errors_view() == Some(e@),
    {
        match &self.errors {
            Some(e) => Some(e),
            None => None,
        }
    }
}

/// The violations that a request kept, where it kept any.
pub open spec fn cached_view(cached: Option<&CachedValidationErrors>) -> Option<Seq<ViolationView>> {
    match cached {
        Some(c) => match c.0 {
            Some(e) => Some(e@),
            None => None,
        },
        None => None,
    }
}

/// The text of the `400` answer.
pub open spec fn bad_request_text() -> Seq<char> {
    "Bad Request. The request could not be understood by the server due to malformed syntax."@
}

/// Answer to a request refused with `400`: the violations it kept, if any.
pub fn validation_catcher(cached: Option<&CachedValidationErrors>) -> (r: Error)
    ensures
        r.code_view() == 400,
        r.message_view() == bad_request_text(),
        r.errors_view() == cached_view(cached),
{
    let errors = match cached {
        Some(c) => match &c.0 {
            Some(e) => Some(e.duplicate()),
            None => None,
        },
        None => None,
    };
    Error {
        code: 400,
        message: String::from_str(
            "Bad Request. The request could not be understood by the server due to malformed syntax.",
        ),
        errors,
    }
}

/// When the validated guard refuses `data`, the catcher answers with
/// exactly the rules that `data` broke: given the copy that the guard keeps
/// (what `validated_guard` ensures of its second result), the catcher's
/// errors are `data.violations()`.
pub proof fn lemma_catcher_reports_guard_violations<T: Validate, E, F>(
    data: T,
    kept: CachedValidationErrors,
)
    requires
        data.violations().len() != 0,
        validated_cache(Outcome::<T, E, F>::Success(data)) matches Some(vs) && kept.0 matches Some(
            e,
        ) && e@ == vs,
    ensures
        cached_view(Some(&kept)) == Some(data.violations()),
{
}

} // verus!
