//! Pattern exhaustiveness: which match arms are unreachable and which cases are
//! left uncovered.

use vstd::prelude::*;
use crate::stdlib::string::{join, join_seq, string_views};
use crate::stdlib::text::{decimal, owned, push_decimal, push_str, same_text};
use crate::typeck::error::{Span, TypeError, source_of};
use crate::typeck::types::{display, write_type, Ty, Type};

verus! {

broadcast use vstd::string::group_string_axioms;

/// What the exhaustiveness analysis reads of a match arm's pattern.
#[derive(Debug)]
pub enum PatternShape {
    /// `_`
    Wildcard,
    /// A plain variable binding
    Binding,
    /// A literal, by its written form: numbers as printed, strings in double quotes,
    /// `true`/`false`, `None`
    Literal(String),
    /// A tuple pattern with its sub-patterns
    Tuple(Vec<PatternShape>),
    /// An or-pattern with its alternatives
    Or(Vec<PatternShape>),
    /// Any other pattern
    Other,
}

/// The state of the analysis after some arms.
pub struct ScanState {
    pub wildcard: bool,
    pub binding: bool,
    pub covered: Seq<Seq<char>>,
    pub unreachable: Seq<int>,
}

/// The analysis of the arms in order: after a wildcard or a binding every further arm
/// is unreachable; a repeated literal is unreachable; a tuple of wildcards, or an
/// or-pattern with a wildcard alternative, counts as a wildcard.
pub open spec fn scan(arms: Seq<PatternShape>) -> ScanState
    decreases arms.len(),
{
    if arms.len() == 0 {
        ScanState { wildcard: false, binding: false, covered: Seq::empty(), unreachable: Seq::empty() }
    } else {
        let prev = scan(arms.drop_last());
        let i = arms.len() - 1;
        if prev.wildcard || prev.binding {
            ScanState { unreachable: prev.unreachable.push(i), ..prev }
        } else {
            match arms.last() {
                PatternShape::Wildcard => ScanState { wildcard: true, ..prev },
                PatternShape::Binding => ScanState { binding: true, ..prev },
                PatternShape::Literal(s) => if prev.covered.contains(s@) {
                    ScanState { unreachable: prev.unreachable.push(i), ..prev }
                } else {
                    ScanState { covered: prev.covered.push(s@), ..prev }
                },
                PatternShape::Tuple(ps) => if forall|k: int| 0 <= k < ps.len() ==> (#[trigger] ps@[k]) is Wildcard {
                    ScanState { wildcard: true, ..prev }
                } else {
                    prev
                },
                PatternShape::Or(ps) => if exists|k: int| 0 <= k < ps.len() && (#[trigger] ps@[k]) is Wildcard {
                    ScanState { wildcard: true, ..prev }
                } else {
                    prev
                },
                PatternShape::Other => prev,
            }
        }
    }
}

/// Whether the covered literals cover every value of the type: both booleans, `None`
/// for the none type, `None` and some other literal for an optional.
pub open spec fn fully_covered(t: Ty, covered: Seq<Seq<char>>) -> bool {
    match t {
        Ty::Bool => covered.contains("true"@) && covered.contains("false"@),
        Ty::NoneType => covered.contains("None"@),
        Ty::Optional(_) => covered.contains("None"@) && covered.len() >= 2,
        _ => false,
    }
}

/// The patterns reported missing: the uncovered booleans (or `_` when both are
/// covered), `None` and `Some(T)` for an optional, `_` otherwise.
pub open spec fn missing_patterns(t: Ty, covered: Seq<Seq<char>>) -> Seq<Seq<char>> {
    match t {
        Ty::Bool => {
            let a: Seq<Seq<char>> = if !covered.contains("true"@) { seq!["true"@] } else { Seq::empty() };
            let b: Seq<Seq<char>> = if !covered.contains("false"@) { a.push("false"@) } else { a };
            if b.len() == 0 {
                seq!["_"@]
            } else {
                b
            }
        },
        Ty::Optional(inner) => {
            let a: Seq<Seq<char>> = if !covered.contains("None"@) { seq!["None"@] } else { Seq::empty() };
            if covered.len() <= 1 {
                a.push("Some("@ + display(*inner) + ")"@)
            } else {
                a
            }
        },
        _ => seq!["_"@],
    }
}

/// Result of exhaustiveness analysis.
#[derive(Debug)]
pub struct ExhaustivenessResult {
    /// Whether the match is exhaustive
    pub is_exhaustive: bool,
    /// Missing patterns (if not exhaustive)
    pub missing_patterns: Vec<String>,
    /// Unreachable arms (if any)
    pub unreachable_arms: Vec<usize>,
}

/// Whether `text` is among the `covered` strings.
fn covers(covered: &Vec<String>, text: &str) -> (r: bool)
    ensures
        r == string_views(covered@).contains(text@),
{
    let mut i: usize = 0;
    while i < covered.len()
        invariant
            i <= covered.len(),
            forall|k: int| 0 <= k < i ==> covered@[k]@ != text@,
        decreases covered.len() - i,
    {
        if same_text(covered[i].as_str(), text) {
            assert(string_views(covered@)[i as int] == text@);
            return true;
        }
        i += 1;
    }
    proof {
        if string_views(covered@).contains(text@) {
            let k = choose|k: int| 0 <= k < string_views(covered@).len() && string_views(covered@)[k] == text@;
            assert(covered@[k]@ == text@);
        }
    }
    false
}


/// Whether every sub-pattern is a wildcard.
fn all_wildcards(ps: &Vec<PatternShape>) -> (r: bool)
    ensures
        r == forall|k: int| 0 <= k < ps.len() ==> (#[trigger] ps@[k]) is Wildcard,
{
    let mut i: usize = 0;
    while i < ps.len()
        invariant
            i <= ps.len(),
            forall|k: int| 0 <= k < i ==> (#[trigger] ps@[k]) is Wildcard,
        decreases ps.len() - i,
    {
        match &ps[i] {
            PatternShape::Wildcard => {},
            _ => {
                return false;
            },
        }
        i += 1;
    }
    true
}

/// Whether some sub-pattern is a wildcard.
fn any_wildcard(ps: &Vec<PatternShape>) -> (r: bool)
    ensures
        r == exists|k: int| 0 <= k < ps.len() && (#[trigger] ps@[k]) is Wildcard,
{
    let mut i: usize = 0;
    while i < ps.len()
        invariant
            i <= ps.len(),
            forall|k: int| 0 <= k < i ==> !((#[trigger] ps@[k]) is Wildcard),
        decreases ps.len() - i,
    {
        match &ps[i] {
            PatternShape::Wildcard => {
                return true;
            },
            _ => {},
        }
        i += 1;
    }
    false
}

/// Whether the covered literals cover every value of the type.
fn is_fully_covered(ty: &Type, covered: &Vec<String>) -> (r: bool)
    ensures
        r == fully_covered(ty.view_ty(), string_views(covered@)),
{
    match ty {
        Type::Bool => covers(covered, "true") && covers(covered, "false"),
        Type::NoneType => covers(covered, "None"),
        Type::Optional(_) => covers(covered, "None") && covered.len() >= 2,
        _ => false,
    }
}

/// The missing patterns to report.
fn compute_missing_patterns(ty: &Type, covered: &Vec<String>) -> (r: Vec<String>)
    ensures
        string_views(r@) == missing_patterns(ty.view_ty(), string_views(covered@)),
{
    let mut missing: Vec<String> = Vec::new();
    match ty {
        Type::Bool => {
            if !covers(covered, "true") {
                missing.push(owned("true"));
            }
            if !covers(covered, "false") {
                missing.push(owned("false"));
            }
            if missing.len() == 0 {
                missing.push(owned("_"));
            }
        },
        Type::Optional(inner) => {
            if !covers(covered, "None") {
                missing.push(owned("None"));
            }
            if covered.len() <= 1 {
                let mut some = owned("Some(");
                write_type(&mut some, inner);
                push_str(&mut some, ")");
                missing.push(some);
            }
        },
        _ => {
            missing.push(owned("_"));
        },
    }
    assert(string_views(missing@) =~= missing_patterns(ty.view_ty(), string_views(covered@)));
    missing
}

/// Check whether a match's arms are exhaustive for the subject type, and which arms
/// can never be reached.
pub fn check_exhaustiveness(subject_ty: &Type, arms: &[PatternShape]) -> (r: ExhaustivenessResult)
    ensures
        ({
            let st = scan(arms@);
            &&& r.is_exhaustive == (st.wildcard || st.binding || fully_covered(
                subject_ty.view_ty(),
                st.covered,
            ))
            &&& string_views(r.missing_patterns@) == if r.is_exhaustive {
                Seq::empty()
            } else {
                missing_patterns(subject_ty.view_ty(), st.covered)
            }
            &&& r.unreachable_arms@.map_values(|i: usize| i as int) == st.unreachable
        }),
{
    let mut has_wildcard = false;
    let mut has_var_bind = false;
    let mut covered: Vec<String> = Vec::new();
    let mut unreachable: Vec<usize> = Vec::new();
    let mut i: usize = 0;
    assert(arms@.take(0) =~= Seq::<PatternShape>::empty());
    assert(string_views(covered@) =~= Seq::<Seq<char>>::empty());
    assert(unreachable@.map_values(|i: usize| i as int) =~= Seq::<int>::empty());
    while i < arms.len()
        invariant
            i <= arms.len(),
            ({
                let st = scan(arms@.take(i as int));
                &&& has_wildcard == st.wildcard
                &&& has_var_bind == st.binding
                &&& string_views(covered@) == st.covered
                &&& unreachable@.map_values(|i: usize| i as int) == st.unreachable
            }),
        decreases arms.len() - i,
    {
        let ghost prev = scan(arms@.take(i as int));
        assert(arms@.take(i + 1).drop_last() =~= arms@.take(i as int));
        assert(arms@.take(i + 1).last() == arms@[i as int]);
        let ghost uv = unreachable@;
        let ghost cv = covered@;
        if has_wildcard || has_var_bind {
            unreachable.push(i);
            assert(unreachable@.map_values(|i: usize| i as int) =~= uv.map_values(|i: usize| i as int).push(i as int));
        } else {
            match &arms[i] {
                PatternShape::Wildcard => {
                    has_wildcard = true;
                },
                PatternShape::Binding => {
                    has_var_bind = true;
                },
                PatternShape::Literal(lit) => {
                    if covers(&covered, lit.as_str()) {
                        unreachable.push(i);
                        assert(unreachable@.map_values(|i: usize| i as int) =~= uv.map_values(
                            |i: usize| i as int,
                        ).push(i as int));
                    } else {
                        covered.push(lit.clone());
                        assert(string_views(covered@) =~= string_views(cv).push(lit@));
                    }
                },
                PatternShape::Tuple(pats) => {
                    if all_wildcards(pats) {
                        has_wildcard = true;
                    }
                },
                PatternShape::Or(pats) => {
                    if any_wildcard(pats) {
                        has_wildcard = true;
                    }
                },
                PatternShape::Other => {},
            }
        }
        i += 1;
    }
    assert(arms@.take(arms.len() as int) =~= arms@);
    let is_exhaustive = has_wildcard || has_var_bind || is_fully_covered(subject_ty, &covered);
    let missing = if is_exhaustive {
        let v: Vec<String> = Vec::new();
        assert(string_views(v@) =~= Seq::<Seq<char>>::empty());
        v
    } else {
        compute_missing_patterns(subject_ty, &covered)
    };
    ExhaustivenessResult { is_exhaustive, missing_patterns: missing, unreachable_arms: unreachable }
}

/// Generate a warning for non-exhaustive match patterns:
/// `Non-exhaustive match: missing patterns: <p1, p2, ...>`.
pub fn non_exhaustive_warning(missing: &[String], span: Span) -> (r: TypeError)
    ensures
        r matches TypeError::Custom { message: m, span: s } && m@ == "Non-exhaustive match: missing patterns: "@
            + join_seq(string_views(missing@), ", "@) && s == source_of(span),
{
    let mut msg = owned("Non-exhaustive match: missing patterns: ");
    let list = join(missing, ", ");
    push_str(&mut msg, list.as_str());
    TypeError::custom(msg, span)
}

/// Generate a warning for an unreachable match arm, numbered from 1:
/// `Unreachable match arm #<n>: previous patterns already cover this case`.
pub fn unreachable_arm_warning(arm_index: usize, span: Span) -> (r: TypeError)
    requires
        arm_index < usize::MAX,
    ensures
        r matches TypeError::Custom { message: m, span: s } && m@ == "Unreachable match arm #"@
            + decimal(arm_index as nat + 1) + ": previous patterns already cover this case"@ && s
            == source_of(span),
{
    let mut msg = owned("Unreachable match arm #");
    push_decimal(&mut msg, (arm_index + 1) as u64);
    push_str(&mut msg, ": previous patterns already cover this case");
    TypeError::custom(msg, span)
}


/// After arms that hold no catch-all, a tuple pattern is a catch-all exactly when
/// each of its sub-patterns is a wildcard; one with any other sub-pattern leaves the
/// analysis as it was, so it neither completes the match nor makes a later arm
/// unreachable.
pub proof fn lemma_tuple_catch_all(arms: Seq<PatternShape>, ps: Vec<PatternShape>)
    requires
        !scan(arms).wildcard,
        !scan(arms).binding,
    ensures
        scan(arms.push(PatternShape::Tuple(ps))).wildcard <==> forall|k: int|
            0 <= k < ps.len() ==> (#[trigger] ps@[k]) is Wildcard,
        (exists|k: int| 0 <= k < ps.len() && !((#[trigger] ps@[k]) is Wildcard)) ==> scan(
            arms.push(PatternShape::Tuple(ps)),
        ) == scan(arms),
{
    assert(arms.push(PatternShape::Tuple(ps)).drop_last() =~= arms);
}


/// After arms that hold no catch-all, an or-pattern is a catch-all exactly when one
/// of its alternatives is a wildcard; otherwise it leaves the analysis as it was.
pub proof fn lemma_or_catch_all(arms: Seq<PatternShape>, ps: Vec<PatternShape>)
    requires
        !scan(arms).wildcard,
        !scan(arms).binding,
    ensures
        scan(arms.push(PatternShape::Or(ps))).wildcard <==> exists|k: int|
            0 <= k < ps.len() && (#[trigger] ps@[k]) is Wildcard,
        (forall|k: int| 0 <= k < ps.len() ==> !((#[trigger] ps@[k]) is Wildcard)) ==> scan(
            arms.push(PatternShape::Or(ps)),
        ) == scan(arms),
{
    assert(arms.push(PatternShape::Or(ps)).drop_last() =~= arms);
    assert(arms.push(PatternShape::Or(ps)).last() == PatternShape::Or(ps));
    if exists|k: int| 0 <= k < ps.len() && (#[trigger] ps@[k]) is Wildcard {
        let k = choose|k: int| 0 <= k < ps.len() && (#[trigger] ps@[k]) is Wildcard;
        let full = arms.push(PatternShape::Or(ps));
        assert(full.len() > 0);
        let q = full.last()->Or_0;
        assert(q == ps);
        assert(q@[k] is Wildcard);
        assert(scan(full) == ScanState { wildcard: true, ..scan(arms) });
    } else {
        assert(scan(arms.push(PatternShape::Or(ps))) == scan(arms));
    }
}

/// Once an arm is a catch-all, every later arm is reported unreachable and the
/// analysis otherwise stays as it was.
pub proof fn lemma_after_catch_all(arms: Seq<PatternShape>, p: PatternShape)
    requires
        scan(arms).wildcard || scan(arms).binding,
    ensures
        scan(arms.push(p)).unreachable == scan(arms).unreachable.push(arms.len() as int),
        scan(arms.push(p)).wildcard == scan(arms).wildcard,
        scan(arms.push(p)).binding == scan(arms).binding,
        scan(arms.push(p)).covered == scan(arms).covered,
{
    assert(arms.push(p).drop_last() =~= arms);
}

} // verus!
