use vstd::prelude::*;

use crate::error::FatalError;
use crate::text::{append_decimal, decimal, texts_equal};
use crate::version::{Version, VersionView};

verus! {

#[verifier::external_type_specification]
#[verifier::external_body]
pub struct ExSemverOp(semver::Op);

/// The operator of one comparator of a version requirement.
#[derive(Debug, Clone, Copy, PartialEq, Eq, Structural)]
pub enum Operator {
    Exact,
    Greater,
    GreaterEq,
    Less,
    LessEq,
    Tilde,
    Caret,
    Wildcard,
}

/// One comparator of a version requirement, such as `^1.2` or `=0.3.1-rc`.
#[derive(Debug, Clone)]
pub struct Comparator {
    pub op: Operator,
    pub major: u64,
    pub minor: Option<u64>,
    pub patch: Option<u64>,
    pub pre: String,
}

pub ghost struct ComparatorView {
    pub op: Operator,
    pub major: u64,
    pub minor: Option<u64>,
    pub patch: Option<u64>,
    pub pre: Seq<char>,
}

impl View for Comparator {
    type V = ComparatorView;

    open spec fn view(&self) -> ComparatorView {
        ComparatorView {
            op: self.op,
            major: self.major,
            minor: self.minor,
            patch: self.patch,
            pre: self.pre@,
        }
    }
}

/// The symbol that a requirement writes for an operator.
pub open spec fn op_text(op: Operator) -> Seq<char> {
    match op {
        Operator::Exact => seq!['='],
        Operator::Greater => seq!['>'],
        Operator::GreaterEq => seq!['>', '='],
        Operator::Less => seq!['<'],
        Operator::LessEq => seq!['<', '='],
        Operator::Tilde => seq!['~'],
        Operator::Caret => seq!['^'],
        Operator::Wildcard => Seq::empty(),
    }
}

/// The comparators, as plain values, that semantic-versioning parsing finds
/// in a requirement, or `None` where `text` is not a requirement.
pub uninterp spec fn semver_req_parts(text: Seq<char>) -> Option<
    Seq<(Seq<char>, u64, Option<u64>, Option<u64>, Seq<char>)>,
>;

/// Whether the requirement `req` admits the version `version`, or `None`
/// where either text does not parse.
pub uninterp spec fn semver_req_matches(req: Seq<char>, version: Seq<char>) -> Option<bool>;

pub open spec fn comparator_parts(c: Comparator) -> (Seq<char>, u64, Option<u64>, Option<u64>, Seq<char>) {
    (op_text(c.op), c.major, c.minor, c.patch, c.pre@)
}

/// Relies on the variants of `semver::Op`: semver 1.0.28 defines exactly
/// these eight. The enum is marked non-exhaustive, so a catch-all arm is
/// required; it is never taken with that version.
#[verifier::external_body]
fn op_of(op: semver::Op) -> Operator {
    match op {
        semver::Op::Exact => Operator::Exact,
        semver::Op::Greater => Operator::Greater,
        semver::Op::GreaterEq => Operator::GreaterEq,
        semver::Op::Less => Operator::Less,
        semver::Op::LessEq => Operator::LessEq,
        semver::Op::Tilde => Operator::Tilde,
        semver::Op::Caret => Operator::Caret,
        semver::Op::Wildcard => Operator::Wildcard,
        _ => Operator::Exact,
    }
}

/// Relies on `semver::VersionReq::parse`: the comparators it finds in
/// `text`, each with its operator, numbers and pre-release text.
#[verifier::external_body]
fn parse_requirement(text: &str) -> (r: Result<Vec<Comparator>, semver::Error>)
    ensures
        match r {
            Ok(cs) => semver_req_parts(text@) == Some(cs@.map_values(|c: Comparator| comparator_parts(c))),
            Err(_) => semver_req_parts(text@) is None,
        },
{
    let req = semver::VersionReq::parse(text)?;
    let mut out = Vec::new();
    for c in req.comparators {
        let pre = c.pre.as_str().to_owned();
        out.push(Comparator { op: op_of(c.op), major: c.major, minor: c.minor, patch: c.patch, pre });
    }
    Ok(out)
}

/// Relies on `semver::VersionReq::parse`, `semver::Version::parse` and
/// `semver::VersionReq::matches`: whether the requirement admits the
/// version depends on the two texts alone.
#[verifier::external_body]
fn requirement_matches(req: &str, version: &str) -> (r: Result<bool, semver::Error>)
    ensures
        match r {
            Ok(b) => semver_req_matches(req@, version@) == Some(b),
            Err(_) => semver_req_matches(req@, version@) is None,
        },
{
    let req = semver::VersionReq::parse(req)?;
    let version = semver::Version::parse(version)?;
    Ok(req.matches(&version))
}

/// Whether a dependent's requirement `req` still admits `version`.
pub fn req_matches(req: &str, version: &Version) -> (r: Result<bool, FatalError>)
    ensures
        match semver_req_matches(req@, version@.full_text()) {
            Some(b) => r == Ok::<bool, FatalError>(b),
            None => r matches Err(FatalError::InvalidVersionReq(t)) && t@ == req@,
        },
{
    let text = version.full_version_string();
    match requirement_matches(req, text.as_str()) {
        Ok(b) => Ok(b),
        Err(_) => Err(FatalError::InvalidVersionReq(req.to_owned())),
    }
}

/// A comparator as a requirement writes it: operator, major number, then
/// the minor and patch numbers it names, then its pre-release text; a
/// wildcard ends in `.*` where its numbers stop.
pub open spec fn comparator_text(c: ComparatorView) -> Seq<char> {
    op_text(c.op) + decimal(c.major as nat) + match c.minor {
        Some(minor) => seq!['.'] + decimal(minor as nat) + match c.patch {
            Some(patch) => seq!['.'] + decimal(patch as nat) + if c.pre.len() > 0 {
                seq!['-'] + c.pre
            } else {
                Seq::empty()
            },
            None => if c.op == Operator::Wildcard {
                seq!['.', '*']
            } else {
                Seq::empty()
            },
        },
        None => if c.op == Operator::Wildcard {
            seq!['.', '*']
        } else {
            Seq::empty()
        },
    }
}

/// Comparators joined by `, `.
pub open spec fn comparators_text(cs: Seq<ComparatorView>) -> Seq<char>
    decreases cs.len(),
{
    if cs.len() == 0 {
        Seq::empty()
    } else if cs.len() == 1 {
        comparator_text(cs[0])
    } else {
        comparators_text(cs.drop_last()) + seq![',', ' '] + comparator_text(cs.last())
    }
}

/// A comparator moved to `v`: it keeps its operator and which numbers it
/// names, and takes `v`'s numbers (and, but for a wildcard, its pre-release
/// text). Ordering operators cannot be moved.
pub open spec fn moved_comparator(c: ComparatorView, v: VersionView) -> Option<ComparatorView> {
    match c.op {
        Operator::Greater | Operator::GreaterEq | Operator::Less | Operator::LessEq => None,
        _ => Some(
            ComparatorView {
                op: c.op,
                major: v.major,
                minor: if c.minor is Some {
                    Some(v.minor)
                } else {
                    None
                },
                patch: if c.patch is Some {
                    Some(v.patch)
                } else {
                    None
                },
                pre: if c.op == Operator::Wildcard {
                    c.pre
                } else {
                    v.pre
                },
            },
        ),
    }
}

pub open spec fn all_movable(cs: Seq<ComparatorView>, v: VersionView) -> bool {
    forall|i: int| 0 <= i < cs.len() ==> (#[trigger] moved_comparator(cs[i], v)) is Some
}

pub open spec fn moved_all(cs: Seq<ComparatorView>, v: VersionView) -> Seq<ComparatorView> {
    cs.map_values(|c: ComparatorView| moved_comparator(c, v)->0)
}

/// The new requirement text: the moved comparators, without a leading `^`
/// that the old text did not have.
pub open spec fn moved_text(req: Seq<char>, cs: Seq<ComparatorView>, v: VersionView) -> Seq<char> {
    let t = comparators_text(moved_all(cs, v));
    if t.len() > 0 && t[0] == '^' && !(req.len() > 0 && req[0] == '^') {
        t.drop_first()
    } else {
        t
    }
}

pub open spec fn views_of(cs: Seq<Comparator>) -> Seq<ComparatorView> {
    cs.map_values(|c: Comparator| c@)
}

fn op_str(op: Operator) -> (r: &'static str)
    ensures
        r@ == op_text(op),
{
    proof {
        reveal_strlit("=");
        reveal_strlit(">");
        reveal_strlit(">=");
        reveal_strlit("<");
        reveal_strlit("<=");
        reveal_strlit("~");
        reveal_strlit("^");
        reveal_strlit("");
    }
    match op {
        Operator::Exact => "=",
        Operator::Greater => ">",
        Operator::GreaterEq => ">=",
        Operator::Less => "<",
        Operator::LessEq => "<=",
        Operator::Tilde => "~",
        Operator::Caret => "^",
        Operator::Wildcard => "",
    }
}

fn append_comparator(out: &mut String, c: &Comparator)
    ensures
        final(out)@ == old(out)@ + comparator_text(c@),
{
    proof {
        reveal_strlit(".");
        reveal_strlit("-");
        reveal_strlit(".*");
    }
    out.append(op_str(c.op));
    append_decimal(out, c.major);
    match c.minor {
        Some(minor) => {
            out.append(".");
            append_decimal(out, minor);
            match c.patch {
                Some(patch) => {
                    out.append(".");
                    append_decimal(out, patch);
                    if c.pre.unicode_len() > 0 {
                        out.append("-");
                        out.append(c.pre.as_str());
                    }
                },
                None => {
                    if c.op == Operator::Wildcard {
                        out.append(".*");
                    }
                },
            }
        },
        None => {
            if c.op == Operator::Wildcard {
                out.append(".*");
            }
        },
    }
    assert(final(out)@ =~= old(out)@ + comparator_text(c@));
}

fn move_comparator(c: &Comparator, v: &Version) -> (r: Option<Comparator>)
    ensures
        match moved_comparator(c@, v@) {
            Some(m) => r matches Some(x) && x@ == m,
            None => r is None,
        },
{
    match c.op {
        Operator::Greater | Operator::GreaterEq | Operator::Less | Operator::LessEq => None,
        _ => {
            let minor = if c.minor.is_some() {
                Some(v.minor)
            } else {
                None
            };
            let patch = if c.patch.is_some() {
                Some(v.patch)
            } else {
                None
            };
            let pre = if c.op == Operator::Wildcard {
                c.pre.clone()
            } else {
                v.pre.clone()
            };
            Some(Comparator { op: c.op, major: v.major, minor, patch, pre })
        },
    }
}

/// The operator that a requirement's symbol stands for.
pub open spec fn op_from_text(t: Seq<char>) -> Operator {
    if t == seq!['='] {
        Operator::Exact
    } else if t == seq!['>'] {
        Operator::Greater
    } else if t == seq!['>', '='] {
        Operator::GreaterEq
    } else if t == seq!['<'] {
        Operator::Less
    } else if t == seq!['<', '='] {
        Operator::LessEq
    } else if t == seq!['~'] {
        Operator::Tilde
    } else if t == seq!['^'] {
        Operator::Caret
    } else {
        Operator::Wildcard
    }
}

pub open spec fn part_view(p: (Seq<char>, u64, Option<u64>, Option<u64>, Seq<char>)) -> ComparatorView {
    ComparatorView { op: op_from_text(p.0), major: p.1, minor: p.2, patch: p.3, pre: p.4 }
}

proof fn lemma_part_view(cs: Seq<Comparator>)
    ensures
        cs.map_values(|c: Comparator| comparator_parts(c)).map_values(
            |p: (Seq<char>, u64, Option<u64>, Option<u64>, Seq<char>)| part_view(p),
        ) == views_of(cs),
{
    assert forall|i: int| 0 <= i < cs.len() implies part_view(comparator_parts(cs[i])) == cs[i]@ by {
        let t = op_text(cs[i].op);
        assert(seq!['>', '='] != seq!['>']) by {
            assert(seq!['>', '='].len() == 2 && seq!['>'].len() == 1);
        }
        assert(seq!['<', '='] != seq!['<']) by {
            assert(seq!['<', '='].len() == 2 && seq!['<'].len() == 1);
        }
        assert(seq!['>'] != seq!['=']) by {
            assert(seq!['>'][0] != seq!['='][0]);
        }
        assert(seq!['<'] != seq!['=']) by {
            assert(seq!['<'][0] != seq!['='][0]);
        }
        assert(seq!['<'] != seq!['>']) by {
            assert(seq!['<'][0] != seq!['>'][0]);
        }
        assert(seq!['<', '='] != seq!['>', '=']) by {
            assert(seq!['<', '='][0] != seq!['>', '='][0]);
        }
        assert(seq!['~'] != seq!['='] && seq!['~'] != seq!['>'] && seq!['~'] != seq!['<']) by {
            assert(seq!['~'][0] != seq!['='][0]);
            assert(seq!['~'][0] != seq!['>'][0]);
            assert(seq!['~'][0] != seq!['<'][0]);
        }
        assert(seq!['^'] != seq!['='] && seq!['^'] != seq!['>'] && seq!['^'] != seq!['<']
            && seq!['^'] != seq!['~']) by {
            assert(seq!['^'][0] != seq!['='][0]);
            assert(seq!['^'][0] != seq!['>'][0]);
            assert(seq!['^'][0] != seq!['<'][0]);
            assert(seq!['^'][0] != seq!['~'][0]);
        }
        assert(seq!['='].len() == 1 && seq!['>', '='].len() == 2 && seq!['<', '='].len() == 2);
        assert(Seq::<char>::empty().len() == 0);
        assert(op_from_text(t) == cs[i].op);
    }
    assert(cs.map_values(|c: Comparator| comparator_parts(c)).map_values(
        |p: (Seq<char>, u64, Option<u64>, Option<u64>, Seq<char>)| part_view(p),
    ) =~= views_of(cs));
}

/// What rewriting a requirement for a new version comes to.
pub ghost enum Rewrite {
    /// The requirement does not parse.
    Invalid,
    /// The requirement uses an ordering operator.
    Unsupported,
    /// The requirement stays as it is.
    Unchanged,
    /// The requirement's new text.
    Changed(Seq<char>),
}

/// Rewriting the requirement `req` so that it admits `v` the way it
/// admitted the old version: every comparator is moved to `v`; an empty
/// requirement, or one that already reads so, stays as it is.
pub open spec fn rewrite_outcome(req: Seq<char>, v: VersionView) -> Rewrite {
    match semver_req_parts(req) {
        None => Rewrite::Invalid,
        Some(parts) => {
            let cs = parts.map_values(
                |p: (Seq<char>, u64, Option<u64>, Option<u64>, Seq<char>)| part_view(p),
            );
            if cs.len() == 0 {
                Rewrite::Unchanged
            } else if !all_movable(cs, v) {
                Rewrite::Unsupported
            } else if moved_text(req, cs, v) == req {
                Rewrite::Unchanged
            } else {
                Rewrite::Changed(moved_text(req, cs, v))
            }
        },
    }
}

/// Rewrites a dependent's requirement so that it admits `version` the way
/// it admitted the old one. `Ok(None)` when nothing changes: the
/// requirement is empty or already reads that way.
pub fn upgrade_requirement(req: &str, version: &Version) -> (r: Result<Option<String>, FatalError>)
    ensures
        match rewrite_outcome(req@, version@) {
            Rewrite::Invalid => r matches Err(FatalError::InvalidVersionReq(t)) && t@ == req@,
            Rewrite::Unsupported => r matches Err(FatalError::UnsupportedVersionReq(t)) && t@
                == req@,
            Rewrite::Unchanged => r matches Ok(None),
            Rewrite::Changed(t) => r matches Ok(Some(s)) && s@ == t,
        },
{
    let cs = match parse_requirement(req) {
        Ok(cs) => cs,
        Err(_) => return Err(FatalError::InvalidVersionReq(req.to_owned())),
    };
    proof {
        lemma_part_view(cs@);
    }
    assert(views_of(cs@).len() == cs@.len());
    if cs.len() == 0 {
        return Ok(None);
    }
    let mut moved: Vec<Comparator> = Vec::new();
    let mut i: usize = 0;
    while i < cs.len()
        invariant
            i <= cs@.len(),
            cs@.len() > 0,
            semver_req_parts(req@) == Some(cs@.map_values(|c: Comparator| comparator_parts(c))),
            moved@.len() == i,
            forall|j: int| 0 <= j < i ==> (#[trigger] moved_comparator(cs@[j]@, version@)) is Some,
            forall|j: int|
                0 <= j < i ==> (#[trigger] moved@[j])@ == moved_comparator(cs@[j]@, version@)->0,
        decreases cs@.len() - i,
    {
        match move_comparator(&cs[i], version) {
            Some(m) => moved.push(m),
            None => {
                assert(!all_movable(views_of(cs@), version@)) by {
                    assert(views_of(cs@)[i as int] == cs@[i as int]@);
                    assert(moved_comparator(views_of(cs@)[i as int], version@) is None);
                }
                proof {
                    lemma_part_view(cs@);
                }
                assert(views_of(cs@).len() == cs@.len());
                return Err(FatalError::UnsupportedVersionReq(req.to_owned()));
            },
        }
        i += 1;
    }
    assert(views_of(moved@) =~= moved_all(views_of(cs@), version@));
    let mut text = String::new();
    let mut k: usize = 0;
    while k < moved.len()
        invariant
            k <= moved@.len(),
            text@ == comparators_text(views_of(moved@).subrange(0, k as int)),
        decreases moved@.len() - k,
    {
        proof {
            reveal_strlit(", ");
        }
        if k > 0 {
            text.append(", ");
        }
        append_comparator(&mut text, &moved[k]);
        assert(views_of(moved@).subrange(0, k + 1).drop_last() =~= views_of(moved@).subrange(
            0,
            k as int,
        ));
        k += 1;
    }
    assert(views_of(moved@).subrange(0, k as int) =~= views_of(moved@));
    let starts_caret = text.unicode_len() > 0 && text.as_str().get_char(0) == '^';
    let req_caret = req.unicode_len() > 0 && req.get_char(0) == '^';
    let new_text = if starts_caret && !req_caret {
        let n = text.unicode_len();
        let mut t = String::new();
        t.append(text.as_str().substring_char(1, n));
        assert(t@ =~= text@.drop_first());
        t
    } else {
        text
    };
    if texts_equal(new_text.as_str(), req) {
        Ok(None)
    } else {
        Ok(Some(new_text))
    }
}

} // verus!
