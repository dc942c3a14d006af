use vstd::prelude::*;

use crate::config::{str_opt, vec_opt, Replace};
use crate::plan::PackageRelease;
use crate::error::FatalError;
use crate::tag::release_version;
use crate::template::{render_text, Template, TemplateView};

verus! {

#[verifier::external_type_specification]
#[verifier::external_body]
pub struct ExRegexError(regex::Error);

/// Whether `pattern` compiles as a multi-line regular expression.
pub uninterp spec fn pattern_compiles(pattern: Seq<char>) -> bool;

/// The number of non-overlapping matches of `pattern` in `text`.
pub uninterp spec fn match_count(pattern: Seq<char>, text: Seq<char>) -> nat;

/// `text` with every non-overlapping match of `pattern` replaced by
/// `replacement`, whose `$name` groups are expanded.
pub uninterp spec fn replace_matches(pattern: Seq<char>, text: Seq<char>, replacement: Seq<char>) -> Seq<char>;

/// Relies on `regex::RegexBuilder::build` (multi-line mode), on
/// `Regex::find_iter` counted to the end, and on `Regex::replace_all`: the
/// number of matches of `pattern` in `text`, and `text` with each of them
/// replaced, both functions of the three texts alone.
#[verifier::external_body]
fn search_and_replace(pattern: &str, text: &str, replacement: &str) -> (r: Result<
    (usize, String),
    regex::Error,
>)
    ensures
        r is Ok <==> pattern_compiles(pattern@),
        r matches Ok((n, s)) ==> n as nat == match_count(pattern@, text@) && s@
            == replace_matches(pattern@, text@, replacement@),
{
    let re = regex::RegexBuilder::new(pattern).multi_line(true).build()?;
    let count = re.find_iter(text).count();
    Ok((count, re.replace_all(text, replacement).into_owned()))
}

/// The outcome of the occurrence bounds of `rule` for `actual` matches:
/// `exactly`, when set, stands for both bounds; otherwise the lower bound
/// is `min` (0 when unset) and the upper bound `max` (none when unset).
pub open spec fn occurrence_check(rule: Replace, actual: usize) -> Result<(), FatalError> {
    match rule.exactly {
        Some(e) => if actual < e {
            Err(FatalError::ReplacerMinError { pattern: rule.search, req: e, actual })
        } else if actual > e {
            Err(FatalError::ReplacerMaxError { pattern: rule.search, req: e, actual })
        } else {
            Ok(())
        },
        None => if actual < rule.min.unwrap_or(0) {
            Err(FatalError::ReplacerMinError { pattern: rule.search, req: rule.min->0, actual })
        } else if rule.max is Some && actual > rule.max->0 {
            Err(FatalError::ReplacerMaxError { pattern: rule.search, req: rule.max->0, actual })
        } else {
            Ok(())
        },
    }
}

/// A rule with `exactly` set accepts exactly that many matches, whatever
/// its `min` and `max` say: any other count fails, a smaller one with the
/// lower-bound error and a larger one with the upper-bound error.
pub proof fn lemma_exactly_overrides_bounds(rule: Replace, actual: usize)
    requires
        rule.exactly is Some,
    ensures
        occurrence_check(rule, actual) is Ok <==> actual == rule.exactly->0,
        actual < rule.exactly->0 ==> occurrence_check(rule, actual) is Err && occurrence_check(
            rule,
            actual,
        )->Err_0 is ReplacerMinError,
        actual > rule.exactly->0 ==> occurrence_check(rule, actual) is Err && occurrence_check(
            rule,
            actual,
        )->Err_0 is ReplacerMaxError,
        forall|min: Option<usize>, max: Option<usize>|
            occurrence_check(Replace { min, max, ..rule }, actual) == occurrence_check(rule, actual),
{
}

/// Checks that `actual` matches of `rule`'s pattern lie within its bounds.
pub fn check_occurrences(rule: &Replace, actual: usize) -> (r: Result<(), FatalError>)
    ensures
        r == occurrence_check(*rule, actual),
{
    match rule.exactly {
        Some(e) => {
            if actual < e {
                Err(FatalError::ReplacerMinError { pattern: rule.search.clone(), req: e, actual })
            } else if actual > e {
                Err(FatalError::ReplacerMaxError { pattern: rule.search.clone(), req: e, actual })
            } else {
                Ok(())
            }
        },
        None => {
            let min = match rule.min {
                Some(m) => m,
                None => 0,
            };
            if actual < min {
                Err(FatalError::ReplacerMinError { pattern: rule.search.clone(), req: min, actual })
            } else {
                match rule.max {
                    Some(m) => if actual > m {
                        Err(
                            FatalError::ReplacerMaxError {
                                pattern: rule.search.clone(),
                                req: m,
                                actual,
                            },
                        )
                    } else {
                        Ok(())
                    },
                    None => Ok(()),
                }
            }
        },
    }
}

/// What one rule makes of `content`: unchanged when it does not apply to a
/// pre-release, an error when its pattern does not compile or its bounds
/// fail, else every match replaced by the rendered replacement.
pub open spec fn rule_outcome(rule: Replace, v: TemplateView, content: Seq<char>, prerelease: bool) -> Result<
    Seq<char>,
    FatalError,
> {
    if prerelease && !rule.prerelease {
        Ok(content)
    } else if !pattern_compiles(rule.search@) {
        Err(FatalError::InvalidPattern(rule.search))
    } else {
        match occurrence_check(rule, match_count(rule.search@, content) as usize) {
            Err(e) => Err(e),
            Ok(()) => Ok(replace_matches(rule.search@, content, render_text(v, rule.replace@))),
        }
    }
}

/// Applies one rule to the text of its file.
pub fn apply_rule(rule: &Replace, template: &Template, content: &str, prerelease: bool) -> (r: Result<
    String,
    FatalError,
>)
    ensures
        match rule_outcome(*rule, template@, content@, prerelease) {
            Ok(c) => r matches Ok(s) && s@ == c,
            Err(e) => r == Err::<String, FatalError>(e),
        },
{
    if prerelease && !rule.prerelease {
        return Ok(content.to_owned());
    }
    let replacement = template.render(rule.replace.as_str());
    match search_and_replace(rule.search.as_str(), content, replacement.as_str()) {
        Err(_) => Err(FatalError::InvalidPattern(rule.search.clone())),
        Ok((n, replaced)) => match check_occurrences(rule, n) {
            Err(e) => Err(e),
            Ok(()) => Ok(replaced),
        },
    }
}

/// A file that replacement rules may name, with its text.
#[derive(Debug, Clone)]
pub struct SourceFile {
    pub path: String,
    pub content: String,
}

impl View for SourceFile {
    type V = (Seq<char>, Seq<char>);

    open spec fn view(&self) -> (Seq<char>, Seq<char>) {
        (self.path@, self.content@)
    }
}

pub open spec fn files_view(files: Seq<SourceFile>) -> Seq<(Seq<char>, Seq<char>)> {
    files.map_values(|f: SourceFile| f@)
}

/// The first position of a file with path `path`, or -1.
pub open spec fn file_index(files: Seq<(Seq<char>, Seq<char>)>, path: Seq<char>) -> int
    decreases files.len(),
{
    if files.len() == 0 {
        -1
    } else if file_index(files.drop_last(), path) >= 0 {
        file_index(files.drop_last(), path)
    } else if files.last().0 == path {
        files.len() - 1
    } else {
        -1
    }
}

/// What one rule makes of the files: a rule that applies to the current
/// release finds its file, which must exist, and changes its text.
pub open spec fn apply_one(
    rule: Replace,
    v: TemplateView,
    files: Seq<(Seq<char>, Seq<char>)>,
    prerelease: bool,
) -> Result<Seq<(Seq<char>, Seq<char>)>, FatalError> {
    if prerelease && !rule.prerelease {
        Ok(files)
    } else if file_index(files, rule.file@) < 0 {
        Err(FatalError::FileNotFound(rule.file))
    } else {
        let i = file_index(files, rule.file@);
        match rule_outcome(rule, v, files[i].1, prerelease) {
            Err(e) => Err(e),
            Ok(c) => Ok(files.update(i, (files[i].0, c))),
        }
    }
}

/// The rules applied in order; the first failure ends the run.
pub open spec fn apply_rules(
    rules: Seq<Replace>,
    v: TemplateView,
    files: Seq<(Seq<char>, Seq<char>)>,
    prerelease: bool,
) -> Result<Seq<(Seq<char>, Seq<char>)>, FatalError>
    decreases rules.len(),
{
    if rules.len() == 0 {
        Ok(files)
    } else {
        match apply_rules(rules.drop_last(), v, files, prerelease) {
            Err(e) => Err(e),
            Ok(fs) => apply_one(rules.last(), v, fs, prerelease),
        }
    }
}

proof fn lemma_failure_persists(
    rules: Seq<Replace>,
    v: TemplateView,
    files: Seq<(Seq<char>, Seq<char>)>,
    prerelease: bool,
    j: int,
)
    requires
        0 <= j <= rules.len(),
        apply_rules(rules.subrange(0, j), v, files, prerelease) is Err,
    ensures
        apply_rules(rules, v, files, prerelease) == apply_rules(
            rules.subrange(0, j),
            v,
            files,
            prerelease,
        ),
    decreases rules.len() - j,
{
    if j < rules.len() {
        assert(rules.subrange(0, j + 1).drop_last() =~= rules.subrange(0, j));
        lemma_failure_persists(rules, v, files, prerelease, j + 1);
    } else {
        assert(rules.subrange(0, j) =~= rules);
    }
}

proof fn lemma_file_index_prefix(files: Seq<(Seq<char>, Seq<char>)>, path: Seq<char>, j: int)
    requires
        0 <= j <= files.len(),
        file_index(files.subrange(0, j), path) >= 0,
    ensures
        file_index(files, path) == file_index(files.subrange(0, j), path),
    decreases files.len() - j,
{
    if j < files.len() {
        let next = files.subrange(0, j + 1);
        assert(next.drop_last() =~= files.subrange(0, j));
        lemma_file_index_prefix(files, path, j + 1);
    } else {
        assert(files.subrange(0, j) =~= files);
    }
}

proof fn lemma_file_index_bounds(files: Seq<(Seq<char>, Seq<char>)>, path: Seq<char>)
    ensures
        -1 <= file_index(files, path) < files.len(),
        file_index(files, path) >= 0 ==> files[file_index(files, path)].0 == path,
    decreases files.len(),
{
    if files.len() > 0 {
        lemma_file_index_bounds(files.drop_last(), path);
    }
}

/// Finds the first file with the given path.
fn find_file(files: &Vec<SourceFile>, path: &String) -> (r: Option<usize>)
    ensures
        match r {
            Some(i) => file_index(files_view(files@), path@) == i,
            None => file_index(files_view(files@), path@) < 0,
        },
{
    let ghost fv = files_view(files@);
    let mut j: usize = 0;
    while j < files.len()
        invariant
            j <= files.len(),
            fv == files_view(files@),
            file_index(fv.subrange(0, j as int), path@) < 0,
        decreases files.len() - j,
    {
        assert(fv.subrange(0, j + 1).drop_last() =~= fv.subrange(0, j as int));
        if files[j].path == *path {
            proof {
                lemma_file_index_prefix(fv, path@, j + 1);
            }
            return Some(j);
        }
        j += 1;
    }
    assert(fv.subrange(0, j as int) =~= fv);
    None
}

/// Applies replacement rules, in order, to the texts of the files they
/// name. A rule that does not apply to a pre-release is skipped when
/// `prerelease` holds; a rule whose file is not among `files` fails with
/// the file's name. The result holds every file with its new text, in the
/// order given.
pub fn apply(rules: &[Replace], template: &Template, files: Vec<SourceFile>, prerelease: bool) -> (r:
    Result<Vec<SourceFile>, FatalError>)
    ensures
        match apply_rules(rules@, template@, files_view(files@), prerelease) {
            Ok(fs) => r matches Ok(out) && files_view(out@) == fs,
            Err(e) => r == Err::<Vec<SourceFile>, FatalError>(e),
        },
{
    let mut current = files;
    let ghost initial = files_view(current@);
    let mut k: usize = 0;
    while k < rules.len()
        invariant
            k <= rules@.len(),
            initial == files_view(files@),
            apply_rules(rules@.subrange(0, k as int), template@, initial, prerelease) == Ok::<
                Seq<(Seq<char>, Seq<char>)>,
                FatalError,
            >(files_view(current@)),
        decreases rules@.len() - k,
    {
        let rule = &rules[k];
        let ghost before = files_view(current@);
        assert(rules@.subrange(0, k + 1).drop_last() =~= rules@.subrange(0, k as int));
        assert(rules@.subrange(0, k + 1).last() == rules@[k as int]);
        assert(apply_rules(rules@.subrange(0, k + 1), template@, initial, prerelease) == apply_one(
            rules@[k as int],
            template@,
            before,
            prerelease,
        ));
        if !(prerelease && !rule.prerelease) {
            proof {
                lemma_file_index_bounds(before, rule.file@);
            }
            match find_file(&current, &rule.file) {
                None => {
                    proof {
                        lemma_failure_persists(rules@, template@, initial, prerelease, k + 1);
                    }
                    return Err(FatalError::FileNotFound(rule.file.clone()));
                },
                Some(i) => {
                    match apply_rule(rule, template, current[i].content.as_str(), prerelease) {
                        Err(e) => {
                            proof {
                                lemma_failure_persists(
                                    rules@,
                                    template@,
                                    initial,
                                    prerelease,
                                    k + 1,
                                );
                            }
                            return Err(e);
                        },
                        Ok(content) => {
                            let path = current[i].path.clone();
                            current.set(i, SourceFile { path, content });
                            assert(files_view(current@) =~= before.update(
                                i as int,
                                (before[i as int].0, content@),
                            ));
                        },
                    }
                },
            }
        }
        k += 1;
    }
    assert(rules@.subrange(0, k as int) =~= rules@);
    Ok(current)
}

/// The values a package's replacement templates are rendered with.
pub open spec fn replace_template(pkg: PackageRelease, date: Seq<char>) -> TemplateView {
    TemplateView {
        prev_version: pkg.initial_version@.bare_text(),
        prev_metadata: pkg.initial_version.build@,
        version: release_version(pkg)@.bare_text(),
        metadata: release_version(pkg).build@,
        crate_name: pkg.name@,
        date,
        tag_name: str_opt(pkg.planned_tag).unwrap_or(Seq::empty()),
        prefix: Seq::empty(),
        next_version: Seq::empty(),
    }
}

/// The pre-release replacements of a package applied to the texts of its
/// files, for its planned (else current) version on `date`; rules not
/// marked for pre-releases are skipped when that version is one.
pub fn replace(pkg: &PackageRelease, files: Vec<SourceFile>, date: &str) -> (r: Result<
    Vec<SourceFile>,
    FatalError,
>)
    ensures
        match apply_rules(
            vec_opt(pkg.config.pre_release_replacements).unwrap_or(Seq::empty()),
            replace_template(*pkg, date@),
            files_view(files@),
            release_version(*pkg)@.is_prerelease(),
        ) {
            Ok(fs) => r matches Ok(out) && files_view(out@) == fs,
            Err(e) => r == Err::<Vec<SourceFile>, FatalError>(e),
        },
{
    let version = match &pkg.planned_version {
        Some(v) => v,
        None => &pkg.initial_version,
    };
    let tag_name = match &pkg.planned_tag {
        Some(t) => Some(t.clone()),
        None => None,
    };
    let template = Template {
        prev_version: Some(pkg.initial_version.bare_version_string()),
        prev_metadata: Some(pkg.initial_version.build.clone()),
        version: Some(version.bare_version_string()),
        metadata: Some(version.build.clone()),
        crate_name: Some(pkg.name.clone()),
        date: Some(date.to_owned()),
        tag_name,
        prefix: None,
        next_version: None,
    };
    assert(template@ == replace_template(*pkg, date@));
    apply(pkg.config.pre_release_replacements(), &template, files, version.is_prerelease())
}

} // verus!
