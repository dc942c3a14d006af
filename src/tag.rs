use vstd::prelude::*;

use crate::config::str_opt;
use crate::plan::{tag_for, PackageRelease, PackageView};
use crate::text::strings_view;
use crate::template::{render_text, Template, TemplateView};
use crate::version::Version;

verus! {

/// One tag to create: where, under which name, with which message, and
/// whether to sign it.
#[derive(Debug, Clone)]
pub struct TagAction {
    pub package_root: String,
    pub tag_name: String,
    pub message: String,
    pub sign: bool,
}

pub ghost struct TagActionView {
    pub package_root: Seq<char>,
    pub tag_name: Seq<char>,
    pub message: Seq<char>,
    pub sign: bool,
}

impl View for TagAction {
    type V = TagActionView;

    open spec fn view(&self) -> TagActionView {
        TagActionView {
            package_root: self.package_root@,
            tag_name: self.tag_name@,
            message: self.message@,
            sign: self.sign,
        }
    }
}

/// The version a package is released at: its planned one, else its
/// current one.
pub open spec fn release_version(p: PackageRelease) -> Version {
    match p.planned_version {
        Some(v) => v,
        None => p.initial_version,
    }
}

/// The values a tag message of package `p` is rendered with.
pub open spec fn tag_template(p: PackageRelease, tag_name: Seq<char>, date: Seq<char>) -> TemplateView {
    TemplateView {
        prev_version: p.initial_version@.bare_text(),
        prev_metadata: p.initial_version.build@,
        version: release_version(p)@.bare_text(),
        metadata: release_version(p).build@,
        crate_name: p.name@,
        date,
        tag_name,
        prefix: Seq::empty(),
        next_version: Seq::empty(),
    }
}

/// The message of the tag of package `p`: its tag-message template
/// rendered for its release.
pub open spec fn tag_message_for(p: PackageRelease, tag_name: Seq<char>, date: Seq<char>) -> Seq<char> {
    render_text(
        tag_template(p, tag_name, date),
        str_opt(p.config.tag_message).unwrap_or(
            "(cargo-release) {{crate_name}} version {{version}}"@,
        ),
    )
}

/// Planning a package twice from the same inputs gives the same tag name,
/// and the tag step gives that tag the same message: the name depends on
/// nothing but the package's name, tag templates and versions, and the
/// message on those, the tag name and the date.
pub proof fn lemma_tag_is_deterministic(
    a: PackageView,
    b: PackageView,
    pa: PackageRelease,
    pb: PackageRelease,
    tag_name: Seq<char>,
    date: Seq<char>,
)
    requires
        a.name == b.name,
        a.tag_enabled == b.tag_enabled,
        a.tag_name == b.tag_name,
        a.tag_prefix == b.tag_prefix,
        a.initial == b.initial,
        a.planned == b.planned,
        pa.name@ == pb.name@,
        pa.initial_version@ == pb.initial_version@,
        release_version(pa)@ == release_version(pb)@,
        str_opt(pa.config.tag_message) == str_opt(pb.config.tag_message),
    ensures
        tag_for(a) == tag_for(b),
        tag_message_for(pa, tag_name, date) == tag_message_for(pb, tag_name, date),
{
}

/// Whether one of the first `n` packages already plans the tag `t`.
pub open spec fn tag_seen(pkgs: Seq<PackageRelease>, n: int, t: Seq<char>) -> bool {
    exists|i: int| 0 <= i < n && str_opt(#[trigger] pkgs[i].planned_tag) == Some(t)
}

/// The tags to create for the first `n` packages: one per planned tag
/// name, made by the first package that plans it.
pub open spec fn tag_actions(pkgs: Seq<PackageRelease>, date: Seq<char>, n: int) -> Seq<TagActionView>
    decreases n,
{
    if n <= 0 {
        Seq::empty()
    } else {
        let p = pkgs[n - 1];
        let before = tag_actions(pkgs, date, n - 1);
        match str_opt(p.planned_tag) {
            Some(t) => if tag_seen(pkgs, n - 1, t) {
                before
            } else {
                before.push(
                    TagActionView {
                        package_root: p.package_root@,
                        tag_name: t,
                        message: tag_message_for(p, t, date),
                        sign: p.config.sign_tag.unwrap_or(false),
                    },
                )
            },
            None => before,
        }
    }
}

pub open spec fn seen_has(seen: Seq<String>, t: Seq<char>) -> bool {
    exists|i: int| 0 <= i < seen.len() && (#[trigger] seen[i])@ == t
}

/// Whether `seen` holds `t`.
fn contains(seen: &Vec<String>, t: &String) -> (r: bool)
    ensures
        r == seen_has(seen@, t@),
{
    let mut i: usize = 0;
    while i < seen.len()
        invariant
            i <= seen@.len(),
            forall|j: int| 0 <= j < i ==> (#[trigger] seen@[j])@ != t@,
        decreases seen@.len() - i,
    {
        if seen[i] == *t {
            return true;
        }
        i += 1;
    }
    false
}

/// The tags to create for the released packages, in order: each planned
/// tag once, by the first package that plans it, with its message rendered
/// for that package on `date`. Creating them is left to the caller.
pub fn tag(pkgs: &[PackageRelease], date: &str) -> (r: Vec<TagAction>)
    ensures
        r@.map_values(|a: TagAction| a@) == tag_actions(pkgs@, date@, pkgs@.len() as int),
{
    let mut out: Vec<TagAction> = Vec::new();
    let mut seen: Vec<String> = Vec::new();
    let mut k: usize = 0;
    while k < pkgs.len()
        invariant
            k <= pkgs@.len(),
            out@.map_values(|a: TagAction| a@) == tag_actions(pkgs@, date@, k as int),
            forall|t: Seq<char>| seen_has(seen@, t) <==> #[trigger] tag_seen(pkgs@, k as int, t),
        decreases pkgs@.len() - k,
    {
        let p = &pkgs[k];
        let ghost seen_before = seen@;
        if let Some(t) = &p.planned_tag {
            if !contains(&seen, t) {
                let version = match &p.planned_version {
                    Some(v) => v,
                    None => &p.initial_version,
                };
                let template = Template {
                    prev_version: Some(p.initial_version.bare_version_string()),
                    prev_metadata: Some(p.initial_version.build.clone()),
                    version: Some(version.bare_version_string()),
                    metadata: Some(version.build.clone()),
                    crate_name: Some(p.name.clone()),
                    date: Some(date.to_owned()),
                    tag_name: Some(t.clone()),
                    prefix: None,
                    next_version: None,
                };
                assert(template@ == tag_template(*p, t@, date@));
                let message = template.render(p.config.tag_message());
                let ghost prev = out@;
                out.push(
                    TagAction {
                        package_root: p.package_root.clone(),
                        tag_name: t.clone(),
                        message,
                        sign: p.config.sign_tag(),
                    },
                );
                assert(out@.map_values(|a: TagAction| a@) =~= prev.map_values(|a: TagAction| a@).push(
                    out@[prev.len() as int]@,
                ));
                seen.push(t.clone());
            }
        }
        assert forall|t: Seq<char>| seen_has(seen@, t) <==> #[trigger] tag_seen(pkgs@, k + 1, t) by {
            assert(seen_has(seen_before, t) <==> tag_seen(pkgs@, k as int, t));
            if tag_seen(pkgs@, k + 1, t) {
                let i = choose|i: int|
                    0 <= i < k + 1 && str_opt(#[trigger] pkgs@[i].planned_tag) == Some(t);
                if tag_seen(pkgs@, k as int, t) {
                    let m = choose|m: int|
                        0 <= m < seen_before.len() && (#[trigger] seen_before[m])@ == t;
                    assert(seen@[m] == seen_before[m]);
                } else {
                    assert(i == k);
                    assert(seen@[seen@.len() - 1]@ == t);
                }
            }
            if seen_has(seen@, t) {
                let i = choose|i: int| 0 <= i < seen@.len() && (#[trigger] seen@[i])@ == t;
                if i < seen_before.len() {
                    assert(seen_before[i]@ == t);
                    assert(seen_has(seen_before, t));
                    let j = choose|j: int|
                        0 <= j < k && str_opt(#[trigger] pkgs@[j].planned_tag) == Some(t);
                    assert(0 <= j < k + 1 && str_opt(pkgs@[j].planned_tag) == Some(t));
                } else {
                    assert(str_opt(pkgs@[k as int].planned_tag) == Some(t));
                }
            }
        }
        k += 1;
    }
    out
}

/// Lexicographic order of texts, character by character.
pub open spec fn text_less(a: Seq<char>, b: Seq<char>) -> bool
    decreases a.len(),
{
    if a.len() == 0 {
        b.len() > 0
    } else if b.len() == 0 {
        false
    } else if a[0] != b[0] {
        a[0] < b[0]
    } else {
        text_less(a.drop_first(), b.drop_first())
    }
}

proof fn lemma_text_less_total(a: Seq<char>, b: Seq<char>)
    ensures
        !text_less(a, a),
        a != b ==> text_less(a, b) || text_less(b, a),
    decreases a.len(),
{
    if a.len() > 0 && b.len() > 0 {
        lemma_text_less_total(a.drop_first(), b.drop_first());
        if a[0] == b[0] && a != b {
            assert(a.drop_first() != b.drop_first()) by {
                if a.drop_first() == b.drop_first() {
                    assert(a =~= seq![a[0]] + a.drop_first());
                    assert(b =~= seq![b[0]] + b.drop_first());
                }
            }
        }
    } else if a.len() > 0 {
        lemma_text_less_total(a.drop_first(), a.drop_first());
    } else if b.len() == 0 {
        assert(a =~= b);
    }
}

fn text_less_exec(a: &str, b: &str) -> (r: bool)
    ensures
        r == text_less(a@, b@),
{
    let n = a.unicode_len();
    let m = b.unicode_len();
    let mut i: usize = 0;
    assert(a@.skip(0) =~= a@ && b@.skip(0) =~= b@);
    while i < n && i < m
        invariant
            n == a@.len(),
            m == b@.len(),
            i <= n,
            i <= m,
            text_less(a@, b@) == text_less(a@.skip(i as int), b@.skip(i as int)),
        decreases n - i,
    {
        let ca = a.get_char(i);
        let cb = b.get_char(i);
        if ca != cb {
            return ca < cb;
        }
        assert(a@.skip(i as int).drop_first() =~= a@.skip(i + 1));
        assert(b@.skip(i as int).drop_first() =~= b@.skip(i + 1));
        i += 1;
    }
    i == n && i < m
}

/// Each text strictly precedes the next.
pub open spec fn strictly_sorted(s: Seq<Seq<char>>) -> bool {
    forall|i: int| 0 <= i < s.len() - 1 ==> text_less(#[trigger] s[i], s[i + 1])
}

fn insert_sorted(list: &mut Vec<String>, t: &String)
    requires
        strictly_sorted(strings_view(old(list)@)),
    ensures
        strictly_sorted(strings_view(final(list)@)),
        forall|x: Seq<char>|
            #![trigger strings_view(final(list)@).contains(x)]
            strings_view(final(list)@).contains(x) <==> (strings_view(old(list)@).contains(x) || x
                == t@),
{
    let ghost before = strings_view(list@);
    let mut p: usize = 0;
    while p < list.len() && text_less_exec(list[p].as_str(), t.as_str())
        invariant
            p <= list@.len(),
            before == strings_view(list@),
            forall|i: int| 0 <= i < p ==> text_less(#[trigger] before[i], t@),
        decreases list@.len() - p,
    {
        p += 1;
    }
    if p < list.len() && list[p] == *t {
        assert(before[p as int] == t@);
        assert forall|x: Seq<char>| before.contains(x) <==> (before.contains(x) || x == t@) by {
            if x == t@ {
                assert(before[p as int] == x);
            }
        }
        return;
    }
    proof {
        if p < before.len() {
            lemma_text_less_total(before[p as int], t@);
        }
    }
    list.insert(p, t.clone());
    let ghost after = strings_view(list@);
    assert(after =~= before.insert(p as int, t@));
    assert forall|i: int| 0 <= i < after.len() - 1 implies text_less(#[trigger] after[i], after[i + 1]) by {
        if i < p - 1 {
            assert(after[i] == before[i] && after[i + 1] == before[i + 1]);
        } else if i == p - 1 {
            assert(after[i] == before[i]);
        } else if i == p {
            assert(after[i + 1] == before[p as int]);
        } else {
            assert(after[i] == before[i - 1] && after[i + 1] == before[i]);
        }
    }
    assert forall|x: Seq<char>| after.contains(x) <==> (before.contains(x) || x == t@) by {
        if after.contains(x) {
            let i = choose|i: int| 0 <= i < after.len() && after[i] == x;
            if i < p {
                assert(before[i] == x);
            } else if i > p {
                assert(before[i - 1] == x);
            }
        }
        if before.contains(x) {
            let i = choose|i: int| 0 <= i < before.len() && before[i] == x;
            if i < p {
                assert(after[i] == x);
            } else {
                assert(after[i + 1] == x);
            }
        }
        if x == t@ {
            assert(after[p as int] == x);
        }
    }
}

/// Texts joined by `, `.
pub open spec fn joined(s: Seq<Seq<char>>) -> Seq<char>
    decreases s.len(),
{
    if s.len() == 0 {
        Seq::empty()
    } else if s.len() == 1 {
        s[0]
    } else {
        joined(s.drop_last()) + seq![',', ' '] + s.last()
    }
}

/// Whether some package plans the tag `t`.
pub open spec fn tag_planned(pkgs: Seq<PackageRelease>, t: Seq<char>) -> bool {
    exists|i: int| 0 <= i < pkgs.len() && str_opt(#[trigger] pkgs[i].planned_tag) == Some(t)
}

/// The tags that the packages plan, each once, in lexicographic order,
/// joined by `, ` for display before tagging.
pub fn show_status(pkgs: &[PackageRelease]) -> (r: String)
    ensures
        exists|s: Seq<Seq<char>>|
            #![trigger joined(s)]
            strictly_sorted(s) && (forall|x: Seq<char>| #[trigger]
                s.contains(x) <==> tag_planned(pkgs@, x)) && r@ == joined(s),
{
    let mut list: Vec<String> = Vec::new();
    let mut k: usize = 0;
    while k < pkgs.len()
        invariant
            k <= pkgs@.len(),
            strictly_sorted(strings_view(list@)),
            forall|x: Seq<char>|
                #![trigger strings_view(list@).contains(x)]
                strings_view(list@).contains(x) <==> tag_seen(pkgs@, k as int, x),
        decreases pkgs@.len() - k,
    {
        let ghost prev = strings_view(list@);
        if let Some(t) = &pkgs[k].planned_tag {
            insert_sorted(&mut list, t);
        }
        assert forall|x: Seq<char>|
            #![trigger strings_view(list@).contains(x)]
            strings_view(list@).contains(x) <==> tag_seen(pkgs@, k + 1, x) by {
            assert(prev.contains(x) <==> tag_seen(pkgs@, k as int, x));
            if tag_seen(pkgs@, k + 1, x) {
                let i = choose|i: int|
                    0 <= i < k + 1 && str_opt(#[trigger] pkgs@[i].planned_tag) == Some(x);
                if i < k {
                    assert(tag_seen(pkgs@, k as int, x));
                }
            }
            if tag_seen(pkgs@, k as int, x) {
                let i = choose|i: int|
                    0 <= i < k && str_opt(#[trigger] pkgs@[i].planned_tag) == Some(x);
                assert(0 <= i < k + 1 && str_opt(pkgs@[i].planned_tag) == Some(x));
            }
        }
        k += 1;
    }
    let mut out = String::new();
    let mut i: usize = 0;
    while i < list.len()
        invariant
            i <= list@.len(),
            out@ == joined(strings_view(list@).subrange(0, i as int)),
        decreases list@.len() - i,
    {
        proof {
            reveal_strlit(", ");
        }
        if i > 0 {
            out.append(", ");
        }
        out.append(list[i].as_str());
        assert(strings_view(list@).subrange(0, i + 1).drop_last() =~= strings_view(list@).subrange(
            0,
            i as int,
        ));
        i += 1;
    }
    assert(strings_view(list@).subrange(0, i as int) =~= strings_view(list@));
    let ghost s = strings_view(list@);
    assert forall|x: Seq<char>| #[trigger] s.contains(x) <==> tag_planned(pkgs@, x) by {
        assert(s.contains(x) <==> tag_seen(pkgs@, pkgs@.len() as int, x));
    }
    out
}

} // verus!
