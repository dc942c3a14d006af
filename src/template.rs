use vstd::prelude::*;

use crate::config::str_opt;
use crate::text::{occurs_at, occurs_at_exec};

verus! {

/// The values that a template's placeholders stand for; an unset value
/// renders as the empty string.
#[derive(Debug, Clone)]
pub struct Template {
    pub prev_version: Option<String>,
    pub prev_metadata: Option<String>,
    pub version: Option<String>,
    pub metadata: Option<String>,
    pub crate_name: Option<String>,
    pub date: Option<String>,
    pub tag_name: Option<String>,
    pub prefix: Option<String>,
    pub next_version: Option<String>,
}

/// The text that each placeholder renders as.
pub ghost struct TemplateView {
    pub prev_version: Seq<char>,
    pub prev_metadata: Seq<char>,
    pub version: Seq<char>,
    pub metadata: Seq<char>,
    pub crate_name: Seq<char>,
    pub date: Seq<char>,
    pub tag_name: Seq<char>,
    pub prefix: Seq<char>,
    pub next_version: Seq<char>,
}

impl View for Template {
    type V = TemplateView;

    open spec fn view(&self) -> TemplateView {
        TemplateView {
            prev_version: str_opt(self.prev_version).unwrap_or(Seq::empty()),
            prev_metadata: str_opt(self.prev_metadata).unwrap_or(Seq::empty()),
            version: str_opt(self.version).unwrap_or(Seq::empty()),
            metadata: str_opt(self.metadata).unwrap_or(Seq::empty()),
            crate_name: str_opt(self.crate_name).unwrap_or(Seq::empty()),
            date: str_opt(self.date).unwrap_or(Seq::empty()),
            tag_name: str_opt(self.tag_name).unwrap_or(Seq::empty()),
            prefix: str_opt(self.prefix).unwrap_or(Seq::empty()),
            next_version: str_opt(self.next_version).unwrap_or(Seq::empty()),
        }
    }
}

/// The placeholder that starts at position `i` of `t`, as its length and
/// the text it renders as.
pub open spec fn placeholder_at(v: TemplateView, t: Seq<char>, i: int) -> Option<(nat, Seq<char>)> {
    if occurs_at(t, i, "{{version}}"@) {
        Some(("{{version}}"@.len(), v.version))
    } else if occurs_at(t, i, "{{prev-version}}"@) {
        Some(("{{prev-version}}"@.len(), v.prev_version))
    } else if occurs_at(t, i, "{{metadata}}"@) {
        Some(("{{metadata}}"@.len(), v.metadata))
    } else if occurs_at(t, i, "{{prev-metadata}}"@) {
        Some(("{{prev-metadata}}"@.len(), v.prev_metadata))
    } else if occurs_at(t, i, "{{crate_name}}"@) {
        Some(("{{crate_name}}"@.len(), v.crate_name))
    } else if occurs_at(t, i, "{{tag_name}}"@) {
        Some(("{{tag_name}}"@.len(), v.tag_name))
    } else if occurs_at(t, i, "{{date}}"@) {
        Some(("{{date}}"@.len(), v.date))
    } else if occurs_at(t, i, "{{prefix}}"@) {
        Some(("{{prefix}}"@.len(), v.prefix))
    } else if occurs_at(t, i, "{{next_version}}"@) {
        Some(("{{next_version}}"@.len(), v.next_version))
    } else {
        None
    }
}

/// `t` from position `i` on, read left to right: each placeholder is
/// replaced by its value, every other character is kept.
pub open spec fn render_from(v: TemplateView, t: Seq<char>, i: int) -> Seq<char>
    decreases t.len() - i,
{
    if i < 0 || i >= t.len() {
        Seq::empty()
    } else {
        match placeholder_at(v, t, i) {
            Some((n, value)) => if n > 0 {
                value + render_from(v, t, i + n)
            } else {
                seq![t[i]] + render_from(v, t, i + 1)
            },
            None => seq![t[i]] + render_from(v, t, i + 1),
        }
    }
}

pub open spec fn render_text(v: TemplateView, t: Seq<char>) -> Seq<char> {
    render_from(v, t, 0)
}

fn value_of(o: &Option<String>) -> (r: &str)
    ensures
        r@ == str_opt(*o).unwrap_or(Seq::empty()),
{
    proof {
        reveal_strlit("");
    }
    match o {
        Some(s) => s.as_str(),
        None => "",
    }
}

impl Template {
    fn placeholder_exec(&self, t: &str, len: usize, i: usize) -> (r: Option<(usize, &str)>)
        requires
            len == t@.len(),
            i < len,
        ensures
            match placeholder_at(self@, t@, i as int) {
                Some((n, value)) => r matches Some((m, s)) && m == n && s@ == value,
                None => r is None,
            },
    {
        if occurs_at_exec(t, len, i, "{{version}}") {
            Some(("{{version}}".unicode_len(), value_of(&self.version)))
        } else if occurs_at_exec(t, len, i, "{{prev-version}}") {
            Some(("{{prev-version}}".unicode_len(), value_of(&self.prev_version)))
        } else if occurs_at_exec(t, len, i, "{{metadata}}") {
            Some(("{{metadata}}".unicode_len(), value_of(&self.metadata)))
        } else if occurs_at_exec(t, len, i, "{{prev-metadata}}") {
            Some(("{{prev-metadata}}".unicode_len(), value_of(&self.prev_metadata)))
        } else if occurs_at_exec(t, len, i, "{{crate_name}}") {
            Some(("{{crate_name}}".unicode_len(), value_of(&self.crate_name)))
        } else if occurs_at_exec(t, len, i, "{{tag_name}}") {
            Some(("{{tag_name}}".unicode_len(), value_of(&self.tag_name)))
        } else if occurs_at_exec(t, len, i, "{{date}}") {
            Some(("{{date}}".unicode_len(), value_of(&self.date)))
        } else if occurs_at_exec(t, len, i, "{{prefix}}") {
            Some(("{{prefix}}".unicode_len(), value_of(&self.prefix)))
        } else if occurs_at_exec(t, len, i, "{{next_version}}") {
            Some(("{{next_version}}".unicode_len(), value_of(&self.next_version)))
        } else {
            None
        }
    }

    /// Renders `template`: each recognised placeholder is replaced by its
    /// value (empty when unset), all other text is kept as it is.
    pub fn render(&self, template: &str) -> (r: String)
        ensures
            r@ == render_text(self@, template@),
    {
        let len = template.unicode_len();
        let mut out = String::new();
        let mut i: usize = 0;
        while i < len
            invariant
                len == template@.len(),
                i <= len,
                out@ + render_from(self@, template@, i as int) == render_text(self@, template@),
            decreases len - i,
        {
            match self.placeholder_exec(template, len, i) {
                Some((n, value)) => {
                    if n > 0 {
                        out.append(value);
                        i = i + n;
                    } else {
                        out.append(template.substring_char(i, i + 1));
                        i = i + 1;
                    }
                },
                None => {
                    out.append(template.substring_char(i, i + 1));
                    i = i + 1;
                },
            }
            assert(out@ + render_from(self@, template@, i as int) =~= render_text(self@, template@));
        }
        assert(out@ =~= out@ + render_from(self@, template@, i as int));
        out
    }
}

} // verus!
