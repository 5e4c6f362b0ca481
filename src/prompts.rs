//! Prompt templates: choosing a source and filling the palette placeholder.

use vstd::prelude::*;
use crate::text::{
    chars_of, is_space, is_space_char, matches_at, occurs_at, push_range, replace_spec,
    replace_str, string_of, trim, trim_spec,
};

verus! {

broadcast use vstd::string::group_string_axioms;

/// `content` with the palette placeholder replaced by `css_root`.
pub open spec fn placeholders_filled(content: Seq<char>, css_root: Seq<char>) -> Seq<char> {
    replace_spec(content, "{{ @css_root }}"@, css_root)
}

/// Fills the palette placeholder `{{ @css_root }}` of a template.
pub fn process_prompt_placeholders(content: &str, css_root: &str) -> (r: String)
    ensures
        r@ == placeholders_filled(content@, css_root@),
{
    proof {
        reveal_strlit("{{ @css_root }}");
    }
    replace_str(content, "{{ @css_root }}", css_root)
}

/// The first text of `files` that is not empty.
pub open spec fn first_nonempty(files: Seq<Seq<char>>) -> Option<Seq<char>>
    decreases files.len(),
{
    if files.len() == 0 {
        None
    } else if files[0].len() > 0 {
        Some(files[0])
    } else {
        first_nonempty(files.drop_first())
    }
}

/// The template to use: the setting where it is not empty, else the first
/// file that is not empty, with the palette filled in.
pub open spec fn prompt_from(
    setting: Option<Seq<char>>,
    files: Seq<Seq<char>>,
    css_root: Seq<char>,
) -> Option<Seq<char>> {
    if setting is Some && setting->0.len() > 0 {
        Some(placeholders_filled(setting->0, css_root))
    } else {
        match first_nonempty(files) {
            Some(f) => Some(placeholders_filled(f, css_root)),
            None => None,
        }
    }
}

/// Chooses a template from its setting and, failing that, from the texts of
/// its candidate files in the order they are tried.
pub fn get_prompt(setting: Option<&str>, files: &Vec<String>, css_root: &str) -> (r: Option<String>)
    ensures
        r.deep_view() == prompt_from(
            match setting {
                Some(s) => Some(s@),
                None => None,
            },
            files.deep_view(),
            css_root@,
        ),
{
    match setting {
        Some(s) => {
            if !s.is_empty() {
                return Some(process_prompt_placeholders(s, css_root));
            }
        },
        None => {},
    }
    let ghost fs = files.deep_view();
    let mut i: usize = 0;
    assert(fs.subrange(0, fs.len() as int) =~= fs);
    while i < files.len()
        invariant
            i <= files.len(),
            setting matches Some(st) ==> st@.len() == 0,
            fs == files.deep_view(),
            first_nonempty(fs) == first_nonempty(fs.subrange(i as int, fs.len() as int)),
        decreases files.len() - i,
    {
        let ghost rest = fs.subrange(i as int, fs.len() as int);
        assert(rest.drop_first() =~= fs.subrange(i + 1, fs.len() as int));
        assert(rest[0] == files[i as int]@);
        if !files[i].as_str().is_empty() {
            return Some(process_prompt_placeholders(files[i].as_str(), css_root));
        }
        i = i + 1;
    }
    assert(fs.subrange(i as int, fs.len() as int) =~= Seq::<Seq<char>>::empty());
    None
}

pub open spec fn root_selector() -> Seq<char> {
    seq![':', 'r', 'o', 'o', 't']
}

/// A `:root` rule at `p`: white space up to the brace at `b`, then at least
/// one character up to the first closing brace, at `c`.
pub open spec fn root_rule_at(s: Seq<char>, p: int, b: int, c: int) -> bool {
    &&& occurs_at(s, root_selector(), p)
    &&& p + 5 <= b
    &&& b + 2 <= c < s.len()
    &&& forall|m: int| p + 5 <= m < b ==> is_space(s[m])
    &&& s[b] == '{'
    &&& s[c] == '}'
    &&& forall|m: int| b < m < c ==> s[m] != '}'
}

/// The first `:root` rule of `s`.
pub open spec fn first_root_rule(s: Seq<char>, p: int, b: int, c: int) -> bool {
    root_rule_at(s, p, b, c) && forall|p2: int, b2: int, c2: int|
        p2 < p ==> !root_rule_at(s, p2, b2, c2)
}

/// The trimmed declarations of the first `:root` rule of a style sheet.
pub open spec fn css_root_spec(s: Seq<char>) -> Option<Seq<char>> {
    if exists|p: int, b: int, c: int| first_root_rule(s, p, b, c) {
        let (p, b, c) = choose|p: int, b: int, c: int| first_root_rule(s, p, b, c);
        Some(trim_spec(s.subrange(b + 1, c)))
    } else {
        None
    }
}

proof fn lemma_root_rule_unique(s: Seq<char>, p: int, b: int, c: int, p2: int, b2: int, c2: int)
    requires
        first_root_rule(s, p, b, c),
        first_root_rule(s, p2, b2, c2),
    ensures
        p == p2 && b == b2 && c == c2,
{
    if p < p2 {
        assert(!root_rule_at(s, p, b, c));
    }
    if p2 < p {
        assert(!root_rule_at(s, p2, b2, c2));
    }
    if b < b2 {
        assert(is_space(s[b]));
    }
    if b2 < b {
        assert(is_space(s[b2]));
    }
    if c < c2 {
        assert(s[c] != '}');
    }
    if c2 < c {
        assert(s[c2] != '}');
    }
}

proof fn lemma_css_root_is(s: Seq<char>, p: int, b: int, c: int)
    requires
        first_root_rule(s, p, b, c),
    ensures
        css_root_spec(s) == Some(trim_spec(s.subrange(b + 1, c))),
{
    let (p2, b2, c2) = choose|p2: int, b2: int, c2: int| first_root_rule(s, p2, b2, c2);
    lemma_root_rule_unique(s, p, b, c, p2, b2, c2);
}

/// The trimmed declarations of the first `:root { ... }` rule of a style
/// sheet, the palette that templates quote.
pub fn css_root_of(css: &str) -> (r: Option<String>)
    ensures
        r.deep_view() == css_root_spec(css@),
{
    let s = chars_of(css);
    let sel: Vec<char> = vec![':', 'r', 'o', 'o', 't'];
    assert(sel@ =~= root_selector());
    let mut p: usize = 0;
    while p < s.len()
        invariant
            p <= s.len(),
            s@ == css@,
            sel@ == root_selector(),
            forall|p2: int, b2: int, c2: int| p2 < p ==> !root_rule_at(s@, p2, b2, c2),
        decreases s.len() - p,
    {
        if matches_at(&s, &sel, p) {
            let mut b: usize = p + 5;
            while b < s.len() && is_space_char(s[b])
                invariant
                    p + 5 <= b <= s.len(),
                    forall|m: int| p + 5 <= m < b ==> is_space(s@[m]),
                decreases s.len() - b,
            {
                b = b + 1;
            }
            if b < s.len() && s[b] == '{' {
                let mut c: usize = b + 1;
                while c < s.len() && s[c] != '}'
                    invariant
                        b < c <= s.len(),
                        forall|m: int| b < m < c ==> s@[m] != '}',
                    decreases s.len() - c,
                {
                    c = c + 1;
                }
                if c < s.len() && c >= b + 2 {
                    assert(root_rule_at(s@, p as int, b as int, c as int));
                    assert(first_root_rule(s@, p as int, b as int, c as int));
                    proof {
                        lemma_css_root_is(s@, p as int, b as int, c as int);
                    }
                    let mut body: Vec<char> = Vec::new();
                    push_range(&mut body, &s, b + 1, c);
                    assert(body@ =~= s@.subrange(b + 1, c as int));
                    let t = trim(&body);
                    return Some(string_of(&t));
                }
                assert forall|b2: int, c2: int| !root_rule_at(s@, p as int, b2, c2) by {
                    if root_rule_at(s@, p as int, b2, c2) {
                        if b2 < b {
                            assert(is_space(s@[b2]));
                        }
                        if b < b2 {
                            assert(is_space(s@[b as int]));
                        }
                        if c2 < c {
                        } else if c < s.len() {
                            assert(s@[c as int] != '}');
                        }
                    }
                }
            } else {
                assert forall|b2: int, c2: int| !root_rule_at(s@, p as int, b2, c2) by {
                    if root_rule_at(s@, p as int, b2, c2) {
                        if b2 < b {
                            assert(is_space(s@[b2]));
                        }
                        if b < b2 {
                            assert(is_space(s@[b as int]));
                        }
                    }
                }
            }
        }
        p = p + 1;
    }
    None
}

} // verus!
