//! Fenced code blocks in generated text.
//!
//! A block of language `lang` is the fence ```` ```lang ````, white space
//! that ends in a newline, the body, and a newline followed by ```` ``` ````.
//! Among the blocks, the one taken is the one whose fence comes first; after
//! the fence it takes the most white space it can and then the shortest body.

use vstd::prelude::*;
use crate::text::{
    chars_of, find_from, has_sub, is_space, is_space_char, matches_at, occurs_at, string_of, trim,
    trim_end_spec, trim_spec, trim_start_spec,
};

verus! {

pub open spec fn fence(lang: Seq<char>) -> Seq<char> {
    seq!['`', '`', '`'] + lang
}

pub open spec fn closing() -> Seq<char> {
    seq!['\n', '`', '`', '`']
}

/// A block with fence `f` at `p`, its body starting after `k` characters of
/// white space and a newline, and its closing line at `e`.
pub open spec fn block_match(s: Seq<char>, f: Seq<char>, p: int, k: int, e: int) -> bool {
    let a = p + f.len();
    &&& occurs_at(s, f, p)
    &&& 0 <= k
    &&& a + k < s.len()
    &&& s[a + k] == '\n'
    &&& forall|m: int| a <= m < a + k ==> is_space(s[m])
    &&& a + k + 1 <= e
    &&& occurs_at(s, closing(), e)
}

/// The block taken: earliest fence, then most white space, then shortest body.
pub open spec fn first_match(s: Seq<char>, f: Seq<char>, p: int, k: int, e: int) -> bool {
    &&& block_match(s, f, p, k, e)
    &&& forall|p2: int, k2: int, e2: int| p2 < p ==> !block_match(s, f, p2, k2, e2)
    &&& forall|k2: int, e2: int| k2 > k ==> !block_match(s, f, p, k2, e2)
    &&& forall|e2: int| e2 < e ==> !block_match(s, f, p, k, e2)
}

/// Body of the block of language `lang` taken from `s`, if any.
pub open spec fn fenced_body(s: Seq<char>, lang: Seq<char>) -> Option<Seq<char>> {
    if exists|p: int, k: int, e: int| first_match(s, fence(lang), p, k, e) {
        let (p, k, e) = choose|p: int, k: int, e: int| first_match(s, fence(lang), p, k, e);
        Some(s.subrange(p + fence(lang).len() + k + 1, e))
    } else {
        None
    }
}

/// The trimmed body of the block of language `lang`; none where there is no
/// such block or its body is only white space.
pub open spec fn extracted(s: Seq<char>, lang: Seq<char>) -> Option<Seq<char>> {
    match fenced_body(s, lang) {
        Some(b) => if trim_spec(b).len() > 0 {
            Some(trim_spec(b))
        } else {
            None
        },
        None => None,
    }
}

proof fn lemma_first_match_unique(
    s: Seq<char>,
    f: Seq<char>,
    p: int,
    k: int,
    e: int,
    p2: int,
    k2: int,
    e2: int,
)
    requires
        first_match(s, f, p, k, e),
        first_match(s, f, p2, k2, e2),
    ensures
        p == p2 && k == k2 && e == e2,
{
    if p < p2 {
        assert(!block_match(s, f, p, k, e));
    }
    if p2 < p {
        assert(!block_match(s, f, p2, k2, e2));
    }
    if k < k2 {
        assert(!block_match(s, f, p, k2, e2));
    }
    if k2 < k {
        assert(!block_match(s, f, p, k, e));
    }
    if e < e2 {
        assert(!block_match(s, f, p, k, e));
    }
    if e2 < e {
        assert(!block_match(s, f, p, k, e2));
    }
}

/// The block `(p, k, e)`, found as the first one, is the one `fenced_body` takes.
proof fn lemma_fenced_body_is(s: Seq<char>, lang: Seq<char>, p: int, k: int, e: int)
    requires
        first_match(s, fence(lang), p, k, e),
    ensures
        fenced_body(s, lang) == Some(s.subrange(p + fence(lang).len() + k + 1, e)),
{
    let (p2, k2, e2) = choose|p2: int, k2: int, e2: int| first_match(s, fence(lang), p2, k2, e2);
    lemma_first_match_unique(s, fence(lang), p, k, e, p2, k2, e2);
}

/// Finds the first block with fence `f`: the index of its fence, the length
/// of the white space before the newline that opens it, and the index of its
/// closing line.
fn find_block(s: &Vec<char>, f: &Vec<char>) -> (r: Option<(usize, usize, usize)>)
    ensures
        r matches Some((p, k, e)) ==> first_match(s@, f@, p as int, k as int, e as int),
        r is None ==> forall|p: int, k: int, e: int| !block_match(s@, f@, p, k, e),
{
    let close: Vec<char> = vec!['\n', '`', '`', '`'];
    assert(close@ =~= closing());
    let mut p: usize = 0;
    while p < s.len()
        invariant
            p <= s.len(),
            close@ == closing(),
            forall|p2: int, k2: int, e2: int| p2 < p ==> !block_match(s@, f@, p2, k2, e2),
        decreases s.len() - p,
    {
        if matches_at(s, f, p) {
            let a = p + f.len();
            let mut w: usize = 0;
            while a + w < s.len() && is_space_char(s[a + w])
                invariant
                    a == p + f@.len(),
                    a <= s.len(),
                    a + w <= s.len(),
                    forall|m: int| a <= m < a + w ==> is_space(s@[m]),
                decreases s.len() - (a + w),
            {
                w = w + 1;
            }
            let mut kk: usize = w;
            while kk > 0
                invariant
                    a == p + f@.len(),
                    occurs_at(s@, f@, p as int),
                    kk <= w,
                    a + w <= s.len(),
                    close@ == closing(),
                    forall|m: int| a <= m < a + w ==> is_space(s@[m]),
                    a + w == s.len() || !is_space(s@[a + w as int]),
                    forall|p2: int, k2: int, e2: int| p2 < p ==> !block_match(s@, f@, p2, k2, e2),
                    forall|k2: int, e2: int| k2 >= kk ==> !block_match(s@, f@, p as int, k2, e2),
                decreases kk,
            {
                let k = kk - 1;
                if s[a + k] == '\n' {
                    match find_from(s, &close, a + k + 1) {
                        Some(e) => {
                            assert(block_match(s@, f@, p as int, k as int, e as int));
                            assert(first_match(s@, f@, p as int, k as int, e as int));
                            return Some((p, k, e));
                        },
                        None => {},
                    }
                }
                kk = k;
            }
            assert forall|k2: int, e2: int| !block_match(s@, f@, p as int, k2, e2) by {
                if k2 >= w && block_match(s@, f@, p as int, k2, e2) {
                    if k2 > w {
                        assert(is_space(s@[a + w as int]));
                    } else {
                        assert(s@[a + w as int] == '\n');
                    }
                }
            }
        }
        p = p + 1;
    }
    None
}

/// The trimmed body of the first fenced block of `language` in `text`; none
/// where there is no such block or its body is blank.
pub fn extract_block(text: &str, language: &str) -> (r: Option<String>)
    ensures
        r.deep_view() == extracted(text@, language@),
{
    let s = chars_of(text);
    let lang = chars_of(language);
    let mut f: Vec<char> = vec!['`', '`', '`'];
    let mut l2 = lang.clone();
    f.append(&mut l2);
    assert(f@ =~= fence(language@));
    match find_block(&s, &f) {
        Some((p, k, e)) => {
            let q = p + f.len() + k + 1;
            proof {
                lemma_fenced_body_is(text@, language@, p as int, k as int, e as int);
            }
            let mut body: Vec<char> = Vec::new();
            let mut i = q;
            while i < e
                invariant
                    q <= i <= e <= s.len(),
                    body@ == s@.subrange(q as int, i as int),
                decreases e - i,
            {
                body.push(s[i]);
                i = i + 1;
                assert(body@ =~= s@.subrange(q as int, i as int));
            }
            let t = trim(&body);
            if t.len() > 0 {
                Some(string_of(&t))
            } else {
                None
            }
        },
        None => {
            assert(!exists|p: int, k: int, e: int| first_match(s@, fence(language@), p, k, e));
            None
        },
    }
}

/// The HTML, CSS and script blocks of `text`; the script block is the
/// `javascript` one, or else the `js` one.
pub fn extract_code_blocks(text: &str) -> (r: (Option<String>, Option<String>, Option<String>))
    ensures
        r.0.deep_view() == extracted(text@, "html"@),
        r.1.deep_view() == extracted(text@, "css"@),
        r.2.deep_view() == match extracted(text@, "javascript"@) {
            Some(b) => Some(b),
            None => extracted(text@, "js"@),
        },
{
    let html = extract_block(text, "html");
    let css = extract_block(text, "css");
    let js = match extract_block(text, "javascript") {
        Some(b) => Some(b),
        None => extract_block(text, "js"),
    };
    (html, css, js)
}

proof fn lemma_lowest_fence(s: Seq<char>, f: Seq<char>, p0: int, k0: int, e0: int) -> (r: (
    int,
    int,
    int,
))
    requires
        block_match(s, f, p0, k0, e0),
    ensures
        block_match(s, f, r.0, r.1, r.2),
        forall|p2: int, k2: int, e2: int| p2 < r.0 ==> !block_match(s, f, p2, k2, e2),
    decreases p0,
{
    if exists|p2: int, k2: int, e2: int| p2 < p0 && block_match(s, f, p2, k2, e2) {
        let (p2, k2, e2) = choose|p2: int, k2: int, e2: int| p2 < p0 && block_match(s, f, p2, k2, e2);
        lemma_lowest_fence(s, f, p2, k2, e2)
    } else {
        (p0, k0, e0)
    }
}

proof fn lemma_widest_space(s: Seq<char>, f: Seq<char>, p: int, k0: int, e0: int) -> (r: (int, int))
    requires
        block_match(s, f, p, k0, e0),
    ensures
        block_match(s, f, p, r.0, r.1),
        forall|k2: int, e2: int| k2 > r.0 ==> !block_match(s, f, p, k2, e2),
    decreases s.len() - k0,
{
    if exists|k2: int, e2: int| k2 > k0 && block_match(s, f, p, k2, e2) {
        let (k2, e2) = choose|k2: int, e2: int| k2 > k0 && block_match(s, f, p, k2, e2);
        lemma_widest_space(s, f, p, k2, e2)
    } else {
        (k0, e0)
    }
}

proof fn lemma_nearest_close(s: Seq<char>, f: Seq<char>, p: int, k: int, e0: int) -> (e: int)
    requires
        block_match(s, f, p, k, e0),
    ensures
        block_match(s, f, p, k, e),
        forall|e2: int| e2 < e ==> !block_match(s, f, p, k, e2),
    decreases e0,
{
    if exists|e2: int| e2 < e0 && block_match(s, f, p, k, e2) {
        let e2 = choose|e2: int| e2 < e0 && block_match(s, f, p, k, e2);
        lemma_nearest_close(s, f, p, k, e2)
    } else {
        e0
    }
}

/// Where any block is found, a first one is.
proof fn lemma_first_exists(s: Seq<char>, f: Seq<char>, p0: int, k0: int, e0: int) -> (r: (
    int,
    int,
    int,
))
    requires
        block_match(s, f, p0, k0, e0),
    ensures
        first_match(s, f, r.0, r.1, r.2),
{
    let (p, k1, e1) = lemma_lowest_fence(s, f, p0, k0, e0);
    let (k, e2) = lemma_widest_space(s, f, p, k1, e1);
    let e = lemma_nearest_close(s, f, p, k, e2);
    (p, k, e)
}

/// Leading white space does not change what trimming leaves.
proof fn lemma_trim_skips_space(w: Seq<char>, c: Seq<char>)
    requires
        forall|i: int| 0 <= i < w.len() ==> is_space(w[i]),
    ensures
        trim_spec(w + c) == trim_spec(c),
    decreases w.len(),
{
    if w.len() == 0 {
        assert(w + c =~= c);
    } else {
        assert((w + c).drop_first() =~= w.drop_first() + c);
        lemma_trim_skips_space(w.drop_first(), c);
    }
}

pub open spec fn no_backquote(x: Seq<char>) -> bool {
    forall|i: int| 0 <= i < x.len() ==> x[i] != '`'
}

/// Text without a fence for `lang` yields no block of that language.
pub proof fn lemma_no_fence_not_found(s: Seq<char>, lang: Seq<char>)
    requires
        !has_sub(s, fence(lang)),
    ensures
        extracted(s, lang) is None,
{
    assert forall|p: int, k: int, e: int| !first_match(s, fence(lang), p, k, e) by {
        if first_match(s, fence(lang), p, k, e) {
            assert(occurs_at(s, fence(lang), p));
        }
    }
}

/// `s` is `a`, the fence `f` at `pp`, a newline, `body`, the closing line
/// at `ee`, then `b`.
spec fn laid_out(s: Seq<char>, a: Seq<char>, f: Seq<char>, body: Seq<char>, b: Seq<char>, pp: int, ee: int) -> bool {
    &&& pp == a.len()
    &&& ee == pp + f.len() + 1 + body.len()
    &&& s.len() == ee + 4 + b.len()
    &&& f.len() >= 3 && f[0] == '`'
    &&& s.subrange(pp, pp + f.len()) == f
    &&& s[pp + f.len()] == '\n'
    &&& s.subrange(pp + f.len() + 1, ee) == body
    &&& s.subrange(ee, ee + 4) == closing()
    &&& forall|i: int| 0 <= i < pp ==> s[i] == a[i]
    &&& forall|i: int| 0 <= i < b.len() ==> s[ee + 4 + i] == b[i]
}

proof fn lemma_lay_out(a: Seq<char>, lang: Seq<char>, body: Seq<char>, b: Seq<char>)
    ensures
        laid_out(
            a + fence(lang) + seq!['\n'] + body + closing() + b,
            a,
            fence(lang),
            body,
            b,
            a.len() as int,
            (a.len() + fence(lang).len() + 1 + body.len()) as int,
        ),
{
    let f = fence(lang);
    let s = a + f + seq!['\n'] + body + closing() + b;
    let pp = a.len() as int;
    let aa = pp + f.len();
    let ee = aa + 1 + body.len();
    assert(s.subrange(pp, aa) =~= f);
    assert(s.subrange(aa + 1, ee) =~= body);
    assert(s.subrange(ee, ee + 4) =~= closing());
    assert forall|i: int| 0 <= i < pp implies s[i] == a[i] by {}
    assert forall|i: int| 0 <= i < b.len() implies s[ee + 4 + i] == b[i] by {}
}

/// No closing line starts after the block's own closing line.
proof fn lemma_no_later_close(s: Seq<char>, a: Seq<char>, f: Seq<char>, body: Seq<char>, b: Seq<char>, pp: int, ee: int, e: int)
    requires
        laid_out(s, a, f, body, b, pp, ee),
        no_backquote(b),
        e > ee,
    ensures
        !occurs_at(s, closing(), e),
{
    if occurs_at(s, closing(), e) {
        assert(s.subrange(e, e + 4)[0] == s[e]);
        assert(s.subrange(e, e + 4)[1] == s[e + 1]);
        if e < ee + 4 {
            assert(s.subrange(ee, ee + 4)[e - ee] == s[e]);
        } else {
            assert(s[e + 1] == b[e + 1 - (ee + 4)]);
        }
    }
}

/// No closing line starts inside the body.
proof fn lemma_no_inner_close(s: Seq<char>, a: Seq<char>, f: Seq<char>, body: Seq<char>, b: Seq<char>, pp: int, ee: int, e: int)
    requires
        laid_out(s, a, f, body, b, pp, ee),
        !has_sub(body, closing()),
        pp + f.len() + 1 <= e < ee,
    ensures
        !occurs_at(s, closing(), e),
{
    let aa = pp + f.len();
    if occurs_at(s, closing(), e) {
        if e + 4 <= ee {
            assert(body.subrange(e - aa - 1, e - aa + 3) =~= s.subrange(e, e + 4));
            assert(occurs_at(body, closing(), e - aa - 1));
        } else {
            assert(s.subrange(e, e + 4)[ee - e] == s[ee]);
            assert(s.subrange(ee, ee + 4)[0] == s[ee]);
        }
    }
}

/// The first block of such a text is the block itself.
proof fn lemma_first_is_the_block(s: Seq<char>, a: Seq<char>, f: Seq<char>, body: Seq<char>, b: Seq<char>, pp: int, ee: int, p: int, k: int, e: int)
    requires
        laid_out(s, a, f, body, b, pp, ee),
        no_backquote(a),
        no_backquote(b),
        !has_sub(body, closing()),
        first_match(s, f, p, k, e),
    ensures
        p == pp,
        e == ee,
        pp + f.len() + k < ee,
{
    let aa = pp + f.len();
    assert(block_match(s, f, pp, 0, ee));
    if p < pp {
        assert(s.subrange(p, p + f.len())[0] == s[p]);
        assert(s[p] == a[p]);
    }
    assert(p == pp);
    if aa + k >= ee {
        if aa + k == ee {
            lemma_no_later_close(s, a, f, body, b, pp, ee, e);
        } else {
            assert(s.subrange(ee, ee + 4)[1] == s[ee + 1]);
            if ee + 1 < aa + k {
                assert(is_space(s[ee + 1]));
            }
        }
    }
    assert(block_match(s, f, pp, k, ee));
    if e < ee {
        lemma_no_inner_close(s, a, f, body, b, pp, ee, e);
    }
}

proof fn lemma_block_at(s: Seq<char>, a: Seq<char>, f: Seq<char>, body: Seq<char>, b: Seq<char>, pp: int, ee: int)
    requires
        laid_out(s, a, f, body, b, pp, ee),
    ensures
        block_match(s, f, pp, 0, ee),
{
}

/// Trimming the text after the white space that opens the block gives the
/// trimmed body.
proof fn lemma_body_trim(s: Seq<char>, a: Seq<char>, f: Seq<char>, body: Seq<char>, b: Seq<char>, pp: int, ee: int, k: int)
    requires
        laid_out(s, a, f, body, b, pp, ee),
        0 <= k,
        pp + f.len() + k < ee,
        s[pp + f.len() + k] == '\n',
        forall|m: int| pp + f.len() <= m < pp + f.len() + k ==> is_space(s[m]),
    ensures
        trim_spec(s.subrange(pp + f.len() + k + 1, ee)) == trim_spec(body),
{
    let aa = pp + f.len();
    let c = s.subrange(aa + k + 1, ee);
    let w = s.subrange(aa + 1, aa + k + 1);
    assert forall|i: int| 0 <= i < w.len() implies is_space(w[i]) by {
        assert(w[i] == s[aa + 1 + i]);
    }
    assert(body =~= w + c);
    lemma_trim_skips_space(w, c);
}

/// A text holding exactly one block of `lang`, with no backquote before or
/// after it and no closing line inside its body, yields that block's body
/// trimmed; a blank body counts as not found.
pub proof fn lemma_single_block(a: Seq<char>, lang: Seq<char>, body: Seq<char>, b: Seq<char>)
    requires
        no_backquote(a),
        no_backquote(b),
        !has_sub(body, closing()),
    ensures
        extracted(a + fence(lang) + seq!['\n'] + body + closing() + b, lang) == if trim_spec(
            body,
        ).len() > 0 {
            Some(trim_spec(body))
        } else {
            None
        },
{
    let f = fence(lang);
    let s = a + f + seq!['\n'] + body + closing() + b;
    let pp = a.len() as int;
    let ee = (a.len() + f.len() + 1 + body.len()) as int;
    lemma_lay_out(a, lang, body, b);
    lemma_block_at(s, a, f, body, b, pp, ee);
    let (p, k, e) = lemma_first_exists(s, f, pp, 0, ee);
    lemma_first_is_the_block(s, a, f, body, b, pp, ee, p, k, e);
    lemma_fenced_body_is(s, lang, p, k, e);
    lemma_body_trim(s, a, f, body, b, pp, ee, k);
}

proof fn lemma_trim_start_shape(x: Seq<char>) -> (i: int)
    ensures
        0 <= i <= x.len(),
        trim_start_spec(x) == x.subrange(i, x.len() as int),
        trim_start_spec(x).len() > 0 ==> !is_space(trim_start_spec(x)[0]),
    decreases x.len(),
{
    if x.len() > 0 && is_space(x[0]) {
        let i = lemma_trim_start_shape(x.drop_first());
        assert(x.drop_first().subrange(i, x.len() - 1) =~= x.subrange(i + 1, x.len() as int));
        i + 1
    } else {
        assert(x.subrange(0, x.len() as int) =~= x);
        0
    }
}

proof fn lemma_trim_end_shape(y: Seq<char>) -> (j: int)
    ensures
        0 <= j <= y.len(),
        trim_end_spec(y) == y.subrange(0, j),
        trim_end_spec(y).len() > 0 ==> !is_space(trim_end_spec(y).last()),
    decreases y.len(),
{
    if y.len() > 0 && is_space(y.last()) {
        let j = lemma_trim_end_shape(y.drop_last());
        assert(y.drop_last().subrange(0, j) =~= y.subrange(0, j));
        j
    } else {
        assert(y.subrange(0, y.len() as int) =~= y);
        y.len() as int
    }
}

/// Trimming leaves a piece of the text whose ends are not white space, and
/// trimming it again changes nothing.
proof fn lemma_trim_shape(x: Seq<char>) -> (r: (int, int))
    ensures
        0 <= r.0 <= r.1 <= x.len(),
        trim_spec(x) == x.subrange(r.0, r.1),
        trim_spec(trim_spec(x)) == trim_spec(x),
{
    let i = lemma_trim_start_shape(x);
    let y = trim_start_spec(x);
    let j = lemma_trim_end_shape(y);
    let t = trim_end_spec(y);
    assert(y.subrange(0, j) =~= x.subrange(i, i + j));
    if t.len() > 0 {
        assert(t[0] == y[0]);
        assert(trim_start_spec(t) == t);
        assert(trim_end_spec(t) == t);
    } else {
        assert(trim_start_spec(t) == t);
        assert(trim_end_spec(t) == t);
    }
    (i, i + j)
}

/// Text that trims to something not empty holds a character that is not
/// white space.
proof fn lemma_not_all_space(x: Seq<char>)
    requires
        trim_spec(x).len() > 0,
    ensures
        exists|j: int| 0 <= j < x.len() && !is_space(x[j]),
{
    let (a, b) = lemma_trim_shape(x);
    assert(trim_spec(x)[0] == x[a]);
    let i = lemma_trim_start_shape(x);
    assert(trim_start_spec(x).len() > 0);
    assert(!is_space(x[a])) by {
        let j = lemma_trim_end_shape(trim_start_spec(x));
        assert(trim_spec(x)[0] == trim_start_spec(x)[0]);
    }
}

/// No closing line starts inside `body`, which stands at `nn` followed by
/// the closing line at `ee`.
proof fn lemma_no_close_within(s: Seq<char>, body: Seq<char>, nn: int, ee: int, e: int)
    requires
        0 <= nn <= ee,
        ee + 4 <= s.len(),
        s.subrange(nn, ee) == body,
        s.subrange(ee, ee + 4) == closing(),
        !has_sub(body, closing()),
        nn <= e < ee,
    ensures
        !occurs_at(s, closing(), e),
{
    if occurs_at(s, closing(), e) {
        if e + 4 <= ee {
            assert(body.subrange(e - nn, e - nn + 4) =~= s.subrange(e, e + 4));
            assert(occurs_at(body, closing(), e - nn));
        } else {
            assert(s.subrange(e, e + 4)[ee - e] == s[ee]);
            assert(s.subrange(ee, ee + 4)[0] == s[ee]);
        }
    }
}

/// A text with a block of `lang`: `a`, the fence, white space `w`, a
/// newline, `body`, the closing line, then `b`.
pub open spec fn block_text(
    a: Seq<char>,
    lang: Seq<char>,
    w: Seq<char>,
    body: Seq<char>,
    b: Seq<char>,
) -> Seq<char> {
    a + fence(lang) + w + seq!['\n'] + body + closing() + b
}

/// `s` holds the fence `f` at `pp`, `wl` characters of white space, a
/// newline, `body`, and the closing line at `ee`.
spec fn laid_out_with_space(s: Seq<char>, f: Seq<char>, wl: int, body: Seq<char>, pp: int, ee: int) -> bool {
    let aa = pp + f.len();
    &&& 0 <= pp
    &&& 0 <= wl
    &&& ee == aa + wl + 1 + body.len()
    &&& s.len() >= ee + 4
    &&& s.subrange(pp, aa) == f
    &&& forall|m: int| aa <= m < aa + wl ==> is_space(s[m])
    &&& s[aa + wl] == '\n'
    &&& s.subrange(aa + wl + 1, ee) == body
    &&& s.subrange(ee, ee + 4) == closing()
}

proof fn lemma_lay_out_with_space(a: Seq<char>, lang: Seq<char>, w: Seq<char>, body: Seq<char>, b: Seq<char>)
    requires
        forall|i: int| 0 <= i < w.len() ==> is_space(w[i]),
    ensures
        laid_out_with_space(
            block_text(a, lang, w, body, b),
            fence(lang),
            w.len() as int,
            body,
            a.len() as int,
            (a.len() + fence(lang).len() + w.len() + 1 + body.len()) as int,
        ),
{
    let f = fence(lang);
    let s = block_text(a, lang, w, body, b);
    let pp = a.len() as int;
    let aa = pp + f.len();
    let nn = aa + w.len() + 1;
    let ee = nn + body.len();
    assert(s.subrange(pp, aa) =~= f);
    assert forall|m: int| aa <= m < aa + w.len() implies is_space(s[m]) by {
        assert(s[m] == w[m - aa]);
    }
    assert(s.subrange(nn, ee) =~= body);
    assert(s.subrange(ee, ee + 4) =~= closing());
}

proof fn lemma_block_with_space(s: Seq<char>, f: Seq<char>, wl: int, body: Seq<char>, pp: int, ee: int)
    requires
        laid_out_with_space(s, f, wl, body, pp, ee),
    ensures
        block_match(s, f, pp, wl, ee),
{
}

/// The first block of such a text is the laid-out one, and what it captures
/// trims to the trimmed body.
proof fn lemma_pin_block(s: Seq<char>, f: Seq<char>, wl: int, body: Seq<char>, pp: int, ee: int, p: int, k: int, e: int)
    requires
        laid_out_with_space(s, f, wl, body, pp, ee),
        forall|p2: int| p2 < pp ==> !occurs_at(s, f, p2),
        !has_sub(body, closing()),
        trim_spec(body).len() > 0,
        first_match(s, f, p, k, e),
    ensures
        p == pp,
        e == ee,
        trim_spec(s.subrange(pp + f.len() + k + 1, ee)) == trim_spec(body),
{
    let aa = pp + f.len();
    let nn = aa + wl + 1;
    lemma_block_with_space(s, f, wl, body, pp, ee);
    assert(p == pp);
    assert(k >= wl);
    lemma_not_all_space(body);
    let j0 = choose|j: int| 0 <= j < body.len() && !is_space(body[j]);
    assert(s.subrange(nn, ee)[j0] == s[nn + j0]);
    if aa + k >= nn + j0 {
        if aa + k == nn + j0 {
            assert(s[aa + k] == '\n');
        } else {
            assert(is_space(s[nn + j0]));
        }
    }
    assert(block_match(s, f, pp, k, ee));
    if e < ee {
        lemma_no_close_within(s, body, nn, ee, e);
    }
    let c = s.subrange(aa + k + 1, ee);
    let sp = s.subrange(nn, aa + k + 1);
    assert forall|i: int| 0 <= i < sp.len() implies is_space(sp[i]) by {
        assert(sp[i] == s[nn + i]);
    }
    assert(body =~= sp + c);
    lemma_trim_skips_space(sp, c);
}

/// The first block of a text is found whatever precedes and follows it, as
/// long as no fence of its language comes earlier: where its body has no
/// closing line inside and is not blank, the result is the body trimmed.
pub proof fn lemma_one_block(
    a: Seq<char>,
    lang: Seq<char>,
    w: Seq<char>,
    body: Seq<char>,
    b: Seq<char>,
)
    requires
        forall|i: int| 0 <= i < w.len() ==> is_space(w[i]),
        forall|p: int| p < a.len() ==> !occurs_at(block_text(a, lang, w, body, b), fence(lang), p),
        !has_sub(body, closing()),
        trim_spec(body).len() > 0,
    ensures
        extracted(block_text(a, lang, w, body, b), lang) == Some(trim_spec(body)),
{
    let f = fence(lang);
    let s = block_text(a, lang, w, body, b);
    let pp = a.len() as int;
    let ee = (a.len() + f.len() + w.len() + 1 + body.len()) as int;
    lemma_lay_out_with_space(a, lang, w, body, b);
    lemma_block_with_space(s, f, w.len() as int, body, pp, ee);
    let (p, k, e) = lemma_first_exists(s, f, pp, w.len() as int, ee);
    lemma_pin_block(s, f, w.len() as int, body, pp, ee, p, k, e);
    lemma_fenced_body_is(s, lang, p, k, e);
}

/// What extraction yields is trimmed and not empty, and extracting again
/// from a block that wraps it yields it unchanged.
pub proof fn lemma_reextract(text: Seq<char>, lang: Seq<char>, t: Seq<char>)
    requires
        extracted(text, lang) == Some(t),
    ensures
        t.len() > 0,
        trim_spec(t) == t,
        extracted(fence(lang) + seq!['\n'] + t + closing(), lang) == Some(t),
{
    let f = fence(lang);
    let (p, k, e) = choose|p: int, k: int, e: int| first_match(text, f, p, k, e);
    let q = p + f.len() + k + 1;
    let bd = text.subrange(q, e);
    assert(fenced_body(text, lang) == Some(bd));
    assert(t == trim_spec(bd));
    assert(!has_sub(bd, closing())) by {
        if has_sub(bd, closing()) {
            let j = choose|j: int| occurs_at(bd, closing(), j);
            assert(text.subrange(q + j, q + j + 4) =~= bd.subrange(j, j + 4));
            assert(block_match(text, f, p, k, q + j));
        }
    }
    let (x, y) = lemma_trim_shape(bd);
    assert(!has_sub(t, closing())) by {
        if has_sub(t, closing()) {
            let j = choose|j: int| occurs_at(t, closing(), j);
            assert(bd.subrange(x + j, x + j + 4) =~= t.subrange(j, j + 4));
            assert(occurs_at(bd, closing(), x + j));
        }
    }
    let empty = Seq::<char>::empty();
    assert(block_text(empty, lang, empty, t, empty) =~= fence(lang) + seq!['\n'] + t + closing());
    lemma_one_block(empty, lang, empty, t, empty);
}

} // verus!
