//! Character-sequence utilities shared by the parsers and prompt builders.

use vstd::prelude::*;

verus! {

broadcast use vstd::string::group_string_axioms;

/// Whether `c` has the Unicode `White_Space` property, the set that
/// `char::is_whitespace` and the `\s` class of regular expressions use.
pub open spec fn is_space(c: char) -> bool {
    let u = c as u32;
    (9 <= u && u <= 13) || u == 32 || u == 0x85 || u == 0xa0 || u == 0x1680 || (0x2000 <= u
        && u <= 0x200a) || u == 0x2028 || u == 0x2029 || u == 0x202f || u == 0x205f || u == 0x3000
}

/// `p` occurs in `s` starting at index `i`.
pub open spec fn occurs_at(s: Seq<char>, p: Seq<char>, i: int) -> bool {
    0 <= i && i + p.len() <= s.len() && s.subrange(i, i + p.len()) == p
}

/// `p` occurs somewhere in `s`.
pub open spec fn has_sub(s: Seq<char>, p: Seq<char>) -> bool {
    exists|i: int| occurs_at(s, p, i)
}

/// Tests one character for the Unicode `White_Space` property.
pub fn is_space_char(c: char) -> (r: bool)
    ensures
        r == is_space(c),
{
    let u = c as u32;
    (9 <= u && u <= 13) || u == 32 || u == 0x85 || u == 0xa0 || u == 0x1680 || (0x2000 <= u
        && u <= 0x200a) || u == 0x2028 || u == 0x2029 || u == 0x202f || u == 0x205f || u == 0x3000
}

/// The characters of `s`, in order.
pub fn chars_of(s: &str) -> (r: Vec<char>)
    ensures
        r@ == s@,
{
    let mut v: Vec<char> = Vec::new();
    for c in it: s.chars()
        invariant
            v@ == it.seq().subrange(0, it.index() as int),
            it.seq() == s@,
    {
        v.push(c);
    }
    v
}


/// `s` with every non-overlapping occurrence of `p`, scanned from the left,
/// replaced by `r`.
pub open spec fn replace_spec(s: Seq<char>, p: Seq<char>, r: Seq<char>) -> Seq<char>
    decreases s.len(),
{
    if p.len() == 0 || s.len() < p.len() {
        s
    } else if s.subrange(0, p.len() as int) == p {
        r + replace_spec(s.subrange(p.len() as int, s.len() as int), p, r)
    } else {
        seq![s[0]] + replace_spec(s.subrange(1, s.len() as int), p, r)
    }
}

/// `s` without its leading white space.
pub open spec fn trim_start_spec(s: Seq<char>) -> Seq<char>
    decreases s.len(),
{
    if s.len() > 0 && is_space(s[0]) {
        trim_start_spec(s.drop_first())
    } else {
        s
    }
}

/// `s` without its trailing white space.
pub open spec fn trim_end_spec(s: Seq<char>) -> Seq<char>
    decreases s.len(),
{
    if s.len() > 0 && is_space(s.last()) {
        trim_end_spec(s.drop_last())
    } else {
        s
    }
}

/// `s` without leading and trailing white space, as `str::trim` gives it.
pub open spec fn trim_spec(s: Seq<char>) -> Seq<char> {
    trim_end_spec(trim_start_spec(s))
}

/// What `str::to_lowercase` returns for a string with the characters `s`.
pub uninterp spec fn lower_of(s: Seq<char>) -> Seq<char>;

/// Relies on `str::to_lowercase`: the result is a function of the characters.
#[verifier::external_body]
pub(crate) fn lowercase(s: &str) -> (r: String)
    ensures
        r@ == lower_of(s@),
{
    s.to_lowercase()
}

/// Relies on `String: FromIterator<char>`: the string holds the characters in order.
#[verifier::external_body]
pub(crate) fn string_of(v: &Vec<char>) -> (r: String)
    ensures
        r@ == v@,
{
    v.iter().collect()
}

/// Whether `p` occurs in `s` at index `i`.
pub fn matches_at(s: &Vec<char>, p: &Vec<char>, i: usize) -> (r: bool)
    ensures
        r == occurs_at(s@, p@, i as int),
{
    if i > s.len() || p.len() > s.len() - i {
        return false;
    }
    let mut k: usize = 0;
    while k < p.len()
        invariant
            k <= p.len(),
            i + p.len() <= s.len(),
            forall|j: int| 0 <= j < k ==> s@[i + j] == p@[j],
        decreases p.len() - k,
    {
        if s[i + k] != p[k] {
            assert(s@.subrange(i as int, i + p.len())[k as int] != p@[k as int]);
            return false;
        }
        k = k + 1;
    }
    assert(s@.subrange(i as int, i + p.len()) =~= p@);
    true
}

/// The first index at or after `from` where `p` occurs in `s`.
pub fn find_from(s: &Vec<char>, p: &Vec<char>, from: usize) -> (r: Option<usize>)
    ensures
        match r {
            Some(i) => from <= i && occurs_at(s@, p@, i as int) && forall|j: int|
                from <= j < i ==> !occurs_at(s@, p@, j),
            None => forall|j: int| from <= j ==> !occurs_at(s@, p@, j),
        },
{
    if p.len() > s.len() {
        return None;
    }
    if p.len() == 0 {
        if from <= s.len() {
            assert(s@.subrange(from as int, from as int) =~= p@);
            return Some(from);
        }
        return None;
    }
    let last = s.len() - p.len();
    let mut i = from;
    while i <= last
        invariant
            last == s.len() - p.len(),
            last < s.len(),
            from <= i,
            forall|j: int| from <= j < i ==> !occurs_at(s@, p@, j),
        decreases last + 1 - i,
    {
        if matches_at(s, p, i) {
            return Some(i);
        }
        i = i + 1;
    }
    None
}

/// Whether `p` occurs anywhere in `s`.
pub fn contains(s: &Vec<char>, p: &Vec<char>) -> (r: bool)
    ensures
        r == has_sub(s@, p@),
{
    match find_from(s, p, 0) {
        Some(_) => true,
        None => false,
    }
}

/// Whether the string `s` holds the string `p`.
pub fn str_contains(s: &str, p: &str) -> (r: bool)
    ensures
        r == has_sub(s@, p@),
{
    let sv = chars_of(s);
    let pv = chars_of(p);
    contains(&sv, &pv)
}

/// Appends `src[from..to]` to `out`.
pub fn push_range(out: &mut Vec<char>, src: &Vec<char>, from: usize, to: usize)
    requires
        from <= to <= src.len(),
    ensures
        final(out)@ == old(out)@ + src@.subrange(from as int, to as int),
{
    let mut k = from;
    while k < to
        invariant
            from <= k <= to <= src.len(),
            out@ == old(out)@ + src@.subrange(from as int, k as int),
        decreases to - k,
    {
        out.push(src[k]);
        k = k + 1;
        assert(out@ =~= old(out)@ + src@.subrange(from as int, k as int));
    }
}

/// Replaces every occurrence of `p` in `s` by `r`, scanning from the left.
pub fn replace_all(s: &Vec<char>, p: &Vec<char>, r: &Vec<char>) -> (res: Vec<char>)
    requires
        p.len() > 0,
    ensures
        res@ == replace_spec(s@, p@, r@),
{
    let mut out: Vec<char> = Vec::new();
    let mut i: usize = 0;
    assert(s@.subrange(0, s.len() as int) =~= s@);
    assert(out@ + replace_spec(s@, p@, r@) =~= replace_spec(s@, p@, r@));
    while i < s.len()
        invariant
            i <= s.len(),
            p.len() > 0,
            out@ + replace_spec(s@.subrange(i as int, s.len() as int), p@, r@) == replace_spec(
                s@,
                p@,
                r@,
            ),
        decreases s.len() - i,
    {
        let ghost rest = s@.subrange(i as int, s.len() as int);
        if p.len() > s.len() - i {
            let ghost before = out@;
            push_range(&mut out, s, i, s.len());
            assert(replace_spec(rest, p@, r@) == rest);
            assert(s@.subrange(s.len() as int, s.len() as int) =~= Seq::<char>::empty());
            assert(replace_spec(Seq::<char>::empty(), p@, r@) =~= Seq::<char>::empty());
            assert(out@ + Seq::<char>::empty() =~= out@);
            i = s.len();
        } else if matches_at(s, p, i) {
            assert(rest.subrange(0, p.len() as int) =~= s@.subrange(i as int, i + p.len()));
            assert(rest.subrange(p.len() as int, rest.len() as int) =~= s@.subrange(
                i + p.len(),
                s.len() as int,
            ));
            let ghost before = out@;
            push_range(&mut out, r, 0, r.len());
            assert(r@.subrange(0, r.len() as int) =~= r@);
            assert(before + (r@ + replace_spec(s@.subrange(i + p.len(), s.len() as int), p@, r@))
                =~= out@ + replace_spec(s@.subrange(i + p.len(), s.len() as int), p@, r@));
            i = i + p.len();
        } else {
            assert(rest.subrange(0, p.len() as int) =~= s@.subrange(i as int, i + p.len()));
            assert(rest.subrange(1, rest.len() as int) =~= s@.subrange(i + 1, s.len() as int));
            let ghost before = out@;
            out.push(s[i]);
            assert(before + (seq![s@[i as int]] + replace_spec(
                s@.subrange(i + 1, s.len() as int),
                p@,
                r@,
            )) =~= out@ + replace_spec(s@.subrange(i + 1, s.len() as int), p@, r@));
            i = i + 1;
        }
    }
    assert(s@.subrange(s.len() as int, s.len() as int) =~= Seq::<char>::empty());
    assert(out@ + Seq::<char>::empty() =~= out@);
    out
}

/// `s` without leading and trailing white space.
pub fn trim(s: &Vec<char>) -> (r: Vec<char>)
    ensures
        r@ == trim_spec(s@),
{
    let mut a: usize = 0;
    assert(s@.subrange(0, s.len() as int) =~= s@);
    while a < s.len() && is_space_char(s[a])
        invariant
            a <= s.len(),
            trim_start_spec(s@) == trim_start_spec(s@.subrange(a as int, s.len() as int)),
        decreases s.len() - a,
    {
        assert(s@.subrange(a as int, s.len() as int).drop_first() =~= s@.subrange(
            a + 1,
            s.len() as int,
        ));
        a = a + 1;
    }
    let ghost t = s@.subrange(a as int, s.len() as int);
    assert(trim_start_spec(t) == t);
    let mut b: usize = s.len();
    while b > a && is_space_char(s[b - 1])
        invariant
            a <= b <= s.len(),
            t == s@.subrange(a as int, s.len() as int),
            trim_end_spec(t) == trim_end_spec(s@.subrange(a as int, b as int)),
        decreases b,
    {
        assert(s@.subrange(a as int, b as int).drop_last() =~= s@.subrange(a as int, b - 1));
        b = b - 1;
    }
    let mut out: Vec<char> = Vec::new();
    push_range(&mut out, s, a, b);
    assert(out@ =~= s@.subrange(a as int, b as int));
    out
}

/// Whether the strings `a` and `b` hold the same characters.
pub fn same_text(a: &str, b: &str) -> (r: bool)
    ensures
        r == (a@ == b@),
{
    let av = chars_of(a);
    let bv = chars_of(b);
    if av.len() != bv.len() {
        return false;
    }
    let mut k: usize = 0;
    while k < av.len()
        invariant
            av@ == a@,
            bv@ == b@,
            av.len() == bv.len(),
            k <= av.len(),
            forall|j: int| 0 <= j < k ==> av@[j] == bv@[j],
        decreases av.len() - k,
    {
        if av[k] != bv[k] {
            assert(av@[k as int] != bv@[k as int]);
            return false;
        }
        k = k + 1;
    }
    assert(av@ =~= bv@);
    true
}

/// The pieces of `s` between occurrences of `sep`, as `str::split` yields them.
pub open spec fn pieces(s: Seq<char>, sep: char) -> Seq<Seq<char>>
    decreases s.len(),
{
    if s.len() == 0 {
        seq![Seq::empty()]
    } else {
        let p = pieces(s.drop_last(), sep);
        if s.last() == sep {
            p.push(Seq::empty())
        } else {
            p.update(p.len() - 1, p.last().push(s.last()))
        }
    }
}

pub proof fn lemma_pieces_nonempty(s: Seq<char>, sep: char)
    ensures
        pieces(s, sep).len() >= 1,
    decreases s.len(),
{
    if s.len() > 0 {
        lemma_pieces_nonempty(s.drop_last(), sep);
    }
}

/// The characters of `s` split at `sep`.
pub fn split_chars(s: &Vec<char>, sep: char) -> (r: Vec<Vec<char>>)
    ensures
        r@.len() == pieces(s@, sep).len(),
        forall|i: int| 0 <= i < r@.len() ==> #[trigger] r@[i]@ == pieces(s@, sep)[i],
{
    let mut out: Vec<Vec<char>> = Vec::new();
    let mut cur: Vec<char> = Vec::new();
    let mut i: usize = 0;
    assert(s@.subrange(0, 0) =~= Seq::<char>::empty());
    while i < s.len()
        invariant
            i <= s.len(),
            pieces(s@.subrange(0, i as int), sep).len() == out@.len() + 1,
            forall|j: int| 0 <= j < out@.len() ==> #[trigger] out@[j]@ == pieces(
                s@.subrange(0, i as int),
                sep,
            )[j],
            cur@ == pieces(s@.subrange(0, i as int), sep).last(),
        decreases s.len() - i,
    {
        let ghost ps = pieces(s@.subrange(0, i as int), sep);
        assert(s@.subrange(0, i + 1).drop_last() =~= s@.subrange(0, i as int));
        assert(s@.subrange(0, i + 1).last() == s@[i as int]);
        if s[i] == sep {
            out.push(cur);
            cur = Vec::new();
            assert(cur@ =~= Seq::<char>::empty());
        } else {
            cur.push(s[i]);
        }
        i = i + 1;
    }
    assert(s@.subrange(0, s.len() as int) =~= s@);
    out.push(cur);
    out
}

/// `ls` joined with newlines between.
pub open spec fn join_lines(ls: Seq<Seq<char>>) -> Seq<char>
    decreases ls.len(),
{
    if ls.len() == 0 {
        Seq::empty()
    } else if ls.len() == 1 {
        ls[0]
    } else {
        join_lines(ls.drop_last()) + seq!['\n'] + ls.last()
    }
}

/// `ls` joined with `sep` between.
pub open spec fn joined(ls: Seq<Seq<char>>, sep: Seq<char>) -> Seq<char>
    decreases ls.len(),
{
    if ls.len() == 0 {
        Seq::empty()
    } else if ls.len() == 1 {
        ls[0]
    } else {
        joined(ls.drop_last(), sep) + sep + ls.last()
    }
}

/// The strings of `ls` joined with `sep` between.
pub fn join_strings(ls: &Vec<String>, sep: &str) -> (r: String)
    ensures
        r@ == joined(ls.deep_view(), sep@),
{
    let ghost v = ls.deep_view();
    if ls.len() == 0 {
        return String::new();
    }
    let mut out = ls[0].clone();
    assert(v.subrange(0, 1) =~= seq![v[0]]);
    let mut i: usize = 1;
    while i < ls.len()
        invariant
            1 <= i <= ls.len(),
            v == ls.deep_view(),
            out@ == joined(v.subrange(0, i as int), sep@),
        decreases ls.len() - i,
    {
        assert(v.subrange(0, i + 1).drop_last() =~= v.subrange(0, i as int));
        out.append(sep);
        out.append(ls[i].as_str());
        i = i + 1;
    }
    assert(v.subrange(0, ls.len() as int) =~= v);
    out
}

/// `a` followed by `b`.
pub fn cat(a: &str, b: &str) -> (r: String)
    ensures
        r@ == a@ + b@,
{
    let mut s = a.to_string();
    s.append(b);
    s
}

/// `s` with every occurrence of `p` replaced by `r`.
pub fn replace_str(s: &str, p: &str, r: &str) -> (res: String)
    requires
        p@.len() > 0,
    ensures
        res@ == replace_spec(s@, p@, r@),
{
    let sv = chars_of(s);
    let pv = chars_of(p);
    let rv = chars_of(r);
    let out = replace_all(&sv, &pv, &rv);
    string_of(&out)
}

} // verus!
