//! Quality verdict on research content.

use vstd::prelude::*;
use crate::text::{chars_of, contains, has_sub, is_space, is_space_char, lower_of, lowercase};

verus! {

broadcast use vstd::string::group_string_axioms;

/// Content shorter than this many characters fails the quality check.
pub const MIN_CONTENT_CHARS: usize = 2000;

/// Signals needed, out of five, for the quality check to pass.
pub const PASS_SCORE: u32 = 4;

pub open spec fn is_ascii_digit(c: char) -> bool {
    '0' <= c && c <= '9'
}

/// Start of the run of white space that ends just before index `j`.
pub open spec fn space_run_start(s: Seq<char>, j: int) -> int
    decreases j,
{
    if 0 < j && j <= s.len() && is_space(s[j - 1]) {
        space_run_start(s, j - 1)
    } else {
        j
    }
}

/// A figure in percent ends at index `j`: a number (digits, optionally a
/// decimal point and more digits), optional white space, then `%`. Digits
/// are the ASCII digits `0` to `9`; digits of other scripts do not count.
pub open spec fn percent_at(s: Seq<char>, j: int) -> bool {
    let k = space_run_start(s, j);
    0 <= j < s.len() && s[j] == '%' && ((k >= 1 && is_ascii_digit(s[k - 1])) || (k >= 2 && s[k
        - 1] == '.' && is_ascii_digit(s[k - 2])))
}

/// A dollar amount starts at index `i`: `$` followed by an ASCII digit.
pub open spec fn dollar_at(s: Seq<char>, i: int) -> bool {
    0 <= i && i + 1 < s.len() && s[i] == '$' && is_ascii_digit(s[i + 1])
}

/// The content quotes a percentage or a dollar amount, written with ASCII
/// digits.
pub open spec fn has_figure(s: Seq<char>) -> bool {
    exists|j: int| percent_at(s, j) || dollar_at(s, j)
}

/// Verdict given by an explicit marker in the content, if there is one:
/// the Vietnamese result line first, then the generic markers, matched
/// without regard to case.
pub open spec fn marker_verdict(content: Seq<char>, lower: Seq<char>) -> Option<Seq<char>> {
    if has_sub(content, "KẾT QUẢ KIỂM TRA: PASS"@) || has_sub(content, "KẾT QUẢ KIỂM TRA:  PASS"@) {
        Some("PASS"@)
    } else if has_sub(content, "KẾT QUẢ KIỂM TRA: FAIL"@) || has_sub(
        content,
        "KẾT QUẢ KIỂM TRA:  FAIL"@,
    ) {
        Some("FAIL"@)
    } else if has_sub(lower, "validation: pass"@) || has_sub(lower, "validation_result: pass"@)
        || has_sub(lower, "✅ pass"@) {
        Some("PASS"@)
    } else if has_sub(lower, "validation: fail"@) || has_sub(lower, "validation_result: fail"@)
        || has_sub(lower, "❌ fail"@) {
        Some("FAIL"@)
    } else {
        None
    }
}

pub open spec fn signal(b: bool) -> nat {
    if b {
        1
    } else {
        0
    }
}

/// Number of the five quality signals present: a price symbol, market
/// vocabulary, a figure, sentiment vocabulary, a comparison table.
pub open spec fn quality_score(content: Seq<char>, lower: Seq<char>) -> nat {
    signal(has_sub(lower, "bitcoin"@) || has_sub(lower, "btc"@)) + signal(
        has_sub(lower, "phân tích"@) || has_sub(lower, "analysis"@) || has_sub(lower, "thị trường"@)
            || has_sub(lower, "market"@),
    ) + signal(has_figure(content)) + signal(
        has_sub(lower, "fear"@) || has_sub(lower, "greed"@) || has_sub(lower, "sợ hãi"@) || has_sub(
            lower,
            "tham lam"@,
        ),
    ) + signal(
        has_sub(content, "Bảng Đối chiếu"@) || has_sub(content, "Validation Summary"@) || has_sub(
            content,
            "| Dữ liệu"@,
        ) || has_sub(content, "| BTC Price"@),
    )
}

/// Verdict of the quality check: long enough and enough signals.
pub open spec fn quality_verdict(content: Seq<char>, lower: Seq<char>) -> Seq<char> {
    if content.len() < MIN_CONTENT_CHARS {
        "FAIL"@
    } else if quality_score(content, lower) >= PASS_SCORE {
        "PASS"@
    } else {
        "FAIL"@
    }
}

/// Verdict on `content`, given `lower`, its lower-case form.
pub open spec fn verdict_spec(content: Seq<char>, lower: Seq<char>) -> Seq<char> {
    match marker_verdict(content, lower) {
        Some(v) => v,
        None => quality_verdict(content, lower),
    }
}

fn has(s: &Vec<char>, lit: &str) -> (r: bool)
    ensures
        r == has_sub(s@, lit@),
{
    let p = chars_of(lit);
    contains(s, &p)
}

fn is_digit_char(c: char) -> (r: bool)
    ensures
        r == is_ascii_digit(c),
{
    '0' <= c && c <= '9'
}

/// Whether the characters quote a percentage or a dollar amount.
pub fn mentions_figure(s: &Vec<char>) -> (r: bool)
    ensures
        r == has_figure(s@),
{
    let mut j: usize = 0;
    while j < s.len()
        invariant
            j <= s.len(),
            forall|i: int| 0 <= i < j ==> !(percent_at(s@, i) || dollar_at(s@, i)),
        decreases s.len() - j,
    {
        if s[j] == '%' {
            let mut k: usize = j;
            while k > 0 && is_space_char(s[k - 1])
                invariant
                    k <= j < s.len(),
                    space_run_start(s@, j as int) == space_run_start(s@, k as int),
                decreases k,
            {
                k = k - 1;
            }
            if (k >= 1 && is_digit_char(s[k - 1])) || (k >= 2 && s[k - 1] == '.' && is_digit_char(
                s[k - 2],
            )) {
                assert(percent_at(s@, j as int));
                return true;
            }
        }
        if s[j] == '$' && j + 1 < s.len() && is_digit_char(s[j + 1]) {
            assert(dollar_at(s@, j as int));
            return true;
        }
        j = j + 1;
    }
    false
}

/// Verdict on `content`, given its lower-case form `lower`: `PASS` or `FAIL`.
pub fn validation_verdict(content: &str, lower: &str) -> (r: String)
    ensures
        r@ == verdict_spec(content@, lower@),
{
    let c = chars_of(content);
    let l = chars_of(lower);
    if has(&c, "KẾT QUẢ KIỂM TRA: PASS") || has(&c, "KẾT QUẢ KIỂM TRA:  PASS") {
        return "PASS".to_string();
    }
    if has(&c, "KẾT QUẢ KIỂM TRA: FAIL") || has(&c, "KẾT QUẢ KIỂM TRA:  FAIL") {
        return "FAIL".to_string();
    }
    if has(&l, "validation: pass") || has(&l, "validation_result: pass") || has(&l, "✅ pass") {
        return "PASS".to_string();
    }
    if has(&l, "validation: fail") || has(&l, "validation_result: fail") || has(&l, "❌ fail") {
        return "FAIL".to_string();
    }
    if c.len() < MIN_CONTENT_CHARS {
        return "FAIL".to_string();
    }
    let mut score: u32 = 0;
    if has(&l, "bitcoin") || has(&l, "btc") {
        score = score + 1;
    }
    if has(&l, "phân tích") || has(&l, "analysis") || has(&l, "thị trường") || has(&l, "market") {
        score = score + 1;
    }
    if mentions_figure(&c) {
        score = score + 1;
    }
    if has(&l, "fear") || has(&l, "greed") || has(&l, "sợ hãi") || has(&l, "tham lam") {
        score = score + 1;
    }
    if has(&c, "Bảng Đối chiếu") || has(&c, "Validation Summary") || has(&c, "| Dữ liệu") || has(
        &c,
        "| BTC Price",
    ) {
        score = score + 1;
    }
    assert(score == quality_score(content@, lower@));
    if score >= PASS_SCORE {
        return "PASS".to_string();
    }
    "FAIL".to_string()
}

/// Verdict on research content: `PASS` or `FAIL`.
pub fn check_report_validation(content: &str) -> (r: String)
    ensures
        r@ == verdict_spec(content@, lower_of(content@)),
{
    let lower = lowercase(content);
    validation_verdict(content, lower.as_str())
}

/// Without an explicit marker, content under the length threshold fails even
/// with all five signals; content at or above it fails with fewer than four
/// signals and passes with four or more.
pub proof fn lemma_quality_scoring(content: Seq<char>, lower: Seq<char>)
    requires
        marker_verdict(content, lower) is None,
    ensures
        content.len() < MIN_CONTENT_CHARS ==> verdict_spec(content, lower) == "FAIL"@,
        content.len() >= MIN_CONTENT_CHARS && quality_score(content, lower) < 4 ==> verdict_spec(
            content,
            lower,
        ) == "FAIL"@,
        content.len() >= MIN_CONTENT_CHARS && quality_score(content, lower) >= 4 ==> verdict_spec(
            content,
            lower,
        ) == "PASS"@,
{
}

} // verus!
