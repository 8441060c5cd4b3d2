//! Names and progress figures of a page download: the folder and file
//! names the slides are saved under and the percentages reported while the
//! download runs.

use crate::keys::{CatalogKey, CourseKey, LectureGroup};
use vstd::prelude::*;

verus! {

/// How many times a slide is fetched before its download fails.
pub const MAX_RETRIES: u32 = 3;

/// How many slides are fetched at once.
pub const MAX_CONCURRENT_REQUESTS: usize = 4;

/// Which characters a file name may not hold: those of Unix-like systems
/// or those of Windows.
#[derive(PartialEq, Eq, Structural, Clone, Copy, Debug)]
pub enum NameRules {
    Unix,
    Windows,
}

/// Whether `c` cannot stand in a file name under `rules`.
pub open spec fn forbidden_char(rules: NameRules, c: char) -> bool {
    match rules {
        NameRules::Unix => c == '/' || c == '\0',
        NameRules::Windows => c == '/' || c == '\\' || c == ':' || c == '*' || c == '?' || c == '"' || c == '<'
            || c == '>' || c == '|',
    }
}

/// A character that cannot stand in a file name is replaced by `_`.
pub open spec fn file_char(rules: NameRules, c: char) -> char {
    if forbidden_char(rules, c) {
        '_'
    } else {
        c
    }
}

pub open spec fn sanitized(rules: NameRules, s: Seq<char>) -> Seq<char> {
    s.map_values(|c: char| file_char(rules, c))
}

fn is_forbidden(rules: NameRules, c: char) -> (b: bool)
    ensures
        b == forbidden_char(rules, c),
{
    match rules {
        NameRules::Unix => c == '/' || c == '\0',
        NameRules::Windows => c == '/' || c == '\\' || c == ':' || c == '*' || c == '?' || c == '"' || c == '<'
            || c == '>' || c == '|',
    }
}

/// The text with every character that cannot stand in a file name under
/// `rules` replaced by `_`.
pub fn sanitize_filename(s: &str, rules: NameRules) -> (r: String)
    ensures
        r@ == sanitized(rules, s@),
{
    proof {
        reveal_strlit("_");
    }
    let n = s.unicode_len();
    let mut r = String::new();
    let mut i: usize = 0;
    while i < n
        invariant
            n == s@.len(),
            i <= n,
            r@ == sanitized(rules, s@.take(i as int)),
        decreases n - i,
    {
        let c = s.get_char(i);
        let ghost before = r@;
        if is_forbidden(rules, c) {
            r.append("_");
            proof {
                reveal_strlit("_");
            }
            assert("_"@ =~= seq!['_']);
            assert(r@ =~= before.push('_'));
        } else {
            let one = s.substring_char(i, i + 1);
            assert(one@ =~= seq![c]);
            r.append(one);
            assert(r@ =~= before.push(c));
        }
        assert(sanitized(rules, s@.take(i + 1)) =~= sanitized(rules, s@.take(i as int)).push(file_char(rules, c)));
        i += 1;
    }
    assert(s@.take(n as int) =~= s@);
    r
}

/// The character of a decimal digit.
pub open spec fn digit_char(d: nat) -> char {
    if d == 0 {
        '0'
    } else if d == 1 {
        '1'
    } else if d == 2 {
        '2'
    } else if d == 3 {
        '3'
    } else if d == 4 {
        '4'
    } else if d == 5 {
        '5'
    } else if d == 6 {
        '6'
    } else if d == 7 {
        '7'
    } else if d == 8 {
        '8'
    } else {
        '9'
    }
}

/// The decimal digits of a number, most significant first.
pub open spec fn decimal(n: nat) -> Seq<char>
    decreases n,
{
    if n < 10 {
        seq![digit_char(n)]
    } else {
        decimal(n / 10).push(digit_char(n % 10))
    }
}

fn digit_text(d: usize) -> (s: &'static str)
    requires
        d < 10,
    ensures
        s@ == seq![digit_char(d as nat)],
{
    proof {
        reveal_strlit("0");
        reveal_strlit("1");
        reveal_strlit("2");
        reveal_strlit("3");
        reveal_strlit("4");
        reveal_strlit("5");
        reveal_strlit("6");
        reveal_strlit("7");
        reveal_strlit("8");
        reveal_strlit("9");
    }
    if d == 0 {
        "0"
    } else if d == 1 {
        "1"
    } else if d == 2 {
        "2"
    } else if d == 3 {
        "3"
    } else if d == 4 {
        "4"
    } else if d == 5 {
        "5"
    } else if d == 6 {
        "6"
    } else if d == 7 {
        "7"
    } else if d == 8 {
        "8"
    } else {
        "9"
    }
}

/// The number written in decimal.
pub fn decimal_text(n: usize) -> (s: String)
    ensures
        s@ == decimal(n as nat),
    decreases n,
{
    if n < 10 {
        let s = String::from_str(digit_text(n));
        assert(s@ =~= seq![digit_char(n as nat)]);
        s
    } else {
        let mut s = decimal_text(n / 10);
        s.append(digit_text(n % 10));
        s
    }
}

/// The folder of a page's slides: "course/group - lecture", each part
/// made fit for a file name.
pub open spec fn slide_dir(rules: NameRules, course: Seq<char>, group: Seq<char>, lecture: Seq<char>) -> Seq<char> {
    sanitized(rules, course) + "/"@ + sanitized(rules, group) + " - "@ + sanitized(rules, lecture)
}

pub fn slide_dir_from_info(course: &str, group: &str, lecture: &str, rules: NameRules) -> (r: String)
    ensures
        r@ == slide_dir(rules, course@, group@, lecture@),
{
    let mut r = sanitize_filename(course, rules);
    r.append("/");
    r.append(sanitize_filename(group, rules).as_str());
    r.append(" - ");
    r.append(sanitize_filename(lecture, rules).as_str());
    r
}

/// The file of slide `index` of `count`: "slug - title.pdf" for a lone
/// slide, "slug - title (n).pdf" with n counting from 1 otherwise.
pub open spec fn slide_file(rules: NameRules, slug: Seq<char>, title: Seq<char>, index: nat, count: nat) -> Seq<char> {
    if count == 1 {
        sanitized(rules, slug) + " - "@ + sanitized(rules, title) + ".pdf"@
    } else {
        sanitized(rules, slug) + " - "@ + sanitized(rules, title) + " ("@ + decimal(index + 1) + ").pdf"@
    }
}

pub fn slide_file_name(slug: &str, title: &str, index: usize, count: usize, rules: NameRules) -> (r: String)
    requires
        index < count,
    ensures
        r@ == slide_file(rules, slug@, title@, index as nat, count as nat),
{
    let mut r = sanitize_filename(slug, rules);
    r.append(" - ");
    r.append(sanitize_filename(title, rules).as_str());
    if count == 1 {
        r.append(".pdf");
    } else {
        r.append(" (");
        r.append(decimal_text(index + 1).as_str());
        r.append(").pdf");
    }
    r
}

/// The name of the first group of the course in the list, if any.
pub open spec fn first_group(groups: Seq<LectureGroup>, course: crate::keys::CourseKeyView) -> Option<Seq<char>>
    decreases groups.len(),
{
    if groups.len() == 0 {
        None
    } else if groups[0].course_key@ == course {
        Some(groups[0].name@)
    } else {
        first_group(groups.drop_first(), course)
    }
}

/// The folder name of a lecture's group: that of the first group of the
/// lecture's course, or the lecture's own name when the groups are not
/// known or none belongs to the course.
pub open spec fn group_name(groups: Option<Seq<LectureGroup>>, course: crate::keys::CourseKeyView, lecture_name: Seq<char>) -> Seq<char> {
    match groups {
        Some(gs) => match first_group(gs, course) {
            Some(n) => n,
            None => lecture_name,
        },
        None => lecture_name,
    }
}

pub fn lecture_group_name(groups: Option<Vec<LectureGroup>>, course: &CourseKey, lecture_name: &str) -> (r: String)
    ensures
        r@ == group_name(
            match groups {
                Some(g) => Some(g@),
                None => None,
            },
            course@,
            lecture_name@,
        ),
{
    if let Some(gs) = groups {
        let mut i: usize = 0;
        assert(gs@.skip(0) =~= gs@);
        while i < gs.len()
            invariant
                i <= gs.len(),
                (match groups {
                    Some(g) => Some(g@),
                    None => None,
                }) == Some(gs@),
                first_group(gs@, course@) == first_group(gs@.skip(i as int), course@),
            decreases gs.len() - i,
        {
            assert(gs@.skip(i as int)[0] == gs@[i as int]);
            if gs[i].course_key.same_key(course) {
                assert(first_group(gs@.skip(i as int), course@) == Some(gs@[i as int].name@));
                return gs[i].name.clone();
            }
            assert(gs@.skip(i as int).drop_first() =~= gs@.skip(i + 1));
            i += 1;
        }
    }
    lecture_name.to_owned()
}

/// Percent reported once `completed` of `total` slides are fetched.
pub open spec fn fetch_percent(completed: nat, total: nat) -> nat {
    10 + completed * 50 / total
}

/// Percent reported once slide `done` of `total` is prepared.
pub open spec fn prepare_percent(done: nat, total: nat) -> nat {
    60 + done * 20 / total
}

pub fn fetch_progress_percent(completed: usize, total: usize) -> (p: u8)
    requires
        0 < total,
        completed <= total,
    ensures
        p == fetch_percent(completed as nat, total as nat),
        10 <= p <= 60,
{
    let c = completed as u128;
    let t = total as u128;
        let q = c * 50 / t;
    assert(q <= 50) by (nonlinear_arith)
        requires
            q == (c * 50) as int / (t as int),
            c <= t,
            0 < t,
    ;
    (10 + q) as u8
}

pub fn prepare_progress_percent(done: usize, total: usize) -> (p: u8)
    requires
        0 < total,
        done <= total,
    ensures
        p == prepare_percent(done as nat, total as nat),
        60 <= p <= 80,
{
    let c = done as u128;
    let t = total as u128;
        let q = c * 20 / t;
    assert(q <= 20) by (nonlinear_arith)
        requires
            q == (c * 20) as int / (t as int),
            c <= t,
            0 < t,
    ;
    (60 + q) as u8
}

/// "label (done/total)".
pub open spec fn counted(label: Seq<char>, done: nat, total: nat) -> Seq<char> {
    label + " ("@ + decimal(done) + "/"@ + decimal(total) + ")"@
}

pub fn counted_phase(label: &str, done: usize, total: usize) -> (r: String)
    ensures
        r@ == counted(label@, done as nat, total as nat),
{
    let mut r = label.to_owned();
    r.append(" (");
    r.append(decimal_text(done).as_str());
    r.append("/");
    r.append(decimal_text(total).as_str());
    r.append(")");
    r
}

/// The pause before fetching again, after `attempt` failed attempts.
pub fn retry_delay_ms(attempt: u32) -> (ms: u64)
    ensures
        ms == 1000 * attempt,
{
    1000 * (attempt as u64)
}

/// Fetching should be tried again after `attempts` failed attempts.
pub fn should_retry(attempts: u32) -> (b: bool)
    ensures
        b == (attempts < MAX_RETRIES),
{
    attempts < MAX_RETRIES
}

/// Progress never goes down while slides arrive.
pub proof fn lemma_fetch_percent_monotonic(a: nat, b: nat, total: nat)
    requires
        0 < total,
        a <= b,
    ensures
        fetch_percent(a, total) <= fetch_percent(b, total),
{
    assert(a * 50 <= b * 50) by (nonlinear_arith)
        requires
            a <= b,
    ;
    vstd::arithmetic::div_mod::lemma_div_is_ordered((a * 50) as int, (b * 50) as int, total as int);
}

/// A step of a page download, as reported to the download list.
#[derive(PartialEq, Eq, Structural, Clone, Copy, Debug)]
pub enum DownloadStage {
    /// The list of slides is being fetched.
    Listing,
    /// `done` of `total` slides are fetched.
    Fetching { done: usize, total: usize },
    /// The fetched slides are about to be prepared.
    Preparing,
    /// `done` of `total` slides are prepared.
    Prepared { done: usize, total: usize },
    /// The prepared slides are being converted to PDF.
    Converting,
    /// The PDF files are written.
    Saved,
}

/// The counts of a stage are those of a nonempty page.
pub open spec fn stage_ok(s: DownloadStage) -> bool {
    match s {
        DownloadStage::Fetching { done, total } => 0 < total && done <= total,
        DownloadStage::Prepared { done, total } => 0 < total && done <= total,
        _ => true,
    }
}

/// The percent reported at a stage.
pub open spec fn stage_percent(s: DownloadStage) -> nat {
    match s {
        DownloadStage::Listing => 5,
        DownloadStage::Fetching { done, total } => fetch_percent(done as nat, total as nat),
        DownloadStage::Preparing => 60,
        DownloadStage::Prepared { done, total } => prepare_percent(done as nat, total as nat),
        DownloadStage::Converting => 85,
        DownloadStage::Saved => 95,
    }
}

/// The text reported at a stage.
pub open spec fn stage_phase(s: DownloadStage) -> Seq<char> {
    match s {
        DownloadStage::Listing => "スライド取得中..."@,
        DownloadStage::Fetching { done, total } => counted("コンテンツ取得中..."@, done as nat, total as nat),
        DownloadStage::Preparing => "前処理中..."@,
        DownloadStage::Prepared { done, total } => counted("前処理中..."@, done as nat, total as nat),
        DownloadStage::Converting => "PDF変換中..."@,
        DownloadStage::Saved => "保存完了"@,
    }
}

/// The percent and the text reported at a stage.
pub fn stage_progress(stage: DownloadStage) -> (r: (u8, String))
    requires
        stage_ok(stage),
    ensures
        r.0 == stage_percent(stage),
        r.1@ == stage_phase(stage),
{
    match stage {
        DownloadStage::Listing => (5, String::from_str("スライド取得中...")),
        DownloadStage::Fetching { done, total } => (
            fetch_progress_percent(done, total),
            counted_phase("コンテンツ取得中...", done, total),
        ),
        DownloadStage::Preparing => (60, String::from_str("前処理中...")),
        DownloadStage::Prepared { done, total } => (
            prepare_progress_percent(done, total),
            counted_phase("前処理中...", done, total),
        ),
        DownloadStage::Converting => (85, String::from_str("PDF変換中...")),
        DownloadStage::Saved => (95, String::from_str("保存完了")),
    }
}

/// Step `i` of the download of a page of `n` slides: the listing, then one
/// fetching step before any slide arrives and one per slide, the start of
/// the preparation, one step per prepared slide, the conversion and the
/// saving.
pub open spec fn stage_at(n: usize, i: int) -> DownloadStage {
    if i == 0 {
        DownloadStage::Listing
    } else if i <= n + 1 {
        DownloadStage::Fetching { done: (i - 1) as usize, total: n }
    } else if i == n + 2 {
        DownloadStage::Preparing
    } else if i <= 2 * n + 2 {
        DownloadStage::Prepared { done: (i - n - 2) as usize, total: n }
    } else if i == 2 * n + 3 {
        DownloadStage::Converting
    } else {
        DownloadStage::Saved
    }
}

/// The steps reported while a page of `n` slides downloads; a page without
/// slides stops after the listing.
pub open spec fn download_stages(n: usize) -> Seq<DownloadStage> {
    if n == 0 {
        seq![DownloadStage::Listing]
    } else {
        Seq::new((2 * n + 5) as nat, |i: int| stage_at(n, i))
    }
}

proof fn lemma_fetch_percent_bounds(done: nat, total: nat)
    requires
        0 < total,
        done <= total,
    ensures
        10 <= fetch_percent(done, total) <= 60,
{
    assert(done * 50 / total <= 50) by (nonlinear_arith)
        requires
            0 < total,
            done <= total,
    ;
}

proof fn lemma_prepare_percent_bounds(done: nat, total: nat)
    requires
        0 < total,
        done <= total,
    ensures
        60 <= prepare_percent(done, total) <= 80,
{
    assert(done * 20 / total <= 20) by (nonlinear_arith)
        requires
            0 < total,
            done <= total,
    ;
}

proof fn lemma_prepare_percent_monotonic(a: nat, b: nat, total: nat)
    requires
        0 < total,
        a <= b,
    ensures
        prepare_percent(a, total) <= prepare_percent(b, total),
{
    assert(a * 20 <= b * 20) by (nonlinear_arith)
        requires
            a <= b,
    ;
    vstd::arithmetic::div_mod::lemma_div_is_ordered((a * 20) as int, (b * 20) as int, total as int);
}

proof fn lemma_stage_at_facts(n: usize, i: int)
    requires
        0 < n,
        0 <= i < 2 * n + 5,
    ensures
        stage_ok(stage_at(n, i)),
        5 <= stage_percent(stage_at(n, i)) <= 95,
        1 <= i <= n + 1 ==> 10 <= stage_percent(stage_at(n, i)) <= 60,
        n + 3 <= i <= 2 * n + 2 ==> 60 <= stage_percent(stage_at(n, i)) <= 80,
{
    if 1 <= i <= n + 1 {
        lemma_fetch_percent_bounds((i - 1) as nat, n as nat);
    } else if n + 3 <= i <= 2 * n + 2 {
        lemma_prepare_percent_bounds((i - n - 2) as nat, n as nat);
    }
}

/// The progress of a page download never goes down, stays between 5 and
/// 95 percent, and ends at 95 percent once the slides are saved.
pub proof fn lemma_download_progress_rises(n: usize)
    ensures
        forall|i: int| 0 <= i < download_stages(n).len() ==> #[trigger] stage_ok(download_stages(n)[i]),
        forall|i: int|
            0 <= i < download_stages(n).len() ==> 5 <= #[trigger] stage_percent(download_stages(n)[i]) <= 95,
        forall|i: int, j: int|
            0 <= i <= j < download_stages(n).len() ==> stage_percent(#[trigger] download_stages(n)[i])
                <= stage_percent(#[trigger] download_stages(n)[j]),
        n > 0 ==> download_stages(n).last() == DownloadStage::Saved,
{
    if n > 0 {
        let s = download_stages(n);
        assert forall|i: int| 0 <= i < s.len() implies #[trigger] stage_ok(s[i]) && 5 <= stage_percent(s[i]) <= 95 by {
            lemma_stage_at_facts(n, i);
        }
        assert forall|i: int, j: int| 0 <= i <= j < s.len() implies stage_percent(#[trigger] s[i]) <= stage_percent(
            #[trigger] s[j],
        ) by {
            lemma_stage_at_facts(n, i);
            lemma_stage_at_facts(n, j);
            if 1 <= i <= n + 1 && 1 <= j <= n + 1 {
                lemma_fetch_percent_monotonic((i - 1) as nat, (j - 1) as nat, n as nat);
            } else if n + 3 <= i <= 2 * n + 2 && n + 3 <= j <= 2 * n + 2 {
                lemma_prepare_percent_monotonic((i - n - 2) as nat, (j - n - 2) as nat, n as nat);
            }
        }
    }
}

/// Every file name of a page's slides differs from the others.
pub proof fn lemma_slide_files_distinct(rules: NameRules, slug: Seq<char>, title: Seq<char>, i: nat, j: nat, count: nat)
    requires
        i < count,
        j < count,
        i != j,
    ensures
        slide_file(rules, slug, title, i, count) != slide_file(rules, slug, title, j, count),
{
    lemma_decimal_injective(i + 1, j + 1);
    let pre = sanitized(rules, slug) + " - "@ + sanitized(rules, title) + " ("@;
    let a = pre + decimal(i + 1) + ").pdf"@;
    let b = pre + decimal(j + 1) + ").pdf"@;
    if a == b {
        reveal_strlit(").pdf");
        assert(a.len() == b.len());
        assert(decimal(i + 1).len() == decimal(j + 1).len());
        assert(a.subrange(pre.len() as int, (pre.len() + decimal(i + 1).len()) as int) =~= decimal(i + 1));
        assert(b.subrange(pre.len() as int, (pre.len() + decimal(j + 1).len()) as int) =~= decimal(j + 1));
    }
}

proof fn lemma_digit_char_injective(a: nat, b: nat)
    requires
        a < 10,
        b < 10,
        a != b,
    ensures
        digit_char(a) != digit_char(b),
{
}

/// Distinct numbers have distinct decimal forms.
pub proof fn lemma_decimal_injective(a: nat, b: nat)
    requires
        a != b,
    ensures
        decimal(a) != decimal(b),
    decreases a + b,
{
    if a < 10 && b < 10 {
        lemma_digit_char_injective(a, b);
        assert(decimal(a)[0] != decimal(b)[0]);
    } else if a < 10 {
        lemma_decimal_len_at_least_two(b);
    } else if b < 10 {
        lemma_decimal_len_at_least_two(a);
    } else {
        if decimal(a) == decimal(b) {
            assert(decimal(a).last() == decimal(b).last());
            assert(decimal(a).drop_last() =~= decimal(a / 10));
            assert(decimal(b).drop_last() =~= decimal(b / 10));
            if a / 10 != b / 10 {
                lemma_decimal_injective(a / 10, b / 10);
            } else {
                lemma_digit_char_injective(a % 10, b % 10);
            }
        }
    }
}

proof fn lemma_decimal_len_at_least_two(n: nat)
    requires
        n >= 10,
    ensures
        decimal(n).len() >= 2,
    decreases n,
{
    lemma_decimal_nonempty(n / 10);
}

proof fn lemma_decimal_nonempty(n: nat)
    ensures
        decimal(n).len() >= 1,
    decreases n,
{
    if n >= 10 {
        lemma_decimal_nonempty(n / 10);
    }
}

} // verus!
