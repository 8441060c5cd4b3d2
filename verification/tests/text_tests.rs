use collect_tui::slides::{
    counted_phase, decimal_text, fetch_progress_percent, lecture_group_name, prepare_progress_percent,
    retry_delay_ms, sanitize_filename, should_retry, slide_dir_from_info, slide_file_name, stage_progress,
    DownloadStage, NameRules, MAX_RETRIES,
};
use collect_tui::keys::{CourseKey, LectureGroup};
use collect_tui::text::{trim, white_space};

#[test]
fn trim_removes_unicode_white_space_at_both_ends() {
    assert_eq!(trim("  alice \t\n"), "alice");
    assert_eq!(trim("\u{3000}山田\u{3000}"), "山田");
    assert_eq!(trim("a b"), "a b");
    assert_eq!(trim("   "), "");
    assert_eq!(trim(""), "");
    assert_eq!(trim("\u{a0}x\u{2029}"), "x");
}

#[test]
fn trim_agrees_with_std() {
    for s in ["  x ", "\u{85}y", "z\u{200a}", " \u{1680} a \u{202f}", "no-space", "\u{b}\u{c}q"] {
        assert_eq!(trim(s), s.trim());
    }
    for c in ['\t', ' ', '\u{85}', '\u{3000}', 'a', '\u{200b}', '_'] {
        assert_eq!(white_space(c), c.is_whitespace());
    }
}

#[test]
fn trim_twice_is_trim_once() {
    let once = trim("  both  ");
    assert_eq!(trim(&once), once);
}

#[test]
fn sanitize_replaces_slash_and_nul() {
    assert_eq!(sanitize_filename("a/b\0c", NameRules::Unix), "a_b_c");
    assert_eq!(sanitize_filename("講義:1", NameRules::Unix), "講義:1");
    assert_eq!(sanitize_filename("", NameRules::Unix), "");
}

#[test]
fn sanitize_for_windows_replaces_nine_characters() {
    assert_eq!(sanitize_filename("a/b\\c:d*e?f\"g<h>i|j", NameRules::Windows), "a_b_c_d_e_f_g_h_i_j");
    assert_eq!(sanitize_filename("講義\01", NameRules::Windows), "講義\01");
}

#[test]
fn decimal_text_writes_numbers() {
    assert_eq!(decimal_text(0), "0");
    assert_eq!(decimal_text(7), "7");
    assert_eq!(decimal_text(10), "10");
    assert_eq!(decimal_text(1234), "1234");
    assert_eq!(decimal_text(usize::MAX), usize::MAX.to_string());
}

#[test]
fn slide_folder_and_file_names() {
    assert_eq!(slide_dir_from_info("数学/基礎", "第1部", "微分", NameRules::Unix), "数学_基礎/第1部 - 微分");
    assert_eq!(slide_file_name("p01", "導入", 0, 1, NameRules::Unix), "p01 - 導入.pdf");
    assert_eq!(slide_file_name("p01", "a/b", 0, 3, NameRules::Unix), "p01 - a_b (1).pdf");
    assert_eq!(slide_file_name("p01", "t", 2, 3, NameRules::Unix), "p01 - t (3).pdf");
}

#[test]
fn slide_file_names_differ_within_a_page() {
    let a = slide_file_name("s", "t", 0, 12, NameRules::Windows);
    let b = slide_file_name("s", "t", 10, 12, NameRules::Windows);
    let c = slide_file_name("s", "t", 1, 12, NameRules::Windows);
    assert_ne!(a, b);
    assert_ne!(a, c);
    assert_ne!(b, c);
}

#[test]
fn group_name_prefers_the_course_group() {
    let course = CourseKey { slug: "c1".to_string() };
    let groups = vec![
        LectureGroup { course_key: CourseKey { slug: "c0".to_string() }, name: "other".to_string() },
        LectureGroup { course_key: CourseKey { slug: "c1".to_string() }, name: "first".to_string() },
        LectureGroup { course_key: CourseKey { slug: "c1".to_string() }, name: "second".to_string() },
    ];
    assert_eq!(lecture_group_name(Some(groups), &course, "lecture"), "first");
    assert_eq!(lecture_group_name(None, &course, "lecture"), "lecture");
    assert_eq!(lecture_group_name(Some(Vec::new()), &course, "lecture"), "lecture");
}

#[test]
fn progress_percentages() {
    assert_eq!(fetch_progress_percent(0, 4), 10);
    assert_eq!(fetch_progress_percent(1, 4), 22);
    assert_eq!(fetch_progress_percent(4, 4), 60);
    assert_eq!(prepare_progress_percent(1, 3), 66);
    assert_eq!(prepare_progress_percent(3, 3), 80);
    assert_eq!(counted_phase("前処理中...", 2, 5), "前処理中... (2/5)");
}

#[test]
fn retries() {
    assert_eq!(retry_delay_ms(0), 0);
    assert_eq!(retry_delay_ms(2), 2000);
    assert!(should_retry(0));
    assert!(should_retry(MAX_RETRIES - 1));
    assert!(!should_retry(MAX_RETRIES));
}

#[test]
fn stage_progress_reports_percent_and_text() {
    assert_eq!(stage_progress(DownloadStage::Listing), (5, "スライド取得中...".to_string()));
    assert_eq!(stage_progress(DownloadStage::Fetching { done: 0, total: 4 }), (10, "コンテンツ取得中... (0/4)".to_string()));
    assert_eq!(stage_progress(DownloadStage::Fetching { done: 3, total: 4 }), (47, "コンテンツ取得中... (3/4)".to_string()));
    assert_eq!(stage_progress(DownloadStage::Preparing), (60, "前処理中...".to_string()));
    assert_eq!(stage_progress(DownloadStage::Prepared { done: 1, total: 3 }), (66, "前処理中... (1/3)".to_string()));
    assert_eq!(stage_progress(DownloadStage::Converting), (85, "PDF変換中...".to_string()));
    assert_eq!(stage_progress(DownloadStage::Saved), (95, "保存完了".to_string()));
}

#[test]
fn download_progress_rises_to_ninety_five() {
    let n = 3;
    let mut stages = vec![DownloadStage::Listing];
    for done in 0..=n {
        stages.push(DownloadStage::Fetching { done, total: n });
    }
    stages.push(DownloadStage::Preparing);
    for done in 1..=n {
        stages.push(DownloadStage::Prepared { done, total: n });
    }
    stages.push(DownloadStage::Converting);
    stages.push(DownloadStage::Saved);
    let percents: Vec<u8> = stages.into_iter().map(|s| stage_progress(s).0).collect();
    assert_eq!(percents, vec![5, 10, 26, 43, 60, 60, 66, 73, 80, 85, 95]);
    assert!(percents.windows(2).all(|w| w[0] <= w[1]));
}
