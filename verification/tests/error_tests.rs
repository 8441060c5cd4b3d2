use collect_tui::error::{error_popup_text, CollectError, TuiError};

#[test]
fn user_messages() {
    let a = TuiError::Authentication { reason: "bad password".to_string() };
    assert_eq!(a.user_message(), "認証に失敗しました\n\nbad password\n\nユーザー名とパスワードを確認してください。");
    let n = TuiError::Network { message: "timeout".to_string() };
    assert_eq!(n.user_message(), "ネットワークエラーが発生しました\n\ntimeout\n\nインターネット接続を確認してください。");
    let d = TuiError::DataFetch { resource: "講義一覧".to_string(), details: "404".to_string() };
    assert_eq!(d.user_message(), "講義一覧の取得に失敗しました\n\n404");
}

#[test]
fn display_texts() {
    assert_eq!(TuiError::Authentication { reason: "r".to_string() }.display_text(), "認証に失敗しました: r");
    assert_eq!(TuiError::Network { message: "m".to_string() }.display_text(), "ネットワークエラー: m");
    assert_eq!(
        TuiError::DataFetch { resource: "x".to_string(), details: "y".to_string() }.display_text(),
        "データの取得に失敗しました: x"
    );
}

#[test]
fn service_failures_map_to_errors() {
    match TuiError::from_collect(CollectError::Authentication { reason: "denied".to_string() }, "認証") {
        TuiError::Authentication { reason } => assert_eq!(reason, "denied"),
        other => panic!("unexpected {:?}", other),
    }
    match TuiError::from_collect(CollectError::Network { message: "offline".to_string() }, "科目一覧") {
        TuiError::Network { message } => assert_eq!(message, "offline"),
        other => panic!("unexpected {:?}", other),
    }
    match TuiError::from_collect(CollectError::Other { message: "parse".to_string() }, "ページ一覧") {
        TuiError::DataFetch { resource, details } => {
            assert_eq!(resource, "ページ一覧");
            assert_eq!(details, "parse");
        }
        other => panic!("unexpected {:?}", other),
    }
}

#[test]
fn popup_text() {
    assert_eq!(error_popup_text("oops"), "oops\n\nPress ESC to dismiss");
}
