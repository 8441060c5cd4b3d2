//! Errors shown to the user, and how failures of the lecture service map
//! onto them.

use vstd::prelude::*;

verus! {

/// A failure reported by the lecture service. `message` holds the
/// service's own description of the failure.
#[derive(Debug)]
pub enum CollectError {
    Authentication { reason: String },
    Network { message: String },
    Other { message: String },
}

/// An error of the application.
#[derive(Debug)]
pub enum TuiError {
    Authentication { reason: String },
    Network { message: String },
    DataFetch { resource: String, details: String },
}

/// Abstract value of a [`TuiError`].
pub enum TuiErrorView {
    Authentication { reason: Seq<char> },
    Network { message: Seq<char> },
    DataFetch { resource: Seq<char>, details: Seq<char> },
}

impl View for TuiError {
    type V = TuiErrorView;

    open spec fn view(&self) -> TuiErrorView {
        match self {
            TuiError::Authentication { reason } => TuiErrorView::Authentication { reason: reason@ },
            TuiError::Network { message } => TuiErrorView::Network { message: message@ },
            TuiError::DataFetch { resource, details } => TuiErrorView::DataFetch {
                resource: resource@,
                details: details@,
            },
        }
    }
}

/// The text shown in the error box.
pub open spec fn user_message_of(e: TuiErrorView) -> Seq<char> {
    match e {
        TuiErrorView::Authentication { reason } => "認証に失敗しました\n\n"@ + reason
            + "\n\nユーザー名とパスワードを確認してください。"@,
        TuiErrorView::Network { message } => "ネットワークエラーが発生しました\n\n"@ + message
            + "\n\nインターネット接続を確認してください。"@,
        TuiErrorView::DataFetch { resource, details } => resource + "の取得に失敗しました\n\n"@ + details,
    }
}

/// The one-line description of an error.
pub open spec fn display_text_of(e: TuiErrorView) -> Seq<char> {
    match e {
        TuiErrorView::Authentication { reason } => "認証に失敗しました: "@ + reason,
        TuiErrorView::Network { message } => "ネットワークエラー: "@ + message,
        TuiErrorView::DataFetch { resource, .. } => "データの取得に失敗しました: "@ + resource,
    }
}

/// The error for a failure of the service while doing `context`.
pub open spec fn error_for(e: CollectError, context: Seq<char>) -> TuiErrorView {
    match e {
        CollectError::Authentication { reason } => TuiErrorView::Authentication { reason: reason@ },
        CollectError::Network { message } => TuiErrorView::Network { message: message@ },
        CollectError::Other { message } => TuiErrorView::DataFetch { resource: context, details: message@ },
    }
}

impl Clone for TuiError {
    fn clone(&self) -> (r: Self)
        ensures
            r@ == self@,
    {
        match self {
            TuiError::Authentication { reason } => TuiError::Authentication { reason: reason.clone() },
            TuiError::Network { message } => TuiError::Network { message: message.clone() },
            TuiError::DataFetch { resource, details } => TuiError::DataFetch {
                resource: resource.clone(),
                details: details.clone(),
            },
        }
    }
}

impl TuiError {
    /// The text shown in the error box.
    pub fn user_message(&self) -> (s: String)
        ensures
            s@ == user_message_of(self@),
    {
        match self {
            TuiError::Authentication { reason } => {
                let mut s = String::from_str("認証に失敗しました\n\n");
                s.append(reason.as_str());
                s.append("\n\nユーザー名とパスワードを確認してください。");
                s
            },
            TuiError::Network { message } => {
                let mut s = String::from_str("ネットワークエラーが発生しました\n\n");
                s.append(message.as_str());
                s.append("\n\nインターネット接続を確認してください。");
                s
            },
            TuiError::DataFetch { resource, details } => {
                let mut s = resource.clone();
                s.append("の取得に失敗しました\n\n");
                s.append(details.as_str());
                s
            },
        }
    }

    /// The one-line description of the error.
    pub fn display_text(&self) -> (s: String)
        ensures
            s@ == display_text_of(self@),
    {
        match self {
            TuiError::Authentication { reason } => {
                let mut s = String::from_str("認証に失敗しました: ");
                s.append(reason.as_str());
                s
            },
            TuiError::Network { message } => {
                let mut s = String::from_str("ネットワークエラー: ");
                s.append(message.as_str());
                s
            },
            TuiError::DataFetch { resource, .. } => {
                let mut s = String::from_str("データの取得に失敗しました: ");
                s.append(resource.as_str());
                s
            },
        }
    }

    /// The error for a failure of the service while doing `context`: a
    /// rejected sign-in keeps its reason, a network failure its
    /// description, and anything else becomes a failure to fetch `context`.
    pub fn from_collect(e: CollectError, context: &str) -> (r: TuiError)
        ensures
            r@ == error_for(e, context@),
    {
        match e {
            CollectError::Authentication { reason } => TuiError::Authentication { reason },
            CollectError::Network { message } => TuiError::Network { message },
            CollectError::Other { message } => TuiError::DataFetch { resource: context.to_owned(), details: message },
        }
    }
}

/// The text of the error box: the message and how to dismiss it.
pub fn error_popup_text(message: &str) -> (s: String)
    ensures
        s@ == message@ + "\n\nPress ESC to dismiss"@,
{
    let mut s = message.to_owned();
    s.append("\n\nPress ESC to dismiss");
    s
}

} // verus!
