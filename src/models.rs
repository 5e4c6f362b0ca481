//! Records handed to storage.

use vstd::prelude::*;

verus! {

/// A report to store: the HTML page with its optional style, script and
/// English translations.
pub struct NewCryptoReport {
    pub html_content: String,
    pub css_content: Option<String>,
    pub js_content: Option<String>,
    pub html_content_en: Option<String>,
    pub js_content_en: Option<String>,
}

pub struct NewCryptoReportView {
    pub html_content: Seq<char>,
    pub css_content: Option<Seq<char>>,
    pub js_content: Option<Seq<char>>,
    pub html_content_en: Option<Seq<char>>,
    pub js_content_en: Option<Seq<char>>,
}

impl View for NewCryptoReport {
    type V = NewCryptoReportView;

    open spec fn view(&self) -> NewCryptoReportView {
        NewCryptoReportView {
            html_content: self.html_content@,
            css_content: self.css_content.deep_view(),
            js_content: self.js_content.deep_view(),
            html_content_en: self.html_content_en.deep_view(),
            js_content_en: self.js_content_en.deep_view(),
        }
    }
}

/// An article to store.
pub struct NewArticle {
    pub title: String,
    pub content: Option<String>,
    pub summary: Option<String>,
    /// Stock symbol, such as `VNM`.
    pub symbol: Option<String>,
    /// Kind of report, such as `daily`.
    pub report_type: Option<String>,
    pub is_published: Option<bool>,
}

} // verus!
