//! The documentation UI: an HTML page, served under a base path, that loads
//! the API document from the URL it was mounted with.

use vstd::prelude::*;
use vstd::string::{StrSliceExecFns, StringExecFns};

verus! {

/// How `c` is written inside a double-quoted HTML attribute.
pub open spec fn html_escaped_char(c: char) -> Seq<char> {
    if c == '&' {
        "&amp;"@
    } else if c == '<' {
        "&lt;"@
    } else if c == '>' {
        "&gt;"@
    } else if c == '"' {
        "&quot;"@
    } else if c == '\'' {
        "&#39;"@
    } else {
        seq![c]
    }
}

/// `text` as it is written inside a double-quoted HTML attribute.
pub open spec fn html_escaped(text: Seq<char>) -> Seq<char>
    decreases text.len(),
{
    if text.len() == 0 {
        Seq::empty()
    } else {
        html_escaped(text.drop_last()) + html_escaped_char(text.last())
    }
}

/// Whether `c` stands for itself inside an HTML attribute.
pub open spec fn is_plain_char(c: char) -> bool {
    c != '&' && c != '<' && c != '>' && c != '"' && c != '\''
}

/// A text without special characters is written as it is.
pub proof fn lemma_plain_text_unchanged(text: Seq<char>)
    requires
        forall|i: int| 0 <= i < text.len() ==> is_plain_char(#[trigger] text[i]),
    ensures
        html_escaped(text) == text,
    decreases text.len(),
{
    if text.len() > 0 {
        lemma_plain_text_unchanged(text.drop_last());
    }
}

/// `text` as it is written inside a double-quoted HTML attribute.
pub fn escape_html(text: &str) -> (r: String)
    ensures
        r@ == html_escaped(text@),
{
    let n = text.unicode_len();
    let mut out = String::new();
    let mut i: usize = 0;
    while i < n
        invariant
            i <= n,
            n == text@.len(),
            out@ == html_escaped(text@.take(i as int)),
        decreases n - i,
    {
        let c = text.get_char(i);
        assert(text@.take(i as int + 1).drop_last() =~= text@.take(i as int));
        if c == '&' {
            out.append("&amp;");
        } else if c == '<' {
            out.append("&lt;");
        } else if c == '>' {
            out.append("&gt;");
        } else if c == '"' {
            out.append("&quot;");
        } else if c == '\'' {
            out.append("&#39;");
        } else {
            let one = text.substring_char(i, i + 1);
            out.append(one);
        }
        i += 1;
    }
    assert(text@.take(n as int) =~= text@);
    out
}

/// The page up to the URL of the API document.
pub open spec fn page_head() -> Seq<char> {
    "<!DOCTYPE html>\n<html lang=\"en\">\n<head>\n<meta charset=\"utf-8\">\n<title>API documentation</title>\n<link rel=\"stylesheet\" href=\"swagger-ui.css\">\n</head>\n<body>\n<div id=\"swagger-ui\" data-url=\""@
}

/// The page after the URL of the API document.
pub open spec fn page_tail() -> Seq<char> {
    "\"></div>\n<script src=\"swagger-ui-bundle.js\"></script>\n<script src=\"swagger-ui-standalone-preset.js\"></script>\n<script>\nwindow.onload = function () {\n  var root = document.getElementById(\"swagger-ui\");\n  window.ui = SwaggerUIBundle({\n    url: root.getAttribute(\"data-url\"),\n    dom_id: \"#swagger-ui\",\n    presets: [SwaggerUIBundle.presets.apis, SwaggerUIStandalonePreset],\n    layout: \"StandaloneLayout\"\n  });\n};\n</script>\n</body>\n</html>\n"@
}

/// The page of the documentation UI that loads the API document from
/// `document_url`.
pub open spec fn ui_page(document_url: Seq<char>) -> Seq<char> {
    page_head() + html_escaped(document_url) + page_tail()
}

/// Whether `path` lies under `base_path`: it begins with it and goes on.
pub open spec fn is_under(base_path: Seq<char>, path: Seq<char>) -> bool {
    base_path.len() < path.len() && path.subrange(0, base_path.len() as int) == base_path
}

/// A mounted documentation UI as a mathematical value.
pub struct UiView {
    pub base_path: Seq<char>,
    pub document_url: Seq<char>,
}

/// The documentation UI, mounted under a base path and configured with the URL
/// of the API document. The URL may be relative to the base path.
pub struct UiMount {
    base_path: String,
    document_url: String,
}

impl View for UiMount {
    type V = UiView;

    closed spec fn view(&self) -> UiView {
        UiView { base_path: self.base_path@, document_url: self.document_url@ }
    }
}

impl UiMount {
    /// Mounts the UI under `base_path`, to load the API document from
    /// `document_url`.
    pub fn mount(base_path: String, document_url: String) -> (r: UiMount)
        ensures
            r@ == (UiView { base_path: base_path@, document_url: document_url@ }),
    {
        UiMount { base_path, document_url }
    }

    /// The path under which the UI is served.
    pub fn base_path(&self) -> (r: &String)
        ensures
            r@ == self@.base_path,
    {
        &self.base_path
    }

    /// The URL from which the UI loads the API document.
    pub fn document_url(&self) -> (r: &String)
        ensures
            r@ == self@.document_url,
    {
        &self.document_url
    }

    /// Whether `path` lies under the base path of the UI, where the static
    /// files of the UI are served.
    pub fn holds(&self, path: &str) -> (r: bool)
        ensures
            r == is_under(self@.base_path, path@),
    {
        let base = self.base_path.as_str();
        let n = base.unicode_len();
        let m = path.unicode_len();
        if n >= m {
            return false;
        }
        let mut i: usize = 0;
        while i < n
            invariant
                i <= n,
                n < m,
                n == base@.len(),
                m == path@.len(),
                base@ == self@.base_path,
                forall|j: int| 0 <= j < i ==> base@[j] == path@[j],
            decreases n - i,
        {
            if base.get_char(i) != path.get_char(i) {
                return false;
            }
            i += 1;
        }
        assert(path@.subrange(0, n as int) =~= base@);
        true
    }

    /// The HTML page of the UI. The only thing in it that depends on the mount
    /// is the URL of the API document.
    pub fn page(&self) -> (r: String)
        ensures
            r@ == ui_page(self@.document_url),
    {
        let mut out = String::from_str(
            "<!DOCTYPE html>\n<html lang=\"en\">\n<head>\n<meta charset=\"utf-8\">\n<title>API documentation</title>\n<link rel=\"stylesheet\" href=\"swagger-ui.css\">\n</head>\n<body>\n<div id=\"swagger-ui\" data-url=\"",
        );
        out.append(escape_html(self.document_url.as_str()).as_str());
        out.append(
            "\"></div>\n<script src=\"swagger-ui-bundle.js\"></script>\n<script src=\"swagger-ui-standalone-preset.js\"></script>\n<script>\nwindow.onload = function () {\n  var root = document.getElementById(\"swagger-ui\");\n  window.ui = SwaggerUIBundle({\n    url: root.getAttribute(\"data-url\"),\n    dom_id: \"#swagger-ui\",\n    presets: [SwaggerUIBundle.presets.apis, SwaggerUIStandalonePreset],\n    layout: \"StandaloneLayout\"\n  });\n};\n</script>\n</body>\n</html>\n",
        );
        out
    }
}

} // verus!
