//! Language-name handling for the syntax highlighter: mapping the short
//! names users write on code fences to the names the highlighting
//! grammars are registered under.

use vstd::prelude::*;

use crate::text::lower_str;
use crate::text::spec_lower;
use crate::text::str_eq;

verus! {

/// Syntax-coloring support for fenced code blocks.
pub struct SyntaxHighlighter;

/// The grammar name a fence language tag resolves to: common short names
/// are spelled out after lowercasing; anything else is kept as written.
pub open spec fn spec_language_alias(lang: Seq<char>) -> Seq<char> {
    let l = spec_lower(lang);
    if l == "js"@ {
        "javascript"@
    } else if l == "ts"@ {
        "typescript"@
    } else if l == "py"@ {
        "python"@
    } else if l == "rb"@ {
        "ruby"@
    } else if l == "rs"@ {
        "rust"@
    } else if l == "sh"@ {
        "bash"@
    } else if l == "c++"@ || l == "cpp"@ || l == "c"@ {
        "c++"@
    } else if l == "cs"@ {
        "csharp"@
    } else {
        lang
    }
}

impl SyntaxHighlighter {
    /// Resolves a fence language tag to the grammar name to look up, in
    /// the sense of `spec_language_alias`.
    pub fn language_alias(language: &str) -> (r: String)
        ensures
            r@ == spec_language_alias(language@),
    {
        let l = lower_str(language);
        if str_eq(l.as_str(), "js") {
            "javascript".to_owned()
        } else if str_eq(l.as_str(), "ts") {
            "typescript".to_owned()
        } else if str_eq(l.as_str(), "py") {
            "python".to_owned()
        } else if str_eq(l.as_str(), "rb") {
            "ruby".to_owned()
        } else if str_eq(l.as_str(), "rs") {
            "rust".to_owned()
        } else if str_eq(l.as_str(), "sh") {
            "bash".to_owned()
        } else if str_eq(l.as_str(), "c++") || str_eq(l.as_str(), "cpp") || str_eq(
            l.as_str(),
            "c",
        ) {
            "c++".to_owned()
        } else if str_eq(l.as_str(), "cs") {
            "csharp".to_owned()
        } else {
            language.to_owned()
        }
    }
}

} // verus!
