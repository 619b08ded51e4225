//! Message-content scanning for the renderer: locating fenced code blocks
//! in a message and pulling the code out of one block.
//!
//! Positions and ranges are character positions into the message text.

use std::ops::Range;

use vstd::prelude::*;

use crate::text::find_char_from;
use crate::text::lemma_find_char_bounds;
use crate::text::lemma_find_char_is;
use crate::text::lemma_first_match_none;
use crate::text::lemma_first_match_some;
use crate::text::find_str;
use crate::text::spec_find_char;
use crate::text::spec_first_match;
use crate::text::spec_trim;
use crate::text::starts_with_seq;
use crate::text::str_starts_with;
use crate::text::trim_str;

verus! {

/// Rendering support for message content.
pub struct ChatRenderer;

/// Spec model of one fenced code block: its character range in the
/// message, and the language tag on its opening fence, if any.
pub struct CodeBlockModel {
    pub start: int,
    pub end: int,
    pub lang: Option<Seq<char>>,
}

/// Whether a line opens or closes a fence: it starts, after trimming,
/// with three backticks.
pub open spec fn spec_fence_line(line: Seq<char>) -> bool {
    starts_with_seq(spec_trim(line), "```"@)
}

/// The language tag of an opening fence line: what follows the backticks,
/// trimmed; `None` when nothing does.
pub open spec fn spec_fence_lang(line: Seq<char>) -> Option<Seq<char>> {
    let t = spec_trim(line);
    let lang_txt = spec_trim(t.subrange("```"@.len() as int, t.len() as int));
    if lang_txt.len() == 0 {
        None
    } else {
        Some(lang_txt)
    }
}

/// The code blocks found scanning the message line by line from `pos`,
/// with `open` the start and language of an unclosed fence, if one is
/// open. A fence line toggles: it opens a block at its line's start, or
/// closes the open one at its line's end. An unclosed block at the end
/// of the message runs to the end.
pub open spec fn spec_scan_blocks(
    s: Seq<char>,
    pos: int,
    open: Option<(int, Option<Seq<char>>)>,
) -> Seq<CodeBlockModel>
    decreases s.len() - pos,
    when 0 <= pos
    via spec_scan_blocks_decreases
{
    if pos >= s.len() {
        match open {
            None => Seq::empty(),
            Some((st, lg)) => seq![CodeBlockModel { start: st, end: s.len() as int, lang: lg }],
        }
    } else {
        let nl = pos + spec_find_char(s.subrange(pos, s.len() as int), '\n');
        let line_end = if nl < s.len() {
            nl + 1
        } else {
            s.len() as int
        };
        let line = s.subrange(pos, line_end);
        if spec_fence_line(line) {
            match open {
                None => spec_scan_blocks(s, line_end, Some((pos, spec_fence_lang(line)))),
                Some((st, lg)) => seq![CodeBlockModel { start: st, end: line_end, lang: lg }]
                    + spec_scan_blocks(s, line_end, None),
            }
        } else {
            spec_scan_blocks(s, line_end, open)
        }
    }
}

#[via_fn]
proof fn spec_scan_blocks_decreases(s: Seq<char>, pos: int, open: Option<(int, Option<Seq<char>>)>) {
    if 0 <= pos < s.len() {
        lemma_find_char_bounds(s.subrange(pos, s.len() as int), '\n');
    }
}

/// The code blocks of a whole message.
pub open spec fn spec_code_blocks(s: Seq<char>) -> Seq<CodeBlockModel> {
    spec_scan_blocks(s, 0, None)
}

/// What `extract_code` returns: the text between the first opening
/// marker (three backticks and the language tag, when one is given) and
/// the next closing backticks, or the end of the text, trimmed; empty
/// when the opening marker does not occur.
pub open spec fn spec_extract_code(text: Seq<char>, lang: Option<Seq<char>>) -> Seq<char> {
    let marker = "```"@ + (match lang {
        Some(l) => l,
        None => Seq::<char>::empty(),
    });
    match spec_first_match(text, marker) {
        None => Seq::empty(),
        Some(p) => {
            let start = p + marker.len();
            let rest = text.subrange(start as int, text.len() as int);
            let end = match spec_first_match(rest, "```"@) {
                Some(q) => start + q,
                None => text.len() as int,
            };
            spec_trim(text.subrange(start as int, end))
        },
    }
}

impl ChatRenderer {
    /// Finds the fenced code blocks of a message, as character ranges
    /// with their language tags, in the sense of `spec_code_blocks`.
    pub fn find_code_blocks(content: &str) -> (r: Vec<(Range<usize>, Option<String>)>)
        ensures
            ({
                let blocks = spec_code_blocks(content@);
                &&& r@.len() == blocks.len()
                &&& forall|i: int|
                    0 <= i < blocks.len() ==> (#[trigger] r@[i]).0.start == blocks[i].start
                        && r@[i].0.end == blocks[i].end && r@[i].1.deep_view() == blocks[i].lang
            }),
    {
        let len = content.unicode_len();
        let mut r: Vec<(Range<usize>, Option<String>)> = Vec::new();
        let mut pos: usize = 0;
        let mut open = false;
        let mut open_start: usize = 0;
        let mut open_lang: Option<String> = None;
        let ghost mut bs: Seq<CodeBlockModel> = Seq::empty();
        while pos < len
            invariant
                len == content@.len(),
                0 <= pos <= len,
                r@.len() == bs.len(),
                forall|i: int|
                    0 <= i < bs.len() ==> (#[trigger] r@[i]).0.start == bs[i].start
                        && r@[i].0.end == bs[i].end && r@[i].1.deep_view() == bs[i].lang,
                open ==> open_start <= pos,
                spec_code_blocks(content@) =~= bs + spec_scan_blocks(
                    content@,
                    pos as int,
                    (if open {
                        Some((open_start as int, open_lang.deep_view()))
                    } else {
                        None
                    }),
                ),
            decreases len - pos,
        {
            let ghost pre_pos = pos as int;
            let ghost pre_open_model: Option<(int, Option<Seq<char>>)> = if open {
                Some((open_start as int, open_lang.deep_view()))
            } else {
                None
            };
            let nl = find_char_from(content, pos, '\n');
            let line_end = if nl < len {
                nl + 1
            } else {
                len
            };
            let line = content.substring_char(pos, line_end);
            proof {
                lemma_find_char_is(content@.subrange(pos as int, len as int), '\n', nl - pos);
                reveal_strlit("```");
            }
            let t = trim_str(line);
            if str_starts_with(t, "```") {
                proof {
                    assert(spec_fence_line(line@));
                }
                if !open {
                    open = true;
                    open_start = pos;
                    let t_len = t.unicode_len();
                    let lang_txt = trim_str(t.substring_char(3, t_len));
                    open_lang = if lang_txt.unicode_len() == 0 {
                        None
                    } else {
                        Some(lang_txt.to_owned())
                    };
                    proof {
                        assert(open_lang.deep_view() == spec_fence_lang(line@));
                        assert(spec_scan_blocks(content@, pre_pos, pre_open_model)
                            =~= spec_scan_blocks(
                            content@,
                            line_end as int,
                            Some((pre_pos, spec_fence_lang(line@))),
                        ));
                    }
                } else {
                    let lang_out = open_lang;
                    open_lang = None;
                    let ghost closed = CodeBlockModel {
                        start: open_start as int,
                        end: line_end as int,
                        lang: lang_out.deep_view(),
                    };
                    r.push((Range { start: open_start, end: line_end }, lang_out));
                    proof {
                        let ghost pre_bs = bs;
                        bs = bs.push(closed);
                        assert(spec_scan_blocks(content@, pre_pos, pre_open_model)
                            =~= seq![closed] + spec_scan_blocks(content@, line_end as int, None));
                        assert(pre_bs + (seq![closed] + spec_scan_blocks(
                            content@,
                            line_end as int,
                            None,
                        )) =~= bs + spec_scan_blocks(content@, line_end as int, None));
                    }
                    open = false;
                }
            } else {
                proof {
                    assert(!spec_fence_line(line@));
                    assert(spec_scan_blocks(content@, pre_pos, pre_open_model)
                        =~= spec_scan_blocks(content@, line_end as int, pre_open_model));
                }
            }
            pos = line_end;
        }
        if open {
            let ghost closed = CodeBlockModel {
                start: open_start as int,
                end: len as int,
                lang: open_lang.deep_view(),
            };
            r.push((Range { start: open_start, end: len }, open_lang));
            proof {
                bs = bs.push(closed);
                assert(bs.drop_last() + seq![closed] =~= bs);
            }
        }
        proof {
            assert(spec_code_blocks(content@) =~= bs);
        }
        r
    }

    /// Pulls the code out of one fenced block, in the sense of
    /// `spec_extract_code`: the text between the opening marker for the
    /// given language and the next closing fence, trimmed.
    pub fn extract_code(text: &str, lang: Option<&str>) -> (r: String)
        ensures
            r@ == spec_extract_code(text@, lang.deep_view()),
    {
        let mut marker = "```".to_owned();
        match lang {
            Some(l) => {
                marker.append(l);
            },
            None => {
                proof {
                    assert(marker@ =~= "```"@ + Seq::<char>::empty());
                }
            },
        }
        let text_len = text.unicode_len();
        let p = match find_str(text, marker.as_str()) {
            Some(p) => {
                proof {
                    lemma_first_match_some(text@, marker@, p as int);
                }
                p
            },
            None => {
                proof {
                    lemma_first_match_none(text@, marker@);
                }
                return String::new();
            },
        };
        let start = p + marker.as_str().unicode_len();
        let rest = text.substring_char(start, text_len);
        let end = match find_str(rest, "```") {
            Some(q) => {
                proof {
                    lemma_first_match_some(rest@, "```"@, q as int);
                }
                start + q
            },
            None => {
                proof {
                    lemma_first_match_none(rest@, "```"@);
                }
                text_len
            },
        };
        trim_str(text.substring_char(start, end)).to_owned()
    }
}

} // verus!
