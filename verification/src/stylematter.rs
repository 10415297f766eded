//! The style matter of a slide: an optional block of stylesheet source,
//! fenced by `+++`, at the very start of the slide's text.

use crate::text::{
    find_first, find_from, from_chars, lemma_find_first, lemma_find_first_is, matches_at,
    occurs_at, to_chars,
};
use vstd::prelude::*;

verus! {

/// The fence that opens and closes the style matter.
pub const FENCE: &'static str = "+++";

/// White space that may stand before the opening fence: space, tab, line
/// feed, vertical tab, form feed and carriage return.
pub open spec fn is_space(c: char) -> bool {
    c == ' ' || c == '\t' || c == '\n' || c == '\u{0B}' || c == '\u{0C}' || c == '\r'
}

/// The first index at or after `from` that holds no white space.
pub open spec fn skip_spaces(text: Seq<char>, from: int) -> int
    decreases text.len() - from,
{
    if 0 <= from < text.len() && is_space(text[from]) {
        skip_spaces(text, from + 1)
    } else {
        from
    }
}

/// The index behind the line end at `at`, which is a line feed with or
/// without a carriage return before it.
pub open spec fn after_line_end(text: Seq<char>, at: int) -> Option<int> {
    if 0 <= at < text.len() && text[at] == '\n' {
        Some(at + 1)
    } else if 0 <= at && at + 1 < text.len() && text[at] == '\r' && text[at + 1] == '\n' {
        Some(at + 2)
    } else {
        None
    }
}

/// The index behind a carriage return at `at`, if there is one, and behind
/// a line feed after that, if there is one.
pub open spec fn after_optional_line_end(text: Seq<char>, at: int) -> int {
    let next = if 0 <= at < text.len() && text[at] == '\r' {
        at + 1
    } else {
        at
    };
    if 0 <= next < text.len() && text[next] == '\n' {
        next + 1
    } else {
        next
    }
}

/// A slide's text taken apart.
pub struct SplitSlide {
    /// What stood between the fences.
    pub matter: Option<Seq<char>>,
    /// The text that is left.
    pub body: Seq<char>,
}

/// The style matter and the body of a slide.
///
/// The text has style matter when, after white space only, it holds the
/// fence, a line end, and somewhere behind that the fence again. The matter
/// runs from behind the first line end to the first fence that follows; the
/// body starts behind that fence and the line end after it, if any. A text
/// without style matter is its own body.
pub open spec fn split_style_matter(text: Seq<char>) -> SplitSlide {
    let open: int = skip_spaces(text, 0);
    if !occurs_at(text, FENCE@, open) {
        SplitSlide { matter: None, body: text }
    } else {
        match after_line_end(text, open + FENCE@.len()) {
            None => SplitSlide { matter: None, body: text },
            Some(content) => match find_first(text, FENCE@, content) {
                None => SplitSlide { matter: None, body: text },
                Some(close) => SplitSlide {
                    matter: Some(text.subrange(content, close)),
                    body: text.subrange(
                        after_optional_line_end(text, close + FENCE@.len()),
                        text.len() as int,
                    ),
                },
            },
        }
    }
}

fn is_space_char(c: char) -> (space: bool)
    ensures
        space == is_space(c),
{
    c == ' ' || c == '\t' || c == '\n' || c == '\u{0B}' || c == '\u{0C}' || c == '\r'
}

/// Takes the style matter off the start of a slide's text.
///
/// Returns the matter, if the slide has any, and the body.
pub fn split_stylematter(slide_content: &str) -> (parts: (Option<String>, String))
    ensures
        match parts.0 {
            Some(matter) => split_style_matter(slide_content@).matter == Some(matter@),
            None => split_style_matter(slide_content@).matter is None,
        },
        parts.1@ == split_style_matter(slide_content@).body,
{
    let text = to_chars(slide_content);
    let fence = to_chars(FENCE);
    proof {
        reveal_strlit("+++");
    }
    let mut open: usize = 0;
    while open < text.len() && is_space_char(text[open])
        invariant
            open <= text.len(),
            skip_spaces(text@, 0) == skip_spaces(text@, open as int),
        decreases text.len() - open,
    {
        open += 1;
    }
    if !matches_at(&text, &fence, open) {
        return (None, slide_content.to_owned());
    }
    let after_fence: usize = open + fence.len();
    let content: usize = if after_fence < text.len() && text[after_fence] == '\n' {
        after_fence + 1
    } else if after_fence < text.len() - 1 && text[after_fence] == '\r' && text[after_fence + 1]
        == '\n' {
        after_fence + 2
    } else {
        return (None, slide_content.to_owned());
    };
    let close: usize = match find_from(&text, &fence, content) {
        Some(close) => close,
        None => {
            return (None, slide_content.to_owned());
        },
    };
    proof {
        lemma_find_first(text@, fence@, content as int);
    }
    let mut body_start: usize = close + fence.len();
    if body_start < text.len() && text[body_start] == '\r' {
        body_start += 1;
    }
    if body_start < text.len() && text[body_start] == '\n' {
        body_start += 1;
    }
    let mut matter: Vec<char> = Vec::new();
    crate::text::push_range(&mut matter, &text, content, close);
    let mut body: Vec<char> = Vec::new();
    crate::text::push_range(&mut body, &text, body_start, text.len());
    (Some(from_chars(&matter)), from_chars(&body))
}

/// `text` without the white space at its start.
pub open spec fn trim_start(text: Seq<char>) -> Seq<char> {
    text.subrange(skip_spaces(text, 0), text.len() as int)
}

/// `text` begins with `prefix`.
pub open spec fn starts_with(text: Seq<char>, prefix: Seq<char>) -> bool {
    occurs_at(text, prefix, 0)
}

/// Skipping white space from an index within the text ends within the text,
/// at or behind that index.
pub proof fn lemma_skip_spaces_bounds(text: Seq<char>, from: int)
    requires
        0 <= from <= text.len(),
    ensures
        from <= skip_spaces(text, from) <= text.len(),
    decreases text.len() - from,
{
    if from < text.len() && is_space(text[from]) {
        lemma_skip_spaces_bounds(text, from + 1);
    }
}

/// A text that does not begin with the fence, white space at its start
/// aside, has no style matter and is its own body.
pub proof fn lemma_no_fence_no_matter(text: Seq<char>)
    requires
        !starts_with(trim_start(text), FENCE@),
    ensures
        split_style_matter(text) == (SplitSlide { matter: None, body: text }),
{
    let open: int = skip_spaces(text, 0);
    lemma_skip_spaces_bounds(text, 0);
    if occurs_at(text, FENCE@, open) {
        assert(trim_start(text).subrange(0, FENCE@.len() as int) =~= text.subrange(
            open,
            open + FENCE@.len(),
        ));
    }
}

/// A text made of the fence, a line feed, a matter that holds no fence, a
/// line feed, the fence, a line feed and a body splits into the matter with
/// its line feed, and the body.
pub proof fn lemma_fenced_matter_splits(matter: Seq<char>, body: Seq<char>)
    requires
        forall|k: int| !occurs_at(matter, FENCE@, k),
    ensures
        split_style_matter("+++\n"@ + matter + "\n+++\n"@ + body) == (SplitSlide {
            matter: Some(matter + seq!['\n']),
            body,
        }),
{
    reveal_strlit("+++");
    reveal_strlit("+++\n");
    reveal_strlit("\n+++\n");
    let text = "+++\n"@ + matter + "\n+++\n"@ + body;
    let content: int = 4;
    let size: int = matter.len() as int;
    let close: int = 4 + size + 1;
    assert(text[0] == '+');
    assert(skip_spaces(text, 0) == 0);
    assert(text.subrange(0, 3) =~= FENCE@);
    assert(text[3] == '\n');
    assert(after_line_end(text, 3) == Some(content));
    assert(text.subrange(close, close + 3) =~= FENCE@);
    assert forall|k: int| content <= k < close implies !occurs_at(text, FENCE@, k) by {
        if occurs_at(text, FENCE@, k) {
            let window = text.subrange(k, k + 3);
            assert(window[0] == '+' && window[1] == '+' && window[2] == '+');
            assert(text[4 + size] == '\n');
            if k + 3 <= 4 + size {
                assert(matter.subrange(k - 4, k - 4 + 3) =~= window);
                assert(occurs_at(matter, FENCE@, k - 4));
            } else {
                assert(window[4 + size - k] == text[4 + size]);
            }
        }
    }
    lemma_find_first_is(text, FENCE@, content, close);
    assert(text[close + 3] == '\n');
    assert(after_optional_line_end(text, close + 3) == close + 4);
    assert(text.subrange(content, close) =~= matter + seq!['\n']);
    assert(text.subrange(close + 4, text.len() as int) =~= body);
}

} // verus!
