//! Rewrites of the rendered HTML: class attributes taken from markers in the
//! text, and playground buttons in front of Rust code blocks.

use crate::text::{
    decimal, find_first, find_from, from_chars, lemma_find_first, lemma_occurs_behind, occurs_at,
    push_decimal, push_range, push_str, to_chars,
};
use vstd::prelude::*;

verus! {

/// The opening tag of a Rust code block, as the markdown renderer writes it.
pub const RUST_CODE_TAG: &'static str = "<code class=\"language-rust\">";

/// What opens a class marker, after the renderer has escaped the quote.
pub const MD_CLASS_START: &'static str = "[class=&quot;";

/// What closes a class marker.
pub const MD_CLASS_END: &'static str = "&quot;]";

/// The prefix of the id shared by the two controls of a code block.
pub const CODE_BLOCK_ID_PREFIX: &'static str = "rust-code-block-";

/// The button snippet up to the id of the copy control.
pub const BUTTON_HEAD: &'static str = "<div class=\"btn-code\"><i class=\"fas fa-copy bounce-in btn-copy\" id=\"";

/// The button snippet between the two ids.
pub const BUTTON_MIDDLE: &'static str = "\"></i><i class=\"fas fa-play btn-playpen\" onclick=\"play_playpen(this.id)\" id=\"";

/// The button snippet after the id of the play control.
pub const BUTTON_TAIL: &'static str = "\"></i></div>";

/// The id of the `n`-th Rust code block of a document.
pub open spec fn code_block_id(n: nat) -> Seq<char> {
    CODE_BLOCK_ID_PREFIX@ + decimal(n)
}

/// The buttons of the `n`-th Rust code block: a copy control and a play
/// control, both carrying the block's id.
pub open spec fn playpen_button(n: nat) -> Seq<char> {
    BUTTON_HEAD@ + code_block_id(n) + BUTTON_MIDDLE@ + code_block_id(n) + BUTTON_TAIL@
}

/// `html` from `pos` on, with the buttons of block `n`, `n + 1`, ... in
/// front of each code tag, taken left to right.
pub open spec fn buttons_from(html: Seq<char>, pos: int, n: nat) -> Seq<char>
    decreases html.len() - pos,
{
    match find_first(html, RUST_CODE_TAG@, pos) {
        Some(at) => {
            proof {
                reveal_strlit("<code class=\"language-rust\">");
                lemma_find_first(html, RUST_CODE_TAG@, pos);
            }
            html.subrange(pos, at) + playpen_button(n) + RUST_CODE_TAG@ + buttons_from(
                html,
                at + RUST_CODE_TAG@.len(),
                n + 1,
            )
        },
        None => html.subrange(pos, html.len() as int),
    }
}

/// `html` with numbered buttons in front of every Rust code tag.
pub open spec fn with_playpen_buttons(html: Seq<char>) -> Seq<char> {
    buttons_from(html, 0, 0)
}

/// What opens a class attribute in a tag.
pub const CLASS_ATTRIBUTE_HEAD: &'static str = " class=\"";

/// The attribute that gives a tag the class `name`.
pub open spec fn class_attribute(name: Seq<char>) -> Seq<char> {
    CLASS_ATTRIBUTE_HEAD@ + name + seq!['"']
}

/// A tag is closed somewhere in the first `end` characters of `html`.
pub open spec fn tag_closed_before(html: Seq<char>, end: int) -> bool {
    exists|i: int| 0 <= i < end && i < html.len() && html[i] == '>'
}

/// The index of the last `>` of `text`.
pub open spec fn last_tag_close(text: Seq<char>) -> Option<int>
    decreases text.len(),
{
    if text.len() == 0 {
        None
    } else if text.last() == '>' {
        Some(text.len() - 1)
    } else {
        last_tag_close(text.drop_last())
    }
}

/// `built` with the class attribute of `name` put into its last tag, just
/// before the `>` that closes it.
pub open spec fn with_class(built: Seq<char>, name: Seq<char>) -> Seq<char> {
    match last_tag_close(built) {
        Some(at) => built.subrange(0, at) + class_attribute(name) + built.subrange(
            at,
            built.len() as int,
        ),
        None => built,
    }
}

/// What class injection makes of a text: the rewritten text, and the index
/// in the source of the opening marker that has no closing one, if any.
pub struct InjectedClasses {
    pub html: Seq<char>,
    pub unmatched: Option<int>,
}

/// Class injection on `html` from `pos` on, where `out` is what the text
/// before `pos` has become.
///
/// The next opening marker is looked for at or after `pos`, and its closing
/// marker after it. Without a closing marker the rest of the source is kept
/// as it is. With one, and with a tag closed before the marker, the marker
/// leaves the text and its name goes into the last tag of what is built so
/// far; with none, the marker stays and the search goes on behind it.
pub open spec fn inject_from(html: Seq<char>, pos: int, out: Seq<char>) -> InjectedClasses
    decreases html.len() - pos,
{
    match find_first(html, MD_CLASS_START@, pos) {
        None => InjectedClasses { html: out + html.subrange(pos, html.len() as int), unmatched: None },
        Some(start) => {
            let name_start: int = start + MD_CLASS_START@.len();
            match find_first(html, MD_CLASS_END@, name_start) {
                None => InjectedClasses {
                    html: out + html.subrange(pos, html.len() as int),
                    unmatched: Some(start),
                },
                Some(end) => {
                    proof {
                        reveal_strlit("[class=&quot;");
                        reveal_strlit("&quot;]");
                        lemma_find_first(html, MD_CLASS_START@, pos);
                        lemma_find_first(html, MD_CLASS_END@, name_start);
                    }
                    if tag_closed_before(html, start) {
                        inject_from(
                            html,
                            end + MD_CLASS_END@.len(),
                            with_class(
                                out + html.subrange(pos, start),
                                html.subrange(name_start, end),
                            ),
                        )
                    } else {
                        inject_from(html, name_start, out + html.subrange(pos, name_start))
                    }
                },
            }
        },
    }
}

/// Class injection on the whole of `html`.
pub open spec fn with_user_classes(html: Seq<char>) -> InjectedClasses {
    inject_from(html, 0, Seq::empty())
}

/// The result of class injection.
#[derive(Clone, Debug, PartialEq, Eq)]
pub struct ClassInjection {
    /// The rewritten text.
    pub html: String,
    /// Where in the source, counted in characters, an opening marker stands
    /// that no closing marker follows.
    pub unmatched: Option<usize>,
}

impl ClassInjection {
    /// The rewritten text and the place of the unmatched marker, as values
    /// of the model.
    pub open spec fn view(&self) -> InjectedClasses {
        InjectedClasses {
            html: self.html@,
            unmatched: match self.unmatched {
                Some(at) => Some(at as int),
                None => None,
            },
        }
    }

    /// What to tell the author when a marker was left unmatched.
    pub fn diagnostic(&self) -> (message: Option<String>)
        ensures
            message is Some <==> self.unmatched is Some,
            message is Some ==> message->0@ == "Unmatched class attribute"@,
    {
        match self.unmatched {
            Some(_) => Some("Unmatched class attribute".to_owned()),
            None => None,
        }
    }
}

/// The transformations of the rendered slides.
pub struct Preprocessor;

impl Preprocessor {
    /// Appends the buttons of code block `n` to `out`.
    fn push_playpen_button(out: &mut Vec<char>, n: usize)
        ensures
            final(out)@ == old(out)@ + playpen_button(n as nat),
    {
        push_str(out, BUTTON_HEAD);
        push_str(out, CODE_BLOCK_ID_PREFIX);
        push_decimal(out, n);
        push_str(out, BUTTON_MIDDLE);
        push_str(out, CODE_BLOCK_ID_PREFIX);
        push_decimal(out, n);
        push_str(out, BUTTON_TAIL);
        assert(out@ =~= old(out)@ + playpen_button(n as nat));
    }

    /// Puts a copy control and a play control in front of every Rust code
    /// block, numbered from 0 in document order.
    pub fn insert_playpen_button(html: &str) -> (out: String)
        ensures
            out@ == with_playpen_buttons(html@),
    {
        let src = to_chars(html);
        let tag = to_chars(RUST_CODE_TAG);
        proof {
            reveal_strlit("<code class=\"language-rust\">");
        }
        let mut result: Vec<char> = Vec::new();
        let mut pos: usize = 0;
        let mut count: usize = 0;
        loop
            invariant
                pos <= src.len(),
                count <= pos,
                src@ == html@,
                tag@ == RUST_CODE_TAG@,
                tag@.len() == 28,
                with_playpen_buttons(html@) == result@ + buttons_from(
                    src@,
                    pos as int,
                    count as nat,
                ),
            decreases src.len() - pos,
        {
            match find_from(&src, &tag, pos) {
                None => {
                    push_range(&mut result, &src, pos, src.len());
                    return from_chars(&result);
                },
                Some(at) => {
                    proof {
                        lemma_find_first(src@, tag@, pos as int);
                    }
                    let ghost before = result@;
                    push_range(&mut result, &src, pos, at);
                    Self::push_playpen_button(&mut result, count);
                    push_range(&mut result, &tag, 0, tag.len());
                    assert(tag@.subrange(0, tag@.len() as int) =~= tag@);
                    assert(before + (src@.subrange(pos as int, at as int) + playpen_button(
                        count as nat,
                    ) + tag@ + buttons_from(src@, at + tag@.len(), (count + 1) as nat))
                        =~= result@ + buttons_from(src@, at + tag@.len(), (count + 1) as nat));
                    pos = at + tag.len();
                    count += 1;
                },
            }
        }
    }

    /// The index of the last `>` in `text`.
    fn find_last_tag_close(text: &Vec<char>) -> (found: Option<usize>)
        ensures
            match found {
                Some(at) => last_tag_close(text@) == Some(at as int) && at < text.len(),
                None => last_tag_close(text@) is None,
            },
    {
        let mut i: usize = text.len();
        assert(text@.take(i as int) =~= text@);
        while i > 0
            invariant
                i <= text.len(),
                last_tag_close(text@) == last_tag_close(text@.take(i as int)),
            decreases i,
        {
            if text[i - 1] == '>' {
                return Some(i - 1);
            }
            assert(text@.take(i as int).drop_last() =~= text@.take(i - 1));
            i -= 1;
        }
        None
    }

    /// Puts the class attribute of `name` into the last tag of `built`.
    fn splice_class(built: &mut Vec<char>, src: &Vec<char>, name_start: usize, name_end: usize)
        requires
            name_start <= name_end <= src.len(),
        ensures
            final(built)@ == with_class(
                old(built)@,
                src@.subrange(name_start as int, name_end as int),
            ),
    {
        match Self::find_last_tag_close(built) {
            Some(at) => {
                let mut tail = built.split_off(at);
                push_str(built, CLASS_ATTRIBUTE_HEAD);
                push_range(built, src, name_start, name_end);
                built.push('"');
                built.append(&mut tail);
                assert(built@ =~= with_class(
                    old(built)@,
                    src@.subrange(name_start as int, name_end as int),
                ));
            },
            None => {},
        }
    }

    /// Moves the class names of the markers `[class=&quot;name&quot;]` into
    /// the tags that enclose them, and reports the marker that is not closed.
    pub fn inject_user_classes(html: &str) -> (out: ClassInjection)
        ensures
            out@ == with_user_classes(html@),
    {
        let src = to_chars(html);
        let open = to_chars(MD_CLASS_START);
        let close = to_chars(MD_CLASS_END);
        let tag_close: Vec<char> = vec!['>'];
        proof {
            reveal_strlit("[class=&quot;");
            reveal_strlit("&quot;]");
        }
        let first_close = find_from(&src, &tag_close, 0);
        proof {
            lemma_find_first(src@, tag_close@, 0);
            assert forall|i: int| 0 <= i < src@.len() implies (src@[i] == '>' <==> occurs_at(
                src@,
                tag_close@,
                i,
            )) by {
                assert(src@.subrange(i, i + 1)[0] == src@[i]);
                if src@[i] == '>' {
                    assert(src@.subrange(i, i + 1) =~= tag_close@);
                }
            }
        }
        let mut result: Vec<char> = Vec::new();
        let mut pos: usize = 0;
        loop
            invariant
                pos <= src.len(),
                src@ == html@,
                open@ == MD_CLASS_START@,
                close@ == MD_CLASS_END@,
                open@.len() == 13,
                close@.len() == 7,
                tag_close@ == seq!['>'],
                match first_close {
                    Some(at) => at < src.len() && src@[at as int] == '>' && forall|i: int|
                        0 <= i < at ==> src@[i] != '>',
                    None => forall|i: int| 0 <= i < src@.len() ==> src@[i] != '>',
                },
                with_user_classes(html@) == inject_from(src@, pos as int, result@),
            decreases src.len() - pos,
        {
            let start: usize = match find_from(&src, &open, pos) {
                Some(start) => start,
                None => {
                    push_range(&mut result, &src, pos, src.len());
                    return ClassInjection { html: from_chars(&result), unmatched: None };
                },
            };
            proof {
                lemma_find_first(src@, open@, pos as int);
            }
            let name_start: usize = start + open.len();
            let end: usize = match find_from(&src, &close, name_start) {
                Some(end) => end,
                None => {
                    push_range(&mut result, &src, pos, src.len());
                    return ClassInjection { html: from_chars(&result), unmatched: Some(start) };
                },
            };
            proof {
                lemma_find_first(src@, close@, name_start as int);
            }
            let enclosed = match first_close {
                Some(at) => at < start,
                None => false,
            };
            assert(enclosed == tag_closed_before(src@, start as int));
            if enclosed {
                push_range(&mut result, &src, pos, start);
                Self::splice_class(&mut result, &src, name_start, end);
                pos = end + close.len();
            } else {
                push_range(&mut result, &src, pos, name_start);
                pos = name_start;
            }
        }
    }

    /// Moves the class names of the markers `[class=&quot;name&quot;]` into
    /// the tags that enclose them.
    pub fn insert_user_class(html: &str) -> (out: String)
        ensures
            out@ == with_user_classes(html@).html,
    {
        Self::inject_user_classes(html).html
    }
}

/// The places of the code tags of `html` at or behind `pos`, left to right.
pub open spec fn code_tags_from(html: Seq<char>, pos: int) -> Seq<int>
    decreases html.len() - pos,
{
    match find_first(html, RUST_CODE_TAG@, pos) {
        Some(at) => {
            proof {
                reveal_strlit("<code class=\"language-rust\">");
                lemma_find_first(html, RUST_CODE_TAG@, pos);
            }
            seq![at] + code_tags_from(html, at + RUST_CODE_TAG@.len())
        },
        None => Seq::empty(),
    }
}

/// The length of the buttons of the blocks `first`, `first + 1`, ...,
/// `count` of them.
pub open spec fn buttons_len(first: nat, count: nat) -> int
    decreases count,
{
    if count == 0 {
        0
    } else {
        playpen_button(first).len() + buttons_len(first + 1, (count - 1) as nat)
    }
}

/// Where the text in front of the `k`-th code tag starts: at `pos` for the
/// first tag, and behind the tag before for every other.
pub open spec fn gap_start(tags: Seq<int>, pos: int, k: int) -> int {
    if k == 0 {
        pos
    } else {
        tags[k - 1] + RUST_CODE_TAG@.len()
    }
}

/// Code tags do not overlap: every place at or behind `pos` where the tag
/// stands is one of those that `code_tags_from` lists.
pub proof fn lemma_every_code_tag_is_listed(html: Seq<char>, pos: int, at: int)
    requires
        0 <= pos <= at,
        occurs_at(html, RUST_CODE_TAG@, at),
    ensures
        code_tags_from(html, pos).contains(at),
    decreases html.len() - pos,
{
    reveal_strlit("<code class=\"language-rust\">");
    lemma_find_first(html, RUST_CODE_TAG@, pos);
    let first: int = find_first(html, RUST_CODE_TAG@, pos)->0;
    let rest = code_tags_from(html, first + RUST_CODE_TAG@.len());
    if first == at {
        assert((seq![first] + rest)[0] == at);
    } else {
        if at < first + RUST_CODE_TAG@.len() {
            let tag = RUST_CODE_TAG@;
            assert(html.subrange(first, first + tag.len())[at - first] == html[at]);
            assert(html.subrange(at, at + tag.len())[0] == html[at]);
            assert(tag[0] == '<');
            assert(forall|d: int| 1 <= d < 28 ==> tag[d] != '<');
        }
        lemma_every_code_tag_is_listed(html, first + RUST_CODE_TAG@.len(), at);
        let i = choose|i: int| 0 <= i < rest.len() && rest[i] == at;
        assert((seq![first] + rest)[i + 1] == at);
    }
}

/// In the output the `k`-th code tag of the source, counted from 0 in
/// document order, stands behind the buttons with the id of number
/// `first + k` and behind the source's text in front of that tag, and the
/// three stand where the buttons before them have pushed them.
pub proof fn lemma_buttons_precede_tags(html: Seq<char>, pos: int, first: nat, k: int)
    requires
        0 <= pos <= html.len(),
        0 <= k < code_tags_from(html, pos).len(),
    ensures
        pos <= gap_start(code_tags_from(html, pos), pos, k) <= code_tags_from(html, pos)[k],
        occurs_at(html, RUST_CODE_TAG@, code_tags_from(html, pos)[k]),
        occurs_at(
            buttons_from(html, pos, first),
            html.subrange(
                gap_start(code_tags_from(html, pos), pos, k),
                code_tags_from(html, pos)[k],
            ) + playpen_button(first + k as nat) + RUST_CODE_TAG@,
            gap_start(code_tags_from(html, pos), pos, k) - pos + buttons_len(first, k as nat),
        ),
    decreases k,
{
    reveal_strlit("<code class=\"language-rust\">");
    lemma_find_first(html, RUST_CODE_TAG@, pos);
    let tag = RUST_CODE_TAG@;
    let tags = code_tags_from(html, pos);
    let at: int = find_first(html, tag, pos)->0;
    let next: int = at + tag.len();
    let rest = code_tags_from(html, next);
    let out = buttons_from(html, pos, first);
    let out_rest = buttons_from(html, next, first + 1);
    let front = html.subrange(pos, at) + playpen_button(first) + tag;
    assert(tags == seq![at] + rest);
    assert(out == front + out_rest);
    if k == 0 {
        assert(out.subrange(0, front.len() as int) =~= front);
    } else {
        assert(tags[k] == rest[k - 1]);
        if k >= 2 {
            assert(tags[k - 1] == rest[k - 2]);
        }
        assert(gap_start(tags, pos, k) == gap_start(rest, next, k - 1));
        lemma_buttons_precede_tags(html, next, first + 1, k - 1);
        let piece = html.subrange(gap_start(rest, next, k - 1), rest[k - 1]) + playpen_button(
            (first + 1 + (k - 1)) as nat,
        ) + tag;
        lemma_occurs_behind(
            front,
            out_rest,
            piece,
            gap_start(rest, next, k - 1) - next + buttons_len(first + 1, (k - 1) as nat),
        );
    }
}

/// The output is as long as the source from `pos` on and the buttons of all
/// its code tags together, and ends with the source's text behind the last
/// tag.
pub proof fn lemma_buttons_add_up(html: Seq<char>, pos: int, first: nat)
    requires
        0 <= pos <= html.len(),
    ensures
        buttons_from(html, pos, first).len() == html.len() - pos + buttons_len(
            first,
            code_tags_from(html, pos).len(),
        ),
        gap_start(code_tags_from(html, pos), pos, code_tags_from(html, pos).len() as int)
            <= html.len(),
        crate::text::ends_with(
            buttons_from(html, pos, first),
            html.subrange(
                gap_start(code_tags_from(html, pos), pos, code_tags_from(html, pos).len() as int),
                html.len() as int,
            ),
        ),
    decreases html.len() - pos,
{
    reveal_strlit("<code class=\"language-rust\">");
    lemma_find_first(html, RUST_CODE_TAG@, pos);
    let tag = RUST_CODE_TAG@;
    let out = buttons_from(html, pos, first);
    match find_first(html, tag, pos) {
        Some(at) => {
            let next: int = at + tag.len();
            let rest = code_tags_from(html, next);
            let tags = code_tags_from(html, pos);
            let out_rest = buttons_from(html, next, first + 1);
            let front = html.subrange(pos, at) + playpen_button(first) + tag;
            lemma_buttons_add_up(html, next, first + 1);
            assert(tags == seq![at] + rest);
            assert(out == front + out_rest);
            if rest.len() > 0 {
                assert(tags[tags.len() - 1] == rest[rest.len() - 1]);
            }
            let end: int = gap_start(tags, pos, tags.len() as int);
            assert(end == gap_start(rest, next, rest.len() as int));
            let tail = html.subrange(end, html.len() as int);
            assert(out.subrange(out.len() - tail.len(), out.len() as int) =~= out_rest.subrange(
                out_rest.len() - tail.len(),
                out_rest.len() as int,
            ));
        },
        None => {
            assert(out.subrange(0, out.len() as int) =~= out);
        },
    }
}

/// No code tag starts in `text`: wherever a `<` stands in it, another
/// character of it follows, and that is not the `c` of the code tag.
pub open spec fn starts_no_code_tag(text: Seq<char>) -> bool {
    forall|i: int|
        0 <= i < text.len() && #[trigger] text[i] == '<' ==> i + 1 < text.len() && text[i + 1]
            != 'c'
}

/// Where no code tag starts in two texts, none starts in the two put
/// together.
pub proof fn lemma_starts_no_code_tag_joined(left: Seq<char>, right: Seq<char>)
    requires
        starts_no_code_tag(left),
        starts_no_code_tag(right),
    ensures
        starts_no_code_tag(left + right),
{
    let both = left + right;
    assert forall|i: int| 0 <= i < both.len() && #[trigger] both[i] == '<' implies i + 1
        < both.len() && both[i + 1] != 'c' by {
        if i < left.len() {
            assert(left[i] == '<');
            assert(both[i + 1] == left[i + 1]);
        } else {
            assert(right[i - left.len()] == '<');
            assert(both[i + 1] == right[i - left.len() + 1]);
        }
    }
}

/// A number in base ten holds digits only.
pub proof fn lemma_decimal_is_digits(n: nat)
    ensures
        forall|i: int| 0 <= i < decimal(n).len() ==> '0' <= #[trigger] decimal(n)[i] <= '9',
    decreases n,
{
    if n >= 10 {
        lemma_decimal_is_digits(n / 10);
        let front = decimal(n / 10);
        let last = crate::text::digit_char((n % 10) as int);
        assert('0' <= last <= '9');
        assert forall|i: int| 0 <= i < decimal(n).len() implies '0' <= #[trigger] decimal(n)[i]
            <= '9' by {
            if i < front.len() {
                assert(decimal(n)[i] == front[i]);
            } else {
                assert(decimal(n)[i] == last);
            }
        }
    } else {
        assert('0' <= crate::text::digit_char(n as int) <= '9');
    }
}

/// The buttons of a code block open with a `<`, and no code tag starts in
/// them.
pub proof fn lemma_button_starts_no_code_tag(n: nat)
    ensures
        playpen_button(n).len() > 0,
        playpen_button(n)[0] == '<',
        starts_no_code_tag(playpen_button(n)),
{
    reveal_strlit("rust-code-block-");
    reveal_strlit(
        "<div class=\"btn-code\"><i class=\"fas fa-copy bounce-in btn-copy\" id=\"",
    );
    reveal_strlit(
        "\"></i><i class=\"fas fa-play btn-playpen\" onclick=\"play_playpen(this.id)\" id=\"",
    );
    reveal_strlit("\"></i></div>");
    lemma_decimal_is_digits(n);
    assert(starts_no_code_tag(decimal(n)));
    assert(starts_no_code_tag(CODE_BLOCK_ID_PREFIX@));
    assert(starts_no_code_tag(BUTTON_HEAD@));
    assert(starts_no_code_tag(BUTTON_MIDDLE@));
    assert(starts_no_code_tag(BUTTON_TAIL@));
    lemma_starts_no_code_tag_joined(CODE_BLOCK_ID_PREFIX@, decimal(n));
    lemma_starts_no_code_tag_joined(BUTTON_HEAD@, code_block_id(n));
    lemma_starts_no_code_tag_joined(BUTTON_HEAD@ + code_block_id(n), BUTTON_MIDDLE@);
    lemma_starts_no_code_tag_joined(
        BUTTON_HEAD@ + code_block_id(n) + BUTTON_MIDDLE@,
        code_block_id(n),
    );
    lemma_starts_no_code_tag_joined(
        BUTTON_HEAD@ + code_block_id(n) + BUTTON_MIDDLE@ + code_block_id(n),
        BUTTON_TAIL@,
    );
    assert(playpen_button(n)[0] == BUTTON_HEAD@[0]);
}

/// Behind a text without a code tag and buttons in which none starts, the
/// first code tag is the one that follows the buttons.
pub proof fn lemma_first_code_tag_behind_button(
    gap: Seq<char>,
    button: Seq<char>,
    back: Seq<char>,
)
    requires
        forall|k: int| !occurs_at(gap, RUST_CODE_TAG@, k),
        button.len() > 0,
        button[0] == '<',
        starts_no_code_tag(button),
    ensures
        find_first(gap + button + RUST_CODE_TAG@ + back, RUST_CODE_TAG@, 0) == Some(
            (gap.len() + button.len()) as int,
        ),
{
    reveal_strlit("<code class=\"language-rust\">");
    let tag = RUST_CODE_TAG@;
    let out = gap + button + tag + back;
    let place: int = (gap.len() + button.len()) as int;
    assert(tag[0] == '<' && tag[1] == 'c');
    assert(forall|d: int| 1 <= d < 28 ==> tag[d] != '<');
    assert(out.subrange(place, place + tag.len()) =~= tag);
    assert forall|k: int| 0 <= k < place implies !occurs_at(out, tag, k) by {
        if occurs_at(out, tag, k) {
            let window = out.subrange(k, k + tag.len());
            assert(window[0] == out[k]);
            assert(window[1] == out[k + 1]);
            if k + tag.len() <= gap.len() {
                assert(gap.subrange(k, k + tag.len()) =~= window);
                assert(occurs_at(gap, tag, k));
            } else if k < gap.len() {
                assert(out[gap.len() as int] == button[0]);
                assert(window[gap.len() - k] == out[gap.len() as int]);
            } else {
                let inside: int = k - gap.len();
                assert(out[k] == button[inside]);
                assert(button[inside] == '<');
                assert(out[k + 1] == button[inside + 1]);
            }
        }
    }
    crate::text::lemma_find_first_is(out, tag, 0, place);
}

/// The code tags of a text behind another text are those of the text
/// alone, each further back by the length of what stands in front.
pub proof fn lemma_code_tags_behind(front: Seq<char>, back: Seq<char>, pos: int)
    requires
        0 <= pos <= back.len(),
    ensures
        code_tags_from(front + back, front.len() + pos).len() == code_tags_from(back, pos).len(),
        forall|k: int|
            0 <= k < code_tags_from(back, pos).len() ==> #[trigger] code_tags_from(
                front + back,
                front.len() + pos,
            )[k] == code_tags_from(back, pos)[k] + front.len(),
    decreases back.len() - pos,
{
    reveal_strlit("<code class=\"language-rust\">");
    let tag = RUST_CODE_TAG@;
    let both = front + back;
    let shift: int = front.len() as int;
    lemma_find_first(back, tag, pos);
    lemma_find_first(both, tag, shift + pos);
    assert forall|i: int| 0 <= i implies (occurs_at(back, tag, i) <==> occurs_at(
        both,
        tag,
        shift + i,
    )) by {
        if i + tag.len() <= back.len() {
            assert(both.subrange(shift + i, shift + i + tag.len()) =~= back.subrange(
                i,
                i + tag.len(),
            ));
        }
    }
    match find_first(back, tag, pos) {
        Some(at) => {
            assert forall|k: int| shift + pos <= k < shift + at implies !occurs_at(
                both,
                tag,
                k,
            ) by {
                assert(!occurs_at(back, tag, k - shift));
            }
            crate::text::lemma_find_first_is(both, tag, shift + pos, shift + at);
            lemma_code_tags_behind(front, back, at + tag.len());
            let rest = code_tags_from(back, at + tag.len());
            let rest_both = code_tags_from(both, shift + at + tag.len());
            assert(code_tags_from(back, pos) == seq![at] + rest);
            assert(code_tags_from(both, shift + pos) == seq![shift + at] + rest_both);
            assert forall|k: int| 0 <= k < code_tags_from(back, pos).len() implies code_tags_from(
                both,
                shift + pos,
            )[k] == code_tags_from(back, pos)[k] + shift by {
                if k > 0 {
                    assert(rest_both[k - 1] == rest[k - 1] + shift);
                }
            }
        },
        None => {
            assert forall|k: int| shift + pos <= k implies !occurs_at(both, tag, k) by {
                assert(!occurs_at(back, tag, k - shift));
            }
            crate::text::lemma_find_first_none(both, tag, shift + pos);
        },
    }
}

/// The output holds the code tags of the source and no others: it has as
/// many as the source has at or behind `pos`, and the `k`-th stands right
/// behind the buttons of number `first + k`.
pub proof fn lemma_buttons_add_no_tags(html: Seq<char>, pos: int, first: nat)
    requires
        0 <= pos <= html.len(),
    ensures
        code_tags_from(buttons_from(html, pos, first), 0).len() == code_tags_from(html, pos).len(),
        forall|k: int|
            0 <= k < code_tags_from(html, pos).len() ==> #[trigger] code_tags_from(
                buttons_from(html, pos, first),
                0,
            )[k] == code_tags_from(html, pos)[k] - pos + buttons_len(first, (k + 1) as nat),
    decreases html.len() - pos,
{
    reveal_strlit("<code class=\"language-rust\">");
    let tag = RUST_CODE_TAG@;
    let out = buttons_from(html, pos, first);
    lemma_find_first(html, tag, pos);
    match find_first(html, tag, pos) {
        None => {
            assert forall|k: int| 0 <= k implies !occurs_at(out, tag, k) by {
                if k + tag.len() <= out.len() {
                    assert(out.subrange(k, k + tag.len()) =~= html.subrange(
                        pos + k,
                        pos + k + tag.len(),
                    ));
                    assert(!occurs_at(html, tag, pos + k));
                }
            }
            crate::text::lemma_find_first_none(out, tag, 0);
        },
        Some(at) => {
            let gap = html.subrange(pos, at);
            let button = playpen_button(first);
            let next: int = at + tag.len();
            let out_rest = buttons_from(html, next, first + 1);
            let front = gap + button + tag;
            let place: int = (gap.len() + button.len()) as int;
            assert(out == front + out_rest);
            lemma_button_starts_no_code_tag(first);
            assert forall|k: int| !occurs_at(gap, tag, k) by {
                if occurs_at(gap, tag, k) {
                    assert(html.subrange(pos + k, pos + k + tag.len()) =~= gap.subrange(
                        k,
                        k + tag.len(),
                    ));
                    assert(occurs_at(html, tag, pos + k));
                }
            }
            lemma_first_code_tag_behind_button(gap, button, out_rest);
            lemma_code_tags_behind(front, out_rest, 0);
            lemma_buttons_add_no_tags(html, next, first + 1);
            let tags = code_tags_from(html, pos);
            let rest = code_tags_from(html, next);
            let tags_out = code_tags_from(out, 0);
            let rest_out = code_tags_from(out, front.len() as int);
            let rest_alone = code_tags_from(out_rest, 0);
            assert(tags == seq![at] + rest);
            assert(tags_out == seq![place] + rest_out);
            assert forall|k: int| 0 <= k < tags.len() implies tags_out[k] == tags[k] - pos
                + buttons_len(first, (k + 1) as nat) by {
                if k == 0 {
                    assert(buttons_len(first + 1, 0) == 0);
                } else {
                    assert(rest_out[k - 1] == rest_alone[k - 1] + front.len());
                    assert(rest_alone[k - 1] == rest[k - 1] - next + buttons_len(
                        first + 1,
                        k as nat,
                    ));
                }
            }
        },
    }
}

/// The buttons of one more block add the length of that block's buttons.
pub proof fn lemma_buttons_len_grows(first: nat, count: nat)
    ensures
        buttons_len(first, count + 1) == buttons_len(first, count) + playpen_button(
            first + count,
        ).len(),
    decreases count,
{
    if count > 0 {
        lemma_buttons_len_grows(first + 1, (count - 1) as nat);
    } else {
        assert(buttons_len(first + 1, 0) == 0);
    }
}

/// Button insertion on a whole document. The output holds exactly as many
/// code tags as the source; it is longer than the source by the buttons of
/// block 0, block 1 and so on, one for each tag; and in front of the `k`-th
/// tag of the output, counted from 0, stand the buttons with the id of
/// number `k`.
pub proof fn lemma_buttons_in_document_order(html: Seq<char>)
    ensures
        code_tags_from(with_playpen_buttons(html), 0).len() == code_tags_from(html, 0).len(),
        with_playpen_buttons(html).len() == html.len() + buttons_len(
            0,
            code_tags_from(html, 0).len(),
        ),
        forall|k: int|
            0 <= k < code_tags_from(html, 0).len() ==> occurs_at(
                with_playpen_buttons(html),
                playpen_button(k as nat),
                #[trigger] code_tags_from(with_playpen_buttons(html), 0)[k] - playpen_button(
                    k as nat,
                ).len(),
            ),
{
    let tags = code_tags_from(html, 0);
    let out = with_playpen_buttons(html);
    let out_tags = code_tags_from(out, 0);
    lemma_buttons_add_no_tags(html, 0, 0);
    lemma_buttons_add_up(html, 0, 0);
    assert forall|k: int| 0 <= k < tags.len() implies occurs_at(
        out,
        playpen_button(k as nat),
        #[trigger] out_tags[k] - playpen_button(k as nat).len(),
    ) by {
        lemma_buttons_precede_tags(html, 0, 0, k);
        lemma_buttons_len_grows(0, k as nat);
        let gap = html.subrange(gap_start(tags, 0, k), tags[k]);
        let button = playpen_button(k as nat);
        let piece = gap + button + RUST_CODE_TAG@;
        let at: int = gap_start(tags, 0, k) + buttons_len(0, k as nat);
        let inner: int = gap.len() as int;
        let size: int = button.len() as int;
        assert(piece.subrange(inner, inner + size) =~= button);
        assert(out.subrange(at + inner, at + inner + size) =~= out.subrange(
            at,
            at + piece.len(),
        ).subrange(inner, inner + size));
    }
}

/// Two code blocks have different ids.
pub proof fn lemma_code_block_ids_differ(n: nat, m: nat)
    requires
        n != m,
    ensures
        code_block_id(n) != code_block_id(m),
{
    crate::text::lemma_decimal_differs(n, m);
    let prefix = CODE_BLOCK_ID_PREFIX@;
    assert(code_block_id(n).subrange(prefix.len() as int, code_block_id(n).len() as int)
        =~= decimal(n));
    assert(code_block_id(m).subrange(prefix.len() as int, code_block_id(m).len() as int)
        =~= decimal(m));
}

/// When class injection reports an unmatched marker, an opening marker
/// stands at the reported place, no closing marker follows it, and the
/// output ends with the source from that place on, marker included.
pub proof fn lemma_unmatched_marker_is_kept(html: Seq<char>, pos: int, out: Seq<char>)
    requires
        0 <= pos <= html.len(),
    ensures
        match inject_from(html, pos, out).unmatched {
            Some(start) => {
                &&& pos <= start <= html.len()
                &&& occurs_at(html, MD_CLASS_START@, start)
                &&& find_first(html, MD_CLASS_END@, start + MD_CLASS_START@.len()) is None
                &&& crate::text::ends_with(
                    inject_from(html, pos, out).html,
                    html.subrange(start, html.len() as int),
                )
            },
            None => true,
        },
    decreases html.len() - pos,
{
    reveal_strlit("[class=&quot;");
    reveal_strlit("&quot;]");
    lemma_find_first(html, MD_CLASS_START@, pos);
    match find_first(html, MD_CLASS_START@, pos) {
        None => {},
        Some(start) => {
            let name_start: int = start + MD_CLASS_START@.len();
            lemma_find_first(html, MD_CLASS_END@, name_start);
            match find_first(html, MD_CLASS_END@, name_start) {
                None => {
                    let result = out + html.subrange(pos, html.len() as int);
                    let tail = html.subrange(start, html.len() as int);
                    assert(result.subrange(result.len() - tail.len(), result.len() as int)
                        =~= tail);
                },
                Some(end) => {
                    if tag_closed_before(html, start) {
                        lemma_unmatched_marker_is_kept(
                            html,
                            end + MD_CLASS_END@.len(),
                            with_class(
                                out + html.subrange(pos, start),
                                html.subrange(name_start, end),
                            ),
                        );
                    } else {
                        lemma_unmatched_marker_is_kept(
                            html,
                            name_start,
                            out + html.subrange(pos, name_start),
                        );
                    }
                },
            }
        },
    }
}

/// A text without an opening marker comes out of class injection as it is,
/// and nothing is reported.
pub proof fn lemma_no_marker_no_change(html: Seq<char>)
    requires
        forall|at: int| !occurs_at(html, MD_CLASS_START@, at),
    ensures
        with_user_classes(html) == (InjectedClasses { html, unmatched: None }),
{
    crate::text::lemma_find_first_none(html, MD_CLASS_START@, 0);
    assert(Seq::<char>::empty() + html.subrange(0, html.len() as int) =~= html);
}

/// A text with one marker, closed, and with a tag closed in front of it:
/// the marker leaves the text, and the class of its name goes into the last
/// tag that is closed in front of it.
pub proof fn lemma_single_marker_moves_into_tag(html: Seq<char>, start: int, end: int)
    requires
        find_first(html, MD_CLASS_START@, 0) == Some(start),
        find_first(html, MD_CLASS_END@, start + MD_CLASS_START@.len()) == Some(end),
        find_first(html, MD_CLASS_START@, end + MD_CLASS_END@.len()) is None,
        tag_closed_before(html, start),
    ensures
        with_user_classes(html) == (InjectedClasses {
            html: with_class(
                html.subrange(0, start),
                html.subrange(start + MD_CLASS_START@.len(), end),
            ) + html.subrange(end + MD_CLASS_END@.len(), html.len() as int),
            unmatched: None,
        }),
{
    reveal_strlit("[class=&quot;");
    reveal_strlit("&quot;]");
    lemma_find_first(html, MD_CLASS_START@, 0);
    lemma_find_first(html, MD_CLASS_END@, start + MD_CLASS_START@.len());
    let after: int = end + MD_CLASS_END@.len();
    let built = with_class(
        Seq::<char>::empty() + html.subrange(0, start),
        html.subrange(start + MD_CLASS_START@.len(), end),
    );
    assert(Seq::<char>::empty() + html.subrange(0, start) =~= html.subrange(0, start));
    assert(with_user_classes(html) == inject_from(html, after, built));
    assert(inject_from(html, after, built) == (InjectedClasses {
        html: built + html.subrange(after, html.len() as int),
        unmatched: None,
    }));
}

} // verus!
