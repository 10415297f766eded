//! From the slides' markdown to the page: rendering of each slide into its
//! section, the scoped stylesheet source, and the document around them.

use crate::error::BuildError;
use crate::markdown::{markdown_html, render_markdown};
use crate::preprocessor::{
    with_playpen_buttons, with_user_classes, InjectedClasses, Preprocessor,
};
use crate::style::{compilable, compile_scss};
use crate::stylematter::{split_style_matter, split_stylematter};
use crate::text::{decimal, decimal_string};
use vstd::prelude::*;
use vstd::string::StringExecFns;

verus! {

/// The prefix of the id of a slide's section.
pub const SLIDE_ID_PREFIX: &'static str = "unveil-slide-";

/// The page up to the place of the link to the user's compiled stylesheet.
pub const PAGE_HEAD: &'static str = "<!DOCTYPE html><html lang=\"EN\"><head><meta charset=\"utf8\"><title>Unveil</title><link rel=\"stylesheet\" href=\"unveil.css\">";

/// The link to the stylesheet compiled from the slides' style matter.
pub const USER_CSS_LINK: &'static str = "<link rel=\"stylesheet\" href=\"user_css.css\">";

/// The rest of the head, and the body up to the slides: the two arrows.
pub const PAGE_NECK: &'static str = "<link rel=\"stylesheet\" href=\"highlight.css\"><link rel=\"stylesheet\" href=\"fontawesome/css/fontawesome.css\"></head><body><div onclick=\"next_slide_right()\" class=\"arrow-right bounce-in\"><i class=\"fas fa-chevron-right\"></i></div><div onclick=\"next_slide_left()\" class=\"arrow-left bounce-in\"><i class=\"fas fa-chevron-left\"></i></div>";

/// The scripts that every page loads, behind the slides.
pub const PAGE_SCRIPTS: &'static str = "<script src=\"highlight.js\"></script><script src=\"clipboard.js\"></script><script src=\"unveil.js\"></script>";

/// The script that reloads the page when the presentation was rebuilt.
pub const LIVERELOAD_SCRIPT: &'static str = "<script src=\"livereload.js\"></script>";

/// The end of the page.
pub const PAGE_TAIL: &'static str = "</body></html>";

/// What to say of a stylesheet source that cannot be compiled at all.
pub const NUL_IN_STYLE: &'static str = "style matter holds a NUL character";

/// The id of the section of slide `index`.
pub open spec fn slide_id(index: nat) -> Seq<char> {
    SLIDE_ID_PREFIX@ + decimal(index)
}

/// The section of slide `index`: an article around the slide's HTML.
pub open spec fn slide_section(index: nat, fragment: Seq<char>) -> Seq<char> {
    "<section id=\""@ + slide_id(index) + "\"><article>"@ + fragment + "</article></section>"@
}

/// The style rule of slide `index`: its style matter, scoped to its section.
pub open spec fn slide_style(index: nat, matter: Seq<char>) -> Seq<char> {
    "#"@ + slide_id(index) + " { "@ + matter + " }"@
}

/// The texts of the slides.
pub open spec fn slide_texts(markdown: Seq<String>) -> Seq<Seq<char>> {
    Seq::new(markdown.len(), |i: int| markdown[i]@)
}

/// The sections of the first `count` slides, in order.
pub open spec fn rendered_sections(slides: Seq<Seq<char>>, count: nat) -> Seq<char>
    decreases count,
{
    if count == 0 {
        Seq::empty()
    } else {
        let index: nat = (count - 1) as nat;
        rendered_sections(slides, index) + slide_section(
            index,
            markdown_html(split_style_matter(slides[index as int]).body),
        )
    }
}

/// The style rules of those of the first `count` slides that have style
/// matter, in order.
pub open spec fn rendered_styles(slides: Seq<Seq<char>>, count: nat) -> Seq<char>
    decreases count,
{
    if count == 0 {
        Seq::empty()
    } else {
        let index: nat = (count - 1) as nat;
        match split_style_matter(slides[index as int]).matter {
            Some(matter) => rendered_styles(slides, index) + slide_style(index, matter),
            None => rendered_styles(slides, index),
        }
    }
}

/// The sections of all slides after class injection.
pub open spec fn injected_slides(slides: Seq<Seq<char>>) -> InjectedClasses {
    with_user_classes(rendered_sections(slides, slides.len()))
}

/// The body of the page: the sections of all slides, after class injection
/// and then button insertion.
pub open spec fn transformed_slides(slides: Seq<Seq<char>>) -> Seq<char> {
    with_playpen_buttons(injected_slides(slides).html)
}

/// The whole document around `body`.
pub open spec fn page_html(body: Seq<char>, has_user_css: bool, live_reload: bool) -> Seq<char> {
    PAGE_HEAD@ + (if has_user_css {
        USER_CSS_LINK@
    } else {
        Seq::empty()
    }) + PAGE_NECK@ + body + PAGE_SCRIPTS@ + (if live_reload {
        LIVERELOAD_SCRIPT@
    } else {
        Seq::empty()
    }) + PAGE_TAIL@
}

/// How the diagnostics grow in a build: by one message when a class marker
/// was left unmatched, and not at all otherwise.
pub open spec fn reported(before: Seq<String>, after: Seq<String>, unmatched: bool) -> bool {
    if unmatched {
        &&& after.len() == before.len() + 1
        &&& after.drop_last() == before
        &&& after.last()@ == "Unmatched class attribute"@
    } else {
        after == before
    }
}

/// Builds the page of a presentation from the markdown of its slides.
pub struct HtmlBuilder {
    /// The body of the page, once rendered.
    pub html: String,
    /// The stylesheet source gathered from the slides' style matter.
    pub scss: String,
    /// The slides' texts, in the order of the presentation.
    pub markdown: Vec<String>,
    /// What the last build has to tell the author.
    pub diagnostics: Vec<String>,
    /// Whether the page is to load the live-reload script.
    pub live_reload: bool,
}

impl HtmlBuilder {
    /// A builder for the given slides, with nothing rendered yet.
    pub fn new(markdown: Vec<String>, live_reload: bool) -> (builder: Self)
        ensures
            builder.markdown == markdown,
            builder.live_reload == live_reload,
            builder.html@.len() == 0,
            builder.scss@.len() == 0,
            builder.diagnostics@.len() == 0,
    {
        HtmlBuilder {
            markdown,
            live_reload,
            html: String::new(),
            scss: String::new(),
            diagnostics: Vec::new(),
        }
    }

    /// The section of slide `index` around `fragment`.
    pub fn section(index: usize, fragment: &str) -> (out: String)
        ensures
            out@ == slide_section(index as nat, fragment@),
    {
        let mut out = String::from_str("<section id=\"");
        out.append(SLIDE_ID_PREFIX);
        out.append(decimal_string(index).as_str());
        out.append("\"><article>");
        out.append(fragment);
        out.append("</article></section>");
        assert(out@ =~= slide_section(index as nat, fragment@));
        out
    }

    /// The style rule of slide `index` around `matter`.
    pub fn style_rule(index: usize, matter: &str) -> (out: String)
        ensures
            out@ == slide_style(index as nat, matter@),
    {
        let mut out = String::from_str("#");
        out.append(SLIDE_ID_PREFIX);
        out.append(decimal_string(index).as_str());
        out.append(" { ");
        out.append(matter);
        out.append(" }");
        assert(out@ =~= slide_style(index as nat, matter@));
        out
    }

    /// Renders every slide into its section and gathers the style rules.
    pub fn markdown_to_html(&mut self)
        ensures
            final(self).html@ == rendered_sections(
                slide_texts(old(self).markdown@),
                old(self).markdown@.len(),
            ),
            final(self).scss@ == rendered_styles(
                slide_texts(old(self).markdown@),
                old(self).markdown@.len(),
            ),
            final(self).markdown == old(self).markdown,
            final(self).diagnostics == old(self).diagnostics,
            final(self).live_reload == old(self).live_reload,
    {
        let mut html_output = String::new();
        let mut scss_output = String::new();
        let ghost slides = slide_texts(self.markdown@);
        let mut index: usize = 0;
        while index < self.markdown.len()
            invariant
                index <= self.markdown.len(),
                *self == *old(self),
                slides == slide_texts(self.markdown@),
                html_output@ == rendered_sections(slides, index as nat),
                scss_output@ == rendered_styles(slides, index as nat),
            decreases self.markdown.len() - index,
        {
            let (matter, body) = split_stylematter(self.markdown[index].as_str());
            assert(slides[index as int] == self.markdown@[index as int]@);
            let fragment = render_markdown(body.as_str());
            if let Some(matter) = matter {
                scss_output.append(Self::style_rule(index, matter.as_str()).as_str());
            }
            html_output.append(Self::section(index, fragment.as_str()).as_str());
            index += 1;
        }
        self.scss = scss_output;
        self.html = html_output;
    }

    /// The whole document around `body`.
    pub fn assemble_page(body: &str, has_user_css: bool, live_reload: bool) -> (page: String)
        ensures
            page@ == page_html(body@, has_user_css, live_reload),
    {
        let mut page = String::from_str(PAGE_HEAD);
        if has_user_css {
            page.append(USER_CSS_LINK);
        }
        page.append(PAGE_NECK);
        page.append(body);
        page.append(PAGE_SCRIPTS);
        if live_reload {
            page.append(LIVERELOAD_SCRIPT);
        }
        page.append(PAGE_TAIL);
        assert(page@ =~= page_html(body@, has_user_css, live_reload));
        page
    }

    /// The outcome of a build, given what the style compiler returned;
    /// `None` where it was not called.
    ///
    /// A failed compilation fails the build. The page links the user's
    /// stylesheet exactly when compilation gave a stylesheet that is not
    /// empty, and that stylesheet is then returned with the page.
    pub fn conclude(body: &str, live_reload: bool, compiled: Option<Result<String, String>>) -> (result:
        Result<(Option<String>, String), BuildError>)
        ensures
            match compiled {
                Some(Err(message)) => result == Err::<(Option<String>, String), BuildError>(
                    BuildError::Compile(message),
                ),
                Some(Ok(css)) => result is Ok && result->Ok_0.1@ == page_html(
                    body@,
                    css@.len() > 0,
                    live_reload,
                ) && result->Ok_0.0 == (if css@.len() > 0 {
                    Some(css)
                } else {
                    None
                }),
                None => result is Ok && result->Ok_0.1@ == page_html(body@, false, live_reload)
                    && result->Ok_0.0 is None,
            },
    {
        match compiled {
            Some(Err(message)) => Err(BuildError::Compile(message)),
            Some(Ok(css)) => {
                if css.as_str().is_empty() {
                    Ok((None, Self::assemble_page(body, false, live_reload)))
                } else {
                    Ok((Some(css), Self::assemble_page(body, true, live_reload)))
                }
            },
            None => Ok((None, Self::assemble_page(body, false, live_reload))),
        }
    }

    /// Whether `source` holds no NUL character.
    fn is_compilable(source: &str) -> (ok: bool)
        ensures
            ok == compilable(source@),
    {
        let chars = crate::text::to_chars(source);
        let mut i: usize = 0;
        while i < chars.len()
            invariant
                i <= chars.len(),
                chars@ == source@,
                forall|k: int| 0 <= k < i ==> chars@[k] != '\0',
            decreases chars.len() - i,
        {
            if chars[i] == '\0' {
                assert(source@[i as int] == '\0');
                return false;
            }
            i += 1;
        }
        true
    }

    /// Renders the slides, rewrites the HTML, compiles the style matter if
    /// there is any, and assembles the page.
    ///
    /// Returns the compiled stylesheet, if there is one that is not empty,
    /// and the page. Without style matter the build succeeds. With style
    /// matter the style compiler decides: `conclude` says what is returned
    /// for each of its answers. Style matter with a NUL character is not
    /// handed to the compiler and fails the build.
    pub fn build(&mut self) -> (result: Result<(Option<String>, String), BuildError>)
        ensures
            final(self).markdown == old(self).markdown,
            final(self).live_reload == old(self).live_reload,
            final(self).scss@ == rendered_styles(
                slide_texts(old(self).markdown@),
                old(self).markdown@.len(),
            ),
            final(self).html@ == transformed_slides(slide_texts(old(self).markdown@)),
            reported(
                old(self).diagnostics@,
                final(self).diagnostics@,
                injected_slides(slide_texts(old(self).markdown@)).unmatched is Some,
            ),
            final(self).scss@.len() == 0 ==> result is Ok && result->Ok_0.0 is None,
            !compilable(final(self).scss@) ==> result is Err,
            match result {
                Ok((css, page)) => page@ == page_html(
                    final(self).html@,
                    css is Some,
                    final(self).live_reload,
                ) && (css is Some ==> css->0@.len() > 0 && final(self).scss@.len() > 0),
                Err(error) => error is Compile && final(self).scss@.len() > 0,
            },
    {
        self.markdown_to_html();
        let injection = Preprocessor::inject_user_classes(self.html.as_str());
        assert(injection.unmatched is Some <==> injection@.unmatched is Some);
        if let Some(message) = injection.diagnostic() {
            self.diagnostics.push(message);
            assert(self.diagnostics@.drop_last() =~= old(self).diagnostics@);
        }
        self.html = Preprocessor::insert_playpen_button(injection.html.as_str());
        if self.scss.as_str().is_empty() {
            return Self::conclude(self.html.as_str(), self.live_reload, None);
        }
        if !Self::is_compilable(self.scss.as_str()) {
            return Err(BuildError::Compile(NUL_IN_STYLE.to_owned()));
        }
        let compiled = compile_scss(self.scss.as_str());
        Self::conclude(self.html.as_str(), self.live_reload, Some(compiled))
    }
}

/// How the section of slide `index` opens.
pub open spec fn section_opening(index: nat) -> Seq<char> {
    "<section id=\""@ + slide_id(index) + "\"><article>"@
}

/// The section of slide `index` of `slides`.
pub open spec fn section_of(slides: Seq<Seq<char>>, index: nat) -> Seq<char> {
    slide_section(index, markdown_html(split_style_matter(slides[index as int]).body))
}

/// The sections of the first slides are the start of the sections of more.
pub proof fn lemma_sections_grow(slides: Seq<Seq<char>>, fewer: nat, more: nat)
    requires
        fewer <= more,
    ensures
        rendered_sections(slides, fewer).len() <= rendered_sections(slides, more).len(),
        rendered_sections(slides, more).subrange(
            0,
            rendered_sections(slides, fewer).len() as int,
        ) == rendered_sections(slides, fewer),
    decreases more,
{
    if fewer < more {
        lemma_sections_grow(slides, fewer, (more - 1) as nat);
        assert(rendered_sections(slides, more).subrange(
            0,
            rendered_sections(slides, fewer).len() as int,
        ) =~= rendered_sections(slides, (more - 1) as nat).subrange(
            0,
            rendered_sections(slides, fewer).len() as int,
        ));
    } else {
        assert(rendered_sections(slides, more).subrange(
            0,
            rendered_sections(slides, fewer).len() as int,
        ) =~= rendered_sections(slides, fewer));
    }
}

/// In the rendering of `count` slides the section of slide `index` stands
/// right behind the sections of the slides before it, and opens with the id
/// made of the slide's index: the sections come in the order of the slides,
/// with the ids `unveil-slide-0`, `unveil-slide-1` and so on.
pub proof fn lemma_sections_in_order(slides: Seq<Seq<char>>, count: nat, index: nat)
    requires
        index < count,
    ensures
        crate::text::occurs_at(
            rendered_sections(slides, count),
            section_of(slides, index),
            rendered_sections(slides, index).len() as int,
        ),
        crate::text::occurs_at(
            rendered_sections(slides, count),
            section_opening(index),
            rendered_sections(slides, index).len() as int,
        ),
{
    let all = rendered_sections(slides, count);
    let upto = rendered_sections(slides, index + 1);
    let start: int = rendered_sections(slides, index).len() as int;
    let section = section_of(slides, index);
    lemma_sections_grow(slides, index + 1, count);
    assert(upto == rendered_sections(slides, index) + section);
    assert(upto.subrange(start, start + section.len()) =~= section);
    assert(all.subrange(start, start + section.len()) =~= all.subrange(
        0,
        upto.len() as int,
    ).subrange(start, start + section.len()));
    assert(section.subrange(0, section_opening(index).len() as int) =~= section_opening(index));
    assert(all.subrange(start, start + section_opening(index).len()) =~= section.subrange(
        0,
        section_opening(index).len() as int,
    ));
}

/// Rendering depends on the slides alone: the same slides give the same
/// sections and the same style rules, whatever was rendered before.
pub proof fn lemma_rendering_repeats(first: Seq<Seq<char>>, second: Seq<Seq<char>>)
    requires
        first.len() == second.len(),
        forall|i: int| 0 <= i < first.len() ==> first[i] == second[i],
    ensures
        rendered_sections(first, first.len()) == rendered_sections(second, second.len()),
        rendered_styles(first, first.len()) == rendered_styles(second, second.len()),
        transformed_slides(first) == transformed_slides(second),
{
    assert(first =~= second);
}

} // verus!
