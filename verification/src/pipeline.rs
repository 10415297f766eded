//! What a build writes, in which order and under which policy, and the run
//! that performs it step by step.

use crate::error::BuildError;
use crate::server::{host_and_port, Server};
use vstd::prelude::*;
use vstd::slice::slice_to_vec;
use vstd::string::{StrSliceExecFns, StringExecFns};
use vstd::utf8::encode_utf8;

verus! {

/// The ignore file of version control.
pub const GITIGNORE_PATH: &'static str = ".gitignore";

/// The output directory.
pub const PUBLIC_DIR: &'static str = "public";

/// The page.
pub const PAGE_PATH: &'static str = "public/index.html";

/// The script of the presentation.
pub const JS_PATH: &'static str = "public/unveil.js";

/// The stylesheet of the presentation, which the author may edit.
pub const CSS_PATH: &'static str = "public/unveil.css";

/// The stylesheet compiled from the slides' style matter.
pub const USER_CSS_PATH: &'static str = "public/user_css.css";

/// The stylesheet of the code highlighter.
pub const HIGHLIGHT_CSS_PATH: &'static str = "public/highlight.css";

/// The script of the code highlighter.
pub const HIGHLIGHT_JS_PATH: &'static str = "public/highlight.js";

/// The script that reloads the page.
pub const LIVERELOAD_JS_PATH: &'static str = "public/livereload.js";

/// The script of the copy control.
pub const CLIPBOARD_JS_PATH: &'static str = "public/clipboard.js";

/// The directory of the icon font.
pub const FONT_DIR: &'static str = "public/fontawesome";

/// The directory of the icon font's font files.
pub const WEBFONT_DIR: &'static str = "public/fontawesome/webfonts";

/// The directory of the icon font's stylesheet.
pub const FONT_CSS_DIR: &'static str = "public/fontawesome/css";

/// The stylesheet of the icon font.
pub const FONT_CSS_PATH: &'static str = "public/fontawesome/css/fontawesome.css";

/// What the ignore file holds.
pub const GITIGNORE_CONTENT: &'static str = "public";

/// When a file is written.
#[derive(Clone, Copy, Debug, PartialEq, Eq, Structural)]
pub enum WritePolicy {
    /// Always: what is there is replaced.
    Replace,
    /// Only if no file is there: what the author has edited is kept.
    IfAbsent,
}

/// One thing to do on disk.
#[derive(Clone, Debug, PartialEq, Eq)]
pub enum BuildStep {
    /// Create the directory unless it is there.
    EnsureDir(String),
    /// Create the directory, which must not be there yet.
    CreateDir(String),
    /// Write the file.
    Write { path: String, content: Vec<u8>, policy: WritePolicy },
    /// Remove the file if it is there.
    Remove(String),
}

/// A step as contracts see it.
pub enum StepModel {
    EnsureDir(Seq<char>),
    CreateDir(Seq<char>),
    Write { path: Seq<char>, content: Seq<u8>, policy: WritePolicy },
    Remove(Seq<char>),
}

impl View for BuildStep {
    type V = StepModel;

    open spec fn view(&self) -> StepModel {
        match *self {
            BuildStep::EnsureDir(path) => StepModel::EnsureDir(path@),
            BuildStep::CreateDir(path) => StepModel::CreateDir(path@),
            BuildStep::Write { path, content, policy } => StepModel::Write {
                path: path@,
                content: content@,
                policy,
            },
            BuildStep::Remove(path) => StepModel::Remove(path@),
        }
    }
}

/// The steps of `steps` as contracts see them.
pub open spec fn plan_of(steps: Seq<BuildStep>) -> Seq<StepModel> {
    Seq::new(steps.len(), |i: int| steps[i]@)
}

/// A font file of the icon font.
#[derive(Clone, Debug, PartialEq, Eq)]
pub struct FontFile {
    /// Its file name.
    pub name: String,
    /// Its content.
    pub content: Vec<u8>,
}

/// The files that come with the program.
#[derive(Clone, Debug, PartialEq, Eq)]
pub struct Assets {
    /// The script of the presentation.
    pub js: Vec<u8>,
    /// The stylesheet of the presentation.
    pub css: Vec<u8>,
    /// The script of the code highlighter.
    pub highlight_js: Vec<u8>,
    /// The stylesheet of the code highlighter.
    pub highlight_css: Vec<u8>,
    /// The script of the copy control.
    pub clipboard_js: Vec<u8>,
    /// The script that reloads the page, without its first line, which opens
    /// the socket.
    pub livereload_js: String,
    /// The stylesheet of the icon font.
    pub fontawesome_css: Vec<u8>,
    /// The font files of the icon font.
    pub fonts: Vec<FontFile>,
    /// The first slide of a new presentation.
    pub landing: Vec<u8>,
}

/// The step that writes `content` to `path`, whatever is there.
pub open spec fn replace(path: Seq<char>, content: Seq<u8>) -> StepModel {
    StepModel::Write { path, content, policy: WritePolicy::Replace }
}

/// The step that writes `content` to `path` if no file is there.
pub open spec fn write_if_absent(path: Seq<char>, content: Seq<u8>) -> StepModel {
    StepModel::Write { path, content, policy: WritePolicy::IfAbsent }
}

/// The script that reloads the page: a line that opens the socket at
/// `address`, then the bundled script.
pub open spec fn livereload_script(address: Seq<char>, script: Seq<char>) -> Seq<char> {
    "let socket = new WebSocket(\"ws://"@ + address + "\");"@ + script
}

/// The path of the font file `name`.
pub open spec fn font_path(name: Seq<char>) -> Seq<char> {
    WEBFONT_DIR@ + seq!['/'] + name
}

/// The steps that write the font files, each only if it is not there.
pub open spec fn font_steps(fonts: Seq<FontFile>) -> Seq<StepModel> {
    Seq::new(fonts.len(), |i: int| write_if_absent(font_path(fonts[i].name@), fonts[i].content@))
}

/// What a build writes, in order.
///
/// The ignore file is written if the configuration asks for it and it is
/// not there. The bundled scripts and stylesheets replace what is there; the
/// font files and the stylesheet of the presentation are written only where
/// they are missing. The user's stylesheet is written if there is one and
/// removed if there is none. The page comes last, so that a build that
/// fails on the way leaves the page of the build before.
pub open spec fn artifact_plan(
    page: Seq<char>,
    user_css: Option<Seq<char>>,
    gitignore: bool,
    ws_address: Seq<char>,
    assets: Assets,
) -> Seq<StepModel> {
    (if gitignore {
        seq![write_if_absent(GITIGNORE_PATH@, encode_utf8(GITIGNORE_CONTENT@))]
    } else {
        Seq::empty()
    }) + seq![
        StepModel::EnsureDir(PUBLIC_DIR@),
        replace(JS_PATH@, assets.js@),
        match user_css {
            Some(css) => replace(USER_CSS_PATH@, encode_utf8(css)),
            None => StepModel::Remove(USER_CSS_PATH@),
        },
        replace(HIGHLIGHT_CSS_PATH@, assets.highlight_css@),
        replace(
            LIVERELOAD_JS_PATH@,
            encode_utf8(livereload_script(ws_address, assets.livereload_js@)),
        ),
        replace(CLIPBOARD_JS_PATH@, assets.clipboard_js@),
        replace(HIGHLIGHT_JS_PATH@, assets.highlight_js@),
        StepModel::EnsureDir(FONT_DIR@),
        StepModel::EnsureDir(WEBFONT_DIR@),
        StepModel::EnsureDir(FONT_CSS_DIR@),
    ] + font_steps(assets.fonts@) + seq![
        replace(FONT_CSS_PATH@, assets.fontawesome_css@),
        write_if_absent(CSS_PATH@, assets.css@),
        replace(PAGE_PATH@, encode_utf8(page)),
    ]
}

/// The text of `text`, if there is one.
pub open spec fn text_of(text: Option<String>) -> Option<Seq<char>> {
    match text {
        Some(text) => Some(text@),
        None => None,
    }
}

fn push_step(steps: &mut Vec<BuildStep>, step: BuildStep)
    ensures
        plan_of(final(steps)@) == plan_of(old(steps)@).push(step@),
{
    steps.push(step);
    assert(plan_of(steps@) =~= plan_of(old(steps)@).push(step@));
}

fn write_bytes(path: &str, content: &Vec<u8>, policy: WritePolicy) -> (step: BuildStep)
    ensures
        step@ == (StepModel::Write { path: path@, content: content@, policy }),
{
    BuildStep::Write { path: path.to_owned(), content: slice_to_vec(content.as_slice()), policy }
}

fn write_text(path: &str, content: &str, policy: WritePolicy) -> (step: BuildStep)
    ensures
        step@ == (StepModel::Write { path: path@, content: encode_utf8(content@), policy }),
{
    BuildStep::Write { path: path.to_owned(), content: content.as_bytes_vec(), policy }
}

/// The script that reloads the page, for the socket of `server`.
pub fn livereload_for(server: &Server, script: &str) -> (out: String)
    ensures
        out@ == livereload_script(
            host_and_port(server.hostname@, server.ws_port as int),
            script@,
        ),
{
    let mut out = String::from_str("let socket = new WebSocket(\"ws://");
    out.append(server.ws_address().as_str());
    out.append("\");");
    out.append(script);
    assert(out@ =~= livereload_script(
        host_and_port(server.hostname@, server.ws_port as int),
        script@,
    ));
    out
}

/// The steps that write the output of a build.
pub fn plan_artifacts(
    page: &str,
    user_css: &Option<String>,
    gitignore: bool,
    server: &Server,
    assets: &Assets,
) -> (steps: Vec<BuildStep>)
    ensures
        plan_of(steps@) == artifact_plan(
            page@,
            text_of(*user_css),
            gitignore,
            host_and_port(server.hostname@, server.ws_port as int),
            *assets,
        ),
{
    let ghost css_model = text_of(*user_css);
    let ghost address = host_and_port(server.hostname@, server.ws_port as int);
    let mut steps: Vec<BuildStep> = Vec::new();
    assert(plan_of(steps@) =~= Seq::<StepModel>::empty());
    if gitignore {
        push_step(&mut steps, write_text(GITIGNORE_PATH, GITIGNORE_CONTENT, WritePolicy::IfAbsent));
    }
    let ghost head = plan_of(steps@);
    push_step(&mut steps, BuildStep::EnsureDir(PUBLIC_DIR.to_owned()));
    push_step(&mut steps, write_bytes(JS_PATH, &assets.js, WritePolicy::Replace));
    match user_css {
        Some(css) => push_step(
            &mut steps,
            write_text(USER_CSS_PATH, css.as_str(), WritePolicy::Replace),
        ),
        None => push_step(&mut steps, BuildStep::Remove(USER_CSS_PATH.to_owned())),
    }
    push_step(&mut steps, write_bytes(HIGHLIGHT_CSS_PATH, &assets.highlight_css, WritePolicy::Replace));
    let livereload = livereload_for(server, assets.livereload_js.as_str());
    push_step(&mut steps, write_text(LIVERELOAD_JS_PATH, livereload.as_str(), WritePolicy::Replace));
    push_step(&mut steps, write_bytes(CLIPBOARD_JS_PATH, &assets.clipboard_js, WritePolicy::Replace));
    push_step(&mut steps, write_bytes(HIGHLIGHT_JS_PATH, &assets.highlight_js, WritePolicy::Replace));
    push_step(&mut steps, BuildStep::EnsureDir(FONT_DIR.to_owned()));
    push_step(&mut steps, BuildStep::EnsureDir(WEBFONT_DIR.to_owned()));
    push_step(&mut steps, BuildStep::EnsureDir(FONT_CSS_DIR.to_owned()));
    let ghost middle = plan_of(steps@);
    let mut i: usize = 0;
    while i < assets.fonts.len()
        invariant
            i <= assets.fonts.len(),
            plan_of(steps@) == middle + font_steps(assets.fonts@.take(i as int)),
        decreases assets.fonts.len() - i,
    {
        let mut path = String::from_str(WEBFONT_DIR);
        path.append("/");
        path.append(assets.fonts[i].name.as_str());
        proof {
            reveal_strlit("/");
            assert(path@ =~= font_path(assets.fonts@[i as int].name@));
        }
        push_step(&mut steps, write_bytes(path.as_str(), &assets.fonts[i].content, WritePolicy::IfAbsent));
        assert(plan_of(steps@) =~= middle + font_steps(assets.fonts@.take(i + 1)));
        i += 1;
    }
    assert(assets.fonts@.take(assets.fonts@.len() as int) =~= assets.fonts@);
    push_step(&mut steps, write_bytes(FONT_CSS_PATH, &assets.fontawesome_css, WritePolicy::Replace));
    push_step(&mut steps, write_bytes(CSS_PATH, &assets.css, WritePolicy::IfAbsent));
    push_step(&mut steps, write_text(PAGE_PATH, page, WritePolicy::Replace));
    assert(plan_of(steps@) =~= artifact_plan(page@, css_model, gitignore, address, *assets));
    steps
}

/// A build's steps, and how far they have been performed.
#[derive(Clone, Debug, PartialEq, Eq)]
pub struct BuildRun {
    /// The steps, in the order in which they are performed.
    pub steps: Vec<BuildStep>,
    /// How many of them have been performed.
    pub done: usize,
    /// Whether the step after those failed.
    pub failed: bool,
}

/// The path that a step works on.
pub open spec fn step_path(step: StepModel) -> Seq<char> {
    match step {
        StepModel::EnsureDir(path) => path,
        StepModel::CreateDir(path) => path,
        StepModel::Write { path, content, policy } => path,
        StepModel::Remove(path) => path,
    }
}

/// How a run has ended, if it has: well when every step was performed, and
/// with the path of the step that failed otherwise.
pub open spec fn outcome_of(run: BuildRun) -> Option<Result<(), Seq<char>>> {
    if run.failed {
        Some(Err(step_path(run.steps@[run.done as int]@)))
    } else if run.done == run.steps@.len() {
        Some(Ok(()))
    } else {
        None
    }
}

impl BuildRun {
    /// No more steps are done than there are, and a failed run has a step
    /// that failed.
    pub open spec fn wf(&self) -> bool {
        &&& self.done <= self.steps@.len()
        &&& self.failed ==> self.done < self.steps@.len()
    }

    /// The steps that have been performed.
    pub open spec fn performed(&self) -> Seq<StepModel> {
        plan_of(self.steps@).take(self.done as int)
    }

    /// A run of `steps` of which none is performed yet.
    pub fn new(steps: Vec<BuildStep>) -> (run: Self)
        ensures
            run.wf(),
            run.steps == steps,
            run.done == 0,
            !run.failed,
    {
        BuildRun { steps, done: 0, failed: false }
    }

    /// The step to perform next; `None` once the run has ended.
    pub fn current(&self) -> (step: Option<&BuildStep>)
        requires
            self.wf(),
        ensures
            step is None <==> outcome_of(*self) is Some,
            step is Some ==> *step->0 == self.steps@[self.done as int],
    {
        if self.failed || self.done >= self.steps.len() {
            None
        } else {
            Some(&self.steps[self.done])
        }
    }

    /// Takes in whether the current step succeeded. A failure ends the run:
    /// no later step is performed. On a run that has ended nothing changes.
    pub fn record(&mut self, succeeded: bool)
        requires
            old(self).wf(),
        ensures
            final(self).wf(),
            final(self).steps == old(self).steps,
            outcome_of(*old(self)) is Some ==> *final(self) == *old(self),
            outcome_of(*old(self)) is None && succeeded ==> final(self).done == old(self).done + 1
                && !final(self).failed,
            outcome_of(*old(self)) is None && !succeeded ==> final(self).done == old(self).done
                && final(self).failed,
    {
        if !self.failed && self.done < self.steps.len() {
            if succeeded {
                self.done += 1;
            } else {
                self.failed = true;
            }
        }
    }

    /// How the run has ended; `None` while steps are left.
    pub fn outcome(&self) -> (outcome: Option<Result<(), BuildError>>)
        requires
            self.wf(),
        ensures
            match outcome {
                Some(Ok(_)) => outcome_of(*self) == Some(Ok::<(), Seq<char>>(())),
                Some(Err(error)) => error matches BuildError::Write(path) && outcome_of(*self)
                    == Some(Err::<(), Seq<char>>(path@)),
                None => outcome_of(*self) is None,
            },
    {
        if self.failed {
            let path = match &self.steps[self.done] {
                BuildStep::EnsureDir(path) => path.clone(),
                BuildStep::CreateDir(path) => path.clone(),
                BuildStep::Write { path, content, policy } => path.clone(),
                BuildStep::Remove(path) => path.clone(),
            };
            Some(Err(BuildError::Write(path)))
        } else if self.done == self.steps.len() {
            Some(Ok(()))
        } else {
            None
        }
    }
}

/// The step changes the page.
pub open spec fn touches_page(step: StepModel) -> bool {
    match step {
        StepModel::Write { path, content, policy } => path == PAGE_PATH@,
        StepModel::Remove(path) => path == PAGE_PATH@,
        _ => false,
    }
}

/// Of what a build writes, the last step writes the page and no other step
/// changes it.
pub proof fn lemma_page_is_written_last(
    page: Seq<char>,
    user_css: Option<Seq<char>>,
    gitignore: bool,
    ws_address: Seq<char>,
    assets: Assets,
)
    ensures
        artifact_plan(page, user_css, gitignore, ws_address, assets).len() > 0,
        artifact_plan(page, user_css, gitignore, ws_address, assets).last() == replace(
            PAGE_PATH@,
            encode_utf8(page),
        ),
        forall|i: int|
            0 <= i < artifact_plan(page, user_css, gitignore, ws_address, assets).len() - 1
                ==> !touches_page(
                #[trigger] artifact_plan(page, user_css, gitignore, ws_address, assets)[i],
            ),
{
    let plan = artifact_plan(page, user_css, gitignore, ws_address, assets);
    reveal_strlit("public/index.html");
    reveal_strlit(".gitignore");
    reveal_strlit("public/unveil.js");
    reveal_strlit("public/unveil.css");
    reveal_strlit("public/user_css.css");
    reveal_strlit("public/highlight.css");
    reveal_strlit("public/highlight.js");
    reveal_strlit("public/livereload.js");
    reveal_strlit("public/clipboard.js");
    reveal_strlit("public/fontawesome/webfonts");
    reveal_strlit("public/fontawesome/css/fontawesome.css");
    assert(CSS_PATH@[7] != PAGE_PATH@[7]);
    let head: int = if gitignore {
        1
    } else {
        0
    };
    let fonts: int = assets.fonts@.len() as int;
    assert(plan.len() == head + 10 + fonts + 3);
    assert forall|i: int| 0 <= i < plan.len() - 1 implies !touches_page(#[trigger] plan[i]) by {
        if i < head {
        } else if i < head + 10 {
        } else if i < head + 10 + fonts {
            let k: int = i - head - 10;
            let path = font_path(assets.fonts@[k].name@);
            assert(plan[i] == write_if_absent(path, assets.fonts@[k].content@));
            assert(path[7] == WEBFONT_DIR@[7]);
            assert(path[7] != PAGE_PATH@[7]);
        } else {
        }
    }
}

/// A run that failed has changed the page in none of the steps it performed:
/// the page of the build before is still there.
pub proof fn lemma_failed_run_keeps_page(
    run: BuildRun,
    page: Seq<char>,
    user_css: Option<Seq<char>>,
    gitignore: bool,
    ws_address: Seq<char>,
    assets: Assets,
)
    requires
        run.wf(),
        plan_of(run.steps@) == artifact_plan(page, user_css, gitignore, ws_address, assets),
        run.failed,
    ensures
        outcome_of(run) is Some && outcome_of(run)->0 is Err,
        forall|i: int| 0 <= i < run.performed().len() ==> !touches_page(#[trigger] run.performed()[i]),
{
    lemma_page_is_written_last(page, user_css, gitignore, ws_address, assets);
    let plan = artifact_plan(page, user_css, gitignore, ws_address, assets);
    assert forall|i: int| 0 <= i < run.performed().len() implies !touches_page(
        #[trigger] run.performed()[i],
    ) by {
        assert(run.performed()[i] == plan[i]);
    }
}

} // verus!
