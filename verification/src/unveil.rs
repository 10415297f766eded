//! A presentation project: its build, its first layout, its slides.

use crate::config::UnveilConfig;
use crate::error::BuildError;
use crate::html::{
    injected_slides, page_html, rendered_styles, reported, slide_texts, transformed_slides,
    HtmlBuilder,
};
use crate::pipeline::{
    artifact_plan, plan_artifacts, plan_of, replace, Assets, BuildRun, BuildStep, StepModel,
    WritePolicy,
};
use crate::server::{host_and_port, Server};
use crate::text::{ends_with, has_suffix, to_chars};
use vstd::prelude::*;
use vstd::slice::slice_to_vec;
use vstd::string::{StrSliceExecFns, StringExecFns};
use vstd::utf8::encode_utf8;

verus! {

/// The directory of the slides, with the separator behind it.
pub const SLIDE_PREFIX: &'static str = "slides/";

/// The extension of a slide's file name.
pub const SLIDE_EXTENSION: &'static str = ".md";

/// The name of a project that was given none.
pub const DEFAULT_PROJECT_NAME: &'static str = "unveil";

/// What the ignore file of a new project holds.
pub const INITIAL_GITIGNORE: &'static str = "pubic";

/// A presentation project.
#[derive(Clone, Debug, PartialEq, Eq)]
pub struct UnveilProject {
    /// The directory of the project.
    pub root: String,
    /// The slides' texts.
    pub markdown: Vec<String>,
    /// Whether the page reloads itself when the presentation was rebuilt.
    pub livereload: bool,
}

impl Default for UnveilProject {
    fn default() -> (project: Self)
        ensures
            project.root@ == "."@,
            project.markdown@.len() == 0,
            project.livereload,
    {
        UnveilProject { root: ".".to_owned(), markdown: Vec::new(), livereload: true }
    }
}

/// What a build that got as far as writing hands back.
#[derive(Clone, Debug, PartialEq, Eq)]
pub struct BuildOutput {
    /// The steps that write the output.
    pub run: BuildRun,
    /// What the build has to tell the author.
    pub diagnostics: Vec<String>,
}

/// The path of the slide with the file name `name`.
pub open spec fn slide_path(name: Seq<char>) -> Seq<char> {
    SLIDE_PREFIX@ + name
}

/// The file name of the slide called `name`: the name itself if it ends in
/// the extension of slides, and the name with that extension otherwise.
pub open spec fn slide_file_name(name: Seq<char>) -> Seq<char> {
    if ends_with(name, SLIDE_EXTENSION@) {
        name
    } else {
        name + SLIDE_EXTENSION@
    }
}

/// The steps that lay out a new project in the directory `name`.
pub open spec fn init_plan(name: Seq<char>, landing: Seq<u8>, config: Seq<char>) -> Seq<
    StepModel,
> {
    seq![
        StepModel::CreateDir(name),
        StepModel::CreateDir(name + "/slides"@),
        replace(name + "/.gitignore"@, encode_utf8(INITIAL_GITIGNORE@)),
        replace(name + "/slides/landing.md"@, landing),
        replace(name + "/unveil.toml"@, encode_utf8(config)),
    ]
}

/// The slides of a presentation as they are read, one after the other.
#[derive(Clone, Debug, PartialEq, Eq)]
pub struct SlideReading {
    /// The paths of the slides, in the order of the presentation.
    pub paths: Vec<String>,
    /// The texts of the slides that have been read.
    pub texts: Vec<String>,
    /// Whether the slide after those could not be read.
    pub failed: bool,
}

/// How a reading has ended, if it has: with the texts of all slides, or
/// with the path of the first slide that could not be read.
pub open spec fn reading_outcome(reading: SlideReading) -> Option<Result<Seq<String>, Seq<char>>> {
    if reading.failed {
        Some(Err(reading.paths@[reading.texts@.len() as int]@))
    } else if reading.texts@.len() == reading.paths@.len() {
        Some(Ok(reading.texts@))
    } else {
        None
    }
}

impl SlideReading {
    /// No more slides are read than there are, and a failed reading has a
    /// slide that failed.
    pub open spec fn wf(&self) -> bool {
        &&& self.texts@.len() <= self.paths@.len()
        &&& self.failed ==> self.texts@.len() < self.paths@.len()
    }

    /// A reading of the slides of `config`, of which none is read yet.
    pub fn new(config: &UnveilConfig) -> (reading: Self)
        ensures
            reading.wf(),
            !reading.failed,
            reading.texts@.len() == 0,
            reading.paths@.len() == config.slides@.len(),
            forall|i: int|
                0 <= i < reading.paths@.len() ==> (#[trigger] reading.paths@[i])@ == slide_path(
                    config.slides@[i]@,
                ),
    {
        SlideReading { paths: UnveilProject::slide_paths(config), texts: Vec::new(), failed: false }
    }

    /// The path of the slide to read next; `None` once the reading has
    /// ended.
    pub fn current(&self) -> (path: Option<&String>)
        requires
            self.wf(),
        ensures
            path is None <==> reading_outcome(*self) is Some,
            path is Some ==> *path->0 == self.paths@[self.texts@.len() as int],
    {
        if self.failed || self.texts.len() >= self.paths.len() {
            None
        } else {
            Some(&self.paths[self.texts.len()])
        }
    }

    /// Takes in the text of the current slide, or `None` where it could not
    /// be read, which ends the reading: no later slide is read. On a
    /// reading that has ended nothing changes.
    pub fn record(&mut self, text: Option<String>)
        requires
            old(self).wf(),
        ensures
            final(self).wf(),
            final(self).paths == old(self).paths,
            reading_outcome(*old(self)) is Some ==> *final(self) == *old(self),
            reading_outcome(*old(self)) is None ==> match text {
                Some(text) => !final(self).failed && final(self).texts@ == old(self).texts@.push(
                    text,
                ),
                None => final(self).texts == old(self).texts && final(self).failed,
            },
    {
        if !self.failed && self.texts.len() < self.paths.len() {
            match text {
                Some(text) => self.texts.push(text),
                None => self.failed = true,
            }
        }
    }

    /// How the reading has ended; `None` while slides are left.
    pub fn finish(self) -> (outcome: Option<Result<Vec<String>, BuildError>>)
        requires
            self.wf(),
        ensures
            match outcome {
                Some(Ok(texts)) => reading_outcome(self) == Some(
                    Ok::<Seq<String>, Seq<char>>(texts@),
                ),
                Some(Err(error)) => error matches BuildError::Read(path) && reading_outcome(self)
                    == Some(Err::<Seq<String>, Seq<char>>(path@)),
                None => reading_outcome(self) is None,
            },
    {
        if self.failed {
            Some(Err(BuildError::Read(self.paths[self.texts.len()].clone())))
        } else if self.texts.len() == self.paths.len() {
            Some(Ok(self.texts))
        } else {
            None
        }
    }
}

fn join(left: &str, right: &str) -> (out: String)
    ensures
        out@ == left@ + right@,
{
    String::from_str(left).concat(right)
}

impl UnveilProject {
    /// The paths of the slides to read, in the order of the presentation.
    pub fn slide_paths(config: &UnveilConfig) -> (paths: Vec<String>)
        ensures
            paths@.len() == config.slides@.len(),
            forall|i: int|
                0 <= i < paths@.len() ==> (#[trigger] paths@[i])@ == slide_path(
                    config.slides@[i]@,
                ),
    {
        let mut paths: Vec<String> = Vec::new();
        let mut i: usize = 0;
        while i < config.slides.len()
            invariant
                i <= config.slides.len(),
                paths@.len() == i,
                forall|k: int|
                    0 <= k < i ==> (#[trigger] paths@[k])@ == slide_path(config.slides@[k]@),
            decreases config.slides.len() - i,
        {
            paths.push(join(SLIDE_PREFIX, config.slides[i].as_str()));
            i += 1;
        }
        paths
    }

    /// Builds the presentation from the texts of its slides and says what
    /// to write.
    ///
    /// Fails where the page cannot be built, and then nothing is to be
    /// written. Otherwise the steps are those of `artifact_plan`, for the
    /// page of these slides and the stylesheet that was compiled from their
    /// style matter, if that gave one.
    pub fn build(
        &mut self,
        server: &Server,
        config: &UnveilConfig,
        slides: Vec<String>,
        assets: &Assets,
    ) -> (result: Result<BuildOutput, BuildError>)
        ensures
            *final(self) == *old(self),
            rendered_styles(slide_texts(slides@), slides@.len()).len() == 0 ==> result is Ok,
            match result {
                Ok(output) => {
                    &&& reported(
                        Seq::empty(),
                        output.diagnostics@,
                        injected_slides(slide_texts(slides@)).unmatched is Some,
                    )
                    &&& output.run.wf()
                    &&& output.run.done == 0
                    &&& !output.run.failed
                    &&& exists|css: Option<Seq<char>>|
                        {
                            &&& (css is Some ==> css->0.len() > 0 && rendered_styles(
                                slide_texts(slides@),
                                slides@.len(),
                            ).len() > 0)
                            &&& #[trigger] artifact_plan(
                                page_html(
                                    transformed_slides(slide_texts(slides@)),
                                    css is Some,
                                    old(self).livereload,
                                ),
                                css,
                                config.gitignore,
                                host_and_port(server.hostname@, server.ws_port as int),
                                *assets,
                            ) == plan_of(output.run.steps@)
                        }
                },
                Err(error) => error is Compile && rendered_styles(
                    slide_texts(slides@),
                    slides@.len(),
                ).len() > 0,
            },
    {
        let mut builder = HtmlBuilder::new(slides, self.livereload);
        assert(builder.diagnostics@ =~= Seq::<String>::empty());
        let (user_css, page) = match builder.build() {
            Ok(built) => built,
            Err(error) => {
                return Err(error);
            },
        };
        let steps = plan_artifacts(page.as_str(), &user_css, config.gitignore, server, assets);
        Ok(BuildOutput { run: BuildRun::new(steps), diagnostics: builder.diagnostics })
    }

    /// Lays out a new project: its directory, which must not exist yet, the
    /// directory of its slides, an ignore file, a first slide and the
    /// configuration `config`. Without a name the project is called `unveil`.
    pub fn init(&mut self, project_name: Option<&str>, config: &str, assets: &Assets) -> (run:
        BuildRun)
        ensures
            *final(self) == *old(self),
            run.wf(),
            run.done == 0,
            !run.failed,
            plan_of(run.steps@) == init_plan(
                match project_name {
                    Some(name) => name@,
                    None => DEFAULT_PROJECT_NAME@,
                },
                assets.landing@,
                config@,
            ),
    {
        let name = match project_name {
            Some(name) => name,
            None => DEFAULT_PROJECT_NAME,
        };
        let mut steps: Vec<BuildStep> = Vec::new();
        steps.push(BuildStep::CreateDir(name.to_owned()));
        steps.push(BuildStep::CreateDir(join(name, "/slides")));
        steps.push(
            BuildStep::Write {
                path: join(name, "/.gitignore"),
                content: INITIAL_GITIGNORE.as_bytes_vec(),
                policy: WritePolicy::Replace,
            },
        );
        steps.push(
            BuildStep::Write {
                path: join(name, "/slides/landing.md"),
                content: slice_to_vec(assets.landing.as_slice()),
                policy: WritePolicy::Replace,
            },
        );
        steps.push(
            BuildStep::Write {
                path: join(name, "/unveil.toml"),
                content: config.as_bytes_vec(),
                policy: WritePolicy::Replace,
            },
        );
        assert(plan_of(steps@) =~= init_plan(name@, assets.landing@, config@));
        BuildRun::new(steps)
    }

    /// Adds the slide called `name` to the presentation, as its last slide.
    /// Returns the path of the file to create for it.
    pub fn new_slide(&mut self, name: &str, config: &mut UnveilConfig) -> (path: String)
        ensures
            *final(self) == *old(self),
            path@ == slide_path(slide_file_name(name@)),
            final(config).slides@.len() == old(config).slides@.len() + 1,
            final(config).slides@.last()@ == slide_file_name(name@),
            final(config).slides@.drop_last() == old(config).slides@,
            final(config).name == old(config).name,
            final(config).language == old(config).language,
            final(config).gitignore == old(config).gitignore,
            final(config).theme == old(config).theme,
    {
        let text = to_chars(name);
        let extension = to_chars(SLIDE_EXTENSION);
        let filename = if has_suffix(&text, &extension) {
            name.to_owned()
        } else {
            join(name, SLIDE_EXTENSION)
        };
        let path = join(SLIDE_PREFIX, filename.as_str());
        config.slides.push(filename);
        assert(config.slides@.drop_last() =~= old(config).slides@);
        path
    }

    /// The server of this project: the default one, with the host name and
    /// the ports that are given in place of its own.
    pub fn serve(&mut self, hostname: Option<&str>, http_port: Option<i32>, ws_port: Option<i32>) -> (server:
        Server)
        ensures
            *final(self) == *old(self),
            server.hostname@ == (match hostname {
                Some(hostname) => hostname@,
                None => "localhost"@,
            }),
            server.http_port == (match http_port {
                Some(port) => port,
                None => 7878i32,
            }),
            server.ws_port == (match ws_port {
                Some(port) => port,
                None => 3000i32,
            }),
            server.public_dir@ == "public"@,
            server.slide_dir@ == "slides"@,
    {
        Server::default().with_hostname(hostname).with_http_port(http_port).with_ws_port(ws_port)
    }
}

} // verus!
