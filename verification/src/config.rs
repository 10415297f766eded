//! The configuration of a presentation.

use crate::text::{from_chars, push_str, same_text};
use vstd::prelude::*;

verus! {

/// What the project's configuration file holds.
#[derive(Clone, Debug, PartialEq, Eq)]
pub struct UnveilConfig {
    /// The name of the presentation.
    pub name: String,
    /// The language of the presentation.
    pub language: String,
    /// The file names of the slides, in the order of the presentation.
    pub slides: Vec<String>,
    /// Whether the output directory is to be kept out of version control.
    pub gitignore: bool,
    /// `default`, `dark`, or the name of a stylesheet in the output
    /// directory.
    pub theme: String,
}

impl Default for UnveilConfig {
    fn default() -> (config: Self)
        ensures
            config.name@ == "unveil"@,
            config.language@ == "EN"@,
            config.slides@.len() == 1,
            config.slides@[0]@ == "landing.md"@,
            config.gitignore,
            config.theme@ == "default"@,
    {
        let mut slides: Vec<String> = Vec::new();
        slides.push("landing.md".to_owned());
        UnveilConfig {
            name: "unveil".to_owned(),
            language: "EN".to_owned(),
            slides,
            gitignore: true,
            theme: "default".to_owned(),
        }
    }
}

/// Where a theme's stylesheet comes from.
#[derive(Clone, Debug, PartialEq, Eq)]
pub enum Theme {
    /// The bundled light theme.
    Default,
    /// The bundled dark theme.
    Dark,
    /// The file at this path.
    Custom(String),
}

impl UnveilConfig {
    /// The theme of the presentation: one of the two bundled ones, or the
    /// stylesheet of the configured name in the output directory.
    pub fn get_theme(&self) -> (theme: Theme)
        ensures
            match theme {
                Theme::Default => self.theme@ == "default"@,
                Theme::Dark => self.theme@ == "dark"@,
                Theme::Custom(path) => self.theme@ != "default"@ && self.theme@ != "dark"@
                    && path@ == "public/"@ + self.theme@,
            },
    {
        if same_text(self.theme.as_str(), "default") {
            Theme::Default
        } else if same_text(self.theme.as_str(), "dark") {
            Theme::Dark
        } else {
            let mut out: Vec<char> = Vec::new();
            push_str(&mut out, "public/");
            push_str(&mut out, self.theme.as_str());
            Theme::Custom(from_chars(&out))
        }
    }
}

} // verus!
