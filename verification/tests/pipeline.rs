use unveil_rs::config::UnveilConfig;
use unveil_rs::error::BuildError;
use unveil_rs::html::HtmlBuilder;
use unveil_rs::pipeline::{
    livereload_for, plan_artifacts, Assets, BuildRun, BuildStep, FontFile, WritePolicy,
};
use unveil_rs::server::{Server, ServerAction};
use unveil_rs::unveil::UnveilProject;

fn assets() -> Assets {
    Assets {
        js: b"js".to_vec(),
        css: b"css".to_vec(),
        highlight_js: b"hl-js".to_vec(),
        highlight_css: b"hl-css".to_vec(),
        clipboard_js: b"clip".to_vec(),
        livereload_js: "socket.onmessage = () => location.reload();".to_string(),
        fontawesome_css: b"fa-css".to_vec(),
        fonts: vec![
            FontFile { name: "fa-regular-400.eot".to_string(), content: vec![1, 2] },
            FontFile { name: "fa-solid-900.woff2".to_string(), content: vec![3] },
        ],
        landing: b"# Landing".to_vec(),
    }
}

fn write(path: &str, content: &[u8], policy: WritePolicy) -> BuildStep {
    BuildStep::Write { path: path.to_string(), content: content.to_vec(), policy }
}

fn dir(path: &str) -> BuildStep {
    BuildStep::EnsureDir(path.to_string())
}

fn expected_plan(page: &str, css: Option<&str>, gitignore: bool) -> Vec<BuildStep> {
    let mut steps = Vec::new();
    if gitignore {
        steps.push(write(".gitignore", b"public", WritePolicy::IfAbsent));
    }
    steps.push(dir("public"));
    steps.push(write("public/unveil.js", b"js", WritePolicy::Replace));
    match css {
        Some(css) => steps.push(write("public/user_css.css", css.as_bytes(), WritePolicy::Replace)),
        None => steps.push(BuildStep::Remove("public/user_css.css".to_string())),
    }
    steps.push(write("public/highlight.css", b"hl-css", WritePolicy::Replace));
    steps.push(write(
        "public/livereload.js",
        b"let socket = new WebSocket(\"ws://localhost:3000\");socket.onmessage = () => location.reload();",
        WritePolicy::Replace,
    ));
    steps.push(write("public/clipboard.js", b"clip", WritePolicy::Replace));
    steps.push(write("public/highlight.js", b"hl-js", WritePolicy::Replace));
    steps.push(dir("public/fontawesome"));
    steps.push(dir("public/fontawesome/webfonts"));
    steps.push(dir("public/fontawesome/css"));
    steps.push(write(
        "public/fontawesome/webfonts/fa-regular-400.eot",
        &[1, 2],
        WritePolicy::IfAbsent,
    ));
    steps.push(write(
        "public/fontawesome/webfonts/fa-solid-900.woff2",
        &[3],
        WritePolicy::IfAbsent,
    ));
    steps.push(write("public/fontawesome/css/fontawesome.css", b"fa-css", WritePolicy::Replace));
    steps.push(write("public/unveil.css", b"css", WritePolicy::IfAbsent));
    steps.push(write("public/index.html", page.as_bytes(), WritePolicy::Replace));
    steps
}

#[test]
fn livereload_script_opens_the_socket_of_the_server() {
    let server = Server::default().with_hostname(Some("talk.local")).with_ws_port(Some(4000));
    assert_eq!(
        livereload_for(&server, "rest();"),
        "let socket = new WebSocket(\"ws://talk.local:4000\");rest();"
    );
}

#[test]
fn plan_writes_the_page_last() {
    let steps = plan_artifacts("<html>é</html>", &None, true, &Server::default(), &assets());
    assert_eq!(steps, expected_plan("<html>é</html>", None, true));
    let pages: Vec<usize> = steps
        .iter()
        .enumerate()
        .filter(|(_, step)| matches!(step, BuildStep::Write { path, .. } if path == "public/index.html"))
        .map(|(index, _)| index)
        .collect();
    assert_eq!(pages, vec![steps.len() - 1]);
}

#[test]
fn plan_with_user_stylesheet_and_without_ignore_file() {
    let css = Some("p { color: red; }".to_string());
    let steps = plan_artifacts("page", &css, false, &Server::default(), &assets());
    assert_eq!(steps, expected_plan("page", Some("p { color: red; }"), false));
}

#[test]
fn only_the_presentation_stylesheet_of_the_stylesheets_is_kept_if_present() {
    let steps = plan_artifacts("page", &None, false, &Server::default(), &assets());
    let kept: Vec<String> = steps
        .iter()
        .filter_map(|step| match step {
            BuildStep::Write { path, policy: WritePolicy::IfAbsent, .. } if path.ends_with(".css") => {
                Some(path.clone())
            }
            _ => None,
        })
        .collect();
    assert_eq!(kept, vec!["public/unveil.css".to_string()]);
}

#[test]
fn run_performs_the_steps_in_order() {
    let steps = expected_plan("page", None, false);
    let mut run = BuildRun::new(steps.clone());
    assert_eq!(run.outcome(), None);
    for step in &steps {
        assert_eq!(run.current(), Some(step));
        run.record(true);
    }
    assert_eq!(run.current(), None);
    assert_eq!(run.outcome(), Some(Ok(())));
    run.record(false);
    assert_eq!(run.outcome(), Some(Ok(())));
    assert_eq!(run.done, steps.len());
}

#[test]
fn failed_run_stops_before_the_page() {
    let steps = expected_plan("page", None, true);
    for failing in 0..steps.len() {
        let mut run = BuildRun::new(steps.clone());
        for _ in 0..failing {
            run.record(true);
        }
        run.record(false);
        assert_eq!(run.current(), None);
        assert!(run.failed);
        assert_eq!(run.done, failing);
        assert!(run.done < steps.len());
        let path = match &steps[failing] {
            BuildStep::EnsureDir(path) | BuildStep::CreateDir(path) | BuildStep::Remove(path) => {
                path.clone()
            }
            BuildStep::Write { path, .. } => path.clone(),
        };
        let outcome = run.outcome().unwrap();
        assert_eq!(outcome, Err(BuildError::Write(path)));
        assert!(matches!(Server::after_rebuild(&outcome), ServerAction::Report(_)));
        run.record(true);
        assert_eq!(run.done, failing);
    }
}

#[test]
fn empty_run_has_ended_well() {
    let mut run = BuildRun::new(vec![]);
    assert_eq!(run.current(), None);
    assert_eq!(run.outcome(), Some(Ok(())));
    run.record(true);
    assert_eq!(run.done, 0);
}

#[test]
fn project_build_plans_the_page_of_its_slides() {
    let mut project = UnveilProject::default();
    let config = UnveilConfig::default();
    let slides = vec!["+++\ncolor: red;\n+++\nHello".to_string(), "[class=\"x".to_string()];
    let output = project
        .build(&Server::default(), &config, slides.clone(), &assets())
        .unwrap();
    let mut builder = HtmlBuilder::new(slides, true);
    let (css, page) = builder.build().unwrap();
    assert_eq!(css, Some("#unveil-slide-0 {\n  color: red; }\n".to_string()));
    assert_eq!(output.run, BuildRun::new(expected_plan(&page, css.as_deref(), true)));
    assert_eq!(output.diagnostics, vec!["Unmatched class attribute".to_string()]);
    assert!(page.contains("livereload.js"));
}

#[test]
fn project_build_that_fails_plans_nothing() {
    let mut project = UnveilProject::default();
    let config = UnveilConfig::default();
    let result = project.build(
        &Server::default(),
        &config,
        vec!["+++\ncolor: ;\n+++\nx".to_string()],
        &assets(),
    );
    match result {
        Err(error @ BuildError::Compile(_)) => {
            assert!(matches!(Server::after_rebuild(&Err(error)), ServerAction::Report(_)));
        }
        other => panic!("expected a compile error, got {:?}", other),
    }
}
