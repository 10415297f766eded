use unveil_rs::error::BuildError;
use unveil_rs::server::{Server, ServerAction};

#[test]
fn default_server() {
    let server = Server::default();
    assert_eq!(server.http_port, 7878);
    assert_eq!(server.ws_port, 3000);
    assert_eq!(server.hostname, "localhost");
    assert_eq!(server.public_dir, "public");
    assert_eq!(server.slide_dir, "slides");
}

#[test]
fn ports_and_host_name_are_replaced_only_when_given() {
    let server = Server::default()
        .with_http_port(None)
        .with_ws_port(None)
        .with_hostname(None);
    assert_eq!(server, Server::default());
    let server = Server::default()
        .with_http_port(Some(8080))
        .with_ws_port(Some(3001))
        .with_hostname(Some("example.org"));
    assert_eq!(server.http_port, 8080);
    assert_eq!(server.ws_port, 3001);
    assert_eq!(server.hostname, "example.org");
    assert_eq!(server.public_dir, "public");
    assert_eq!(server.slide_dir, "slides");
}

#[test]
fn addresses_are_host_colon_port() {
    let server = Server::default();
    assert_eq!(server.http_address(), "localhost:7878");
    assert_eq!(server.ws_address(), "localhost:3000");
    let server = Server::default()
        .with_hostname(Some("0.0.0.0"))
        .with_http_port(Some(0))
        .with_ws_port(Some(65535));
    assert_eq!(server.http_address(), "0.0.0.0:0");
    assert_eq!(server.ws_address(), "0.0.0.0:65535");
}

#[test]
fn negative_ports_are_written_with_their_sign() {
    let server = Server::default()
        .with_http_port(Some(-1))
        .with_ws_port(Some(i32::MIN));
    assert_eq!(server.http_address(), "localhost:-1");
    assert_eq!(server.ws_address(), "localhost:-2147483648");
    let server = Server::default().with_http_port(Some(i32::MAX));
    assert_eq!(server.http_address(), "localhost:2147483647");
}

#[test]
fn reload_goes_out_only_after_a_build_that_succeeded() {
    assert_eq!(
        Server::after_rebuild(&Ok(())),
        ServerAction::Broadcast("reload".to_string())
    );
    assert_eq!(
        Server::after_rebuild(&Err(BuildError::Compile("boom".to_string()))),
        ServerAction::Report(
            "Unable to load the presentation : Unable to compile style matter : boom".to_string()
        )
    );
    assert_eq!(
        Server::after_rebuild(&Err(BuildError::Read("slides/a.md".to_string()))),
        ServerAction::Report(
            "Unable to load the presentation : Unable to read slide : slides/a.md".to_string()
        )
    );
    assert_eq!(
        Server::after_rebuild(&Err(BuildError::Write("public/index.html".to_string()))),
        ServerAction::Report(
            "Unable to load the presentation : Could not write to file : public/index.html"
                .to_string()
        )
    );
}

#[test]
fn failures_in_words() {
    assert_eq!(
        BuildError::Read("slides/a.md".to_string()).message(),
        "Unable to read slide : slides/a.md"
    );
    assert_eq!(
        BuildError::Compile("line 1".to_string()).message(),
        "Unable to compile style matter : line 1"
    );
    assert_eq!(
        BuildError::Write("public/x".to_string()).message(),
        "Could not write to file : public/x"
    );
}
