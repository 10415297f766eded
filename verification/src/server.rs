//! The development server: where it listens, and what it does once the
//! presentation was rebuilt.

use crate::error::BuildError;
use crate::text::{from_chars, push_signed_decimal, push_str, signed_decimal};
use vstd::prelude::*;

verus! {

/// The message that tells the browsers to load the page again.
pub const RELOAD_MESSAGE: &'static str = "reload";

/// Where the development server listens and what it serves.
#[derive(Clone, Debug, PartialEq, Eq)]
pub struct Server {
    /// The port of the static file server.
    pub http_port: i32,
    /// The port on which browsers wait for the reload message.
    pub ws_port: i32,
    /// The host name of both.
    pub hostname: String,
    /// The directory that is served.
    pub public_dir: String,
    /// The directory of the slides, which is watched.
    pub slide_dir: String,
}

impl Default for Server {
    fn default() -> (server: Self)
        ensures
            server.http_port == 7878,
            server.ws_port == 3000,
            server.hostname@ == "localhost"@,
            server.public_dir@ == "public"@,
            server.slide_dir@ == "slides"@,
    {
        Server {
            http_port: 7878,
            ws_port: 3000,
            hostname: "localhost".to_owned(),
            public_dir: "public".to_owned(),
            slide_dir: "slides".to_owned(),
        }
    }
}

/// `host` and `port`, with a colon between them.
pub open spec fn host_and_port(host: Seq<char>, port: int) -> Seq<char> {
    host + seq![':'] + signed_decimal(port)
}

/// What the server does after an attempt to rebuild.
#[derive(Clone, Debug, PartialEq, Eq)]
pub enum ServerAction {
    /// Send this message to every connected browser.
    Broadcast(String),
    /// Log this failure and go on serving what is there.
    Report(String),
}

impl Server {
    /// The same server, on the given HTTP port if there is one.
    pub fn with_http_port(self, port: Option<i32>) -> (server: Server)
        ensures
            server.http_port == (match port {
                Some(port) => port,
                None => self.http_port,
            }),
            server.ws_port == self.ws_port,
            server.hostname == self.hostname,
            server.public_dir == self.public_dir,
            server.slide_dir == self.slide_dir,
    {
        let mut server = self;
        if let Some(port) = port {
            server.http_port = port;
        }
        server
    }

    /// The same server, on the given socket port if there is one.
    pub fn with_ws_port(self, port: Option<i32>) -> (server: Server)
        ensures
            server.ws_port == (match port {
                Some(port) => port,
                None => self.ws_port,
            }),
            server.http_port == self.http_port,
            server.hostname == self.hostname,
            server.public_dir == self.public_dir,
            server.slide_dir == self.slide_dir,
    {
        let mut server = self;
        if let Some(port) = port {
            server.ws_port = port;
        }
        server
    }

    /// The same server, under the given host name if there is one.
    pub fn with_hostname(self, hostname: Option<&str>) -> (server: Server)
        ensures
            server.hostname@ == (match hostname {
                Some(hostname) => hostname@,
                None => self.hostname@,
            }),
            server.http_port == self.http_port,
            server.ws_port == self.ws_port,
            server.public_dir == self.public_dir,
            server.slide_dir == self.slide_dir,
    {
        let mut server = self;
        if let Some(hostname) = hostname {
            server.hostname = hostname.to_owned();
        }
        server
    }

    fn address(&self, port: i32) -> (address: String)
        ensures
            address@ == host_and_port(self.hostname@, port as int),
    {
        let mut out: Vec<char> = Vec::new();
        push_str(&mut out, self.hostname.as_str());
        out.push(':');
        push_signed_decimal(&mut out, port);
        from_chars(&out)
    }

    /// The address of the static file server: host name, colon, HTTP port.
    pub fn http_address(&self) -> (address: String)
        ensures
            address@ == host_and_port(self.hostname@, self.http_port as int),
    {
        self.address(self.http_port)
    }

    /// The address on which browsers wait for the reload message: host name,
    /// colon, socket port.
    pub fn ws_address(&self) -> (address: String)
        ensures
            address@ == host_and_port(self.hostname@, self.ws_port as int),
    {
        self.address(self.ws_port)
    }

    /// What follows an attempt to rebuild: the reload message goes out
    /// exactly when the build succeeded; a failure is reported and nothing
    /// is sent.
    pub fn after_rebuild(outcome: &Result<(), BuildError>) -> (action: ServerAction)
        ensures
            match *outcome {
                Ok(_) => action matches ServerAction::Broadcast(message) && message@
                    == RELOAD_MESSAGE@,
                Err(error) => action matches ServerAction::Report(message) && message@
                    == "Unable to load the presentation : "@ + crate::error::message_prefix(error)
                    + crate::error::message_detail(error),
            },
    {
        match outcome {
            Ok(_) => ServerAction::Broadcast(RELOAD_MESSAGE.to_owned()),
            Err(error) => {
                let mut out: Vec<char> = Vec::new();
                push_str(&mut out, "Unable to load the presentation : ");
                push_str(&mut out, error.message().as_str());
                let message = from_chars(&out);
                assert(message@ =~= "Unable to load the presentation : "@
                    + crate::error::message_prefix(*error) + crate::error::message_detail(*error));
                ServerAction::Report(message)
            },
        }
    }
}

} // verus!
