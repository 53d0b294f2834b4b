//! Assembling what a plugin tells the simulator of itself.

use crate::plugin::{Host, Plugin, PluginDetails};
use vstd::prelude::*;
use vstd::string::StringExecFns;

verus! {

/// Collects the particulars of a plugin; whatever is left out is filled in
/// when the session starts.
#[derive(Debug)]
pub struct PluginBuilder {
    name: Option<String>,
    author: Option<String>,
    version: Option<String>,
    description: Option<String>,
    host: Option<Host>,
}

/// The name of a plugin that gives none.
pub open spec fn default_name() -> Seq<char> {
    "stellwerksim-rs Plugin"@
}

/// The author of a plugin that gives none.
pub open spec fn default_author() -> Seq<char> {
    "stellwerksim-rs Author"@
}

/// The version of a plugin that gives none: that of this library.
pub open spec fn default_version() -> Seq<char> {
    "0.1.0"@
}

/// The description of a plugin that gives none.
pub open spec fn default_description() -> Seq<char> {
    "A stellwerksim-rs plugin"@
}

/// Where the simulator is looked for unless told otherwise: this machine,
/// port 3691.
pub open spec fn default_host() -> Host {
    Host::V4 { a: 127, b: 0, c: 0, d: 1, port: 3691 }
}

/// `value`, or `fallback` where there is none.
pub open spec fn or_default(value: Option<Seq<char>>, fallback: Seq<char>) -> Seq<char> {
    match value {
        Some(text) => text,
        None => fallback,
    }
}

impl PluginBuilder {
    /// The name that was given, if any.
    pub closed spec fn given_name(&self) -> Option<Seq<char>> {
        self.name.deep_view()
    }

    /// The author that was given, if any.
    pub closed spec fn given_author(&self) -> Option<Seq<char>> {
        self.author.deep_view()
    }

    /// The version that was given, if any.
    pub closed spec fn given_version(&self) -> Option<Seq<char>> {
        self.version.deep_view()
    }

    /// The description that was given, if any.
    pub closed spec fn given_description(&self) -> Option<Seq<char>> {
        self.description.deep_view()
    }

    /// The address that was given, if any.
    pub closed spec fn given_host(&self) -> Option<Host> {
        self.host
    }

    /// A builder to which nothing was given yet.
    pub fn new() -> (r: PluginBuilder)
        ensures
            r.given_name() is None,
            r.given_author() is None,
            r.given_version() is None,
            r.given_description() is None,
            r.given_host() is None,
    {
        PluginBuilder { name: None, author: None, version: None, description: None, host: None }
    }

    /// Gives the plugin's name.
    pub fn name(self, name: &str) -> (r: PluginBuilder)
        ensures
            r.given_name() == Some(name@),
            r.given_author() == self.given_author(),
            r.given_version() == self.given_version(),
            r.given_description() == self.given_description(),
            r.given_host() == self.given_host(),
    {
        PluginBuilder { name: Some(String::from_str(name)), ..self }
    }

    /// Gives the plugin's author.
    pub fn author(self, author: &str) -> (r: PluginBuilder)
        ensures
            r.given_name() == self.given_name(),
            r.given_author() == Some(author@),
            r.given_version() == self.given_version(),
            r.given_description() == self.given_description(),
            r.given_host() == self.given_host(),
    {
        PluginBuilder { author: Some(String::from_str(author)), ..self }
    }

    /// Gives the plugin's version.
    pub fn version(self, version: &str) -> (r: PluginBuilder)
        ensures
            r.given_name() == self.given_name(),
            r.given_author() == self.given_author(),
            r.given_version() == Some(version@),
            r.given_description() == self.given_description(),
            r.given_host() == self.given_host(),
    {
        PluginBuilder { version: Some(String::from_str(version)), ..self }
    }

    /// Gives the plugin's description.
    pub fn description(self, description: &str) -> (r: PluginBuilder)
        ensures
            r.given_name() == self.given_name(),
            r.given_author() == self.given_author(),
            r.given_version() == self.given_version(),
            r.given_description() == Some(description@),
            r.given_host() == self.given_host(),
    {
        PluginBuilder { description: Some(String::from_str(description)), ..self }
    }

    /// Gives the address at which the simulator listens.
    pub fn host(self, host: Host) -> (r: PluginBuilder)
        ensures
            r.given_name() == self.given_name(),
            r.given_author() == self.given_author(),
            r.given_version() == self.given_version(),
            r.given_description() == self.given_description(),
            r.given_host() == Some(host),
    {
        PluginBuilder { host: Some(host), ..self }
    }

    /// The particulars with which the session will start: what was given,
    /// and the defaults for what was not.
    pub fn details(self) -> (r: PluginDetails)
        ensures
            r.name@ == or_default(self.given_name(), default_name()),
            r.author@ == or_default(self.given_author(), default_author()),
            r.version@ == or_default(self.given_version(), default_version()),
            r.description@ == or_default(self.given_description(), default_description()),
            r.host == match self.given_host() {
                Some(host) => host,
                None => default_host(),
            },
    {
        PluginDetails {
            name: match self.name {
                Some(name) => name,
                None => String::from_str("stellwerksim-rs Plugin"),
            },
            author: match self.author {
                Some(author) => author,
                None => String::from_str("stellwerksim-rs Author"),
            },
            version: match self.version {
                Some(version) => version,
                None => String::from_str("0.1.0"),
            },
            description: match self.description {
                Some(description) => description,
                None => String::from_str("A stellwerksim-rs plugin"),
            },
            host: match self.host {
                Some(host) => host,
                None => Host::V4 { a: 127, b: 0, c: 0, d: 1, port: 3691 },
            },
        }
    }

    /// Starts a session with what was given and the defaults for the rest.
    /// The session awaits the simulator's greeting; nothing was received
    /// yet.
    pub fn connect(self) -> (r: Plugin)
        ensures
            r.wf(),
            r.phase() == crate::plugin::Phase::Greeting,
            r.buffered() == Seq::<u8>::empty(),
            !r.ended(),
            r.details().name@ == or_default(self.given_name(), default_name()),
            r.details().author@ == or_default(self.given_author(), default_author()),
            r.details().version@ == or_default(self.given_version(), default_version()),
            r.details().description@ == or_default(
                self.given_description(),
                default_description(),
            ),
            r.details().host == match self.given_host() {
                Some(host) => host,
                None => default_host(),
            },
    {
        Plugin::connect(self.details())
    }
}

impl Default for PluginBuilder {
    fn default() -> (r: PluginBuilder)
        ensures
            r.given_name() is None,
            r.given_author() is None,
            r.given_version() is None,
            r.given_description() is None,
            r.given_host() is None,
    {
        PluginBuilder::new()
    }
}

} // verus!
