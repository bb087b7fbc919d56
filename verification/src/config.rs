//! The settings of the server.

use vstd::prelude::*;
use vstd::string::*;

verus! {

/// The size that the cache gets where the settings ask for none.
pub const DEFAULT_CACHE_SIZE: usize = 5;

/// The settings of the server: the directory that is served, the port to
/// listen on, the number of worker threads, the number of bodies that the
/// cache keeps, and whether to listen on the loopback address only.
#[derive(Debug, Clone)]
pub struct Config {
    www_root: String,
    port: u16,
    worker_threads: usize,
    cache_size: usize,
    local: bool,
}

/// The settings as mathematical values.
pub struct ConfigView {
    pub www_root: Seq<char>,
    pub port: u16,
    pub worker_threads: usize,
    pub cache_size: usize,
    pub local: bool,
}

impl View for Config {
    type V = ConfigView;

    closed spec fn view(&self) -> ConfigView {
        ConfigView {
            www_root: self.www_root@,
            port: self.port,
            worker_threads: self.worker_threads,
            cache_size: self.cache_size,
            local: self.local,
        }
    }
}

/// The settings that apply where none are given.
pub open spec fn defaults() -> ConfigView {
    ConfigView { www_root: "."@, port: 7878, worker_threads: 0, cache_size: 5, local: true }
}

/// Settings with their blanks filled in: a count of zero worker threads
/// stands for one thread per processor, and a cache size of zero for the
/// default size.
pub open spec fn settled(raw: ConfigView, processors: usize) -> ConfigView {
    ConfigView {
        worker_threads: if raw.worker_threads == 0 {
            processors
        } else {
            raw.worker_threads
        },
        cache_size: if raw.cache_size == 0 {
            DEFAULT_CACHE_SIZE
        } else {
            raw.cache_size
        },
        ..raw
    }
}

/// `num_cpus::get`: the number of processors that this process may use,
/// which is never zero. Nothing more is claimed about it.
#[verifier::external_body]
pub(crate) fn processors() -> (n: usize)
    ensures
        n >= 1,
{
    num_cpus::get()
}

impl Config {
    /// The settings that apply where none are given.
    pub fn new() -> (c: Config)
        ensures
            c@ == defaults(),
    {
        Config {
            www_root: String::from_str("."),
            port: 7878,
            worker_threads: 0,
            cache_size: 5,
            local: true,
        }
    }

    /// Settings with the given values.
    pub fn from_values(
        www_root: String,
        port: u16,
        worker_threads: usize,
        cache_size: usize,
        local: bool,
    ) -> (c: Config)
        ensures
            c@ == (ConfigView { www_root: www_root@, port, worker_threads, cache_size, local }),
    {
        Config { www_root, port, worker_threads, cache_size, local }
    }

    /// Fills in the blanks of these settings for a machine with
    /// `processors` processors.
    pub fn settle(self, processors: usize) -> (c: Config)
        ensures
            c@ == settled(self@, processors),
    {
        Config {
            www_root: self.www_root,
            port: self.port,
            worker_threads: if self.worker_threads == 0 {
                processors
            } else {
                self.worker_threads
            },
            cache_size: if self.cache_size == 0 {
                DEFAULT_CACHE_SIZE
            } else {
                self.cache_size
            },
            local: self.local,
        }
    }

    /// The settings to run with, from what a settings file gave: `parsed`
    /// holds the values read from it, or nothing where the file could not
    /// be understood, in which case the defaults apply. Blanks are filled in
    /// for this machine.
    pub fn from_toml(parsed: Option<Config>) -> (c: Config)
        ensures
            c@ == settled(
                match parsed {
                    Some(p) => p@,
                    None => defaults(),
                },
                c@.worker_threads,
            ),
            c@.worker_threads >= 1,
            c@.cache_size >= 1,
    {
        let raw = match parsed {
            Some(p) => p,
            None => Config::new(),
        };
        raw.settle(processors())
    }

    /// The directory that is served.
    pub fn www_root(&self) -> (root: &str)
        ensures
            root@ == self@.www_root,
    {
        self.www_root.as_str()
    }

    /// The port to listen on.
    pub fn port(&self) -> (port: u16)
        ensures
            port == self@.port,
    {
        self.port
    }

    /// The number of worker threads.
    pub fn worker_threads(&self) -> (n: usize)
        ensures
            n == self@.worker_threads,
    {
        self.worker_threads
    }

    /// The number of bodies that the cache keeps.
    pub fn cache_size(&self) -> (n: usize)
        ensures
            n == self@.cache_size,
    {
        self.cache_size
    }

    /// Whether to listen on the loopback address only.
    pub fn local(&self) -> (local: bool)
        ensures
            local == self@.local,
    {
        self.local
    }
}

} // verus!
