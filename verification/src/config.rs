//! Node configuration: the command line's shape, the optional configuration
//! file's shape, and the rule that merges them into one `Config`.
//!
//! Reading the command line and the file is the surrounding program's
//! business; `resolve_config` is the part with meaning: command-line values
//! override file values, which override the defaults.

use vstd::prelude::*;

use crate::strutil::{clone_opt_string, clone_string_vec};

verus! {

/// Which side of the booking pipeline this node plays.
#[derive(Debug, Clone, Copy, PartialEq, Eq, Structural)]
pub enum Role {
    Client,
    Gateway,
}

impl Role {
    /// The lowercase name of the role.
    pub fn as_str(&self) -> (r: &'static str)
        ensures
            r@ == self.spec_str(),
    {
        proof {
            reveal_strlit("client");
            reveal_strlit("gateway");
        }
        match self {
            Role::Client => "client",
            Role::Gateway => "gateway",
        }
    }

    pub open spec fn spec_str(self) -> Seq<char> {
        match self {
            Role::Client => "client"@,
            Role::Gateway => "gateway"@,
        }
    }
}

/// The command line as parsed: an optional subcommand plus the top-level
/// flags kept for compatibility.
#[derive(Debug, Clone)]
pub struct CliArgs {
    pub command: Option<Commands>,
    pub identity_file: Option<String>,
    pub role: Option<Role>,
    pub listen: Option<String>,
    pub dial: Option<String>,
}

/// The subcommands the node accepts.
#[derive(Debug, Clone)]
pub enum Commands {
    Run { role: Option<Role>, listen: Option<String>, dial: Option<String> },
    PeerId,
    TestSubmit { listen: String, dial: String, timeout_secs: u64 },
}

/// What a configuration file may set; every field is optional.
#[derive(Debug, Clone)]
pub struct FileConfig {
    pub role: Option<Role>,
    pub listen: Option<String>,
    pub dial: Option<String>,
    pub peers: Vec<String>,
    pub bootstrap_peers: Vec<String>,
    pub enable_mdns: Option<bool>,
    pub enable_kad: Option<bool>,
    pub enable_relay: Option<bool>,
    pub discovery_timeout_secs: Option<u64>,
    pub central_api_url: Option<String>,
    pub db_path: Option<String>,
    pub max_retry_attempts: Option<u32>,
    pub initial_backoff_ms: Option<u64>,
}

/// The node's resolved configuration.
#[derive(Debug, Clone)]
pub struct Config {
    pub role: Role,
    pub listen: String,
    pub dial: Option<String>,
    pub peers: Vec<String>,
    pub bootstrap_peers: Vec<String>,
    pub enable_mdns: bool,
    pub enable_kad: bool,
    pub enable_relay: bool,
    pub discovery_timeout_secs: u64,
    pub central_api_url: Option<String>,
    pub db_path: String,
    pub max_retry_attempts: u32,
    pub initial_backoff_ms: u64,
}

/// The role after merging: the subcommand's value first, then the top-level
/// flag, then the file, then `Client`.
pub open spec fn spec_resolved_role(args: CliArgs, file: Option<FileConfig>) -> Role {
    let from_file = if file is Some && (file->0).role is Some {
        (file->0).role->0
    } else {
        Role::Client
    };
    match args.command {
        Option::Some(Commands::Run { role, .. }) => if role is Some {
            role->0
        } else if args.role is Some {
            args.role->0
        } else {
            from_file
        },
        Option::Some(Commands::PeerId) => from_file,
        Option::Some(Commands::TestSubmit { .. }) => Role::Client,
        Option::None => if args.role is Some {
            args.role->0
        } else {
            from_file
        },
    }
}

/// The listen address after merging, defaulting to every interface on an
/// ephemeral TCP port.
pub open spec fn spec_resolved_listen(args: CliArgs, file: Option<FileConfig>) -> Seq<char> {
    let from_file = if file is Some && (file->0).listen is Some {
        ((file->0).listen->0)@
    } else {
        "/ip4/0.0.0.0/tcp/0"@
    };
    match args.command {
        Option::Some(Commands::Run { listen, .. }) => if listen is Some {
            (listen->0)@
        } else if args.listen is Some {
            (args.listen->0)@
        } else {
            from_file
        },
        Option::Some(Commands::PeerId) => from_file,
        Option::Some(Commands::TestSubmit { listen, .. }) => listen@,
        Option::None => if args.listen is Some {
            (args.listen->0)@
        } else {
            from_file
        },
    }
}

/// The peer to dial after merging, if any.
pub open spec fn spec_resolved_dial(args: CliArgs, file: Option<FileConfig>) -> Option<String> {
    let from_file = if file is Some {
        (file->0).dial
    } else {
        Option::<String>::None
    };
    match args.command {
        Option::Some(Commands::Run { dial, .. }) => if dial is Some {
            dial
        } else if args.dial is Some {
            args.dial
        } else {
            from_file
        },
        Option::Some(Commands::PeerId) => from_file,
        Option::Some(Commands::TestSubmit { dial, .. }) => Option::Some(dial),
        Option::None => if args.dial is Some {
            args.dial
        } else {
            from_file
        },
    }
}

/// Merges the command line and the optional configuration file into the
/// node's configuration. Command-line values win over file values; what
/// neither names takes its default. The `TestSubmit` subcommand always runs
/// as a client, listening and dialing where it says.
pub fn resolve_config(args: &CliArgs, file: &Option<FileConfig>) -> (r: Config)
    ensures
        r.role == spec_resolved_role(*args, *file),
        r.listen@ == spec_resolved_listen(*args, *file),
        r.dial == spec_resolved_dial(*args, *file),
        r.peers@ == if *file is Some {
            ((*file)->0).peers@
        } else {
            Seq::<String>::empty()
        },
        r.bootstrap_peers@ == if *file is Some {
            ((*file)->0).bootstrap_peers@
        } else {
            Seq::<String>::empty()
        },
        r.enable_mdns == if *file is Some && ((*file)->0).enable_mdns is Some {
            ((*file)->0).enable_mdns->0
        } else {
            true
        },
        r.enable_kad == if *file is Some && ((*file)->0).enable_kad is Some {
            ((*file)->0).enable_kad->0
        } else {
            true
        },
        r.enable_relay == if *file is Some && ((*file)->0).enable_relay is Some {
            ((*file)->0).enable_relay->0
        } else {
            false
        },
        r.discovery_timeout_secs == if *file is Some && ((*file)->0).discovery_timeout_secs
            is Some {
            ((*file)->0).discovery_timeout_secs->0
        } else {
            60
        },
        r.central_api_url == if *file is Some {
            ((*file)->0).central_api_url
        } else {
            Option::<String>::None
        },
        r.db_path@ == if *file is Some && ((*file)->0).db_path is Some {
            (((*file)->0).db_path->0)@
        } else {
            "./data/broker.db"@
        },
        r.max_retry_attempts == if *file is Some && ((*file)->0).max_retry_attempts is Some {
            ((*file)->0).max_retry_attempts->0
        } else {
            10u32
        },
        r.initial_backoff_ms == if *file is Some && ((*file)->0).initial_backoff_ms is Some {
            ((*file)->0).initial_backoff_ms->0
        } else {
            1000u64
        },
{
    let mut role: Role = Role::Client;
    let mut listen: String = String::from_str("/ip4/0.0.0.0/tcp/0");
    let mut dial: Option<String> = Option::None;
    let mut peers: Vec<String> = Vec::new();
    let mut bootstrap_peers: Vec<String> = Vec::new();
    let mut enable_mdns: bool = true;
    let mut enable_kad: bool = true;
    let mut enable_relay: bool = false;
    let mut discovery_timeout_secs: u64 = 60;
    let mut central_api_url: Option<String> = Option::None;
    let mut db_path: String = String::from_str("./data/broker.db");
    let mut max_retry_attempts: u32 = 10;
    let mut initial_backoff_ms: u64 = 1000;

    match file {
        Option::Some(cfg) => {
            match &cfg.role {
                Option::Some(r0) => {
                    role = *r0;
                },
                Option::None => (),
            }
            match &cfg.listen {
                Option::Some(l) => {
                    listen = l.clone();
                },
                Option::None => (),
            }
            dial = clone_opt_string(&cfg.dial);
            peers = clone_string_vec(&cfg.peers);
            bootstrap_peers = clone_string_vec(&cfg.bootstrap_peers);
            match cfg.enable_mdns {
                Option::Some(b) => {
                    enable_mdns = b;
                },
                Option::None => (),
            }
            match cfg.enable_kad {
                Option::Some(b) => {
                    enable_kad = b;
                },
                Option::None => (),
            }
            match cfg.enable_relay {
                Option::Some(b) => {
                    enable_relay = b;
                },
                Option::None => (),
            }
            match cfg.discovery_timeout_secs {
                Option::Some(t) => {
                    discovery_timeout_secs = t;
                },
                Option::None => (),
            }
            central_api_url = clone_opt_string(&cfg.central_api_url);
            match &cfg.db_path {
                Option::Some(p) => {
                    db_path = p.clone();
                },
                Option::None => (),
            }
            match cfg.max_retry_attempts {
                Option::Some(m) => {
                    max_retry_attempts = m;
                },
                Option::None => (),
            }
            match cfg.initial_backoff_ms {
                Option::Some(b) => {
                    initial_backoff_ms = b;
                },
                Option::None => (),
            }
        },
        Option::None => (),
    }

    match &args.command {
        Option::Some(Commands::Run { role: r0, listen: l0, dial: d0 }) => {
            match r0 {
                Option::Some(rr) => {
                    role = *rr;
                },
                Option::None => {
                    match &args.role {
                        Option::Some(rr) => {
                            role = *rr;
                        },
                        Option::None => (),
                    }
                },
            }
            match l0 {
                Option::Some(l) => {
                    listen = l.clone();
                },
                Option::None => {
                    match &args.listen {
                        Option::Some(l) => {
                            listen = l.clone();
                        },
                        Option::None => (),
                    }
                },
            }
            match d0 {
                Option::Some(d) => {
                    dial = Option::Some(d.clone());
                },
                Option::None => {
                    match &args.dial {
                        Option::Some(d) => {
                            dial = Option::Some(d.clone());
                        },
                        Option::None => (),
                    }
                },
            }
        },
        Option::Some(Commands::PeerId) => (),
        Option::Some(Commands::TestSubmit { listen: l0, dial: d0, .. }) => {
            role = Role::Client;
            listen = l0.clone();
            dial = Option::Some(d0.clone());
        },
        Option::None => {
            match &args.role {
                Option::Some(rr) => {
                    role = *rr;
                },
                Option::None => (),
            }
            match &args.listen {
                Option::Some(l) => {
                    listen = l.clone();
                },
                Option::None => (),
            }
            match &args.dial {
                Option::Some(d) => {
                    dial = Option::Some(d.clone());
                },
                Option::None => (),
            }
        },
    }

    Config {
        role,
        listen,
        dial,
        peers,
        bootstrap_peers,
        enable_mdns,
        enable_kad,
        enable_relay,
        discovery_timeout_secs,
        central_api_url,
        db_path,
        max_retry_attempts,
        initial_backoff_ms,
    }
}

} // verus!
