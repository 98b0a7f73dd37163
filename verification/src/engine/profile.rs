//! Engine profiles: which engine, its options, and how to search.
use vstd::prelude::*;
use crate::engine::event::strings_view;
use crate::engine::protocol::EngineProtocol;
use crate::text::{dec, push_dec, push_str};

verus! {

/// Limits for one search (the `go` command).
#[derive(Debug, Clone, Copy, PartialEq, Eq, Structural)]
pub struct SearchParams {
    pub depth: Option<u32>,
    pub movetime_ms: Option<u64>,
    pub nodes: Option<u64>,
    pub infinite: bool,
}

impl Default for SearchParams {
    fn default() -> (p: Self)
        ensures
            p == (SearchParams { depth: None, movetime_ms: None, nodes: None, infinite: false }),
    {
        SearchParams { depth: None, movetime_ms: None, nodes: None, infinite: false }
    }
}

/// Text of an optional numeric `go` argument: ` <key> <n>` or nothing.
pub open spec fn go_arg(key: Seq<char>, v: Option<u64>) -> Seq<char> {
    match v {
        Some(n) => " "@ + key + " "@ + dec(n as nat),
        None => Seq::empty(),
    }
}

impl SearchParams {
    /// Search limited by depth only.
    pub fn with_depth(depth: u32) -> (p: Self)
        ensures
            p == (SearchParams { depth: Some(depth), movetime_ms: None, nodes: None, infinite: false }),
    {
        SearchParams { depth: Some(depth), movetime_ms: None, nodes: None, infinite: false }
    }

    /// Search limited by time (milliseconds) only.
    pub fn with_movetime(movetime_ms: u64) -> (p: Self)
        ensures
            p == (SearchParams { depth: None, movetime_ms: Some(movetime_ms), nodes: None, infinite: false }),
    {
        SearchParams { depth: None, movetime_ms: Some(movetime_ms), nodes: None, infinite: false }
    }

    /// Word for the time limit: `movetime` for UCI, `time` for UCCI.
    pub open spec fn time_key(protocol: EngineProtocol) -> Seq<char> {
        match protocol {
            EngineProtocol::Uci => "movetime"@,
            EngineProtocol::Ucci => "time"@,
        }
    }

    /// The `go` command: `go`, then depth, time limit, nodes and `infinite` as set.
    pub open spec fn spec_go_command(self, protocol: EngineProtocol) -> Seq<char> {
        "go"@ + go_arg("depth"@, match self.depth {
            Some(d) => Some(d as u64),
            None => None,
        }) + go_arg(Self::time_key(protocol), self.movetime_ms) + go_arg("nodes"@, self.nodes) + if self.infinite {
            " infinite"@
        } else {
            Seq::empty()
        }
    }

    /// The protocol's `go` command for these limits.
    pub fn to_go_command(&self, protocol: EngineProtocol) -> (s: String)
        ensures
            s@ == self.spec_go_command(protocol),
    {
        let mut out = String::new();
        push_str(&mut out, "go");
        let ghost a = out@;
        if let Some(depth) = self.depth {
            push_str(&mut out, " ");
            push_str(&mut out, "depth");
            push_str(&mut out, " ");
            push_dec(&mut out, depth as u64);
        }
        proof {
            assert(out@ =~= a + go_arg("depth"@, match self.depth {
                Some(d) => Some(d as u64),
                None => None,
            }));
        }
        let ghost b = out@;
        if let Some(movetime) = self.movetime_ms {
            let key = match protocol {
                EngineProtocol::Uci => "movetime",
                EngineProtocol::Ucci => "time",
            };
            push_str(&mut out, " ");
            push_str(&mut out, key);
            push_str(&mut out, " ");
            push_dec(&mut out, movetime);
        }
        proof {
            assert(out@ =~= b + go_arg(Self::time_key(protocol), self.movetime_ms));
        }
        let ghost c = out@;
        if let Some(nodes) = self.nodes {
            push_str(&mut out, " ");
            push_str(&mut out, "nodes");
            push_str(&mut out, " ");
            push_dec(&mut out, nodes);
        }
        proof {
            assert(out@ =~= c + go_arg("nodes"@, self.nodes));
        }
        let ghost d = out@;
        if self.infinite {
            push_str(&mut out, " infinite");
        }
        proof {
            assert(out@ =~= d + if self.infinite { " infinite"@ } else { Seq::<char>::empty() });
        }
        out
    }
}

/// Common engine options (sent as `setoption`).
#[derive(Debug, Clone, PartialEq, Eq)]
pub struct EngineOptions {
    pub threads: Option<u32>,
    pub hash_mb: Option<u32>,
    /// Path of the evaluation (NNUE) file.
    pub eval_file: Option<String>,
}

impl Default for EngineOptions {
    fn default() -> (o: Self)
        ensures
            o.threads.is_none(),
            o.hash_mb.is_none(),
            o.eval_file.is_none(),
    {
        EngineOptions { threads: None, hash_mb: None, eval_file: None }
    }
}

/// A raw engine option.
#[derive(Debug, Clone, PartialEq, Eq)]
pub struct EngineOption {
    pub name: String,
    pub value: String,
}

impl EngineOption {
    /// An option with the given name and value.
    pub fn new(name: &str, value: &str) -> (o: Self)
        ensures
            o.name@ == name@,
            o.value@ == value@,
    {
        EngineOption { name: name.to_owned(), value: value.to_owned() }
    }
}

/// `setoption name <name> value <value>`.
pub open spec fn spec_setoption(name: Seq<char>, value: Seq<char>) -> Seq<char> {
    "setoption name "@ + name + " value "@ + value
}

/// The `setoption` command for one option.
pub fn setoption_command(name: &str, value: &str) -> (s: String)
    ensures
        s@ == spec_setoption(name@, value@),
{
    let mut out = String::new();
    push_str(&mut out, "setoption name ");
    push_str(&mut out, name);
    push_str(&mut out, " value ");
    push_str(&mut out, value);
    proof {
        assert(out@ =~= spec_setoption(name@, value@));
    }
    out
}

/// `position fen <fen>`.
pub open spec fn spec_position_command(fen: Seq<char>) -> Seq<char> {
    "position fen "@ + fen
}

/// The command that sets up a position from FEN.
pub fn position_command(fen: &str) -> (s: String)
    ensures
        s@ == spec_position_command(fen@),
{
    let mut out = String::new();
    push_str(&mut out, "position fen ");
    push_str(&mut out, fen);
    out
}

/// An engine profile: name, protocol, engine path, options and search limits.
#[derive(Debug, Clone, PartialEq, Eq)]
pub struct EngineProfile {
    pub name: String,
    pub protocol: EngineProtocol,
    /// Path of the engine executable.
    pub engine_path: String,
    pub options: EngineOptions,
    pub search: SearchParams,
    pub extra_options: Vec<EngineOption>,
}

pub open spec fn extra_commands(opts: Seq<EngineOption>) -> Seq<Seq<char>> {
    opts.map_values(|o: EngineOption| spec_setoption(o.name@, o.value@))
}

impl EngineProfile {
    /// A profile with no options and no search limits.
    pub fn new(name: &str, protocol: EngineProtocol, engine_path: &str) -> (p: Self)
        ensures
            p.name@ == name@,
            p.protocol == protocol,
            p.engine_path@ == engine_path@,
            p.options.threads.is_none() && p.options.hash_mb.is_none() && p.options.eval_file.is_none(),
            p.search == (SearchParams { depth: None, movetime_ms: None, nodes: None, infinite: false }),
            p.extra_options@.len() == 0,
    {
        EngineProfile {
            name: name.to_owned(),
            protocol,
            engine_path: engine_path.to_owned(),
            options: EngineOptions::default(),
            search: SearchParams::default(),
            extra_options: Vec::new(),
        }
    }

    /// Sets the thread count.
    pub fn with_threads(self, threads: u32) -> (p: Self)
        ensures
            p == (EngineProfile { options: EngineOptions { threads: Some(threads), ..self.options }, ..self }),
    {
        let mut p = self;
        p.options.threads = Some(threads);
        p
    }

    /// Sets the hash size in MB.
    pub fn with_hash_mb(self, hash_mb: u32) -> (p: Self)
        ensures
            p == (EngineProfile { options: EngineOptions { hash_mb: Some(hash_mb), ..self.options }, ..self }),
    {
        let mut p = self;
        p.options.hash_mb = Some(hash_mb);
        p
    }

    /// Sets the evaluation file path.
    pub fn with_eval_file(self, eval_file: &str) -> (p: Self)
        ensures
            p.name == self.name,
            p.protocol == self.protocol,
            p.engine_path == self.engine_path,
            p.options.threads == self.options.threads,
            p.options.hash_mb == self.options.hash_mb,
            p.options.eval_file matches Some(f) && f@ == eval_file@,
            p.search == self.search,
            p.extra_options == self.extra_options,
    {
        let mut p = self;
        p.options.eval_file = Some(eval_file.to_owned());
        p
    }

    /// Sets the search depth.
    pub fn with_search_depth(self, depth: u32) -> (p: Self)
        ensures
            p == (EngineProfile { search: SearchParams { depth: Some(depth), ..self.search }, ..self }),
    {
        let mut p = self;
        p.search.depth = Some(depth);
        p
    }

    /// Sets the search time in milliseconds.
    pub fn with_search_movetime(self, movetime_ms: u64) -> (p: Self)
        ensures
            p == (EngineProfile { search: SearchParams { movetime_ms: Some(movetime_ms), ..self.search }, ..self }),
    {
        let mut p = self;
        p.search.movetime_ms = Some(movetime_ms);
        p
    }

    /// Adds a raw option.
    pub fn with_extra_option(self, name: &str, value: &str) -> (p: Self)
        ensures
            p.name == self.name,
            p.protocol == self.protocol,
            p.engine_path == self.engine_path,
            p.options == self.options,
            p.search == self.search,
            p.extra_options@.len() == self.extra_options@.len() + 1,
            p.extra_options@.drop_last() == self.extra_options@,
            p.extra_options@.last().name@ == name@,
            p.extra_options@.last().value@ == value@,
    {
        let mut p = self;
        p.extra_options.push(EngineOption::new(name, value));
        proof {
            assert(p.extra_options@.drop_last() =~= self.extra_options@);
        }
        p
    }

    /// The `setoption` commands of the profile: threads, hash, evaluation file
    /// (each when set), then the raw options in order.
    pub open spec fn spec_setoption_commands(self) -> Seq<Seq<char>> {
        (match self.options.threads {
            Some(t) => seq![spec_setoption("Threads"@, dec(t as nat))],
            None => Seq::empty(),
        }) + (match self.options.hash_mb {
            Some(h) => seq![spec_setoption("Hash"@, dec(h as nat))],
            None => Seq::empty(),
        }) + (match self.options.eval_file {
            Some(f) => seq![spec_setoption("EvalFile"@, f@)],
            None => Seq::empty(),
        }) + extra_commands(self.extra_options@)
    }

    /// All `setoption` commands for this profile.
    pub fn to_setoption_commands(&self) -> (cmds: Vec<String>)
        ensures
            strings_view(cmds@) == self.spec_setoption_commands(),
    {
        let mut commands: Vec<String> = Vec::new();
        if let Some(threads) = self.options.threads {
            let mut c = String::new();
            push_str(&mut c, "setoption name ");
            push_str(&mut c, "Threads");
            push_str(&mut c, " value ");
            push_dec(&mut c, threads as u64);
            proof {
                assert(c@ =~= spec_setoption("Threads"@, dec(threads as nat)));
            }
            commands.push(c);
        }
        let ghost a = strings_view(commands@);
        if let Some(hash_mb) = self.options.hash_mb {
            let mut c = String::new();
            push_str(&mut c, "setoption name ");
            push_str(&mut c, "Hash");
            push_str(&mut c, " value ");
            push_dec(&mut c, hash_mb as u64);
            proof {
                assert(c@ =~= spec_setoption("Hash"@, dec(hash_mb as nat)));
            }
            commands.push(c);
        }
        proof {
            assert(strings_view(commands@) =~= a + match self.options.hash_mb {
                Some(h) => seq![spec_setoption("Hash"@, dec(h as nat))],
                None => Seq::<Seq<char>>::empty(),
            });
        }
        let ghost b = strings_view(commands@);
        if let Some(path) = &self.options.eval_file {
            let mut c = String::new();
            push_str(&mut c, "setoption name ");
            push_str(&mut c, "EvalFile");
            push_str(&mut c, " value ");
            push_str(&mut c, path.as_str());
            proof {
                assert(c@ =~= spec_setoption("EvalFile"@, path@));
            }
            commands.push(c);
        }
        proof {
            assert(strings_view(commands@) =~= b + match self.options.eval_file {
                Some(f) => seq![spec_setoption("EvalFile"@, f@)],
                None => Seq::<Seq<char>>::empty(),
            });
        }
        let ghost c0 = strings_view(commands@);
        let mut i: usize = 0;
        while i < self.extra_options.len()
            invariant
                i <= self.extra_options@.len(),
                strings_view(commands@) == c0 + extra_commands(self.extra_options@.take(i as int)),
            decreases self.extra_options@.len() - i,
        {
            let opt = &self.extra_options[i];
            let cmd = setoption_command(opt.name.as_str(), opt.value.as_str());
            let ghost before = strings_view(commands@);
            commands.push(cmd);
            proof {
                assert(self.extra_options@.take(i + 1) =~= self.extra_options@.take(i as int).push(*opt));
                assert(extra_commands(self.extra_options@.take(i + 1)) =~= extra_commands(
                    self.extra_options@.take(i as int),
                ).push(spec_setoption(opt.name@, opt.value@)));
                assert(strings_view(commands@) =~= before.push(cmd@));
            }
            i += 1;
        }
        proof {
            assert(self.extra_options@.take(self.extra_options@.len() as int) =~= self.extra_options@);
            assert(strings_view(commands@) =~= self.spec_setoption_commands());
        }
        commands
    }
}

} // verus!
