//! The node's command line.
//!
//! Arguments are read from left to right. A switch counts wherever it
//! stands. An option with a value takes the argument that follows it; where
//! it is given more than once the last one counts, and where nothing follows
//! it, it is ignored.

use crate::text::{parse_port, port_of, split, split_commas, texts};
use vstd::prelude::*;
use vstd::string::*;

verus! {

/// The directory the node works in unless `--node-path` names another.
pub const DEFAULT_NODE_PATH: &'static str = "./node-testnet";

/// The port of the query API unless `--api-port` names another.
pub const DEFAULT_API_PORT: u16 = 3003;

/// The port peers connect to unless `--node-port` names another.
pub const DEFAULT_NODE_PORT: u16 = 8998;

/// What the command line asks of the node.
#[derive(Clone, Debug, PartialEq, Eq)]
pub struct Options {
    /// Seed peers to dial on startup, as given.
    pub peers: Vec<String>,
    /// Addresses that peer discovery never disconnects, as given.
    pub reserved_ips: Vec<String>,
    /// The working directory.
    pub node_path: String,
    pub api_port: u16,
    pub node_port: u16,
    /// Whether to serve the query API.
    pub start_api: bool,
    /// Whether to skip the initial block download.
    pub no_ibd: bool,
    /// Whether to leave peer discovery off.
    pub no_auto_peer: bool,
    /// Whether to run without the dashboard.
    pub headless: bool,
    /// Whether to mine and submit a genesis block at startup.
    pub create_genesis: bool,
    /// Whether proof of work runs in its full-memory mode.
    pub full_memory: bool,
    /// Whether to attach the runtime console.
    pub debug: bool,
}

/// `Options`, as contracts see it.
pub struct OptionsView {
    pub peers: Seq<Seq<char>>,
    pub reserved_ips: Seq<Seq<char>>,
    pub node_path: Seq<char>,
    pub api_port: u16,
    pub node_port: u16,
    pub start_api: bool,
    pub no_ibd: bool,
    pub no_auto_peer: bool,
    pub headless: bool,
    pub create_genesis: bool,
    pub full_memory: bool,
    pub debug: bool,
}

impl View for Options {
    type V = OptionsView;

    open spec fn view(&self) -> OptionsView {
        OptionsView {
            peers: texts(self.peers@),
            reserved_ips: texts(self.reserved_ips@),
            node_path: self.node_path@,
            api_port: self.api_port,
            node_port: self.node_port,
            start_api: self.start_api,
            no_ibd: self.no_ibd,
            no_auto_peer: self.no_auto_peer,
            headless: self.headless,
            create_genesis: self.create_genesis,
            full_memory: self.full_memory,
            debug: self.debug,
        }
    }
}

/// A command line that cannot be used.
#[derive(Clone, Copy, Debug, PartialEq, Eq)]
pub enum OptionsError {
    /// The value of an `--api-port` is not a port number.
    InvalidApiPort,
    /// The value of a `--node-port` is not a port number.
    InvalidNodePort,
}

/// Whether the switch `name` stands among the first `k` arguments.
pub open spec fn switch_before(args: Seq<Seq<char>>, name: Seq<char>, k: int) -> bool {
    exists|j: int| 0 <= j < k && j < args.len() && #[trigger] args[j] == name
}

/// Whether the switch `name` is given.
pub open spec fn has_switch(args: Seq<Seq<char>>, name: Seq<char>) -> bool {
    switch_before(args, name, args.len() as int)
}

/// The value of the last `name` among the first `k` arguments that has an
/// argument after it.
pub open spec fn value_before(args: Seq<Seq<char>>, name: Seq<char>, k: int) -> Option<Seq<char>>
    decreases k,
{
    if k <= 0 {
        None
    } else if k < args.len() && args[k - 1] == name {
        Some(args[k])
    } else {
        value_before(args, name, k - 1)
    }
}

/// The value of the option `name`: the argument after its last occurrence
/// that has one.
pub open spec fn last_value(args: Seq<Seq<char>>, name: Seq<char>) -> Option<Seq<char>> {
    value_before(args, name, args.len() as int)
}

/// Whether argument `i` is a port option whose value is not a port number.
pub open spec fn bad_port_at(args: Seq<Seq<char>>, i: int) -> bool {
    &&& 0 <= i
    &&& i + 1 < args.len()
    &&& (args[i] == "--api-port"@ || args[i] == "--node-port"@)
    &&& port_of(args[i + 1]) is None
}

/// The position of the first port option from `from` on whose value is not
/// a port number.
pub open spec fn first_bad_port(args: Seq<Seq<char>>, from: int) -> Option<int>
    decreases args.len() - from,
{
    if from < 0 || from >= args.len() {
        None
    } else if bad_port_at(args, from) {
        Some(from)
    } else {
        first_bad_port(args, from + 1)
    }
}

/// The comma-separated entries of an option's value; none without a value.
pub open spec fn list_of(value: Option<Seq<char>>) -> Seq<Seq<char>> {
    match value {
        Some(v) => split(v, ','),
        None => Seq::empty(),
    }
}

/// The port an option's value names, or `default` without a value.
pub open spec fn port_or(value: Option<Seq<char>>, default: u16) -> u16 {
    match value {
        Some(v) => match port_of(v) {
            Some(p) => p,
            None => default,
        },
        None => default,
    }
}

/// An option's value, or `default` without one.
pub open spec fn text_or(value: Option<Seq<char>>, default: Seq<char>) -> Seq<char> {
    match value {
        Some(v) => v,
        None => default,
    }
}

/// What a command line asks for. It is refused where a port option has a
/// value that is not a port number; the first such option from the left
/// names the error.
pub open spec fn parsed(args: Seq<Seq<char>>) -> Result<OptionsView, OptionsError> {
    match first_bad_port(args, 0) {
        Some(i) => Err(
            if args[i] == "--api-port"@ {
                OptionsError::InvalidApiPort
            } else {
                OptionsError::InvalidNodePort
            },
        ),
        None => Ok(
            OptionsView {
                peers: list_of(last_value(args, "--peers"@)),
                reserved_ips: list_of(last_value(args, "--reserved-ips"@)),
                node_path: text_or(last_value(args, "--node-path"@), DEFAULT_NODE_PATH@),
                api_port: port_or(last_value(args, "--api-port"@), DEFAULT_API_PORT),
                node_port: port_or(last_value(args, "--node-port"@), DEFAULT_NODE_PORT),
                start_api: !has_switch(args, "--no-api"@),
                no_ibd: has_switch(args, "--no-ibd"@),
                no_auto_peer: has_switch(args, "--no-auto-peer"@),
                headless: has_switch(args, "--headless"@),
                create_genesis: has_switch(args, "--create-genesis"@),
                full_memory: has_switch(args, "--full-memory"@),
                debug: has_switch(args, "--debug"@),
            },
        ),
    }
}

fn is_name(arg: &String, name: &str) -> (r: bool)
    ensures
        r == (arg@ == name@),
{
    let name = String::from_str(name);
    *arg == name
}

/// Whether the switch `name` is given in `args`.
pub fn switch_given(args: &Vec<String>, name: &str) -> (r: bool)
    ensures
        r == has_switch(texts(args@), name@),
{
    let ghost a = texts(args@);
    let mut i: usize = 0;
    while i < args.len()
        invariant
            i <= args.len(),
            a == texts(args@),
            !switch_before(a, name@, i as int),
        decreases args.len() - i,
    {
        if is_name(&args[i], name) {
            assert(a[i as int] == name@);
            return true;
        }
        i += 1;
    }
    false
}

/// Where in `args` the value of the option `name` stands.
pub fn value_index(args: &Vec<String>, name: &str) -> (r: Option<usize>)
    ensures
        match r {
            Some(k) => k < args.len() && last_value(texts(args@), name@) == Some(args[k as int]@),
            None => last_value(texts(args@), name@) is None,
        },
{
    let ghost a = texts(args@);
    let n = args.len();
    let mut k: usize = n;
    while k > 0
        invariant
            k <= n,
            n == args.len(),
            a == texts(args@),
            value_before(a, name@, n as int) == value_before(a, name@, k as int),
        decreases k,
    {
        if k < n && is_name(&args[k - 1], name) {
            assert(a[k - 1] == args[k - 1]@);
            assert(a[k as int] == args[k as int]@);
            return Some(k);
        }
        assert(a[k - 1] == args[k - 1]@);
        k -= 1;
    }
    None
}

/// Looks for a port option whose value is not a port number.
pub fn check_ports(args: &Vec<String>) -> (r: Result<(), OptionsError>)
    ensures
        match r {
            Ok(()) => first_bad_port(texts(args@), 0) is None,
            Err(error) => parsed(texts(args@)) == Err::<OptionsView, OptionsError>(error),
        },
{
    let ghost a = texts(args@);
    let n = args.len();
    let mut i: usize = 0;
    while i < n
        invariant
            i <= n,
            n == args.len(),
            a == texts(args@),
            first_bad_port(a, 0) == first_bad_port(a, i as int),
        decreases n - i,
    {
        assert(a[i as int] == args[i as int]@);
        if i + 1 < n {
            assert(a[i + 1] == args[i + 1]@);
            let api = is_name(&args[i], "--api-port");
            let node = is_name(&args[i], "--node-port");
            if (api || node) && parse_port(args[i + 1].as_str()).is_none() {
                proof {
                    lemma_names_differ();
                }
                return Err(
                    if api {
                        OptionsError::InvalidApiPort
                    } else {
                        OptionsError::InvalidNodePort
                    },
                );
            }
        }
        i += 1;
    }
    Ok(())
}

fn list_value(args: &Vec<String>, name: &str) -> (r: Vec<String>)
    ensures
        texts(r@) == list_of(last_value(texts(args@), name@)),
{
    match value_index(args, name) {
        Some(k) => split_commas(args[k].as_str()),
        None => {
            let r: Vec<String> = Vec::new();
            assert(texts(r@) =~= Seq::<Seq<char>>::empty());
            r
        },
    }
}

fn port_value(args: &Vec<String>, name: &str, default: u16) -> (r: u16)
    ensures
        r == port_or(last_value(texts(args@), name@), default),
{
    match value_index(args, name) {
        Some(k) => match parse_port(args[k].as_str()) {
            Some(port) => port,
            None => default,
        },
        None => default,
    }
}

fn text_value(args: &Vec<String>, name: &str, default: &str) -> (r: String)
    ensures
        r@ == text_or(last_value(texts(args@), name@), default@),
{
    match value_index(args, name) {
        Some(k) => args[k].clone(),
        None => String::from_str(default),
    }
}

/// Reads the command line `args`, program name included.
pub fn parse_args(args: &Vec<String>) -> (r: Result<Options, OptionsError>)
    ensures
        match r {
            Ok(options) => parsed(texts(args@)) == Ok::<OptionsView, OptionsError>(options@),
            Err(error) => parsed(texts(args@)) == Err::<OptionsView, OptionsError>(error),
        },
{
    match check_ports(args) {
        Err(error) => {
            return Err(error);
        },
        Ok(()) => {},
    }
    Ok(
        Options {
            peers: list_value(args, "--peers"),
            reserved_ips: list_value(args, "--reserved-ips"),
            node_path: text_value(args, "--node-path", DEFAULT_NODE_PATH),
            api_port: port_value(args, "--api-port", DEFAULT_API_PORT),
            node_port: port_value(args, "--node-port", DEFAULT_NODE_PORT),
            start_api: !switch_given(args, "--no-api"),
            no_ibd: switch_given(args, "--no-ibd"),
            no_auto_peer: switch_given(args, "--no-auto-peer"),
            headless: switch_given(args, "--headless"),
            create_genesis: switch_given(args, "--create-genesis"),
            full_memory: switch_given(args, "--full-memory"),
            debug: switch_given(args, "--debug"),
        },
    )
}

/// The value of an option is the argument after an occurrence of its name,
/// and no later occurrence has an argument after it; an option has no value
/// exactly where no occurrence of its name is followed by an argument.
pub proof fn lemma_last_value(args: Seq<Seq<char>>, name: Seq<char>)
    ensures
        match last_value(args, name) {
            Some(value) => exists|i: int|
                0 <= i && i + 1 < args.len() && #[trigger] args[i] == name && value == args[i + 1]
                    && forall|j: int| i < j && j + 1 < args.len() ==> #[trigger] args[j] != name,
            None => forall|i: int| 0 <= i && i + 1 < args.len() ==> #[trigger] args[i] != name,
        },
{
    lemma_value_before(args, name, args.len() as int);
}

proof fn lemma_value_before(args: Seq<Seq<char>>, name: Seq<char>, k: int)
    requires
        k <= args.len(),
    ensures
        match value_before(args, name, k) {
            Some(value) => exists|i: int|
                0 <= i && i + 1 < args.len() && i < k && #[trigger] args[i] == name && value
                    == args[i + 1] && forall|j: int|
                    i < j && j < k && j + 1 < args.len() ==> #[trigger] args[j] != name,
            None => forall|i: int|
                0 <= i && i < k && i + 1 < args.len() ==> #[trigger] args[i] != name,
        },
    decreases k,
{
    if k <= 0 {
    } else if k < args.len() && args[k - 1] == name {
        let i = k - 1;
        assert(0 <= i && i + 1 < args.len() && i < k && args[i] == name);
    } else {
        lemma_value_before(args, name, k - 1);
        match value_before(args, name, k - 1) {
            Some(value) => {
                let i = choose|i: int|
                    0 <= i && i + 1 < args.len() && i < k - 1 && #[trigger] args[i] == name && value
                        == args[i + 1] && forall|j: int|
                        i < j && j < k - 1 && j + 1 < args.len() ==> #[trigger] args[j] != name;
                assert(0 <= i && i + 1 < args.len() && i < k && args[i] == name && value == args[i
                    + 1]);
                assert forall|j: int| i < j && j < k && j + 1 < args.len() implies #[trigger] args[j]
                    != name by {
                    if j == k - 1 {
                    }
                }
            },
            None => {},
        }
    }
}

/// The first bad port stands at a port option with a bad value, before
/// which there is none; there is no first one exactly where there is none.
pub proof fn lemma_first_bad_port(args: Seq<Seq<char>>)
    ensures
        match first_bad_port(args, 0) {
            Some(i) => bad_port_at(args, i) && forall|j: int| 0 <= j < i ==> !bad_port_at(args, j),
            None => forall|j: int| !bad_port_at(args, j),
        },
{
    lemma_first_bad_port_from(args, 0);
}

proof fn lemma_first_bad_port_from(args: Seq<Seq<char>>, from: int)
    requires
        0 <= from,
    ensures
        match first_bad_port(args, from) {
            Some(i) => from <= i && bad_port_at(args, i) && forall|j: int|
                from <= j < i ==> !bad_port_at(args, j),
            None => forall|j: int| from <= j ==> !bad_port_at(args, j),
        },
    decreases args.len() - from,
{
    if from < args.len() && !bad_port_at(args, from) {
        lemma_first_bad_port_from(args, from + 1);
    }
}

proof fn lemma_names_differ()
    ensures
        "--api-port"@ != "--node-port"@,
{
    reveal_strlit("--api-port");
    reveal_strlit("--node-port");
    assert("--api-port"@[2] != "--node-port"@[2]);
}

} // verus!
