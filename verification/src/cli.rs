//! The command line: flags, their values and the help texts.

use vstd::prelude::*;
use crate::text::{lowercase, str_eq, to_lowercase};

verus! {

broadcast use vstd::string::group_string_axioms;

/// The flags of the command line.
#[derive(Debug, Clone, Copy, PartialEq, Eq, Structural)]
pub enum Flag {
    MaxServers,
    Help,
    Debug,
}

/// The flag that a lowercase flag name (without its `-`) stands for.
pub open spec fn flag_of(name: Seq<char>) -> Option<Flag> {
    if name == "max_servers"@ || name == "m_s"@ {
        Some(Flag::MaxServers)
    } else if name == "help"@ || name == "h"@ {
        Some(Flag::Help)
    } else if name == "debug"@ || name == "d"@ || name == "dbg"@ {
        Some(Flag::Debug)
    } else {
        None
    }
}

/// The flag that a lowercase flag name (without its `-`) stands for.
pub fn classify_flag(name: &str) -> (r: Option<Flag>)
    ensures
        r == flag_of(name@),
{
    if str_eq(name, "max_servers") || str_eq(name, "m_s") {
        Some(Flag::MaxServers)
    } else if str_eq(name, "help") || str_eq(name, "h") {
        Some(Flag::Help)
    } else if str_eq(name, "debug") || str_eq(name, "d") || str_eq(name, "dbg") {
        Some(Flag::Debug)
    } else {
        None
    }
}

/// The settings the command line gives.
#[derive(Debug, Clone)]
pub struct CliConfig {
    /// Whether debug mode is on (default: off).
    pub debug: bool,
    /// The maximum number of instances, as written (default: `10`).
    pub max_servers: String,
    /// The flag whose help was asked for (empty when `-help` ends the line).
    pub help: Option<String>,
}

/// Why a command line is refused.
#[derive(Debug, Clone)]
pub enum CliError {
    /// A flag that does not exist, lowercased and without its `-`.
    InvalidFlag(String),
    /// A flag that needs a value ended the command line.
    MissingValue(String),
}

/// The flag whose value the next argument is, if any.
pub enum Pending {
    Nothing,
    MaxServers,
    Help,
}

/// The command line read so far.
pub struct ArgsState {
    pub debug: bool,
    pub max_servers: Seq<char>,
    pub help: Option<Seq<char>>,
    pub pending: Pending,
}

/// A refused command line, by its views.
pub enum ArgsFailure {
    InvalidFlag(Seq<char>),
    MissingValue(Seq<char>),
}

/// The state before any argument: debug off, at most ten instances.
pub open spec fn initial_state() -> ArgsState {
    ArgsState { debug: false, max_servers: "10"@, help: None, pending: Pending::Nothing }
}

/// What one argument does to the state: a `-` starts a flag (case does not
/// matter); the argument after `-max_servers` or `-help` is its value; any
/// other argument is ignored.
pub open spec fn step(st: ArgsState, arg: Seq<char>) -> Result<ArgsState, ArgsFailure> {
    if arg.len() > 0 && arg[0] == '-' {
        let name = lowercase(arg.drop_first());
        match flag_of(name) {
            Some(Flag::MaxServers) => Ok(ArgsState { pending: Pending::MaxServers, ..st }),
            Some(Flag::Help) => Ok(ArgsState { pending: Pending::Help, ..st }),
            Some(Flag::Debug) => Ok(ArgsState { debug: true, ..st }),
            None => Err(ArgsFailure::InvalidFlag(name)),
        }
    } else {
        match st.pending {
            Pending::Nothing => Ok(st),
            Pending::MaxServers => Ok(ArgsState { max_servers: arg, pending: Pending::Nothing, ..st }),
            Pending::Help => Ok(ArgsState { help: Some(arg), pending: Pending::Nothing, ..st }),
        }
    }
}

/// The state after the arguments, or the first refusal.
pub open spec fn run_args(args: Seq<Seq<char>>) -> Result<ArgsState, ArgsFailure>
    decreases args.len(),
{
    if args.len() == 0 {
        Ok(initial_state())
    } else {
        match run_args(args.drop_last()) {
            Ok(st) => step(st, args.last()),
            Err(e) => Err(e),
        }
    }
}

/// The end of the command line: a `-help` without value asks for the list
/// of flags; a `-max_servers` without value is refused.
pub open spec fn finish(st: ArgsState) -> Result<ArgsState, ArgsFailure> {
    match st.pending {
        Pending::Nothing => Ok(st),
        Pending::Help => Ok(ArgsState { help: Some(Seq::empty()), pending: Pending::Nothing, ..st }),
        Pending::MaxServers => Err(ArgsFailure::MissingValue("max_servers"@)),
    }
}

/// The outcome of a whole command line.
pub open spec fn parse_args(args: Seq<Seq<char>>) -> Result<ArgsState, ArgsFailure> {
    match run_args(args) {
        Ok(st) => finish(st),
        Err(e) => Err(e),
    }
}

/// A refusal ends the reading: later arguments do not change it.
proof fn lemma_refusal_stays(args: Seq<Seq<char>>, k: int)
    requires
        0 <= k <= args.len(),
        run_args(args.take(k)) is Err,
    ensures
        run_args(args) == run_args(args.take(k)),
    decreases args.len(),
{
    if k == args.len() {
        assert(args.take(k) =~= args);
    } else {
        assert(args.drop_last().take(k) =~= args.take(k));
        lemma_refusal_stays(args.drop_last(), k);
    }
}

/// Whether an argument is a flag (case does not matter) that names `f`.
pub open spec fn names_flag(arg: Seq<char>, f: Flag) -> bool {
    arg.len() > 0 && arg[0] == '-' && flag_of(lowercase(arg.drop_first())) == Some(f)
}

/// Once the state holds `v` as the maximum number of instances with no value
/// awaited for it, arguments that do not name `-max_servers` keep it.
proof fn lemma_max_servers_kept(args: Seq<Seq<char>>, k: int, v: Seq<char>)
    requires
        0 <= k <= args.len(),
        forall|j: int| k <= j < args.len() ==> !names_flag(#[trigger] args[j], Flag::MaxServers),
        run_args(args.take(k)) matches Ok(st) ==> st.max_servers == v && !(st.pending is MaxServers),
    ensures
        run_args(args) matches Ok(st) ==> st.max_servers == v && !(st.pending is MaxServers),
    decreases args.len(),
{
    if k == args.len() {
        assert(args.take(k) =~= args);
    } else {
        let prev = args.drop_last();
        assert(prev.take(k) =~= args.take(k));
        assert forall|j: int| k <= j < prev.len() implies !names_flag(#[trigger] prev[j], Flag::MaxServers) by {
            assert(prev[j] == args[j]);
        }
        lemma_max_servers_kept(prev, k, v);
        assert(!names_flag(args[args.len() - 1], Flag::MaxServers));
    }
}

/// The maximum number of instances is the value that follows the last
/// `-max_servers` (or `-m_s`) flag: flags after it that name something else,
/// such as `-debug` or `-help`, leave it as it is.
pub proof fn lemma_last_max_servers_wins(pre: Seq<Seq<char>>, f: Seq<char>, v: Seq<char>, post: Seq<Seq<char>>)
    requires
        names_flag(f, Flag::MaxServers),
        !(v.len() > 0 && v[0] == '-'),
        forall|j: int| 0 <= j < post.len() ==> !names_flag(#[trigger] post[j], Flag::MaxServers),
    ensures
        parse_args(pre + seq![f, v] + post) matches Ok(st) ==> st.max_servers == v,
{
    let args = pre + seq![f, v] + post;
    let n = pre.len() as int;
    assert(args.take(n) =~= pre);
    assert(args.take(n + 1).drop_last() =~= pre);
    assert(args.take(n + 1).last() == f);
    assert(args.take(n + 2).drop_last() =~= args.take(n + 1));
    assert(args.take(n + 2).last() == v);
    if run_args(pre) is Err {
        lemma_refusal_stays(args, n);
    } else {
        assert forall|j: int| n + 2 <= j < args.len() implies !names_flag(#[trigger] args[j], Flag::MaxServers) by {
            assert(args[j] == post[j - n - 2]);
        }
        let st0 = run_args(pre)->Ok_0;
        let st1 = ArgsState { pending: Pending::MaxServers, ..st0 };
        assert(run_args(args.take(n + 1)) == Ok::<ArgsState, ArgsFailure>(st1));
        assert(run_args(args.take(n + 2)) == step(st1, v));
        lemma_max_servers_kept(args, n + 2, v);
    }
}

/// A debug flag (`-debug`, `-d` or `-dbg`) only turns debug mode on: the
/// maximum number of instances and the help asked for stay as they were
/// without it, and a refused command line stays refused.
pub proof fn lemma_debug_flag_only_sets_debug(args: Seq<Seq<char>>, d: Seq<char>)
    requires
        names_flag(d, Flag::Debug),
    ensures
        match (parse_args(args.push(d)), parse_args(args)) {
            (Ok(s2), Ok(s1)) => s2.debug && s2.max_servers == s1.max_servers && s2.help == s1.help,
            (Err(e2), Err(e1)) => e2 == e1,
            _ => false,
        },
{
    assert(args.push(d).drop_last() =~= args);
    assert(args.push(d).last() == d);
}

/// Reads the command line (the program's name included) into its settings,
/// or gives the refusal.
fn read_args(args: &Vec<String>) -> (r: Result<CliConfig, CliError>)
    ensures
        match (r, parse_args(args@.map_values(|a: String| a@))) {
            (Ok(c), Ok(st)) => c.debug == st.debug && c.max_servers@ == st.max_servers && match c.help {
                Some(h) => st.help == Some(h@),
                None => st.help is None,
            },
            (Err(CliError::InvalidFlag(f)), Err(ArgsFailure::InvalidFlag(g))) => f@ == g,
            (Err(CliError::MissingValue(f)), Err(ArgsFailure::MissingValue(g))) => f@ == g,
            _ => false,
        },
{
    let ghost views = args@.map_values(|a: String| a@);
    let mut debug = false;
    let mut max_servers = String::from_str("10");
    let mut help: Option<String> = None;
    let mut pending: u8 = 0;
    let ghost mut st = initial_state();
    for i in 0..args.len()
        invariant
            views == args@.map_values(|a: String| a@),
            run_args(views.take(i as int)) == Ok::<ArgsState, ArgsFailure>(st),
            st.debug == debug,
            st.max_servers == max_servers@,
            match help {
                Some(h) => st.help == Some(h@),
                None => st.help is None,
            },
            pending <= 2,
            pending == 0 <==> st.pending is Nothing,
            pending == 1 <==> st.pending is MaxServers,
            pending == 2 <==> st.pending is Help,
    {
        assert(views.take(i + 1).drop_last() =~= views.take(i as int));
        assert(views.take(i + 1).last() == args@[i as int]@);
        let arg = &args[i];
        let chars = crate::text::string_to_chars(arg.as_str());
        if chars.len() > 0 && chars[0] == '-' {
            let rest = crate::text::chars_to_string(&chars, 1, chars.len());
            assert(rest@ =~= arg@.drop_first());
            let name = to_lowercase(rest.as_str());
            match classify_flag(name.as_str()) {
                Some(Flag::MaxServers) => {
                    pending = 1;
                    proof {
                        st = ArgsState { pending: Pending::MaxServers, ..st };
                    }
                },
                Some(Flag::Help) => {
                    pending = 2;
                    proof {
                        st = ArgsState { pending: Pending::Help, ..st };
                    }
                },
                Some(Flag::Debug) => {
                    debug = true;
                    proof {
                        st = ArgsState { debug: true, ..st };
                    }
                },
                None => {
                    proof {
                        lemma_refusal_stays(views, i + 1);
                    }
                    return Err(CliError::InvalidFlag(name));
                },
            }
        } else if pending == 1 {
            max_servers = arg.clone();
            pending = 0;
            proof {
                st = ArgsState { max_servers: arg@, pending: Pending::Nothing, ..st };
            }
        } else if pending == 2 {
            help = Some(arg.clone());
            pending = 0;
            proof {
                st = ArgsState { help: Some(arg@), pending: Pending::Nothing, ..st };
            }
        }
    }
    assert(views.take(args.len() as int) =~= views);
    if pending == 2 {
        help = Some(String::new());
    } else if pending == 1 {
        return Err(CliError::MissingValue(String::from_str("max_servers")));
    }
    Ok(CliConfig { debug, max_servers, help })
}

/// Whether the command line (the program's name included) is accepted, and
/// if not, why it is refused: a flag that does not exist, or a
/// `-max_servers` that ends the line.
pub fn check_args(args: &Vec<String>) -> (r: Result<(), CliError>)
    ensures
        match (r, parse_args(args@.map_values(|a: String| a@))) {
            (Ok(_), Ok(_)) => true,
            (Err(CliError::InvalidFlag(f)), Err(ArgsFailure::InvalidFlag(g))) => f@ == g,
            (Err(CliError::MissingValue(f)), Err(ArgsFailure::MissingValue(g))) => f@ == g,
            _ => false,
        },
{
    match read_args(args) {
        Ok(_) => Ok(()),
        Err(e) => Err(e),
    }
}

/// Reads an accepted command line (the program's name included) into its
/// settings.
pub fn get_args(args: &Vec<String>) -> (r: CliConfig)
    requires
        parse_args(args@.map_values(|a: String| a@)) is Ok,
    ensures
        match parse_args(args@.map_values(|a: String| a@)) {
            Ok(st) => r.debug == st.debug && r.max_servers@ == st.max_servers && match r.help {
                Some(h) => st.help == Some(h@),
                None => st.help is None,
            },
            Err(_) => false,
        },
{
    match read_args(args) {
        Ok(c) => c,
        Err(_) => {
            proof {
                assert(false);
            }
            CliConfig { debug: false, max_servers: String::new(), help: None }
        },
    }
}

/// The help text for the flag `flag` (as written after `-help`).
pub open spec fn help_text(flag: Seq<char>) -> Seq<char> {
    if flag == "max_servers"@ || flag == "m_s"@ {
        "--------------------------\nmax_servers (default=10) :\n--------------------------\n\n\tThe \"max_servers\" flag is used to specify an integer representing how many http servers to allow on this particular vps.  The resources available are split by that integer and partitioned to each http server instance.\n"@
    } else if flag == "debug"@ || flag == "d"@ || flag == "dbg"@ {
        "-----------------------\ndebug (default=false) :\n-----------------------\n\n\tThe \"debug\" flag is a developer flag used to enable debugging features.  You do not specify a value for this flag.  If this flag is included, debug mode will be enabled.  If the flag is not included, debug mode will be disabled.\n"@
    } else {
        "-----------------\nAvailable Flags :\n-----------------\n\n\t- \"debug\" | \"d\" | \"dbg\"\n\t\tEnable debug mode.\n\n\t- \"max_servers\" | \"m_s\"\n\t\tSpecify the maximum number of http server instances.\n"@
    }
}

/// The help to print when the command line asks for help (the program then
/// ends), or `None`.
pub fn help(config: &CliConfig) -> (r: Option<String>)
    ensures
        match config.help {
            Some(flag) => r matches Some(t) && t@ == help_text(flag@),
            None => r is None,
        },
{
    match &config.help {
        None => None,
        Some(flag) => {
            let f = flag.as_str();
            if str_eq(f, "max_servers") || str_eq(f, "m_s") {
                Some(String::from_str("--------------------------\nmax_servers (default=10) :\n--------------------------\n\n\tThe \"max_servers\" flag is used to specify an integer representing how many http servers to allow on this particular vps.  The resources available are split by that integer and partitioned to each http server instance.\n"))
            } else if str_eq(f, "debug") || str_eq(f, "d") || str_eq(f, "dbg") {
                Some(String::from_str("-----------------------\ndebug (default=false) :\n-----------------------\n\n\tThe \"debug\" flag is a developer flag used to enable debugging features.  You do not specify a value for this flag.  If this flag is included, debug mode will be enabled.  If the flag is not included, debug mode will be disabled.\n"))
            } else {
                Some(String::from_str("-----------------\nAvailable Flags :\n-----------------\n\n\t- \"debug\" | \"d\" | \"dbg\"\n\t\tEnable debug mode.\n\n\t- \"max_servers\" | \"m_s\"\n\t\tSpecify the maximum number of http server instances.\n"))
            }
        },
    }
}

impl CliError {
    /// The message with which the command line is refused.
    pub fn message(&self) -> (r: String)
        ensures
            r@ == match self {
                CliError::InvalidFlag(f) => "\""@ + f@ + "\" is not a valid flag!"@,
                CliError::MissingValue(f) => "The flag \""@ + f@ + "\" must be followed by a value use \"-help "@ + f@
                    + "\" for more info."@,
            },
    {
        match self {
            CliError::InvalidFlag(f) => {
                let mut r = String::from_str("\"");
                r.append(f.as_str());
                r.append("\" is not a valid flag!");
                r
            },
            CliError::MissingValue(f) => {
                let mut r = String::from_str("The flag \"");
                r.append(f.as_str());
                r.append("\" must be followed by a value use \"-help ");
                r.append(f.as_str());
                r.append("\" for more info.");
                r
            },
        }
    }
}

} // verus!
