//! Command-line arguments of `pls`.
//!
//! ```text
//! pls [FLAGS] [ask | commit] [FLAGS]
//!   -m, --model <NAME>   --no-copy   --profile   --profile-json   --stats   --stats-json
//!   -h, --help           -V, --version
//! ```
//!
//! Flags are global: they mean the same before and after the command word.
//! No flag may be given twice, `--profile` excludes `--profile-json`, and
//! `--stats` excludes `--stats-json`. No other word is accepted.
use crate::text::{chars_of, starts_with, str_eq, suffix_from};
use vstd::prelude::*;

verus! {

/// What `pls` is asked to do.
#[derive(Clone, Copy, Debug, PartialEq, Eq, Structural)]
pub enum Command {
    /// Answer a query read from standard input (the default).
    Ask,
    /// Write a commit message for the staged changes.
    Commit,
}

/// A flag that takes no value.
#[derive(Clone, Copy, Debug, PartialEq, Eq, Structural)]
pub enum Switch {
    NoCopy,
    Profile,
    ProfileJson,
    Stats,
    StatsJson,
}

/// The parsed command line.
#[derive(Debug)]
pub struct Cli {
    pub command: Option<Command>,
    pub model: Option<String>,
    pub no_copy: bool,
    pub profile: bool,
    pub profile_json: bool,
    pub stats: bool,
    pub stats_json: bool,
}

/// Why a command line was refused, or what it asks for instead of a run.
#[derive(Debug)]
pub enum CliError {
    /// A word that starts with `-` and is no flag.
    UnknownFlag(String),
    /// A word that is not the one command word.
    UnexpectedArgument(String),
    /// `--model` without a value; holds the flag's long name.
    MissingValue(String),
    /// A flag given twice; holds the flag's long name.
    Repeated(String),
    /// Two flags that exclude each other, by their long names.
    Conflict(String, String),
    /// `-h` or `--help`.
    HelpRequested,
    /// `-V` or `--version`.
    VersionRequested,
}

/// The meaning of a parsed command line.
pub struct CliView {
    pub command: Option<Command>,
    pub model: Option<Seq<char>>,
    pub no_copy: bool,
    pub profile: bool,
    pub profile_json: bool,
    pub stats: bool,
    pub stats_json: bool,
}

/// The meaning of a refusal.
pub enum CliFault {
    UnknownFlag(Seq<char>),
    UnexpectedArgument(Seq<char>),
    MissingValue(Seq<char>),
    Repeated(Seq<char>),
    Conflict(Seq<char>, Seq<char>),
    HelpRequested,
    VersionRequested,
}

impl View for Cli {
    type V = CliView;

    open spec fn view(&self) -> CliView {
        CliView {
            command: self.command,
            model: match self.model {
                Some(m) => Some(m@),
                None => None,
            },
            no_copy: self.no_copy,
            profile: self.profile,
            profile_json: self.profile_json,
            stats: self.stats,
            stats_json: self.stats_json,
        }
    }
}

impl View for CliError {
    type V = CliFault;

    open spec fn view(&self) -> CliFault {
        match self {
            CliError::UnknownFlag(a) => CliFault::UnknownFlag(a@),
            CliError::UnexpectedArgument(a) => CliFault::UnexpectedArgument(a@),
            CliError::MissingValue(a) => CliFault::MissingValue(a@),
            CliError::Repeated(a) => CliFault::Repeated(a@),
            CliError::Conflict(a, b) => CliFault::Conflict(a@, b@),
            CliError::HelpRequested => CliFault::HelpRequested,
            CliError::VersionRequested => CliFault::VersionRequested,
        }
    }
}

/// The command line with nothing given.
pub open spec fn empty_cli() -> CliView {
    CliView {
        command: None,
        model: None,
        no_copy: false,
        profile: false,
        profile_json: false,
        stats: false,
        stats_json: false,
    }
}

/// The long name of a switch.
pub open spec fn switch_name(s: Switch) -> Seq<char> {
    match s {
        Switch::NoCopy => "--no-copy"@,
        Switch::Profile => "--profile"@,
        Switch::ProfileJson => "--profile-json"@,
        Switch::Stats => "--stats"@,
        Switch::StatsJson => "--stats-json"@,
    }
}

/// The switch that the word `a` names, if any.
pub open spec fn switch_of(a: Seq<char>) -> Option<Switch> {
    if a == "--no-copy"@ {
        Some(Switch::NoCopy)
    } else if a == "--profile"@ {
        Some(Switch::Profile)
    } else if a == "--profile-json"@ {
        Some(Switch::ProfileJson)
    } else if a == "--stats"@ {
        Some(Switch::Stats)
    } else if a == "--stats-json"@ {
        Some(Switch::StatsJson)
    } else {
        None
    }
}

/// Whether switch `s` is on in `c`.
pub open spec fn switch_on(c: CliView, s: Switch) -> bool {
    match s {
        Switch::NoCopy => c.no_copy,
        Switch::Profile => c.profile,
        Switch::ProfileJson => c.profile_json,
        Switch::Stats => c.stats,
        Switch::StatsJson => c.stats_json,
    }
}

/// `c` with switch `s` on.
pub open spec fn with_switch(c: CliView, s: Switch) -> CliView {
    match s {
        Switch::NoCopy => CliView { no_copy: true, ..c },
        Switch::Profile => CliView { profile: true, ..c },
        Switch::ProfileJson => CliView { profile_json: true, ..c },
        Switch::Stats => CliView { stats: true, ..c },
        Switch::StatsJson => CliView { stats_json: true, ..c },
    }
}

/// The command that the word `a` names, if any.
pub open spec fn command_of(a: Seq<char>) -> Option<Command> {
    if a == "ask"@ {
        Some(Command::Ask)
    } else if a == "commit"@ {
        Some(Command::Commit)
    } else {
        None
    }
}

/// Whether the word `a` starts with `-` and is more than `-` alone.
pub open spec fn is_dashed(a: Seq<char>) -> bool {
    a.len() > 1 && a[0] == '-'
}

/// The model named inside the word itself: `--model=NAME`, `-m=NAME` or `-mNAME`.
pub open spec fn inline_model(a: Seq<char>) -> Option<Seq<char>> {
    if a.len() >= 8 && a.take(8) == "--model="@ {
        Some(a.skip(8))
    } else if a.len() > 2 && a.take(2) == "-m"@ {
        if a[2] == '=' {
            Some(a.skip(3))
        } else {
            Some(a.skip(2))
        }
    } else {
        None
    }
}

/// The checks made once every word has been read.
pub open spec fn conclude(c: CliView) -> Result<CliView, CliFault> {
    if c.profile && c.profile_json {
        Err(CliFault::Conflict("--profile"@, "--profile-json"@))
    } else if c.stats && c.stats_json {
        Err(CliFault::Conflict("--stats"@, "--stats-json"@))
    } else {
        Ok(c)
    }
}

/// The meaning of the words `args` from position `i` on, with `c` read so far.
pub open spec fn parse_from_index(args: Seq<Seq<char>>, i: int, c: CliView) -> Result<
    CliView,
    CliFault,
>
    decreases args.len() - i,
{
    if i < 0 || i >= args.len() {
        conclude(c)
    } else {
        let a = args[i];
        if a == "--"@ {
            if i + 1 < args.len() {
                Err(CliFault::UnexpectedArgument(args[i + 1]))
            } else {
                conclude(c)
            }
        } else if a == "-h"@ || a == "--help"@ {
            Err(CliFault::HelpRequested)
        } else if a == "-V"@ || a == "--version"@ {
            Err(CliFault::VersionRequested)
        } else if a == "-m"@ || a == "--model"@ {
            if i + 1 < args.len() && !is_dashed(args[i + 1]) {
                if c.model is Some {
                    Err(CliFault::Repeated("--model"@))
                } else {
                    parse_from_index(args, i + 2, CliView { model: Some(args[i + 1]), ..c })
                }
            } else {
                Err(CliFault::MissingValue("--model"@))
            }
        } else if inline_model(a) is Some {
            if c.model is Some {
                Err(CliFault::Repeated("--model"@))
            } else {
                parse_from_index(args, i + 1, CliView { model: inline_model(a), ..c })
            }
        } else if switch_of(a) is Some {
            let s = switch_of(a)->0;
            if switch_on(c, s) {
                Err(CliFault::Repeated(a))
            } else {
                parse_from_index(args, i + 1, with_switch(c, s))
            }
        } else if is_dashed(a) {
            Err(CliFault::UnknownFlag(a))
        } else if c.command is None && command_of(a) is Some {
            parse_from_index(args, i + 1, CliView { command: command_of(a), ..c })
        } else {
            Err(CliFault::UnexpectedArgument(a))
        }
    }
}

/// The meaning of the command line `args` (without the program name).
pub open spec fn parse_args(args: Seq<Seq<char>>) -> Result<CliView, CliFault> {
    parse_from_index(args, 0, empty_cli())
}

/// The words of `args` as character sequences.
pub open spec fn words(args: Seq<&str>) -> Seq<Seq<char>> {
    args.map_values(|a: &str| a@)
}

/// The meaning of an executable parse result.
pub open spec fn result_view(r: Result<Cli, CliError>) -> Result<CliView, CliFault> {
    match r {
        Ok(c) => Ok(c@),
        Err(e) => Err(e@),
    }
}

fn switch_word(a: &str) -> (r: Option<Switch>)
    ensures
        r == switch_of(a@),
{
    if str_eq(a, "--no-copy") {
        Some(Switch::NoCopy)
    } else if str_eq(a, "--profile") {
        Some(Switch::Profile)
    } else if str_eq(a, "--profile-json") {
        Some(Switch::ProfileJson)
    } else if str_eq(a, "--stats") {
        Some(Switch::Stats)
    } else if str_eq(a, "--stats-json") {
        Some(Switch::StatsJson)
    } else {
        None
    }
}

fn command_word(a: &str) -> (r: Option<Command>)
    ensures
        r == command_of(a@),
{
    if str_eq(a, "ask") {
        Some(Command::Ask)
    } else if str_eq(a, "commit") {
        Some(Command::Commit)
    } else {
        None
    }
}

fn dashed(a: &str) -> (r: bool)
    ensures
        r == is_dashed(a@),
{
    let v = chars_of(a);
    v.len() > 1 && v[0] == '-'
}

fn inline_model_value(a: &str) -> (r: Option<String>)
    ensures
        match r {
            Some(m) => inline_model(a@) == Some(m@),
            None => inline_model(a@) is None,
        },
{
    proof {
        reveal_strlit("--model=");
        reveal_strlit("-m");
    }
    if starts_with(a, "--model=") {
        return Some(suffix_from(a, 8));
    }
    let v = chars_of(a);
    if v.len() > 2 && starts_with(a, "-m") {
        if v[2] == '=' {
            Some(suffix_from(a, 3))
        } else {
            Some(suffix_from(a, 2))
        }
    } else {
        None
    }
}

fn set_switch(c: &mut Cli, s: Switch)
    ensures
        final(c)@ == with_switch(old(c)@, s),
{
    match s {
        Switch::NoCopy => c.no_copy = true,
        Switch::Profile => c.profile = true,
        Switch::ProfileJson => c.profile_json = true,
        Switch::Stats => c.stats = true,
        Switch::StatsJson => c.stats_json = true,
    }
}

fn is_switch_on(c: &Cli, s: Switch) -> (r: bool)
    ensures
        r == switch_on(c@, s),
{
    match s {
        Switch::NoCopy => c.no_copy,
        Switch::Profile => c.profile,
        Switch::ProfileJson => c.profile_json,
        Switch::Stats => c.stats,
        Switch::StatsJson => c.stats_json,
    }
}

fn finish(c: Cli) -> (r: Result<Cli, CliError>)
    ensures
        result_view(r) == conclude(c@),
{
    if c.profile && c.profile_json {
        Err(CliError::Conflict("--profile".to_owned(), "--profile-json".to_owned()))
    } else if c.stats && c.stats_json {
        Err(CliError::Conflict("--stats".to_owned(), "--stats-json".to_owned()))
    } else {
        Ok(c)
    }
}

impl Cli {
    /// Parses the command line `args`, without the program name.
    pub fn parse_from(args: &[&str]) -> (r: Result<Cli, CliError>)
        ensures
            result_view(r) == parse_args(words(args@)),
    {
        let ghost ws = words(args@);
        let mut c = Cli {
            command: None,
            model: None,
            no_copy: false,
            profile: false,
            profile_json: false,
            stats: false,
            stats_json: false,
        };
        let n = args.len();
        let mut i: usize = 0;
        while i < n
            invariant
                n == args@.len(),
                ws == words(args@),
                ws.len() == n,
                i <= n,
                parse_from_index(ws, i as int, c@) == parse_args(ws),
            decreases n - i,
        {
            let a: &str = args[i];
            assert(ws[i as int] == a@);
            if str_eq(a, "--") {
                if i + 1 < n {
                    assert(ws[i + 1] == args@[i + 1]@);
                    return Err(CliError::UnexpectedArgument(args[i + 1].to_owned()));
                }
                return finish(c);
            } else if str_eq(a, "-h") || str_eq(a, "--help") {
                return Err(CliError::HelpRequested);
            } else if str_eq(a, "-V") || str_eq(a, "--version") {
                return Err(CliError::VersionRequested);
            } else if str_eq(a, "-m") || str_eq(a, "--model") {
                if i + 1 < n && !dashed(args[i + 1]) {
                    assert(ws[i + 1] == args@[i + 1]@);
                    if c.model.is_some() {
                        return Err(CliError::Repeated("--model".to_owned()));
                    }
                    c.model = Some(args[i + 1].to_owned());
                    i = i + 2;
                } else {
                    if i + 1 < n {
                        assert(ws[i + 1] == args@[i + 1]@);
                    }
                    return Err(CliError::MissingValue("--model".to_owned()));
                }
            } else {
                match inline_model_value(a) {
                    Some(m) => {
                        if c.model.is_some() {
                            return Err(CliError::Repeated("--model".to_owned()));
                        }
                        c.model = Some(m);
                        i = i + 1;
                    },
                    None => {
                        match switch_word(a) {
                            Some(s) => {
                                if is_switch_on(&c, s) {
                                    return Err(CliError::Repeated(a.to_owned()));
                                }
                                set_switch(&mut c, s);
                                i = i + 1;
                            },
                            None => {
                                if dashed(a) {
                                    return Err(CliError::UnknownFlag(a.to_owned()));
                                }
                                let w = command_word(a);
                                if c.command.is_none() && w.is_some() {
                                    c.command = w;
                                    i = i + 1;
                                } else {
                                    return Err(CliError::UnexpectedArgument(a.to_owned()));
                                }
                            },
                        }
                    },
                }
            }
        }
        finish(c)
    }
}


// ---------------------------------------------------------------------------
// Laws
// ---------------------------------------------------------------------------

/// Profiling and statistics are independent: a command line is refused for a
/// conflict only when both profile formats, or both statistics formats, are given.
pub proof fn law_conflicts_stay_within_a_format(c: CliView)
    ensures
        conclude(c) is Err <==> (c.profile && c.profile_json) || (c.stats && c.stats_json),
        conclude(c) is Ok ==> conclude(c) == Ok::<CliView, CliFault>(c),
{
}

proof fn lemma_switch_name(s: Switch)
    ensures
        is_dashed(switch_name(s)),
        switch_of(switch_name(s)) == Some(s),
        switch_name(s) != "--"@,
        switch_name(s) != "-m"@,
        switch_name(s) != "--model"@,
        inline_model(switch_name(s)) is None,
{
    reveal_strlit("--no-copy");
    reveal_strlit("--profile");
    reveal_strlit("--profile-json");
    reveal_strlit("--stats");
    reveal_strlit("--stats-json");
    reveal_strlit("--");
    reveal_strlit("-m");
    reveal_strlit("--model");
    reveal_strlit("--model=");
    let n = switch_name(s);
    assert(n.len() >= 7);
    assert(n[2] != 'm');
    if n.len() >= 8 {
        assert(n.take(8)[2] != "--model="@[2]);
    }
    assert(n.take(2)[1] != "-m"@[1]);
    assert(n != "-m"@);
    assert(n != "--"@);
    assert(n != "--model"@);
    if s != Switch::NoCopy {
        assert(n != "--no-copy"@) by {
            assert(n.len() != 9 || n[3] != 'o');
        }
    }
    if s != Switch::Profile {
        assert(n != "--profile"@) by {
            assert(n.len() != 9 || n[3] != 'r');
        }
    }
    if s != Switch::ProfileJson {
        assert(n != "--profile-json"@) by {
            assert(n.len() != 14);
        }
    }
    if s != Switch::Stats {
        assert(n != "--stats"@) by {
            assert(n.len() != 7);
        }
    }
}

/// Every successful parse sees all the words: a switch is on exactly when
/// its word occurs anywhere on the command line, before or after the command
/// word, and excluding switches are never both on.
pub proof fn law_switches_are_global(args: Seq<Seq<char>>, c: CliView, s: Switch)
    requires
        parse_args(args) == Ok::<CliView, CliFault>(c),
    ensures
        switch_on(c, s) <==> args.contains(switch_name(s)),
        !(c.profile && c.profile_json),
        !(c.stats && c.stats_json),
{
    lemma_switches_from(args, 0, empty_cli(), c, s);
}

proof fn lemma_switches_from(args: Seq<Seq<char>>, i: int, acc: CliView, c: CliView, s: Switch)
    requires
        0 <= i <= args.len(),
        parse_from_index(args, i, acc) == Ok::<CliView, CliFault>(c),
        switch_on(acc, s) <==> args.take(i).contains(switch_name(s)),
    ensures
        switch_on(c, s) <==> args.contains(switch_name(s)),
        !(c.profile && c.profile_json),
        !(c.stats && c.stats_json),
    decreases args.len() - i,
{
    lemma_switch_name(s);
    let n = switch_name(s);
    if i >= args.len() {
        assert(args.take(i) =~= args);
    } else {
        let a = args[i];
        assert(args.take(i + 1) =~= args.take(i).push(a));
        if a == "--"@ {
            assert(args.take(i + 1) =~= args);
        } else if a == "-m"@ || a == "--model"@ {
            let v = args[i + 1];
            assert(v != n);
            assert(args.take(i + 2) =~= args.take(i).push(a).push(v));
            lemma_switches_from(args, i + 2, CliView { model: Some(v), ..acc }, c, s);
        } else if inline_model(a) is Some {
            assert(a != n);
            lemma_switches_from(args, i + 1, CliView { model: inline_model(a), ..acc }, c, s);
        } else if switch_of(a) is Some {
            let t = switch_of(a)->0;
            lemma_switch_name(t);
            assert(a == switch_name(t));
            lemma_contains_push(args.take(i), a, n);
            if t != s {
                assert(a != n);
                assert(switch_on(with_switch(acc, t), s) == switch_on(acc, s));
            }
            lemma_switches_from(args, i + 1, with_switch(acc, t), c, s);
        } else {
            assert(a != n);
            lemma_switches_from(args, i + 1, CliView { command: command_of(a), ..acc }, c, s);
        }
    }
}

proof fn lemma_contains_push(s: Seq<Seq<char>>, a: Seq<char>, x: Seq<char>)
    ensures
        s.push(a).contains(x) <==> (s.contains(x) || a == x),
{
    if s.contains(x) {
        let j = choose|j: int| 0 <= j < s.len() && s[j] == x;
        assert(s.push(a)[j] == x);
    }
    if a == x {
        assert(s.push(a)[s.len() as int] == x);
    }
    if s.push(a).contains(x) {
        let j = choose|j: int| 0 <= j < s.push(a).len() && s.push(a)[j] == x;
        if j < s.len() {
            assert(s[j] == x);
        }
    }
}

/// A successful parse names a command only when its word is on the command line.
pub proof fn law_command_comes_from_its_word(args: Seq<Seq<char>>, c: CliView)
    requires
        parse_args(args) == Ok::<CliView, CliFault>(c),
    ensures
        c.command == Some(Command::Ask) ==> args.contains("ask"@),
        c.command == Some(Command::Commit) ==> args.contains("commit"@),
{
    lemma_command_from(args, 0, empty_cli(), c);
}

proof fn lemma_command_from(args: Seq<Seq<char>>, i: int, acc: CliView, c: CliView)
    requires
        0 <= i <= args.len(),
        parse_from_index(args, i, acc) == Ok::<CliView, CliFault>(c),
        acc.command == Some(Command::Ask) ==> args.contains("ask"@),
        acc.command == Some(Command::Commit) ==> args.contains("commit"@),
    ensures
        c.command == Some(Command::Ask) ==> args.contains("ask"@),
        c.command == Some(Command::Commit) ==> args.contains("commit"@),
    decreases args.len() - i,
{
    if i < args.len() {
        let a = args[i];
        if a == "--"@ {
        } else if a == "-m"@ || a == "--model"@ {
            lemma_command_from(args, i + 2, CliView { model: Some(args[i + 1]), ..acc }, c);
        } else if inline_model(a) is Some {
            lemma_command_from(args, i + 1, CliView { model: inline_model(a), ..acc }, c);
        } else if switch_of(a) is Some {
            lemma_command_from(args, i + 1, with_switch(acc, switch_of(a)->0), c);
        } else if !is_dashed(a) && acc.command is None && command_of(a) is Some {
            assert(args[i] == a);
            lemma_command_from(args, i + 1, CliView { command: command_of(a), ..acc }, c);
        }
    }
}

/// A command word is none of the flags: it is read as the command wherever a
/// word is expected.
proof fn lemma_command_word(w: Seq<char>)
    requires
        command_of(w) is Some,
    ensures
        w != "--"@,
        w != "-h"@,
        w != "--help"@,
        w != "-V"@,
        w != "--version"@,
        w != "-m"@,
        w != "--model"@,
        inline_model(w) is None,
        switch_of(w) is None,
        !is_dashed(w),
        w.len() > 0,
{
    reveal_strlit("ask");
    reveal_strlit("commit");
    reveal_strlit("--");
    reveal_strlit("-h");
    reveal_strlit("--help");
    reveal_strlit("-V");
    reveal_strlit("--version");
    reveal_strlit("-m");
    reveal_strlit("--model");
    reveal_strlit("--model=");
    reveal_strlit("--no-copy");
    reveal_strlit("--profile");
    reveal_strlit("--profile-json");
    reveal_strlit("--stats");
    reveal_strlit("--stats-json");
    assert(w[0] != '-');
    assert(w[0] != "--"@[0]);
    assert(w[0] != "-h"@[0]);
    assert(w[0] != "--help"@[0]);
    assert(w[0] != "-V"@[0]);
    assert(w[0] != "--version"@[0]);
    assert(w[0] != "-m"@[0]);
    assert(w[0] != "--model"@[0]);
    assert(w[0] != "--no-copy"@[0]);
    assert(w[0] != "--profile"@[0]);
    assert(w[0] != "--profile-json"@[0]);
    assert(w[0] != "--stats"@[0]);
    assert(w[0] != "--stats-json"@[0]);
    if w.len() >= 8 {
        assert(w.take(8)[0] != "--model="@[0]);
    }
    if w.len() > 2 {
        assert(w.take(2)[0] != "-m"@[0]);
    }
}

/// Once read, the command stays: a successful parse keeps the command read so far.
proof fn lemma_command_kept(args: Seq<Seq<char>>, i: int, acc: CliView, c: CliView)
    requires
        0 <= i,
        parse_from_index(args, i, acc) == Ok::<CliView, CliFault>(c),
        acc.command is Some,
    ensures
        c.command == acc.command,
    decreases args.len() - i,
{
    if i < args.len() {
        let a = args[i];
        if a == "--"@ {
        } else if a == "-m"@ || a == "--model"@ {
            lemma_command_kept(args, i + 2, CliView { model: Some(args[i + 1]), ..acc }, c);
        } else if inline_model(a) is Some {
            lemma_command_kept(args, i + 1, CliView { model: inline_model(a), ..acc }, c);
        } else if switch_of(a) is Some {
            lemma_command_kept(args, i + 1, with_switch(acc, switch_of(a)->0), c);
        }
    }
}

proof fn lemma_append_command(
    args: Seq<Seq<char>>,
    i: int,
    acc: CliView,
    c: CliView,
    w: Seq<char>,
)
    requires
        0 <= i <= args.len(),
        parse_from_index(args, i, acc) == Ok::<CliView, CliFault>(c),
        c.command is None,
        acc.command is None,
        command_of(w) is Some,
        !args.contains("--"@),
    ensures
        parse_from_index(args.push(w), i, acc) == Ok::<CliView, CliFault>(
            CliView { command: command_of(w), ..c },
        ),
    decreases args.len() - i,
{
    let ext = args.push(w);
    lemma_command_word(w);
    if i == args.len() {
        assert(ext[i] == w);
        let acc2 = CliView { command: command_of(w), ..acc };
        assert(parse_from_index(ext, i + 1, acc2) == conclude(acc2));
    } else {
        let a = args[i];
        assert(ext[i] == a);
        if a == "--"@ {
            assert(args.contains("--"@));
        } else if a == "-m"@ || a == "--model"@ {
            assert(i + 1 < args.len());
            assert(ext[i + 1] == args[i + 1]);
            lemma_append_command(args, i + 2, CliView { model: Some(args[i + 1]), ..acc }, c, w);
        } else if inline_model(a) is Some {
            lemma_append_command(args, i + 1, CliView { model: inline_model(a), ..acc }, c, w);
        } else if switch_of(a) is Some {
            lemma_append_command(args, i + 1, with_switch(acc, switch_of(a)->0), c, w);
        } else if !is_dashed(a) && command_of(a) is Some {
            lemma_command_kept(args, i + 1, CliView { command: command_of(a), ..acc }, c);
        }
    }
}

/// Flags before the command do not change how the command word is read: when
/// the words `args` parse and name no command, the same words followed by a
/// command word parse to the same result with that command. (After `--` no
/// word is read as a command.)
pub proof fn law_command_after_flags(args: Seq<Seq<char>>, c: CliView, w: Seq<char>)
    requires
        parse_args(args) == Ok::<CliView, CliFault>(c),
        c.command is None,
        command_of(w) is Some,
        !args.contains("--"@),
    ensures
        parse_args(args.push(w)) == Ok::<CliView, CliFault>(CliView { command: command_of(w), ..c }),
{
    lemma_append_command(args, 0, empty_cli(), c, w);
}

proof fn lemma_prepend_command(
    args: Seq<Seq<char>>,
    i: int,
    acc: CliView,
    c: CliView,
    w: Seq<char>,
)
    requires
        0 <= i <= args.len(),
        parse_from_index(args, i, acc) == Ok::<CliView, CliFault>(c),
        c.command is None,
        acc.command is None,
        command_of(w) is Some,
    ensures
        parse_from_index(seq![w] + args, i + 1, CliView { command: command_of(w), ..acc })
            == Ok::<CliView, CliFault>(CliView { command: command_of(w), ..c }),
    decreases args.len() - i,
{
    let ext = seq![w] + args;
    let k = command_of(w);
    let acc2 = CliView { command: k, ..acc };
    if i < args.len() {
        let a = args[i];
        assert(ext[i + 1] == a);
        if a == "--"@ {
            if i + 1 < args.len() {
            } else {
            }
        } else if a == "-m"@ || a == "--model"@ {
            assert(ext[i + 2] == args[i + 1]);
            lemma_prepend_command(args, i + 2, CliView { model: Some(args[i + 1]), ..acc }, c, w);
            assert(CliView { model: Some(args[i + 1]), ..acc2 } == CliView {
                command: k,
                ..CliView { model: Some(args[i + 1]), ..acc }
            });
        } else if inline_model(a) is Some {
            lemma_prepend_command(args, i + 1, CliView { model: inline_model(a), ..acc }, c, w);
            assert(CliView { model: inline_model(a), ..acc2 } == CliView {
                command: k,
                ..CliView { model: inline_model(a), ..acc }
            });
        } else if switch_of(a) is Some {
            let t = switch_of(a)->0;
            lemma_prepend_command(args, i + 1, with_switch(acc, t), c, w);
            assert(with_switch(acc2, t) == CliView { command: k, ..with_switch(acc, t) });
        } else if !is_dashed(a) && command_of(a) is Some {
            lemma_command_kept(args, i + 1, CliView { command: command_of(a), ..acc }, c);
        }
    } else {
        assert(ext.len() == i + 1);
    }
}

/// Flags after the command mean what they mean before it: when the words
/// `args` parse and name no command, a command word followed by the same
/// words parses to the same result with that command.
pub proof fn law_command_before_flags(args: Seq<Seq<char>>, c: CliView, w: Seq<char>)
    requires
        parse_args(args) == Ok::<CliView, CliFault>(c),
        c.command is None,
        command_of(w) is Some,
    ensures
        parse_args(seq![w] + args) == Ok::<CliView, CliFault>(
            CliView { command: command_of(w), ..c },
        ),
{
    lemma_command_word(w);
    let ext = seq![w] + args;
    assert(ext[0] == w);
    lemma_prepend_command(args, 0, empty_cli(), c, w);
}

} // verus!
