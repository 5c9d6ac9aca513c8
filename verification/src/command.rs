//! From a parsed command line to the task the tool carries out, and the
//! choice of the CA that a TLS command works on.
use vstd::prelude::*;

use crate::cli::{CaCommand, Cli, Commands, KeysCommand, TlsAddArgs, TlsCommand, TlsExportArgs};
use crate::error::AppError;
use crate::store::CaEntry;
use crate::text::{parse_u16, spec_parse_u16, trim, trim_str};

verus! {

/// One unit of work, with everything the command line said about it.
#[derive(Debug)]
pub enum Task {
    /// `pkm init`
    Init,
    /// `pkm keys list`
    ListKeys { all_capabilities: bool },
    /// `pkm keys add`
    AddKey { label: String, algorithm: String },
    /// `pkm keys remove`
    RemoveKey { id_or_label: String, yes: bool, force: bool },
    /// `pkm ca init`
    InitCa { ca_short_name: String, key: String, common_name: String, organizational_unit: String },
    /// `pkm ca list`
    ListCas,
    /// `pkm ca default`
    SetDefaultCa { ca_short_name: String },
    /// `pkm ca export`
    ExportCa { ca: Option<String> },
    /// `pkm ca sign-csr`
    SignCsr { ca: Option<String>, csr: String, out: String, days: u32, path_len: u8 },
    /// `pkm tls add`: the CA still to be chosen when not named.
    AddTls { ca: Option<String>, args: TlsAddArgs },
    /// `pkm tls export`
    ExportTls { ca: Option<String>, args: TlsExportArgs },
    /// `pkm tls list`
    ListTls { ca: Option<String> },
    /// `pkm ca <name> tls add ...`: the flags, behind a program name, still to be parsed.
    AddTlsWithFlags { ca: String, argv: Vec<String> },
    /// `pkm ca <name> tls export ...`
    ExportTlsWithFlags { ca: String, argv: Vec<String> },
}

/// The message for a malformed `pkm ca <name> ...` command.
pub open spec fn external_usage() -> Seq<char> {
    "expected: pkm ca <name> tls add|export <name> [flags]"@
}

/// A well-formed `pkm ca <name> tls add|export ...`: whether it adds, the
/// CA's name, and the arguments for the flag parser.
pub open spec fn spec_ca_external(args: Seq<Seq<char>>) -> Result<(bool, Seq<char>, Seq<Seq<char>>), Seq<char>> {
    if args.len() < 3 || args[1] != "tls"@ {
        Err(external_usage())
    } else if args[2] == "add"@ {
        Ok((true, args[0], seq!["tls-add"@] + args.skip(3)))
    } else if args[2] == "export"@ {
        Ok((false, args[0], seq!["tls-export"@] + args.skip(3)))
    } else {
        Err(external_usage())
    }
}

/// The views of some strings.
pub open spec fn views(v: Seq<String>) -> Seq<Seq<char>> {
    v.map_values(|s: String| s@)
}

/// The program name followed by the words after the third.
fn flag_argv(program: &str, args: &Vec<String>) -> (res: Vec<String>)
    requires
        args@.len() >= 3,
    ensures
        views(res@) == seq![program@] + views(args@).skip(3),
{
    let mut out: Vec<String> = Vec::new();
    out.push(String::from_str(program));
    let mut i: usize = 3;
    while i < args.len()
        invariant
            3 <= i <= args@.len(),
            views(out@) == seq![program@] + views(args@).subrange(3, i as int),
        decreases args@.len() - i,
    {
        let ghost before = views(out@);
        let a = args[i].clone();
        assert(views(args@)[i as int] == args@[i as int]@);
        out.push(a);
        assert(views(out@) =~= before.push(args@[i as int]@));
        assert(views(out@) =~= seq![program@] + views(args@).subrange(3, i + 1));
        i = i + 1;
    }
    assert(views(args@).subrange(3, args@.len() as int) =~= views(args@).skip(3));
    out
}

/// The task of `pkm ca <name> tls add|export [flags]`.
pub fn ca_external(args: Vec<String>) -> (res: Result<Task, AppError>)
    ensures
        match spec_ca_external(views(args@)) {
            Err(m) => (res matches Err(AppError::Usage(x)) && x@ == m),
            Ok((add, ca, argv)) => if add {
                res matches Ok(Task::AddTlsWithFlags { ca: c, argv: a }) && c@ == ca && views(a@)
                    == argv
            } else {
                res matches Ok(Task::ExportTlsWithFlags { ca: c, argv: a }) && c@ == ca
                    && views(a@) == argv
            },
        },
{
    proof {
        reveal_strlit("tls");
        reveal_strlit("add");
        reveal_strlit("export");
        reveal_strlit("tls-add");
        reveal_strlit("tls-export");
    }
    let usage = "expected: pkm ca <name> tls add|export <name> [flags]";
    if args.len() < 3 {
        return Err(AppError::Usage(String::from_str(usage)));
    }
    assert(views(args@)[1] == args@[1]@ && views(args@)[2] == args@[2]@ && views(args@)[0]
        == args@[0]@);
    if !(args[1] == String::from_str("tls")) {
        return Err(AppError::Usage(String::from_str(usage)));
    }
    if args[2] == String::from_str("add") {
        let argv = flag_argv("tls-add", &args);
        Ok(Task::AddTlsWithFlags { ca: args[0].clone(), argv })
    } else if args[2] == String::from_str("export") {
        let argv = flag_argv("tls-export", &args);
        Ok(Task::ExportTlsWithFlags { ca: args[0].clone(), argv })
    } else {
        Err(AppError::Usage(String::from_str(usage)))
    }
}

/// The task a command line asks for, as `res`. Only `pkm ca <name> ...`
/// can be malformed; every other command maps to its task with its arguments.
pub open spec fn task_for(cli: Cli, res: Result<Task, AppError>) -> bool {
    match cli.command {
        Commands::Init => res == Ok::<Task, AppError>(Task::Init),
        Commands::Keys { command } => match command {
            KeysCommand::List { all_capabilities } => res == Ok::<Task, AppError>(
                Task::ListKeys { all_capabilities },
            ),
            KeysCommand::Add { label, algorithm } => res == Ok::<Task, AppError>(
                Task::AddKey { label, algorithm },
            ),
            KeysCommand::Remove { id_or_label, yes, force } => res == Ok::<Task, AppError>(
                Task::RemoveKey { id_or_label, yes, force },
            ),
        },
        Commands::Ca { command } => match command {
            CaCommand::Init { ca_short_name, key, common_name, organizational_unit } => res
                == Ok::<Task, AppError>(
                Task::InitCa { ca_short_name, key, common_name, organizational_unit },
            ),
            CaCommand::List => res == Ok::<Task, AppError>(Task::ListCas),
            CaCommand::Default { ca_short_name } => res == Ok::<Task, AppError>(
                Task::SetDefaultCa { ca_short_name },
            ),
            CaCommand::Export { ca } => res == Ok::<Task, AppError>(Task::ExportCa { ca }),
            CaCommand::SignCsr { ca, csr, out, days, path_len } => res == Ok::<Task, AppError>(
                Task::SignCsr { ca, csr, out, days, path_len },
            ),
            CaCommand::External(args) => match spec_ca_external(views(args@)) {
                Err(m) => (res matches Err(AppError::Usage(x)) && x@ == m),
                Ok((add, ca, argv)) => if add {
                    res matches Ok(Task::AddTlsWithFlags { ca: c, argv: a }) && c@ == ca
                        && views(a@) == argv
                } else {
                    res matches Ok(Task::ExportTlsWithFlags { ca: c, argv: a }) && c@ == ca
                        && views(a@) == argv
                },
            },
        },
        Commands::Tls { command } => match command {
            TlsCommand::Add { ca, args } => res == Ok::<Task, AppError>(Task::AddTls { ca, args }),
            TlsCommand::Export { ca, args } => res == Ok::<Task, AppError>(
                Task::ExportTls { ca, args },
            ),
            TlsCommand::List { ca } => res == Ok::<Task, AppError>(Task::ListTls { ca }),
        },
    }
}

/// The task a command line asks for (see `task_for`).
pub fn run(cli: Cli) -> (res: Result<Task, AppError>)
    ensures
        task_for(cli, res),
{
    match cli.command {
        Commands::Init => Ok(Task::Init),
        Commands::Keys { command } => match command {
            KeysCommand::List { all_capabilities } => Ok(Task::ListKeys { all_capabilities }),
            KeysCommand::Add { label, algorithm } => Ok(Task::AddKey { label, algorithm }),
            KeysCommand::Remove { id_or_label, yes, force } => Ok(
                Task::RemoveKey { id_or_label, yes, force },
            ),
        },
        Commands::Ca { command } => match command {
            CaCommand::Init { ca_short_name, key, common_name, organizational_unit } => Ok(
                Task::InitCa { ca_short_name, key, common_name, organizational_unit },
            ),
            CaCommand::List => Ok(Task::ListCas),
            CaCommand::Default { ca_short_name } => Ok(Task::SetDefaultCa { ca_short_name }),
            CaCommand::Export { ca } => Ok(Task::ExportCa { ca }),
            CaCommand::SignCsr { ca, csr, out, days, path_len } => Ok(
                Task::SignCsr { ca, csr, out, days, path_len },
            ),
            CaCommand::External(args) => ca_external(args),
        },
        Commands::Tls { command } => match command {
            TlsCommand::Add { ca, args } => Ok(Task::AddTls { ca, args }),
            TlsCommand::Export { ca, args } => Ok(Task::ExportTls { ca, args }),
            TlsCommand::List { ca } => Ok(Task::ListTls { ca }),
        },
    }
}

/// The task a command line asks for, once the configuration that
/// `pkm init` writes is known to exist or not: every command but
/// `pkm init` stops with `NotConfigured` when it does not.
pub fn run_configured(cli: Cli, config_exists: bool) -> (res: Result<Task, AppError>)
    ensures
        !config_exists && !(cli.command is Init) ==> res == Err::<Task, AppError>(AppError::NotConfigured),
        config_exists || cli.command is Init ==> task_for(cli, res),
{
    if !config_exists {
        match cli.command {
            Commands::Init => {},
            _ => {
                return Err(AppError::NotConfigured);
            },
        }
    }
    run(cli)
}

/// Every task but `pkm init` needs the configuration that `pkm init` writes.
pub fn check_configured(task: &Task, config_exists: bool) -> (res: Result<(), AppError>)
    ensures
        (config_exists || *task is Init) ==> res is Ok,
        !(config_exists || *task is Init) ==> res == Err::<(), AppError>(AppError::NotConfigured),
{
    match task {
        Task::Init => Ok(()),
        _ => if config_exists {
            Ok(())
        } else {
            Err(AppError::NotConfigured)
        },
    }
}

/// A name given somewhere, trimmed, when it is not blank.
pub open spec fn given_name(o: Option<Seq<char>>) -> Option<Seq<char>> {
    match o {
        Some(s) => if trim(s).len() > 0 {
            Some(trim(s))
        } else {
            None
        },
        None => None,
    }
}

/// The view of an optional string.
pub open spec fn opt_view(o: Option<String>) -> Option<Seq<char>> {
    match o {
        Some(s) => Some(s@),
        None => None,
    }
}

/// The trimmed name, when it is not blank.
fn nonblank(o: Option<String>) -> (res: Option<String>)
    ensures
        opt_view(res) == given_name(opt_view(o)),
{
    match o {
        Some(s) => {
            let t = trim_str(s.as_str());
            if t.unicode_len() > 0 {
                Some(t)
            } else {
                None
            }
        },
        None => None,
    }
}

/// Why no CA could be chosen for a TLS command.
pub enum CaChoiceFailure {
    /// Loading the configuration or listing the CA directories failed.
    Failed(AppError),
    /// There is no CA directory.
    NoCa,
    /// There are several CA directories and nothing says which to use.
    ManyCas,
}

/// The CA a TLS command works on: `--ca`, else `PKM_CA`, else the
/// configuration's `current_ca` (names are trimmed, blank ones skipped),
/// else the only CA directory. `config` is the configuration's current CA
/// as loading it came out, `names` the CA directories as listing them came
/// out; a missing configuration counts as one without a current CA.
pub open spec fn spec_resolve_ca(
    cli_ca: Option<Seq<char>>,
    env_ca: Option<Seq<char>>,
    config: Result<Option<Seq<char>>, AppError>,
    names: Result<Seq<Seq<char>>, AppError>,
) -> Result<Seq<char>, CaChoiceFailure> {
    if given_name(cli_ca) is Some {
        Ok(given_name(cli_ca)->0)
    } else if given_name(env_ca) is Some {
        Ok(given_name(env_ca)->0)
    } else {
        match config {
            Ok(c) if given_name(c) is Some => Ok(given_name(c)->0),
            Err(e) if e != AppError::NotConfigured => Err(CaChoiceFailure::Failed(e)),
            _ => match names {
                Err(e) => Err(CaChoiceFailure::Failed(e)),
                Ok(v) => if v.len() == 1 {
                    Ok(v[0])
                } else if v.len() == 0 {
                    Err(CaChoiceFailure::NoCa)
                } else {
                    Err(CaChoiceFailure::ManyCas)
                },
            },
        }
    }
}

/// The message when there is no CA to choose.
pub open spec fn no_ca_message() -> Seq<char> {
    "no CAs found; use --ca, set PKM_CA, or set current_ca in config"@
}

/// The message when there are several CAs to choose from.
pub open spec fn many_cas_message() -> Seq<char> {
    "multiple CAs found; use --ca, set PKM_CA, or set current_ca in config"@
}

/// The optional views of loaded values.
pub open spec fn config_view(c: Result<Option<String>, AppError>) -> Result<Option<Seq<char>>, AppError> {
    match c {
        Ok(o) => Ok(opt_view(o)),
        Err(e) => Err(e),
    }
}

/// The views of listed names.
pub open spec fn names_view(n: Result<Vec<String>, AppError>) -> Result<Seq<Seq<char>>, AppError> {
    match n {
        Ok(v) => Ok(views(v@)),
        Err(e) => Err(e),
    }
}

/// The CA a TLS command works on (see `spec_resolve_ca`).
pub fn resolve_ca_short_name(
    cli_ca: Option<String>,
    env_ca: Option<String>,
    config: Result<Option<String>, AppError>,
    names: Result<Vec<String>, AppError>,
) -> (res: Result<String, AppError>)
    ensures
        match spec_resolve_ca(opt_view(cli_ca), opt_view(env_ca), config_view(config), names_view(names)) {
            Ok(n) => (res matches Ok(s) && s@ == n),
            Err(CaChoiceFailure::Failed(e)) => res == Err::<String, AppError>(e),
            Err(CaChoiceFailure::NoCa) => (res matches Err(AppError::Usage(m)) && m@ == no_ca_message()),
            Err(CaChoiceFailure::ManyCas) => (res matches Err(AppError::Usage(m)) && m@
                == many_cas_message()),
        },
{
    match nonblank(cli_ca) {
        Some(t) => {
            return Ok(t);
        },
        None => {},
    }
    match nonblank(env_ca) {
        Some(t) => {
            return Ok(t);
        },
        None => {},
    }
    match config {
        Ok(c) => match nonblank(c) {
            Some(t) => {
                return Ok(t);
            },
            None => {},
        },
        Err(AppError::NotConfigured) => {},
        Err(e) => {
            return Err(e);
        },
    }
    let v = match names {
        Ok(v) => v,
        Err(e) => {
            return Err(e);
        },
    };
    if v.len() == 1 {
        assert(views(v@)[0] == v@[0]@);
        return Ok(v[0].clone());
    }
    if v.len() == 0 {
        return Err(
            AppError::Usage(
                String::from_str("no CAs found; use --ca, set PKM_CA, or set current_ca in config"),
            ),
        );
    }
    Err(
        AppError::Usage(
            String::from_str("multiple CAs found; use --ca, set PKM_CA, or set current_ca in config"),
        ),
    )
}

/// The short names of CA entries.
pub open spec fn entry_names(entries: Seq<CaEntry>) -> Seq<Seq<char>> {
    entries.map_values(|e: CaEntry| e.short_name@)
}

/// The CA marked as default in the CA listing: `PKM_CA`, else the
/// configuration's `current_ca` (trimmed, blank ones skipped), else the
/// only CA, else none.
pub open spec fn spec_list_default(
    env_ca: Option<Seq<char>>,
    config_ca: Option<Seq<char>>,
    names: Seq<Seq<char>>,
) -> Option<Seq<char>> {
    if given_name(env_ca) is Some {
        given_name(env_ca)
    } else if given_name(config_ca) is Some {
        given_name(config_ca)
    } else if names.len() == 1 {
        Some(names[0])
    } else {
        None
    }
}

/// The CA marked as default in the CA listing; `config_ca` is the
/// configuration's current CA when the configuration loads.
pub fn resolve_default_ca_for_list(
    env_ca: Option<String>,
    config_ca: Option<String>,
    entries: &Vec<CaEntry>,
) -> (res: Option<String>)
    ensures
        opt_view(res) == spec_list_default(opt_view(env_ca), opt_view(config_ca), entry_names(entries@)),
{
    match nonblank(env_ca) {
        Some(t) => {
            return Some(t);
        },
        None => {},
    }
    match nonblank(config_ca) {
        Some(t) => {
            return Some(t);
        },
        None => {},
    }
    if entries.len() == 1 {
        assert(entry_names(entries@)[0] == entries@[0].short_name@);
        return Some(entries[0].short_name.clone());
    }
    None
}

/// Law: the CA that `pkm ca list` marks as default is the CA that the TLS
/// commands work on when no `--ca` is given and the configuration and the
/// CA directories can be read; where the listing marks none, the TLS
/// commands refuse to guess.
pub proof fn lemma_listed_default_is_tls_ca(
    env_ca: Option<Seq<char>>,
    config_ca: Option<Seq<char>>,
    names: Seq<Seq<char>>,
)
    ensures
        spec_list_default(env_ca, config_ca, names) == match spec_resolve_ca(
            None,
            env_ca,
            Ok(config_ca),
            Ok(names),
        ) {
            Ok(n) => Some(n),
            Err(_) => None::<Seq<char>>,
        },
{
}

/// The AuthKey id typed at `pkm init`: blank means 1.
pub open spec fn spec_auth_key_id(input: Seq<char>) -> Option<u16> {
    if trim(input).len() == 0 {
        Some(1)
    } else {
        spec_parse_u16(trim(input))
    }
}

/// The AuthKey id typed at `pkm init`: blank means 1; anything else must
/// be a 16-bit unsigned number.
pub fn parse_auth_key_id_input(input: &str) -> (res: Result<u16, AppError>)
    ensures
        match spec_auth_key_id(input@) {
            Some(id) => res == Ok::<u16, AppError>(id),
            None => (res matches Err(AppError::Usage(m)) && m@ == "AuthKey ID must be a u16"@),
        },
{
    let t = trim_str(input);
    if t.unicode_len() == 0 {
        return Ok(1);
    }
    match parse_u16(t.as_str()) {
        Some(id) => Ok(id),
        None => Err(AppError::Usage(String::from_str("AuthKey ID must be a u16"))),
    }
}

/// `c` in either case.
pub open spec fn either_case(c: char, lower: char, upper: char) -> bool {
    c == lower || c == upper
}

/// A yes to a confirmation prompt: `y` or `yes` in any mix of cases,
/// around white space.
pub open spec fn is_yes(input: Seq<char>) -> bool {
    let t = trim(input);
    ||| t.len() == 1 && either_case(t[0], 'y', 'Y')
    ||| t.len() == 3 && either_case(t[0], 'y', 'Y') && either_case(t[1], 'e', 'E') && either_case(
        t[2],
        's',
        'S',
    )
}

/// Whether the answer to a confirmation prompt is a yes.
pub fn is_yes_answer(input: &str) -> (res: bool)
    ensures
        res == is_yes(input@),
{
    let t = trim_str(input);
    let n = t.unicode_len();
    if n == 1 {
        let c = t.get_char(0);
        c == 'y' || c == 'Y'
    } else if n == 3 {
        let a = t.get_char(0);
        let b = t.get_char(1);
        let c = t.get_char(2);
        (a == 'y' || a == 'Y') && (b == 'e' || b == 'E') && (c == 's' || c == 'S')
    } else {
        false
    }
}

} // verus!
