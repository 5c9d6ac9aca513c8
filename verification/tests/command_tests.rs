use pkm::cli::{CaCommand, Cli, Commands, KeysCommand, TlsAddArgs, TlsCommand, TlsExportArgs, TlsExportFormat};
use pkm::command::{
    ca_external, check_configured, run_configured, is_yes_answer, parse_auth_key_id_input, resolve_ca_short_name,
    resolve_default_ca_for_list, run, Task,
};
use pkm::error::AppError;
use pkm::store::CaEntry;

fn s(x: &str) -> String {
    x.to_string()
}

fn words(ws: &[&str]) -> Vec<String> {
    ws.iter().map(|w| w.to_string()).collect()
}

const EXPECTED: &str = "expected: pkm ca <name> tls add|export <name> [flags]";

#[test]
fn commands_map_to_tasks() {
    assert!(matches!(run(Cli { command: Commands::Init }), Ok(Task::Init)));
    assert!(matches!(
        run(Cli { command: Commands::Keys { command: KeysCommand::List { all_capabilities: true } } }),
        Ok(Task::ListKeys { all_capabilities: true })
    ));
    match run(Cli { command: Commands::Keys { command: KeysCommand::Add { label: s("k"), algorithm: s("ecp384") } } }) {
        Ok(Task::AddKey { label, algorithm }) => assert_eq!((label.as_str(), algorithm.as_str()), ("k", "ecp384")),
        other => panic!("unexpected {:?}", other),
    }
    match run(Cli { command: Commands::Keys { command: KeysCommand::Remove { id_or_label: s("3"), yes: true, force: false } } }) {
        Ok(Task::RemoveKey { id_or_label, yes, force }) => assert_eq!((id_or_label.as_str(), yes, force), ("3", true, false)),
        other => panic!("unexpected {:?}", other),
    }
    assert!(matches!(run(Cli { command: Commands::Ca { command: CaCommand::List } }), Ok(Task::ListCas)));
    match run(Cli { command: Commands::Ca { command: CaCommand::Default { ca_short_name: s("home") } } }) {
        Ok(Task::SetDefaultCa { ca_short_name }) => assert_eq!(ca_short_name, "home"),
        other => panic!("unexpected {:?}", other),
    }
    match run(Cli { command: Commands::Tls { command: TlsCommand::List { ca: Some(s("x")) } } }) {
        Ok(Task::ListTls { ca }) => assert_eq!(ca.as_deref(), Some("x")),
        other => panic!("unexpected {:?}", other),
    }
    let add = TlsAddArgs { name: s("n"), client: true, server: false, hosts: vec![s("h")] };
    match run(Cli { command: Commands::Tls { command: TlsCommand::Add { ca: None, args: add } } }) {
        Ok(Task::AddTls { ca: None, args }) => assert_eq!((args.name.as_str(), args.client, args.hosts.len()), ("n", true, 1)),
        other => panic!("unexpected {:?}", other),
    }
    let exp = TlsExportArgs { name: s("n"), format: TlsExportFormat::Split };
    match run(Cli { command: Commands::Tls { command: TlsCommand::Export { ca: None, args: exp } } }) {
        Ok(Task::ExportTls { args, .. }) => assert_eq!(args.format, TlsExportFormat::Split),
        other => panic!("unexpected {:?}", other),
    }
}

#[test]
fn external_ca_commands() {
    match ca_external(words(&["home", "tls", "add", "server1", "--server"])) {
        Ok(Task::AddTlsWithFlags { ca, argv }) => {
            assert_eq!(ca, "home");
            assert_eq!(argv, words(&["tls-add", "server1", "--server"]));
        }
        other => panic!("unexpected {:?}", other),
    }
    match ca_external(words(&["home", "tls", "export"])) {
        Ok(Task::ExportTlsWithFlags { ca, argv }) => {
            assert_eq!(ca, "home");
            assert_eq!(argv, words(&["tls-export"]));
        }
        other => panic!("unexpected {:?}", other),
    }
    for bad in [vec![], words(&["home"]), words(&["home", "tls"]), words(&["home", "keys", "add"]), words(&["home", "tls", "list"])] {
        assert_eq!(ca_external(bad).unwrap_err(), AppError::Usage(s(EXPECTED)));
    }
    assert_eq!(
        run(Cli { command: Commands::Ca { command: CaCommand::External(words(&["x", "y"])) } }).unwrap_err(),
        AppError::Usage(s(EXPECTED))
    );
}

#[test]
fn ca_resolution_order() {
    let names = || Ok(words(&["a", "b"]));
    assert_eq!(resolve_ca_short_name(Some(s(" cli ")), Some(s("env")), Ok(Some(s("cfg"))), names()).unwrap(), "cli");
    assert_eq!(resolve_ca_short_name(Some(s("  ")), Some(s("env")), Ok(Some(s("cfg"))), names()).unwrap(), "env");
    assert_eq!(resolve_ca_short_name(None, Some(s("")), Ok(Some(s(" cfg\n"))), names()).unwrap(), "cfg");
    assert_eq!(resolve_ca_short_name(None, None, Ok(None), Ok(words(&["only"]))).unwrap(), "only");
    assert_eq!(resolve_ca_short_name(None, None, Err(AppError::NotConfigured), Ok(words(&["only"]))).unwrap(), "only");
    assert_eq!(
        resolve_ca_short_name(None, None, Err(AppError::Config(s("bad toml"))), Ok(words(&["only"]))).unwrap_err(),
        AppError::Config(s("bad toml"))
    );
    assert_eq!(
        resolve_ca_short_name(None, None, Ok(None), Ok(Vec::new())).unwrap_err(),
        AppError::Usage(s("no CAs found; use --ca, set PKM_CA, or set current_ca in config"))
    );
    assert_eq!(
        resolve_ca_short_name(None, None, Ok(Some(s(" "))), names()).unwrap_err(),
        AppError::Usage(s("multiple CAs found; use --ca, set PKM_CA, or set current_ca in config"))
    );
    assert_eq!(
        resolve_ca_short_name(None, None, Ok(None), Err(AppError::Io(s("denied")))).unwrap_err(),
        AppError::Io(s("denied"))
    );
    assert_eq!(resolve_ca_short_name(Some(s("x")), None, Err(AppError::Config(s("bad"))), Err(AppError::Io(s("e")))).unwrap(), "x");
}

#[test]
fn default_ca_in_listing() {
    let one = vec![CaEntry { short_name: s("home"), config: None, cert: None }];
    let two = vec![
        CaEntry { short_name: s("a"), config: None, cert: None },
        CaEntry { short_name: s("b"), config: None, cert: None },
    ];
    assert_eq!(resolve_default_ca_for_list(Some(s(" env ")), Some(s("cfg")), &two), Some(s("env")));
    assert_eq!(resolve_default_ca_for_list(None, Some(s("cfg")), &two), Some(s("cfg")));
    assert_eq!(resolve_default_ca_for_list(None, None, &one), Some(s("home")));
    assert_eq!(resolve_default_ca_for_list(None, Some(s(" ")), &two), None);
}

#[test]
fn listed_default_is_tls_choice() {
    let entries = vec![CaEntry { short_name: s("home"), config: None, cert: None }];
    for (env, cfg) in [(None, None), (Some(s("e")), None), (None, Some(s("c"))), (Some(s(" ")), Some(s("c")))] {
        let listed = resolve_default_ca_for_list(env.clone(), cfg.clone(), &entries);
        let chosen = resolve_ca_short_name(None, env, Ok(cfg), Ok(vec![s("home")])).ok();
        assert_eq!(listed, chosen);
    }
}

#[test]
fn auth_key_id_input() {
    assert_eq!(parse_auth_key_id_input("\n").unwrap(), 1);
    assert_eq!(parse_auth_key_id_input("  2 \n").unwrap(), 2);
    assert_eq!(parse_auth_key_id_input("65535").unwrap(), 65535);
    for bad in ["65536", "-1", "one", "1 2"] {
        assert_eq!(parse_auth_key_id_input(bad).unwrap_err(), AppError::Usage(s("AuthKey ID must be a u16")));
    }
}

#[test]
fn confirmation_answers() {
    for yes in ["y", "Y", "yes", "YES", "yEs", " y\n", "\tYes \r\n"] {
        assert!(is_yes_answer(yes), "{:?}", yes);
    }
    for no in ["", "n", "no", "ye", "yess", "y e s", "\n"] {
        assert!(!is_yes_answer(no), "{:?}", no);
    }
}

#[test]
fn only_init_runs_unconfigured() {
    assert!(check_configured(&Task::Init, false).is_ok());
    assert!(check_configured(&Task::Init, true).is_ok());
    assert_eq!(check_configured(&Task::ListCas, false).unwrap_err(), AppError::NotConfigured);
    assert_eq!(check_configured(&Task::ListTls { ca: Some(s("x")) }, false).unwrap_err(), AppError::NotConfigured);
    assert!(check_configured(&Task::ListCas, true).is_ok());
    assert_eq!(AppError::NotConfigured.exit_code(), 3);
}

#[test]
fn unconfigured_commands_stop_before_anything_else() {
    let list = || Cli { command: Commands::Ca { command: CaCommand::List } };
    assert_eq!(run_configured(list(), false).unwrap_err(), AppError::NotConfigured);
    assert!(matches!(run_configured(list(), true), Ok(Task::ListCas)));
    assert!(matches!(run_configured(Cli { command: Commands::Init }, false), Ok(Task::Init)));
    let bad = Cli { command: Commands::Ca { command: CaCommand::External(vec![s("x"), s("bogus")]) } };
    assert_eq!(run_configured(bad, false).unwrap_err(), AppError::NotConfigured);
    let bad = Cli { command: Commands::Ca { command: CaCommand::External(vec![s("x"), s("bogus")]) } };
    assert!(matches!(run_configured(bad, true), Err(AppError::Usage(_))));
}
