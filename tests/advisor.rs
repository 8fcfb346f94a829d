use advisor_cli::cell::cell_fits_text;
use advisor_cli::command::{has_at, Command};
use advisor_cli::dispatch::{complete, ResponseKind, HEALTHCHECK_TIMEOUT_SECS, PEOPLE_TIMEOUT_SECS};
use advisor_cli::error::Error;
use advisor_cli::params::PersonParams;
use advisor_cli::registry::{AdvisorApp, Authentication, Config, Fallback};
use advisor_cli::render::{
    bool_string, outcome_line, people_fit_table, people_rows, show_people_table, Person, StringWriter,
};

fn strings(v: &[&str]) -> Vec<String> {
    v.iter().map(|s| s.to_string()).collect()
}

fn app(name: &str, token: Option<&str>) -> AdvisorApp {
    AdvisorApp::new(
        name.to_string(),
        format!("http://{}.example", name),
        token.map(|t| t.to_string()),
    )
}

fn params(pairs: &[(&str, &str)]) -> PersonParams {
    let mut p = PersonParams::new();
    for (k, v) in pairs {
        p.insert(k.to_string(), v.to_string());
    }
    p
}

#[test]
fn has_at_accepts_value_with_at() {
    assert_eq!(has_at("a@b.com".to_string()), Ok(()));
    assert_eq!(has_at("@".to_string()), Ok(()));
}

#[test]
fn has_at_rejects_value_without_at() {
    assert_eq!(
        has_at("ab.com".to_string()),
        Err("The value did not contain the required @ sigil".to_string())
    );
    assert!(has_at(String::new()).is_err());
}

#[test]
fn parse_health() {
    assert_eq!(Command::parse("health", &vec![], &vec![]), Command::Healthcheck);
}

#[test]
fn parse_show_people() {
    assert_eq!(Command::parse("show", &strings(&["people"]), &vec![]), Command::ShowPeople);
}

#[test]
fn parse_show_questionnaires() {
    assert_eq!(
        Command::parse("show", &strings(&["questionnaires"]), &vec![]),
        Command::ShowQuestionnaires
    );
}

#[test]
fn parse_delete_person() {
    assert_eq!(
        Command::parse("delete", &strings(&["a@b.com"]), &vec![]),
        Command::DeletePerson { email: "a@b.com".to_string() }
    );
}

#[test]
fn parse_delete_without_at_is_unrecognized() {
    assert_eq!(
        Command::parse("delete", &strings(&["ab.com"]), &vec![]),
        Command::Unrecognized { raw_tokens: strings(&["delete", "ab.com"]) }
    );
}

#[test]
fn parse_update_add() {
    assert_eq!(
        Command::parse("update", &strings(&["123a", "add", "a@b.com"]), &vec![]),
        Command::AddPersonToQuestionnaire { id: "123a".to_string(), email: "a@b.com".to_string() }
    );
}

#[test]
fn parse_update_remove() {
    assert_eq!(
        Command::parse("update", &strings(&["123a", "remove", "a@b.com"]), &vec![]),
        Command::RemovePersonFromQuestionnaire {
            id: "123a".to_string(),
            email: "a@b.com".to_string()
        }
    );
}

#[test]
fn parse_create_person() {
    let c = Command::parse(
        "create",
        &strings(&["person"]),
        &strings(&["--name", "Steve", "--email", "a@b.com"]),
    );
    assert_eq!(c, Command::CreatePerson(params(&[("name", "Steve"), ("email", "a@b.com")])));
    assert_eq!(c, Command::CreatePerson(params(&[("email", "a@b.com"), ("name", "Steve")])));
    assert_ne!(c, Command::CreatePerson(params(&[("name", "Steve")])));
    assert_ne!(c, Command::CreatePerson(params(&[("name", "Bob"), ("email", "a@b.com")])));
}

#[test]
fn parse_create_person_order_of_flags_does_not_matter() {
    let a = Command::parse(
        "create",
        &strings(&["person"]),
        &strings(&["--name", "Steve", "--email", "a@b.com"]),
    );
    let b = Command::parse(
        "create",
        &strings(&["person"]),
        &strings(&["--email", "a@b.com", "--name", "Steve"]),
    );
    assert_eq!(a, b);
}

#[test]
fn parse_create_person_last_value_wins() {
    let c = Command::parse(
        "create",
        &strings(&["person"]),
        &strings(&["--name", "Steve", "--name", "Bob"]),
    );
    assert_eq!(c, Command::CreatePerson(params(&[("name", "Bob")])));
    match c {
        Command::CreatePerson(p) => {
            assert_eq!(p.value_of("name"), Some(&"Bob".to_string()));
            assert_eq!(p.value_of("email"), None);
        }
        _ => panic!("expected a person"),
    }
}

#[test]
fn parse_create_person_with_unpaired_flag_is_unrecognized() {
    assert_eq!(
        Command::parse("create", &strings(&["person"]), &strings(&["--name"])),
        Command::Unrecognized { raw_tokens: strings(&["create", "person", "--name"]) }
    );
}

#[test]
fn parse_unrecognized() {
    assert_eq!(
        Command::parse("foo", &strings(&["bar"]), &vec![]),
        Command::Unrecognized { raw_tokens: strings(&["foo", "bar"]) }
    );
}

#[test]
fn resolve_single_instance_without_default() {
    let config = Config { default: None, apps: vec![app("one", None)] };
    assert_eq!(config.resolve(None, Fallback::OnlyInstance).unwrap().name, "one");
}

#[test]
fn resolve_ambiguous_without_default_fails() {
    let config = Config { default: None, apps: vec![app("one", None), app("two", None)] };
    assert_eq!(config.resolve(None, Fallback::OnlyInstance).unwrap_err(), Error::InstanceNotFound);
}

#[test]
fn resolve_empty_registry_fails() {
    let config = Config { default: None, apps: vec![] };
    assert_eq!(config.resolve(None, Fallback::OnlyInstance).unwrap_err(), Error::InstanceNotFound);
}

#[test]
fn resolve_prefers_explicit_name_over_default() {
    let config = Config {
        default: Some("one".to_string()),
        apps: vec![app("one", None), app("two", None)],
    };
    assert_eq!(config.resolve(Some("two"), Fallback::OnlyInstance).unwrap().name, "two");
    assert_eq!(config.resolve(None, Fallback::OnlyInstance).unwrap().name, "one");
}

#[test]
fn resolve_unknown_name_fails() {
    let config = Config {
        default: Some("zero".to_string()),
        apps: vec![app("one", None)],
    };
    assert_eq!(config.resolve(Some("three"), Fallback::OnlyInstance).unwrap_err(), Error::InstanceNotFound);
    assert_eq!(config.resolve(None, Fallback::OnlyInstance).unwrap_err(), Error::InstanceNotFound);
}

#[test]
fn for_app_finds_by_exact_name() {
    let config = Config { default: None, apps: vec![app("one", None), app("two", Some("t"))] };
    assert_eq!(config.for_app("two").unwrap().location, "http://two.example");
    assert!(config.for_app("tw").is_none());
}

#[test]
fn healthcheck_request_is_unauthenticated() {
    let a = app("one", Some("secret"));
    assert_eq!(a.healthcheck(), "http://one.example/healthcheck");
    let q = a.run(&Command::Healthcheck).unwrap();
    assert_eq!(q.url, "http://one.example/healthcheck");
    assert!(matches!(q.auth, Authentication::Anonymous));
    assert_eq!(q.timeout_secs, HEALTHCHECK_TIMEOUT_SECS);
    assert_eq!(q.timeout_secs, 1);
    assert_eq!(q.kind, ResponseKind::Text);
}

#[test]
fn show_people_request_uses_bearer_token() {
    let q = app("one", Some("secret")).run(&Command::ShowPeople).unwrap();
    assert_eq!(q.url, "http://one.example/admin/people");
    match &q.auth {
        Authentication::Bearer(t) => assert_eq!(t, "secret"),
        Authentication::Anonymous => panic!("expected a token"),
    }
    assert_eq!(q.auth.header_value(), Some("Bearer secret".to_string()));
    assert_eq!(q.timeout_secs, PEOPLE_TIMEOUT_SECS);
    assert_eq!(q.timeout_secs, 5);
    assert_eq!(q.kind, ResponseKind::PeopleTable);
}

#[test]
fn empty_or_missing_token_means_no_authentication() {
    let q = app("one", Some("")).run(&Command::ShowPeople).unwrap();
    assert!(matches!(q.auth, Authentication::Anonymous));
    assert_eq!(q.auth.header_value(), None);
    let q = app("one", None).run(&Command::ShowPeople).unwrap();
    assert!(matches!(q.auth, Authentication::Anonymous));
}

#[test]
fn unwired_commands_are_unsupported() {
    let a = app("one", Some("secret"));
    let commands = vec![
        Command::ShowQuestionnaires,
        Command::DeletePerson { email: "a@b.com".to_string() },
        Command::CreatePerson(params(&[("name", "Steve")])),
        Command::AddPersonToQuestionnaire { id: "1".to_string(), email: "a@b.com".to_string() },
        Command::RemovePersonFromQuestionnaire { id: "1".to_string(), email: "a@b.com".to_string() },
        Command::Unrecognized { raw_tokens: strings(&["foo", "bar"]) },
    ];
    for c in &commands {
        assert_eq!(a.run(c).unwrap_err(), Error::UnsupportedCommand);
    }
}

#[test]
fn missing_response_is_remote_api_error() {
    assert_eq!(complete(ResponseKind::Text, None, None), Err(Error::RemoteAPIError));
    assert_eq!(complete(ResponseKind::PeopleTable, None, None), Err(Error::RemoteAPIError));
}

#[test]
fn text_response_is_passed_through() {
    assert_eq!(complete(ResponseKind::Text, Some("OK".to_string()), None), Ok("OK".to_string()));
}

#[test]
fn undecodable_people_is_malformed_response() {
    assert_eq!(
        complete(ResponseKind::PeopleTable, Some("not json".to_string()), None),
        Err(Error::MalformedResponse)
    );
}

fn people_from_json(raw: &str) -> Vec<Person> {
    let value: serde_json::Value = serde_json::from_str(raw).unwrap();
    value
        .as_array()
        .unwrap()
        .iter()
        .map(|p| Person {
            name: p["name"].as_str().unwrap().to_string(),
            email: p["email"].as_str().unwrap().to_string(),
            is_mentor: p["is_mentor"].as_bool().unwrap(),
        })
        .collect()
}

#[test]
fn people_json_renders_to_table_row() {
    let raw = r#"[{"name":"A","email":"a@x.com","is_mentor":true}]"#;
    let people = people_from_json(raw);
    let rows = people_rows(&people);
    assert_eq!(rows, vec![strings(&["Name", "Email", "Is mentor"]), strings(&["A", "a@x.com", "true"])]);
    let table = complete(ResponseKind::PeopleTable, Some(raw.to_string()), Some(people)).unwrap();
    assert!(table.contains("Name"));
    assert!(table.contains("Is mentor"));
    let row = table
        .lines()
        .find(|l| l.contains("a@x.com"))
        .expect("a row for the person");
    let cells: Vec<&str> = row.split('|').map(|c| c.trim()).filter(|c| !c.is_empty()).collect();
    assert_eq!(cells, vec!["A", "a@x.com", "true"]);
}

#[test]
fn people_table_keeps_order() {
    let people = vec![
        Person { name: "B".to_string(), email: "b@x.com".to_string(), is_mentor: false },
        Person { name: "A".to_string(), email: "a@x.com".to_string(), is_mentor: true },
    ];
    let table = show_people_table(&people);
    let b = table.find("b@x.com").unwrap();
    let a = table.find("a@x.com").unwrap();
    assert!(b < a);
    assert!(table.contains("false"));
}

#[test]
fn empty_people_table_has_only_header() {
    let table = show_people_table(&vec![]);
    assert!(table.contains("Email"));
    assert!(!table.contains("@"));
}

#[test]
fn bool_text_values() {
    assert_eq!(bool_string(true), "true");
    assert_eq!(bool_string(false), "false");
}

#[test]
fn outcome_lines() {
    assert_eq!(outcome_line(&Ok("fine".to_string())), "Success: fine");
    assert_eq!(outcome_line(&Err(Error::RemoteAPIError)), "Failure: Error reading remote API");
    assert_eq!(
        outcome_line(&Err(Error::UnsupportedCommand)),
        "Failure: Command is not supported"
    );
}

#[test]
fn error_messages() {
    assert_eq!(Error::ConfigNotFound.message(), "Could not open config");
    assert_eq!(Error::InstanceNotFound.message(), "Could not find the requested app");
    assert_eq!(
        Error::MalformedResponse.message(),
        "Could not understand the remote API response"
    );
}

#[test]
fn string_writer_appends() {
    let mut w = StringWriter::new();
    w.write("ab");
    w.write("");
    w.write("c");
    assert_eq!(w.into_string(), "abc");
}

#[test]
fn config_with_unique_names_is_accepted() {
    let c = Config::new(Some("two".to_string()), vec![app("one", None), app("two", None)]).unwrap();
    assert_eq!(c.default, Some("two".to_string()));
    assert_eq!(c.apps.len(), 2);
    assert_eq!(c.resolve(None, Fallback::OnlyInstance).unwrap().name, "two");
    assert!(Config::new(None, vec![]).is_ok());
}

#[test]
fn config_with_duplicate_names_is_refused() {
    let r = Config::new(None, vec![app("one", None), app("two", None), app("one", Some("t"))]);
    assert_eq!(r.unwrap_err(), Error::ConfigNotFound);
}

#[test]
fn resolve_without_fallback_needs_a_name() {
    let config = Config { default: None, apps: vec![app("one", None)] };
    assert_eq!(config.resolve(None, Fallback::NameRequired).unwrap_err(), Error::InstanceNotFound);
    assert_eq!(config.resolve(Some("one"), Fallback::NameRequired).unwrap().name, "one");
    let config = Config { default: Some("one".to_string()), apps: vec![app("one", None)] };
    assert_eq!(config.resolve(None, Fallback::NameRequired).unwrap().name, "one");
}

#[test]
fn people_that_cannot_be_laid_out_are_malformed() {
    let ligature = "\u{5d0}\u{200d}\u{5dc}";
    let name = format!("\u{1b}[{}{}{}", ligature, ligature, ligature);
    assert!(!cell_fits_text(&name));
    let people = vec![Person { name, email: "a@x.com".to_string(), is_mentor: false }];
    assert!(!people_fit_table(&people));
    assert_eq!(
        complete(ResponseKind::PeopleTable, Some("[]".to_string()), Some(people)),
        Err(Error::MalformedResponse)
    );
}

#[test]
fn escape_characters_that_fit_are_rendered() {
    let people = vec![
        Person {
            name: "\u{1b}[31mRed\u{1b}[0m".to_string(),
            email: "a\u{1b}@x.com".to_string(),
            is_mentor: true,
        },
        Person { name: "\u{1b}x".to_string(), email: "b@x.com".to_string(), is_mentor: false },
    ];
    assert!(people_fit_table(&people));
    let table = complete(ResponseKind::PeopleTable, Some("[]".to_string()), Some(people)).unwrap();
    assert!(table.contains("Red"));
    assert!(table.contains("a\u{1b}@x.com"));
    assert!(table.contains("b@x.com"));
}

#[test]
fn cell_fit_checks_each_line() {
    assert!(cell_fits_text(""));
    assert!(cell_fits_text("plain\ntext\r\n"));
    assert!(cell_fits_text("\u{1b}[1mbold\u{1b}[0m\nnext"));
    let ligature = "\u{5d0}\u{200d}\u{5dc}";
    let bad = format!("\u{1b}[{}{}{}", ligature, ligature, ligature);
    assert!(!cell_fits_text(&format!("first\n{}", bad)));
    assert!(!cell_fits_text(&format!("{}\r\nlast", bad)));
}

#[test]
fn plain_people_are_accepted() {
    let people = vec![Person { name: "A".to_string(), email: "a@x.com".to_string(), is_mentor: true }];
    assert!(people_fit_table(&people));
    assert!(people_fit_table(&vec![]));
}

#[test]
fn parse_create_person_three_pairs_in_any_order() {
    let a = Command::parse(
        "create",
        &strings(&["person"]),
        &strings(&["--name", "Steve", "--email", "a@b.com", "--role", "mentor"]),
    );
    let b = Command::parse(
        "create",
        &strings(&["person"]),
        &strings(&["--role", "mentor", "--name", "Steve", "--email", "a@b.com"]),
    );
    assert_eq!(a, b);
}
