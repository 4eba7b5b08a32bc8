use capsule::commands::{
    generate_password, handle, load_or_init_salt, symbol_at, Answers, Cli, Commands, Outcome,
    ALPHABET_SIZE,
};
use capsule::crypto::Key;
use capsule::error::VaultError;
use capsule::vault::Vault;

const ALPHABET: &str =
    "ABCDEFGHIJKLMNOPQRSTUVWXYZabcdefghijklmnopqrstuvwxyz0123456789!@#$%^&*()_+-=[]{}";

fn fixed_key() -> Key {
    Key::from_bytes([9u8; 32])
}

fn nothing_typed() -> Answers {
    Answers { name: String::new(), username: String::new(), password: String::new() }
}

fn typed(name: &str, username: &str, password: &str) -> Answers {
    Answers {
        name: name.to_string(),
        username: username.to_string(),
        password: password.to_string(),
    }
}

fn run(command: Commands, stored: Option<&[u8]>, answers: &Answers) -> Result<Outcome, VaultError> {
    handle(&Cli { command }, stored, &fixed_key(), answers)
}

fn record_of(outcome: Outcome) -> Vec<u8> {
    match outcome {
        Outcome::Created { record } => record,
        Outcome::Added { record, .. } => record,
        other => panic!("no record in {:?}", other),
    }
}

fn vault_with(entries: &[(&str, &str, &str)]) -> Vec<u8> {
    let mut record = record_of(run(Commands::Init, None, &nothing_typed()).unwrap());
    for (name, username, password) in entries {
        let add = Commands::Add { generate: false, length: 16 };
        let outcome = run(add, Some(&record), &typed(name, username, password)).unwrap();
        record = record_of(outcome);
    }
    record
}

#[test]
fn the_alphabet_has_eighty_symbols() {
    assert_eq!(ALPHABET_SIZE, 80);
    assert_eq!(ALPHABET.chars().count(), 80);
}

#[test]
fn symbol_at_picks_from_the_alphabet_in_order() {
    assert_eq!(symbol_at(0), 'A');
    assert_eq!(symbol_at(25), 'Z');
    assert_eq!(symbol_at(26), 'a');
    assert_eq!(symbol_at(51), 'z');
    assert_eq!(symbol_at(52), '0');
    assert_eq!(symbol_at(61), '9');
    assert_eq!(symbol_at(62), '!');
    assert_eq!(symbol_at(79), '}');
    for (i, symbol) in ALPHABET.chars().enumerate() {
        assert_eq!(symbol_at(i), symbol);
    }
}

#[test]
fn generate_password_has_the_length_asked_for() {
    for length in [0usize, 1, 16, 200] {
        let password = generate_password(length);
        assert_eq!(password.chars().count(), length);
        assert!(password.chars().all(|c| ALPHABET.contains(c)));
    }
}

#[test]
fn generated_passwords_differ() {
    assert_ne!(generate_password(32), generate_password(32));
}

#[test]
fn a_stored_salt_is_taken_as_it_is() {
    assert_eq!(load_or_init_salt(Some(b"stored salt".to_vec())), (b"stored salt".to_vec(), false));
    assert_eq!(load_or_init_salt(Some(vec![])), (vec![], false));
}

#[test]
fn a_missing_salt_is_generated_and_must_be_written() {
    let (salt, persist) = load_or_init_salt(None);
    assert_eq!(salt.len(), 22);
    assert!(persist);
    assert_eq!(load_or_init_salt(Some(salt.clone())), (salt, false));
}

#[test]
fn init_makes_an_empty_vault_whatever_is_stored() {
    let record = record_of(run(Commands::Init, None, &nothing_typed()).unwrap());
    assert_eq!(Vault::load(Some(&record), &fixed_key()), Ok(Vault::new()));
    let over_garbage = record_of(run(Commands::Init, Some(b"garbage"), &nothing_typed()).unwrap());
    assert_eq!(Vault::load(Some(&over_garbage), &fixed_key()), Ok(Vault::new()));
}

#[test]
fn add_then_get_finds_the_entry() {
    let record = vault_with(&[("github", "alice", "p@ss")]);
    assert_eq!(
        run(Commands::Get { name: "github".to_string() }, Some(&record), &nothing_typed()),
        Ok(Outcome::Found { username: "alice".to_string(), password: "p@ss".to_string() })
    );
}

#[test]
fn add_writes_neither_url_nor_notes() {
    let record = vault_with(&[("github", "alice", "p@ss")]);
    let vault = Vault::load(Some(&record), &fixed_key()).unwrap();
    assert_eq!(vault.entries.len(), 1);
    assert_eq!(vault.entries[0].url, None);
    assert_eq!(vault.entries[0].notes, None);
}

#[test]
fn add_without_a_file_starts_from_the_empty_vault() {
    let add = Commands::Add { generate: false, length: 16 };
    let outcome = run(add, None, &typed("first", "u", "p")).unwrap();
    match &outcome {
        Outcome::Added { generated, .. } => assert_eq!(generated, &None),
        other => panic!("not added: {:?}", other),
    }
    let vault = Vault::load(Some(&record_of(outcome)), &fixed_key()).unwrap();
    assert_eq!(vault.names(), vec!["first"]);
}

#[test]
fn add_with_generate_stores_the_generated_password() {
    let add = Commands::Add { generate: true, length: 24 };
    let outcome = run(add, None, &typed("mail", "me", "typed but unused")).unwrap();
    let (record, generated) = match outcome {
        Outcome::Added { record, generated } => (record, generated.unwrap()),
        other => panic!("not added: {:?}", other),
    };
    assert_eq!(generated.chars().count(), 24);
    assert!(generated.chars().all(|c| ALPHABET.contains(c)));
    let vault = Vault::load(Some(&record), &fixed_key()).unwrap();
    assert_eq!(vault.find("mail").unwrap().password, generated);
}

#[test]
fn get_of_an_unknown_name_is_not_found() {
    let record = vault_with(&[("github", "alice", "p@ss")]);
    assert_eq!(
        run(Commands::Get { name: "gitlab".to_string() }, Some(&record), &nothing_typed()),
        Ok(Outcome::NotFound)
    );
    assert_eq!(
        run(Commands::Get { name: "github".to_string() }, None, &nothing_typed()),
        Ok(Outcome::NotFound)
    );
}

#[test]
fn get_gives_the_first_of_two_entries_of_one_name() {
    let record = vault_with(&[("mail", "first", "1"), ("mail", "second", "2")]);
    assert_eq!(
        run(Commands::Get { name: "mail".to_string() }, Some(&record), &nothing_typed()),
        Ok(Outcome::Found { username: "first".to_string(), password: "1".to_string() })
    );
}

#[test]
fn list_without_a_file_is_empty_and_no_error() {
    assert_eq!(run(Commands::List, None, &nothing_typed()), Ok(Outcome::Listed { names: vec![] }));
}

#[test]
fn list_shows_every_name_in_stored_order() {
    let record = vault_with(&[("b", "u", "p"), ("a", "u", "p"), ("b", "u", "p")]);
    assert_eq!(
        run(Commands::List, Some(&record), &nothing_typed()),
        Ok(Outcome::Listed { names: vec!["b".to_string(), "a".to_string(), "b".to_string()] })
    );
}

#[test]
fn search_finds_both_aws_entries_in_insertion_order() {
    let record = vault_with(&[("AWS-prod", "root", "x"), ("github", "a", "y"), ("aws-dev", "d", "z")]);
    assert_eq!(
        run(Commands::Search { query: "aws".to_string() }, Some(&record), &nothing_typed()),
        Ok(Outcome::Matched { names: vec!["AWS-prod".to_string(), "aws-dev".to_string()] })
    );
}

#[test]
fn every_command_but_init_fails_as_the_load_fails() {
    let record = vault_with(&[("github", "alice", "p@ss")]);
    let wrong = Key::from_bytes([10u8; 32]);
    let commands = [
        Commands::Add { generate: false, length: 16 },
        Commands::Add { generate: true, length: 16 },
        Commands::List,
        Commands::Get { name: "github".to_string() },
        Commands::Search { query: "git".to_string() },
    ];
    for command in commands {
        let cli = Cli { command };
        assert_eq!(
            handle(&cli, Some(&record), &wrong, &typed("n", "u", "p")),
            Err(VaultError::AuthenticationFailure)
        );
    }
}
