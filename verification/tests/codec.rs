use capsule::codec::{decode, encode, entry_of, read_document};
use capsule::error::VaultError;
use capsule::vault::{Entry, Vault};

fn entry(name: &str, username: &str, password: &str) -> Entry {
    Entry {
        name: name.to_string(),
        username: username.to_string(),
        password: password.to_string(),
        url: None,
        notes: None,
    }
}

fn pair(key: &str, value: Option<&str>) -> (String, Option<String>) {
    (key.to_string(), value.map(|v| v.to_string()))
}

#[test]
fn encode_writes_the_empty_vault() {
    assert_eq!(encode(&Vault::new()), Ok(b"{\"entries\":[]}".to_vec()));
}

#[test]
fn encode_tags_every_field() {
    let mut vault = Vault::new();
    vault.add(entry("github", "alice", "p@ss"));
    let expected = "{\"entries\":[{\"name\":\"github\",\"notes\":null,\"password\":\"p@ss\",\
                    \"url\":null,\"username\":\"alice\"}]}";
    assert_eq!(encode(&vault), Ok(expected.as_bytes().to_vec()));
}

#[test]
fn encode_writes_optional_fields_that_are_present() {
    let mut vault = Vault::new();
    vault.add(Entry {
        name: "n".to_string(),
        username: "u".to_string(),
        password: "p".to_string(),
        url: Some("https://example.org".to_string()),
        notes: Some("".to_string()),
    });
    let expected = "{\"entries\":[{\"name\":\"n\",\"notes\":\"\",\"password\":\"p\",\
                    \"url\":\"https://example.org\",\"username\":\"u\"}]}";
    assert_eq!(encode(&vault), Ok(expected.as_bytes().to_vec()));
}

#[test]
fn decode_undoes_encode() {
    let mut vault = Vault::new();
    vault.add(entry("github", "alice", "p@ss"));
    vault.add(Entry {
        name: "quote\" back\\slash \n tab\t \u{1} é 漢 🔐".to_string(),
        username: "".to_string(),
        password: "null".to_string(),
        url: Some("".to_string()),
        notes: None,
    });
    vault.add(Entry {
        name: "github".to_string(),
        username: "bob".to_string(),
        password: "{\"entries\":[]}".to_string(),
        url: None,
        notes: Some("twice the same name".to_string()),
    });
    let bytes = encode(&vault).unwrap();
    assert_eq!(decode(&bytes), Ok(vault));
}

#[test]
fn decode_undoes_encode_for_the_empty_vault() {
    let bytes = encode(&Vault::new()).unwrap();
    assert_eq!(decode(&bytes), Ok(Vault::new()));
}

#[test]
fn decode_reads_fields_in_any_order() {
    let text = "{\"entries\":[{\"name\":\"github\",\"username\":\"alice\",\"password\":\"p@ss\",\
                \"url\":null,\"notes\":null}]}";
    let mut expected = Vault::new();
    expected.add(entry("github", "alice", "p@ss"));
    assert_eq!(decode(text.as_bytes()), Ok(expected));
}

#[test]
fn decode_takes_absent_optional_fields_as_none() {
    let text = " { \"entries\" : [ { \"password\":\"p\", \"username\":\"u\", \"name\":\"n\" } ] } ";
    let mut expected = Vault::new();
    expected.add(entry("n", "u", "p"));
    assert_eq!(decode(text.as_bytes()), Ok(expected));
}

#[test]
fn decode_passes_over_keys_it_does_not_know() {
    let text = "{\"entries\":[{\"name\":\"n\",\"username\":\"u\",\"password\":\"p\",\
                \"colour\":\"red\"}],\"others\":[]}";
    let mut expected = Vault::new();
    expected.add(entry("n", "u", "p"));
    assert_eq!(decode(text.as_bytes()), Ok(expected));
}

#[test]
fn decode_refuses_what_is_no_encoding() {
    for text in [
        "",
        "not json",
        "[]",
        "{\"entries\":[]",
        "{\"entries\":[]} trailing",
        "{\"entries\":{}}",
        "{\"entries\":[[]]}",
        "{\"entries\":[{\"name\":1,\"username\":\"u\",\"password\":\"p\"}]}",
        "{\"vault\":[]}",
        "{}",
    ] {
        assert_eq!(decode(text.as_bytes()), Err(VaultError::FormatError), "{}", text);
    }
    assert_eq!(decode(&[0xff, 0xfe]), Err(VaultError::FormatError));
}

#[test]
fn decode_refuses_an_entry_without_a_required_field() {
    for text in [
        "{\"entries\":[{\"username\":\"u\",\"password\":\"p\"}]}",
        "{\"entries\":[{\"name\":\"n\",\"password\":\"p\"}]}",
        "{\"entries\":[{\"name\":\"n\",\"username\":\"u\"}]}",
        "{\"entries\":[{\"name\":null,\"username\":\"u\",\"password\":\"p\"}]}",
        "{\"entries\":[{\"name\":\"n\",\"username\":null,\"password\":\"p\"}]}",
        "{\"entries\":[{\"name\":\"n\",\"username\":\"u\",\"password\":null}]}",
        "{\"entries\":[{\"name\":\"n\",\"username\":\"u\",\"password\":\"p\"},{}]}",
    ] {
        assert_eq!(decode(text.as_bytes()), Err(VaultError::FormatError), "{}", text);
    }
}

#[test]
fn entry_of_reads_the_first_pair_of_each_key() {
    let row = vec![
        pair("url", Some("https://example.org")),
        pair("name", Some("first")),
        pair("name", Some("second")),
        pair("password", Some("p")),
        pair("username", Some("u")),
        pair("notes", None),
    ];
    assert_eq!(
        entry_of(&row),
        Some(Entry {
            name: "first".to_string(),
            username: "u".to_string(),
            password: "p".to_string(),
            url: Some("https://example.org".to_string()),
            notes: None,
        })
    );
}

#[test]
fn entry_of_needs_name_username_and_password() {
    assert_eq!(entry_of(&vec![]), None);
    assert_eq!(entry_of(&vec![pair("name", Some("n")), pair("username", Some("u"))]), None);
    assert_eq!(
        entry_of(&vec![
            pair("name", None),
            pair("username", Some("u")),
            pair("password", Some("p")),
        ]),
        None
    );
    assert_eq!(
        entry_of(&vec![
            pair("name", Some("n")),
            pair("username", Some("u")),
            pair("password", Some("p")),
        ]),
        Some(entry("n", "u", "p"))
    );
}

#[test]
fn read_document_takes_the_rows_under_entries() {
    let rows = vec![
        vec![pair("name", Some("a")), pair("username", Some("u")), pair("password", Some("p"))],
        vec![pair("name", Some("b")), pair("username", Some("v")), pair("password", Some("q"))],
    ];
    let document = vec![("before".to_string(), vec![]), ("entries".to_string(), rows)];
    let mut expected = Vault::new();
    expected.add(entry("a", "u", "p"));
    expected.add(entry("b", "v", "q"));
    assert_eq!(read_document(&document), Ok(expected));
}

#[test]
fn read_document_refuses_a_document_without_entries() {
    assert_eq!(read_document(&vec![]), Err(VaultError::FormatError));
    assert_eq!(
        read_document(&vec![("entry".to_string(), vec![])]),
        Err(VaultError::FormatError)
    );
    assert_eq!(
        read_document(&vec![("entries".to_string(), vec![vec![]])]),
        Err(VaultError::FormatError)
    );
}
