use vstd::prelude::*;
use vstd::string::StrSliceExecFns;
use crate::codec::encoded;
use crate::crypto::{generate_salt, Key, MAX_PLAINTEXT_LEN, SALT_SIZE};
use crate::error::VaultError;
use crate::text::text_of;
use crate::vault::{first_named, lemma_first_named, loaded, matching_names, names_of, stored_bytes, Entry, EntryView, Vault};
use rand::Rng;

verus! {

/// The number of symbols that a generated password draws from.
pub const ALPHABET_SIZE: usize = 80;

/// The symbols that a generated password draws from: the upper-case and the
/// lower-case letters, the digits and eighteen signs.
pub open spec fn alphabet() -> Seq<char> {
    "ABCDEFGHIJKLMNOPQRSTUVWXYZabcdefghijklmnopqrstuvwxyz0123456789!@#$%^&*()_+-=[]{}"@
}

/// The alphabet has `ALPHABET_SIZE` symbols.
pub proof fn lemma_alphabet_size()
    ensures
        alphabet().len() == ALPHABET_SIZE,
{
    reveal_strlit(
        "ABCDEFGHIJKLMNOPQRSTUVWXYZabcdefghijklmnopqrstuvwxyz0123456789!@#$%^&*()_+-=[]{}",
    );
}

/// Calls `rand::thread_rng().gen_range(0..bound)`: a draw below the bound,
/// and nothing more is known of it. The bound must be positive.
#[verifier::external_body]
fn random_below(bound: usize) -> (draw: usize)
    requires
        bound > 0,
    ensures
        draw < bound,
{
    rand::thread_rng().gen_range(0..bound)
}

/// The symbol that a draw picks.
pub fn symbol_at(draw: usize) -> (symbol: char)
    requires
        draw < ALPHABET_SIZE,
    ensures
        symbol == alphabet()[draw as int],
{
    proof {
        lemma_alphabet_size();
    }
    let symbols = "ABCDEFGHIJKLMNOPQRSTUVWXYZabcdefghijklmnopqrstuvwxyz0123456789!@#$%^&*()_+-=[]{}";
    symbols.get_char(draw)
}

/// Whether a text has `length` symbols, all of the alphabet.
pub open spec fn is_generated(text: Seq<char>, length: nat) -> bool {
    &&& text.len() == length
    &&& forall|i: int| 0 <= i < text.len() ==> alphabet().contains(#[trigger] text[i])
}

/// A password of `length` symbols, each drawn from the alphabet by the
/// thread's random generator.
pub fn generate_password(length: usize) -> (password: String)
    ensures
        is_generated(password@, length as nat),
{
    let mut symbols: Vec<char> = Vec::new();
    let mut i: usize = 0;
    while i < length
        invariant
            i <= length,
            is_generated(symbols@, i as nat),
        decreases length - i,
    {
        let symbol = symbol_at(random_below(ALPHABET_SIZE));
        proof {
            lemma_alphabet_size();
        }
        symbols.push(symbol);
        i = i + 1;
    }
    text_of(&symbols)
}

/// The salt to derive the key with, and whether it is new and has to be
/// written before the key is used. A salt that is stored is taken as it is;
/// only where none is stored is one generated.
pub fn load_or_init_salt(stored: Option<Vec<u8>>) -> (r: (Vec<u8>, bool))
    ensures
        match stored {
            Some(salt) => r.0@ == salt@ && !r.1,
            None => r.0@.len() == SALT_SIZE && r.1,
        },
{
    match stored {
        Some(salt) => (salt, false),
        None => (generate_salt(), true),
    }
}

/// What the user asks of the vault.
#[derive(Debug, Clone, PartialEq, Eq)]
pub enum Commands {
    /// Create an empty vault.
    Init,
    /// Append an entry; with `generate`, under a generated password of
    /// `length` symbols.
    Add { generate: bool, length: usize },
    /// Show the names of all entries.
    List,
    /// Show the username and the password of the first entry of that name.
    Get { name: String },
    /// Show the names that hold the query, whatever the case of either.
    Search { query: String },
}

/// One invocation.
#[derive(Debug, Clone, PartialEq, Eq)]
pub struct Cli {
    pub command: Commands,
}

/// What the user typed for a new entry. Only `Add` reads it, and the
/// password only where none is generated.
#[derive(Debug, Clone, PartialEq, Eq)]
pub struct Answers {
    pub name: String,
    pub username: String,
    pub password: String,
}

/// What a command came to: what to write as the vault file, and what to
/// show.
#[derive(Debug, Clone, PartialEq, Eq)]
pub enum Outcome {
    /// An empty vault was made; `record` is the new vault file.
    Created { record: Vec<u8> },
    /// An entry was appended; `record` is the new vault file, `generated`
    /// the password where one was generated.
    Added { record: Vec<u8>, generated: Option<String> },
    /// The names of all entries, in stored order.
    Listed { names: Vec<String> },
    /// The entry of that name.
    Found { username: String, password: String },
    /// No entry has that name. This is an answer, not a failure.
    NotFound,
    /// The names that hold the query, in stored order.
    Matched { names: Vec<String> },
}

/// The entry that `Add` appends: what was typed, under the password given,
/// with neither a URL nor notes.
pub open spec fn new_entry(answers: Answers, password: Seq<char>) -> EntryView {
    EntryView {
        name: answers.name@,
        username: answers.username@,
        password,
        url: None,
        notes: None,
    }
}

/// Whether `record`, written as the vault file, loads to `entries` under the
/// key.
pub open spec fn writes(record: Seq<u8>, key: Seq<u8>, entries: Seq<EntryView>) -> bool {
    loaded(Some(record), key) == Ok::<Seq<EntryView>, VaultError>(entries)
}

/// Whether `r` is what `Init` comes to.
pub open spec fn init_returns(key: Seq<u8>, r: Result<Outcome, VaultError>) -> bool {
    let empty = Seq::<EntryView>::empty();
    match r {
        Ok(Outcome::Created { record }) => encoded(empty).len() <= MAX_PLAINTEXT_LEN && writes(
            record@,
            key,
            empty,
        ),
        Ok(_) => false,
        Err(e) => encoded(empty).len() > MAX_PLAINTEXT_LEN && e == VaultError::FormatError,
    }
}

/// Whether `r` is what `Add` comes to on a vault that holds `entries`.
pub open spec fn add_returns(
    entries: Seq<EntryView>,
    generate: bool,
    length: usize,
    answers: Answers,
    key: Seq<u8>,
    r: Result<Outcome, VaultError>,
) -> bool {
    match r {
        Ok(Outcome::Added { record, generated }) => {
            let password = match generated {
                Some(text) => text@,
                None => answers.password@,
            };
            let grown = entries.push(new_entry(answers, password));
            &&& generated is Some <==> generate
            &&& generate ==> is_generated(password, length as nat)
            &&& encoded(grown).len() <= MAX_PLAINTEXT_LEN
            &&& writes(record@, key, grown)
        },
        Ok(_) => false,
        Err(e) => {
            &&& e == VaultError::FormatError
            &&& exists|password: Seq<char>|
                {
                    &&& #[trigger] encoded(entries.push(new_entry(answers, password))).len()
                        > MAX_PLAINTEXT_LEN
                    &&& if generate {
                        is_generated(password, length as nat)
                    } else {
                        password == answers.password@
                    }
                }
        },
    }
}

/// Whether `r` is what `List` comes to on a vault that holds `entries`.
pub open spec fn list_returns(entries: Seq<EntryView>, r: Result<Outcome, VaultError>) -> bool {
    r matches Ok(Outcome::Listed { names }) && names.deep_view() == names_of(entries)
}

/// Whether `r` is what `Get` comes to on a vault that holds `entries`.
pub open spec fn get_returns(
    entries: Seq<EntryView>,
    name: Seq<char>,
    r: Result<Outcome, VaultError>,
) -> bool {
    match first_named(entries, name, 0) {
        Some(i) => r matches Ok(Outcome::Found { username, password }) && username@
            == entries[i].username && password@ == entries[i].password,
        None => r matches Ok(Outcome::NotFound),
    }
}

/// Whether `r` is what `Search` comes to on a vault that holds `entries`.
pub open spec fn search_returns(
    entries: Seq<EntryView>,
    query: Seq<char>,
    r: Result<Outcome, VaultError>,
) -> bool {
    r matches Ok(Outcome::Matched { names }) && names.deep_view() == matching_names(
        names_of(entries),
        query,
    )
}

/// Whether `r` is what `handle` returns. `Init` reads no vault file. Every
/// other command loads it first, and fails as the load fails.
pub open spec fn handle_returns(
    command: Commands,
    stored: Option<Seq<u8>>,
    key: Seq<u8>,
    answers: Answers,
    r: Result<Outcome, VaultError>,
) -> bool {
    match command {
        Commands::Init => init_returns(key, r),
        _ => match loaded(stored, key) {
            Err(e) => r matches Err(f) && f == e,
            Ok(entries) => match command {
                Commands::Init => init_returns(key, r),
                Commands::Add { generate, length } => add_returns(
                    entries,
                    generate,
                    length,
                    answers,
                    key,
                    r,
                ),
                Commands::List => list_returns(entries, r),
                Commands::Get { name } => get_returns(entries, name@, r),
                Commands::Search { query } => search_returns(entries, query@, r),
            },
        },
    }
}

/// Makes the empty vault and seals it.
fn init(key: &Key) -> (r: Result<Outcome, VaultError>)
    ensures
        init_returns(key@, r),
{
    let vault = Vault::new();
    match vault.save(key) {
        Ok(record) => Ok(Outcome::Created { record }),
        Err(e) => Err(e),
    }
}

/// Appends the entry that was typed, under the password typed or under a
/// generated one, and seals the grown vault.
fn add_entry(vault: Vault, generate: bool, length: usize, answers: &Answers, key: &Key) -> (r:
    Result<Outcome, VaultError>)
    ensures
        add_returns(vault@, generate, length, *answers, key@, r),
{
    let mut vault = vault;
    let ghost entries = vault@;
    let generated = if generate {
        Some(generate_password(length))
    } else {
        None
    };
    let password = match &generated {
        Some(text) => text.clone(),
        None => answers.password.clone(),
    };
    let entry = Entry {
        name: answers.name.clone(),
        username: answers.username.clone(),
        password,
        url: None,
        notes: None,
    };
    assert(entry@ == new_entry(*answers, entry.password@));
    vault.add(entry);
    match vault.save(key) {
        Ok(record) => Ok(Outcome::Added { record, generated }),
        Err(e) => {
            assert(encoded(entries.push(new_entry(*answers, entry.password@))).len()
                > MAX_PLAINTEXT_LEN);
            Err(e)
        },
    }
}

/// Looks up the first entry of that name.
fn get(vault: &Vault, name: &str) -> (r: Result<Outcome, VaultError>)
    ensures
        get_returns(vault@, name@, r),
{
    proof {
        lemma_first_named(vault@, name@, 0);
    }
    match vault.find(name) {
        Some(entry) => Ok(
            Outcome::Found { username: entry.username.clone(), password: entry.password.clone() },
        ),
        None => Ok(Outcome::NotFound),
    }
}

/// Carries out one command on the vault file as it is stored (`None` where
/// there is none yet) and says what to write and what to show. Nothing is
/// read or written here: the caller hands in the bytes and acts on the
/// outcome.
pub fn handle(cli: &Cli, stored: Option<&[u8]>, key: &Key, answers: &Answers) -> (r: Result<
    Outcome,
    VaultError,
>)
    ensures
        handle_returns(cli.command, stored_bytes(stored), key@, *answers, r),
{
    match &cli.command {
        Commands::Init => init(key),
        Commands::Add { generate, length } => {
            match Vault::load(stored, key) {
                Ok(vault) => add_entry(vault, *generate, *length, answers, key),
                Err(e) => Err(e),
            }
        },
        Commands::List => {
            match Vault::load(stored, key) {
                Ok(vault) => Ok(Outcome::Listed { names: vault.names() }),
                Err(e) => Err(e),
            }
        },
        Commands::Get { name } => {
            match Vault::load(stored, key) {
                Ok(vault) => get(&vault, name.as_str()),
                Err(e) => Err(e),
            }
        },
        Commands::Search { query } => {
            match Vault::load(stored, key) {
                Ok(vault) => Ok(Outcome::Matched { names: vault.search(query.as_str()) }),
                Err(e) => Err(e),
            }
        },
    }
}

} // verus!
