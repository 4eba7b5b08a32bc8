use vstd::prelude::*;
use crate::codec::{decode, decoded, encode, encoded};
use crate::crypto::{decrypt, encrypt, opened_record, sealed_record, Key, MAX_PLAINTEXT_LEN, NONCE_SIZE};
use crate::error::VaultError;
use crate::text::{matches_query, name_matches};

verus! {

/// What an entry holds, as plain text.
pub struct EntryView {
    pub name: Seq<char>,
    pub username: Seq<char>,
    pub password: Seq<char>,
    pub url: Option<Seq<char>>,
    pub notes: Option<Seq<char>>,
}

/// One credential record. Entries are found by `name`, which need not be
/// unique within a vault.
#[derive(Debug, Clone, PartialEq, Eq)]
pub struct Entry {
    pub name: String,
    pub username: String,
    pub password: String,
    pub url: Option<String>,
    pub notes: Option<String>,
}

impl View for Entry {
    type V = EntryView;

    open spec fn view(&self) -> EntryView {
        EntryView {
            name: self.name@,
            username: self.username@,
            password: self.password@,
            url: self.url.deep_view(),
            notes: self.notes.deep_view(),
        }
    }
}

/// An ordered collection of entries, held in memory for one invocation.
#[derive(Debug, Clone, PartialEq, Eq)]
pub struct Vault {
    pub entries: Vec<Entry>,
}

impl View for Vault {
    type V = Seq<EntryView>;

    open spec fn view(&self) -> Seq<EntryView> {
        Seq::new(self.entries@.len(), |i: int| self.entries@[i]@)
    }
}

/// The index of the first entry of that name at or after `from`, or `None`.
pub open spec fn first_named(entries: Seq<EntryView>, name: Seq<char>, from: int) -> Option<int>
    decreases entries.len() - from,
{
    if from < 0 || from >= entries.len() {
        None
    } else if entries[from].name == name {
        Some(from)
    } else {
        first_named(entries, name, from + 1)
    }
}

/// What `first_named` finds is the first entry of that name at or after
/// `from`: it has the name, and no entry between `from` and it has.
pub proof fn lemma_first_named(entries: Seq<EntryView>, name: Seq<char>, from: int)
    requires
        0 <= from,
    ensures
        match first_named(entries, name, from) {
            Some(i) => {
                &&& from <= i < entries.len()
                &&& entries[i].name == name
                &&& forall|j: int| from <= j < i ==> entries[j].name != name
            },
            None => forall|j: int| from <= j < entries.len() ==> entries[j].name != name,
        },
    decreases entries.len() - from,
{
    if from < entries.len() && entries[from].name != name {
        lemma_first_named(entries, name, from + 1);
    }
}

/// The names of the entries, in stored order.
pub open spec fn names_of(entries: Seq<EntryView>) -> Seq<Seq<char>> {
    Seq::new(entries.len(), |i: int| entries[i].name)
}

/// The names among `names` that answer a query, in their order.
pub open spec fn matching_names(names: Seq<Seq<char>>, query: Seq<char>) -> Seq<Seq<char>> {
    names.filter(|name: Seq<char>| matches_query(name, query))
}

/// The bytes of the vault file, where there is one.
pub open spec fn stored_bytes(stored: Option<&[u8]>) -> Option<Seq<u8>> {
    match stored {
        Some(record) => Some(record@),
        None => None,
    }
}

/// What a vault file loads to under a key. No file is the empty vault. A
/// record is opened first and decoded second: one that fails authentication
/// is never decoded.
pub open spec fn loaded(stored: Option<Seq<u8>>, key: Seq<u8>) -> Result<
    Seq<EntryView>,
    VaultError,
> {
    match stored {
        None => Ok(Seq::empty()),
        Some(record) => match opened_record(key, record) {
            None => Err(VaultError::AuthenticationFailure),
            Some(plaintext) => match decoded(plaintext) {
                Some(entries) => Ok(entries),
                None => Err(VaultError::FormatError),
            },
        },
    }
}

/// Whether `r` is what `Vault::load` returns on a vault file and a key.
pub open spec fn load_returns(stored: Option<Seq<u8>>, key: Seq<u8>, r: Result<Vault, VaultError>) -> bool {
    match r {
        Ok(vault) => loaded(stored, key) == Ok::<Seq<EntryView>, VaultError>(vault@),
        Err(e) => loaded(stored, key) == Err::<Seq<EntryView>, VaultError>(e),
    }
}

impl Vault {
    /// The empty vault.
    pub fn new() -> (vault: Vault)
        ensures
            vault@ == Seq::<EntryView>::empty(),
    {
        let vault = Vault { entries: Vec::new() };
        assert(vault@ =~= Seq::<EntryView>::empty());
        vault
    }

    /// The vault that the vault file holds, given its bytes, or the empty
    /// vault where there is no file yet. A failure leaves no vault behind.
    pub fn load(stored: Option<&[u8]>, key: &Key) -> (r: Result<Vault, VaultError>)
        ensures
            load_returns(stored_bytes(stored), key@, r),
    {
        match stored {
            None => Ok(Vault::new()),
            Some(record) => {
                let plaintext = decrypt(record, key)?;
                decode(plaintext.as_slice())
            },
        }
    }

    /// The bytes to write as the vault file: the whole vault, encoded and
    /// sealed under a fresh nonce. Loading them under the same key gives this
    /// vault back. A vault whose encoding is longer than a record can seal
    /// is refused.
    pub fn save(&self, key: &Key) -> (r: Result<Vec<u8>, VaultError>)
        ensures
            encoded(self@).len() <= MAX_PLAINTEXT_LEN ==> r is Ok,
            encoded(self@).len() > MAX_PLAINTEXT_LEN ==> r == Err::<Vec<u8>, VaultError>(
                VaultError::FormatError,
            ),
            r matches Ok(record) ==> {
                &&& record@ == sealed_record(
                    key@,
                    record@.subrange(0, NONCE_SIZE as int),
                    encoded(self@),
                )
                &&& loaded(Some(record@), key@) == Ok::<Seq<EntryView>, VaultError>(self@)
            },
    {
        let plaintext = encode(self)?;
        encrypt(plaintext.as_slice(), key)
    }

    /// Appends an entry. A name that is already present is accepted: the new
    /// entry comes after the entries stored so far.
    pub fn add(&mut self, entry: Entry)
        ensures
            final(self)@ == old(self)@.push(entry@),
    {
        self.entries.push(entry);
        assert(self@ =~= old(self)@.push(entry@));
    }

    /// The names of all entries, in stored order.
    pub fn names(&self) -> (names: Vec<String>)
        ensures
            names.deep_view() == names_of(self@),
    {
        let mut names: Vec<String> = Vec::new();
        let mut i: usize = 0;
        while i < self.entries.len()
            invariant
                i <= self.entries@.len(),
                names@.len() == i,
                forall|j: int| 0 <= j < i ==> (#[trigger] names@[j])@ == self.entries@[j].name@,
            decreases self.entries@.len() - i,
        {
            names.push(self.entries[i].name.clone());
            i = i + 1;
        }
        assert(names.deep_view() =~= names_of(self@));
        names
    }

    /// The names that hold the query, whatever the case of either, in stored
    /// order. A name that occurs twice is listed twice.
    pub fn search(&self, query: &str) -> (names: Vec<String>)
        ensures
            names.deep_view() == matching_names(names_of(self@), query@),
    {
        let ghost all = names_of(self@);
        let ghost pred = |name: Seq<char>| matches_query(name, query@);
        let mut names: Vec<String> = Vec::new();
        let mut i: usize = 0;
        proof {
            reveal(Seq::filter);
            assert(all.subrange(0, 0) =~= Seq::<Seq<char>>::empty());
        }
        while i < self.entries.len()
            invariant
                i <= self.entries@.len(),
                all == names_of(self@),
                pred == |name: Seq<char>| matches_query(name, query@),
                names.deep_view() == all.subrange(0, i as int).filter(pred),
            decreases self.entries@.len() - i,
        {
            let ghost before = names.deep_view();
            proof {
                reveal(Seq::filter);
                assert(all.subrange(0, i + 1).drop_last() =~= all.subrange(0, i as int));
                assert(all.subrange(0, i + 1).last() == self.entries@[i as int].name@);
            }
            if name_matches(self.entries[i].name.as_str(), query) {
                names.push(self.entries[i].name.clone());
                assert(names.deep_view() =~= before.push(self.entries@[i as int].name@));
            }
            i = i + 1;
        }
        assert(all.subrange(0, i as int) =~= all);
        names
    }

    /// The first entry whose name is exactly `name`, if there is one.
    pub fn find(&self, name: &str) -> (found: Option<&Entry>)
        ensures
            match first_named(self@, name@, 0) {
                Some(i) => found == Some(&self.entries@[i]),
                None => found is None,
            },
    {
        let wanted = name.to_owned();
        let mut i: usize = 0;
        while i < self.entries.len()
            invariant
                i <= self.entries@.len(),
                wanted@ == name@,
                first_named(self@, name@, 0) == first_named(self@, name@, i as int),
            decreases self.entries@.len() - i,
        {
            if self.entries[i].name == wanted {
                return Some(&self.entries[i]);
            }
            i = i + 1;
        }
        None
    }
}

} // verus!
