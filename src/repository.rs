//! The entry repository: the document of entries kept in memory, and the
//! operations that find, list, read, create, update and delete them. After
//! every change the caller writes the whole document out in one write.
use vstd::prelude::*;

use crate::cipher::{
    decrypt_value, derive_entry_key, encrypt_value, entry_key_spec, fits_keystream,
    lemma_seal_open_round_trip, open_spec,
    seal_spec, EncryptedValue, SealedValue, VaultKey, NONCE_LEN,
};
use crate::entry::{
    entry_from_raw, entry_to_raw, entry_well_formed, field_from_raw, field_to_raw,
    field_well_formed, lemma_tag_round_trip, DBField, DecryptedField, Entry, EntryView, OpenedField, PlainField,
    RawEntry, RawEntryView, StoredField, StoredFieldView, text_result_view,
};
use crate::errors::{AppError, DecryptError, EntryError, StorageError};

verus! {

/// Whether `i` is the first place in `doc` where an entry is called `name`.
pub open spec fn is_first_match(doc: Seq<EntryView>, name: Seq<char>, i: int) -> bool {
    &&& 0 <= i < doc.len()
    &&& doc[i].name == name
    &&& forall|j: int| 0 <= j < i ==> (#[trigger] doc[j]).name != name
}

/// Whether some entry of `doc` is called `name`.
pub open spec fn has_name(doc: Seq<EntryView>, name: Seq<char>) -> bool {
    exists|i: int| 0 <= i < doc.len() && (#[trigger] doc[i]).name == name
}

/// The first place in `doc` where an entry is called `name`, or -1.
pub open spec fn first_match(doc: Seq<EntryView>, name: Seq<char>) -> int {
    if exists|i: int| is_first_match(doc, name, i) {
        choose|i: int| is_first_match(doc, name, i)
    } else {
        -1
    }
}

pub proof fn lemma_first_match_unique(doc: Seq<EntryView>, name: Seq<char>, i: int)
    requires
        is_first_match(doc, name, i),
    ensures
        first_match(doc, name) == i,
{
    let c = first_match(doc, name);
    assert(is_first_match(doc, name, c));
    if c < i {
        assert(doc[c].name != name);
    } else if c > i {
        assert(doc[i].name != name);
    }
}

/// A field read back under `key`.
pub open spec fn open_field(key: Seq<u8>, f: StoredFieldView) -> OpenedField {
    OpenedField { kind: f.kind, values: f.values.map_values(|v: SealedValue| open_spec(key, v)) }
}

/// Every field of an entry read back under its entry key.
pub open spec fn open_entry(vault_key: Seq<char>, e: EntryView) -> Seq<OpenedField> {
    e.fields.map_values(|f: StoredFieldView| open_field(entry_key_spec(vault_key, e.name), f))
}

/// What viewing the entry called `name` gives: the first such entry read
/// back, or `NotFound`.
pub open spec fn view_spec(doc: Seq<EntryView>, vault_key: Seq<char>, name: Seq<char>) -> Result<
    Seq<OpenedField>,
    EntryError,
> {
    if has_name(doc, name) {
        Ok(open_entry(vault_key, doc[first_match(doc, name)]))
    } else {
        Err(EntryError::NotFound)
    }
}

/// Whether `v` is `plaintext` sealed under `key` with some nonce.
pub open spec fn is_seal_of(key: Seq<u8>, v: SealedValue, plaintext: Seq<char>) -> bool {
    exists|n: Seq<u8>| n.len() == NONCE_LEN && v == #[trigger] seal_spec(key, n, plaintext)
}

/// Whether the stored field `f` is the plaintext field `p` sealed under
/// `key`, value by value.
pub open spec fn field_seals(key: Seq<u8>, f: StoredFieldView, p: PlainField) -> bool {
    &&& f.kind == p.kind
    &&& f.values.len() == p.values.len()
    &&& forall|j: int| 0 <= j < p.values.len() ==> is_seal_of(key, #[trigger] f.values[j], p.values[j])
}

/// Whether each plaintext field holds as many values as its kind asks for.
pub open spec fn arity_ok(fields: Seq<PlainField>) -> bool {
    forall|i: int| 0 <= i < fields.len() ==> (#[trigger] fields[i]).values.len() == fields[i].kind.arity_spec()
}

/// Whether every value of the plaintext fields fits one keystream.
pub open spec fn values_fit(fields: Seq<PlainField>) -> bool {
    forall|i: int, j: int|
        0 <= i < fields.len() && 0 <= j < fields[i].values.len() ==> fits_keystream(
            #[trigger] fields[i].values[j],
        )
}

/// Whether `e` is the entry called `name` holding the plaintext fields,
/// sealed under the entry key derived from `vault_key`.
pub open spec fn created_as(vault_key: Seq<char>, name: Seq<char>, plain: Seq<PlainField>, e: EntryView) -> bool {
    &&& e.name == name
    &&& e.fields.len() == plain.len()
    &&& forall|i: int|
        0 <= i < plain.len() ==> field_seals(entry_key_spec(vault_key, name), #[trigger] e.fields[i], plain[i])
}

/// Whether `new_e` is `old_e` with the field at `idx` holding `values`,
/// sealed afresh, and every other field as it was.
pub open spec fn updated_as(
    vault_key: Seq<char>,
    old_e: EntryView,
    idx: int,
    values: Seq<Seq<char>>,
    new_e: EntryView,
) -> bool {
    &&& new_e.name == old_e.name
    &&& new_e.fields.len() == old_e.fields.len()
    &&& forall|j: int| 0 <= j < old_e.fields.len() && j != idx ==> #[trigger] new_e.fields[j] == old_e.fields[j]
    &&& field_seals(
        entry_key_spec(vault_key, old_e.name),
        new_e.fields[idx],
        PlainField { kind: old_e.fields[idx].kind, values },
    )
}

/// Whether no two entries of `doc` share a name.
pub open spec fn names_unique(doc: Seq<EntryView>) -> bool {
    forall|i: int, j: int| 0 <= i < j < doc.len() ==> (#[trigger] doc[i]).name != (#[trigger] doc[j]).name
}

/// Removing the entries of one name keeps the names of the rest unique.
pub proof fn lemma_without_name_keeps_unique(doc: Seq<EntryView>, name: Seq<char>)
    requires
        names_unique(doc),
    ensures
        names_unique(without_name(doc, name)),
        forall|k: int|
            0 <= k < without_name(doc, name).len() ==> exists|j: int|
                0 <= j < doc.len() && #[trigger] without_name(doc, name)[k] == doc[j],
    decreases doc.len(),
{
    if doc.len() > 0 {
        let rest = doc.drop_last();
        let last = doc.last();
        assert forall|i: int, j: int| 0 <= i < j < rest.len() implies (#[trigger] rest[i]).name
            != (#[trigger] rest[j]).name by {
            assert(rest[i] == doc[i] && rest[j] == doc[j]);
        }
        lemma_without_name_keeps_unique(rest, name);
        let w = without_name(rest, name);
        reveal(Seq::filter);
        assert forall|k: int| 0 <= k < w.len() implies (#[trigger] w[k]).name != last.name by {
            let j = choose|j: int| 0 <= j < rest.len() && w[k] == rest[j];
            assert(rest[j] == doc[j]);
            assert(doc[j].name != doc[doc.len() - 1].name);
        }
        if last.name != name {
            assert(without_name(doc, name) == w.push(last));
            let out = w.push(last);
            assert forall|k: int| 0 <= k < out.len() implies exists|j: int|
                0 <= j < doc.len() && #[trigger] out[k] == doc[j] by {
                if k < w.len() {
                    let j = choose|j: int| 0 <= j < rest.len() && w[k] == rest[j];
                    assert(out[k] == doc[j]);
                } else {
                    assert(out[k] == doc[doc.len() - 1]);
                }
            }
            assert forall|i: int, j: int| 0 <= i < j < out.len() implies (#[trigger] out[i]).name
                != (#[trigger] out[j]).name by {
                if j == w.len() {
                    assert(out[i] == w[i]);
                } else {
                    assert(out[i] == w[i] && out[j] == w[j]);
                }
            }
        } else {
            assert(without_name(doc, name) == w);
            assert forall|k: int| 0 <= k < w.len() implies exists|j: int|
                0 <= j < doc.len() && #[trigger] w[k] == doc[j] by {
                let j = choose|j: int| 0 <= j < rest.len() && w[k] == rest[j];
                assert(w[k] == doc[j]);
            }
        }
    }
}

/// `doc` without the entries called `name`, the others in order.
pub open spec fn without_name(doc: Seq<EntryView>, name: Seq<char>) -> Seq<EntryView> {
    doc.filter(|e: EntryView| e.name != name)
}

/// Why an update of field `idx` of the entry called `name`, with `n` new
/// values, is refused, if it is.
pub open spec fn update_refusal(doc: Seq<EntryView>, name: Seq<char>, idx: int, n: nat) -> Option<EntryError> {
    if !has_name(doc, name) {
        Some(EntryError::NotFound)
    } else if idx >= doc[first_match(doc, name)].fields.len() {
        Some(EntryError::NotFound)
    } else if n != doc[first_match(doc, name)].fields[idx].kind.arity_spec() {
        Some(EntryError::WrongArity)
    } else {
        None
    }
}

/// The document that raw entries stand for: present when every entry is.
pub open spec fn document_from_raw(raw: Seq<RawEntryView>) -> Option<Seq<EntryView>> {
    if forall|i: int| 0 <= i < raw.len() ==> (#[trigger] entry_from_raw(raw[i])) is Some {
        Some(raw.map_values(|r: RawEntryView| entry_from_raw(r)->Some_0))
    } else {
        None
    }
}

pub open spec fn document_well_formed(doc: Seq<EntryView>) -> bool {
    forall|i: int| 0 <= i < doc.len() ==> entry_well_formed(#[trigger] doc[i])
}

/// The plaintext fields as `view_entry` gives them back: every value read
/// successfully.
pub open spec fn opened_plain(plain: Seq<PlainField>) -> Seq<OpenedField> {
    plain.map_values(
        |p: PlainField|
            OpenedField {
                kind: p.kind,
                values: p.values.map_values(|v: Seq<char>| Ok::<Seq<char>, DecryptError>(v)),
            },
    )
}

/// A sealed value opens, under the key it was sealed with, to its
/// plaintext.
pub proof fn lemma_seal_of_opens(key: Seq<u8>, v: SealedValue, plaintext: Seq<char>)
    requires
        is_seal_of(key, v, plaintext),
        fits_keystream(plaintext),
    ensures
        open_spec(key, v) == Ok::<Seq<char>, DecryptError>(plaintext),
{
    let n = choose|n: Seq<u8>| n.len() == NONCE_LEN && v == #[trigger] seal_spec(key, n, plaintext);
    lemma_seal_open_round_trip(key, n, plaintext);
}

/// Viewing an entry right after creating it gives back each field's
/// plaintext, value for value.
pub proof fn lemma_view_after_create(
    old_doc: Seq<EntryView>,
    new_doc: Seq<EntryView>,
    vault_key: Seq<char>,
    name: Seq<char>,
    plain: Seq<PlainField>,
)
    requires
        !has_name(old_doc, name),
        values_fit(plain),
        new_doc.len() == old_doc.len() + 1,
        new_doc.take(old_doc.len() as int) == old_doc,
        created_as(vault_key, name, plain, new_doc.last()),
    ensures
        view_spec(new_doc, vault_key, name) == Ok::<Seq<OpenedField>, EntryError>(opened_plain(plain)),
{
    let i = old_doc.len() as int;
    assert forall|j: int| 0 <= j < i implies (#[trigger] new_doc[j]).name != name by {
        assert(new_doc[j] == new_doc.take(i)[j]);
        assert(old_doc[j].name != name);
    }
    assert(is_first_match(new_doc, name, i));
    lemma_first_match_unique(new_doc, name, i);
    let e = new_doc[i];
    let key = entry_key_spec(vault_key, name);
    assert forall|f: int| 0 <= f < plain.len() implies #[trigger] open_entry(vault_key, e)[f]
        == opened_plain(plain)[f] by {
        assert(field_seals(key, e.fields[f], plain[f]));
        assert forall|j: int| 0 <= j < plain[f].values.len() implies #[trigger] open_field(
            key,
            e.fields[f],
        ).values[j] == Ok::<Seq<char>, DecryptError>(plain[f].values[j]) by {
            assert(is_seal_of(key, e.fields[f].values[j], plain[f].values[j]));
            lemma_seal_of_opens(key, e.fields[f].values[j], plain[f].values[j]);
        }
        assert(open_field(key, e.fields[f]).values =~= opened_plain(plain)[f].values);
    }
    assert(open_entry(vault_key, e) =~= opened_plain(plain));
}

/// Deleting a name that no entry has leaves the document as it was.
pub proof fn lemma_delete_missing_is_noop(doc: Seq<EntryView>, name: Seq<char>)
    requires
        !has_name(doc, name),
    ensures
        without_name(doc, name) == doc,
    decreases doc.len(),
{
    if doc.len() > 0 {
        let rest = doc.drop_last();
        assert forall|i: int| 0 <= i < rest.len() implies (#[trigger] rest[i]).name != name by {
            assert(rest[i] == doc[i]);
        }
        lemma_delete_missing_is_noop(rest, name);
        reveal(Seq::filter);
        assert(doc.last() == doc[doc.len() - 1]);
        assert(rest.push(doc.last()) =~= doc);
    }
}

/// Writing out a well-formed document and reading it back gives the same
/// document.
pub proof fn lemma_export_load_round_trip(doc: Seq<EntryView>)
    requires
        document_well_formed(doc),
    ensures
        document_from_raw(doc.map_values(|e: EntryView| entry_to_raw(e))) == Some(doc),
{
    let raw = doc.map_values(|e: EntryView| entry_to_raw(e));
    assert forall|i: int| 0 <= i < raw.len() implies (#[trigger] entry_from_raw(raw[i])) == Some(
        doc[i],
    ) by {
        let e = doc[i];
        let re = raw[i];
        assert(re == entry_to_raw(e));
        assert forall|j: int| 0 <= j < re.fields.len() implies (#[trigger] field_from_raw(
            re.fields[j],
        )) == Some(e.fields[j]) by {
            let f = e.fields[j];
            assert(entry_well_formed(e));
            assert(field_well_formed(f));
            lemma_tag_round_trip(f.kind);
            let g = field_from_raw(field_to_raw(f))->Some_0;
            assert(g.values =~= f.values);
        }
        assert(entry_from_raw(re)->Some_0.fields =~= e.fields);
    }
    assert(document_from_raw(raw)->Some_0 =~= doc);
}

pub open spec fn plain_view(fields: Seq<DBField>) -> Seq<PlainField> {
    fields.map_values(|f: DBField| f@)
}

pub open spec fn raw_view(raw: Seq<RawEntry>) -> Seq<RawEntryView> {
    raw.map_values(|r: RawEntry| r@)
}

pub open spec fn opened_view(fields: Seq<DecryptedField>) -> Seq<OpenedField> {
    fields.map_values(|f: DecryptedField| f@)
}

/// Reads a stored field back under `key`, each value on its own.
fn open_stored_field(key: &[u8; 32], f: &StoredField) -> (r: DecryptedField)
    ensures
        r@ == open_field(key@, f@),
{
    let mut values: Vec<Result<String, DecryptError>> = Vec::new();
    let mut m: usize = 0;
    while m < f.values.len()
        invariant
            m <= f.values.len(),
            values@.len() == m,
            forall|t: int|
                0 <= t < m ==> crate::entry::text_result_view(#[trigger] values@[t]) == open_spec(
                    key@,
                    f.values@[t]@,
                ),
        decreases f.values.len() - m,
    {
        values.push(decrypt_value(key, &f.values[m]));
        m = m + 1;
    }
    let r = DecryptedField { kind: f.kind, values };
    assert(r@.values =~= open_field(key@, f@).values);
    r
}

/// Seals each value of a plaintext field under `key`.
fn seal_plain_field(key: &[u8; 32], f: &DBField) -> (r: StoredField)
    requires
        forall|j: int| 0 <= j < f@.values.len() ==> fits_keystream(#[trigger] f@.values[j]),
    ensures
        field_seals(key@, r@, f@),
{
    let mut values: Vec<EncryptedValue> = Vec::new();
    let mut m: usize = 0;
    while m < f.field_data.len()
        invariant
            m <= f.field_data.len(),
            values@.len() == m,
            forall|j: int| 0 <= j < f@.values.len() ==> fits_keystream(#[trigger] f@.values[j]),
            forall|t: int| 0 <= t < m ==> is_seal_of(key@, (#[trigger] values@[t])@, f@.values[t]),
        decreases f.field_data.len() - m,
    {
        assert(f@.values[m as int] == f.field_data@[m as int]@);
        values.push(encrypt_value(key, f.field_data[m].as_str()));
        m = m + 1;
    }
    StoredField { kind: f.field_type, values }
}

pub trait ProcessDB: Sized {
    /// Where the document is kept.
    spec fn path_view(&self) -> Seq<char>;

    /// The entries held, in order.
    spec fn document(&self) -> Seq<EntryView>;

    fn new(path: String) -> (r: Self)
        ensures
            r.path_view() == path@,
            r.document() == Seq::<EntryView>::empty(),
    ;

    /// Takes in the document read from its file, or why it could not be
    /// read. On any failure the entries held stay as they were.
    fn load_db(&mut self, contents: Result<Vec<RawEntry>, StorageError>) -> (r: Result<
        (),
        StorageError,
    >)
        ensures
            final(self).path_view() == old(self).path_view(),
            match contents {
                Err(e) => r == Err::<(), StorageError>(e) && final(self).document() == old(self).document(),
                Ok(raw) => match document_from_raw(raw_view(raw@)) {
                    Some(d) => r is Ok && final(self).document() == d,
                    None => r == Err::<(), StorageError>(StorageError::Malformed) && final(self).document() == old(self).document(),
                },
            },
            r is Ok ==> document_well_formed(final(self).document()),
    ;

    /// The raw layout of the whole document, to be written out.
    fn export_db(&self) -> (r: Vec<RawEntry>)
        ensures
            raw_view(r@) == self.document().map_values(|e: EntryView| entry_to_raw(e)),
    ;

    /// The names of the entries, in order.
    fn list_entries(&self) -> (r: Vec<String>)
        ensures
            r@.map_values(|s: String| s@) == self.document().map_values(|e: EntryView| e.name),
    ;

    /// The first entry called `name`.
    fn find_entry(&self, name: &str) -> (r: Result<&Entry, EntryError>)
        ensures
            match r {
                Ok(e) => has_name(self.document(), name@) && e@ == self.document()[first_match(
                    self.document(),
                    name@,
                )],
                Err(err) => err == EntryError::NotFound && !has_name(self.document(), name@),
            },
    ;

    /// Reads back every field of the first entry called `name`.
    fn view_entry(&self, key: &VaultKey, name: &str) -> (r: Result<Vec<DecryptedField>, EntryError>)
        ensures
            match r {
                Ok(fields) => view_spec(self.document(), key@, name@) == Ok::<
                    Seq<OpenedField>,
                    EntryError,
                >(opened_view(fields@)),
                Err(e) => view_spec(self.document(), key@, name@) == Err::<
                    Seq<OpenedField>,
                    EntryError,
                >(e),
            },
    ;

    /// Adds an entry called `name` holding `fields`, each value sealed under
    /// the entry's key with a fresh nonce.
    fn create_entry(&mut self, key: &VaultKey, name: &str, fields: Vec<DBField>) -> (r: Result<
        (),
        EntryError,
    >)
        requires
            values_fit(plain_view(fields@)),
        ensures
            final(self).path_view() == old(self).path_view(),
            has_name(old(self).document(), name@) ==> r == Err::<(), EntryError>(
                EntryError::DuplicateName,
            ),
            !has_name(old(self).document(), name@) && !arity_ok(plain_view(fields@)) ==> r
                == Err::<(), EntryError>(EntryError::WrongArity),
            !has_name(old(self).document(), name@) && arity_ok(plain_view(fields@)) ==> r is Ok,
            r is Err ==> final(self).document() == old(self).document(),
            r is Ok ==> {
                &&& final(self).document().len() == old(self).document().len() + 1
                &&& final(self).document().take(old(self).document().len() as int) == old(self).document()
                &&& created_as(key@, name@, plain_view(fields@), final(self).document().last())
            },
            document_well_formed(old(self).document()) ==> document_well_formed(
                final(self).document(),
            ),
            names_unique(old(self).document()) ==> names_unique(final(self).document()),
    ;

    /// Seals `values` afresh into field `field_index` of the first entry
    /// called `name`, keeping every other field and entry as it was.
    fn update_entry(&mut self, key: &VaultKey, name: &str, field_index: usize, values: Vec<String>) -> (r:
        Result<(), EntryError>)
        requires
            forall|j: int| 0 <= j < values@.len() ==> fits_keystream(#[trigger] values@[j]@),
        ensures
            final(self).path_view() == old(self).path_view(),
            match update_refusal(old(self).document(), name@, field_index as int, values@.len()) {
                Some(e) => r == Err::<(), EntryError>(e) && final(self).document() == old(self).document(),
                None => {
                    let i = first_match(old(self).document(), name@);
                    &&& r is Ok
                    &&& final(self).document().len() == old(self).document().len()
                    &&& forall|k: int|
                        0 <= k < old(self).document().len() && k != i ==> #[trigger] final(self).document()[k] == old(self).document()[k]
                    &&& updated_as(
                        key@,
                        old(self).document()[i],
                        field_index as int,
                        values@.map_values(|s: String| s@),
                        final(self).document()[i],
                    )
                },
            },
            document_well_formed(old(self).document()) ==> document_well_formed(
                final(self).document(),
            ),
            names_unique(old(self).document()) ==> names_unique(final(self).document()),
    ;

    /// Removes every entry called `name`; where there is none, nothing
    /// changes.
    fn delete_entry(&mut self, name: &str)
        ensures
            final(self).path_view() == old(self).path_view(),
            final(self).document() == without_name(old(self).document(), name@),
            names_unique(old(self).document()) ==> names_unique(final(self).document()),
    ;
}

/// The backing file's path and the entries held.
pub struct DBHandler {
    path: String,
    entries: Vec<Entry>,
}

impl DBHandler {
    /// The first place where an entry is called `name`.
    fn find_index(&self, name: &String) -> (r: Option<usize>)
        ensures
            match r {
                Some(i) => is_first_match(self.document(), name@, i as int),
                None => !has_name(self.document(), name@),
            },
    {
        let mut i: usize = 0;
        while i < self.entries.len()
            invariant
                i <= self.entries.len(),
                self.document().len() == self.entries@.len(),
                forall|j: int| 0 <= j < i ==> (#[trigger] self.document()[j]).name != name@,
            decreases self.entries.len() - i,
        {
            if self.entries[i].name == *name {
                return Some(i);
            }
            i = i + 1;
        }
        None
    }

    pub fn get_path(&self) -> (r: String)
        ensures
            r@ == self.path_view(),
    {
        self.path.clone()
    }
}

impl ProcessDB for DBHandler {
    closed spec fn path_view(&self) -> Seq<char> {
        self.path@
    }

    closed spec fn document(&self) -> Seq<EntryView> {
        self.entries@.map_values(|e: Entry| e@)
    }

    fn new(path: String) -> (r: Self) {
        let r = DBHandler { path, entries: Vec::new() };
        assert(r.document() =~= Seq::<EntryView>::empty());
        r
    }

    fn load_db(&mut self, contents: Result<Vec<RawEntry>, StorageError>) -> (r: Result<
        (),
        StorageError,
    >) {
        let raw = match contents {
            Ok(raw) => raw,
            Err(e) => return Err(e),
        };
        let mut entries: Vec<Entry> = Vec::new();
        let mut i: usize = 0;
        while i < raw.len()
            invariant
                contents == Ok::<Vec<RawEntry>, StorageError>(raw),
                self.document() == old(self).document(),
                self.path_view() == old(self).path_view(),
                i <= raw.len(),
                entries@.len() == i,
                forall|k: int|
                    0 <= k < i ==> entry_from_raw(raw@[k]@) == Some((#[trigger] entries@[k])@),
            decreases raw.len() - i,
        {
            match Entry::from_raw(&raw[i]) {
                Some(e) => entries.push(e),
                None => {
                    assert(entry_from_raw(raw_view(raw@)[i as int]) is None);
                    assert(document_from_raw(raw_view(raw@)) is None);
                    return Err(StorageError::Malformed);
                },
            }
            i = i + 1;
        }
        assert forall|k: int| 0 <= k < raw_view(raw@).len() implies (#[trigger] entry_from_raw(
            raw_view(raw@)[k],
        )) is Some by {
            assert(entry_from_raw(raw@[k]@) == Some(entries@[k]@));
        }
        self.entries = entries;
        assert(self.document() =~= document_from_raw(raw_view(raw@))->Some_0);
        assert forall|k: int| 0 <= k < self.document().len() implies entry_well_formed(
            #[trigger] self.document()[k],
        ) by {
            assert(entry_from_raw(raw@[k]@) == Some(entries@[k]@));
            let re = raw@[k]@;
            assert forall|j: int| 0 <= j < self.document()[k].fields.len() implies field_well_formed(
                #[trigger] self.document()[k].fields[j],
            ) by {
                assert(field_from_raw(re.fields[j]) is Some);
            }
        }
        Ok(())
    }

    fn export_db(&self) -> (r: Vec<RawEntry>) {
        let mut out: Vec<RawEntry> = Vec::new();
        let mut i: usize = 0;
        while i < self.entries.len()
            invariant
                i <= self.entries.len(),
                out@.len() == i,
                forall|k: int| 0 <= k < i ==> (#[trigger] out@[k])@ == entry_to_raw(self.entries@[k]@),
            decreases self.entries.len() - i,
        {
            out.push(self.entries[i].to_raw());
            i = i + 1;
        }
        assert(raw_view(out@) =~= self.document().map_values(|e: EntryView| entry_to_raw(e)));
        out
    }

    fn list_entries(&self) -> (r: Vec<String>) {
        let mut out: Vec<String> = Vec::new();
        let mut i: usize = 0;
        while i < self.entries.len()
            invariant
                i <= self.entries.len(),
                out@.len() == i,
                forall|k: int| 0 <= k < i ==> (#[trigger] out@[k])@ == self.entries@[k].name@,
            decreases self.entries.len() - i,
        {
            out.push(self.entries[i].name.clone());
            i = i + 1;
        }
        assert(out@.map_values(|s: String| s@) =~= self.document().map_values(|e: EntryView| e.name));
        out
    }

    fn find_entry(&self, name: &str) -> (r: Result<&Entry, EntryError>) {
        let wanted = name.to_owned();
        match self.find_index(&wanted) {
            Some(i) => {
                proof {
                    lemma_first_match_unique(self.document(), name@, i as int);
                }
                Ok(&self.entries[i])
            },
            None => Err(EntryError::NotFound),
        }
    }

    fn view_entry(&self, key: &VaultKey, name: &str) -> (r: Result<Vec<DecryptedField>, EntryError>) {
        let wanted = name.to_owned();
        let i = match self.find_index(&wanted) {
            Some(i) => i,
            None => return Err(EntryError::NotFound),
        };
        proof {
            lemma_first_match_unique(self.document(), name@, i as int);
        }
        let entry = &self.entries[i];
        let entry_key = derive_entry_key(key, name);
        let mut out: Vec<DecryptedField> = Vec::new();
        let mut j: usize = 0;
        while j < entry.fields.len()
            invariant
                j <= entry.fields.len(),
                out@.len() == j,
                forall|k: int|
                    0 <= k < j ==> (#[trigger] out@[k])@ == open_field(entry_key@, entry.fields@[k]@),
            decreases entry.fields.len() - j,
        {
            out.push(open_stored_field(&entry_key, &entry.fields[j]));
            j = j + 1;
        }
        assert(opened_view(out@) =~= open_entry(key@, self.document()[i as int]));
        Ok(out)
    }

    fn create_entry(&mut self, key: &VaultKey, name: &str, fields: Vec<DBField>) -> (r: Result<
        (),
        EntryError,
    >) {
        let wanted = name.to_owned();
        if self.find_index(&wanted).is_some() {
            return Err(EntryError::DuplicateName);
        }
        let mut i: usize = 0;
        while i < fields.len()
            invariant
                !has_name(old(self).document(), name@),
                self.document() == old(self).document(),
                i <= fields.len(),
                forall|k: int|
                    0 <= k < i ==> (#[trigger] plain_view(fields@)[k]).values.len()
                        == plain_view(fields@)[k].kind.arity_spec(),
            decreases fields.len() - i,
        {
            if fields[i].field_data.len() != fields[i].field_type.arity() {
                assert(plain_view(fields@)[i as int].values.len() != plain_view(
                    fields@,
                )[i as int].kind.arity_spec());
                return Err(EntryError::WrongArity);
            }
            i = i + 1;
        }
        let entry_key = derive_entry_key(key, name);
        let mut stored: Vec<StoredField> = Vec::new();
        let mut j: usize = 0;
        while j < fields.len()
            invariant
                j <= fields.len(),
                stored@.len() == j,
                values_fit(plain_view(fields@)),
                arity_ok(plain_view(fields@)),
                entry_key@ == entry_key_spec(key@, name@),
                forall|k: int|
                    0 <= k < j ==> field_seals(
                        entry_key@,
                        (#[trigger] stored@[k])@,
                        plain_view(fields@)[k],
                    ),
            decreases fields.len() - j,
        {
            assert(plain_view(fields@)[j as int] == fields@[j as int]@);
            stored.push(seal_plain_field(&entry_key, &fields[j]));
            j = j + 1;
        }
        let ghost old_doc = self.document();
        let entry = Entry { name: wanted, fields: stored };
        proof {
            assert forall|k: int| 0 <= k < entry@.fields.len() implies field_well_formed(
                #[trigger] entry@.fields[k],
            ) by {
                assert(field_seals(entry_key@, stored@[k]@, plain_view(fields@)[k]));
            }
        }
        self.entries.push(entry);
        assert(self.document() =~= old_doc.push(entry@));
        assert(self.document().take(old_doc.len() as int) =~= old_doc);
        Ok(())
    }

    fn update_entry(&mut self, key: &VaultKey, name: &str, field_index: usize, values: Vec<String>) -> (r:
        Result<(), EntryError>) {
        let ghost old_doc = self.document();
        let wanted = name.to_owned();
        let i = match self.find_index(&wanted) {
            Some(i) => i,
            None => return Err(EntryError::NotFound),
        };
        proof {
            lemma_first_match_unique(old_doc, name@, i as int);
        }
        if field_index >= self.entries[i].fields.len() {
            return Err(EntryError::NotFound);
        }
        let kind = self.entries[i].fields[field_index].kind;
        if values.len() != kind.arity() {
            return Err(EntryError::WrongArity);
        }
        let entry_key = derive_entry_key(key, name);
        let plain = DBField { field_type: kind, field_data: values };
        let new_field = seal_plain_field(&entry_key, &plain);
        let mut entry = self.entries.remove(i);
        let ghost old_entry = entry@;
        entry.fields[field_index] = new_field;
        assert(entry@.fields =~= old_entry.fields.update(field_index as int, new_field@));
        self.entries.insert(i, entry);
        assert(self.document() =~= old_doc.update(i as int, entry@));
        assert(names_unique(old_doc) ==> names_unique(self.document())) by {
            if names_unique(old_doc) {
                assert forall|a: int, b: int| 0 <= a < b < self.document().len() implies (
                #[trigger] self.document()[a]).name != (#[trigger] self.document()[b]).name by {
                    assert(old_doc[a].name != old_doc[b].name);
                }
            }
        }
        Ok(())
    }

    fn delete_entry(&mut self, name: &str) {
        let ghost old_doc = self.document();
        let wanted = name.to_owned();
        let mut kept: Vec<Entry> = Vec::new();
        let mut i: usize = 0;
        while i < self.entries.len()
            invariant
                i <= self.entries.len(),
                old_doc == self.document(),
                wanted@ == name@,
                kept@.map_values(|e: Entry| e@) == without_name(old_doc.take(i as int), name@),
            decreases self.entries.len() - i,
        {
            let ghost before = kept@.map_values(|e: Entry| e@);
            if !(self.entries[i].name == wanted) {
                kept.push(self.entries[i].clone_entry());
                assert(kept@.map_values(|e: Entry| e@) =~= before.push(old_doc[i as int]));
            } else {
                assert(kept@.map_values(|e: Entry| e@) =~= before);
            }
            proof {
                let s = old_doc.take(i as int + 1);
                assert(s.drop_last() =~= old_doc.take(i as int));
                assert(s.last() == old_doc[i as int]);
                reveal(Seq::filter);
                assert(without_name(s, name@) == if old_doc[i as int].name != name@ {
                    without_name(old_doc.take(i as int), name@).push(old_doc[i as int])
                } else {
                    without_name(old_doc.take(i as int), name@)
                });
            }
            i = i + 1;
        }
        assert(old_doc.take(old_doc.len() as int) =~= old_doc);
        proof {
            if names_unique(old_doc) {
                lemma_without_name_keeps_unique(old_doc, name@);
            }
        }
        self.entries = kept;
    }
}

/// One of the operations the operator may pick.
#[derive(Clone, Copy, Debug, PartialEq, Eq, Structural)]
pub enum DBOperation {
    List,
    View,
    Create,
    Update,
    Delete,
    Exit,
}

/// The operation whose label is `label`, if any.
pub open spec fn operation_of_label(label: Seq<char>) -> Option<DBOperation> {
    if label == "List"@ {
        Some(DBOperation::List)
    } else if label == "View"@ {
        Some(DBOperation::View)
    } else if label == "Create"@ {
        Some(DBOperation::Create)
    } else if label == "Update"@ {
        Some(DBOperation::Update)
    } else if label == "Delete"@ {
        Some(DBOperation::Delete)
    } else if label == "Exit"@ {
        Some(DBOperation::Exit)
    } else {
        None
    }
}

impl DBOperation {
    /// The labels offered to the operator, in order.
    pub fn choices() -> (r: Vec<String>)
        ensures
            r@.map_values(|s: String| s@) == seq!["List"@, "View"@, "Create"@, "Update"@, "Delete"@, "Exit"@],
    {
        let r = vec![
            "List".to_owned(),
            "View".to_owned(),
            "Create".to_owned(),
            "Update".to_owned(),
            "Delete".to_owned(),
            "Exit".to_owned(),
        ];
        assert(r@.map_values(|s: String| s@) =~= seq!["List"@, "View"@, "Create"@, "Update"@, "Delete"@, "Exit"@]);
        r
    }

    /// The operation picked by its label.
    pub fn from_choice(choice: &str) -> (r: Result<DBOperation, AppError>)
        ensures
            match operation_of_label(choice@) {
                Some(op) => r matches Ok(o) && o == op,
                None => r matches Err(e) && e.message() == "Invalid operation."@,
            },
    {
        let c = choice.to_owned();
        if c == "List".to_owned() {
            Ok(DBOperation::List)
        } else if c == "View".to_owned() {
            Ok(DBOperation::View)
        } else if c == "Create".to_owned() {
            Ok(DBOperation::Create)
        } else if c == "Update".to_owned() {
            Ok(DBOperation::Update)
        } else if c == "Delete".to_owned() {
            Ok(DBOperation::Delete)
        } else if c == "Exit".to_owned() {
            Ok(DBOperation::Exit)
        } else {
            Err(AppError::new("Invalid operation."))
        }
    }
}

} // verus!
