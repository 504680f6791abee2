//! Entries and their fields, as given in plaintext, as stored, as read back,
//! and in the raw shape of the document file.
use vstd::prelude::*;

use crate::cipher::{EncryptedValue, SealedValue};
use crate::errors::DecryptError;

verus! {

/// What a field holds. A username or a password is one value; a security
/// question is a question and its answer; any other field is a label and a
/// value.
#[derive(Clone, Copy, Debug, PartialEq, Eq, Structural)]
pub enum FieldKind {
    Username,
    Password,
    SecurityQuestion,
    Other,
}

impl FieldKind {
    /// How many values a field of this kind holds.
    pub open spec fn arity_spec(self) -> nat {
        match self {
            FieldKind::Username | FieldKind::Password => 1,
            FieldKind::SecurityQuestion | FieldKind::Other => 2,
        }
    }

    /// The name of the kind in the document file.
    pub open spec fn tag_spec(self) -> Seq<char> {
        match self {
            FieldKind::Username => "Username"@,
            FieldKind::Password => "Password"@,
            FieldKind::SecurityQuestion => "Security Question"@,
            FieldKind::Other => "Other"@,
        }
    }

    pub fn arity(&self) -> (r: usize)
        ensures
            r == self.arity_spec(),
    {
        match self {
            FieldKind::Username | FieldKind::Password => 1,
            FieldKind::SecurityQuestion | FieldKind::Other => 2,
        }
    }

    pub fn tag(&self) -> (r: String)
        ensures
            r@ == self.tag_spec(),
    {
        match self {
            FieldKind::Username => "Username".to_owned(),
            FieldKind::Password => "Password".to_owned(),
            FieldKind::SecurityQuestion => "Security Question".to_owned(),
            FieldKind::Other => "Other".to_owned(),
        }
    }

    /// Reads a kind from its name in the document file.
    pub fn from_tag(tag: &str) -> (r: Option<FieldKind>)
        ensures
            r == kind_of_tag(tag@),
    {
        let t = tag.to_owned();
        if t == "Username".to_owned() {
            Some(FieldKind::Username)
        } else if t == "Password".to_owned() {
            Some(FieldKind::Password)
        } else if t == "Security Question".to_owned() {
            Some(FieldKind::SecurityQuestion)
        } else if t == "Other".to_owned() {
            Some(FieldKind::Other)
        } else {
            None
        }
    }
}

/// The kind whose name is `tag`, if any.
pub open spec fn kind_of_tag(tag: Seq<char>) -> Option<FieldKind> {
    if tag == "Username"@ {
        Some(FieldKind::Username)
    } else if tag == "Password"@ {
        Some(FieldKind::Password)
    } else if tag == "Security Question"@ {
        Some(FieldKind::SecurityQuestion)
    } else if tag == "Other"@ {
        Some(FieldKind::Other)
    } else {
        None
    }
}

/// Reading back the name of a kind gives that kind.
pub proof fn lemma_tag_round_trip(k: FieldKind)
    ensures
        kind_of_tag(k.tag_spec()) == Some(k),
{
    reveal_strlit("Username");
    reveal_strlit("Password");
    reveal_strlit("Security Question");
    reveal_strlit("Other");
    assert("Password"@[0] != "Username"@[0]);
    assert("Security Question"@[0] != "Username"@[0]);
    assert("Security Question"@[0] != "Password"@[0]);
    assert("Other"@[0] != "Username"@[0]);
    assert("Other"@[0] != "Password"@[0]);
    assert("Other"@[0] != "Security Question"@[0]);
}

/// A field in plaintext, as the operator gives it.
pub struct DBField {
    pub field_type: FieldKind,
    pub field_data: Vec<String>,
}

pub struct PlainField {
    pub kind: FieldKind,
    pub values: Seq<Seq<char>>,
}

impl View for DBField {
    type V = PlainField;

    open spec fn view(&self) -> PlainField {
        PlainField { kind: self.field_type, values: self.field_data@.map_values(|s: String| s@) }
    }
}

/// A field at rest: its kind and its encrypted values, in order.
pub struct StoredField {
    pub kind: FieldKind,
    pub values: Vec<EncryptedValue>,
}

pub struct StoredFieldView {
    pub kind: FieldKind,
    pub values: Seq<SealedValue>,
}

impl View for StoredField {
    type V = StoredFieldView;

    open spec fn view(&self) -> StoredFieldView {
        StoredFieldView { kind: self.kind, values: self.values@.map_values(|v: EncryptedValue| v@) }
    }
}

/// A named entry at rest.
pub struct Entry {
    pub name: String,
    pub fields: Vec<StoredField>,
}

pub struct EntryView {
    pub name: Seq<char>,
    pub fields: Seq<StoredFieldView>,
}

impl View for Entry {
    type V = EntryView;

    open spec fn view(&self) -> EntryView {
        EntryView { name: self.name@, fields: self.fields@.map_values(|f: StoredField| f@) }
    }
}

/// A field read back: each value decrypted, or the reason it could not be.
pub struct DecryptedField {
    pub kind: FieldKind,
    pub values: Vec<Result<String, DecryptError>>,
}

pub struct OpenedField {
    pub kind: FieldKind,
    pub values: Seq<Result<Seq<char>, DecryptError>>,
}

pub open spec fn text_result_view(r: Result<String, DecryptError>) -> Result<Seq<char>, DecryptError> {
    match r {
        Ok(s) => Ok(s@),
        Err(e) => Err(e),
    }
}

impl View for DecryptedField {
    type V = OpenedField;

    open spec fn view(&self) -> OpenedField {
        OpenedField { kind: self.kind, values: self.values@.map_values(|r| text_result_view(r)) }
    }
}

/// A field as the document file lays it out: its kind's name, and the
/// ciphertexts and nonces paired by position.
pub struct RawField {
    pub type_tag: String,
    pub data: Vec<String>,
    pub nonce: Vec<String>,
}

pub struct RawFieldView {
    pub type_tag: Seq<char>,
    pub data: Seq<Seq<char>>,
    pub nonce: Seq<Seq<char>>,
}

impl View for RawField {
    type V = RawFieldView;

    open spec fn view(&self) -> RawFieldView {
        RawFieldView {
            type_tag: self.type_tag@,
            data: self.data@.map_values(|s: String| s@),
            nonce: self.nonce@.map_values(|s: String| s@),
        }
    }
}

/// An entry as the document file lays it out.
pub struct RawEntry {
    pub name: String,
    pub fields: Vec<RawField>,
}

pub struct RawEntryView {
    pub name: Seq<char>,
    pub fields: Seq<RawFieldView>,
}

impl View for RawEntry {
    type V = RawEntryView;

    open spec fn view(&self) -> RawEntryView {
        RawEntryView { name: self.name@, fields: self.fields@.map_values(|f: RawField| f@) }
    }
}

/// Whether a field holds as many values as its kind asks for.
pub open spec fn field_well_formed(f: StoredFieldView) -> bool {
    f.values.len() == f.kind.arity_spec()
}

pub open spec fn entry_well_formed(e: EntryView) -> bool {
    forall|j: int| 0 <= j < e.fields.len() ==> field_well_formed(#[trigger] e.fields[j])
}

/// The stored field that a raw field stands for: present when its kind is
/// known and its ciphertexts and nonces pair up in the number the kind asks.
pub open spec fn field_from_raw(r: RawFieldView) -> Option<StoredFieldView> {
    match kind_of_tag(r.type_tag) {
        Some(k) => if r.data.len() == r.nonce.len() && r.data.len() == k.arity_spec() {
            Some(
                StoredFieldView {
                    kind: k,
                    values: Seq::new(
                        r.data.len(),
                        |i: int| SealedValue { ciphertext: r.data[i], nonce: r.nonce[i] },
                    ),
                },
            )
        } else {
            None
        },
        None => None,
    }
}

/// The entry that a raw entry stands for: present when every field is.
pub open spec fn entry_from_raw(r: RawEntryView) -> Option<EntryView> {
    if forall|j: int| 0 <= j < r.fields.len() ==> (#[trigger] field_from_raw(r.fields[j])) is Some {
        Some(
            EntryView {
                name: r.name,
                fields: r.fields.map_values(|f: RawFieldView| field_from_raw(f)->Some_0),
            },
        )
    } else {
        None
    }
}

/// The raw layout of a stored field.
pub open spec fn field_to_raw(f: StoredFieldView) -> RawFieldView {
    RawFieldView {
        type_tag: f.kind.tag_spec(),
        data: f.values.map_values(|v: SealedValue| v.ciphertext),
        nonce: f.values.map_values(|v: SealedValue| v.nonce),
    }
}

pub open spec fn entry_to_raw(e: EntryView) -> RawEntryView {
    RawEntryView { name: e.name, fields: e.fields.map_values(|f: StoredFieldView| field_to_raw(f)) }
}

impl StoredField {
    /// Reads a field from its raw layout.
    pub fn from_raw(raw: &RawField) -> (r: Option<StoredField>)
        ensures
            match r {
                Some(f) => field_from_raw(raw@) == Some(f@),
                None => field_from_raw(raw@) is None,
            },
    {
        let kind = match FieldKind::from_tag(raw.type_tag.as_str()) {
            Some(k) => k,
            None => return None,
        };
        if raw.data.len() != raw.nonce.len() || raw.data.len() != kind.arity() {
            return None;
        }
        let mut values: Vec<EncryptedValue> = Vec::new();
        let mut i: usize = 0;
        while i < raw.data.len()
            invariant
                raw.data.len() == raw.nonce.len(),
                i <= raw.data.len(),
                values@.len() == i,
                forall|k: int|
                    0 <= k < i ==> (#[trigger] values@[k])@ == (SealedValue {
                        ciphertext: raw@.data[k],
                        nonce: raw@.nonce[k],
                    }),
            decreases raw.data.len() - i,
        {
            values.push(EncryptedValue { ciphertext: raw.data[i].clone(), nonce: raw.nonce[i].clone() });
            i = i + 1;
        }
        let f = StoredField { kind, values };
        assert(f@.values =~= field_from_raw(raw@)->Some_0.values);
        Some(f)
    }

    /// The raw layout of this field.
    pub fn to_raw(&self) -> (r: RawField)
        ensures
            r@ == field_to_raw(self@),
    {
        let mut data: Vec<String> = Vec::new();
        let mut nonce: Vec<String> = Vec::new();
        let mut i: usize = 0;
        while i < self.values.len()
            invariant
                i <= self.values.len(),
                data@.len() == i,
                nonce@.len() == i,
                forall|k: int| 0 <= k < i ==> (#[trigger] data@[k])@ == self.values@[k].ciphertext@,
                forall|k: int| 0 <= k < i ==> (#[trigger] nonce@[k])@ == self.values@[k].nonce@,
            decreases self.values.len() - i,
        {
            data.push(self.values[i].ciphertext.clone());
            nonce.push(self.values[i].nonce.clone());
            i = i + 1;
        }
        let r = RawField { type_tag: self.kind.tag(), data, nonce };
        assert(r@.data =~= field_to_raw(self@).data);
        assert(r@.nonce =~= field_to_raw(self@).nonce);
        r
    }

    pub fn clone_field(&self) -> (r: StoredField)
        ensures
            r@ == self@,
    {
        let mut values: Vec<EncryptedValue> = Vec::new();
        let mut i: usize = 0;
        while i < self.values.len()
            invariant
                i <= self.values.len(),
                values@.len() == i,
                forall|k: int| 0 <= k < i ==> (#[trigger] values@[k])@ == self.values@[k]@,
            decreases self.values.len() - i,
        {
            values.push(self.values[i].clone_value());
            i = i + 1;
        }
        let r = StoredField { kind: self.kind, values };
        assert(r@.values =~= self@.values);
        r
    }
}

impl Entry {
    /// Reads an entry from its raw layout.
    pub fn from_raw(raw: &RawEntry) -> (r: Option<Entry>)
        ensures
            match r {
                Some(e) => entry_from_raw(raw@) == Some(e@),
                None => entry_from_raw(raw@) is None,
            },
    {
        let mut fields: Vec<StoredField> = Vec::new();
        let mut j: usize = 0;
        while j < raw.fields.len()
            invariant
                j <= raw.fields.len(),
                fields@.len() == j,
                forall|k: int|
                    0 <= k < j ==> field_from_raw(raw@.fields[k]) == Some(
                        (#[trigger] fields@[k])@,
                    ),
            decreases raw.fields.len() - j,
        {
            match StoredField::from_raw(&raw.fields[j]) {
                Some(f) => fields.push(f),
                None => {
                    assert(field_from_raw(raw@.fields[j as int]) is None);
                    return None;
                },
            }
            j = j + 1;
        }
        let e = Entry { name: raw.name.clone(), fields };
        assert forall|k: int| 0 <= k < raw@.fields.len() implies (#[trigger] field_from_raw(
            raw@.fields[k],
        )) is Some by {
            assert(field_from_raw(raw@.fields[k]) == Some(fields@[k]@));
        }
        assert(e@.fields =~= entry_from_raw(raw@)->Some_0.fields);
        Some(e)
    }

    /// The raw layout of this entry.
    pub fn to_raw(&self) -> (r: RawEntry)
        ensures
            r@ == entry_to_raw(self@),
    {
        let mut fields: Vec<RawField> = Vec::new();
        let mut j: usize = 0;
        while j < self.fields.len()
            invariant
                j <= self.fields.len(),
                fields@.len() == j,
                forall|k: int| 0 <= k < j ==> (#[trigger] fields@[k])@ == field_to_raw(self.fields@[k]@),
            decreases self.fields.len() - j,
        {
            fields.push(self.fields[j].to_raw());
            j = j + 1;
        }
        let r = RawEntry { name: self.name.clone(), fields };
        assert(r@.fields =~= entry_to_raw(self@).fields);
        r
    }

    pub fn clone_entry(&self) -> (r: Entry)
        ensures
            r@ == self@,
    {
        let mut fields: Vec<StoredField> = Vec::new();
        let mut j: usize = 0;
        while j < self.fields.len()
            invariant
                j <= self.fields.len(),
                fields@.len() == j,
                forall|k: int| 0 <= k < j ==> (#[trigger] fields@[k])@ == self.fields@[k]@,
            decreases self.fields.len() - j,
        {
            fields.push(self.fields[j].clone_field());
            j = j + 1;
        }
        let r = Entry { name: self.name.clone(), fields };
        assert(r@.fields =~= self@.fields);
        r
    }
}

} // verus!
