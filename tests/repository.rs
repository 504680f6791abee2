use rpassman::cipher::{derive_entry_key, encrypt_value, VaultKey};
use rpassman::entry::{DBField, FieldKind, RawEntry, RawField};
use rpassman::errors::{DecryptError, EntryError, StorageError};
use rpassman::repository::{DBHandler, DBOperation, ProcessDB};

fn key() -> VaultKey {
    VaultKey::new("$argon2id$v=19$m=19456,t=2,p=1$c2FsdA$material".to_string())
}

fn field(kind: FieldKind, values: &[&str]) -> DBField {
    DBField { field_type: kind, field_data: values.iter().map(|s| s.to_string()).collect() }
}

fn texts(handler: &DBHandler, k: &VaultKey, name: &str) -> Vec<(FieldKind, Vec<Result<String, DecryptError>>)> {
    handler
        .view_entry(k, name)
        .ok()
        .unwrap()
        .into_iter()
        .map(|f| (f.kind, f.values))
        .collect()
}

fn snapshot(handler: &DBHandler) -> Vec<(String, Vec<(String, Vec<String>, Vec<String>)>)> {
    handler
        .export_db()
        .into_iter()
        .map(|e| (e.name, e.fields.into_iter().map(|f| (f.type_tag, f.data, f.nonce)).collect()))
        .collect()
}

fn sample() -> DBHandler {
    let mut h = DBHandler::new("db.json".to_string());
    let k = key();
    h.create_entry(&k, "github", vec![
        field(FieldKind::Username, &["octocat"]),
        field(FieldKind::Password, &["p@ss"]),
        field(FieldKind::SecurityQuestion, &["first pet?", "rex"]),
    ]).unwrap();
    h.create_entry(&k, "mail", vec![field(FieldKind::Other, &["pin", "1234"])]).unwrap();
    h
}

#[test]
fn create_then_view_github_password() {
    let mut h = DBHandler::new("db.json".to_string());
    let k = key();
    assert!(h.create_entry(&k, "github", vec![field(FieldKind::Password, &["p@ss"])]).is_ok());
    let got = texts(&h, &k, "github");
    assert_eq!(got, vec![(FieldKind::Password, vec![Ok("p@ss".to_string())])]);
}

#[test]
fn new_handler_is_empty() {
    let h = DBHandler::new("db.json".to_string());
    assert!(h.list_entries().is_empty());
    assert!(h.export_db().is_empty());
    assert_eq!(h.get_path(), "db.json");
}

#[test]
fn list_entries_in_order() {
    let h = sample();
    assert_eq!(h.list_entries(), vec!["github".to_string(), "mail".to_string()]);
}

#[test]
fn view_gives_every_field() {
    let h = sample();
    let k = key();
    assert_eq!(texts(&h, &k, "github"), vec![
        (FieldKind::Username, vec![Ok("octocat".to_string())]),
        (FieldKind::Password, vec![Ok("p@ss".to_string())]),
        (FieldKind::SecurityQuestion, vec![Ok("first pet?".to_string()), Ok("rex".to_string())]),
    ]);
    assert_eq!(texts(&h, &k, "mail"), vec![(FieldKind::Other, vec![Ok("pin".to_string()), Ok("1234".to_string())])]);
}

#[test]
fn view_missing_entry_is_not_found() {
    let h = sample();
    assert_eq!(h.view_entry(&key(), "GitHub").err(), Some(EntryError::NotFound));
}

#[test]
fn stored_values_are_not_plaintext() {
    let h = sample();
    let snap = snapshot(&h);
    let (_, data, nonce) = &snap[0].1[1];
    assert_eq!(data.len(), 1);
    assert_ne!(data[0], "p@ss");
    assert_eq!(data[0].len(), 8);
    assert_eq!(nonce[0].len(), 24);
    assert_eq!(snap[0].1[2].0, "Security Question");
}

#[test]
fn create_duplicate_name_is_refused() {
    let mut h = sample();
    let before = snapshot(&h);
    let r = h.create_entry(&key(), "github", vec![field(FieldKind::Password, &["x"])]);
    assert_eq!(r, Err(EntryError::DuplicateName));
    assert_eq!(snapshot(&h), before);
}

#[test]
fn create_with_wrong_arity_is_refused() {
    let mut h = sample();
    let before = snapshot(&h);
    let r = h.create_entry(&key(), "bank", vec![field(FieldKind::SecurityQuestion, &["only the question"])]);
    assert_eq!(r, Err(EntryError::WrongArity));
    let r = h.create_entry(&key(), "bank", vec![field(FieldKind::Password, &["a", "b"])]);
    assert_eq!(r, Err(EntryError::WrongArity));
    assert_eq!(snapshot(&h), before);
}

#[test]
fn create_entry_with_no_fields() {
    let mut h = DBHandler::new("db.json".to_string());
    assert!(h.create_entry(&key(), "empty", vec![]).is_ok());
    assert_eq!(texts(&h, &key(), "empty"), vec![]);
}

#[test]
fn update_first_field_changes_only_that_field() {
    let mut h = sample();
    let k = key();
    let before = snapshot(&h);
    assert!(h.update_entry(&k, "github", 0, vec!["monalisa".to_string()]).is_ok());
    let after = snapshot(&h);
    assert_eq!(after.len(), before.len());
    assert_eq!(after[1], before[1]);
    assert_eq!(after[0].0, before[0].0);
    assert_eq!(after[0].1[1], before[0].1[1]);
    assert_eq!(after[0].1[2], before[0].1[2]);
    assert_eq!(after[0].1[0].0, "Username");
    assert_ne!(after[0].1[0].1, before[0].1[0].1);
    assert_ne!(after[0].1[0].2, before[0].1[0].2);
    assert_eq!(texts(&h, &k, "github")[0], (FieldKind::Username, vec![Ok("monalisa".to_string())]));
}

#[test]
fn update_second_value_pair() {
    let mut h = sample();
    let k = key();
    assert!(h.update_entry(&k, "github", 2, vec!["city?".to_string(), "paris".to_string()]).is_ok());
    assert_eq!(texts(&h, &k, "github")[2], (FieldKind::SecurityQuestion, vec![Ok("city?".to_string()), Ok("paris".to_string())]));
}

#[test]
fn update_refusals() {
    let mut h = sample();
    let k = key();
    let before = snapshot(&h);
    assert_eq!(h.update_entry(&k, "nope", 0, vec!["x".to_string()]), Err(EntryError::NotFound));
    assert_eq!(h.update_entry(&k, "github", 3, vec!["x".to_string()]), Err(EntryError::NotFound));
    assert_eq!(h.update_entry(&k, "github", 0, vec!["x".to_string(), "y".to_string()]), Err(EntryError::WrongArity));
    assert_eq!(snapshot(&h), before);
}

#[test]
fn delete_missing_entry_changes_nothing() {
    let mut h = sample();
    let before = snapshot(&h);
    h.delete_entry("does not exist");
    assert_eq!(snapshot(&h), before);
}

#[test]
fn delete_removes_the_entry() {
    let mut h = sample();
    h.delete_entry("github");
    assert_eq!(h.list_entries(), vec!["mail".to_string()]);
    assert_eq!(h.view_entry(&key(), "github").err(), Some(EntryError::NotFound));
    h.delete_entry("github");
    assert_eq!(h.list_entries(), vec!["mail".to_string()]);
}

fn raw_field(tag: &str, data: &[&str], nonce: &[&str]) -> RawField {
    RawField {
        type_tag: tag.to_string(),
        data: data.iter().map(|s| s.to_string()).collect(),
        nonce: nonce.iter().map(|s| s.to_string()).collect(),
    }
}

#[test]
fn load_malformed_document_keeps_state() {
    let mut h = sample();
    let before = snapshot(&h);
    let unknown_kind = vec![RawEntry { name: "x".to_string(), fields: vec![raw_field("Pasword", &["00"], &["00"])] }];
    assert_eq!(h.load_db(Ok(unknown_kind)), Err(StorageError::Malformed));
    let unpaired = vec![RawEntry { name: "x".to_string(), fields: vec![raw_field("Password", &["00"], &[])] }];
    assert_eq!(h.load_db(Ok(unpaired)), Err(StorageError::Malformed));
    let wrong_arity = vec![RawEntry { name: "x".to_string(), fields: vec![raw_field("Other", &["00"], &["00"])] }];
    assert_eq!(h.load_db(Ok(wrong_arity)), Err(StorageError::Malformed));
    assert_eq!(h.load_db(Err(StorageError::Malformed)), Err(StorageError::Malformed));
    assert_eq!(h.load_db(Err(StorageError::Unreadable)), Err(StorageError::Unreadable));
    assert_eq!(snapshot(&h), before);
}

#[test]
fn export_then_load_round_trips() {
    let h = sample();
    let mut other = DBHandler::new("copy.json".to_string());
    assert!(other.load_db(Ok(h.export_db())).is_ok());
    assert_eq!(snapshot(&other), snapshot(&h));
    assert_eq!(texts(&other, &key(), "mail"), texts(&h, &key(), "mail"));
}

#[test]
fn load_empty_document() {
    let mut h = sample();
    assert!(h.load_db(Ok(vec![])).is_ok());
    assert!(h.list_entries().is_empty());
}

#[test]
fn corrupt_value_does_not_hide_the_others() {
    let k = key();
    let ek = derive_entry_key(&k, "site");
    let good = encrypt_value(&ek, "visible");
    let raw = vec![RawEntry {
        name: "site".to_string(),
        fields: vec![
            raw_field("Other", &["zz", &good.ciphertext], &["00", &good.nonce]),
            raw_field("Username", &["0102"], &["00"]),
        ],
    }];
    let mut h = DBHandler::new("db.json".to_string());
    assert!(h.load_db(Ok(raw)).is_ok());
    assert_eq!(texts(&h, &k, "site"), vec![
        (FieldKind::Other, vec![Err(DecryptError::Malformed), Ok("visible".to_string())]),
        (FieldKind::Username, vec![Err(DecryptError::Malformed)]),
    ]);
}

#[test]
fn first_of_duplicate_names_wins() {
    let k = key();
    let ek = derive_entry_key(&k, "dup");
    let a = encrypt_value(&ek, "first");
    let b = encrypt_value(&ek, "second");
    let raw = vec![
        RawEntry { name: "dup".to_string(), fields: vec![raw_field("Password", &[&a.ciphertext], &[&a.nonce])] },
        RawEntry { name: "dup".to_string(), fields: vec![raw_field("Password", &[&b.ciphertext], &[&b.nonce])] },
    ];
    let mut h = DBHandler::new("db.json".to_string());
    assert!(h.load_db(Ok(raw)).is_ok());
    assert_eq!(texts(&h, &k, "dup"), vec![(FieldKind::Password, vec![Ok("first".to_string())])]);
    h.delete_entry("dup");
    assert!(h.list_entries().is_empty());
}

#[test]
fn operation_from_choice() {
    let labels = DBOperation::choices();
    assert_eq!(labels, vec!["List", "View", "Create", "Update", "Delete", "Exit"]);
    let ops: Vec<DBOperation> = labels.iter().map(|l| DBOperation::from_choice(l).ok().unwrap()).collect();
    assert_eq!(ops, vec![DBOperation::List, DBOperation::View, DBOperation::Create, DBOperation::Update, DBOperation::Delete, DBOperation::Exit]);
    let err = DBOperation::from_choice("list").err().unwrap();
    assert_eq!(err.details(), "Invalid operation.");
}

#[test]
fn find_entry_by_exact_name() {
    let h = sample();
    let e = h.find_entry("mail").ok().unwrap();
    assert_eq!(e.name, "mail");
    assert_eq!(e.fields.len(), 1);
    assert_eq!(e.fields[0].kind, FieldKind::Other);
    assert_eq!(e.fields[0].values.len(), 2);
    assert_eq!(h.find_entry("Mail").err(), Some(EntryError::NotFound));
}
