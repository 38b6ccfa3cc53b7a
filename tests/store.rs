use theca::command::{add_status, body_source, choose_command, choose_editor, edit_choice, saves_profile, with_fallback, BodySource, Command, EditChoice};
use theca::crypt::{decrypt_with_password, encrypt_with_password, password_to_key, pkcs7_strip};
use theca::error::ErrorKind;
use theca::item::Status;
use theca::store::{check_profile_path, invalid_json, io_error, join_path, load_profile_name, open_contents, profile_file, profile_folder, save_profile_name, seal_contents};

const JSON: &str = "{\n  \"encrypted\": false,\n  \"notes\": [\n    {\n      \"id\": 1,\n      \"title\": \"Buy milk\",\n      \"status\": \"\",\n      \"body\": \"\",\n      \"last_touched\": \"2015-01-22 20:05:51\"\n    }\n  ]\n}";

#[test]
fn plain_contents_round_trip() {
    let bytes = seal_contents(JSON, false, "");
    assert_eq!(bytes, JSON.as_bytes().to_vec());
    let text = open_contents(bytes, false, "").unwrap();
    assert_eq!(text, JSON);
}

#[test]
fn encrypted_contents_round_trip() {
    let bytes = seal_contents(JSON, true, "secret phrase");
    assert_ne!(bytes, JSON.as_bytes().to_vec());
    assert_eq!(bytes.len() % 16, 0);
    assert!(bytes.len() > JSON.len());
    let text = open_contents(bytes, true, "secret phrase").unwrap();
    assert_eq!(text, JSON);
}

#[test]
fn encrypted_contents_wrong_password_fails() {
    let bytes = seal_contents(JSON, true, "right");
    assert!(open_contents(bytes, true, "wrong").is_err());
}

#[test]
fn cipher_error_on_bad_length() {
    let e = open_contents(vec![1, 2, 3, 4, 5], true, "pw").unwrap_err();
    assert_eq!(e.kind, ErrorKind::GenericError);
    assert_eq!(e.desc, "SymmetricCipherError, that's bad.");
    assert!(e.detail.is_none());
}

#[test]
fn utf8_error_on_invalid_bytes() {
    let e = open_contents(vec![0x66, 0xff, 0xfe], false, "").unwrap_err();
    assert_eq!(e.desc, "Error parsing invalid UTF8 characters.");
    assert!(e.detail.is_some());
}

#[test]
fn key_derivation_is_deterministic() {
    let (k1, iv1) = password_to_key("pw");
    let (k2, iv2) = password_to_key("pw");
    let (k3, _) = password_to_key("other");
    assert_eq!(k1.len(), 32);
    assert_eq!(iv1.len(), 16);
    assert_eq!(k1, k2);
    assert_eq!(iv1, iv2);
    assert_ne!(k1, k3);
    assert_ne!(k1[..16].to_vec(), iv1);
}

#[test]
fn encrypt_then_decrypt() {
    let data = b"some plain bytes".to_vec();
    let c = encrypt_with_password(&data, "k");
    assert_eq!(c.len(), 32);
    assert_ne!(c[..16].to_vec(), data);
    assert_eq!(decrypt_with_password(&c, "k"), Some(data));
    assert_eq!(decrypt_with_password(&c[..5], "k"), None);
}

#[test]
fn profile_paths() {
    assert_eq!(profile_folder("/tmp/p", Some("/home/u".to_string())), "/tmp/p");
    assert_eq!(profile_folder("", Some("/home/u".to_string())), "/home/u/.theca");
    assert_eq!(profile_folder("", Some("/home/u/".to_string())), "/home/u/.theca");
    assert_eq!(profile_folder("", None), "./.theca");
    assert_eq!(join_path("a", "b"), "a/b");
    assert_eq!(load_profile_name(""), "default");
    assert_eq!(load_profile_name("work"), "work");
    assert_eq!(save_profile_name("", true, "new"), "new");
    assert_eq!(save_profile_name("p", true, "new"), "p");
    assert_eq!(save_profile_name("", false, "new"), "default");
    assert_eq!(profile_file("/home/u/.theca", "default"), "/home/u/.theca/default.json");
}

#[test]
fn profile_path_checks() {
    assert!(check_profile_path("/x.json", true, true).is_ok());
    assert_eq!(check_profile_path("/x.json", true, false).unwrap_err().desc, "/x.json is not a file.");
    assert_eq!(check_profile_path("/x.json", false, false).unwrap_err().desc, "/x.json does not exist.");
    assert_eq!(invalid_json("/x.json").desc, "Invalid JSON in /x.json");
    let e = io_error("denied".to_string());
    assert_eq!(e.kind, ErrorKind::InternalIoError("denied".to_string()));
    assert_eq!(e.desc, "An internal IO error ocurred.");
    assert_eq!(e.detail, None);
}

#[test]
fn flag_decisions() {
    assert_eq!(add_status(true, true), Status::Started);
    assert_eq!(add_status(false, true), Status::Urgent);
    assert_eq!(add_status(false, false), Status::NoStatus);
    assert_eq!(body_source("b", true, true), BodySource::Text("b".to_string()));
    assert_eq!(body_source("", true, true), BodySource::Editor);
    assert_eq!(body_source("", false, true), BodySource::Input);
    assert_eq!(body_source("", false, false), BodySource::Absent);
    assert_eq!(edit_choice("t", true, false, false, BodySource::Editor), EditChoice::Title);
    assert_eq!(edit_choice("", false, true, true, BodySource::Editor), EditChoice::Status(Status::Urgent));
    assert_eq!(edit_choice("", false, false, true, BodySource::Editor), EditChoice::Status(Status::NoStatus));
    assert_eq!(edit_choice("", false, false, false, BodySource::Input), EditChoice::Body(BodySource::Input));
    assert_eq!(edit_choice("", false, false, false, BodySource::Absent), EditChoice::Nothing);
}

#[test]
fn command_decisions() {
    assert_eq!(choose_command(true, false, false, false, false, false, false, false), Command::Add);
    assert_eq!(choose_command(false, false, false, false, true, true, false, false), Command::Search);
    assert_eq!(choose_command(false, false, false, false, false, true, false, false), Command::View);
    assert_eq!(choose_command(false, false, false, false, false, false, false, false), Command::List);
    assert!(saves_profile(Command::NewProfile));
    assert!(saves_profile(Command::Delete));
    assert!(!saves_profile(Command::Search));
    assert_eq!(with_fallback(String::new(), Some("env".to_string())), "env");
    assert_eq!(with_fallback("given".to_string(), Some("env".to_string())), "given");
    assert_eq!(choose_editor(None, Some("vi".to_string())).unwrap(), "vi");
    assert_eq!(choose_editor(Some("ed".to_string()), Some("vi".to_string())).unwrap(), "ed");
    assert_eq!(choose_editor(None, None).unwrap_err().desc, "Neither $VISUAL nor $EDITOR is set.");
}

#[test]
fn pkcs7_strip_checks_padding() {
    assert_eq!(pkcs7_strip(vec![7, 8, 2, 2]), Some(vec![7, 8]));
    assert_eq!(pkcs7_strip(vec![7, 8, 1, 2]), None);
    assert_eq!(pkcs7_strip(vec![16; 16]), Some(vec![]));
    assert_eq!(pkcs7_strip(vec![40; 16]), None);
    assert_eq!(pkcs7_strip(vec![0, 0]), None);
    assert_eq!(pkcs7_strip(vec![]), None);
    assert_eq!(pkcs7_strip(vec![3, 3]), None);
}

#[test]
fn decrypt_rejects_partial_blocks_and_bad_padding() {
    let c = encrypt_with_password(b"abc", "k");
    assert_eq!(c.len(), 16);
    assert_eq!(decrypt_with_password(&c, "k"), Some(b"abc".to_vec()));
    assert_eq!(decrypt_with_password(&[], "k"), Some(vec![]));
    assert_eq!(decrypt_with_password(&c[..15], "k"), None);
}

#[test]
fn wrong_password_never_panics() {
    let c = encrypt_with_password(b"some profile text", "right");
    for k in 0..10 {
        let _ = decrypt_with_password(&c, &format!("wrong{}", k));
    }
}

#[test]
fn decimal_and_newline_text() {
    let p = theca::profile::ThecaProfile {
        encrypted: false,
        notes: vec![theca::item::ThecaItem {
            id: 1234567890,
            title: "t".to_string(),
            status: Status::NoStatus,
            body: String::new(),
            last_touched: String::new(),
        }],
    };
    let v = p.view_item(1234567890, true).unwrap();
    assert_eq!(v[0].1, "1234567890\n");
    let mut q = theca::profile::ThecaProfile::new_empty(false);
    q.add_item_at("\na\nb\n\n", Status::NoStatus, String::new(), String::new());
    assert_eq!(q.notes[0].title, "ab");
    let e = theca::profile::missing_note(0);
    assert_eq!(e.desc, "note id#0 doesn't exist.");
}

#[test]
fn empty_data_encrypts_to_empty() {
    let c = encrypt_with_password(&[], "k");
    assert!(c.is_empty());
    assert_eq!(decrypt_with_password(&c, "k"), Some(vec![]));
    let sealed = seal_contents("", true, "pw");
    assert!(sealed.is_empty());
    assert_eq!(open_contents(sealed, true, "pw").unwrap(), "");
    let plain = seal_contents("", false, "");
    assert!(plain.is_empty());
    assert_eq!(open_contents(plain, false, "").unwrap(), "");
}
