use std::io::Read;

use zotero_mcp::webdav::{
    auth_header, create_zip, file_url, md5_hex, prop_xml, put_accepted, store_base, webdav_settings_complete,
};

#[test]
fn md5_of_known_inputs() {
    assert_eq!(md5_hex(b""), "d41d8cd98f00b204e9800998ecf8427e");
    assert_eq!(md5_hex(b"hello world"), "5eb63bbbe01eeed093cb22bb8f5acdc3");
}

#[test]
fn basic_auth_header_encodes_credentials() {
    assert_eq!(auth_header("user", "pass"), "Basic dXNlcjpwYXNz");
    assert_eq!(auth_header("", ""), "Basic Og==");
}

#[test]
fn archive_and_metadata_addresses() {
    let base = store_base("https://dav.example.com/zotero///");
    assert_eq!(base, "https://dav.example.com/zotero");
    assert_eq!(file_url(&base, "ABCD1234", "zip"), "https://dav.example.com/zotero/ABCD1234.zip");
    assert_eq!(file_url(&base, "ABCD1234", "prop"), "https://dav.example.com/zotero/ABCD1234.prop");
}

#[test]
fn metadata_file_lists_mtime_and_hash() {
    assert_eq!(
        prop_xml(1700000000000, "5eb63bbbe01eeed093cb22bb8f5acdc3"),
        "<properties version=\"1\">\n  <mtime>1700000000000</mtime>\n  <hash>5eb63bbbe01eeed093cb22bb8f5acdc3</hash>\n</properties>"
    );
}

#[test]
fn store_configured_only_with_all_settings() {
    assert!(webdav_settings_complete(Some("https://dav.example.com"), Some("user"), Some("pass")));
    assert!(!webdav_settings_complete(Some("https://dav.example.com"), Some("user"), None));
    assert!(!webdav_settings_complete(Some(""), Some("user"), Some("pass")));
    assert!(!webdav_settings_complete(None, None, None));
}

#[test]
fn put_statuses() {
    assert!(put_accepted(true, 200));
    assert!(put_accepted(false, 201));
    assert!(put_accepted(false, 204));
    assert!(!put_accepted(false, 403));
}

#[test]
fn archive_holds_the_file() {
    let archive = create_zip("test.pdf", b"hello world").unwrap();
    assert_eq!(&archive[..4], b"PK\x03\x04");
    let mut reader = zip::ZipArchive::new(std::io::Cursor::new(archive)).unwrap();
    assert_eq!(reader.len(), 1);
    let mut entry = reader.by_name("test.pdf").unwrap();
    let mut content = Vec::new();
    entry.read_to_end(&mut content).unwrap();
    assert_eq!(content, b"hello world");
}
