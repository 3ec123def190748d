use emoji_fetch::catalog::{bearer_header_value, catalog_from_listing, resolve_credential};
use emoji_fetch::catalog::{Entry, Listing};
use emoji_fetch::errors::FatalError;
use emoji_fetch::text::{extension_of, filename_for, is_alias};

#[test]
fn alias_marker_is_recognised() {
    assert!(is_alias("alias:smile"));
    assert!(is_alias("alias:"));
    assert!(!is_alias("alias"));
    assert!(!is_alias(""));
    assert!(!is_alias("https://x/img.png"));
    assert!(!is_alias("ALIAS:smile"));
}

#[test]
fn extension_is_the_suffix_after_the_last_dot() {
    assert_eq!(extension_of("https://x/img.png"), "png");
    assert_eq!(extension_of("a.b.c"), "c");
    assert_eq!(extension_of("trailing."), "");
}

#[test]
fn extension_falls_back_to_bin_without_a_dot() {
    assert_eq!(extension_of("https://x/blob"), "bin");
    assert_eq!(extension_of(""), "bin");
}

#[test]
fn filename_joins_name_and_extension() {
    assert_eq!(filename_for("smile", "https://x/img.png"), "smile.png");
    assert_eq!(filename_for("blob", "https://x/blob"), "blob.bin");
}

#[test]
fn bearer_header_carries_the_token() {
    assert_eq!(bearer_header_value("token123"), "Bearer token123");
}

#[test]
fn present_credential_resolves() {
    let r = resolve_credential(Some(String::from("token123")));
    match r {
        Ok(t) => assert_eq!(t, "token123"),
        Err(_) => panic!("a non-empty credential must resolve"),
    }
}

#[test]
fn missing_credential_is_a_configuration_error() {
    let r = resolve_credential(None);
    match r {
        Ok(_) => panic!("an absent credential must not resolve"),
        Err(e) => {
            assert!(matches!(e, FatalError::Configuration { .. }));
            assert_eq!(e.message(), "configuration error: missing required credential");
        }
    }
}

#[test]
fn empty_credential_is_a_configuration_error() {
    let r = resolve_credential(Some(String::new()));
    assert!(matches!(r, Err(FatalError::Configuration { .. })));
}

#[test]
fn successful_listing_becomes_the_catalog() {
    let listing = Listing {
        ok: true,
        entries: vec![
            Entry { name: String::from("smile"), target: String::from("https://x/img.png") },
        ],
    };
    let catalog = catalog_from_listing(listing).expect("an ok listing must be accepted");
    assert_eq!(catalog.len(), 1);
    assert_eq!(catalog.entries[0].name, "smile");
    assert_eq!(catalog.entries[0].target, "https://x/img.png");
}

#[test]
fn failed_listing_is_a_catalog_fetch_error() {
    let listing = Listing { ok: false, entries: Vec::new() };
    match catalog_from_listing(listing) {
        Ok(_) => panic!("a listing that reported failure must be rejected"),
        Err(e) => {
            assert!(matches!(e, FatalError::CatalogFetch { .. }));
            assert_eq!(e.message(), "catalog fetch error: listing reported failure");
        }
    }
}

#[test]
fn directory_error_message_names_the_stage() {
    let e = FatalError::Directory { cause: String::from("permission denied") };
    assert_eq!(e.message(), "directory error: permission denied");
}
