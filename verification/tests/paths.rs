use rencfs_winfsp::path::{path_components, split_path};
use rencfs_winfsp::utf16::fits_directory_record;
use widestring::U16CString;

#[test]
fn path_components_handle_windows_and_root_paths() {
    let nested = U16CString::from_str(r"\alpha\beta").unwrap();
    assert_eq!(path_components(nested.as_slice()), ["alpha", "beta"]);

    let root = U16CString::from_str(r"\").unwrap();
    assert!(path_components(root.as_slice()).is_empty());
}

#[test]
fn separators_mix_and_repeat() {
    assert_eq!(split_path(r"/alpha\\beta//gamma\"), ["alpha", "beta", "gamma"]);
    assert!(split_path("").is_empty());
    assert_eq!(split_path("alpha"), ["alpha"]);
}

#[test]
fn lone_dots_name_nothing() {
    assert_eq!(split_path(r"\.\alpha\.\..\...\b.c\."), ["alpha", "..", "...", "b.c"]);
}

#[test]
fn components_of_a_joined_path_are_its_names() {
    let names = ["one", "two three", "\u{1F600}"];
    assert_eq!(split_path(&format!("\\{}", names.join("\\"))), names);
}

#[test]
fn unpaired_surrogates_are_replaced() {
    let units = [0x5C, 0x61, 0xD800, 0x62, 0x5C, 0xD83D, 0xDE00, 0x5C, 0xDC00, 0x5C, 0xD83D];
    assert_eq!(
        path_components(&units),
        ["a\u{FFFD}b", "\u{1F600}", "\u{FFFD}", "\u{FFFD}"]
    );
}

#[test]
fn names_survive_utf_16() {
    let name = "na\u{EF}ve \u{10FFFF}\u{E000}\u{D7FF}";
    let units = U16CString::from_str(name).unwrap();
    assert_eq!(path_components(units.as_slice()), [name]);
}

#[test]
fn records_hold_fewer_than_255_units() {
    assert!(fits_directory_record(""));
    assert!(fits_directory_record(&"a".repeat(254)));
    assert!(!fits_directory_record(&"a".repeat(255)));
    assert!(fits_directory_record(&"\u{FFFF}".repeat(254)));
    assert!(fits_directory_record(&"\u{10000}".repeat(127)));
    assert!(!fits_directory_record(&"\u{10000}".repeat(128)));
    assert!(!fits_directory_record(&format!("a{}", "\u{10000}".repeat(127))));
}

#[test]
fn paths_in_utf_16_split_at_every_separator() {
    let front = [0x5C, 0x61, 0xD83D];
    let back = [0xDE00, 0x62, 0x2F, 0x63];
    for separator in [0x5C, 0x2F] {
        let whole = [&front[..], &[separator], &back[..]].concat();
        let mut parts = path_components(&front);
        parts.append(&mut path_components(&back));
        assert_eq!(path_components(&whole), parts);
        assert_eq!(parts, ["a\u{FFFD}", "\u{FFFD}b", "c"]);
    }
}
