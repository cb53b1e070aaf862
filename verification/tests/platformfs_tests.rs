use localref::platformfs::{is_reserved_windows_name, sanitize_ntfs_component, temporary_name, LibraryFs};
use localref::types::CategoryPath;

#[test]
fn sanitizes_ntfs_components() {
    assert_eq!(sanitize_ntfs_component("A:B?C. ").unwrap(), "A_B_C");
    assert_eq!(sanitize_ntfs_component("CON").unwrap(), "CON_");
}

#[test]
fn blank_and_dot_components_are_refused() {
    assert!(sanitize_ntfs_component("").is_err());
    assert!(sanitize_ntfs_component("...").is_err());
    assert!(sanitize_ntfs_component("   ").is_err());
}

#[test]
fn reserved_device_names_ignore_case_and_extension() {
    assert!(is_reserved_windows_name("con"));
    assert!(is_reserved_windows_name("LPT1.txt"));
    assert!(is_reserved_windows_name("nul"));
    assert!(!is_reserved_windows_name("console"));
    assert_eq!(sanitize_ntfs_component("aux.txt").unwrap(), "aux.txt_");
}

#[test]
fn library_layout_paths() {
    let fs = LibraryFs::new("/lib");
    assert_eq!(fs.root(), "/lib");
    assert_eq!(fs.all_dir(), "/lib/All");
    assert_eq!(fs.cat_dir(), "/lib/Cat");
    assert_eq!(fs.state_dir(), "/lib/.localref");
    let category = CategoryPath::new("Wireless/RIS:x").unwrap();
    assert_eq!(fs.category_dir(&category).unwrap(), "/lib/Cat/Wireless/RIS_x");
}

#[test]
fn temporary_names_are_hidden_siblings() {
    assert_eq!(temporary_name("metadata.toml"), ".metadata.toml.localref-tmp");
}

#[test]
fn real_cat_directory_sits_in_its_parent_category() {
    let fs = localref::platformfs::LibraryFs::new("/lib");
    let category = fs.category_for_real_directory("/lib/Cat/Inbox/Copied").unwrap();
    assert_eq!(category.as_str(), "Inbox");
    let nested = fs.category_for_real_directory("/lib/Cat/Wireless/RIS/Paper").unwrap();
    assert_eq!(nested.as_str(), "Wireless/RIS");
}

#[test]
fn directories_outside_a_category_are_refused() {
    let fs = localref::platformfs::LibraryFs::new("/lib");
    for dir in ["/lib/Cat/Paper", "/lib/All/Paper", "/other/Cat/Inbox/Paper", "/lib/Catalog/Inbox/Paper"] {
        match fs.category_for_real_directory(dir) {
            Err(localref::error::LocalrefError::InvalidPathComponent { component, reason }) => {
                assert_eq!(component, dir);
                assert_eq!(reason, "directory is not inside a Cat category");
            }
            other => panic!("{dir}: unexpected {other:?}"),
        }
    }
}

#[test]
fn mount_point_buffer_lays_out_the_reparse_data() {
    let sub: Vec<u16> = "\\??\\C:\\A".encode_utf16().collect();
    let print: Vec<u16> = "C:\\A".encode_utf16().collect();
    let buffer = localref::platformfs::mount_point_buffer(&sub, &print).unwrap();
    let sub_bytes = 2 * sub.len();
    let print_bytes = 2 * print.len();
    assert_eq!(buffer.len(), 16 + sub_bytes + 2 + print_bytes + 2);
    assert_eq!(&buffer[0..4], &0xA000_0003u32.to_le_bytes());
    assert_eq!(u16::from_le_bytes([buffer[4], buffer[5]]) as usize, sub_bytes + 2 + print_bytes + 2 + 8);
    assert_eq!(&buffer[6..10], &[0, 0, 0, 0]);
    assert_eq!(u16::from_le_bytes([buffer[10], buffer[11]]) as usize, sub_bytes);
    assert_eq!(u16::from_le_bytes([buffer[12], buffer[13]]) as usize, sub_bytes + 2);
    assert_eq!(u16::from_le_bytes([buffer[14], buffer[15]]) as usize, print_bytes);
    assert_eq!(u16::from_le_bytes([buffer[16], buffer[17]]), sub[0]);
    assert_eq!(&buffer[16 + sub_bytes..18 + sub_bytes], &[0, 0]);
    assert_eq!(u16::from_le_bytes([buffer[18 + sub_bytes], buffer[19 + sub_bytes]]), print[0]);
    assert_eq!(&buffer[buffer.len() - 2..], &[0, 0]);
}

#[test]
fn mount_point_buffer_refuses_overlong_names() {
    let long = vec![0x41u16; 16380];
    assert!(localref::platformfs::mount_point_buffer(&long, &long).is_ok());
    let longer = vec![0x41u16; 16382];
    assert_eq!(
        localref::platformfs::mount_point_buffer(&longer, &long),
        Err(localref::error::LocalrefError::Platform("junction target path too long".to_string()))
    );
}

#[test]
fn junction_targets_take_the_nt_prefix() {
    let plain: Vec<u16> = "C:\\Lib\\All\\A".encode_utf16().collect();
    let expected: Vec<u16> = "\\??\\C:\\Lib\\All\\A".encode_utf16().collect();
    assert_eq!(localref::platformfs::nt_substitute_name(&plain), expected);
    let long: Vec<u16> = "\\\\?\\C:\\Lib".encode_utf16().collect();
    let folded: Vec<u16> = "\\??\\C:\\Lib".encode_utf16().collect();
    assert_eq!(localref::platformfs::nt_substitute_name(&long), folded);
}
