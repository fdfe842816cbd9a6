use rs_internal_ue_palia::ue::{FName, FNameEntry, FNameEntryHandle, FNamePool};

fn entry(text: &[u8], wide: bool) -> FNameEntry {
    let mut name = [0u8; 1024];
    name[..text.len()].copy_from_slice(text);
    let flags = ((text.len() as u16) << 6) | if wide { 1 } else { 0 };
    FNameEntry::from_parts(flags, name)
}

#[test]
fn index_to_handle_splits_high_and_low_halves() {
    let h = FNameEntryHandle::index_to_handle(0x0003_0010);
    assert_eq!(h.block, 3);
    assert_eq!(h.offset, 0x10);
    let h = FNameEntryHandle::index_to_handle(5757421);
    assert_eq!(h.block, 87);
    assert_eq!(h.offset, 55789);
    assert_eq!(h.block * 65536 + h.offset, 5757421);
}

#[test]
fn index_to_handle_extremes() {
    let h = FNameEntryHandle::index_to_handle(0);
    assert_eq!((h.block, h.offset), (0, 0));
    let h = FNameEntryHandle::index_to_handle(u32::MAX);
    assert_eq!((h.block, h.offset), (65535, 65535));
}

#[test]
fn entry_header_fields() {
    let e = FNameEntry::from_parts((10 << 6) | 1, [0u8; 1024]);
    assert!(e.is_wide());
    assert_eq!(e.len(), 10);
    let e = FNameEntry::from_parts(0xFFFE, [0u8; 1024]);
    assert!(!e.is_wide());
    assert_eq!(e.len(), 1023);
}

#[test]
fn entry_string_reads_header_length() {
    let e = entry(b"Roboto", false);
    assert_eq!(e.string(), "Roboto");
    let mut name = [b'x'; 1024];
    name[..3].copy_from_slice(b"Pal");
    let e = FNameEntry::from_parts(3 << 6, name);
    assert_eq!(e.string(), "Pal");
}

#[test]
fn entry_string_wide_is_empty() {
    let e = entry(b"Roboto", true);
    assert_eq!(e.string(), "");
}

#[test]
fn entry_string_invalid_utf8_is_empty() {
    let e = entry(&[0x66, 0xFF, 0x67], false);
    assert_eq!(e.string(), "");
}

#[test]
fn entry_string_decodes_utf8() {
    let e = entry("Fisch\u{e9}".as_bytes(), false);
    assert_eq!(e.string(), "Fisch\u{e9}");
}

#[test]
fn pool_entry_address() {
    let mut blocks = [0u64; 8192];
    blocks[3] = 0x1000_0000;
    let pool = FNamePool { lock: [0; 8], current_block: 3, current_byte_cursor: 0, blocks };
    let h = FNameEntryHandle::index_to_handle(0x0003_0010);
    assert_eq!(pool.get_entry(h), 0x1000_0020);
}

#[test]
fn name_without_number() {
    let n = FName { index: 7, number: 0 };
    assert_eq!(n.get_name(&entry(b"ValeriaCharacter", false)), "ValeriaCharacter");
}

#[test]
fn name_with_number() {
    let n = FName { index: 7, number: 12 };
    assert_eq!(n.get_name(&entry(b"BP_Loot_C", false)), "BP_Loot_C_12");
}

#[test]
fn name_strips_path() {
    let n = FName { index: 7, number: 0 };
    assert_eq!(n.get_name(&entry(b"/Game/Maps/Village", false)), "Village");
    let n = FName { index: 7, number: 3 };
    assert_eq!(n.get_name(&entry(b"/Script/Palia", false)), "Palia_3");
}

#[test]
fn name_ending_in_slash_is_empty() {
    let n = FName { index: 7, number: 0 };
    assert_eq!(n.get_name(&entry(b"/Game/", false)), "");
}

#[test]
fn name_never_holds_slash() {
    for text in [&b"a/b/c"[..], b"/", b"x//y", b"none"] {
        for number in [0u32, 1, 4294967295] {
            let s = FName { index: 0, number }.get_name(&entry(text, false));
            assert!(!s.contains('/'));
            if number > 0 {
                assert!(s.ends_with(&format!("_{}", number)));
            }
        }
    }
}

#[test]
fn name_of_wide_entry_keeps_number() {
    let n = FName { index: 7, number: 5 };
    assert_eq!(n.get_name(&entry(b"ignored", true)), "_5");
}

#[test]
fn name_entry_address() {
    let mut blocks = [0u64; 8192];
    blocks[87] = 0x2000_0000;
    let pool = FNamePool { lock: [0; 8], current_block: 87, current_byte_cursor: 0, blocks };
    let n = FName { index: 5757421, number: 0 };
    assert_eq!(n.entry_address(&pool), 0x2000_0000 + 2 * 55789);
}
