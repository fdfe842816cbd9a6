use rs_internal_ue_palia::ue::{FName, FNameEntry, TUObjectArray, UObject};

fn entry(text: &[u8]) -> FNameEntry {
    let mut name = [0u8; 1024];
    name[..text.len()].copy_from_slice(text);
    FNameEntry::from_parts((text.len() as u16) << 6, name)
}

fn object(number: u32) -> UObject {
    UObject {
        vf_table: 0x7000,
        object_flags: 0,
        internal_index: 1,
        class: 0x8000,
        name: FName { index: 42, number },
        outer: 0x9000,
    }
}

#[test]
fn full_name_with_outers() {
    let obj = object(0);
    let outers = vec!["HUD".to_string(), "Engine".to_string()];
    let full = obj.get_full_name(&entry(b"ReceiveDrawHUD"), "Function", &outers);
    assert_eq!(full, "Function Engine.HUD.ReceiveDrawHUD");
}

#[test]
fn full_name_without_outers() {
    let obj = object(2);
    let full = obj.get_full_name(&entry(b"Roboto"), "Font", &Vec::new());
    assert_eq!(full, "Font Roboto_2");
}

#[test]
fn object_name() {
    assert_eq!(object(0).get_name(&entry(b"/Game/Roboto")), "Roboto");
}

#[test]
fn chunk_pointer_address_bounds() {
    let arr = TUObjectArray::from_parts(0x1000, 0, 200000, 140000, 4, 3);
    assert_eq!(arr.len(), 140000);
    assert_eq!(arr.chunk_pointer_address(0), Some(0x1000));
    assert_eq!(arr.chunk_pointer_address(65536), Some(0x1008));
    assert_eq!(arr.chunk_pointer_address(139999), Some(0x1010));
    assert_eq!(arr.chunk_pointer_address(140000), None);
    let few_chunks = TUObjectArray::from_parts(0x1000, 0, 200000, 140000, 4, 1);
    assert_eq!(few_chunks.chunk_pointer_address(70000), None);
}

#[test]
fn object_pointer_address_within_chunk() {
    assert_eq!(TUObjectArray::object_pointer_address(0, 5), None);
    assert_eq!(TUObjectArray::object_pointer_address(0x2000, 5), Some(0x2000 + 5 * 24));
    assert_eq!(TUObjectArray::object_pointer_address(0x2000, 65536 + 2), Some(0x2000 + 48));
}

#[test]
fn find_object_first_match() {
    let arr = TUObjectArray::from_parts(0x1000, 0, 10, 4, 1, 1);
    let slots = vec![
        (0u64, "Class Engine.Console".to_string()),
        (0x10, "Class Engine.GameplayStatics".to_string()),
        (0x20, "Class Engine.Console".to_string()),
        (0x30, "Class Engine.Console".to_string()),
    ];
    assert_eq!(arr.find_object("Class Engine.Console", &slots), 0x20);
    assert_eq!(arr.find_object("Class Engine.GameplayStatics", &slots), 0x10);
    assert_eq!(arr.find_object("Font Roboto.Roboto", &slots), 0);
}

#[test]
fn vtable_entries() {
    let obj = object(0);
    assert_eq!(
        obj.vtable_entry_address(rs_internal_ue_palia::ue::objects::PROCESS_EVENT_SLOT),
        0x7000 + 0x4c * 8
    );
    assert_eq!(
        obj.vtable_entry_address(rs_internal_ue_palia::ue::objects::POST_RENDER_SLOT),
        0x7000 + 0x6e * 8
    );
}

#[test]
fn object_array_fields() {
    let arr = TUObjectArray::from_parts(0x1000, 0x2000, 10, 4, 2, 1);
    assert_eq!(arr.num_elements, 4);
    assert_eq!(arr.len(), arr.num_elements);
    assert_eq!(arr.objects, 0x1000);
    assert_eq!(arr.num_chunks, 1);
}

#[test]
fn object_named_predicate() {
    assert!(TUObjectArray::is_object_named(0x10, "Class Engine.Console", "Class Engine.Console"));
    assert!(!TUObjectArray::is_object_named(0, "Class Engine.Console", "Class Engine.Console"));
    assert!(!TUObjectArray::is_object_named(0x10, "Class Engine.Consoles", "Class Engine.Console"));
}
