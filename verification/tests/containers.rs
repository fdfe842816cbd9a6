use rs_internal_ue_palia::ue::{FString, TArray};

#[test]
fn new_array_is_empty() {
    let a: TArray<u64> = TArray::new();
    assert_eq!(a.len(), 0);
    assert!(a.is_empty());
    assert_eq!(a.max(), 0);
    let mut it = a.iter();
    assert!(it.next().is_none());
}

#[test]
fn array_get_and_len() {
    let a = TArray::from_elements(vec![10u64, 20, 30], 8);
    assert_eq!(a.len(), 3);
    assert!(!a.is_empty());
    assert_eq!(a.get(0), 10);
    assert_eq!(a.get(2), 30);
    assert_eq!(a.max(), 8);
    assert_eq!(a.as_slice(), &[10, 20, 30]);
}

#[test]
fn iterator_yields_each_element_once_in_order() {
    let a = TArray::from_elements(vec![1u32, 2, 3], 3);
    let mut it = a.iter();
    let mut seen = Vec::new();
    while let Some(x) = it.next() {
        seen.push(x);
    }
    assert_eq!(seen, vec![1, 2, 3]);
    assert!(it.next().is_none());
}

#[test]
fn fstring_ascii_is_terminated() {
    let s = FString::new("Hi");
    assert_eq!(s.units().as_slice(), &[72u16, 105, 0]);
    assert_eq!(s.units().len(), 3);
    assert!(s.units().max() as usize >= 3);
}

#[test]
fn fstring_empty() {
    let s = FString::new("");
    assert_eq!(s.units().as_slice(), &[0u16]);
}

#[test]
fn fstring_surrogate_pair() {
    let s = FString::new("a\u{1F41F}");
    assert_eq!(s.units().as_slice(), &[0x61u16, 0xD83D, 0xDC1F, 0]);
    let expected: Vec<u16> = "a\u{1F41F}".encode_utf16().chain([0]).collect();
    assert_eq!(s.units().as_slice(), expected.as_slice());
}

#[test]
fn fstring_bmp_one_unit_per_char() {
    let text = "Caf\u{e9} [12.50m]";
    let s = FString::new(text);
    let units = s.units().as_slice();
    assert_eq!(units.len(), text.chars().count() + 1);
    for (u, c) in units.iter().zip(text.chars()) {
        assert_eq!(*u as u32, c as u32);
    }
}

#[test]
fn iterator_gives_len_elements_then_none_for_good() {
    let a = TArray::from_elements(vec![5u16, 6, 7, 8], 4);
    let mut it = a.iter();
    for k in 0..a.len() {
        assert_eq!(it.next(), Some(a.get(k as u32)));
    }
    for _ in 0..3 {
        assert_eq!(it.next(), None);
    }
}
