use sicom::rename::RenameRegistry;
use sicom::rewrite::{replace_all, rewrite_references, strip_images_prefix};
use sicom::textenc::encoding_variants;

fn registry_of(pairs: &[(&str, &str)]) -> RenameRegistry {
    let mut r = RenameRegistry::new();
    for (old, new) in pairs {
        r.record(old.to_string(), new.to_string());
    }
    r
}

#[test]
fn test_replace_all_counts() {
    let (t, c) = replace_all("aba aba", "aba", "x");
    assert_eq!(t, "x x");
    assert_eq!(c, 2);

    let (t, c) = replace_all("aaaa", "aa", "b");
    assert_eq!(t, "bb");
    assert_eq!(c, 2);

    let (t, c) = replace_all("hello", "xyz", "q");
    assert_eq!(t, "hello");
    assert_eq!(c, 0);

    let (t, c) = replace_all("hello", "", "q");
    assert_eq!(t, "hello");
    assert_eq!(c, 0);
}

#[test]
fn test_strip_images_prefix() {
    assert_eq!(strip_images_prefix("Images/a.jpg"), "a.jpg");
    assert_eq!(strip_images_prefix("a.jpg"), "a.jpg");
    assert_eq!(strip_images_prefix("Audio/a.mp3"), "Audio/a.mp3");
}

#[test]
fn test_encoding_variants_encode() {
    let v = encoding_variants("a b.jpg");
    assert_eq!(v.len(), 3);
    assert_eq!(v[0], "a b.jpg");
    assert_eq!(v[2], "a%20b.jpg");
}

#[test]
fn test_encoding_variants_decode() {
    let v = encoding_variants("a%20b.jpg");
    assert_eq!(v[1], "a b.jpg");
    // An invalid escape decodes to itself.
    let v = encoding_variants("a%ZZb.jpg");
    assert_eq!(v[1], "a%ZZb.jpg");
}

#[test]
fn test_rewrite_bare_reference() {
    let reg = registry_of(&[("Images/photo.jpg", "Images/photo.webp")]);
    let r = rewrite_references("<item>photo.jpg</item>", &reg);
    assert_eq!(r.text, "<item>photo.webp</item>");
    assert_eq!(r.updated_refs, 1);
    assert_eq!(r.record_tallies, vec![1]);
}

#[test]
fn test_rewrite_marker_reference() {
    let reg = registry_of(&[("Images/photo.jpg", "Images/photo.webp")]);
    let text = "<atom type=\"image\" isRef=\"True\">photo.jpg</atom>";
    let r = rewrite_references(text, &reg);
    assert_eq!(r.text, "<atom type=\"image\" isRef=\"True\">photo.webp</atom>");
    assert_eq!(r.updated_refs, 1);
}

#[test]
fn test_rewrite_percent_encoded_reference() {
    // The encoded old form is found, and the first differing new variant —
    // the literal one — replaces it.
    let reg = registry_of(&[("Images/my pic.jpg", "Images/my pic.webp")]);
    let text = "<atom isRef=\"True\">my%20pic.jpg</atom>";
    let r = rewrite_references(text, &reg);
    assert_eq!(r.text, "<atom isRef=\"True\">my pic.webp</atom>");
    assert_eq!(r.updated_refs, 1);
}

#[test]
fn test_rewrite_single_quote_marker() {
    let reg = registry_of(&[("Images/p.png", "Images/p.webp")]);
    let text = "<atom isRef='True'>p.png</atom>";
    let r = rewrite_references(text, &reg);
    assert_eq!(r.text, "<atom isRef='True'>p.webp</atom>");
    assert_eq!(r.updated_refs, 1);
}

#[test]
fn test_rewrite_directory_prefixed_reference() {
    let reg = registry_of(&[("Images/p.png", "Images/p.webp")]);
    let text = "see Images/p.png here";
    let r = rewrite_references(text, &reg);
    assert_eq!(r.text, "see Images/p.webp here");
    assert_eq!(r.updated_refs, 1);
}

#[test]
fn test_rewrite_missing_reference_is_nonfatal() {
    let reg = registry_of(&[("Images/gone.jpg", "Images/gone.webp")]);
    let text = "<pack>nothing here</pack>";
    let r = rewrite_references(text, &reg);
    assert_eq!(r.text, text);
    assert_eq!(r.updated_refs, 0);
    assert_eq!(r.record_tallies, vec![0]);
}

#[test]
fn test_rewrite_unrecorded_names_untouched() {
    let reg = registry_of(&[("Images/a.jpg", "Images/a.webp")]);
    let text = "<x>a.jpg</x><y>b.jpg</y>";
    let r = rewrite_references(text, &reg);
    assert_eq!(r.text, "<x>a.webp</x><y>b.jpg</y>");
    assert_eq!(r.updated_refs, 1);
}

#[test]
fn test_rewrite_idempotent_on_own_output() {
    let reg = registry_of(&[
        ("Images/a.jpg", "Images/a.webp"),
        ("Images/b b.png", "Images/b b.webp"),
    ]);
    let text = "<a isRef=\"True\">a.jpg</a><b isRef=\"True\">b%20b.png</b><c>a.jpg</c>";
    let first = rewrite_references(text, &reg);
    assert!(first.updated_refs > 0);
    let second = rewrite_references(&first.text, &reg);
    assert_eq!(second.updated_refs, 0);
    assert_eq!(second.text, first.text);
}

#[test]
fn test_rewrite_removes_old_marker_reference() {
    let reg = registry_of(&[("Images/photo.jpg", "Images/photo.webp")]);
    let text = "<a isRef=\"True\">photo.jpg</a><b isRef=\"True\">photo.jpg</b>";
    let r = rewrite_references(text, &reg);
    assert!(!r.text.contains("isRef=\"True\">photo.jpg"));
    assert!(r.text.contains("isRef=\"True\">photo.webp"));
    assert_eq!(r.updated_refs, 2);
}

#[test]
fn test_rewrite_overmatches_equal_names_at_unrelated_paths() {
    // The rewrite is a plain-text substitution: an identical file name at
    // an unrelated path is rewritten too. This over-matching is inherent
    // to the context-pattern heuristic.
    let reg = registry_of(&[("Images/photo.jpg", "Images/photo.webp")]);
    let r = rewrite_references("<z>Other/photo.jpg</z>", &reg);
    assert_eq!(r.text, "<z>Other/photo.webp</z>");
    assert_eq!(r.updated_refs, 1);
}

#[test]
fn test_rewrite_applies_records_in_insertion_order() {
    let reg = registry_of(&[
        ("Images/x.jpg", "Images/x.webp"),
        ("Images/y.jpeg", "Images/y.webp"),
    ]);
    let r = rewrite_references("x.jpg y.jpeg", &reg);
    assert_eq!(r.text, "x.webp y.webp");
    assert_eq!(r.record_tallies, vec![1, 1]);
    assert_eq!(r.updated_refs, 2);
}
