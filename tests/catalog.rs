use eye_trigrams::catalog::{
    decipher_trigrams, decode, get_all_triangles, get_magnitude, get_side_lengths,
    get_triangle_index_in, get_unique_triangle_set, sub_coords, Signature, TriangleCatalog,
};
use eye_trigrams::error::DecodeError;

fn message(rows: &[&[&str]]) -> Vec<Vec<String>> {
    rows.iter().map(|r| r.iter().map(|s| s.to_string()).collect()).collect()
}

#[test]
fn catalog_builds_are_identical() {
    let a = TriangleCatalog::new();
    let b = TriangleCatalog::new();
    assert_eq!(a.all_triangles, b.all_triangles);
    assert_eq!(a.unique_triangles, b.unique_triangles);
    for code in 0..125 {
        assert_eq!(a.decode(code), b.decode(code));
    }
}

#[test]
fn same_signature_iff_same_class() {
    let cat = TriangleCatalog::new();
    for c1 in 0..125 {
        for c2 in 0..125 {
            assert_eq!(cat.signature(c1) == cat.signature(c2), cat.decode(c1) == cat.decode(c2));
        }
    }
}

#[test]
fn unique_count_is_strictly_between_one_and_125() {
    let cat = TriangleCatalog::new();
    let n = cat.unique_count();
    assert!(1 < n && n < 125);
    assert_eq!(cat.all_triangles.len(), 125);
}

#[test]
fn signatures_of_first_codes() {
    let cat = TriangleCatalog::new();
    assert_eq!(cat.signature(0), Signature { short: 85, middle: 85, long: 144 });
    assert_eq!(cat.signature(1), Signature { short: 74, middle: 85, long: 121 });
    assert_eq!(cat.signature(2), Signature { short: 85, middle: 98, long: 169 });
    assert_eq!(cat.signature(25), Signature { short: 85, middle: 98, long: 169 });
}

#[test]
fn mirror_images_share_a_class() {
    let cat = TriangleCatalog::new();
    assert_eq!(cat.decode(0), 0);
    assert_eq!(cat.decode(1), 1);
    assert_eq!(cat.decode(2), 2);
    assert_eq!(cat.decode(25), 2);
}

#[test]
fn decode_message() {
    let out = decode(message(&[&["ccc", "ccl"], &["ccr", "lcc", "ccc"]])).unwrap();
    assert_eq!(out, vec![vec![0, 1], vec![2, 2, 0]]);
}

#[test]
fn decode_empty_message() {
    assert_eq!(decode(Vec::new()), Ok(Vec::new()));
}

#[test]
fn decode_reports_first_bad_cell() {
    assert_eq!(
        decode(message(&[&["ccc", "cc"], &["xyz"]])),
        Err(DecodeError::WrongTrigramLength)
    );
    assert_eq!(
        decode(message(&[&["ccc", "cqc"], &["c"]])),
        Err(DecodeError::UnknownDirectionSymbol)
    );
}

#[test]
fn decipher_with_missing_signature() {
    let cat = TriangleCatalog::new();
    let unique = vec![cat.signature(0)];
    assert_eq!(
        decipher_trigrams(message(&[&["ccc"]]), unique.clone(), cat.all_triangles.clone()),
        Ok(vec![vec![0]])
    );
    assert_eq!(
        decipher_trigrams(message(&[&["ccc", "ccl"]]), unique, cat.all_triangles.clone()),
        Err(DecodeError::UnmatchedTriangleSignature)
    );
}

#[test]
fn unknown_symbol_in_message() {
    assert_eq!(decode(message(&[&["cx"]])), Err(DecodeError::UnknownDirectionSymbol));
    let cat = TriangleCatalog::new();
    assert_eq!(
        decipher_trigrams(message(&[&["cx"]]), cat.unique_triangles.clone(), cat.all_triangles.clone()),
        Err(DecodeError::UnknownDirectionSymbol)
    );
}

#[test]
fn vector_helpers() {
    assert_eq!(sub_coords((5, -2), (1, 3)), (4, -5));
    assert_eq!(get_magnitude((3, 4)), 25);
    assert_eq!(get_magnitude((-46340, 0)), 2147395600);
}

#[test]
fn side_lengths_on_large_triangle() {
    assert_eq!(
        get_side_lengths([(0, 0), (5000, 0), (0, 0)]),
        Signature { short: 0, middle: 25000000, long: 25000000 }
    );
    assert_eq!(
        get_side_lengths([(-16383, 16383), (16383, 16383), (16383, -16383)]),
        Signature { short: 1073610756, middle: 1073610756, long: 2147221512 }
    );
}

#[test]
fn side_lengths_ignore_labels_translation_and_mirroring() {
    let base = get_side_lengths([(0, 0), (6, 7), (11, 0)]);
    assert_eq!(base, Signature { short: 74, middle: 85, long: 121 });
    assert_eq!(get_side_lengths([(11, 0), (0, 0), (6, 7)]), base);
    assert_eq!(get_side_lengths([(100, -50), (106, -43), (111, -50)]), base);
    assert_eq!(get_side_lengths([(0, 0), (-6, 7), (-11, 0)]), base);
}

#[test]
fn catalog_tables_from_helpers() {
    let a = get_all_triangles();
    let b = get_all_triangles();
    assert_eq!(a.len(), 125);
    assert_eq!(a, b);
    let u = get_unique_triangle_set(&a);
    assert_eq!(u, get_unique_triangle_set(&b));
    assert!(1 < u.len() && u.len() < 125);
    assert_eq!(get_triangle_index_in(a[25], &u), Some(2));
    assert_eq!(get_triangle_index_in(a[2], &a), Some(2));
    assert_eq!(get_triangle_index_in(Signature { short: 1, middle: 1, long: 1 }, &u), None);
}

#[test]
fn side_lengths_far_from_origin() {
    assert_eq!(
        get_side_lengths([(20000, 0), (20000, 0), (20000, 0)]),
        Signature { short: 0, middle: 0, long: 0 }
    );
    assert_eq!(
        get_side_lengths([(30000, 0), (0, 0), (0, 30000)]),
        Signature { short: 900000000, middle: 900000000, long: 1800000000 }
    );
    let shifted = get_side_lengths([(2000000000, -2000000000), (2000000006, -1999999993), (2000000011, -2000000000)]);
    assert_eq!(shifted, Signature { short: 74, middle: 85, long: 121 });
}
