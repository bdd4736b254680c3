use osu_helper_script::version::{cmp_version_tag_ltr, sort_version_tags_desc};
use std::cmp::Ordering;

fn tags(v: &[&str]) -> Vec<String> {
    v.iter().map(|s| s.to_string()).collect()
}

#[test]
fn version_tag_cmp_works() {
    assert_eq!(cmp_version_tag_ltr("2023.617.1", "2023.617.0"), std::cmp::Ordering::Greater);
    assert_eq!(cmp_version_tag_ltr("2023.617.0", "2023.617.1"), std::cmp::Ordering::Less);
    assert_eq!(cmp_version_tag_ltr("2023.617.0", "2023.617.0"), std::cmp::Ordering::Equal);
}

#[test]
fn desc_sort_works() {
    let versions = vec![
        String::from("2023.617.0"),
        String::from("2023.612.0"),
        String::from("2022.142.1"),
        String::from("2023.612.1"),
    ];

    let sorted = sort_version_tags_desc(versions);
    assert_eq!(
        sorted,
        vec![
            String::from("2023.617.0"),
            String::from("2023.612.1"),
            String::from("2023.612.0"),
            String::from("2022.142.1"),
        ]
    )
}

#[test]
fn compare_is_antisymmetric_on_samples() {
    let samples = ["1.0.0", "2.0.0", "1.2", "10", "1.0", "", "x.y", "2023.617.1"];
    for a in samples.iter() {
        assert_eq!(cmp_version_tag_ltr(a, a), Ordering::Equal);
        for b in samples.iter() {
            assert_eq!(cmp_version_tag_ltr(a, b), cmp_version_tag_ltr(b, a).reverse());
        }
    }
}

#[test]
fn pieces_are_weighted_by_position() {
    // 1*10 + 0 == 10
    assert_eq!(cmp_version_tag_ltr("1.0", "10"), Ordering::Equal);
    // 1*100 + 2*10 + 3 == 123
    assert_eq!(cmp_version_tag_ltr("1.2.3", "123"), Ordering::Equal);
    assert_eq!(cmp_version_tag_ltr("1.2.3", "124"), Ordering::Less);
}

#[test]
fn malformed_pieces_count_as_zero() {
    assert_eq!(cmp_version_tag_ltr("abc", "0"), Ordering::Equal);
    assert_eq!(cmp_version_tag_ltr("", "0"), Ordering::Equal);
    assert_eq!(cmp_version_tag_ltr("1.x", "1.0"), Ordering::Equal);
    assert_eq!(cmp_version_tag_ltr("-1", "0"), Ordering::Equal);
    assert_eq!(cmp_version_tag_ltr("+", "0"), Ordering::Equal);
    assert_eq!(cmp_version_tag_ltr("1.", "10"), Ordering::Equal);
}

#[test]
fn plus_sign_is_accepted() {
    assert_eq!(cmp_version_tag_ltr("+7", "7"), Ordering::Equal);
    assert_eq!(cmp_version_tag_ltr("1.+2", "12"), Ordering::Equal);
}

#[test]
fn piece_above_u32_counts_as_zero() {
    assert_eq!(cmp_version_tag_ltr("4294967296", "0"), Ordering::Equal);
    assert_eq!(cmp_version_tag_ltr("4294967295", "4294967294"), Ordering::Greater);
}

#[test]
fn magnitude_wraps_at_u32() {
    // 429496730 * 10 + 0 == 4294967300, which wraps to 4.
    assert_eq!(cmp_version_tag_ltr("429496730.0", "4"), Ordering::Equal);
    assert_eq!(cmp_version_tag_ltr("429496730.0", "5"), Ordering::Less);
}

#[test]
fn sort_keeps_order_of_equal_weights() {
    let sorted = sort_version_tags_desc(tags(&["a", "1.0", "b", "10", "2"]));
    assert_eq!(sorted, tags(&["1.0", "10", "2", "a", "b"]));
}

#[test]
fn sort_of_nothing_is_nothing() {
    assert_eq!(sort_version_tags_desc(Vec::new()), Vec::<String>::new());
}
