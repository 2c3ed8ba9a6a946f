use levenshtein::levenshtein_dist;

#[test]
fn test_dist() {
    assert_eq!(levenshtein_dist("kate", "cat"), 2);
    assert_eq!(levenshtein_dist("chantilly", "chandelier"), 5);
    assert_eq!(
        levenshtein_dist("soylent green is people", "people soiled our green"),
        19
    );
}

#[test]
fn test_unicode() {
    assert_eq!(levenshtein_dist("naïve", "œther"), 5);
}

#[test]
fn identity_on_samples() {
    assert_eq!(levenshtein_dist("", ""), 0);
    assert_eq!(levenshtein_dist("a", "a"), 0);
    assert_eq!(levenshtein_dist("chantilly", "chantilly"), 0);
    assert_eq!(levenshtein_dist("naïve", "naïve"), 0);
}

#[test]
fn symmetry_on_samples() {
    assert_eq!(
        levenshtein_dist("kate", "cat"),
        levenshtein_dist("cat", "kate")
    );
    assert_eq!(
        levenshtein_dist("chantilly", "chandelier"),
        levenshtein_dist("chandelier", "chantilly")
    );
    assert_eq!(levenshtein_dist("", "abc"), levenshtein_dist("abc", ""));
}

#[test]
fn empty_sequences() {
    assert_eq!(levenshtein_dist("a", ""), 1);
    assert_eq!(levenshtein_dist("", "cat"), 3);
    assert_eq!(levenshtein_dist("chantilly", ""), 9);
}

#[test]
fn triangle_on_samples() {
    let ab = levenshtein_dist("kate", "cat");
    let bc = levenshtein_dist("cat", "chandelier");
    let ac = levenshtein_dist("kate", "chandelier");
    assert!(ac <= ab + bc);

    let xy = levenshtein_dist("naïve", "œther");
    let yz = levenshtein_dist("œther", "");
    let xz = levenshtein_dist("naïve", "");
    assert!(xz <= xy + yz);
}

#[test]
fn multibyte_characters_count_once() {
    // One accented code point against its plain counterpart: one substitution,
    // even though the encodings differ in byte length.
    assert_eq!(levenshtein_dist("é", "e"), 1);
    assert_eq!(levenshtein_dist("naïve", "naive"), 1);
    // Dropping one multi-byte character is one deletion.
    assert_eq!(levenshtein_dist("日本語", "日本"), 1);
    // Case matters: no folding is performed.
    assert_eq!(levenshtein_dist("Cat", "cat"), 1);
}
