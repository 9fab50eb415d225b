use homeserver_core::git;

#[test]
fn test_format() {
    assert_eq!(git::format("v0.5.5-26-g23701cf0-dirty"), "0.5.5+26~23701cf0-dirty");
    assert_eq!(git::format("v0.5.5-26-g23701cf0"), "0.5.5+26~23701cf0");
    assert_eq!(git::format("0.5.5-26-g23701cf0"), "0.5.5+26~23701cf0");
    // Shallow clone / no tags / just hash (e.g. from git describe --always)
    assert_eq!(git::format("abc1234"), "abc1234");
    assert_eq!(git::format("abc1234-dirty"), "abc1234-dirty");
    assert_eq!(git::format("v0.5.5-beta-g23701cf0"), "0.5.5-beta~23701cf0");
    // Tag names containing "-g" should not be corrupted
    assert_eq!(git::format("v1.0.0-gamma-g1234abc"), "1.0.0-gamma~1234abc");
}

#[test]
fn format_trims_whitespace_first() {
    assert_eq!(git::format("  v0.5.5-26-g23701cf0\n"), "0.5.5+26~23701cf0");
    assert_eq!(git::format("\tabc1234 "), "abc1234");
}

#[test]
fn format_strips_every_leading_v() {
    assert_eq!(git::format("vv1.2.3"), "1.2.3");
    assert_eq!(git::format(""), "");
}

#[test]
fn format_needs_a_numeric_count() {
    assert_eq!(git::format("1.2-x1-gabc"), "1.2-x1~abc");
    assert_eq!(git::format("1.2--gabc"), "1.2+~abc");
}

#[test]
fn format_trimmed_works_on_characters() {
    let t: Vec<char> = "v2.0.0-3-gdead".chars().collect();
    assert_eq!(git::format_trimmed(&t), "2.0.0+3~dead");
}

#[test]
fn format_trimmed_with_given_flags() {
    let t: Vec<char> = "1.2-ab-gcd".chars().collect();
    let mut flags = vec![false; t.len()];
    assert_eq!(git::format_trimmed_with(&t, &flags), "1.2-ab~cd");
    // Marking the count's characters numeric turns it into a commit count.
    flags[4] = true;
    flags[5] = true;
    assert_eq!(git::format_trimmed_with(&t, &flags), "1.2+ab~cd");
}
