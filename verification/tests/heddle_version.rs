use heddle::version::HeddleVersion;

#[test]
fn parses_a_heddle_tag() {
    let v = HeddleVersion::parse("v0.3.1").expect("v0.3.1 must parse");
    assert_eq!((v.major(), v.minor(), v.patch()), (0, 3, 1));
}

#[test]
fn parses_without_the_v_prefix() {
    let v = HeddleVersion::parse("0.3.1").expect("0.3.1 must parse");
    assert_eq!((v.major(), v.minor(), v.patch()), (0, 3, 1));
}

#[test]
fn orders_by_component_not_lexically() {
    let older = HeddleVersion::parse("v0.9.0").unwrap();
    let newer = HeddleVersion::parse("v0.10.0").unwrap();
    assert!(newer > older, "0.10.0 must be newer than 0.9.0");
}

#[test]
fn orders_across_every_component() {
    let cases = [
        ("v0.3.1", "v1.0.0"),
        ("v0.3.1", "v0.4.0"),
        ("v0.3.1", "v0.3.2"),
        ("v1.9.9", "v2.0.0"),
    ];
    for (older, newer) in cases {
        let older = HeddleVersion::parse(older).unwrap();
        let newer = HeddleVersion::parse(newer).unwrap();
        assert!(newer > older, "{newer:?} must be newer than {older:?}");
        assert!(older < newer, "ordering must be symmetric");
    }
}

#[test]
fn equal_versions_are_not_newer() {
    let a = HeddleVersion::parse("v0.3.1").unwrap();
    let b = HeddleVersion::parse("v0.3.1").unwrap();
    assert!(!(a > b) && !(b > a), "identical versions must not order");
    assert_eq!(a, b);
}

#[test]
fn accepts_the_v_prefix_on_either_side_of_a_comparison() {
    let bundle = HeddleVersion::parse("0.3.1").unwrap();
    let tag = HeddleVersion::parse("v0.3.1").unwrap();
    assert_eq!(bundle, tag);
}

#[test]
fn rejects_warps_dated_scheme() {
    assert!(HeddleVersion::parse("v0.2026.07.26.18.00.stable_01").is_none());
}

#[test]
fn rejects_junk() {
    for junk in [
        "",
        "v",
        "v1",
        "v1.2",
        "v1.2.3.4",
        "va.b.c",
        "1.2.3-beta",
        "vX.Y.Z",
        "0.3.1 ",
        " 0.3.1",
        "0..1",
        "-1.0.0",
        "0.3.1+build",
    ] {
        assert!(
            HeddleVersion::parse(junk).is_none(),
            "{junk:?} must not parse: an unparseable version has to be treated as \
             'do not update', never as version zero"
        );
    }
}

#[test]
fn junk_is_not_treated_as_version_zero() {
    assert!(HeddleVersion::parse("garbage").is_none());
    let real = HeddleVersion::parse("v0.3.1").unwrap();
    assert!(real > HeddleVersion::parse("v0.0.0").unwrap());
}

#[test]
fn components_may_carry_leading_zeros_and_large_values() {
    let v = HeddleVersion::parse("v007.0.18446744073709551615").unwrap();
    assert_eq!((v.major(), v.minor(), v.patch()), (7, 0, u64::MAX));
}

#[test]
fn a_component_past_the_integer_range_is_refused() {
    assert!(HeddleVersion::parse("0.0.18446744073709551616").is_none());
}

#[test]
fn only_a_single_lowercase_v_prefix_is_stripped() {
    assert!(HeddleVersion::parse("vv1.2.3").is_none());
    assert!(HeddleVersion::parse("V1.2.3").is_none());
}

#[test]
fn non_ascii_digits_are_refused() {
    assert!(HeddleVersion::parse("١.2.3").is_none());
}

#[test]
fn the_order_is_total_on_examples() {
    let a = HeddleVersion::parse("1.2.3").unwrap();
    let b = HeddleVersion::parse("1.3.0").unwrap();
    assert_eq!(a.partial_cmp(&b), Some(std::cmp::Ordering::Less));
    assert_eq!(b.partial_cmp(&a), Some(std::cmp::Ordering::Greater));
    assert_eq!(a.partial_cmp(&a), Some(std::cmp::Ordering::Equal));
}

#[test]
fn formatted_triples_parse_back_and_compare_numerically() {
    let triples: [(u64, u64, u64); 6] = [
        (0, 0, 0),
        (0, 3, 1),
        (9, 9, 9),
        (10, 0, 0),
        (1, 20, 300),
        (u64::MAX, 0, u64::MAX),
    ];
    for &(a, b, c) in &triples {
        let plain = HeddleVersion::parse(&format!("{a}.{b}.{c}")).unwrap();
        let tagged = HeddleVersion::parse(&format!("v{a}.{b}.{c}")).unwrap();
        assert_eq!(plain, tagged);
        assert_eq!((plain.major(), plain.minor(), plain.patch()), (a, b, c));
    }
    for &x in &triples {
        for &y in &triples {
            let vx = HeddleVersion::parse(&format!("{}.{}.{}", x.0, x.1, x.2)).unwrap();
            let vy = HeddleVersion::parse(&format!("{}.{}.{}", y.0, y.1, y.2)).unwrap();
            assert_eq!(vx.partial_cmp(&vy), Some(x.cmp(&y)));
        }
    }
}
