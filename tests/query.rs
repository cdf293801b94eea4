use manga_api::decimal::Decimal;
use manga_api::search::{
    Array, BareComparison, Field, Item, ItemData, ItemKind, ItemOrArray, ItemValue, QueryError,
    Registry, parse_cmp_decimal, parse_cmp_int, split_cmp,
};

fn data(name: &str, value: ItemValue) -> ItemData {
    ItemData { name: name.to_string(), value }
}

fn dec(negative: bool, digits: u64, scale: i128) -> Decimal {
    Decimal::new(negative, digits, scale)
}

#[test]
fn value_forms_are_exact_and_stable() {
    let cases: Vec<(ItemValue, &str)> = vec![
        (ItemValue::Empty, ""),
        (ItemValue::Bool(true), "true"),
        (ItemValue::Bool(false), "false"),
        (ItemValue::Int(42), "42"),
        (ItemValue::Int(-7), "-7"),
        (ItemValue::Int(i64::MIN), "-9223372036854775808"),
        (ItemValue::Float(dec(false, 15, 1)), "1.5"),
        (ItemValue::Float(dec(false, 100, 2)), "1"),
        (ItemValue::Float(dec(true, 5, 3)), "-0.005"),
        (ItemValue::Float(dec(false, 1200, 3)), "1.2"),
        (ItemValue::String("x y".to_string()), "\"x y\""),
        (ItemValue::CmpInt { eq: true, bigger: true, value: 5 }, ">=5"),
        (ItemValue::CmpInt { eq: false, bigger: false, value: 10 }, "<10"),
        (ItemValue::CmpFloat { eq: false, bigger: true, value: dec(false, 125, 2) }, ">1.25"),
        (ItemValue::CmpFloat { eq: true, bigger: false, value: dec(false, 3, 0) }, "<=3"),
    ];
    for (v, text) in cases {
        assert_eq!(v.to_string(), text);
        assert_eq!(v.to_string(), v.to_string());
    }
}

#[test]
fn negation_serialization() {
    let item = Item { not: true, data: data("tag", ItemValue::Int(5)) };
    assert_eq!(item.to_string(), "tag:!5");
    let plain = Item::new(data("tag", ItemValue::Int(5)));
    assert_eq!(plain.to_string(), "tag:5");
    let excl = Item::new_exclude(data("status", ItemValue::Bool(true)));
    assert!(excl.not);
}

#[test]
fn serializer_nesting() {
    let tree = ItemOrArray::Array(Array {
        or: false,
        items: vec![
            ItemOrArray::Item(Item { not: false, data: data("status", ItemValue::Bool(true)) }),
            ItemOrArray::Array(Array {
                or: true,
                items: vec![ItemOrArray::Item(Item {
                    not: true,
                    data: data("tag", ItemValue::String("x".to_string())),
                })],
            }),
        ],
    });
    assert_eq!(tree.to_string(), "and:(status:true or:(tag:!\"x\"))");
}

#[test]
fn empty_combinators_render_empty_parentheses() {
    assert_eq!(Array { or: false, items: vec![] }.to_string(), "and:()");
    assert_eq!(Array { or: true, items: vec![] }.to_string(), "or:()");
}

#[test]
fn enum_item_has_no_value() {
    let d = ItemData::enum_("favorite");
    assert_eq!(d.name, "favorite");
    assert!(d.value == ItemValue::Empty);
    assert_eq!(Item::new(d).to_string(), "favorite:");
}

#[test]
fn float_tolerance() {
    let a = ItemValue::CmpFloat { eq: true, bigger: true, value: dec(false, 100001, 5) };
    let b = ItemValue::CmpFloat { eq: true, bigger: true, value: dec(false, 100002, 5) };
    let c = ItemValue::CmpFloat { eq: true, bigger: true, value: dec(false, 10010, 4) };
    assert!(a == b);
    assert!(a != c);
    let d = ItemValue::CmpFloat { eq: false, bigger: true, value: dec(false, 100001, 5) };
    assert!(a != d);
}

#[test]
fn rounding_ties_go_to_even() {
    assert_eq!(dec(false, 100005, 5).rounded4(), (10000, 0));
    assert_eq!(dec(false, 100015, 5).rounded4(), (10002, 0));
    assert_eq!(dec(false, 100006, 5).rounded4(), (10001, 0));
    assert_eq!(dec(false, 3, 0).rounded4(), (3, 4));
    assert_eq!(dec(false, 7, 30).rounded4(), (0, 0));
    assert_eq!(dec(false, 5, -2).rounded4(), (5, 6));
    assert!(dec(false, 3, 0).same_at_four_places(&dec(false, 30000, 4)));
    assert!(dec(false, 5, -2).same_at_four_places(&dec(false, 500, 0)));
    assert!(!dec(false, 5, -30).same_at_four_places(&dec(false, 5, 0)));
    assert!(!dec(true, 1, 5).same_at_four_places(&dec(false, 1, 5)));
}

#[test]
fn equality_is_an_equivalence() {
    let vals = vec![
        ItemValue::Empty,
        ItemValue::Bool(true),
        ItemValue::Int(1),
        ItemValue::Float(dec(false, 1, 0)),
        ItemValue::String("1".to_string()),
        ItemValue::CmpInt { eq: true, bigger: false, value: 1 },
        ItemValue::CmpFloat { eq: true, bigger: false, value: dec(false, 1, 0) },
    ];
    for (i, a) in vals.iter().enumerate() {
        assert!(a == a);
        for (j, b) in vals.iter().enumerate() {
            assert_eq!(a == b, i == j);
            assert_eq!(a == b, b == a);
        }
    }
    let x = ItemValue::Float(dec(false, 100001, 5));
    let y = ItemValue::Float(dec(false, 100002, 5));
    let z = ItemValue::Float(dec(false, 1, 0));
    assert!(x == y && y == z && x == z);
}

#[test]
fn comparison_parser_directions() {
    let e = BareComparison::Exact;
    assert_eq!(parse_cmp_int(">=5", e).unwrap(), (true, true, 5));
    assert_eq!(parse_cmp_int("<10", e).unwrap(), (false, false, 10));
    assert_eq!(parse_cmp_int("<=-3", e).unwrap(), (false, true, -3));
    assert_eq!(parse_cmp_int(">7", e).unwrap(), (true, false, 7));
    assert_eq!(parse_cmp_int("=3", e).unwrap(), (false, true, 3));
    assert_eq!(parse_cmp_int("7", e).unwrap(), (false, true, 7));
}

#[test]
fn comparison_parser_greater_reading() {
    let g = BareComparison::Greater;
    assert_eq!(parse_cmp_int("7", g).unwrap(), (true, false, 7));
    assert_eq!(parse_cmp_int("=3", g).unwrap(), (true, true, 3));
    assert_eq!(parse_cmp_int("<3", g).unwrap(), (false, false, 3));
}

#[test]
fn comparison_parser_decimals() {
    let e = BareComparison::Exact;
    let (b, q, v) = parse_cmp_decimal(">=1.25", e).unwrap();
    assert!(b && q);
    assert_eq!(v, dec(false, 125, 2));
    let (b, q, v) = parse_cmp_decimal("<10", e).unwrap();
    assert!(!b && !q);
    assert_eq!(v, dec(false, 10, 0));
    let (_, _, v) = parse_cmp_decimal("0.5", e).unwrap();
    assert_eq!(v, dec(false, 5, 1));
}

#[test]
fn comparison_without_number_is_malformed() {
    for s in [">", "<", ">=", "<="] {
        match parse_cmp_decimal(s, BareComparison::Exact) {
            Err(QueryError::MalformedComparison(t)) => assert_eq!(t, ""),
            _ => panic!("expected a malformed comparison for {s}"),
        }
        assert!(matches!(parse_cmp_int(s, BareComparison::Greater), Err(QueryError::MalformedComparison(_))));
    }
    match parse_cmp_int(">=abc", BareComparison::Exact) {
        Err(QueryError::MalformedComparison(t)) => assert_eq!(t, "abc"),
        _ => panic!("expected a malformed comparison"),
    }
}

#[test]
fn split_keeps_the_number_text() {
    assert_eq!(split_cmp(">=12", BareComparison::Exact), (true, true, "12"));
    assert_eq!(split_cmp("x", BareComparison::Greater), (true, false, "x"));
}

#[test]
fn kind_parse_each_kind() {
    assert!(ItemKind::Bool.parse("true").unwrap() == ItemValue::Bool(true));
    assert!(ItemKind::Bool.parse("false").unwrap() == ItemValue::Bool(false));
    assert!(matches!(ItemKind::Bool.parse("yes"), Err(QueryError::TypeMismatch(_))));
    assert!(ItemKind::Int.parse("-12").unwrap() == ItemValue::Int(-12));
    assert!(ItemKind::Int.parse("+12").unwrap() == ItemValue::Int(12));
    assert!(matches!(ItemKind::Int.parse("abc"), Err(QueryError::TypeMismatch(_))));
    assert!(matches!(ItemKind::Int.parse(""), Err(QueryError::TypeMismatch(_))));
    assert!(matches!(ItemKind::Int.parse("9223372036854775808"), Err(QueryError::TypeMismatch(_))));
    assert!(ItemKind::Int.parse("-9223372036854775808").unwrap() == ItemValue::Int(i64::MIN));
    assert!(ItemKind::Float.parse("2.50").unwrap() == ItemValue::Float(dec(false, 25, 1)));
    assert!(matches!(ItemKind::Float.parse("."), Err(QueryError::TypeMismatch(_))));
    assert!(matches!(ItemKind::Float.parse("1.2.3"), Err(QueryError::TypeMismatch(_))));
    match ItemKind::String.parse(" a \"b\" ") {
        Ok(ItemValue::String(s)) => assert_eq!(s, " a \"b\" "),
        _ => panic!("strings parse verbatim"),
    }
    assert!(ItemKind::CmpInt.parse(">=10").unwrap() == ItemValue::CmpInt { eq: true, bigger: true, value: 10 });
    assert!(ItemKind::CmpFloat.parse("<1.5").unwrap()
        == ItemValue::CmpFloat { eq: false, bigger: false, value: dec(false, 15, 1) });
    assert!(matches!(ItemKind::CmpInt.parse("<1.5"), Err(QueryError::MalformedComparison(_))));
    assert!(ItemKind::CmpInt.parse_with("4", BareComparison::Greater).unwrap()
        == ItemValue::CmpInt { eq: false, bigger: true, value: 4 });
}

fn registry() -> Registry {
    Registry::new(vec![
        Field::new("status".to_string(), vec!["s".to_string(), "st".to_string()], ItemKind::Int),
        Field::new("chapters".to_string(), vec!["ch".to_string()], ItemKind::CmpInt),
        Field::new("tag".to_string(), vec![], ItemKind::String),
    ])
}

#[test]
fn registry_lookup() {
    let reg = registry();
    let by_name = reg.lookup("status").unwrap();
    let by_abbr = reg.lookup("st").unwrap();
    assert!(std::ptr::eq(by_name, by_abbr));
    assert!(std::ptr::eq(reg.lookup("s").unwrap(), by_name));
    assert_eq!(reg.lookup("ch").unwrap().name, "chapters");
    match reg.lookup("author") {
        Err(QueryError::UnknownField(t)) => assert_eq!(t, "author"),
        _ => panic!("unknown field expected"),
    }
    assert!(matches!(reg.lookup("Status"), Err(QueryError::UnknownField(_))));
}

#[test]
fn registry_parse_uses_canonical_name() {
    let reg = registry();
    let d = reg.parse("ch", ">=10").unwrap();
    assert_eq!(d.name, "chapters");
    assert!(d.value == ItemValue::CmpInt { eq: true, bigger: true, value: 10 });
    assert!(matches!(reg.parse("s", "abc"), Err(QueryError::TypeMismatch(_))));
    assert!(matches!(reg.parse("nope", "1"), Err(QueryError::UnknownField(_))));
    assert_eq!(Item::new(reg.parse("tag", "romance").unwrap()).to_string(), "tag:\"romance\"");
}

#[test]
fn tree_equality() {
    let make = |v: u64| {
        ItemOrArray::Array(Array {
            or: true,
            items: vec![
                ItemOrArray::Item(Item::new(data("score", ItemValue::Float(dec(false, v, 5))))),
                ItemOrArray::Array(Array { or: false, items: vec![] }),
            ],
        })
    };
    assert!(make(100001) == make(100002));
    assert!(make(100001) != make(110000));
    let other = ItemOrArray::Array(Array { or: false, items: vec![] });
    assert!(make(1) != other);
    let single = ItemOrArray::Item(Item::new(data("score", ItemValue::Int(1))));
    assert!(single != other);
    assert!(Item::new(data("a", ItemValue::Int(1))) != Item::new_exclude(data("a", ItemValue::Int(1))));
    assert!(data("a", ItemValue::Int(1)) != data("b", ItemValue::Int(1)));
}

#[test]
fn comparison_grammar_examples() {
    for (s, flags) in [("12", (false, true)), ("=12", (false, true)), (">12", (true, false)), ("<=12", (false, true))] {
        let (b, e, v) = parse_cmp_int(s, BareComparison::Exact).unwrap();
        assert_eq!((b, e, v), (flags.0, flags.1, 12));
        let (b2, e2, d) = parse_cmp_decimal(&format!("{s}.50"), BareComparison::Exact).unwrap();
        assert_eq!((b2, e2), flags);
        assert_eq!(d, dec(false, 1250, 2));
    }
}

#[test]
fn long_numerals_round_to_nineteen_digits() {
    let v = ItemKind::Float.parse("99999999999999999999").unwrap();
    assert!(v == ItemValue::Float(dec(false, 10_000_000_000_000_000_000, -1)));
    assert_eq!(v.to_string(), "100000000000000000000");
    match ItemKind::CmpFloat.parse(">=99999999999999999999") {
        Ok(ItemValue::CmpFloat { eq, bigger, value }) => {
            assert!(eq && bigger);
            assert_eq!(value, dec(false, 10_000_000_000_000_000_000, -1));
        }
        _ => panic!("long numerals parse"),
    }
    let (_, _, d) = parse_cmp_decimal("0.1234567890123456789012", BareComparison::Exact).unwrap();
    assert_eq!(d, dec(false, 1_234_567_890_123_456_789, 19));
    let (_, _, d) = parse_cmp_decimal("12345678901234567895", BareComparison::Exact).unwrap();
    assert_eq!(d, dec(false, 1_234_567_890_123_456_790, -1));
    let (_, _, d) = parse_cmp_decimal("12345678901234567885", BareComparison::Exact).unwrap();
    assert_eq!(d, dec(false, 1_234_567_890_123_456_788, -1));
    let (_, _, d) = parse_cmp_decimal("12345678901234567885000001", BareComparison::Exact).unwrap();
    assert_eq!(d, dec(false, 1_234_567_890_123_456_789, -7));
}

#[test]
fn long_fractions_parse_and_render() {
    let mut text = "0.".to_string();
    for _ in 0..300 {
        text.push('0');
    }
    text.push('5');
    let v = ItemKind::Float.parse(&text).unwrap();
    assert!(v == ItemValue::Float(dec(false, 5, 301)));
    assert_eq!(v.to_string(), text);
    assert!(v == ItemValue::Float(dec(false, 0, 0)));
    assert!(matches!(ItemKind::Float.parse("inf"), Err(QueryError::TypeMismatch(_))));
    assert_eq!(ItemValue::Float(dec(false, 12, -3)).to_string(), "12000");
    assert_eq!(ItemValue::Float(dec(true, 0, -3)).to_string(), "-0");
}

#[test]
fn exponent_forms_parse() {
    assert!(ItemKind::Float.parse("1e5").unwrap() == ItemValue::Float(dec(false, 1, -5)));
    assert_eq!(ItemKind::Float.parse("1e5").unwrap().to_string(), "100000");
    assert!(ItemKind::Float.parse("2.5E-3").unwrap() == ItemValue::Float(dec(false, 25, 4)));
    assert_eq!(ItemKind::Float.parse("-2.5e+2").unwrap().to_string(), "-250");
    assert_eq!(ItemKind::Float.parse(".5e1").unwrap().to_string(), "5");
    assert!(ItemKind::CmpFloat.parse(">=1e3").unwrap()
        == ItemValue::CmpFloat { eq: true, bigger: true, value: dec(false, 1, -3) });
    for bad in ["1e", "1e+", "e5", "1e5.0", "1ee5", "1e99999999999999999999", "NaN", "inf", "1.2.3"] {
        assert!(matches!(ItemKind::Float.parse(bad), Err(QueryError::TypeMismatch(_))), "{bad}");
    }
    assert!(matches!(ItemKind::CmpFloat.parse("<=e3"), Err(QueryError::MalformedComparison(_))));
}
