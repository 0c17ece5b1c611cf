use jpq::environment::Env;
use jpq::num::{dec_cmp, Decimal};
use jpq::token::token_kind_text;
use jpq::value::JsonValue;
use jpq::{ExpressionType, FunctionSignature, JSONPathErrorType, Token, TokenType};

fn env() -> Env {
    Env::new(Vec::new(), true)
}

fn doc_ab() -> JsonValue {
    // {"a":[1,2,3],"b":{"a":4}}
    JsonValue::Object(vec![
        (
            "a".to_string(),
            JsonValue::Array(vec![
                JsonValue::from_int(1),
                JsonValue::from_int(2),
                JsonValue::from_int(3),
            ]),
        ),
        (
            "b".to_string(),
            JsonValue::Object(vec![("a".to_string(), JsonValue::from_int(4))]),
        ),
    ])
}

#[test]
fn token_new_keeps_kind_and_span() {
    let t = Token::new(TokenType::Root, 0, 1);
    assert!(matches!(t.kind, TokenType::Root));
    assert_eq!(t.span, (0, 1));
}

#[test]
fn decimal_compare_is_exact() {
    // 1.5 < 2, 2 == 2.0, 3 > 2.5
    assert_eq!(dec_cmp(&Decimal::new(15, -1), &Decimal::from_int(2)), -1);
    assert_eq!(dec_cmp(&Decimal::from_int(2), &Decimal::new(20, -1)), 0);
    assert_eq!(dec_cmp(&Decimal::from_int(3), &Decimal::new(25, -1)), 1);
}

#[test]
fn chained_comparison_is_a_syntax_error() {
    let e = env();
    let r = e.compile("$[?@.a < @.b < @.c]");
    assert!(matches!(r.unwrap_err().kind, JSONPathErrorType::SyntaxError));
}

#[test]
fn unknown_function_is_a_name_error() {
    let e = env();
    let r = e.compile("$[?foo(@)]");
    assert!(matches!(r.unwrap_err().kind, JSONPathErrorType::NameError));
}

#[test]
fn non_singular_comparison_is_a_type_error() {
    let e = env();
    let r = e.compile("$[?@.*==1]");
    assert!(matches!(r.unwrap_err().kind, JSONPathErrorType::TypeError));
}

#[test]
fn missing_member_yields_nothing() {
    // {"a":{"b":1}}, $.a.c -> []
    let e = env();
    let doc = JsonValue::Object(vec![(
        "a".to_string(),
        JsonValue::Object(vec![("b".to_string(), JsonValue::from_int(1))]),
    )]);
    let nodes = e.find("$.a.c", &doc).unwrap();
    assert_eq!(nodes.len(), 0);
}

#[test]
fn member_access_finds_one_node() {
    let e = env();
    let doc = doc_ab();
    let nodes = e.find("$.b.a", &doc).unwrap();
    assert_eq!(nodes.len(), 1);
    assert_eq!(nodes[0].path(), "$['b']['a']");
    assert!(nodes[0].value.deep_eq(&JsonValue::from_int(4)));
}

#[test]
fn slice_with_step_two() {
    // [0,1,2,3,4,5], $[1:5:2] -> [("$[1]",1), ("$[3]",3)]
    let e = env();
    let doc = JsonValue::Array((0..6).map(JsonValue::from_int).collect());
    let nodes = e.find("$[1:5:2]", &doc).unwrap();
    let got: Vec<(String, &JsonValue)> = nodes.iter().map(|n| (n.path(), &n.value)).collect();
    assert_eq!(nodes.len(), 2);
    assert_eq!(got[0].0, "$[1]");
    assert!(got[0].1.deep_eq(&JsonValue::from_int(1)));
    assert_eq!(got[1].0, "$[3]");
    assert!(got[1].1.deep_eq(&JsonValue::from_int(3)));
}

#[test]
fn negative_step_slice() {
    // [0,1,2,3,4,5], $[::-2] -> 5, 3, 1
    let e = env();
    let doc = JsonValue::Array((0..6).map(JsonValue::from_int).collect());
    let nodes = e.find("$[::-2]", &doc).unwrap();
    assert_eq!(nodes.len(), 3);
    assert_eq!(nodes[0].path(), "$[5]");
    assert_eq!(nodes[1].path(), "$[3]");
    assert_eq!(nodes[2].path(), "$[1]");
}

#[test]
fn recursive_descent_collects_members() {
    // {"a":[1,2,3],"b":{"a":4}}, $..a
    let e = env();
    let doc = doc_ab();
    let nodes = e.find("$..a", &doc).unwrap();
    assert_eq!(nodes.len(), 2);
    assert_eq!(nodes[0].path(), "$['a']");
    assert_eq!(nodes[1].path(), "$['b']['a']");
    assert!(nodes[1].value.deep_eq(&JsonValue::from_int(4)));
}

#[test]
fn filter_comparison_selects_matching_elements() {
    // {"items":[{"p":1},{"p":2},{"p":3}]}, $.items[?@.p>1]
    let e = env();
    let doc = JsonValue::Object(vec![(
        "items".to_string(),
        JsonValue::Array(vec![
            JsonValue::Object(vec![("p".to_string(), JsonValue::from_int(1))]),
            JsonValue::Object(vec![("p".to_string(), JsonValue::from_int(2))]),
            JsonValue::Object(vec![("p".to_string(), JsonValue::from_int(3))]),
        ]),
    )]);
    let nodes = e.find("$.items[?@.p>1]", &doc).unwrap();
    assert_eq!(nodes.len(), 2);
    assert_eq!(nodes[0].path(), "$['items'][1]");
    assert_eq!(nodes[1].path(), "$['items'][2]");
}

#[test]
fn length_function_on_a_string() {
    // {"x":"abc"}: the filter visits the one member value "abc", whose
    // length is 3.
    let e = env();
    let doc = JsonValue::Object(vec![(
        "x".to_string(),
        JsonValue::Str("abc".to_string()),
    )]);
    let nodes = e.find("$[?length(@)==3]", &doc).unwrap();
    assert_eq!(nodes.len(), 1);
    assert_eq!(nodes[0].path(), "$['x']");
    let none = e.find("$[?length(@)==4]", &doc).unwrap();
    assert_eq!(none.len(), 0);
}

#[test]
fn length_of_member_query_inside_a_filter() {
    // {"x":"abc"}: the filter visits the member value "abc"; on that string
    // `@.x` matches nothing, so `length(@.x)` is nothing and nothing is
    // selected.
    let e = env();
    let doc = JsonValue::Object(vec![(
        "x".to_string(),
        JsonValue::Str("abc".to_string()),
    )]);
    let nodes = e.find("$[?length(@.x)==3]", &doc).unwrap();
    assert_eq!(nodes.len(), 0);
}

#[test]
fn normalized_path_escapes_member_names() {
    // A member name holding a quote and a backslash is escaped in the
    // rendered path exactly as the printer escapes it.
    let e = env();
    let doc = JsonValue::Object(vec![(
        "a'\\b".to_string(),
        JsonValue::from_int(1),
    )]);
    let nodes = e.find("$[*]", &doc).unwrap();
    assert_eq!(nodes.len(), 1);
    assert_eq!(nodes[0].path(), "$['a\\'\\\\b']");
}

#[test]
fn object_equality_is_symmetric_on_repeated_keys() {
    // {"a":1,"a":2} and {"a":1,"a":1} are unequal in both directions.
    let x = JsonValue::Object(vec![
        ("a".to_string(), JsonValue::from_int(1)),
        ("a".to_string(), JsonValue::from_int(2)),
    ]);
    let y = JsonValue::Object(vec![
        ("a".to_string(), JsonValue::from_int(1)),
        ("a".to_string(), JsonValue::from_int(1)),
    ]);
    assert!(!x.deep_eq(&y));
    assert!(!y.deep_eq(&x));
    assert!(x.deep_eq(&x));
    assert!(y.deep_eq(&y));
}

#[test]
fn error_spans_are_byte_offsets() {
    let e = env();
    // The second comparison operator stands at bytes 13..14.
    let err = e.compile("$[?@.a < @.b < @.c]").unwrap_err();
    assert_eq!(err.span(), (13, 14));
    assert!(err.message().ends_with("(13..14)"));
    // A two-byte character before the offending token shifts its byte span.
    let err2 = e.compile("$['\u{e9}']#").unwrap_err();
    assert!(matches!(err2.kind, JSONPathErrorType::SyntaxError));
    assert_eq!(err2.span(), (7, 8));
}

#[test]
fn registered_extension_type_checks_but_does_not_evaluate() {
    let e = Env::new(
        vec![(
            "foo".to_string(),
            FunctionSignature {
                param_types: vec![ExpressionType::Nodes],
                return_type: ExpressionType::Logical,
            },
        )],
        true,
    );
    let q = e.compile("$[?foo(@)]").unwrap();
    let doc = JsonValue::Array(vec![JsonValue::from_int(1)]);
    let err = e.query(q, &doc).unwrap_err();
    assert!(matches!(err.kind, JSONPathErrorType::ExtError));
}

#[test]
fn token_kind_text_renders_the_category() {
    assert_eq!(token_kind_text(&TokenType::Root), "`$`");
    assert_eq!(token_kind_text(&TokenType::Eoq), "`end of query`");
    assert_eq!(
        token_kind_text(&TokenType::Name {
            value: "price".to_string()
        }),
        "`price`"
    );
    assert_eq!(
        token_kind_text(&TokenType::Int {
            value: "42".to_string()
        }),
        "42"
    );
}

#[test]
fn printed_query_reparses_equal() {
    let e = env();
    let q1 = e.compile("$['a'][1:5:2][?@.p > 1 && @.q == 'x']").unwrap();
    let printed = q1.to_query_string();
    let q2 = e.compile(&printed).unwrap();
    assert_eq!(q1, q2);
}

#[test]
fn filter_true_acts_as_wildcard() {
    let e = env();
    let doc = JsonValue::Array(vec![JsonValue::from_int(7), JsonValue::Null]);
    let all = e.find("$[?true]", &doc).unwrap();
    let wild = e.find("$[*]", &doc).unwrap();
    assert_eq!(all.len(), wild.len());
    assert_eq!(all.len(), 2);
    let none = e.find("$[?false]", &doc).unwrap();
    assert_eq!(none.len(), 0);
}

#[test]
fn singular_query_yields_at_most_one() {
    let e = env();
    let q = e.compile("$.a[0].b").unwrap();
    assert!(q.is_singular());
    let nodes = e.query(q, &doc_ab()).unwrap();
    assert!(nodes.len() <= 1);
}

#[test]
fn search_function_uses_the_pattern() {
    let e = env();
    let doc = JsonValue::Object(vec![(
        "x".to_string(),
        JsonValue::Str("hello world".to_string()),
    )]);
    let found = e.find("$[?search(@, 'wor')]", &doc).unwrap();
    assert_eq!(found.len(), 1);
    let not_found = e.find("$[?search(@, 'xyz')]", &doc).unwrap();
    assert_eq!(not_found.len(), 0);
}
