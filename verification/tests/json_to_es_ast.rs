use serde_json::{Number, Value};
use swc_core::common::sync::Lrc;
use swc_core::common::{source_map, DUMMY_SP};
use swc_core::ecma::ast;
use swc_core::ecma::codegen;
use swc_plugin_jsx_attrs::ast::{Expr, KeyValueProp};
use swc_plugin_jsx_attrs::json::{JsonMember, JsonValue};
use swc_plugin_jsx_attrs::utils::json_to_es_ast::{json_to_es_ast, literal_to_json};

/// The library's value for a value of serde_json, members in the order in
/// which serde_json walks them.
fn to_json(value: &Value) -> JsonValue {
    match value {
        Value::Null => JsonValue::Null,
        Value::Bool(b) => JsonValue::Bool(*b),
        Value::Number(n) => JsonValue::Number(n.as_f64().unwrap_or_default().to_bits()),
        Value::String(s) => JsonValue::String(s.clone()),
        Value::Array(items) => JsonValue::Array(items.iter().map(to_json).collect()),
        Value::Object(members) => JsonValue::Object(
            members
                .iter()
                .map(|(key, value)| JsonMember { key: key.clone(), value: to_json(value) })
                .collect(),
        ),
    }
}

/// The node of the host's tree for a literal expression of the library.
fn to_swc(expr: &Expr) -> Box<ast::Expr> {
    let node = match expr {
        Expr::Null => ast::Expr::Lit(ast::Lit::Null(ast::Null { span: DUMMY_SP })),
        Expr::Bool(b) => ast::Expr::Lit(ast::Lit::Bool((*b).into())),
        Expr::Num(bits) => ast::Expr::Lit(ast::Lit::Num(f64::from_bits(*bits).into())),
        Expr::Str(s) => ast::Expr::Lit(ast::Lit::Str(s.clone().into())),
        Expr::Array(elems) => ast::Expr::Array(ast::ArrayLit {
            span: DUMMY_SP,
            elems: elems.iter().map(|elem| Some(to_swc(elem).into())).collect(),
        }),
        Expr::Object(props) => ast::Expr::Object(ast::ObjectLit {
            span: DUMMY_SP,
            props: props
                .iter()
                .map(|KeyValueProp { key, value }| {
                    ast::PropOrSpread::Prop(Box::new(ast::Prop::KeyValue(ast::KeyValueProp {
                        key: ast::PropName::Str(key.clone().into()),
                        value: to_swc(value),
                    })))
                })
                .collect(),
        }),
    };
    Box::new(node)
}

fn print_module(module: &ast::Module) -> String {
    let sm = Lrc::from(source_map::SourceMap::new(Default::default()));
    let mut buf = vec![];
    {
        let mut emitter = codegen::Emitter {
            cfg: Default::default(),
            comments: None,
            cm: sm.clone(),
            wr: Box::new(codegen::text_writer::JsWriter::new(sm.clone(), "\n", &mut buf, None)),
        };
        emitter.emit_module(module).unwrap();
    }
    String::from_utf8_lossy(&buf).to_string()
}

fn test_fixture(json: Value, should_be: &str) {
    let compiled = json_to_es_ast(&to_json(&json));
    let s = print_module(&ast::Module {
        span: DUMMY_SP,
        body: vec![ast::ModuleItem::Stmt(ast::Stmt::Expr(ast::ExprStmt {
            span: DUMMY_SP,
            expr: to_swc(&compiled),
        }))],
        shebang: None,
    });
    assert_eq!(s.as_str(), should_be);
}

#[test]
fn test_primitive() {
    test_fixture(Value::Number(Number::from(123)), "123;\n");
    test_fixture(Value::Null, "null;\n");
    test_fixture(Value::Bool(true), "true;\n");
    test_fixture(Value::Bool(false), "false;\n");
    test_fixture(Value::String("\u{4f60}\u{597d}".to_string()), "\"\u{4f60}\u{597d}\";\n");
}

#[test]
fn test_array() {
    test_fixture(Value::Array(vec![]), "[];\n");
    test_fixture(
        Value::Array(vec![
            Value::Number(Number::from(123)),
            Value::Null,
            Value::Bool(true),
            Value::Bool(false),
            Value::String("hello".to_string()),
        ]),
        "[\n    123,\n    null,\n    true,\n    false,\n    \"hello\"\n];\n",
    );
}

#[test]
fn test_object() {
    test_fixture(Value::Object(serde_json::Map::new()), "{};\n");
    let mut members = serde_json::Map::new();
    members.insert("hello".to_string(), Value::Array(vec![]));
    members.insert("Xxx".to_string(), Value::Bool(false));
    test_fixture(
        Value::Object(members),
        "{\n    \"Xxx\": false,\n    \"hello\": []\n};\n",
    );
}

#[test]
fn scalars_compile_to_the_literal_of_their_kind() {
    assert_eq!(*json_to_es_ast(&JsonValue::Null), Expr::Null);
    assert_eq!(*json_to_es_ast(&JsonValue::Bool(true)), Expr::Bool(true));
    assert_eq!(*json_to_es_ast(&JsonValue::Bool(false)), Expr::Bool(false));
    assert_eq!(
        *json_to_es_ast(&JsonValue::Number(1.5f64.to_bits())),
        Expr::Num(0x3ff8_0000_0000_0000)
    );
    assert_eq!(
        *json_to_es_ast(&JsonValue::String("a\u{e9}\u{4f60}".to_string())),
        Expr::Str("a\u{e9}\u{4f60}".to_string())
    );
}

#[test]
fn number_keeps_the_bits_it_was_given() {
    let big = 9007199254740993u64 as f64;
    assert_eq!(big, 9007199254740992.0);
    assert_eq!(*json_to_es_ast(&JsonValue::Number(big.to_bits())), Expr::Num(big.to_bits()));
    assert_eq!(
        *json_to_es_ast(&JsonValue::Number((-0.0f64).to_bits())),
        Expr::Num(0x8000_0000_0000_0000)
    );
}

#[test]
fn array_keeps_order_and_nesting() {
    let value = JsonValue::Array(vec![
        JsonValue::Number(2.0f64.to_bits()),
        JsonValue::Array(vec![JsonValue::Null, JsonValue::String("x".to_string())]),
        JsonValue::Bool(false),
    ]);
    assert_eq!(
        *json_to_es_ast(&value),
        Expr::Array(vec![
            Expr::Num(2.0f64.to_bits()),
            Expr::Array(vec![Expr::Null, Expr::Str("x".to_string())]),
            Expr::Bool(false),
        ])
    );
}

#[test]
fn object_keeps_members_in_the_order_held() {
    let value = JsonValue::Object(vec![
        JsonMember { key: "z".to_string(), value: JsonValue::Bool(true) },
        JsonMember { key: "a".to_string(), value: JsonValue::Object(vec![]) },
        JsonMember { key: "z".to_string(), value: JsonValue::Null },
    ]);
    assert_eq!(
        *json_to_es_ast(&value),
        Expr::Object(vec![
            KeyValueProp { key: "z".to_string(), value: Expr::Bool(true) },
            KeyValueProp { key: "a".to_string(), value: Expr::Object(vec![]) },
            KeyValueProp { key: "z".to_string(), value: Expr::Null },
        ])
    );
}

#[test]
fn deep_clone_copies_the_whole_tree() {
    let value = JsonValue::Object(vec![JsonMember {
        key: "k".to_string(),
        value: JsonValue::Array(vec![JsonValue::Number(7), JsonValue::String("s".to_string())]),
    }]);
    assert_eq!(value.deep_clone(), value);
    let expr = json_to_es_ast(&value);
    assert_eq!(expr.deep_clone(), *expr);
    assert_eq!(Expr::Null.deep_clone(), Expr::Null);
}

#[test]
fn compiled_literal_reads_back_as_the_value() {
    let values = vec![
        JsonValue::Null,
        JsonValue::Bool(true),
        JsonValue::Number(123.0f64.to_bits()),
        JsonValue::Number(f64::MAX.to_bits()),
        JsonValue::String(String::new()),
        JsonValue::String("\u{4f60}\u{597d}".to_string()),
        JsonValue::Array(vec![]),
        JsonValue::Object(vec![]),
        JsonValue::Array(vec![
            JsonValue::Object(vec![
                JsonMember { key: "b".to_string(), value: JsonValue::Array(vec![JsonValue::Null]) },
                JsonMember { key: "a".to_string(), value: JsonValue::Bool(false) },
            ]),
            JsonValue::Number(0),
        ]),
    ];
    for value in values {
        assert_eq!(literal_to_json(&json_to_es_ast(&value)), value);
    }
    assert_eq!(
        literal_to_json(&Expr::Array(vec![Expr::Num(5), Expr::Str("s".to_string())])),
        JsonValue::Array(vec![JsonValue::Number(5), JsonValue::String("s".to_string())])
    );
}
