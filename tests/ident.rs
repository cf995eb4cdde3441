use ts_bindgen::ident::{
    chars_of, to_camel_case_ident, to_ident, to_ns_name, to_snake_case_ident, to_unique_ident,
    Identifier,
};

fn rendered(i: &Identifier) -> String {
    i.render()
}

#[test]
fn sanitize_keeps_a_plain_name() {
    assert_eq!(rendered(&to_ident("foo")), "foo");
    assert_eq!(rendered(&to_ident("Foo9_x")), "Foo9_x");
}

#[test]
fn sanitize_suffixes_keywords() {
    assert_eq!(rendered(&to_ident("fn")), "fn_");
    assert_eq!(rendered(&to_ident("self")), "self_");
    assert_eq!(rendered(&to_ident("Self")), "Self_");
    assert_eq!(rendered(&to_ident("type")), "type_");
}

#[test]
fn sanitize_empty_and_underscore() {
    assert_eq!(rendered(&to_ident("")), "__");
    assert_eq!(rendered(&to_ident("_")), "__");
    assert_eq!(rendered(&to_ident("__")), "__");
}

#[test]
fn sanitize_drops_bad_openings_and_replaces_bad_characters() {
    assert_eq!(rendered(&to_ident("1abc")), "abc");
    assert_eq!(rendered(&to_ident("_x")), "x");
    assert_eq!(rendered(&to_ident("a-b.c")), "a_b_c");
    assert_eq!(rendered(&to_ident("$el")), "el");
    assert_eq!(rendered(&to_ident("é1")), "é1");
}

#[test]
fn sanitize_twice_is_sanitize_once() {
    for s in ["", "_", "fn", "1abc", "a-b", "__x", "-1", "self", "x y z", "9", "abstract"] {
        let once = rendered(&to_ident(s));
        let twice = rendered(&to_ident(once.as_str()));
        assert_eq!(once, twice, "input {:?}", s);
    }
}

#[test]
fn sanitize_of_rendered_identifier_is_the_identifier() {
    for s in ["foo", "fn", "", "a.b", "0x"] {
        let id = to_ident(s);
        let again = to_ident(id.render().as_str());
        assert_eq!(again.type_parts, id.type_parts);
        assert_eq!(again.type_params, id.type_params);
    }
}

#[test]
fn snake_and_camel_forms() {
    assert_eq!(rendered(&to_snake_case_ident("fooBar")), "foo_bar");
    assert_eq!(rendered(&to_snake_case_ident("XMLHttpRequest")), "xml_http_request");
    assert_eq!(rendered(&to_camel_case_ident("foo_bar")), "FooBar");
    assert_eq!(rendered(&to_camel_case_ident("point")), "Point");
    assert_eq!(rendered(&to_snake_case_ident("type")), "type_");
}

#[test]
fn namespace_names_lose_the_declaration_suffix() {
    assert_eq!(rendered(&to_ns_name("m.d.ts")), "m");
    assert_eq!(rendered(&to_ns_name("my-file.ts")), "my_file");
    assert_eq!(rendered(&to_ns_name("index.js")), "index_js");
    assert_eq!(rendered(&to_ns_name("SomeDir")), "some_dir");
}

#[test]
fn unique_names_gain_underscores() {
    let taken = vec!["extra_fields".to_string(), "extra_fields_".to_string()];
    assert_eq!(rendered(&to_unique_ident("extra_fields".to_string(), &taken)), "extra_fields__");
    let none: Vec<String> = vec![];
    assert_eq!(rendered(&to_unique_ident("extra_fields".to_string(), &none)), "extra_fields");
}

#[test]
fn rendering_joins_segments_and_type_parameters() {
    let id = Identifier {
        type_parts: vec!["a".to_string(), "B".to_string()],
        type_params: vec!["T".to_string(), "U".to_string()],
    };
    assert_eq!(id.render(), "a::B<T,U>");
    let plain = Identifier { type_parts: vec!["x".to_string()], type_params: vec![] };
    assert_eq!(plain.render(), "x");
}

#[test]
fn chars_of_keeps_order() {
    assert_eq!(chars_of("héllo"), vec!['h', 'é', 'l', 'l', 'o']);
}
