use d_mark::{ElementNode, Error, Node, StringNode, Parser};

fn el(name: &str, attrs: Vec<(&str, &str)>, children: Vec<Node>) -> Node {
    Node::Element(ElementNode {
        name: name.to_string(),
        attributes: attrs
            .into_iter()
            .map(|(k, v)| (k.to_string(), v.to_string()))
            .collect(),
        children,
    })
}

fn txt(content: &str) -> Node {
    Node::String(StringNode { content: content.to_string() })
}

#[test]
fn parser_parse_inline_string() {
    assert_eq!(
        Parser::new("#p hai").run().unwrap(),
        vec![el("p", vec![], vec![txt("hai")])]
    );
}

#[test]
fn parser_parse_inline_string_empty() {
    assert_eq!(
        Parser::new("#p ").run().unwrap(),
        vec![el("p", vec![], vec![])]
    );
}

#[test]
fn parser_parse_inline_element_empty() {
    assert_eq!(
        Parser::new("#p %foo{}").run().unwrap(),
        vec![el("p", vec![], vec![el("foo", vec![], vec![])])]
    );
}

#[test]
fn parser_parse_inline_element_str() {
    assert_eq!(
        Parser::new("#p %foo{abc}").run().unwrap(),
        vec![el("p", vec![], vec![el("foo", vec![], vec![txt("abc")])])]
    );
}

#[test]
fn parser_parse_inline_element_wrapped() {
    assert_eq!(
        Parser::new("#p alpha %foo{abc} omega").run().unwrap(),
        vec![el(
            "p",
            vec![],
            vec![
                txt("alpha "),
                el("foo", vec![], vec![txt("abc")]),
                txt(" omega"),
            ]
        )]
    );
}

#[test]
fn parser_parse_inline_element_nested() {
    assert_eq!(
        Parser::new("#p %foo{%bar{}}").run().unwrap(),
        vec![el(
            "p",
            vec![],
            vec![el("foo", vec![], vec![el("bar", vec![], vec![])])]
        )]
    );
}

#[test]
fn parser_parse_inline_element_escaped() {
    assert_eq!(
        Parser::new("#p a %% b").run(),
        Ok(vec![el("p", vec![], vec![txt("a "), txt("%"), txt(" b")])])
    );
}

#[test]
fn parser_parse_inline_element_eof1() {
    assert_eq!(Parser::new("#p a %").run(), Err(Error::UnexpectedEOF));
}

#[test]
fn parser_parse_inline_element_eof2() {
    assert_eq!(Parser::new("#p a %a").run(), Err(Error::UnexpectedEOF));
}

#[test]
fn parser_parse_inline_element_eof3() {
    assert_eq!(Parser::new("#p a %a{").run(), Err(Error::UnexpectedEOF));
}

#[test]
fn parser_parse_inline_element_nl1() {
    assert_eq!(
        Parser::new("#p a %\nb{}").run(),
        Err(Error::InvalidCharInName)
    );
}

#[test]
fn parser_parse_inline_element_nl2() {
    assert_eq!(
        Parser::new("#p a %a\nb{}").run(),
        Err(Error::ExpectedLeftBrace)
    );
}

#[test]
fn parser_parse_inline_element_nl3() {
    assert_eq!(
        Parser::new("#p a %a{\nb}").run(),
        Err(Error::ExpectedRightBrace)
    );
}

#[test]
fn parser_parse_inline_element_nl4() {
    assert_eq!(
        Parser::new("#p a %a{b\n}").run(),
        Err(Error::ExpectedRightBrace)
    );
}

#[test]
fn parser_parse_inline_attr_empty() {
    assert_eq!(
        Parser::new("#p foo %aaa[]{stuff} bar").run(),
        Ok(vec![el(
            "p",
            vec![],
            vec![
                txt("foo "),
                el("aaa", vec![], vec![txt("stuff")]),
                txt(" bar"),
            ]
        )])
    );
}

#[test]
fn parser_parse_inline_attr_single_pair() {
    assert_eq!(
        Parser::new("#p foo %aaa[x=1]{stuff} bar").run(),
        Ok(vec![el(
            "p",
            vec![],
            vec![
                txt("foo "),
                el("aaa", vec![("x", "1")], vec![txt("stuff")]),
                txt(" bar"),
            ]
        )])
    );
}

#[test]
fn parser_parse_inline_attr_just_key() {
    assert_eq!(
        Parser::new("#p foo %aaa[static]{stuff} bar").run(),
        Ok(vec![el(
            "p",
            vec![],
            vec![
                txt("foo "),
                el("aaa", vec![("static", "static")], vec![txt("stuff")]),
                txt(" bar"),
            ]
        )])
    );
}

#[test]
fn parser_parse_inline_attr_escape_percentage() {
    assert_eq!(
        Parser::new("#p foo %aaa[x=a%%b]{stuff} bar").run(),
        Ok(vec![el(
            "p",
            vec![],
            vec![
                txt("foo "),
                el("aaa", vec![("x", "a%b")], vec![txt("stuff")]),
                txt(" bar"),
            ]
        )])
    );
}

#[test]
fn parser_parse_inline_attr_escape_comma() {
    assert_eq!(
        Parser::new("#p foo %aaa[x=a%,b]{stuff} bar").run(),
        Ok(vec![el(
            "p",
            vec![],
            vec![
                txt("foo "),
                el("aaa", vec![("x", "a,b")], vec![txt("stuff")]),
                txt(" bar"),
            ]
        )])
    );
}

#[test]
fn parser_parse_inline_attr_escape_other() {
    assert_eq!(
        Parser::new("#p foo %aaa[x=a%?b]{stuff} bar").run(),
        Err(Error::UnexpectedEscapeSequence),
    );
}

#[test]
fn parser_parse_inline_attr_escape_rbracket() {
    assert_eq!(
        Parser::new("#p foo %aaa[x=a%]b]{stuff} bar").run(),
        Ok(vec![el(
            "p",
            vec![],
            vec![
                txt("foo "),
                el("aaa", vec![("x", "a]b")], vec![txt("stuff")]),
                txt(" bar"),
            ]
        )])
    );
}

#[test]
fn parser_parse_inline_attr_escape_eol() {
    assert_eq!(
        Parser::new("#p foo %aaa[x=a%\n]b]{stuff} bar").run(),
        Err(Error::UnexpectedEOL),
    );
}

#[test]
fn parser_parse_inline_attr_escape_eof() {
    assert_eq!(
        Parser::new("#p foo %aaa[x=a%").run(),
        Err(Error::UnexpectedEOF),
    );
}

#[test]
fn parser_parse_inline_attr_early_eof() {
    assert_eq!(
        Parser::new("#p foo %aaa[x=a").run(),
        Err(Error::UnexpectedEOF),
    );
}

#[test]
fn parser_parse_inline_attr_early_eol() {
    assert_eq!(
        Parser::new("#p foo %aaa[x=a\n").run(),
        Err(Error::UnexpectedEOL),
    );
}

#[test]
fn parser_parse_block_empty() {
    assert_eq!(Parser::new("").run(), Ok(vec![]));
}

#[test]
fn parser_parse_block_one_empty_el() {
    assert_eq!(
        Parser::new("#p").run(),
        Ok(vec![el("p", vec![], vec![])]),
    );
}

#[test]
fn parser_parse_block_one_empty_el_with_space() {
    assert_eq!(
        Parser::new("#p ").run(),
        Ok(vec![el("p", vec![], vec![])]),
    );
}

#[test]
fn parser_parse_block_one_el_without_space() {
    assert_eq!(
        Parser::new("#p%a{b}").run(),
        Err(Error::UnexpectedContentAfterBlockName),
    );
}

#[test]
fn parser_parse_block_one_el_with_string() {
    assert_eq!(
        Parser::new("#p hi").run(),
        Ok(vec![el("p", vec![], vec![txt("hi")])]),
    );
}

#[test]
fn parser_parse_block_one_el_with_string_with_escaped_percent() {
    assert_eq!(
        Parser::new("#p hi %%").run(),
        Ok(vec![el("p", vec![], vec![txt("hi "), txt("%")])]),
    );
}

#[test]
fn parser_parse_block_one_el_with_string_with_escaped_rbrace() {
    assert_eq!(
        Parser::new("#p hi %}").run(),
        Ok(vec![el("p", vec![], vec![txt("hi "), txt("}")])]),
    );
}

#[test]
fn parser_parse_block_one_el_name_with_dash() {
    assert_eq!(
        Parser::new("#intro-para hi").run(),
        Ok(vec![el("intro-para", vec![], vec![txt("hi")])]),
    );
}

#[test]
fn parser_parse_block_one_el_name_with_underscore() {
    assert_eq!(
        Parser::new("#intro_para hi").run(),
        Ok(vec![el("intro_para", vec![], vec![txt("hi")])]),
    );
}

#[test]
fn parser_parse_block_one_el_name_with_uppercase() {
    assert_eq!(
        Parser::new("#introPara hi").run(),
        Ok(vec![el("introPara", vec![], vec![txt("hi")])]),
    );
}

#[test]
fn parser_parse_block_one_el_attr_empty() {
    assert_eq!(
        Parser::new("#foo[] hi").run(),
        Ok(vec![el("foo", vec![], vec![txt("hi")])]),
    );
}

#[test]
fn parser_parse_block_one_el_attr_simple() {
    assert_eq!(
        Parser::new("#foo[abc=xyz] hi").run(),
        Ok(vec![el("foo", vec![("abc", "xyz")], vec![txt("hi")])]),
    );
}

#[test]
fn parser_parse_block_one_el_attr_key_with_dash() {
    assert_eq!(
        Parser::new("#foo[intended-audience=learner] hi").run(),
        Ok(vec![el(
            "foo",
            vec![("intended-audience", "learner")],
            vec![txt("hi")]
        )]),
    );
}

#[test]
fn parser_parse_block_one_el_attr_key_with_underscore() {
    assert_eq!(
        Parser::new("#foo[intended_audience=learner] hi").run(),
        Ok(vec![el(
            "foo",
            vec![("intended_audience", "learner")],
            vec![txt("hi")]
        )]),
    );
}

#[test]
fn parser_parse_block_one_el_attr_key_with_uppercase() {
    assert_eq!(
        Parser::new("#foo[intendedAudience=learner] hi").run(),
        Ok(vec![el(
            "foo",
            vec![("intendedAudience", "learner")],
            vec![txt("hi")]
        )]),
    );
}

#[test]
fn parser_parse_block_one_el_attr_key_with_number() {
    assert_eq!(
        Parser::new("#foo[over-9000=yes] hi").run(),
        Ok(vec![el("foo", vec![("over-9000", "yes")], vec![txt("hi")])]),
    );
}

#[test]
fn parser_parse_block_one_el_attr_without_value() {
    assert_eq!(
        Parser::new("#p[foo] hi").run(),
        Ok(vec![el("p", vec![("foo", "foo")], vec![txt("hi")])]),
    );
}

#[test]
fn parser_parse_block_one_el_attrs_simple() {
    assert_eq!(
        Parser::new("#p[foo=one,bar=two] hi").run(),
        Ok(vec![el(
            "p",
            vec![("foo", "one"), ("bar", "two")],
            vec![txt("hi")]
        )]),
    );
}

#[test]
fn parser_parse_block_one_el_attrs_without_value() {
    assert_eq!(
        Parser::new("#p[foo,bar] hi").run(),
        Ok(vec![el(
            "p",
            vec![("foo", "foo"), ("bar", "bar")],
            vec![txt("hi")]
        )]),
    );
}

#[test]
fn parser_parse_block_one_el_attrs_escaped() {
    assert_eq!(
        Parser::new("#p[foo=%],bar=%%,donkey=%,] hi").run(),
        Ok(vec![el(
            "p",
            vec![("foo", "]"), ("bar", "%"), ("donkey", ",")],
            vec![txt("hi")]
        )]),
    );
}

#[test]
fn parser_parse_block_one_el_attr_key_starts_with_dash() {
    assert_eq!(
        Parser::new("#p[-foo=abc] hi").run(),
        Err(Error::InvalidCharInName),
    );
}

#[test]
fn parser_parse_block_one_el_attr_key_starts_with_underscore() {
    assert_eq!(
        Parser::new("#p[_foo=abc] hi").run(),
        Err(Error::InvalidCharInName),
    );
}

#[test]
fn parser_parse_block_one_el_attr_key_starts_with_num() {
    assert_eq!(
        Parser::new("#p[1foo=abc] hi").run(),
        Err(Error::InvalidCharInName),
    );
}

#[test]
fn parser_parse_block_one_el_attr_value_has_unescaped_percent() {
    assert_eq!(
        Parser::new("#p %ref[url=https://github.com/?q=user%3Ananoc]{eek}").run(),
        Err(Error::UnexpectedEscapeSequence),
    );
}

#[test]
fn parser_parse_block_one_el_attr_early_eof() {
    assert_eq!(
        Parser::new("#p %ref[url=hello").run(),
        Err(Error::UnexpectedEOF),
    );
}

#[test]
fn parser_parse_block_one_el_attr_early_eof_escape() {
    assert_eq!(
        Parser::new("#p %ref[url=hello%").run(),
        Err(Error::UnexpectedEOF),
    );
}

#[test]
fn parser_parse_block_one_el_early_eof_escape() {
    assert_eq!(Parser::new("#p %").run(), Err(Error::UnexpectedEOF));
}

#[test]
fn parser_parse_block_one_el_unexpected_rbrace() {
    assert_eq!(Parser::new("#p }").run(), Err(Error::UnexpectedRightBrace));
}

#[test]
fn parser_parse_block_one_el_continued_content1() {
    assert_eq!(
        Parser::new("#p\n  hi").run(),
        Ok(vec![el("p", vec![], vec![txt("hi")])]),
    );
}

#[test]
fn parser_parse_block_one_el_continued_content2() {
    assert_eq!(
        Parser::new("#p\n  hi\n  ho").run(),
        Ok(vec![el("p", vec![], vec![txt("hi"), txt("\n"), txt("ho")])]),
    );
}

#[test]
fn parser_parse_block_one_el_continued_content3() {
    assert_eq!(
        Parser::new("#p hi\n  ho").run(),
        Ok(vec![el("p", vec![], vec![txt("hi"), txt("\n"), txt("ho")])]),
    );
}

#[test]
fn parser_parse_block_one_el_continued_content4() {
    assert_eq!(
        Parser::new("#p hi\n    ho").run(),
        Ok(vec![el("p", vec![], vec![txt("hi"), txt("\n"), txt("  ho")])]),
    );
}

#[test]
fn parser_parse_block_one_el_continued_content5() {
    assert_eq!(
        Parser::new("#p hi\n    ho\n  ha").run(),
        Ok(vec![el(
            "p",
            vec![],
            vec![txt("hi"), txt("\n"), txt("  ho"), txt("\n"), txt("ha")]
        )]),
    );
}

#[test]
fn parser_parse_block_one_el_continued_content_nested() {
    assert_eq!(
        Parser::new("#p hi\n  %#foo").run(),
        Ok(vec![el(
            "p",
            vec![],
            vec![txt("hi"), txt("\n"), txt("#"), txt("foo")]
        )]),
    );
}

#[test]
fn parser_parse_block_one_el_continued_content_hash_but_no_block() {
    assert_eq!(
        Parser::new("#listing\n  calc_foo()\n  # => 123").run(),
        Ok(vec![el(
            "listing",
            vec![],
            vec![txt("calc_foo()"), txt("\n"), txt("# => 123")]
        )]),
    );
}

#[test]
fn parser_parse_block_one_el_nested1() {
    assert_eq!(
        Parser::new("#p hi\n  #x a").run(),
        Ok(vec![el(
            "p",
            vec![],
            vec![txt("hi"), el("x", vec![], vec![txt("a")])]
        )]),
    );
}

#[test]
fn parser_parse_block_one_el_nested2() {
    assert_eq!(
        Parser::new("#p\n  hi\n  #x a").run(),
        Ok(vec![el(
            "p",
            vec![],
            vec![txt("hi"), el("x", vec![], vec![txt("a")])]
        )]),
    );
}

#[test]
fn parser_parse_block_one_el_garbage_at_eol() {
    assert_eq!(
        Parser::new("#p hi}").run(),
        Err(Error::UnexpectedRightBrace),
    );
}

#[test]
fn parser_parse_block_two_els_simple() {
    assert_eq!(
        Parser::new("#p hi\n#p ho").run(),
        Ok(vec![
            el("p", vec![], vec![txt("hi")]),
            el("p", vec![], vec![txt("ho")]),
        ]),
    );
}

#[test]
fn parser_parse_block_two_els_continued() {
    assert_eq!(
        Parser::new("#p hi\n  hi2\n#p ho\n  ho2").run(),
        Ok(vec![
            el("p", vec![], vec![txt("hi"), txt("\n"), txt("hi2")]),
            el("p", vec![], vec![txt("ho"), txt("\n"), txt("ho2")]),
        ]),
    );
}
