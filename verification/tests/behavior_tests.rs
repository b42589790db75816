use d_mark::{ElementNode, Error, FilterableResult, Node, Parser, StringNode};

fn el(name: &str, attrs: Vec<(&str, &str)>, children: Vec<Node>) -> Node {
    Node::Element(ElementNode {
        name: name.to_string(),
        attributes: attrs
            .into_iter()
            .map(|(k, v)| (k.to_string(), v.to_string()))
            .collect(),
        children,
    })
}

fn txt(content: &str) -> Node {
    Node::String(StringNode { content: content.to_string() })
}

#[test]
fn escape_hash_decodes_to_literal() {
    assert_eq!(
        Parser::new("#p %#").run(),
        Ok(vec![el("p", vec![], vec![txt("#")])]),
    );
}

#[test]
fn escape_rbrace_after_text() {
    assert_eq!(
        Parser::new("#p a %}").run(),
        Ok(vec![el("p", vec![], vec![txt("a "), txt("}")])]),
    );
}

#[test]
fn attr_value_escape_round_trip() {
    assert_eq!(
        Parser::new("#p[x=%,] hi").run(),
        Ok(vec![el("p", vec![("x", ",")], vec![txt("hi")])]),
    );
}

#[test]
fn repeated_attribute_key_last_write_wins() {
    assert_eq!(
        Parser::new("#p[a=1,a=2] hi").run(),
        Ok(vec![el("p", vec![("a", "2")], vec![txt("hi")])]),
    );
}

#[test]
fn attr_flag_then_other_char_is_rejected() {
    assert_eq!(
        Parser::new("#p[foo bar] hi").run(),
        Err(Error::UnexpectedEOF),
    );
}

#[test]
fn expected_hash_on_partial_dedent() {
    assert_eq!(Parser::new("#p hi\n x").run(), Err(Error::ExpectedHash));
}

#[test]
fn blank_line_inside_block_becomes_extra_separator() {
    assert_eq!(
        Parser::new("#p foo\n\n  bar").run(),
        Ok(vec![el(
            "p",
            vec![],
            vec![txt("foo"), txt("\n"), txt("\n"), txt("bar")]
        )]),
    );
}

#[test]
fn leading_blank_lines_are_skipped() {
    assert_eq!(
        Parser::new("  \n \n#p Hi!").run(),
        Ok(vec![el("p", vec![], vec![txt("Hi!")])]),
    );
}

#[test]
fn deeply_nested_blocks() {
    assert_eq!(
        Parser::new("#ul\n  #li\n    #p You can.").run(),
        Ok(vec![el(
            "ul",
            vec![],
            vec![el(
                "li",
                vec![],
                vec![el("p", vec![], vec![txt("You can.")])]
            )]
        )]),
    );
}

#[test]
fn truncated_block_attr_is_eof() {
    assert_eq!(Parser::new("#p[x=a").run(), Err(Error::UnexpectedEOF));
}

#[test]
fn truncated_block_attr_escape_is_eof() {
    assert_eq!(Parser::new("#p[x=a%").run(), Err(Error::UnexpectedEOF));
}

#[test]
fn error_position_and_context_first_line() {
    let err = Parser::call("#p }").unwrap_err();
    assert_eq!(err.error, Error::UnexpectedRightBrace);
    assert_eq!(err.pos.idx, 4);
    assert_eq!(err.pos.line_nr, 0);
    assert_eq!(err.pos.col_nr, 4);
    assert_eq!(err.line0, None);
    assert_eq!(err.line1, Some("#p }".to_string()));
}

#[test]
fn error_position_and_context_second_line() {
    let err = Parser::call("#p hi\n#p%").unwrap_err();
    assert_eq!(err.error, Error::UnexpectedContentAfterBlockName);
    assert_eq!(err.pos.line_nr, 1);
    assert_eq!(err.pos.col_nr, 3);
    assert_eq!(err.line0, Some("#p hi".to_string()));
    assert_eq!(err.line1, Some("#p%".to_string()));
}

#[test]
fn error_context_strips_carriage_return() {
    let err = Parser::call("#p hi\r\n#p%").unwrap_err();
    assert_eq!(err.error, Error::UnexpectedContentAfterBlockName);
    assert_eq!(err.pos.line_nr, 1);
    assert_eq!(err.line0, Some("#p hi".to_string()));
    assert_eq!(err.line1, Some("#p%".to_string()));
}

#[test]
fn call_returns_parsed_nodes() {
    assert_eq!(
        Parser::call("#p[only=web] I love Rust!").unwrap(),
        vec![el("p", vec![("only", "web")], vec![txt("I love Rust!")])],
    );
}

#[test]
fn filter_keeps_passing_ok() {
    let r: Result<i32, &str> = Ok(3);
    assert_eq!(r.filter(|x: &i32| *x > 0, "not positive"), Ok(3));
}

#[test]
fn filter_rejects_failing_ok() {
    let r: Result<i32, &str> = Ok(-3);
    assert_eq!(r.filter(|x: &i32| *x > 0, "not positive"), Err("not positive"));
}

#[test]
fn filter_passes_error_through() {
    let r: Result<i32, &str> = Err("earlier");
    assert_eq!(r.filter(|x: &i32| *x > 0, "not positive"), Err("earlier"));
}
