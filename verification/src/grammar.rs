//! The D★Mark grammar, written as total spec functions over a ghost
//! [`Cursor`]. Every executable parsing routine is proved to return exactly
//! what the spec function of the same name computes, so these definitions are
//! the authoritative statement of what the parser accepts and produces.
//!
//! The functions are deterministic and consume the input left to right; each
//! returns its result together with the cursor after the read. A failing read
//! returns the error kind and the cursor at the failure, which carries the
//! reported source position.
//!
//! Recursive calls whose argument is the output of an earlier read are
//! guarded by a check that the earlier read consumed at least one character;
//! every such read does, so the fallback branches of those guards are
//! unreachable. The guards only serve to make termination evident.

use vstd::prelude::*;
use crate::Error;
use crate::model::{Cursor, ElementModel, Loc, NodeModel};

verus! {

/// A character that may open an element name or attribute key.
pub open spec fn is_name_head_char(ch: char) -> bool {
    ('a' <= ch && ch <= 'z') || ('A' <= ch && ch <= 'Z')
}

/// A character that may continue an element name or attribute key.
pub open spec fn is_name_tail_char(ch: char) -> bool {
    is_name_head_char(ch) || ('0' <= ch && ch <= '9') || ch == '-' || ch == '_'
}

/// Read the current character and advance past it; at the end of the input
/// the position still advances and the read fails.
pub open spec fn spec_consume(c: Cursor) -> (Result<char, Error>, Cursor) {
    match c.peek() {
        Some(ch) => (Ok(ch), c.advance()),
        None => (Err(Error::UnexpectedEOF), c.advance()),
    }
}

/// Advance past the current character only if it equals `expected`.
pub open spec fn spec_try_consume(c: Cursor, expected: char) -> (bool, Cursor) {
    if c.peek() == Some(expected) {
        (true, c.advance())
    } else {
        (false, c)
    }
}

/// Read one character and require it to satisfy the name-head class.
pub open spec fn spec_read_name_head(c: Cursor) -> (Result<char, Error>, Cursor) {
    let (r, c1) = spec_consume(c);
    match r {
        Ok(ch) => if is_name_head_char(ch) {
            (Ok(ch), c1)
        } else {
            (Err(Error::InvalidCharInName), c1)
        },
        Err(e) => (Err(e), c1),
    }
}

/// Read one character and require it to equal `expected`, failing with `err`
/// on any other character.
pub open spec fn spec_read_exact(c: Cursor, expected: char, err: Error) -> (Result<char, Error>, Cursor) {
    let (r, c1) = spec_consume(c);
    match r {
        Ok(ch) => if ch == expected {
            (Ok(ch), c1)
        } else {
            (Err(err), c1)
        },
        Err(e) => (Err(e), c1),
    }
}

/// Greedily extend `acc` with name-tail characters.
pub open spec fn spec_read_name_tail(c: Cursor, acc: Seq<char>) -> (Seq<char>, Cursor)
    decreases c.remaining(),
{
    match c.peek() {
        Some(ch) => if is_name_tail_char(ch) {
            spec_read_name_tail(c.advance(), acc.push(ch))
        } else {
            (acc, c)
        },
        None => (acc, c),
    }
}

/// An identifier: one name-head character followed by any run of name-tail
/// characters.
pub open spec fn spec_read_name(c: Cursor) -> (Result<Seq<char>, Error>, Cursor) {
    let (r, c1) = spec_read_name_head(c);
    match r {
        Ok(ch) => {
            let (name, c2) = spec_read_name_tail(c1, Seq::empty().push(ch));
            (Ok(name), c2)
        },
        Err(e) => (Err(e), c1),
    }
}

/// Extend `acc` with attribute-value characters up to an unconsumed `]` or
/// `,`. A `%` escapes exactly `%`, `]` or `,`; a newline, the end of the
/// input, or any other escaped character fails the read.
pub open spec fn spec_read_attribute_value(c: Cursor, acc: Seq<char>) -> (Result<Seq<char>, Error>, Cursor)
    decreases c.remaining(),
{
    match c.peek() {
        None => (Err(Error::UnexpectedEOF), c),
        Some(ch) => if ch == '%' {
            let c1 = c.advance();
            match c1.peek() {
                None => (Err(Error::UnexpectedEOF), c1),
                Some(ch2) => if ch2 == '%' || ch2 == ']' || ch2 == ',' {
                    spec_read_attribute_value(c1.advance(), acc.push(ch2))
                } else if ch2 == '\n' {
                    (Err(Error::UnexpectedEOL), c1)
                } else {
                    (Err(Error::UnexpectedEscapeSequence), c1)
                },
            }
        } else if ch == ']' || ch == ',' {
            (Ok(acc), c)
        } else if ch == '\n' {
            (Err(Error::UnexpectedEOL), c)
        } else {
            spec_read_attribute_value(c.advance(), acc.push(ch))
        },
    }
}

/// Store `key -> val` in an attribute list: a repeated key overwrites the
/// earlier value in place, a new key is appended. `j` is the scan position.
pub open spec fn spec_attrs_insert_from(
    attrs: Seq<(Seq<char>, Seq<char>)>,
    j: nat,
    key: Seq<char>,
    val: Seq<char>,
) -> Seq<(Seq<char>, Seq<char>)>
    decreases attrs.len() - j,
{
    if j >= attrs.len() {
        attrs.push((key, val))
    } else if attrs[j as int].0 == key {
        attrs.update(j as int, (key, val))
    } else {
        spec_attrs_insert_from(attrs, j + 1, key, val)
    }
}

/// Store `key -> val` in an attribute list.
pub open spec fn spec_attrs_insert(
    attrs: Seq<(Seq<char>, Seq<char>)>,
    key: Seq<char>,
    val: Seq<char>,
) -> Seq<(Seq<char>, Seq<char>)> {
    spec_attrs_insert_from(attrs, 0, key, val)
}

/// The pairs of an attribute list after the opening `[`: `key` or
/// `key=value`, separated by `,`, closed by `]`. After each pair any
/// character other than `]` or `,`, and the end of the input, fail the read.
pub open spec fn spec_read_attr_pairs(
    c: Cursor,
    acc: Seq<(Seq<char>, Seq<char>)>,
) -> (Result<Seq<(Seq<char>, Seq<char>)>, Error>, Cursor)
    decreases c.remaining(),
{
    let (rk, c1) = spec_read_name(c);
    match rk {
        Err(e) => (Err(e), c1),
        Ok(key) => {
            let (eq, c2) = spec_try_consume(c1, '=');
            let (rv, c3) = if eq {
                spec_read_attribute_value(c2, Seq::empty())
            } else {
                (Ok(key), c2)
            };
            match rv {
                Err(e) => (Err(e), c3),
                Ok(val) => {
                    let acc2 = spec_attrs_insert(acc, key, val);
                    let (rc, c4) = spec_consume(c3);
                    match rc {
                        Err(e) => (Err(e), c4),
                        Ok(sep) => if sep == ']' {
                            (Ok(acc2), c4)
                        } else if sep == ',' {
                            if c4.remaining() < c.remaining() {
                                spec_read_attr_pairs(c4, acc2)
                            } else {
                                (Err(Error::UnexpectedEOF), c4)
                            }
                        } else {
                            (Err(Error::UnexpectedEOF), c4)
                        },
                    }
                },
            }
        },
    }
}

/// An optional attribute list: absent (no `[`), empty (`[]`), or a
/// `]`-closed list of pairs.
pub open spec fn spec_read_attributes(c: Cursor) -> (Result<Seq<(Seq<char>, Seq<char>)>, Error>, Cursor) {
    let (open, c1) = spec_try_consume(c, '[');
    if !open {
        (Ok(Seq::empty()), c1)
    } else {
        let (close, c2) = spec_try_consume(c1, ']');
        if close {
            (Ok(Seq::empty()), c2)
        } else {
            spec_read_attr_pairs(c2, Seq::empty())
        }
    }
}

/// Extend `acc` with plain text characters, stopping (without consuming)
/// at `%`, `}`, a newline, or the end of the input.
pub open spec fn spec_read_string_node(c: Cursor, acc: Seq<char>) -> (Seq<char>, Cursor)
    decreases c.remaining(),
{
    match c.peek() {
        None => (acc, c),
        Some(ch) => if ch == '\n' || ch == '%' || ch == '}' {
            (acc, c)
        } else {
            spec_read_string_node(c.advance(), acc.push(ch))
        },
    }
}

/// The character after a recognized escape trigger, as a one-character text
/// node.
pub open spec fn spec_read_escaped_char(c: Cursor) -> (Result<NodeModel, Error>, Cursor) {
    match c.peek() {
        None => (Err(Error::UnexpectedEOF), c),
        Some(ch) => (Ok(NodeModel::Text(Seq::empty().push(ch))), c.advance()),
    }
}

/// An inline run appended to `acc`: text runs, escapes and inline elements
/// up to an unconsumed newline, `}`, or the end of the input.
pub open spec fn spec_read_inline_nodes(c: Cursor, acc: Seq<NodeModel>) -> (Result<Seq<NodeModel>, Error>, Cursor)
    decreases c.remaining(), 3int,
{
    match c.peek() {
        None => (Ok(acc), c),
        Some(ch) => if ch == '\n' || ch == '}' {
            (Ok(acc), c)
        } else if ch == '%' {
            let (r, c1) = spec_read_percent_body(c);
            match r {
                Err(e) => (Err(e), c1),
                Ok(node) => if c1.remaining() < c.remaining() {
                    spec_read_inline_nodes(c1, acc.push(node))
                } else {
                    (Err(Error::UnexpectedEOF), c1)
                },
            }
        } else {
            let (txt, c1) = spec_read_string_node(c, Seq::empty());
            if c1.remaining() < c.remaining() {
                spec_read_inline_nodes(c1, acc.push(NodeModel::Text(txt)))
            } else {
                (Err(Error::UnexpectedEOF), c1)
            }
        },
    }
}

/// What follows a `%` trigger: one of `%`, `}`, `#` is an escaped literal;
/// anything else begins an inline element; the end of the input fails.
pub open spec fn spec_read_percent_body(c: Cursor) -> (Result<NodeModel, Error>, Cursor)
    decreases c.remaining(), 2int,
{
    let c1 = c.advance();
    match c1.peek() {
        None => (Err(Error::UnexpectedEOF), c1),
        Some(ch) => if ch == '%' || ch == '}' || ch == '#' {
            spec_read_escaped_char(c1)
        } else {
            spec_read_inline_element(c1)
        },
    }
}

/// An inline element after its `%`: a name, an optional attribute list, a
/// mandatory `{`, an inline run as children, and a mandatory `}`.
pub open spec fn spec_read_inline_element(c: Cursor) -> (Result<NodeModel, Error>, Cursor)
    decreases c.remaining(), 1int,
{
    let (rn, c1) = spec_read_name(c);
    match rn {
        Err(e) => (Err(e), c1),
        Ok(name) => {
            let (ra, c2) = spec_read_attributes(c1);
            match ra {
                Err(e) => (Err(e), c2),
                Ok(attrs) => {
                    let (rb, c3) = spec_read_exact(c2, '{', Error::ExpectedLeftBrace);
                    match rb {
                        Err(e) => (Err(e), c3),
                        Ok(_) => if c3.remaining() < c.remaining() {
                            let (rk, c4) = spec_read_inline_nodes(c3, Seq::empty());
                            match rk {
                                Err(e) => (Err(e), c4),
                                Ok(children) => {
                                    let (rr, c5) = spec_read_exact(c4, '}', Error::ExpectedRightBrace);
                                    match rr {
                                        Err(e) => (Err(e), c5),
                                        Ok(_) => (
                                            Ok(NodeModel::Element(ElementModel { name, attributes: attrs, children })),
                                            c5,
                                        ),
                                    }
                                },
                            }
                        } else {
                            (Err(Error::UnexpectedEOF), c3)
                        },
                    }
                },
            }
        },
    }
}

/// If the line at offset `j` is blank (spaces up to a newline or the end of
/// the input), the offset just past its end; otherwise `None`.
pub open spec fn spec_blank_line_end(text: Seq<char>, j: nat) -> Option<nat>
    decreases text.len() - j,
{
    if j < text.len() {
        if text[j as int] == ' ' {
            spec_blank_line_end(text, j + 1)
        } else if text[j as int] == '\n' {
            Some(j + 1)
        } else {
            None
        }
    } else {
        Some(j + 1)
    }
}

/// The cursor after skipping one blank line that ends at offset `end`: the
/// position moves to `end`, one line down, column zero.
pub open spec fn spec_skip_blank(c: Cursor, end: nat) -> Cursor {
    Cursor { text: c.text, loc: Loc { idx: end, line: c.loc.line + 1, col: 0 } }
}

/// The number of leading spaces at offset `j`.
pub open spec fn spec_count_spaces(text: Seq<char>, j: nat) -> nat
    decreases text.len() - j,
{
    if j < text.len() && text[j as int] == ' ' {
        spec_count_spaces(text, j + 1) + 1
    } else {
        0
    }
}

/// The indentation level of the line at the cursor: leading spaces divided
/// by two, the trailing odd space ignored.
pub open spec fn spec_detect_indentation(c: Cursor) -> nat {
    spec_count_spaces(c.text, c.loc.idx) / 2
}

/// Exactly `2 * n` space characters of indentation.
pub open spec fn spec_read_indentation(c: Cursor, n: nat) -> (Result<(), Error>, Cursor)
    decreases n,
{
    if n == 0 {
        (Ok(()), c)
    } else {
        let (r1, c1) = spec_read_exact(c, ' ', Error::ExpectedSpace);
        match r1 {
            Err(e) => (Err(e), c1),
            Ok(_) => {
                let (r2, c2) = spec_read_exact(c1, ' ', Error::ExpectedSpace);
                match r2 {
                    Err(e) => (Err(e), c2),
                    Ok(_) => spec_read_indentation(c2, (n - 1) as nat),
                }
            },
        }
    }
}

/// Whether the cursor sits on a `#` immediately followed by a name-head
/// character, which begins a nested block.
pub open spec fn spec_try_read_block_start(c: Cursor) -> bool {
    c.peek() == Some('#') && match c.peek2() {
        Some(ch) => is_name_head_char(ch),
        None => false,
    }
}

/// The mandatory end of a line of inline content: a newline (consumed) or
/// the end of the input; a `}` here is rejected. The inline run that
/// precedes this check can stop at no other character, so the remaining
/// branch accepts vacuously.
pub open spec fn spec_read_end_of_inline(c: Cursor) -> (Result<(), Error>, Cursor) {
    let (r, c1) = spec_consume(c);
    match r {
        Err(_) => (Ok(()), c1),
        Ok(ch) => if ch == '\n' {
            (Ok(()), c1)
        } else if ch == '}' {
            (Err(Error::UnexpectedRightBrace), c1)
        } else {
            (Ok(()), c1)
        },
    }
}

/// A block header: `#`, a name, an optional attribute list, then either the
/// end of the line (no inline content), or one space and an inline run up to
/// a checked end of line. Any other character after the header fails.
pub open spec fn spec_read_block_element(c: Cursor) -> (Result<ElementModel, Error>, Cursor) {
    let (rh, c1) = spec_read_exact(c, '#', Error::ExpectedHash);
    match rh {
        Err(e) => (Err(e), c1),
        Ok(_) => {
            let (rn, c2) = spec_read_name(c1);
            match rn {
                Err(e) => (Err(e), c2),
                Ok(name) => {
                    let (ra, c3) = spec_read_attributes(c2);
                    match ra {
                        Err(e) => (Err(e), c3),
                        Ok(attrs) => {
                            let (rc, c4) = spec_consume(c3);
                            match rc {
                                Err(_) => (
                                    Ok(ElementModel { name, attributes: attrs, children: Seq::empty() }),
                                    c4,
                                ),
                                Ok(ch) => if ch == '\n' {
                                    (Ok(ElementModel { name, attributes: attrs, children: Seq::empty() }), c4)
                                } else if ch == ' ' {
                                    let (rk, c5) = spec_read_inline_nodes(c4, Seq::empty());
                                    match rk {
                                        Err(e) => (Err(e), c5),
                                        Ok(children) => {
                                            let (re, c6) = spec_read_end_of_inline(c5);
                                            match re {
                                                Err(e) => (Err(e), c6),
                                                Ok(_) => (
                                                    Ok(ElementModel { name, attributes: attrs, children }),
                                                    c6,
                                                ),
                                            }
                                        },
                                    }
                                } else {
                                    (Err(Error::UnexpectedContentAfterBlockName), c4)
                                },
                            }
                        },
                    }
                },
            }
        },
    }
}

/// `n` synthesized single-newline text nodes, used as separators between
/// lines of continued block content.
pub open spec fn spec_newline_seps(n: nat) -> Seq<NodeModel>
    decreases n,
{
    if n == 0 {
        Seq::empty()
    } else {
        spec_newline_seps((n - 1) as nat).push(NodeModel::Text(Seq::empty().push('\n')))
    }
}

/// The body of a block at nesting level `indent`, appended to `children`:
/// blank lines are counted, a dedented line returns to the caller, a nested
/// block recurses one level deeper, and any other line continues the current
/// element's inline content, separated from earlier content by synthesized
/// newline text nodes (one if content precedes it, plus one per counted
/// blank line).
pub open spec fn spec_read_block_body(
    c: Cursor,
    indent: nat,
    pending: nat,
    children: Seq<NodeModel>,
) -> (Result<Seq<NodeModel>, Error>, Cursor)
    decreases c.remaining(), 1int,
{
    if c.peek() is None {
        (Ok(children), c)
    } else {
        match spec_blank_line_end(c.text, c.loc.idx) {
            Some(end) => {
                let c1 = spec_skip_blank(c, end);
                if c1.remaining() < c.remaining() {
                    spec_read_block_body(c1, indent, pending + 1, children)
                } else {
                    (Err(Error::UnexpectedEOF), c1)
                }
            },
            None => {
                if spec_detect_indentation(c) < indent + 1 {
                    (Ok(children), c)
                } else {
                    let (ri, c1) = spec_read_indentation(c, indent + 1);
                    match ri {
                        Err(e) => (Err(e), c1),
                        Ok(_) => if spec_try_read_block_start(c1) {
                            if c1.remaining() < c.remaining() {
                                let (rb, c2) = spec_read_block(c1, indent + 1);
                                match rb {
                                    Err(e) => (Err(e), c2),
                                    Ok(node) => if c2.remaining() < c.remaining() {
                                        spec_read_block_body(c2, indent, pending, children.push(node))
                                    } else {
                                        (Err(Error::UnexpectedEOF), c2)
                                    },
                                }
                            } else {
                                (Err(Error::UnexpectedEOF), c1)
                            }
                        } else {
                            let lead = if children.len() > 0 {
                                spec_newline_seps(1)
                            } else {
                                Seq::<NodeModel>::empty()
                            };
                            let children2 = children + lead + spec_newline_seps(pending);
                            let (rk, c2) = spec_read_inline_nodes(c1, Seq::empty());
                            match rk {
                                Err(e) => (Err(e), c2),
                                Ok(nodes) => {
                                    let (re, c3) = spec_read_end_of_inline(c2);
                                    match re {
                                        Err(e) => (Err(e), c3),
                                        Ok(_) => if c3.remaining() < c.remaining() {
                                            spec_read_block_body(c3, indent, 0, children2 + nodes)
                                        } else {
                                            (Err(Error::UnexpectedEOF), c3)
                                        },
                                    }
                                },
                            }
                        },
                    }
                }
            },
        }
    }
}

/// A block element at nesting level `indent` together with its body.
pub open spec fn spec_read_block(c: Cursor, indent: nat) -> (Result<NodeModel, Error>, Cursor)
    decreases c.remaining(), 0int,
{
    let (rb, c1) = spec_read_block_element(c);
    match rb {
        Err(e) => (Err(e), c1),
        Ok(el) => if c1.remaining() < c.remaining() {
            let (rch, c2) = spec_read_block_body(c1, indent, 0, el.children);
            match rch {
                Err(e) => (Err(e), c2),
                Ok(children) => (
                    Ok(NodeModel::Element(ElementModel { name: el.name, attributes: el.attributes, children })),
                    c2,
                ),
            }
        } else {
            (Err(Error::UnexpectedEOF), c1)
        },
    }
}

/// The cursor after the leading blank lines of the document.
pub open spec fn spec_skip_blank_lines(c: Cursor) -> Cursor
    decreases c.remaining(),
{
    if c.peek() is None {
        c
    } else {
        match spec_blank_line_end(c.text, c.loc.idx) {
            Some(end) => {
                let c1 = spec_skip_blank(c, end);
                if c1.remaining() < c.remaining() {
                    spec_skip_blank_lines(c1)
                } else {
                    c1
                }
            },
            None => c,
        }
    }
}

/// The top-level blocks of the document, appended to `acc`, read until the
/// end of the input.
pub open spec fn spec_read_blocks(c: Cursor, acc: Seq<NodeModel>) -> (Result<Seq<NodeModel>, Error>, Cursor)
    decreases c.remaining(),
{
    if c.peek() is None {
        (Ok(acc), c)
    } else {
        let (rb, c1) = spec_read_block(c, 0);
        match rb {
            Err(e) => (Err(e), c1),
            Ok(node) => if c1.remaining() < c.remaining() {
                spec_read_blocks(c1, acc.push(node))
            } else {
                (Err(Error::UnexpectedEOF), c1)
            },
        }
    }
}

/// A whole parse from a cursor: leading blank lines, then top-level blocks.
pub open spec fn spec_run(c: Cursor) -> (Result<Seq<NodeModel>, Error>, Cursor) {
    spec_read_blocks(spec_skip_blank_lines(c), Seq::empty())
}

/// A whole parse of `text` from the start: the document's top-level nodes in
/// order, or the first grammar violation and the cursor at the failure.
pub open spec fn spec_parse_document(text: Seq<char>) -> (Result<Seq<NodeModel>, Error>, Cursor) {
    spec_run(Cursor::start(text))
}

/// The offset of the newline that ends the line starting at `from`, or the
/// end of the input.
pub open spec fn spec_line_end(text: Seq<char>, from: nat) -> nat
    decreases text.len() - from,
{
    if from < text.len() {
        if text[from as int] == '\n' {
            from
        } else {
            spec_line_end(text, from + 1)
        }
    } else {
        from
    }
}

/// The line `k` of the text, counted from zero, without its terminator and
/// with the carriage return of a `\r\n` ending removed; `None` past the
/// last line. Text after the final newline forms a line only if nonempty.
pub open spec fn spec_line_at(text: Seq<char>, from: nat, k: nat) -> Option<Seq<char>>
    decreases k,
{
    if from >= text.len() {
        None
    } else {
        let end = spec_line_end(text, from);
        if k == 0 {
            let raw = text.subrange(from as int, end as int);
            if end < text.len() && raw.len() > 0 && raw[raw.len() - 1] == '\r' {
                Some(raw.subrange(0, raw.len() - 1))
            } else {
                Some(raw)
            }
        } else {
            spec_line_at(text, end + 1, (k - 1) as nat)
        }
    }
}

/// Escape round trip for inline content: wherever the input holds `%` and
/// then one of the escapable characters `%`, `}` or `#`, the inline grammar
/// consumes exactly those two characters and yields a one-character text
/// node holding the escaped character itself, with nothing added and
/// nothing lost.
pub proof fn lemma_inline_escape_round_trip(c: Cursor, e: char)
    requires
        c.peek() == Some('%'),
        c.advance().peek() == Some(e),
        e == '%' || e == '}' || e == '#',
    ensures
        spec_read_percent_body(c) == (
            Ok::<NodeModel, Error>(NodeModel::Text(Seq::empty().push(e))),
            c.advance().advance(),
        ),
{
}

/// Escape round trip for attribute values: wherever the value grammar
/// stands on `%` followed by one of `%`, `]` or `,`, it consumes exactly
/// those two characters and appends exactly the escaped character itself to
/// the decoded value.
pub proof fn lemma_attribute_escape_round_trip(c: Cursor, acc: Seq<char>, e: char)
    requires
        c.peek() == Some('%'),
        c.advance().peek() == Some(e),
        e == '%' || e == ']' || e == ',',
    ensures
        spec_read_attribute_value(c, acc)
            == spec_read_attribute_value(c.advance().advance(), acc.push(e)),
{
}

} // verus!
