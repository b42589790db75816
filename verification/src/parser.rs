//! The executable parser. Every routine is proved to compute exactly what
//! the spec function of the same name in [`crate::grammar`] defines.

use vstd::prelude::*;
use vstd::string::StrSliceExecFns;
use vstd::pervasive::unreached;
use vstd::pervasive::VecAdditionalExecFns;
use crate::{ElementNode, Error, ErrorWithContext, Node, StringNode};
use crate::model::{
    attrs_model, element_model, lemma_nodes_model_concat, lemma_nodes_model_push, node_model,
    nodes_model, opt_str_model, Cursor, Loc, NodeModel,
};
use crate::grammar;

verus! {

/// A source position: character offset, and zero-based column and line.
#[derive(Debug, Clone, Copy)]
pub struct Pos {
    pub idx: usize,
    pub col_nr: usize,
    pub line_nr: usize,
}

impl View for Pos {
    type V = Loc;

    open spec fn view(&self) -> Loc {
        Loc { idx: self.idx as nat, line: self.line_nr as nat, col: self.col_nr as nat }
    }
}

impl Pos {
    /// The position at the start of the input.
    pub fn new() -> (p: Pos)
        ensures
            p@ == (Loc { idx: 0, line: 0, col: 0 }),
    {
        Pos { idx: 0, col_nr: 0, line_nr: 0 }
    }

    /// Step over one character: on a newline the column resets and the line
    /// advances, otherwise the column advances.
    pub fn advance(&mut self, nl: bool)
        requires
            old(self).idx < usize::MAX,
            old(self).col_nr < usize::MAX,
            old(self).line_nr < usize::MAX,
        ensures
            nl ==> final(self)@ == (Loc { idx: old(self)@.idx + 1, line: old(self)@.line + 1, col: 0 }),
            !nl ==> final(self)@ == (Loc { idx: old(self)@.idx + 1, line: old(self)@.line, col: old(self)@.col + 1 }),
    {
        self.idx = self.idx + 1;

        if nl {
            self.col_nr = 0;
            self.line_nr = self.line_nr + 1;
        } else {
            self.col_nr = self.col_nr + 1;
        }
    }
}

/// The scanner: the whole input as characters, and the cursor position.
struct ParserContent {
    chars: Vec<char>,
    pos: Pos,
}

impl View for ParserContent {
    type V = Cursor;

    closed spec fn view(&self) -> Cursor {
        Cursor { text: self.chars@, loc: self.pos@ }
    }
}

impl ParserContent {
    /// The scanner's well-formedness: the offset passes the end of the input
    /// by at most one, the line/column bookkeeping never runs ahead of the
    /// offset, and one more character can always be counted.
    spec fn wf(self) -> bool {
        &&& self@.loc.idx <= self@.text.len() + 1
        &&& self@.loc.col <= self@.loc.idx
        &&& self@.loc.line <= self@.loc.idx
        &&& self@.text.len() < usize::MAX
    }

    /// Move on to the next character.
    fn advance(&mut self)
        requires
            old(self).wf(),
            old(self)@.loc.idx <= old(self)@.text.len(),
        ensures
            final(self).wf(),
            final(self)@ == old(self)@.advance(),
    {
        let nl = match self.peek() {
            Some(c) => c == '\n',
            None => false,
        };
        self.pos.advance(nl);
    }

    /// Get the current character, without consuming it.
    fn peek(&self) -> (r: Option<char>)
        ensures
            r == self@.peek(),
    {
        if self.pos.idx < self.chars.len() {
            Some(self.chars[self.pos.idx])
        } else {
            None
        }
    }

    /// Get the next character, without consuming it.
    fn peek2(&self) -> (r: Option<char>)
        ensures
            r == self@.peek2(),
    {
        if self.pos.idx < self.chars.len() {
            let j = self.pos.idx + 1;
            if j < self.chars.len() {
                Some(self.chars[j])
            } else {
                None
            }
        } else {
            None
        }
    }

    /// Get the current character, and move on to the next.
    fn consume(&mut self) -> (r: Result<char, Error>)
        requires
            old(self).wf(),
            old(self)@.loc.idx <= old(self)@.text.len(),
        ensures
            final(self).wf(),
            r == grammar::spec_consume(old(self)@).0,
            final(self)@ == grammar::spec_consume(old(self)@).1,
    {
        let c = self.peek();
        self.advance();
        match c {
            Some(ch) => Ok(ch),
            None => Err(Error::UnexpectedEOF),
        }
    }

    /// Consume the current character only if it equals `expected_c`.
    fn try_consume_char(&mut self, expected_c: char) -> (r: bool)
        requires
            old(self).wf(),
        ensures
            final(self).wf(),
            r == grammar::spec_try_consume(old(self)@, expected_c).0,
            final(self)@ == grammar::spec_try_consume(old(self)@, expected_c).1,
    {
        let c = self.peek();
        match c {
            Some(ch) => if ch == expected_c {
                self.advance();
                true
            } else {
                false
            },
            None => false,
        }
    }

    /// Whether no more characters remain.
    fn is_eof(&self) -> (r: bool)
        ensures
            r == (self@.peek() is None),
    {
        match self.peek() {
            Some(_) => false,
            None => true,
        }
    }
}

/// Store `key -> value` in an attribute list: a repeated key overwrites the
/// earlier value in place, a new key is appended.
fn attrs_insert(attrs: &mut Vec<(String, String)>, key: String, value: String)
    ensures
        attrs_model(final(attrs)@) == grammar::spec_attrs_insert(attrs_model(old(attrs)@), key@, value@),
{
    let n = attrs.len();
    let mut j: usize = 0;
    while j < n
        invariant
            n == attrs.len(),
            j <= n,
            attrs@ == old(attrs)@,
            grammar::spec_attrs_insert_from(attrs_model(attrs@), j as nat, key@, value@)
                == grammar::spec_attrs_insert(attrs_model(old(attrs)@), key@, value@),
        decreases n - j,
    {
        if attrs[j].0 == key {
            attrs.set(j, (key, value));
            proof {
                assert(attrs_model(attrs@)
                    =~= attrs_model(old(attrs)@).update(j as int, (key@, value@)));
            }
            return;
        }
        j = j + 1;
    }
    attrs.push((key, value));
    proof {
        assert(attrs_model(attrs@) =~= attrs_model(old(attrs)@).push((key@, value@)));
    }
}

/// Relies on String::push: appends exactly the given character.
#[verifier::external_body]
fn push_char(s: &mut String, c: char)
    ensures
        final(s)@ == old(s)@.push(c),
{
    s.push(c);
}

/// The offset of the newline that ends the line starting at `from`, or the
/// end of the input.
fn line_end(chars: &Vec<char>, from: usize) -> (r: usize)
    requires
        from as nat <= chars@.len(),
    ensures
        r as nat == grammar::spec_line_end(chars@, from as nat),
        from <= r,
        r as nat <= chars@.len(),
        r < chars.len() ==> chars@[r as int] == '\n',
{
    let mut j = from;
    loop
        invariant
            from <= j,
            j as nat <= chars@.len(),
            grammar::spec_line_end(chars@, j as nat) == grammar::spec_line_end(chars@, from as nat),
        ensures
            from <= j,
            j as nat <= chars@.len(),
            j as nat == grammar::spec_line_end(chars@, from as nat),
            j < chars.len() ==> chars@[j as int] == '\n',
        decreases chars@.len() - j,
    {
        if j < chars.len() {
            if chars[j] == '\n' {
                break;
            }
            j = j + 1;
        } else {
            break;
        }
    }
    j
}

/// The line `k` of the input, counted from zero, without its terminator and
/// with the carriage return of a `\r\n` ending removed; `None` past the
/// last line.
fn line_at(chars: &Vec<char>, k: usize) -> (r: Option<String>)
    requires
        chars@.len() < usize::MAX,
    ensures
        opt_str_model(r) == grammar::spec_line_at(chars@, 0, k as nat),
{
    let mut from: usize = 0;
    let mut i: usize = 0;
    while i < k
        invariant
            i <= k,
            from as nat <= chars@.len() + 1,
            chars@.len() < usize::MAX,
            grammar::spec_line_at(chars@, 0, k as nat)
                == grammar::spec_line_at(chars@, from as nat, (k - i) as nat),
        decreases k - i,
    {
        if from >= chars.len() {
            return None;
        }
        let end = line_end(chars, from);
        from = end + 1;
        i = i + 1;
    }
    if from >= chars.len() {
        return None;
    }
    let end = line_end(chars, from);
    let actual_end = if end < chars.len() && end > from && chars[end - 1] == '\r' {
        end - 1
    } else {
        end
    };
    let mut s = String::new();
    let mut j = from;
    while j < actual_end
        invariant
            from <= j,
            j <= actual_end,
            actual_end as nat <= chars@.len(),
            s@ == chars@.subrange(from as int, j as int),
        decreases actual_end - j,
    {
        push_char(&mut s, chars[j]);
        proof {
            assert(chars@.subrange(from as int, j + 1)
                =~= chars@.subrange(from as int, j as int).push(chars@[j as int]));
        }
        j = j + 1;
    }
    proof {
        let raw = chars@.subrange(from as int, grammar::spec_line_end(chars@, from as nat) as int);
        if actual_end < end {
            assert(chars@.subrange(from as int, actual_end as int)
                =~= raw.subrange(0, raw.len() - 1));
        }
    }
    Some(s)
}

/// A synthesized text node holding a single newline.
fn newline_node() -> (n: Node)
    ensures
        node_model(n) == NodeModel::Text(Seq::empty().push('\n')),
{
    let mut content = String::new();
    push_char(&mut content, '\n');
    Node::String(StringNode { content })
}

/// The D★Mark parser: the input to read and the cursor into it.
pub struct Parser {
    content: ParserContent,
}

impl View for Parser {
    type V = Cursor;

    closed spec fn view(&self) -> Cursor {
        self.content@
    }
}

impl Parser {
    /// The parser's well-formedness; it holds from construction on.
    pub open spec fn wf(self) -> bool {
        &&& self@.loc.idx <= self@.text.len() + 1
        &&& self@.loc.col <= self@.loc.idx
        &&& self@.loc.line <= self@.loc.idx
        &&& self@.text.len() < usize::MAX
    }

    /// A parser at the start of `s`.
    pub fn new(s: &str) -> (p: Parser)
        requires
            s@.len() < usize::MAX,
        ensures
            p.wf(),
            p@ == Cursor::start(s@),
    {
        let n = s.unicode_len();
        let mut chars: Vec<char> = Vec::new();
        let mut i: usize = 0;
        while i < n
            invariant
                i <= n,
                n == s@.len(),
                chars@ == s@.subrange(0, i as int),
            decreases n - i,
        {
            let c = s.get_char(i);
            chars.push(c);
            proof {
                assert(s@.subrange(0, i + 1) =~= s@.subrange(0, i as int).push(s@[i as int]));
            }
            i = i + 1;
        }
        proof {
            assert(s@.subrange(0, n as int) =~= s@);
        }
        Parser { content: ParserContent { chars, pos: Pos::new() } }
    }

    /// One-shot parse of `s`: the document's top-level nodes in order, or
    /// the first grammar violation wrapped with its exact source position
    /// and up to two lines of surrounding source text.
    pub fn call(s: &str) -> (r: Result<Vec<Node>, ErrorWithContext>)
        requires
            s@.len() < usize::MAX,
        ensures
            ({
                let (pr, cur) = grammar::spec_parse_document(s@);
                match (r, pr) {
                    (Ok(nodes), Ok(m)) => nodes_model(nodes@) == m,
                    (Err(e), Err(kind)) => {
                        &&& e.error == kind
                        &&& e.pos@ == cur.loc
                        &&& (cur.loc.line > 0 ==> opt_str_model(e.line0)
                            == grammar::spec_line_at(s@, 0, (cur.loc.line - 1) as nat)
                            && opt_str_model(e.line1)
                            == grammar::spec_line_at(s@, 0, cur.loc.line))
                        &&& (cur.loc.line == 0 ==> e.line0 is None
                            && opt_str_model(e.line1) == grammar::spec_line_at(s@, 0, 0))
                    },
                    _ => false,
                }
            }),
    {
        let mut parser = Parser::new(s);
        let res = parser.run();
        match res {
            Ok(parsed) => Ok(parsed),
            Err(error) => {
                let line0: Option<String>;
                let line1: Option<String>;
                if parser.content.pos.line_nr > 0 {
                    line0 = line_at(&parser.content.chars, parser.content.pos.line_nr - 1);
                    line1 = line_at(&parser.content.chars, parser.content.pos.line_nr);
                } else {
                    line0 = None;
                    line1 = line_at(&parser.content.chars, 0);
                }

                Err(ErrorWithContext { error, pos: parser.content.pos, line0, line1 })
            },
        }
    }

    // Utility functions

    /// Whether `c` may open an element name or attribute key.
    fn is_name_head_char(c: &char) -> (r: bool)
        ensures
            r == grammar::is_name_head_char(*c),
    {
        ('a' <= *c && *c <= 'z') || ('A' <= *c && *c <= 'Z')
    }

    /// Whether `c` may continue an element name or attribute key.
    fn is_name_tail_char(c: &char) -> (r: bool)
        ensures
            r == grammar::is_name_tail_char(*c),
    {
        Parser::is_name_head_char(c) || ('0' <= *c && *c <= '9') || *c == '-' || *c == '_'
    }

    // Utility functions - reading

    /// One character that must open a name.
    fn read_name_head(&mut self) -> (r: Result<char, Error>)
        requires
            old(self).wf(),
            old(self)@.loc.idx <= old(self)@.text.len(),
        ensures
            final(self).wf(),
            final(self)@ == grammar::spec_read_name_head(old(self)@).1,
            r == grammar::spec_read_name_head(old(self)@).0,
    {
        match self.content.consume() {
            Ok(ch) => if Parser::is_name_head_char(&ch) {
                Ok(ch)
            } else {
                Err(Error::InvalidCharInName)
            },
            Err(e) => Err(e),
        }
    }

    /// One character that must be `{`.
    fn read_left_brace(&mut self) -> (r: Result<char, Error>)
        requires
            old(self).wf(),
            old(self)@.loc.idx <= old(self)@.text.len(),
        ensures
            final(self).wf(),
            final(self)@ == grammar::spec_read_exact(old(self)@, '{', Error::ExpectedLeftBrace).1,
            r == grammar::spec_read_exact(old(self)@, '{', Error::ExpectedLeftBrace).0,
    {
        match self.content.consume() {
            Ok(ch) => if ch == '{' {
                Ok(ch)
            } else {
                Err(Error::ExpectedLeftBrace)
            },
            Err(e) => Err(e),
        }
    }

    /// One character that must be `}`.
    fn read_right_brace(&mut self) -> (r: Result<char, Error>)
        requires
            old(self).wf(),
            old(self)@.loc.idx <= old(self)@.text.len(),
        ensures
            final(self).wf(),
            final(self)@ == grammar::spec_read_exact(old(self)@, '}', Error::ExpectedRightBrace).1,
            r == grammar::spec_read_exact(old(self)@, '}', Error::ExpectedRightBrace).0,
    {
        match self.content.consume() {
            Ok(ch) => if ch == '}' {
                Ok(ch)
            } else {
                Err(Error::ExpectedRightBrace)
            },
            Err(e) => Err(e),
        }
    }

    /// One character that must be `#`.
    fn read_hash(&mut self) -> (r: Result<char, Error>)
        requires
            old(self).wf(),
            old(self)@.loc.idx <= old(self)@.text.len(),
        ensures
            final(self).wf(),
            final(self)@ == grammar::spec_read_exact(old(self)@, '#', Error::ExpectedHash).1,
            r == grammar::spec_read_exact(old(self)@, '#', Error::ExpectedHash).0,
    {
        match self.content.consume() {
            Ok(ch) => if ch == '#' {
                Ok(ch)
            } else {
                Err(Error::ExpectedHash)
            },
            Err(e) => Err(e),
        }
    }

    /// One character that must be a space.
    fn read_space(&mut self) -> (r: Result<char, Error>)
        requires
            old(self).wf(),
            old(self)@.loc.idx <= old(self)@.text.len(),
        ensures
            final(self).wf(),
            final(self)@ == grammar::spec_read_exact(old(self)@, ' ', Error::ExpectedSpace).1,
            r == grammar::spec_read_exact(old(self)@, ' ', Error::ExpectedSpace).0,
    {
        match self.content.consume() {
            Ok(ch) => if ch == ' ' {
                Ok(ch)
            } else {
                Err(Error::ExpectedSpace)
            },
            Err(e) => Err(e),
        }
    }

    /// The current character if it can continue a name, consumed.
    fn read_name_tail_char(&mut self) -> (r: Option<char>)
        requires
            old(self).wf(),
        ensures
            final(self).wf(),
            final(self)@.text == old(self)@.text,
            match old(self)@.peek() {
                Some(ch) => if grammar::is_name_tail_char(ch) {
                    r == Some(ch) && final(self)@ == old(self)@.advance()
                } else {
                    r == None::<char> && final(self)@ == old(self)@
                },
                None => r == None::<char> && final(self)@ == old(self)@,
            },
    {
        match self.content.peek() {
            Some(ch) => if Parser::is_name_tail_char(&ch) {
                self.content.advance();
                Some(ch)
            } else {
                None
            },
            None => None,
        }
    }

    /// An identifier: a name-head character, then greedily name-tail
    /// characters.
    fn read_name(&mut self) -> (r: Result<String, Error>)
        requires
            old(self).wf(),
            old(self)@.loc.idx <= old(self)@.text.len(),
        ensures
            final(self).wf(),
            final(self)@.text == old(self)@.text,
            final(self)@ == grammar::spec_read_name(old(self)@).1,
            (match (r, grammar::spec_read_name(old(self)@).0) {
                (Ok(s), Ok(m)) => s@ == m,
                (Err(e1), Err(e2)) => e1 == e2,
                _ => false,
            }),
            old(self)@.loc.idx <= final(self)@.loc.idx,
            r is Ok ==> old(self)@.loc.idx < final(self)@.loc.idx
                && final(self)@.loc.idx <= final(self)@.text.len(),
    {
        let head = match self.read_name_head() {
            Ok(ch) => ch,
            Err(e) => {
                return Err(e);
            },
        };
        let mut res = String::new();
        push_char(&mut res, head);
        let ghost c1 = self@;
        let ghost acc1 = res@;
        loop
            invariant
                self.wf(),
                self@.text == old(self)@.text,
                self@.loc.idx <= self@.text.len(),
                c1.loc.idx <= self@.loc.idx,
                grammar::spec_read_name_tail(self@, res@) == grammar::spec_read_name_tail(c1, acc1),
            ensures
                self.wf(),
                self@.text == old(self)@.text,
                self@.loc.idx <= self@.text.len(),
                c1.loc.idx <= self@.loc.idx,
                grammar::spec_read_name_tail(c1, acc1) == (res@, self@),
            decreases self@.remaining(),
        {
            match self.read_name_tail_char() {
                Some(ch) => push_char(&mut res, ch),
                None => break,
            }
        }
        Ok(res)
    }

    /// An attribute key: an identifier.
    fn read_attribute_key(&mut self) -> (r: Result<String, Error>)
        requires
            old(self).wf(),
            old(self)@.loc.idx <= old(self)@.text.len(),
        ensures
            final(self).wf(),
            final(self)@.text == old(self)@.text,
            final(self)@ == grammar::spec_read_name(old(self)@).1,
            (match (r, grammar::spec_read_name(old(self)@).0) {
                (Ok(s), Ok(m)) => s@ == m,
                (Err(e1), Err(e2)) => e1 == e2,
                _ => false,
            }),
            old(self)@.loc.idx <= final(self)@.loc.idx,
            r is Ok ==> old(self)@.loc.idx < final(self)@.loc.idx
                && final(self)@.loc.idx <= final(self)@.text.len(),
    {
        self.read_name()
    }

    /// An attribute value, decoded: plain characters and `%`-escaped `%`,
    /// `]` or `,`, up to an unconsumed `]` or `,`.
    fn read_attribute_value(&mut self) -> (r: Result<String, Error>)
        requires
            old(self).wf(),
            old(self)@.loc.idx <= old(self)@.text.len(),
        ensures
            final(self).wf(),
            final(self)@.text == old(self)@.text,
            final(self)@ == grammar::spec_read_attribute_value(old(self)@, Seq::empty()).1,
            (match (r, grammar::spec_read_attribute_value(old(self)@, Seq::empty()).0) {
                (Ok(s), Ok(m)) => s@ == m,
                (Err(e1), Err(e2)) => e1 == e2,
                _ => false,
            }),
            old(self)@.loc.idx <= final(self)@.loc.idx,
            r is Ok ==> final(self)@.loc.idx < final(self)@.text.len(),
    {
        let mut res = String::new();
        let ghost c0 = self@;
        loop
            invariant
                self.wf(),
                self@.text == old(self)@.text,
                self@.loc.idx <= self@.text.len(),
                c0 == old(self)@,
                c0.loc.idx <= self@.loc.idx,
                grammar::spec_read_attribute_value(self@, res@)
                    == grammar::spec_read_attribute_value(c0, Seq::empty()),
            ensures
                self.wf(),
                self@.text == old(self)@.text,
                self@.loc.idx < self@.text.len(),
                c0.loc.idx <= self@.loc.idx,
                grammar::spec_read_attribute_value(c0, Seq::empty()) == (Ok::<Seq<char>, Error>(res@), self@),
            decreases self@.remaining(),
        {
            let c = match self.content.peek() {
                Some(c) => c,
                None => {
                    return Err(Error::UnexpectedEOF);
                },
            };
            if c == '%' {
                self.content.advance();
                let c2 = match self.content.peek() {
                    Some(c2) => c2,
                    None => {
                        return Err(Error::UnexpectedEOF);
                    },
                };
                if c2 == '%' || c2 == ']' || c2 == ',' {
                    self.content.advance();
                    push_char(&mut res, c2);
                } else if c2 == '\n' {
                    return Err(Error::UnexpectedEOL);
                } else {
                    return Err(Error::UnexpectedEscapeSequence);
                }
            } else if c == ']' || c == ',' {
                break;
            } else if c == '\n' {
                return Err(Error::UnexpectedEOL);
            } else {
                self.content.advance();
                push_char(&mut res, c);
            }
        }
        Ok(res)
    }

    /// An optional attribute list: absent, empty, or `]`-closed pairs.
    fn read_attributes(&mut self) -> (r: Result<Vec<(String, String)>, Error>)
        requires
            old(self).wf(),
            old(self)@.loc.idx <= old(self)@.text.len(),
        ensures
            final(self).wf(),
            final(self)@.text == old(self)@.text,
            final(self)@ == grammar::spec_read_attributes(old(self)@).1,
            (match (r, grammar::spec_read_attributes(old(self)@).0) {
                (Ok(v), Ok(m)) => attrs_model(v@) == m,
                (Err(e1), Err(e2)) => e1 == e2,
                _ => false,
            }),
            old(self)@.loc.idx <= final(self)@.loc.idx,
            r is Ok ==> final(self)@.loc.idx <= final(self)@.text.len(),
    {
        let mut attributes: Vec<(String, String)> = Vec::new();

        proof {
            assert(attrs_model(attributes@) =~= Seq::<(Seq<char>, Seq<char>)>::empty());
        }

        if !self.content.try_consume_char('[') {
            return Ok(attributes);
        }

        if self.content.try_consume_char(']') {
            return Ok(attributes);
        }

        let ghost c0 = self@;
        loop
            invariant_except_break
                grammar::spec_read_attr_pairs(self@, attrs_model(attributes@))
                    == grammar::spec_read_attr_pairs(c0, Seq::empty()),
            invariant
                self.wf(),
                self@.text == old(self)@.text,
                self@.loc.idx <= self@.text.len(),
                old(self)@.loc.idx <= self@.loc.idx,
                grammar::spec_try_consume(old(self)@, '[') == (true, grammar::spec_try_consume(old(self)@, '[').1),
                grammar::spec_try_consume(grammar::spec_try_consume(old(self)@, '[').1, ']')
                    == (false, grammar::spec_try_consume(old(self)@, '[').1),
                c0 == grammar::spec_try_consume(old(self)@, '[').1,
            ensures
                self.wf(),
                self@.text == old(self)@.text,
                self@.loc.idx <= self@.text.len(),
                old(self)@.loc.idx <= self@.loc.idx,
                c0 == grammar::spec_try_consume(old(self)@, '[').1,
                grammar::spec_read_attr_pairs(c0, Seq::empty())
                    == (Ok::<Seq<(Seq<char>, Seq<char>)>, Error>(attrs_model(attributes@)), self@),
            decreases self@.remaining(),
        {
            let key = match self.read_attribute_key() {
                Ok(k) => k,
                Err(e) => {
                    return Err(e);
                },
            };

            if self.content.try_consume_char('=') {
                let value = match self.read_attribute_value() {
                    Ok(v) => v,
                    Err(e) => {
                        return Err(e);
                    },
                };
                attrs_insert(&mut attributes, key, value);
            } else {
                let value = key.clone();
                attrs_insert(&mut attributes, key, value);
            }

            match self.content.consume() {
                Ok(ch) => if ch == ']' {
                    break;
                } else if ch == ',' {
                } else {
                    return Err(Error::UnexpectedEOF);
                },
                Err(e) => {
                    return Err(e);
                },
            }
        }
        Ok(attributes)
    }

    // Reading -- nodes

    /// A run of plain text, possibly empty, up to an unconsumed `%`, `}`,
    /// newline, or the end of the input.
    fn read_string_node(&mut self) -> (r: Result<Node, Error>)
        requires
            old(self).wf(),
            old(self)@.loc.idx <= old(self)@.text.len(),
        ensures
            final(self).wf(),
            final(self)@.text == old(self)@.text,
            final(self)@ == grammar::spec_read_string_node(old(self)@, Seq::empty()).1,
            (match r {
                Ok(n) => node_model(n) == NodeModel::Text(
                    grammar::spec_read_string_node(old(self)@, Seq::empty()).0,
                ),
                Err(_) => false,
            }),
            old(self)@.loc.idx <= final(self)@.loc.idx,
            final(self)@.loc.idx <= final(self)@.text.len(),
            (match old(self)@.peek() {
                Some(ch) => !(ch == '\n' || ch == '%' || ch == '}')
                    ==> old(self)@.loc.idx < final(self)@.loc.idx,
                None => true,
            }),
    {
        let mut res = String::new();
        let ghost c0 = self@;
        loop
            invariant
                self.wf(),
                self@.text == c0.text,
                self@.loc.idx <= self@.text.len(),
                c0 == old(self)@,
                self@ == c0 || c0.loc.idx < self@.loc.idx,
                grammar::spec_read_string_node(self@, res@)
                    == grammar::spec_read_string_node(c0, Seq::empty()),
            ensures
                self.wf(),
                self@.text == c0.text,
                self@.loc.idx <= self@.text.len(),
                self@ == c0 || c0.loc.idx < self@.loc.idx,
                grammar::spec_read_string_node(c0, Seq::empty()) == (res@, self@),
                (match self@.peek() {
                    None => true,
                    Some(ch) => ch == '\n' || ch == '%' || ch == '}',
                }),
            decreases self@.remaining(),
        {
            let c = match self.content.peek() {
                Some(c) => c,
                None => break,
            };
            if c == '\n' || c == '%' || c == '}' {
                break;
            }
            self.content.advance();
            push_char(&mut res, c);
        }
        Ok(Node::String(StringNode { content: res }))
    }

    /// The character after a recognized escape trigger, as a one-character
    /// text node.
    fn read_escaped_char(&mut self) -> (r: Result<Node, Error>)
        requires
            old(self).wf(),
            old(self)@.loc.idx <= old(self)@.text.len(),
        ensures
            final(self).wf(),
            final(self)@.text == old(self)@.text,
            final(self)@ == grammar::spec_read_escaped_char(old(self)@).1,
            (match (r, grammar::spec_read_escaped_char(old(self)@).0) {
                (Ok(n), Ok(m)) => node_model(n) == m,
                (Err(e1), Err(e2)) => e1 == e2,
                _ => false,
            }),
            old(self)@.loc.idx <= final(self)@.loc.idx,
            r is Ok ==> old(self)@.loc.idx < final(self)@.loc.idx
                && final(self)@.loc.idx <= final(self)@.text.len(),
    {
        let c = match self.content.peek() {
            Some(c) => c,
            None => {
                return Err(Error::UnexpectedEOF);
            },
        };
        self.content.advance();
        let mut content = String::new();
        push_char(&mut content, c);
        Ok(Node::String(StringNode { content }))
    }

    /// What follows a `%` trigger: an escaped literal or an inline element.
    fn read_percent_body(&mut self) -> (r: Result<Node, Error>)
        requires
            old(self).wf(),
            old(self)@.loc.idx <= old(self)@.text.len(),
        ensures
            final(self).wf(),
            final(self)@.text == old(self)@.text,
            final(self)@ == grammar::spec_read_percent_body(old(self)@).1,
            (match (r, grammar::spec_read_percent_body(old(self)@).0) {
                (Ok(n), Ok(m)) => node_model(n) == m,
                (Err(e1), Err(e2)) => e1 == e2,
                _ => false,
            }),
            old(self)@.loc.idx <= final(self)@.loc.idx,
            r is Ok ==> old(self)@.loc.idx < final(self)@.loc.idx
                && final(self)@.loc.idx <= final(self)@.text.len(),
        decreases old(self)@.remaining(), 2int,
    {
        // Skip the char that triggered this read
        self.content.advance();

        let c = match self.content.peek() {
            Some(c) => c,
            None => {
                return Err(Error::UnexpectedEOF);
            },
        };
        if c == '%' || c == '}' || c == '#' {
            self.read_escaped_char()
        } else {
            self.read_inline_element_node()
        }
    }

    /// An inline element after its `%`: a name, an optional attribute list,
    /// `{`, an inline run, and `}`.
    fn read_inline_element_node(&mut self) -> (r: Result<Node, Error>)
        requires
            old(self).wf(),
            old(self)@.loc.idx <= old(self)@.text.len(),
        ensures
            final(self).wf(),
            final(self)@.text == old(self)@.text,
            final(self)@ == grammar::spec_read_inline_element(old(self)@).1,
            (match (r, grammar::spec_read_inline_element(old(self)@).0) {
                (Ok(n), Ok(m)) => node_model(n) == m,
                (Err(e1), Err(e2)) => e1 == e2,
                _ => false,
            }),
            old(self)@.loc.idx <= final(self)@.loc.idx,
            r is Ok ==> old(self)@.loc.idx < final(self)@.loc.idx
                && final(self)@.loc.idx <= final(self)@.text.len(),
        decreases old(self)@.remaining(), 1int,
    {
        let name = match self.read_name() {
            Ok(n) => n,
            Err(e) => {
                return Err(e);
            },
        };
        let attributes = match self.read_attributes() {
            Ok(a) => a,
            Err(e) => {
                return Err(e);
            },
        };
        match self.read_left_brace() {
            Ok(_) => (),
            Err(e) => {
                return Err(e);
            },
        }
        let content = match self.read_inline_nodes() {
            Ok(c) => c,
            Err(e) => {
                return Err(e);
            },
        };
        match self.read_right_brace() {
            Ok(_) => (),
            Err(e) => {
                return Err(e);
            },
        }

        Ok(Node::Element(ElementNode { name, attributes, children: content }))
    }

    /// An inline run: text runs, escapes and inline elements up to an
    /// unconsumed newline, `}`, or the end of the input.
    fn read_inline_nodes(&mut self) -> (r: Result<Vec<Node>, Error>)
        requires
            old(self).wf(),
            old(self)@.loc.idx <= old(self)@.text.len(),
        ensures
            final(self).wf(),
            final(self)@.text == old(self)@.text,
            final(self)@ == grammar::spec_read_inline_nodes(old(self)@, Seq::empty()).1,
            (match (r, grammar::spec_read_inline_nodes(old(self)@, Seq::empty()).0) {
                (Ok(v), Ok(m)) => nodes_model(v@) == m,
                (Err(e1), Err(e2)) => e1 == e2,
                _ => false,
            }),
            old(self)@.loc.idx <= final(self)@.loc.idx,
            r is Ok ==> final(self)@.loc.idx <= final(self)@.text.len()
                && (match final(self)@.peek() {
                    None => true,
                    Some(ch) => ch == '\n' || ch == '}',
                }),
        decreases old(self)@.remaining(), 3int,
    {
        let mut res: Vec<Node> = Vec::new();
        let ghost c0 = self@;
        loop
            invariant
                self.wf(),
                self@.text == c0.text,
                self@.loc.idx <= self@.text.len(),
                c0 == old(self)@,
                c0.loc.idx <= self@.loc.idx,
                grammar::spec_read_inline_nodes(self@, nodes_model(res@))
                    == grammar::spec_read_inline_nodes(c0, Seq::empty()),
            ensures
                self.wf(),
                self@.text == c0.text,
                self@.loc.idx <= self@.text.len(),
                c0.loc.idx <= self@.loc.idx,
                grammar::spec_read_inline_nodes(c0, Seq::empty())
                    == (Ok::<Seq<NodeModel>, Error>(nodes_model(res@)), self@),
                (match self@.peek() {
                    None => true,
                    Some(ch) => ch == '\n' || ch == '}',
                }),
            decreases self@.remaining(),
        {
            let c = match self.content.peek() {
                Some(c) => c,
                None => break,
            };
            if c == '\n' || c == '}' {
                break;
            }
            if c == '%' {
                let node = match self.read_percent_body() {
                    Ok(n) => n,
                    Err(e) => {
                        return Err(e);
                    },
                };
                proof {
                    lemma_nodes_model_push(res@, node);
                }
                res.push(node);
            } else {
                let node = match self.read_string_node() {
                    Ok(n) => n,
                    Err(e) => {
                        return Err(e);
                    },
                };
                proof {
                    lemma_nodes_model_push(res@, node);
                }
                res.push(node);
            }
        }
        Ok(res)
    }

    /// The mandatory end of a line of inline content: a newline (consumed)
    /// or the end of the input; a `}` here is rejected. An inline run stops
    /// at no other character, so no other character can appear here.
    fn read_end_of_inline_content(&mut self) -> (r: Result<(), Error>)
        requires
            old(self).wf(),
            old(self)@.loc.idx <= old(self)@.text.len(),
            (match old(self)@.peek() {
                None => true,
                Some(ch) => ch == '\n' || ch == '}',
            }),
        ensures
            final(self).wf(),
            final(self)@.text == old(self)@.text,
            final(self)@ == grammar::spec_read_end_of_inline(old(self)@).1,
            r == grammar::spec_read_end_of_inline(old(self)@).0,
            old(self)@.loc.idx <= final(self)@.loc.idx,
    {
        match self.content.consume() {
            Err(_) => Ok(()),
            Ok(ch) => if ch == '\n' {
                Ok(())
            } else if ch == '}' {
                Err(Error::UnexpectedRightBrace)
            } else {
                unreached()
            },
        }
    }

    // Reading -- blocks

    /// If the line at the cursor is blank, the offset just past its end.
    fn try_read_blank_line(&self) -> (r: Option<usize>)
        requires
            self.wf(),
            self@.loc.idx <= self@.text.len(),
        ensures
            (match (r, grammar::spec_blank_line_end(self@.text, self@.loc.idx)) {
                (Some(u), Some(n)) => u as nat == n
                    && self@.loc.idx < u as nat
                    && u as nat <= self@.text.len() + 1,
                (None, None) => true,
                _ => false,
            }),
    {
        let ghost idx0 = self@.loc.idx;
        let mut j: usize = self.content.pos.idx;
        loop
            invariant
                self.wf(),
                idx0 == self@.loc.idx,
                idx0 <= j as nat,
                j as nat <= self@.text.len(),
                grammar::spec_blank_line_end(self@.text, j as nat)
                    == grammar::spec_blank_line_end(self@.text, idx0),
            decreases self@.text.len() - j,
        {
            if j < self.content.chars.len() {
                let ch = self.content.chars[j];
                if ch == ' ' {
                    j = j + 1;
                } else if ch == '\n' {
                    return Some(j + 1);
                } else {
                    return None;
                }
            } else {
                return Some(j + 1);
            }
        }
    }

    /// Exactly `2 * indent` space characters of indentation.
    fn read_indentation(&mut self, indent: usize) -> (r: Result<(), Error>)
        requires
            old(self).wf(),
            old(self)@.loc.idx <= old(self)@.text.len(),
        ensures
            final(self).wf(),
            final(self)@.text == old(self)@.text,
            final(self)@ == grammar::spec_read_indentation(old(self)@, indent as nat).1,
            (match (r, grammar::spec_read_indentation(old(self)@, indent as nat).0) {
                (Ok(_), Ok(_)) => true,
                (Err(e1), Err(e2)) => e1 == e2,
                _ => false,
            }),
            old(self)@.loc.idx <= final(self)@.loc.idx,
            r is Ok ==> final(self)@.loc.idx == old(self)@.loc.idx + 2 * indent
                && (indent > 0 ==> final(self)@.loc.idx <= final(self)@.text.len()),
    {
        let ghost c0 = self@;
        let mut i: usize = 0;
        while i < indent
            invariant
                self.wf(),
                self@.text == c0.text,
                self@.loc.idx <= self@.text.len(),
                c0 == old(self)@,
                i <= indent,
                self@.loc.idx == c0.loc.idx + 2 * i,
                grammar::spec_read_indentation(c0, indent as nat)
                    == grammar::spec_read_indentation(self@, (indent - i) as nat),
            decreases indent - i,
        {
            match self.read_space() {
                Ok(_) => (),
                Err(e) => {
                    return Err(e);
                },
            }
            match self.read_space() {
                Ok(_) => (),
                Err(e) => {
                    return Err(e);
                },
            }
            i = i + 1;
        }

        Ok(())
    }

    /// The indentation level of the line at the cursor: leading spaces
    /// divided by two, a trailing odd space ignored.
    fn detect_indentation(&self) -> (r: usize)
        requires
            self.wf(),
            self@.loc.idx <= self@.text.len(),
        ensures
            r as nat == grammar::spec_detect_indentation(self@),
    {
        let mut indentation_chars: usize = 0;
        let mut j: usize = self.content.pos.idx;

        loop
            invariant
                self.wf(),
                self@.loc.idx <= j as nat,
                j as nat <= self@.text.len(),
                indentation_chars as nat + self@.loc.idx == j as nat,
                grammar::spec_count_spaces(self@.text, self@.loc.idx)
                    == indentation_chars as nat + grammar::spec_count_spaces(self@.text, j as nat),
            ensures
                grammar::spec_count_spaces(self@.text, self@.loc.idx) == indentation_chars as nat,
            decreases self@.text.len() - j,
        {
            if j < self.content.chars.len() {
                if self.content.chars[j] == ' ' {
                    j = j + 1;
                    indentation_chars = indentation_chars + 1;
                } else {
                    break;
                }
            } else {
                break;
            }
        }

        indentation_chars / 2
    }

    /// Whether the cursor sits on a `#` immediately followed by a name-head
    /// character, which begins a nested block.
    fn try_read_block_start(&self) -> (r: bool)
        ensures
            r == grammar::spec_try_read_block_start(self@),
    {
        match self.content.peek() {
            Some(c) => if c == '#' {
                match self.content.peek2() {
                    Some(c2) => Parser::is_name_head_char(&c2),
                    None => false,
                }
            } else {
                false
            },
            None => false,
        }
    }

    /// A block header: `#`, a name, an optional attribute list, then either
    /// the end of the line or one space and an inline run.
    fn read_block_element_node(&mut self) -> (r: Result<ElementNode, Error>)
        requires
            old(self).wf(),
            old(self)@.loc.idx <= old(self)@.text.len(),
        ensures
            final(self).wf(),
            final(self)@.text == old(self)@.text,
            final(self)@ == grammar::spec_read_block_element(old(self)@).1,
            (match (r, grammar::spec_read_block_element(old(self)@).0) {
                (Ok(e), Ok(m)) => element_model(e) == m,
                (Err(e1), Err(e2)) => e1 == e2,
                _ => false,
            }),
            old(self)@.loc.idx <= final(self)@.loc.idx,
            r is Ok ==> old(self)@.loc.idx < final(self)@.loc.idx,
    {
        match self.read_hash() {
            Ok(_) => (),
            Err(e) => {
                return Err(e);
            },
        }
        let name = match self.read_name() {
            Ok(n) => n,
            Err(e) => {
                return Err(e);
            },
        };
        let attributes = match self.read_attributes() {
            Ok(a) => a,
            Err(e) => {
                return Err(e);
            },
        };
        let mut children: Vec<Node> = Vec::new();

        proof {
            assert(nodes_model(children@) == Seq::<NodeModel>::empty());
        }

        match self.content.consume() {
            Err(_) => (),
            Ok(ch) => if ch == '\n' {
            } else if ch == ' ' {
                let nodes = match self.read_inline_nodes() {
                    Ok(v) => v,
                    Err(e) => {
                        return Err(e);
                    },
                };
                match self.read_end_of_inline_content() {
                    Ok(_) => (),
                    Err(e) => {
                        return Err(e);
                    },
                }
                children = nodes;
            } else {
                return Err(Error::UnexpectedContentAfterBlockName);
            },
        }

        Ok(ElementNode { name, attributes, children })
    }

    /// A block element at nesting level `indent` together with its body:
    /// counted blank lines, continued inline content, and nested blocks one
    /// level deeper, until a dedent or the end of the input.
    fn read_block_with_children(&mut self, indent: usize) -> (r: Result<Node, Error>)
        requires
            old(self).wf(),
            old(self)@.loc.idx <= old(self)@.text.len(),
            indent as nat <= old(self)@.text.len(),
        ensures
            final(self).wf(),
            final(self)@.text == old(self)@.text,
            final(self)@ == grammar::spec_read_block(old(self)@, indent as nat).1,
            (match (r, grammar::spec_read_block(old(self)@, indent as nat).0) {
                (Ok(n), Ok(m)) => node_model(n) == m,
                (Err(e1), Err(e2)) => e1 == e2,
                _ => false,
            }),
            old(self)@.loc.idx <= final(self)@.loc.idx,
            r is Ok ==> old(self)@.loc.idx < final(self)@.loc.idx,
        decreases old(self)@.remaining(),
    {
        let mut res = match self.read_block_element_node() {
            Ok(e) => e,
            Err(e) => {
                return Err(e);
            },
        };

        let ghost c1 = self@;
        let ghost name0 = res.name@;
        let ghost attrs0 = attrs_model(res.attributes@);
        let ghost base_children = nodes_model(res.children@);

        let mut pending_blanks: usize = 0;
        loop
            invariant
                self.wf(),
                self@.text == c1.text,
                c1.text == old(self)@.text,
                c1.loc.idx <= self@.loc.idx,
                old(self)@.loc.idx < c1.loc.idx,
                indent as nat <= self@.text.len(),
                pending_blanks as nat <= self@.loc.idx,
                res.name@ == name0,
                attrs_model(res.attributes@) == attrs0,
                c1 == grammar::spec_read_block_element(old(self)@).1,
                c1.remaining() < old(self)@.remaining(),
                (match grammar::spec_read_block_element(old(self)@).0 {
                    Ok(m) => m == (crate::model::ElementModel {
                        name: name0,
                        attributes: attrs0,
                        children: base_children,
                    }),
                    Err(_) => false,
                }),
                grammar::spec_read_block_body(
                    self@,
                    indent as nat,
                    pending_blanks as nat,
                    nodes_model(res.children@),
                ) == grammar::spec_read_block_body(c1, indent as nat, 0, base_children),
            ensures
                self.wf(),
                self@.text == c1.text,
                c1.loc.idx <= self@.loc.idx,
                res.name@ == name0,
                attrs_model(res.attributes@) == attrs0,
                c1 == grammar::spec_read_block_element(old(self)@).1,
                c1.remaining() < old(self)@.remaining(),
                (match grammar::spec_read_block_element(old(self)@).0 {
                    Ok(m) => m == (crate::model::ElementModel {
                        name: name0,
                        attributes: attrs0,
                        children: base_children,
                    }),
                    Err(_) => false,
                }),
                grammar::spec_read_block_body(c1, indent as nat, 0, base_children)
                    == (Ok::<Seq<NodeModel>, Error>(nodes_model(res.children@)), self@),
            decreases self@.remaining(),
        {
            if self.content.is_eof() {
                break;
            }
            match self.try_read_blank_line() {
                Some(blank_idx) => {
                    self.content.pos.idx = blank_idx;
                    self.content.pos.line_nr = self.content.pos.line_nr + 1;
                    self.content.pos.col_nr = 0;
                    pending_blanks = pending_blanks + 1;
                },
                None => {
                    let sub_indentation = self.detect_indentation();
                    if sub_indentation < indent + 1 {
                        break;
                    }

                    match self.read_indentation(indent + 1) {
                        Ok(_) => (),
                        Err(e) => {
                            return Err(e);
                        },
                    }
                    if self.try_read_block_start() {
                        let child = match self.read_block_with_children(indent + 1) {
                            Ok(c) => c,
                            Err(e) => {
                                return Err(e);
                            },
                        };
                        proof {
                            lemma_nodes_model_push(res.children@, child);
                        }
                        res.children.push(child);
                    } else {
                        let ghost before = nodes_model(res.children@);
                        let ghost lead = if before.len() > 0 {
                            grammar::spec_newline_seps(1)
                        } else {
                            Seq::<NodeModel>::empty()
                        };
                        if res.children.len() > 0 {
                            let node = newline_node();
                            proof {
                                lemma_nodes_model_push(res.children@, node);
                                assert(grammar::spec_newline_seps(0) == Seq::<NodeModel>::empty());
                                assert(nodes_model(res.children@).push(node_model(node))
                                    =~= before + lead);
                            }
                            res.children.push(node);
                        } else {
                            proof {
                                assert(nodes_model(res.children@) =~= before + lead);
                            }
                        }

                        let ghost mid = before + lead;
                        let mut k: usize = 0;
                        while k < pending_blanks
                            invariant
                                k <= pending_blanks,
                                res.name@ == name0,
                                attrs_model(res.attributes@) == attrs0,
                                nodes_model(res.children@) == mid + grammar::spec_newline_seps(k as nat),
                            decreases pending_blanks - k,
                        {
                            let node = newline_node();
                            proof {
                                lemma_nodes_model_push(res.children@, node);
                                assert((mid + grammar::spec_newline_seps(k as nat)).push(
                                    NodeModel::Text(Seq::empty().push('\n')),
                                ) =~= mid + grammar::spec_newline_seps(k as nat + 1));
                            }
                            res.children.push(node);
                            k = k + 1;
                        }

                        pending_blanks = 0;
                        let mut nodes = match self.read_inline_nodes() {
                            Ok(v) => v,
                            Err(e) => {
                                return Err(e);
                            },
                        };
                        proof {
                            lemma_nodes_model_concat(res.children@, nodes@);
                        }
                        res.children.append(&mut nodes);
                        match self.read_end_of_inline_content() {
                            Ok(_) => (),
                            Err(e) => {
                                return Err(e);
                            },
                        }
                    }
                },
            }
        }

        Ok(Node::Element(res))
    }

    /// The whole document: leading blank lines are skipped, then top-level
    /// blocks are read until the end of the input.
    pub fn run(&mut self) -> (r: Result<Vec<Node>, Error>)
        requires
            old(self).wf(),
        ensures
            final(self).wf(),
            final(self)@.text == old(self)@.text,
            final(self)@ == grammar::spec_run(old(self)@).1,
            (match (r, grammar::spec_run(old(self)@).0) {
                (Ok(v), Ok(m)) => nodes_model(v@) == m,
                (Err(e1), Err(e2)) => e1 == e2,
                _ => false,
            }),
    {
        // Skip blank lines
        loop
            invariant
                self.wf(),
                self@.text == old(self)@.text,
                grammar::spec_skip_blank_lines(self@) == grammar::spec_skip_blank_lines(old(self)@),
            ensures
                self.wf(),
                self@.text == old(self)@.text,
                grammar::spec_skip_blank_lines(old(self)@) == self@,
            decreases self@.remaining(),
        {
            if self.content.is_eof() {
                break;
            }
            match self.try_read_blank_line() {
                Some(blank_idx) => {
                    self.content.pos.idx = blank_idx;
                    self.content.pos.line_nr = self.content.pos.line_nr + 1;
                    self.content.pos.col_nr = 0;
                },
                None => break,
            }
        }

        let ghost cmid = self@;
        let mut nodes: Vec<Node> = Vec::new();

        proof {
            assert(nodes_model(nodes@) == Seq::<NodeModel>::empty());
        }

        loop
            invariant
                self.wf(),
                self@.text == old(self)@.text,
                cmid == grammar::spec_skip_blank_lines(old(self)@),
                grammar::spec_read_blocks(self@, nodes_model(nodes@))
                    == grammar::spec_read_blocks(cmid, Seq::empty()),
            ensures
                self.wf(),
                self@.text == old(self)@.text,
                cmid == grammar::spec_skip_blank_lines(old(self)@),
                grammar::spec_read_blocks(cmid, Seq::empty())
                    == (Ok::<Seq<NodeModel>, Error>(nodes_model(nodes@)), self@),
            decreases self@.remaining(),
        {
            if self.content.is_eof() {
                break;
            }

            let node = match self.read_block_with_children(0) {
                Ok(n) => n,
                Err(e) => {
                    return Err(e);
                },
            };
            proof {
                lemma_nodes_model_push(nodes@, node);
            }
            nodes.push(node);
        }

        Ok(nodes)
    }
}

} // verus!
