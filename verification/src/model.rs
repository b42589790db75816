//! The mathematical model of the parser: a ghost cursor over the input and
//! ghost node trees that mirror the executable [`crate::Node`] values.

use vstd::prelude::*;
use crate::{ElementNode, Node, StringNode};

verus! {

/// A position inside the input: character offset, and zero-based line and
/// column numbers. Consuming a newline resets the column and increments the
/// line; consuming any other character increments the column.
pub ghost struct Loc {
    pub idx: nat,
    pub line: nat,
    pub col: nat,
}

/// The ghost state of a scanner: the whole input and the current position.
///
/// `loc.idx` may pass `text.len()` by one: consuming at the end of the input
/// still advances the position, and the failure is reported at that position.
pub ghost struct Cursor {
    pub text: Seq<char>,
    pub loc: Loc,
}

impl Cursor {
    /// The cursor at the start of `text`.
    pub open spec fn start(text: Seq<char>) -> Cursor {
        Cursor { text, loc: Loc { idx: 0, line: 0, col: 0 } }
    }

    /// The current character, or `None` at or past the end of the input.
    pub open spec fn peek(self) -> Option<char> {
        if self.loc.idx < self.text.len() {
            Some(self.text[self.loc.idx as int])
        } else {
            None
        }
    }

    /// The character one past the current one, or `None`.
    pub open spec fn peek2(self) -> Option<char> {
        if self.loc.idx + 1 < self.text.len() {
            Some(self.text[self.loc.idx as int + 1])
        } else {
            None
        }
    }

    /// One step of the scanner: the offset always moves by one, and the
    /// line/column bookkeeping follows the character stepped over.
    pub open spec fn advance(self) -> Cursor {
        if self.peek() == Some('\n') {
            Cursor {
                text: self.text,
                loc: Loc { idx: self.loc.idx + 1, line: self.loc.line + 1, col: 0 },
            }
        } else {
            Cursor {
                text: self.text,
                loc: Loc { idx: self.loc.idx + 1, line: self.loc.line, col: self.loc.col + 1 },
            }
        }
    }

    /// How many characters are left to read.
    pub open spec fn remaining(self) -> nat {
        if self.loc.idx < self.text.len() {
            (self.text.len() - self.loc.idx) as nat
        } else {
            0
        }
    }
}

/// The ghost counterpart of [`ElementNode`].
pub ghost struct ElementModel {
    pub name: Seq<char>,
    pub attributes: Seq<(Seq<char>, Seq<char>)>,
    pub children: Seq<NodeModel>,
}

/// The ghost counterpart of [`Node`].
pub ghost enum NodeModel {
    Element(ElementModel),
    Text(Seq<char>),
}

/// The ghost element that an executable element stands for.
pub open spec fn element_model(e: ElementNode) -> ElementModel {
    ElementModel {
        name: e.name@,
        attributes: attrs_model(e.attributes@),
        children: nodes_model(e.children@),
    }
}

/// The ghost tree that an executable node stands for.
pub open spec fn node_model(n: Node) -> NodeModel
    decreases n,
{
    match n {
        Node::Element(e) => NodeModel::Element(ElementModel {
            name: e.name@,
            attributes: attrs_model(e.attributes@),
            children: nodes_model(e.children@),
        }),
        Node::String(s) => NodeModel::Text(s.content@),
    }
}

/// Mapping a sequence of nodes commutes with appending one node.
pub proof fn lemma_nodes_model_push(s: Seq<Node>, n: Node)
    ensures
        nodes_model(s.push(n)) == nodes_model(s).push(node_model(n)),
{
    assert(s.push(n).subrange(0, s.push(n).len() - 1) =~= s);
}

/// Mapping a sequence of nodes commutes with concatenation.
pub proof fn lemma_nodes_model_concat(a: Seq<Node>, b: Seq<Node>)
    ensures
        nodes_model(a + b) == nodes_model(a) + nodes_model(b),
    decreases b.len(),
{
    if b.len() == 0 {
        assert(a + b =~= a);
        assert(nodes_model(a) + nodes_model(b) =~= nodes_model(a));
    } else {
        let b0 = b.subrange(0, b.len() - 1);
        lemma_nodes_model_concat(a, b0);
        assert((a + b).subrange(0, (a + b).len() - 1) =~= a + b0);
        assert((a + b)[(a + b).len() - 1] == b[b.len() - 1]);
        assert(nodes_model(a) + nodes_model(b)
            =~= (nodes_model(a) + nodes_model(b0)).push(node_model(b[b.len() - 1])));
    }
}

/// The ghost trees that a sequence of executable nodes stands for.
pub open spec fn nodes_model(s: Seq<Node>) -> Seq<NodeModel>
    decreases s,
{
    if s.len() == 0 {
        Seq::empty()
    } else {
        nodes_model(s.subrange(0, s.len() - 1)).push(node_model(s[s.len() - 1]))
    }
}

/// The ghost pairs that an executable attribute list stands for.
pub open spec fn attrs_model(s: Seq<(String, String)>) -> Seq<(Seq<char>, Seq<char>)> {
    Seq::new(s.len(), |i: int| (s[i].0@, s[i].1@))
}

/// The ghost character sequence that an optional string stands for.
pub open spec fn opt_str_model(o: Option<String>) -> Option<Seq<char>> {
    match o {
        Some(s) => Some(s@),
        None => None,
    }
}

} // verus!
