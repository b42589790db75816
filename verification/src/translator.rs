//! A generic visitor over parsed node trees.

use vstd::prelude::*;
use crate::{ElementNode, Node, StringNode};

verus! {

/// Reduces a [`Node`] tree to a value of type `T`. A caller-supplied
/// context value is handed by value to each call, so an implementation can
/// thread state such as a nesting depth downward without sharing anything.
pub trait Translator<T, C> {
    /// Render one element node.
    fn translate_element(&self, node: &ElementNode, context: C) -> T;

    /// Render one text node.
    fn translate_string(&self, node: &StringNode, context: C) -> T;

    /// Render any node by dispatching on its kind.
    fn translate(&self, node: &Node, context: C) -> T {
        match node {
            Node::Element(n) => self.translate_element(n, context),
            Node::String(n) => self.translate_string(n, context),
        }
    }
}

} // verus!
