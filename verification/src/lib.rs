//! A parser for a textual state-diagram notation.
//!
//! The library turns a diagram description (states, transitions, notes,
//! directives, nested state blocks) into a typed abstract syntax tree.
//! The grammar is a parsing expression grammar: alternatives are tried in a
//! fixed order and the first full match wins.  The grammar itself is stated
//! as specification functions in [`grammar`]; the executable recursive-descent
//! engine in [`parser`] is proved to return exactly the tree that the grammar
//! assigns to the input, or a [`SyntaxError`](parser::SyntaxError) when the
//! grammar assigns none.

pub mod ast;
pub mod grammar;
pub mod laws;
pub mod parser;

pub use ast::Attributes;
pub use ast::Directive;
pub use ast::Element;
pub use ast::StateBlock;
pub use ast::StateData;
pub use ast::StateDeclaration;
pub use ast::StateDiagram;
pub use ast::StateNote;
pub use ast::Transition;
pub use parser::parse_state_diagram;
pub use parser::StateDiagramParser;
pub use parser::SyntaxError;
