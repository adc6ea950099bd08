//! Recognizes an embedded JSX-like markup language inside a stream of host
//! tokens and rewrites every markup occurrence into constructor-call tokens,
//! leaving all other tokens untouched and in their original order.

pub mod attributes;
pub mod component;
pub mod cursor;
pub mod element;
pub mod emit;
pub mod error;
pub mod grammar;
pub mod node;
pub mod raw_expr;
pub mod tag;
pub mod tokens;

pub use attributes::RSXAttribute;
pub use attributes::RSXAttributes;
pub use attributes::SpecAttr;
pub use attributes::SpecAttrForm;
pub use component::RSXComponent;
pub use component::SpecComponent;
pub use cursor::next_token;
pub use cursor::peek_ident;
pub use cursor::peek_punct;
pub use cursor::position_at;
pub use element::RSXElement;
pub use element::SpecElement;
pub use error::ParseError;
pub use node::rewrite_stream;
pub use node::tag_is_element;
pub use node::Node;
pub use node::SpecNode;
pub use raw_expr::rewrite_rsx;
pub use raw_expr::ExprNode;
pub use raw_expr::PartialExpr;
pub use raw_expr::SpecSeg;
pub use tokens::Delimiter;
pub use tokens::SpecToken;
pub use tokens::TokenTree;
