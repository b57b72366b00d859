//! Compiles a parenthesised symbolic syntax tree into stylesheet text and
//! markup text.
//!
//! A tree ([`node::Node`]) is first recognised as a typed intermediate form
//! ([`css::Item`], [`html::Item`]) and then rendered as text. Recognition
//! fails with the span of the first node that does not fit.
//!
//! Every type has a mathematical view, and every function is stated over
//! views. A recogniser returns what the `recognize` function of the view
//! describes, failures included; a renderer appends the text that the `text`
//! function of the view describes. The laws that hold between them are
//! proved in [`css::laws`] and [`html::laws`].
//!
//! The attributes of a markup element live in an `indexmap::IndexMap`. What
//! is taken on trust of that map is stated in [`attributes`].

pub mod text;
pub mod collect;
pub mod node;
pub mod css;
pub mod attributes;
pub mod html;
pub mod convert;
