//! A tuple space: a shared store of dynamically typed tuples that are
//! retrieved by content, through templates.
//!
//! `LocalSpace` holds the tuples and decides every operation; `Template`
//! selects tuples; `codec` writes tuples, templates and messages as bytes;
//! `message` and `remote` hold what a gate and its clients decide; and
//! `Repository` keeps spaces and gates by name.
pub mod codec;
pub mod drain_filter;
pub mod error;
pub mod field;
pub mod message;
pub mod remote;
pub mod repository;
pub mod space;
pub mod template;
pub mod tuple;

pub use crate::drain_filter::drain_filter;
pub use crate::error::SpaceError;
pub use crate::field::FieldType;
pub use crate::field::FieldValue;
pub use crate::field::Kind;
pub use crate::field::TemplateType;
pub use crate::field::TupleField;
pub use crate::message::Dispatch;
pub use crate::message::Message;
pub use crate::message::MessageType;
pub use crate::repository::NameTable;
pub use crate::repository::Repository;
pub use crate::space::LocalSpace;
pub use crate::space::SpaceType;
pub use crate::template::Template;
pub use crate::tuple::Tuple;
