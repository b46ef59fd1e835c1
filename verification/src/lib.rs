//! Shapes with an extensible, tag-keyed wire codec and a verified evaluator.
//!
//! A `ShapeValue` is a tree of geometric values (circles, squares, rectangles
//! and composites of further shapes).  Numbers are IEEE-754 binary64 values
//! carried by their bit patterns, so that validation, encoding and decoding
//! are exact.  The codec turns a shape into a tagged envelope and back,
//! consulting a registry that maps tag strings to variant kinds, and the
//! evaluator computes the area of a shape tree with an explicit depth bound.

mod area;
mod arith;
mod authorship;
mod codec;
mod envelope;
mod error;
mod num;
mod registry;
mod shape;

pub use num::Num;
pub use num::is_finite_bits;
pub use num::is_nonneg_bits;
pub use num::valid_bits;
pub use error::ErrorKind;
pub use error::ShapeError;
pub use shape::Shape;
pub use shape::ShapeValue;
pub use shape::wf;
pub use shape::depth_ok;
pub use shape::items_wf;
pub use shape::items_depth_ok;
pub use shape::lemma_items_wf;
pub use shape::lemma_items_depth_ok;
pub use shape::shape_model;
pub use shape::seq_model;
pub use shape::lemma_seq_model;
pub use arith::PI_BITS;
pub use arith::ZERO_BITS;
pub use arith::add_bits;
pub use arith::mul_bits;
pub use area::spec_area;
pub use area::sum_areas;
pub use area::lemma_area_additive;
pub use registry::Registry;
pub use registry::ShapeKind;
pub use registry::spec_lookup;
pub use registry::tags_unique;
pub use registry::builtin_entries;
pub use registry::has_builtins;
pub use registry::lemma_lookup_push;
pub use registry::lemma_builtin_tags_distinct;
pub use envelope::Envelope;
pub use envelope::Field;
pub use envelope::EnvModel;
pub use envelope::FieldModel;
pub use envelope::env_model;
pub use envelope::field_model;
pub use envelope::env_seq_model;
pub use envelope::entry_seq_model;
pub use envelope::lemma_env_seq_model;
pub use envelope::lemma_entry_seq_model;
pub use envelope::spec_get;
pub use error::ErrModel;
pub use error::err_at_root;
pub use codec::encode;
pub use codec::decode;
pub use codec::spec_encode;
pub use codec::spec_encode_items;
pub use codec::spec_decode;
pub use codec::spec_decode_items;
pub use codec::spec_decode_circle;
pub use codec::spec_decode_square;
pub use codec::spec_decode_rectangle;
pub use codec::lemma_decode_encode;
pub use authorship::Config;
pub use authorship::ConsensusEngineId;
pub use authorship::EventHandler;
pub use authorship::FindAuthor;
pub use authorship::Pallet;
