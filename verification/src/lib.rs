//! A fixed-capacity linear-algebra library: vectors whose length is a
//! compile-time constant, element-wise arithmetic that composes recursively
//! (a matrix is a vector of vectors), zero-copy transposed views, dot
//! products and matrix multiplication, and a fixed-length flat encoding.
//!
//! Every public operation carries a contract over the mathematical model of
//! its operands: a vector is modelled as a sequence of element models, a
//! matrix as a sequence of column sequences.

mod advanced;
mod base;
mod consts;
mod element;
mod layout;
mod serialize;
mod simd;
mod templatemetamath;
mod types;
mod view;

pub use advanced::col_of;
pub use advanced::dot_defined;
pub use advanced::dot_model;
pub use advanced::dot_prefix;
pub use advanced::dot_prefix_defined;
pub use advanced::matmul_defined;
pub use advanced::matmul_model;
pub use base::add_seq;
pub use base::add_seq_defined;
pub use base::div_seq;
pub use base::div_seq_defined;
pub use base::lemma_compound_assignment_equiv;
pub use base::mul_seq;
pub use base::mul_seq_defined;
pub use base::sub_seq;
pub use base::sub_seq_defined;
pub use consts::ConstIndex;
pub use consts::ConstIterator;
pub use element::div_trunc;
pub use element::Element;
pub use element::Modeled;
pub use layout::LANES;
pub use layout::Vecc;
pub use serialize::column_views;
pub use serialize::encoded_matrix;
pub use serialize::encoded_u32s;
pub use serialize::lemma_encoded_matrix_injective;
pub use serialize::lemma_encoded_matrix_push;
pub use serialize::lemma_encoded_u32s_injective;
pub use serialize::lemma_encoded_u32s_len;
pub use serialize::lemma_encoded_u32s_push;
pub use serialize::lemma_matrix_codec_unambiguous;
pub use serialize::lemma_u32_from_le_bytes;
pub use serialize::lemma_u32_le_round_trip;
pub use serialize::u32_from_le;
pub use serialize::u32_le_bytes;
pub use simd::lemma_paths_agree;
pub use simd::SimdRepr;
pub use templatemetamath::VAdd;
pub use types::IntoIter;
pub use types::Matrix;
pub use types::Stupidity;
pub use types::Vector;
pub use view::lemma_matrix_transpose_involution;
pub use view::lemma_transpose_involution;
pub use view::transpose_of;
pub use view::TransposedMatrixView;
pub use view::VectorView;
