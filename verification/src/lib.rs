//! A generic framework for algebraic structures (rings and their elements):
//! a Parent/Element abstraction with capability tags, a dense univariate
//! polynomial ring engine over an arbitrary coefficient ring, a matrix space
//! scaffold, and an operator-delegation layer that lets facade types forward
//! arithmetic to interchangeable inner representations.

pub mod mat;
pub mod ops;
pub mod poly;
pub mod structures;
pub mod text;
pub mod wrapping;

pub use structures::Additive;
pub use structures::Associative;
pub use structures::Commutative;
pub use structures::Distributive;
pub use structures::Divisible;
pub use structures::Elem;
pub use structures::Element;
pub use structures::Identity;
pub use structures::IsIdentity;
pub use structures::Multiplicative;
pub use structures::New;
pub use structures::Operation;
pub use structures::Parent;
pub use structures::Ring;
pub use structures::RingElement;
pub use structures::TwoSidedInverse;
pub use mat::GenericMat;
pub use mat::GenericMatSpace;
pub use mat::IntoMatSpace;
pub use mat::Mat;
pub use mat::MatSpace;
pub use mat::MatrixSpace;
pub use mat::MatrixSpaceElement;
pub use poly::GenericPoly;
pub use poly::GenericPolyRing;
pub use poly::IntoPolyRing;
pub use poly::Poly;
pub use poly::PolyRing;
pub use poly::PolynomialRing;
pub use poly::PolynomialRingElement;
pub use wrapping::Wrap;
pub use wrapping::WrappingRing;
