//! Linear interpolation and a first-order complementary filter over exact
//! values.
//!
//! The crate has two components that share one numeric contract: a pure
//! interpolator, `lerp`, and a small stateful `ComplementaryFilter` that
//! folds each new measurement into a running estimate.  Values are exact
//! rationals (a scalar, or a four-component quaternion-like composite), and
//! every operation's result is pinned down by its contract against the
//! mathematical model in `rat`.

pub mod blend;
pub mod filter;
pub mod quat;
pub mod rat;

pub use blend::lerp;
pub use blend::Blendable;
pub use blend::Rational;
pub use filter::ComplementaryFilter;
pub use quat::Quat;
