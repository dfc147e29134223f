use vstd::prelude::*;

verus! {

/// A constant of which nothing is known; each `tag` names another one.
pub open spec fn some_constant<T>(tag: int) -> T {
    arbitrary::<spec_fn(int) -> T>()(tag)
}

/// A unary operation of which nothing is known but that it is a function of
/// its argument; each `tag` names another one.
pub open spec fn some_unary<T>(tag: int, a: T) -> T {
    arbitrary::<spec_fn(int, T) -> T>()(tag, a)
}

/// A binary operation of which nothing is known but that it is a function of
/// its arguments; each `tag` names another one.
pub open spec fn some_binary<T>(tag: int, a: T, b: T) -> T {
    arbitrary::<spec_fn(int, T, T) -> T>()(tag, a, b)
}

/// Why a line of text could not be read as an element.
#[derive(Clone, Copy, Debug, PartialEq, Eq, Structural)]
pub enum Unreadable {
    /// The text denotes no number.
    Malformed,
    /// The text denotes a number that the element type cannot hold.
    OutOfRange,
}

/// The numeric capabilities a matrix element must offer.
///
/// Every executable method is paired with a specification function of the same
/// name with the suffix `_spec`, and promises to return exactly the value of
/// that function: each operation is a function of its arguments alone.  The
/// library's contracts are stated over these specification functions, so what
/// is proved about a matrix holds for an element type as far as its
/// implementation keeps these promises.  Nothing else is assumed of the
/// arithmetic: not associativity, not commutativity, not even that `zero` is
/// neutral, so an IEEE-754 type fits as it is.
///
/// By default a specification function leaves its operation unspecified.  An
/// implementation that is itself verified overrides it with the definition
/// that it proves of its method; an implementation in ordinary Rust writes the
/// methods only, and is believed to keep their promises.
pub trait Test: Copy + Send + Sync {
    /// The additive identity.
    open spec fn zero_spec() -> Self {
        some_constant(0)
    }

    fn zero() -> (r: Self)
        ensures
            r == Self::zero_spec(),
    ;

    /// The multiplicative identity.
    open spec fn one_spec() -> Self {
        some_constant(1)
    }

    fn one() -> (r: Self)
        ensures
            r == Self::one_spec(),
    ;

    /// The sentinel that marks a cell nobody has written yet.
    open spec fn nan_spec() -> Self {
        some_constant(2)
    }

    fn nan() -> (r: Self)
        ensures
            r == Self::nan_spec(),
    ;

    /// The smallest finite value of the type.
    open spec fn min_value_spec() -> Self {
        some_constant(3)
    }

    fn min_value() -> (r: Self)
        ensures
            r == Self::min_value_spec(),
    ;

    /// `self + rhs`.
    open spec fn add_spec(self, rhs: Self) -> Self {
        some_binary(0, self, rhs)
    }

    fn add(self, rhs: Self) -> (r: Self)
        ensures
            r == self.add_spec(rhs),
    ;

    /// `self - rhs`.
    open spec fn sub_spec(self, rhs: Self) -> Self {
        some_binary(1, self, rhs)
    }

    fn sub(self, rhs: Self) -> (r: Self)
        ensures
            r == self.sub_spec(rhs),
    ;

    /// `self * rhs`.
    open spec fn mul_spec(self, rhs: Self) -> Self {
        some_binary(2, self, rhs)
    }

    fn mul(self, rhs: Self) -> (r: Self)
        ensures
            r == self.mul_spec(rhs),
    ;

    /// `self / rhs`.
    open spec fn div_spec(self, rhs: Self) -> Self {
        some_binary(3, self, rhs)
    }

    fn div(self, rhs: Self) -> (r: Self)
        ensures
            r == self.div_spec(rhs),
    ;

    /// `-self`.
    open spec fn neg_spec(self) -> Self {
        some_unary(0, self)
    }

    fn neg(self) -> (r: Self)
        ensures
            r == self.neg_spec(),
    ;

    /// `e` raised to the power `self`.
    open spec fn exp_spec(self) -> Self {
        some_unary(1, self)
    }

    fn exp(self) -> (r: Self)
        ensures
            r == self.exp_spec(),
    ;

    /// The least whole number that is not less than `self`.
    open spec fn ceil_spec(self) -> Self {
        some_unary(2, self)
    }

    fn ceil(self) -> (r: Self)
        ensures
            r == self.ceil_spec(),
    ;

    /// Whether `self` is strictly greater than `other`.
    open spec fn gt_spec(self, other: Self) -> bool {
        arbitrary::<spec_fn(Self, Self) -> bool>()(self, other)
    }

    fn gt(self, other: Self) -> (r: bool)
        ensures
            r == self.gt_spec(other),
    ;

    /// The element nearest to the integer `n`, if the type can hold one.
    open spec fn from_usize_spec(n: usize) -> Option<Self> {
        arbitrary::<spec_fn(usize) -> Option<Self>>()(n)
    }

    fn from_usize(n: usize) -> (r: Option<Self>)
        ensures
            r == Self::from_usize_spec(n),
    ;

    /// The integer part of `self`, if it is a number in the range of `usize`.
    open spec fn to_usize_spec(self) -> Option<usize> {
        arbitrary::<spec_fn(Self) -> Option<usize>>()(self)
    }

    fn to_usize(self) -> (r: Option<usize>)
        ensures
            r == self.to_usize_spec(),
    ;

    /// The canonical decimal text of `self`.
    open spec fn text_spec(self) -> Seq<u8> {
        arbitrary::<spec_fn(Self) -> Seq<u8>>()(self)
    }

    fn to_text(self) -> (r: Vec<u8>)
        ensures
            r@ == self.text_spec(),
    ;

    /// The element that a line of decimal text denotes, white space around it
    /// not counting, or why the line cannot be read as one.
    open spec fn parse_spec(text: Seq<u8>) -> Result<Self, Unreadable> {
        arbitrary::<spec_fn(Seq<u8>) -> Result<Self, Unreadable>>()(text)
    }

    fn parse(text: &[u8]) -> (r: Result<Self, Unreadable>)
        ensures
            r == Self::parse_spec(text@),
    ;
}

} // verus!
