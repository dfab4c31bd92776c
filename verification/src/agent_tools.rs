//! The example callable tools: the arithmetic operations and the web
//! search argument surface. The session runtime does not exercise them;
//! the process wrapper exposes them to the completion engine, computing
//! through the functions here.
use vstd::prelude::*;

verus! {

#[derive(Debug, Clone, Copy, PartialEq, Eq, Structural)]
pub struct AddArgs {
    pub lhs: i64,
    pub rhs: i64,
}

pub struct Add;

impl Add {
    /// The sum of the two operands.
    pub fn call(args: AddArgs) -> (r: i64)
        requires
            i64::MIN <= args.lhs + args.rhs <= i64::MAX,
        ensures
            r == args.lhs + args.rhs,
    {
        args.lhs + args.rhs
    }
}

#[derive(Debug, Clone, Copy, PartialEq, Eq, Structural)]
pub struct SubtractArgs {
    pub lhs: i64,
    pub rhs: i64,
}

pub struct Subtract;

impl Subtract {
    /// The difference of the two operands.
    pub fn call(args: SubtractArgs) -> (r: i64)
        requires
            i64::MIN <= args.lhs - args.rhs <= i64::MAX,
        ensures
            r == args.lhs - args.rhs,
    {
        args.lhs - args.rhs
    }
}

#[derive(Debug, Clone, Copy, PartialEq, Eq, Structural)]
pub struct MultiplyArgs {
    pub lhs: i64,
    pub rhs: i64,
}

pub struct Multiply;

impl Multiply {
    /// The product of the two operands.
    pub fn call(args: MultiplyArgs) -> (r: i64)
        requires
            i64::MIN <= args.lhs * args.rhs <= i64::MAX,
        ensures
            r == args.lhs * args.rhs,
    {
        args.lhs * args.rhs
    }
}

#[derive(Debug, Clone, Copy, PartialEq, Eq, Structural)]
pub struct DivideArgs {
    pub lhs: i64,
    pub rhs: i64,
}

pub struct Divide;

/// Integer division as the machine performs it: the quotient rounded
/// toward zero.
pub open spec fn div_toward_zero(a: int, b: int) -> int {
    if (a < 0) == (b < 0) {
        vstd::math::abs(a) as int / vstd::math::abs(b) as int
    } else {
        -(vstd::math::abs(a) as int / vstd::math::abs(b) as int)
    }
}

impl Divide {
    /// The quotient of the dividend by the divisor, rounded toward zero.
    pub fn call(args: DivideArgs) -> (r: i64)
        requires
            args.rhs != 0,
            !(args.lhs == i64::MIN && args.rhs == -1),
        ensures
            r == div_toward_zero(args.lhs as int, args.rhs as int),
    {
        match args.lhs.checked_div(args.rhs) {
            Option::Some(q) => q,
            Option::None => {
                proof {
                    let x = args.lhs as int;
                    let d = args.rhs as int;
                    let ax = vstd::math::abs(x) as int;
                    let ad = vstd::math::abs(d) as int;
                    if ax > 0 && ad > 1 {
                        vstd::arithmetic::div_mod::lemma_div_decreases(ax, ad);
                    }
                    vstd::arithmetic::div_mod::lemma_div_nonincreasing(ax, ad);
                    assert(false);
                }
                0
            },
        }
    }
}

/// The search topic the web search tool is asked about.
#[derive(Debug, Clone, Copy, PartialEq, Eq, Structural)]
pub enum Topic {
    General,
    News,
    Finance,
}

#[derive(Debug, Clone, Copy, PartialEq, Eq, Structural)]
pub enum SearchDepth {
    Advanced,
    Basic,
    Fast,
    Utrafast,
}

#[derive(Debug, Clone, Copy, PartialEq, Eq, Structural)]
pub enum TimeRange {
    NoRange,
    Day,
    Week,
    Month,
    Year,
}

/// The argument surface of the web search tool, carried as data only.
#[derive(Debug)]
pub struct SearchArgs {
    pub query: String,
    pub auto_parameters: bool,
    pub topic: Topic,
    pub search_depth: SearchDepth,
    pub chunks_per_source: usize,
    pub max_results: usize,
    pub time_range: TimeRange,
    pub start_date: String,
    pub end_date: String,
    pub include_answer: bool,
    pub include_raw_content: bool,
    pub include_images: bool,
    pub include_image_descriptions: bool,
    pub include_favicon: bool,
    pub include_domains: Vec<String>,
    pub exclude_domains: Vec<String>,
    pub country: Option<String>,
    pub include_usage: bool,
}

/// The web search tool itself; its network call lives with the process
/// wrapper.
pub struct Search;

} // verus!
