//! The parameters of a factorization, and what of them is written into the
//! native library's parameter record.

use crate::integer::{clone_integer, integer_value};
use vstd::prelude::*;

verus! {

/// Factorization method.
#[derive(Debug, Clone, Copy, PartialEq, Eq, Structural)]
pub enum EcmMethod {
    /// Elliptic Curve Method
    Ecm,
    /// P-1 method
    Pm1,
    /// P+1 method
    Pp1,
}

/// Usage of the Number-Theoretic Transform code for polynomial arithmetic in stage 2
#[derive(Debug, Clone, Copy, PartialEq, Eq, Structural)]
pub enum NTT {
    /// Disable NTT
    Disabled,
    /// Enable NTT only for small inputs
    Auto,
    /// Enable NTT
    Enabled,
}

/// The number by which the native library knows a method.
pub open spec fn method_code(method: EcmMethod) -> int {
    match method {
        EcmMethod::Ecm => 0,
        EcmMethod::Pm1 => 1,
        EcmMethod::Pp1 => 2,
    }
}

/// The number by which the native library knows a use of the NTT code.
pub open spec fn ntt_code(ntt: NTT) -> int {
    match ntt {
        NTT::Disabled => 0,
        NTT::Auto => 1,
        NTT::Enabled => 2,
    }
}

/// How much the native library reports while it runs: its normal output.
pub const VERBOSE: i32 = 1;

impl EcmMethod {
    /// The number by which the native library knows this method.
    pub fn code(self) -> (c: i32)
        ensures
            c == method_code(self),
    {
        match self {
            EcmMethod::Ecm => 0,
            EcmMethod::Pm1 => 1,
            EcmMethod::Pp1 => 2,
        }
    }
}

impl NTT {
    /// The number by which the native library knows this use of the NTT code.
    pub fn code(self) -> (c: i32)
        ensures
            c == ntt_code(self),
    {
        match self {
            NTT::Disabled => 0,
            NTT::Auto => 1,
            NTT::Enabled => 2,
        }
    }
}

/// Different methods and different uses of the NTT code have different
/// numbers: the native library cannot take one for another.
pub proof fn lemma_codes_distinct(a: EcmMethod, b: EcmMethod, x: NTT, y: NTT)
    ensures
        method_code(a) == method_code(b) <==> a == b,
        ntt_code(x) == ntt_code(y) <==> x == y,
        0 <= method_code(a) <= 2,
        0 <= ntt_code(x) <= 2,
{
}

/// ECM parameters.
#[derive(Debug, Clone)]
pub struct EcmParams {
    /// Factorization method, default is ecm
    pub method: EcmMethod,
    /// Stage 2 bound (all primes B1 <= p <= B2 are processed in step 2)
    pub b2: Option<rug::Integer>,
    /// Stage 2 lower bound (all primes B2min <= p <= B2 are processed in step 2)
    pub b2_min: Option<rug::Integer>,
    /// Usage of the Number-Theoretic Transform code for polynomial arithmetic in stage 2
    pub ntt: NTT,
}

impl Default for EcmParams {
    fn default() -> (r: Self)
        ensures
            r.method == EcmMethod::Ecm,
            r.b2 is None,
            r.b2_min is None,
            r.ntt == NTT::Auto,
    {
        Self { method: EcmMethod::Ecm, b2: None, b2_min: None, ntt: NTT::Auto }
    }
}

/// The method that the command line asks for: P+1 where it is asked for,
/// else the elliptic curve method.
pub open spec fn method_of_flags(pp1: bool) -> EcmMethod {
    if pp1 {
        EcmMethod::Pp1
    } else {
        EcmMethod::Ecm
    }
}

/// The use of the NTT code that the command line asks for: always, never,
/// or, where it says nothing, as the native library sees fit.
pub open spec fn ntt_of_flags(ntt: bool, no_ntt: bool) -> NTT {
    if ntt {
        NTT::Enabled
    } else if no_ntt {
        NTT::Disabled
    } else {
        NTT::Auto
    }
}

impl EcmParams {
    /// The parameters that the command line asks for.
    pub fn from_flags(
        pp1: bool,
        b2: Option<rug::Integer>,
        b2_min: Option<rug::Integer>,
        ntt: bool,
        no_ntt: bool,
    ) -> (r: EcmParams)
        ensures
            r.method == method_of_flags(pp1),
            r.b2 == b2,
            r.b2_min == b2_min,
            r.ntt == ntt_of_flags(ntt, no_ntt),
    {
        EcmParams {
            method: if pp1 {
                EcmMethod::Pp1
            } else {
                EcmMethod::Ecm
            },
            b2,
            b2_min,
            ntt: if ntt {
                NTT::Enabled
            } else if no_ntt {
                NTT::Disabled
            } else {
                NTT::Auto
            },
        }
    }
}

/// What is written into the native parameter record once the native library
/// has filled it with its defaults. A bound that is `None` is left as the
/// native library set it.
#[derive(Debug, Clone)]
pub struct RawEcmParams<'a> {
    /// The method's number.
    pub method: i32,
    /// The stage 2 bound to set.
    pub b2: Option<&'a rug::Integer>,
    /// The stage 2 lower bound to set.
    pub b2_min: Option<&'a rug::Integer>,
    /// The number of the use of the NTT code.
    pub use_ntt: i32,
    /// How much the native library reports.
    pub verbose: i32,
}

/// The reference to the integer that a parameter may hold.
pub open spec fn borrowed<'a>(i: &'a Option<rug::Integer>) -> Option<&'a rug::Integer> {
    match i {
        Some(n) => Some(n),
        None => None,
    }
}

impl<'a> From<&'a EcmParams> for RawEcmParams<'a> {
    /// What of `params` is written into the native parameter record.
    fn from(params: &'a EcmParams) -> (r: RawEcmParams<'a>) {
        RawEcmParams {
            method: params.method.code(),
            b2: params.b2.as_ref(),
            b2_min: params.b2_min.as_ref(),
            use_ntt: params.ntt.code(),
            verbose: VERBOSE,
        }
    }
}

/// The record made from parameters holds the numbers of their method and of
/// their use of the NTT code, references to the bounds they hold, and the
/// normal amount of output.
impl<'a> vstd::std_specs::convert::FromSpecImpl<&'a EcmParams> for RawEcmParams<'a> {
    open spec fn obeys_from_spec() -> bool {
        true
    }

    open spec fn from_spec(params: &'a EcmParams) -> RawEcmParams<'a> {
        RawEcmParams {
            method: method_code(params.method) as i32,
            b2: borrowed(&params.b2),
            b2_min: borrowed(&params.b2_min),
            use_ntt: ntt_code(params.ntt) as i32,
            verbose: VERBOSE,
        }
    }
}

/// Whether the status that a run of the native library returned says that a
/// factor was found: a positive status does, zero says that none was found,
/// and a negative one reports an error.
pub open spec fn factor_found(status: int) -> bool {
    status > 0
}

/// What a factorization of `n` gives: the factor that the native library
/// stored, where its status says that it found one, and else `n` unchanged.
pub fn factor_or_input(status: i32, factor: rug::Integer, n: &rug::Integer) -> (r: rug::Integer)
    ensures
        factor_found(status as int) ==> r == factor,
        !factor_found(status as int) ==> integer_value(r) == integer_value(*n),
{
    if status > 0 {
        factor
    } else {
        clone_integer(n)
    }
}

} // verus!
