//! The resonance flag of an entry.
use crate::error::{fault_view, Fault, ReaclibError};
use vstd::prelude::*;
use vstd::string::StrSliceExecFns;

verus! {

/// Whether a rate is resonant, non-resonant or weak. There is a fourth,
/// undocumented flag, `s`.
#[derive(Copy, Clone, Eq, PartialEq, Hash, Debug, Structural)]
pub enum Resonance {
    NonResonant,
    Resonant,
    Weak,
    S,
}

impl Resonance {
    /// The flag that a code stands for. An empty code, a blank and `n` all mean
    /// non-resonant; any code but these and `r`, `w`, `s` is unknown.
    pub open spec fn of_text(s: Seq<char>) -> Result<Resonance, Fault> {
        if s == Seq::<char>::empty() || s == seq![' '] || s == seq!['n'] {
            Ok(Resonance::NonResonant)
        } else if s == seq!['r'] {
            Ok(Resonance::Resonant)
        } else if s == seq!['w'] {
            Ok(Resonance::Weak)
        } else if s == seq!['s'] {
            Ok(Resonance::S)
        } else {
            Err(Fault::UnknownResonance(s))
        }
    }

    /// Decodes a resonance code.
    pub fn from_str(s: &str) -> (r: Result<Resonance, ReaclibError>)
        ensures
            fault_view(r) == Resonance::of_text(s@),
    {
        let n = s.unicode_len();
        if n == 0 {
            assert(s@ =~= Seq::<char>::empty());
            return Ok(Resonance::NonResonant);
        }
        if n == 1 {
            let c = s.get_char(0);
            assert(s@ =~= seq![c]);
            if c == ' ' || c == 'n' {
                return Ok(Resonance::NonResonant);
            } else if c == 'r' {
                return Ok(Resonance::Resonant);
            } else if c == 'w' {
                return Ok(Resonance::Weak);
            } else if c == 's' {
                return Ok(Resonance::S);
            }
        }
        Err(ReaclibError::UnknownResonance(s.to_owned()))
    }
}

impl std::str::FromStr for Resonance {
    type Err = ReaclibError;

    fn from_str(s: &str) -> (r: Result<Self, Self::Err>)
        ensures
            fault_view(r) == Resonance::of_text(s@),
    {
        Resonance::from_str(s)
    }
}

} // verus!
