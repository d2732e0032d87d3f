use vstd::prelude::*;
use vstd::string::*;

verus! {

/// How a router passes a packet on: flit by flit, or after reassembly.
#[derive(Debug, Clone, Copy, PartialEq, Eq, Structural)]
pub enum Switching {
    CutThrough,
    StoreAndForward,
}

impl Default for Switching {
    fn default() -> (r: Self)
        ensures
            r == Switching::StoreAndForward,
    {
        Switching::StoreAndForward
    }
}

impl Switching {
    /// The switching mode that a configuration word names, if it names one.
    pub open spec fn spec_parse(s: Seq<char>) -> Option<Switching> {
        if s == "cut_through"@ {
            Some(Switching::CutThrough)
        } else if s == "store_and_forward"@ {
            Some(Switching::StoreAndForward)
        } else {
            None
        }
    }

    /// Reads a configuration word; any word but the two known ones is refused,
    /// with a message that quotes it.
    pub fn parse(s: &str) -> (r: Result<Switching, String>)
        ensures
            match r {
                Ok(m) => Self::spec_parse(s@) == Some(m),
                Err(e) => Self::spec_parse(s@) is None && e@ == s@
                    + " is not a valid switching type"@,
            },
    {
        let word = String::from_str(s);
        if word == String::from_str("cut_through") {
            Ok(Switching::CutThrough)
        } else if word == String::from_str("store_and_forward") {
            Ok(Switching::StoreAndForward)
        } else {
            Err(word.concat(" is not a valid switching type"))
        }
    }
}

impl std::str::FromStr for Switching {
    type Err = String;

    fn from_str(s: &str) -> (r: Result<Self, String>)
        ensures
            match r {
                Ok(m) => Switching::spec_parse(s@) == Some(m),
                Err(e) => Switching::spec_parse(s@) is None && e@ == s@
                    + " is not a valid switching type"@,
            },
    {
        Switching::parse(s)
    }
}

} // verus!
