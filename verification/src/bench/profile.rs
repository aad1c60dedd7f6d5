//! The two sizes that benchmarks run in.

use crate::bench::scan::same_text;
use vstd::prelude::*;
use vstd::string::*;

verus! {

/// The size of a benchmark run.
#[derive(Clone, Copy, Debug, PartialEq, Eq, Structural)]
pub enum Profile {
    /// Small enough for a quick look.
    Smoke,
    /// Large enough to judge by.
    Full,
}

/// A text that names no profile.
#[derive(Clone, Copy, Debug, PartialEq, Eq, Structural)]
pub struct InvalidProfile;

impl InvalidProfile {
    /// Render this error for a caller.
    pub fn message(&self) -> (text: &'static str)
        ensures
            text@ == "profile must be smoke or full"@,
    {
        "profile must be smoke or full"
    }
}

/// The name of a profile.
pub open spec fn profile_name(profile: Profile) -> Seq<char> {
    match profile {
        Profile::Smoke => "smoke"@,
        Profile::Full => "full"@,
    }
}

/// The profile that a text names.
pub open spec fn named_profile(text: Seq<char>) -> Result<Profile, InvalidProfile> {
    if text == "smoke"@ {
        Ok(Profile::Smoke)
    } else if text == "full"@ {
        Ok(Profile::Full)
    } else {
        Err(InvalidProfile)
    }
}

impl Profile {
    /// Read a profile off its name.
    pub fn parse(value: &str) -> (result: Result<Profile, InvalidProfile>)
        ensures
            result == named_profile(value@),
    {
        if same_text(value, "smoke") {
            Ok(Profile::Smoke)
        } else if same_text(value, "full") {
            Ok(Profile::Full)
        } else {
            Err(InvalidProfile)
        }
    }

    /// The name of this profile.
    pub fn name(self) -> (name: &'static str)
        ensures
            name@ == profile_name(self),
    {
        match self {
            Profile::Smoke => "smoke",
            Profile::Full => "full",
        }
    }

    /// Facts in a graph that is built for this profile.
    pub fn facts(self) -> (facts: u64)
        ensures
            facts == match self {
                Profile::Smoke => 10_000u64,
                Profile::Full => 1_000_000u64,
            },
    {
        match self {
            Profile::Smoke => 10_000,
            Profile::Full => 1_000_000,
        }
    }

    /// Facts in the common base graph of this profile.
    pub fn base_facts(self) -> (facts: u64)
        ensures
            facts == match self {
                Profile::Smoke => 10_000u64,
                Profile::Full => 1_000_000u64,
            },
    {
        self.facts()
    }

    /// Repetitions of each measurement.
    pub fn repetitions(self) -> (repetitions: usize)
        ensures
            repetitions == match self {
                Profile::Smoke => 5usize,
                Profile::Full => 20usize,
            },
    {
        match self {
            Profile::Smoke => 5,
            Profile::Full => 20,
        }
    }

    /// Pairs of retention measurements.
    pub fn pairs(self) -> (pairs: usize)
        ensures
            pairs == match self {
                Profile::Smoke => 1usize,
                Profile::Full => 5usize,
            },
    {
        match self {
            Profile::Smoke => 1,
            Profile::Full => 5,
        }
    }

    /// Trials of a projection tail comparison.
    pub fn tail_trials(self) -> (trials: usize)
        ensures
            trials == match self {
                Profile::Smoke => 6usize,
                Profile::Full => 20usize,
            },
    {
        match self {
            Profile::Smoke => 6,
            Profile::Full => 20,
        }
    }

    /// Trials of a projection routing comparison.
    pub fn routing_trials(self) -> (trials: usize)
        ensures
            trials == match self {
                Profile::Smoke => 3usize,
                Profile::Full => 10usize,
            },
    {
        match self {
            Profile::Smoke => 3,
            Profile::Full => 10,
        }
    }

    /// Sizes of the unrelated pending sets of an isolation run, smallest first.
    pub fn unrelated_counts(self) -> (counts: [u64; 4])
        ensures
            counts@ == match self {
                Profile::Smoke => seq![0u64, 100, 1_000, 10_000],
                Profile::Full => seq![0u64, 10_000, 100_000, 1_000_000],
            },
    {
        match self {
            Profile::Smoke => [0, 100, 1_000, 10_000],
            Profile::Full => [0, 10_000, 100_000, 1_000_000],
        }
    }

    /// Whether a run of this size can admit a change: only a full one can.
    pub fn admission_eligible(self) -> (eligible: bool)
        ensures
            eligible == (self == Profile::Full),
    {
        match self {
            Profile::Smoke => false,
            Profile::Full => true,
        }
    }
}

/// Reading the name of a profile gives the profile back.
pub proof fn law_profile_name_parses(profile: Profile)
    ensures
        named_profile(profile_name(profile)) == Ok::<Profile, InvalidProfile>(profile),
{
    reveal_strlit("smoke");
    reveal_strlit("full");
    assert("smoke"@.len() != "full"@.len());
}

} // verus!
