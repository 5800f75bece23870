//! Service tiers and the JVM and cgroup sizing of each.

use vstd::prelude::*;
use crate::error::DaemonError;
use crate::text::{decimal, equal_ignoring_ascii_case, eq_ignore_ascii_case, u64_to_decimal};

verus! {

/// A service tier.
#[derive(Debug, Clone, Copy, PartialEq, Eq, Structural)]
pub enum Tier {
    Silver,
    Gold,
    Platinum,
}

/// The message of the error for an unknown tier name.
pub open spec fn invalid_tier_message(s: Seq<char>) -> Seq<char> {
    "invalid tier '"@ + s + "': must be one of 'silver', 'gold', 'platinum'"@
}

impl Tier {
    /// The tier's name in lower case.
    pub open spec fn name(self) -> Seq<char> {
        match self {
            Tier::Silver => "silver"@,
            Tier::Gold => "gold"@,
            Tier::Platinum => "platinum"@,
        }
    }

    /// The tier that `s` names, letter case aside. (Folding ASCII letters
    /// decides as Unicode lower-casing would: no other character's lower case
    /// is made of the letters of these names alone.)
    pub open spec fn named(s: Seq<char>) -> Option<Tier> {
        if equal_ignoring_ascii_case(s, "silver"@) {
            Some(Tier::Silver)
        } else if equal_ignoring_ascii_case(s, "gold"@) {
            Some(Tier::Gold)
        } else if equal_ignoring_ascii_case(s, "platinum"@) {
            Some(Tier::Platinum)
        } else {
            None
        }
    }

    /// The tier's name in lower case.
    pub fn as_str(&self) -> (s: &'static str)
        ensures
            s@ == self.name(),
    {
        match self {
            Tier::Silver => "silver",
            Tier::Gold => "gold",
            Tier::Platinum => "platinum",
        }
    }

    /// The tier's name in lower case, owned.
    pub fn to_string(&self) -> (s: String)
        ensures
            s@ == self.name(),
    {
        String::from_str(self.as_str())
    }

    /// The tier named by `s`, in any mix of letter case; `None` for any other text.
    pub fn from_str(s: &str) -> (r: Option<Tier>)
        ensures
            r == Tier::named(s@),
    {
        if eq_ignore_ascii_case(s, "silver") {
            Some(Tier::Silver)
        } else if eq_ignore_ascii_case(s, "gold") {
            Some(Tier::Gold)
        } else if eq_ignore_ascii_case(s, "platinum") {
            Some(Tier::Platinum)
        } else {
            None
        }
    }

    /// As [`Tier::from_str`], failing with `InvalidInput` for an unknown name.
    pub fn parse(s: &str) -> (r: Result<Tier, DaemonError>)
        ensures
            match r {
                Ok(t) => Tier::named(s@) == Some(t),
                Err(e) => Tier::named(s@) is None && e.is_invalid_input(invalid_tier_message(s@)),
            },
    {
        match Tier::from_str(s) {
            Some(t) => Ok(t),
            None => Err(
                DaemonError::InvalidInput(
                    String::from_str("invalid tier '").concat(s).concat(
                        "': must be one of 'silver', 'gold', 'platinum'",
                    ),
                ),
            ),
        }
    }
}

/// Every tier, from the smallest to the largest.
pub fn all_tiers() -> (v: [Tier; 3])
    ensures
        v@ == seq![Tier::Silver, Tier::Gold, Tier::Platinum],
{
    let v = [Tier::Silver, Tier::Gold, Tier::Platinum];
    assert(v@ =~= seq![Tier::Silver, Tier::Gold, Tier::Platinum]);
    v
}

/// The JVM heap and collector settings and the cgroup limits of a tier.
#[derive(Debug, Clone)]
pub struct TierConfig {
    pub tier: Tier,
    pub xms: &'static str,
    pub xmx: &'static str,
    pub gc_args: &'static [&'static str],
    pub cgroup_memory_max: u64,
    pub cgroup_memory_swap_max: u64,
    pub cpu_quota_us: u64,
    pub cpu_period_us: u64,
}

/// Initial heap size of a tier (`-Xms`).
pub open spec fn xms_of(t: Tier) -> Seq<char> {
    match t {
        Tier::Silver => "256m"@,
        Tier::Gold => "1g"@,
        Tier::Platinum => "4g"@,
    }
}

/// Maximum heap size of a tier (`-Xmx`).
pub open spec fn xmx_of(t: Tier) -> Seq<char> {
    match t {
        Tier::Silver => "1g"@,
        Tier::Gold => "4g"@,
        Tier::Platinum => "32g"@,
    }
}

/// Garbage-collector flags of a tier.
pub open spec fn gc_args_of(t: Tier) -> Seq<Seq<char>> {
    match t {
        Tier::Silver => seq!["-XX:+UseG1GC"@],
        Tier::Gold => seq!["-XX:MaxGCPauseMillis=200"@, "-XX:+UseZGC"@],
        Tier::Platinum => seq!["-XX:+UseZGC"@, "-XX:+ZGenerational"@],
    }
}

/// Cgroup `memory.max` of a tier: the heap limit plus a quarter GiB.
pub open spec fn memory_max_of(t: Tier) -> u64 {
    match t {
        Tier::Silver => 1_342_177_280,
        Tier::Gold => 4_563_402_752,
        Tier::Platinum => 34_628_173_824,
    }
}

/// CPU quota per period of a tier, in microseconds (one core per 100 ms).
pub open spec fn cpu_quota_of(t: Tier) -> u64 {
    match t {
        Tier::Silver => 100_000,
        Tier::Gold => 200_000,
        Tier::Platinum => 400_000,
    }
}

/// The JVM flags of a tier: initial heap, maximum heap, then the collector flags.
pub open spec fn jvm_args_of(t: Tier) -> Seq<Seq<char>> {
    seq!["-Xms"@ + xms_of(t), "-Xmx"@ + xmx_of(t)] + gc_args_of(t)
}

impl TierConfig {
    /// Every field holds the setting of `t`.
    pub open spec fn describes(&self, t: Tier) -> bool {
        &&& self.tier == t
        &&& self.xms@ == xms_of(t)
        &&& self.xmx@ == xmx_of(t)
        &&& self.gc_args@.map_values(|a: &str| a@) == gc_args_of(t)
        &&& self.cgroup_memory_max == memory_max_of(t)
        &&& self.cgroup_memory_swap_max == 0
        &&& self.cpu_quota_us == cpu_quota_of(t)
        &&& self.cpu_period_us == 100_000
    }

    /// The JVM flags that a configuration launches with.
    pub open spec fn spec_jvm_args(&self) -> Seq<Seq<char>> {
        seq!["-Xms"@ + self.xms@, "-Xmx"@ + self.xmx@] + self.gc_args@.map_values(|a: &str| a@)
    }

    /// The `cpu.max` line of a configuration: quota, a space, period.
    pub open spec fn spec_cpu_max(&self) -> Seq<char> {
        decimal(self.cpu_quota_us as nat) + " "@ + decimal(self.cpu_period_us as nat)
    }

    pub fn for_tier(tier: Tier) -> (c: TierConfig)
        ensures
            c.describes(tier),
    {
        let c = match tier {
            Tier::Silver => TierConfig {
                tier,
                xms: "256m",
                xmx: "1g",
                gc_args: &["-XX:+UseG1GC"],
                cgroup_memory_max: 1_342_177_280,
                cgroup_memory_swap_max: 0,
                cpu_quota_us: 100_000,
                cpu_period_us: 100_000,
            },
            Tier::Gold => TierConfig {
                tier,
                xms: "1g",
                xmx: "4g",
                gc_args: &["-XX:MaxGCPauseMillis=200", "-XX:+UseZGC"],
                cgroup_memory_max: 4_563_402_752,
                cgroup_memory_swap_max: 0,
                cpu_quota_us: 200_000,
                cpu_period_us: 100_000,
            },
            Tier::Platinum => TierConfig {
                tier,
                xms: "4g",
                xmx: "32g",
                gc_args: &["-XX:+UseZGC", "-XX:+ZGenerational"],
                cgroup_memory_max: 34_628_173_824,
                cgroup_memory_swap_max: 0,
                cpu_quota_us: 400_000,
                cpu_period_us: 100_000,
            },
        };
        proof {
            assert(c.gc_args@.map_values(|a: &str| a@) =~= gc_args_of(tier));
        }
        c
    }

    /// The JVM flags: initial heap, maximum heap, then the collector flags.
    pub fn jvm_args(&self) -> (args: Vec<String>)
        ensures
            args@.map_values(|a: String| a@) == self.spec_jvm_args(),
            self.describes(self.tier) ==> args@.map_values(|a: String| a@) == jvm_args_of(self.tier),
    {
        let mut args: Vec<String> = Vec::new();
        args.push(String::from_str("-Xms").concat(self.xms));
        args.push(String::from_str("-Xmx").concat(self.xmx));
        let mut i: usize = 0;
        while i < self.gc_args.len()
            invariant
                i <= self.gc_args@.len(),
                args@.len() == i + 2,
                args@[0]@ == "-Xms"@ + self.xms@,
                args@[1]@ == "-Xmx"@ + self.xmx@,
                forall|j: int| 0 <= j < i ==> (#[trigger] args@[j + 2])@ == self.gc_args@[j]@,
            decreases self.gc_args@.len() - i,
        {
            let g = self.gc_args[i];
            args.push(String::from_str(g));
            i = i + 1;
        }
        assert forall|k: int| 2 <= k < args@.len() implies args@[k]@ == self.gc_args@[k - 2]@ by {
            assert(args@[(k - 2) + 2] == args@[k]);
        }
        assert(args@.map_values(|a: String| a@) =~= self.spec_jvm_args());
        args
    }

    /// The `cpu.max` line: quota, a space, period.
    pub fn cpu_max_string(&self) -> (s: String)
        ensures
            s@ == self.spec_cpu_max(),
    {
        let period = u64_to_decimal(self.cpu_period_us);
        u64_to_decimal(self.cpu_quota_us).concat(" ").concat(period.as_str())
    }
}


/// A tier's name is made of lower-case ASCII letters.
pub proof fn lemma_tier_name_letters(t: Tier)
    ensures
        t.name().len() > 0,
        forall|i: int| 0 <= i < t.name().len() ==> 97 <= (#[trigger] t.name()[i]) as u32 <= 122,
{
    reveal_strlit("silver");
    reveal_strlit("gold");
    reveal_strlit("platinum");
    let n = t.name();
    assert forall|i: int| 0 <= i < n.len() implies 97 <= (#[trigger] n[i]) as u32 <= 122 by {
        match t {
            Tier::Silver => {
                assert(i == 0 || i == 1 || i == 2 || i == 3 || i == 4 || i == 5);
            },
            Tier::Gold => {
                assert(i == 0 || i == 1 || i == 2 || i == 3);
            },
            Tier::Platinum => {
                assert(i == 0 || i == 1 || i == 2 || i == 3 || i == 4 || i == 5 || i == 6 || i == 7);
            },
        }
    }
}

/// A tier's name reads back as that tier, whatever the letter case it is
/// written in.
pub proof fn law_tier_names_read_back(t: Tier, s: Seq<char>)
    requires
        equal_ignoring_ascii_case(s, t.name()),
    ensures
        Tier::named(t.name()) == Some(t),
        Tier::named(s) == Some(t),
{
    reveal_strlit("silver");
    reveal_strlit("gold");
    reveal_strlit("platinum");
}

} // verus!
