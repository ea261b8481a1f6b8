//! What is asked of the build of a kernel: the target, the profile and the
//! options. The build itself is not done here.

use vstd::prelude::*;
use vstd::string::StringExecFns;

verus! {

/// A chip generation to build for.
#[derive(Clone, Copy, Debug, PartialEq, Eq, Structural)]
pub enum StandardTarget {
    Grayskull,
    Wormhole,
    Blackhole,
}

impl StandardTarget {
    /// The name of the target definition: the generation in small letters.
    pub fn to_string(&self) -> (r: String)
        ensures
            r@ == match self {
                StandardTarget::Grayskull => "grayskull"@,
                StandardTarget::Wormhole => "wormhole"@,
                StandardTarget::Blackhole => "blackhole"@,
            },
    {
        match self {
            StandardTarget::Grayskull => String::from_str("grayskull"),
            StandardTarget::Wormhole => String::from_str("wormhole"),
            StandardTarget::Blackhole => String::from_str("blackhole"),
        }
    }

    /// The name of the generation as it is shown.
    pub fn display_name(&self) -> (r: &'static str)
        ensures
            r@ == match self {
                StandardTarget::Grayskull => "Grayskull"@,
                StandardTarget::Wormhole => "Wormhole"@,
                StandardTarget::Blackhole => "Blackhole"@,
            },
    {
        match self {
            StandardTarget::Grayskull => "Grayskull",
            StandardTarget::Wormhole => "Wormhole",
            StandardTarget::Blackhole => "Blackhole",
        }
    }
}

/// A change to the text of a target definition.
#[derive(Clone, Debug, PartialEq, Eq)]
pub enum Rewrite {
    /// Replace what stands from `start` up to `end` by `replace`.
    Replace { start: String, end: String, replace: String },
    /// Add `value` before the closing brace.
    Add { value: String },
}

/// Where a custom target takes its definition from.
#[derive(Clone, Debug, PartialEq, Eq)]
pub enum StandardTargetOrCustom {
    Standard(StandardTarget, Vec<Rewrite>),
    Custom(String),
}

/// What to build for.
#[derive(Clone, Debug, PartialEq, Eq)]
pub enum TensixTarget {
    Standard(StandardTarget),
    Custom { name: String, target_def: StandardTargetOrCustom, linker_script: String },
}

impl TensixTarget {
    /// The name of the target: that of the generation, or the custom name.
    pub fn to_string(&self) -> (r: String)
        ensures
            r@ == match self {
                TensixTarget::Standard(StandardTarget::Grayskull) => "grayskull"@,
                TensixTarget::Standard(StandardTarget::Wormhole) => "wormhole"@,
                TensixTarget::Standard(StandardTarget::Blackhole) => "blackhole"@,
                TensixTarget::Custom { name, .. } => name@,
            },
    {
        match self {
            TensixTarget::Standard(s) => s.to_string(),
            TensixTarget::Custom { name, .. } => name.clone(),
        }
    }
}

/// The profile to build with.
#[derive(Clone, Debug, PartialEq, Eq)]
pub enum CargoProfile {
    Release,
    Debug,
    Other(String),
}

impl CargoProfile {
    /// The name that cargo knows the profile by.
    pub fn to_string(&self) -> (r: String)
        ensures
            r@ == match self {
                CargoProfile::Release => "release"@,
                CargoProfile::Debug => "dev"@,
                CargoProfile::Other(value) => value@,
            },
    {
        match self {
            CargoProfile::Release => String::from_str("release"),
            CargoProfile::Debug => String::from_str("dev"),
            CargoProfile::Other(value) => value.clone(),
        }
    }

    /// The profile that a name stands for: `debug` and `release` are the
    /// two profiles of that name, any other name is a profile of its own.
    pub fn from_name(name: &String) -> (r: CargoProfile)
        ensures
            name@ == "debug"@ ==> r == CargoProfile::Debug,
            name@ == "release"@ ==> r == CargoProfile::Release,
            name@ != "debug"@ && name@ != "release"@ ==> ({
                &&& r matches CargoProfile::Other(other)
                &&& other@ == name@
            }),
    {
        proof {
            reveal_strlit("debug");
            reveal_strlit("release");
            assert("debug"@.len() == 5 && "release"@.len() == 7);
        }
        if *name == String::from_str("debug") {
            CargoProfile::Debug
        } else if *name == String::from_str("release") {
            CargoProfile::Release
        } else {
            CargoProfile::Other(name.clone())
        }
    }
}

/// Whether and where compiled artifacts are kept between builds.
#[derive(Clone, Debug, PartialEq, Eq)]
pub enum CacheEnable {
    CustomDir(String),
    Enabled,
    Disabled,
}

/// All that is asked of a build.
#[derive(Clone, Debug, PartialEq, Eq)]
pub struct CargoOptions {
    pub target: TensixTarget,
    pub profile: CargoProfile,
    pub lto: bool,
    pub use_cache: CacheEnable,
    pub verbose: bool,
    pub build_std: bool,
    pub default_features: bool,
    pub stack_probes: bool,
    pub kernel_name: String,
    pub hide_output: bool,
}

/// What a build has made: where it lies, and whether it is a program or a
/// library.
#[derive(Clone, Debug, PartialEq, Eq)]
pub struct CargoResult {
    pub path: String,
    pub bin: bool,
}

/// What cargo reports of one thing it has built.
#[derive(Clone, Debug, PartialEq, Eq)]
pub struct Artifact {
    /// The program, if the thing built is one.
    pub executable: Option<String>,
    /// The kinds of the target, by the names cargo gives them.
    pub kinds: Vec<String>,
    /// The files that were made.
    pub filenames: Vec<String>,
}

/// Whether one of the kinds is a library that can be loaded: a static
/// library or a C dynamic library.
pub open spec fn is_library(kinds: Seq<String>) -> bool {
    exists|i: int|
        0 <= i < kinds.len() && ((#[trigger] kinds[i])@ == "staticlib"@ || kinds[i]@ == "cdylib"@)
}

/// Whether artifact `i` is the first that is a program.
pub open spec fn is_first_program(artifacts: Seq<Artifact>, i: int) -> bool {
    &&& 0 <= i < artifacts.len()
    &&& artifacts[i].executable is Some
    &&& forall|j: int| 0 <= j < i ==> (#[trigger] artifacts[j]).executable is None
}

/// Whether artifact `a` is a library with a file.
pub open spec fn is_loadable_library(a: Artifact) -> bool {
    is_library(a.kinds@) && a.filenames@.len() > 0
}

/// Whether artifact `i` is the first that is a library with a file.
pub open spec fn is_first_library(artifacts: Seq<Artifact>, i: int) -> bool {
    &&& 0 <= i < artifacts.len()
    &&& is_loadable_library(artifacts[i])
    &&& forall|j: int| 0 <= j < i ==> !is_loadable_library(#[trigger] artifacts[j])
}

/// Whether artifact `i` is what a build has made: as a program the first
/// program; as a library the first library with a file, where nothing is a
/// program.
pub open spec fn is_choice(artifacts: Seq<Artifact>, i: int, bin: bool) -> bool {
    if bin {
        is_first_program(artifacts, i)
    } else {
        is_first_library(artifacts, i) && forall|j: int|
            0 <= j < artifacts.len() ==> (#[trigger] artifacts[j]).executable is None
    }
}

/// Where an artifact lies: as a program its executable, as a library its
/// first file.
pub open spec fn path_of(a: Artifact, bin: bool) -> Seq<char> {
    if bin {
        match a.executable {
            Some(path) => path@,
            None => Seq::empty(),
        }
    } else {
        a.filenames@[0]@
    }
}

fn kinds_name_library(kinds: &Vec<String>) -> (r: bool)
    ensures
        r == is_library(kinds@),
{
    let staticlib = String::from_str("staticlib");
    let cdylib = String::from_str("cdylib");
    let mut i: usize = 0;
    while i < kinds.len()
        invariant
            i <= kinds@.len(),
            staticlib@ == "staticlib"@,
            cdylib@ == "cdylib"@,
            forall|j: int|
                0 <= j < i ==> !((#[trigger] kinds@[j])@ == "staticlib"@ || kinds@[j]@ == "cdylib"@),
        decreases kinds@.len() - i,
    {
        if kinds[i] == staticlib || kinds[i] == cdylib {
            return true;
        }
        i += 1;
    }
    false
}

/// Picks what a build has made out of what cargo reports: the first
/// program, if there is one; else the first file of the first library;
/// else nothing.
pub fn get_compiler_artifact(artifacts: &Vec<Artifact>) -> (r: Option<CargoResult>)
    ensures
        match r {
            Some(result) => exists|i: int|
                #![trigger artifacts@[i]]
                is_choice(artifacts@, i, result.bin) && result.path@ == path_of(
                    artifacts@[i],
                    result.bin,
                ),
            None => forall|j: int|
                0 <= j < artifacts@.len() ==> (#[trigger] artifacts@[j]).executable is None
                    && !is_loadable_library(artifacts@[j]),
        },
{
    let mut i: usize = 0;
    while i < artifacts.len()
        invariant
            i <= artifacts@.len(),
            forall|j: int| 0 <= j < i ==> (#[trigger] artifacts@[j]).executable is None,
        decreases artifacts@.len() - i,
    {
        match &artifacts[i].executable {
            Some(path) => {
                assert(is_choice(artifacts@, i as int, true));
                return Some(CargoResult { path: path.clone(), bin: true });
            },
            None => {},
        }
        i += 1;
    }
    let mut k: usize = 0;
    while k < artifacts.len()
        invariant
            k <= artifacts@.len(),
            forall|j: int|
                0 <= j < artifacts@.len() ==> (#[trigger] artifacts@[j]).executable is None,
            forall|j: int| 0 <= j < k ==> !is_loadable_library(#[trigger] artifacts@[j]),
        decreases artifacts@.len() - k,
    {
        if kinds_name_library(&artifacts[k].kinds) && artifacts[k].filenames.len() > 0 {
            assert(is_choice(artifacts@, k as int, false));
            return Some(CargoResult { path: artifacts[k].filenames[0].clone(), bin: false });
        }
        k += 1;
    }
    None
}

} // verus!
