//! Bringing tiles into and out of reset, and the options of a load.

use crate::chip::noc::{NocAddress, NocId};
use crate::chip::Arch;
use crate::tensix_builder::{
    CacheEnable, CargoOptions, CargoProfile, Rewrite, StandardTarget, StandardTargetOrCustom,
    TensixTarget,
};
use vstd::prelude::*;
use vstd::string::StringExecFns;

pub mod blackhole;
pub mod grayskull;
pub mod wormhole;

verus! {

/// The places of the tiles of a chip on the first fabric, by kind.
#[derive(Clone, Debug, PartialEq, Eq)]
pub struct NocGrid {
    pub tensix: Vec<(u32, u32)>,
    pub dram: Vec<(u32, u32)>,
    pub pci: Vec<(u32, u32)>,
    pub arc: Vec<(u32, u32)>,
    pub eth: Vec<(u32, u32)>,
}

/// The bit of the soft-reset register that holds the BRISC.
pub const BRISC_SOFT_RESET: u32 = 1 << 11;

/// The bits of the soft-reset register that hold the three TRISCs.
pub const TRISC_SOFT_RESETS: u32 = (1 << 12) | (1 << 13) | (1 << 14);

/// The bit of the soft-reset register that holds the NCRISC.
pub const NCRISC_SOFT_RESET: u32 = 1 << 18;

/// The bit that makes the hardware release the cores one after the other.
pub const STAGGERED_START: u32 = 1 << 31;

/// Where the soft-reset register of a tile stands.
pub const SOFT_RESET_ADDR: u64 = 0xFFB121B0;

/// The word that holds every core of a tile in reset.
pub const ALL_SOFT_RESETS: u32 = BRISC_SOFT_RESET | TRISC_SOFT_RESETS | NCRISC_SOFT_RESET;

/// One thing the host is to do to a chip.
#[derive(Clone, Copy, Debug, PartialEq, Eq)]
pub enum ChipOp {
    /// Ask the firmware to lower the clocks.
    GoIdle,
    /// Ask the firmware to raise the clocks.
    GoBusy,
    /// Ask the firmware to take the tiles out of hard reset.
    DeassertRiscvReset,
    /// Write `value` at `addr` of every tile of the broadcast rectangle.
    Broadcast32 { noc_id: NocId, addr: u64, value: u32 },
    /// Write `value` at `addr` of `tile`.
    Write32 { noc_id: NocId, tile: NocAddress, addr: u64, value: u32 },
    /// Read the word at `addr` of `tile`; it must be `value`, or the chip
    /// has not taken the write before.
    Expect32 { noc_id: NocId, tile: NocAddress, addr: u64, value: u32 },
}

/// The word that releases the BRISC: the NCRISC stays in reset, the TRISCs
/// stay in reset if they are to be kept there, and the release is
/// staggered if asked for.
pub open spec fn release_value(keep_triscs_under_reset: bool, stagger_start: bool) -> u32 {
    NCRISC_SOFT_RESET | (if keep_triscs_under_reset {
        TRISC_SOFT_RESETS
    } else {
        0
    }) | (if stagger_start {
        STAGGERED_START
    } else {
        0
    })
}

/// Computes the word that releases the BRISC.
pub fn soft_reset_value(keep_triscs_under_reset: bool, stagger_start: bool) -> (r: u32)
    ensures
        r == release_value(keep_triscs_under_reset, stagger_start),
        r & BRISC_SOFT_RESET == 0,
        r & NCRISC_SOFT_RESET == NCRISC_SOFT_RESET,
        (r & TRISC_SOFT_RESETS == TRISC_SOFT_RESETS) == keep_triscs_under_reset,
        (r & TRISC_SOFT_RESETS == 0) == !keep_triscs_under_reset,
        (r & STAGGERED_START != 0) == stagger_start,
{
    let staggered_start_enable: u32 = if stagger_start {
        1 << 31
    } else {
        0
    };
    let soft_reset_value = if keep_triscs_under_reset {
        NCRISC_SOFT_RESET | TRISC_SOFT_RESETS | staggered_start_enable
    } else {
        NCRISC_SOFT_RESET | staggered_start_enable
    };
    proof {
        let t: u32 = if keep_triscs_under_reset {
            TRISC_SOFT_RESETS
        } else {
            0
        };
        let s = staggered_start_enable;
        let k: u32 = (1u32 << 12) | (1u32 << 13) | (1u32 << 14);
        assert(((1u32 << 18) | t | s) & (1u32 << 11) == 0 && ((1u32 << 18) | t | s) & (1u32 << 18)
            == (1u32 << 18) && ((1u32 << 18) | t | s) & k == t && (((1u32 << 18) | t | s) & (1u32
            << 31)) == s && (1u32 << 18) | s == (1u32 << 18) | 0 | s && (1u32 << 31) != 0 && k
            != 0) by (bit_vector)
            requires
                k == (1u32 << 12) | (1u32 << 13) | (1u32 << 14),
                t == k || t == 0,
                s == (1u32 << 31) || s == 0,
        ;
    }
    soft_reset_value
}

/// Puts a chip back as it is found: clocks low, every core held in soft
/// reset, and then the tiles taken out of hard reset.
pub fn reset_to_default() -> (r: Vec<ChipOp>)
    ensures
        r@ == seq![
            ChipOp::GoIdle,
            ChipOp::Broadcast32 {
                noc_id: NocId::Noc0,
                addr: SOFT_RESET_ADDR,
                value: ALL_SOFT_RESETS,
            },
            ChipOp::DeassertRiscvReset,
        ],
{
    let mut r: Vec<ChipOp> = Vec::new();
    r.push(ChipOp::GoIdle);
    r.push(
        ChipOp::Broadcast32 { noc_id: NocId::Noc0, addr: SOFT_RESET_ADDR, value: ALL_SOFT_RESETS },
    );
    r.push(ChipOp::DeassertRiscvReset);
    assert(r@ =~= seq![
        ChipOp::GoIdle,
        ChipOp::Broadcast32 { noc_id: NocId::Noc0, addr: SOFT_RESET_ADDR, value: ALL_SOFT_RESETS },
        ChipOp::DeassertRiscvReset,
    ]);
    r
}

/// Lowers the clocks.
pub fn lower_clocks() -> (r: ChipOp)
    ensures
        r == ChipOp::GoIdle,
{
    ChipOp::GoIdle
}

/// Raises the clocks.
pub fn raise_clocks() -> (r: ChipOp)
    ensures
        r == ChipOp::GoBusy,
{
    ChipOp::GoBusy
}

/// Releases the BRISC of every tile of the broadcast rectangle.
pub fn start_all(keep_triscs_under_reset: bool, stagger_start: bool) -> (r: ChipOp)
    ensures
        r == (ChipOp::Broadcast32 {
            noc_id: NocId::Noc0,
            addr: SOFT_RESET_ADDR,
            value: release_value(keep_triscs_under_reset, stagger_start),
        }),
{
    ChipOp::Broadcast32 {
        noc_id: NocId::Noc0,
        addr: SOFT_RESET_ADDR,
        value: soft_reset_value(keep_triscs_under_reset, stagger_start),
    }
}

/// Lowers the clocks and holds every core of every tile in reset.
pub fn stop_all() -> (r: Vec<ChipOp>)
    ensures
        r@ == seq![
            ChipOp::GoIdle,
            ChipOp::Broadcast32 {
                noc_id: NocId::Noc0,
                addr: SOFT_RESET_ADDR,
                value: ALL_SOFT_RESETS,
            },
        ],
{
    let mut r: Vec<ChipOp> = Vec::new();
    r.push(lower_clocks());
    r.push(
        ChipOp::Broadcast32 { noc_id: NocId::Noc0, addr: SOFT_RESET_ADDR, value: ALL_SOFT_RESETS },
    );
    assert(r@ =~= seq![
        ChipOp::GoIdle,
        ChipOp::Broadcast32 { noc_id: NocId::Noc0, addr: SOFT_RESET_ADDR, value: ALL_SOFT_RESETS },
    ]);
    r
}

/// The write of `value` to the soft-reset register of `core`, and the look
/// whether the register has taken it.
pub open spec fn soft_reset_ops(core: NocAddress, value: u32) -> Seq<ChipOp> {
    seq![
        ChipOp::Write32 { noc_id: NocId::Noc0, tile: core, addr: SOFT_RESET_ADDR, value },
        ChipOp::Expect32 { noc_id: NocId::Noc0, tile: core, addr: SOFT_RESET_ADDR, value },
    ]
}

fn write_soft_reset(core: NocAddress, value: u32) -> (r: Vec<ChipOp>)
    ensures
        r@ == soft_reset_ops(core, value),
{
    let mut r: Vec<ChipOp> = Vec::new();
    r.push(ChipOp::Write32 { noc_id: NocId::Noc0, tile: core, addr: SOFT_RESET_ADDR, value });
    r.push(ChipOp::Expect32 { noc_id: NocId::Noc0, tile: core, addr: SOFT_RESET_ADDR, value });
    assert(r@ =~= soft_reset_ops(core, value));
    r
}

/// Releases the BRISC of one tile.
pub fn start(core: NocAddress, keep_triscs_under_reset: bool, stagger_start: bool) -> (r: Vec<
    ChipOp,
>)
    ensures
        r@ == soft_reset_ops(core, release_value(keep_triscs_under_reset, stagger_start)),
{
    write_soft_reset(core, soft_reset_value(keep_triscs_under_reset, stagger_start))
}

/// Releases the BRISC of one tile, the TRISCs kept in reset, staggered.
pub fn easy_start(core: NocAddress) -> (r: Vec<ChipOp>)
    ensures
        r@ == soft_reset_ops(core, release_value(true, true)),
{
    start(core, true, true)
}

/// Releases the BRISC of every tile, the TRISCs kept in reset, staggered.
pub fn easy_start_all() -> (r: ChipOp)
    ensures
        r == (ChipOp::Broadcast32 {
            noc_id: NocId::Noc0,
            addr: SOFT_RESET_ADDR,
            value: release_value(true, true),
        }),
{
    start_all(true, true)
}

/// Holds every core of one tile in reset.
pub fn stop(core: NocAddress) -> (r: Vec<ChipOp>)
    ensures
        r@ == soft_reset_ops(core, ALL_SOFT_RESETS),
{
    write_soft_reset(core, ALL_SOFT_RESETS)
}

/// How a kernel is to be built and loaded.
#[derive(Clone, Debug, PartialEq, Eq)]
pub struct LoadOptions {
    pub no_wait: bool,
    pub build_std: bool,
    pub verbose: bool,
    pub lto: bool,
    pub use_cache: CacheEnable,
    pub base_path: String,
    pub path: String,
    pub profile: String,
    pub default_features: bool,
    pub stack_probes: bool,
    pub hide_output: bool,
    pub noc_id: NocId,
}

/// Whether `std::path::Path::is_absolute` holds of a path with this text.
/// The test is made on the text alone, by the path grammar of the platform
/// that the library is built for.
pub uninterp spec fn std_path_is_absolute(path: Seq<char>) -> bool;

/// The text of the path that `std::path::Path::join` makes of a base and a
/// path with these texts. It is made from the two texts alone, by the path
/// grammar of the platform that the library is built for.
pub uninterp spec fn std_path_join(base: Seq<char>, path: Seq<char>) -> Seq<char>;

/// `std::path::Path::is_absolute` of `path`. The contract gives the answer
/// its name and claims nothing of which paths are absolute.
#[verifier::external_body]
fn path_is_absolute(path: &str) -> (r: bool)
    ensures
        r == std_path_is_absolute(path@),
{
    std::path::Path::new(path).is_absolute()
}

/// `std::path::Path::join` of `base` and `path`, as a string. The contract
/// gives the joined text its name and claims nothing of how it is made up.
#[verifier::external_body]
fn path_join(base: &str, path: &str) -> (r: String)
    ensures
        r@ == std_path_join(base@, path@),
{
    std::path::Path::new(base).join(path).to_string_lossy().to_string()
}

/// The directory that `path` stands for beside the base path `base`: `path`
/// itself where it is absolute, else `path` joined to `base`.
pub open spec fn resolved(base: Seq<char>, path: Seq<char>) -> Seq<char> {
    if std_path_is_absolute(path) {
        path
    } else {
        std_path_join(base, path)
    }
}

impl LoadOptions {
    /// The options that nobody has changed yet: a release build without
    /// cache, waited for, over the first fabric.
    pub fn new(base_path: &str) -> (r: Self)
        ensures
            !r.no_wait && !r.build_std && !r.verbose && !r.lto,
            r.use_cache == CacheEnable::Disabled,
            r.base_path@ == base_path@,
            r.path@.len() == 0,
            r.profile@ == "release"@,
            r.default_features,
            !r.stack_probes && !r.hide_output,
            r.noc_id == NocId::Noc0,
    {
        LoadOptions {
            no_wait: false,
            build_std: false,
            verbose: false,
            use_cache: CacheEnable::Disabled,
            lto: false,
            base_path: String::from_str(base_path),
            path: String::new(),
            profile: String::from_str("release"),
            default_features: true,
            stack_probes: false,
            hide_output: false,
            noc_id: NocId::Noc0,
        }
    }

    pub fn no_wait(self, no_wait: bool) -> (r: Self)
        ensures
            r == (LoadOptions { no_wait, ..self }),
    {
        LoadOptions { no_wait, ..self }
    }

    pub fn verbose(self, verbose: bool) -> (r: Self)
        ensures
            r == (LoadOptions { verbose, ..self }),
    {
        LoadOptions { verbose, ..self }
    }

    pub fn build_std(self, build_std: bool) -> (r: Self)
        ensures
            r == (LoadOptions { build_std, ..self }),
    {
        LoadOptions { build_std, ..self }
    }

    pub fn use_cache(self, cache: CacheEnable) -> (r: Self)
        ensures
            r == (LoadOptions { use_cache: cache, ..self }),
    {
        LoadOptions { use_cache: cache, ..self }
    }

    pub fn hide_output(self) -> (r: Self)
        ensures
            r == (LoadOptions { hide_output: true, ..self }),
    {
        LoadOptions { hide_output: true, ..self }
    }

    pub fn lto(self, lto: bool) -> (r: Self)
        ensures
            r == (LoadOptions { lto, ..self }),
    {
        LoadOptions { lto, ..self }
    }

    /// Sets the directory of the kernel to an already resolved path.
    pub fn resolved_path(self, path: String) -> (r: Self)
        ensures
            r == (LoadOptions { path, ..self }),
    {
        LoadOptions { path, ..self }
    }

    /// Sets the directory of the kernel: `path` itself where the platform
    /// takes it for absolute, else `path` joined to the base path. All else
    /// stays as it is.
    pub fn path(self, path: &str) -> (r: Self)
        ensures
            r.path@ == resolved(self.base_path@, path@),
            r == (LoadOptions { path: r.path, ..self }),
    {
        let resolved = if path_is_absolute(path) {
            String::from_str(path)
        } else {
            path_join(self.base_path.as_str(), path)
        };
        self.resolved_path(resolved)
    }

    pub fn profile(self, profile: &str) -> (r: Self)
        ensures
            r.profile@ == profile@,
            r == (LoadOptions { profile: r.profile, ..self }),
    {
        LoadOptions { profile: String::from_str(profile), ..self }
    }

    pub fn default_features(self, df: bool) -> (r: Self)
        ensures
            r == (LoadOptions { default_features: df, ..self }),
    {
        LoadOptions { default_features: df, ..self }
    }

    pub fn stack_probes(self, probe: bool) -> (r: Self)
        ensures
            r == (LoadOptions { stack_probes: probe, ..self }),
    {
        LoadOptions { stack_probes: probe, ..self }
    }

    pub fn noc_id(self, noc_id: NocId) -> (r: Self)
        ensures
            r == (LoadOptions { noc_id, ..self }),
    {
        LoadOptions { noc_id, ..self }
    }

    /// The directory to build in: the path that was set, else the base
    /// path.
    pub fn build_dir(&self) -> (r: String)
        ensures
            r@ == if self.path@.len() == 0 {
                self.base_path@
            } else {
                self.path@
            },
    {
        if self.path.as_str().is_empty() {
            self.base_path.clone()
        } else {
            self.path.clone()
        }
    }
}

/// The generation to build for.
pub fn standard_target(arch: Arch) -> (r: StandardTarget)
    ensures
        r == match arch {
            Arch::Grayskull => StandardTarget::Grayskull,
            Arch::Wormhole => StandardTarget::Wormhole,
            Arch::Blackhole => StandardTarget::Blackhole,
        },
{
    match arch {
        Arch::Grayskull => StandardTarget::Grayskull,
        Arch::Wormhole => StandardTarget::Wormhole,
        Arch::Blackhole => StandardTarget::Blackhole,
    }
}

/// What is asked of the build of the kernel `name` for a chip of
/// generation `arch`: the directory to build in, and the options. With a
/// linker script of its own the kernel is built for a custom target, named
/// after the generation, whose definition is the generation's with the
/// rewrites applied.
pub fn build_kernel(
    name: &str,
    arch: Arch,
    options: LoadOptions,
    custom_link: Option<(String, Vec<Rewrite>)>,
) -> (r: (String, CargoOptions))
    ensures
        r.0@ == if options.path@.len() == 0 {
            options.base_path@
        } else {
            options.path@
        },
        match custom_link {
            Some((link, rewrites)) => ({
                &&& r.1.target matches TensixTarget::Custom { name: n, target_def, linker_script }
                &&& n@ == (match arch {
                    Arch::Grayskull => "Grayskull"@,
                    Arch::Wormhole => "Wormhole"@,
                    Arch::Blackhole => "Blackhole"@,
                }) + "-custom"@
                &&& target_def == StandardTargetOrCustom::Standard(
                    match arch {
                        Arch::Grayskull => StandardTarget::Grayskull,
                        Arch::Wormhole => StandardTarget::Wormhole,
                        Arch::Blackhole => StandardTarget::Blackhole,
                    },
                    rewrites,
                )
                &&& linker_script == link
            }),
            None => r.1.target == TensixTarget::Standard(
                match arch {
                    Arch::Grayskull => StandardTarget::Grayskull,
                    Arch::Wormhole => StandardTarget::Wormhole,
                    Arch::Blackhole => StandardTarget::Blackhole,
                },
            ),
        },
        options.profile@ == "debug"@ ==> r.1.profile == CargoProfile::Debug,
        options.profile@ == "release"@ ==> r.1.profile == CargoProfile::Release,
        options.profile@ != "debug"@ && options.profile@ != "release"@ ==> ({
            &&& r.1.profile matches CargoProfile::Other(other)
            &&& other@ == options.profile@
        }),
        r.1.lto == options.lto,
        r.1.use_cache == options.use_cache,
        r.1.verbose == options.verbose,
        r.1.build_std == options.build_std,
        r.1.default_features == options.default_features,
        r.1.stack_probes == options.stack_probes,
        r.1.kernel_name@ == name@,
        r.1.hide_output == options.hide_output,
{
    let standard = standard_target(arch);
    let target = match custom_link {
        Some((link, rewrites)) => TensixTarget::Custom {
            name: String::from_str(standard.display_name()).concat("-custom"),
            target_def: StandardTargetOrCustom::Standard(standard, rewrites),
            linker_script: link,
        },
        None => TensixTarget::Standard(standard),
    };
    let profile = CargoProfile::from_name(&options.profile);
    let dir = options.build_dir();
    (
        dir,
        CargoOptions {
            target,
            profile,
            lto: options.lto,
            use_cache: options.use_cache,
            verbose: options.verbose,
            build_std: options.build_std,
            default_features: options.default_features,
            stack_probes: options.stack_probes,
            kernel_name: String::from_str(name),
            hide_output: options.hide_output,
        },
    )
}

} // verus!
