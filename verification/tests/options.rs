use ttx_rs::chip::noc::NocId;
use ttx_rs::chip::Arch;
use ttx_rs::loader::{build_kernel, standard_target, LoadOptions};
use ttx_rs::tensix_builder::{
    get_compiler_artifact, Artifact, CacheEnable, CargoOptions, CargoProfile, CargoResult, Rewrite, StandardTarget,
    StandardTargetOrCustom, TensixTarget,
};

#[test]
fn options_as_they_start_out() {
    let options = LoadOptions::new("/kernels");
    assert_eq!(
        options,
        LoadOptions {
            no_wait: false,
            build_std: false,
            verbose: false,
            lto: false,
            use_cache: CacheEnable::Disabled,
            base_path: "/kernels".to_string(),
            path: String::new(),
            profile: "release".to_string(),
            default_features: true,
            stack_probes: false,
            hide_output: false,
            noc_id: NocId::Noc0,
        }
    );
    assert_eq!(options.build_dir(), "/kernels");
}

#[test]
fn each_option_changes_its_own_field() {
    let base = LoadOptions::new("/kernels");
    assert_eq!(base.clone().no_wait(true), LoadOptions { no_wait: true, ..base.clone() });
    assert_eq!(base.clone().verbose(true), LoadOptions { verbose: true, ..base.clone() });
    assert_eq!(base.clone().build_std(true), LoadOptions { build_std: true, ..base.clone() });
    assert_eq!(
        base.clone().use_cache(CacheEnable::CustomDir("/tmp/cache".to_string())),
        LoadOptions { use_cache: CacheEnable::CustomDir("/tmp/cache".to_string()), ..base.clone() }
    );
    assert_eq!(base.clone().hide_output(), LoadOptions { hide_output: true, ..base.clone() });
    assert_eq!(base.clone().lto(true), LoadOptions { lto: true, ..base.clone() });
    assert_eq!(
        base.clone().profile("debug"),
        LoadOptions { profile: "debug".to_string(), ..base.clone() }
    );
    assert_eq!(
        base.clone().default_features(false),
        LoadOptions { default_features: false, ..base.clone() }
    );
    assert_eq!(base.clone().stack_probes(true), LoadOptions { stack_probes: true, ..base.clone() });
    assert_eq!(base.clone().noc_id(NocId::Noc1), LoadOptions { noc_id: NocId::Noc1, ..base.clone() });
    assert_eq!(
        base.clone().resolved_path("/x".to_string()),
        LoadOptions { path: "/x".to_string(), ..base.clone() }
    );
    // All of them together, and back.
    let all = base.clone().no_wait(true).lto(true).verbose(true).no_wait(false).lto(false);
    assert_eq!(all, LoadOptions { verbose: true, ..base });
}

#[test]
fn a_path_is_taken_from_the_base_unless_it_is_absolute() {
    let base = LoadOptions::new("/kernels");
    let joined = std::path::Path::new("/kernels").join("hello").to_string_lossy().to_string();
    assert_eq!(base.clone().path("hello"), LoadOptions { path: joined.clone(), ..base.clone() });
    assert_eq!(base.clone().path("hello").build_dir(), joined);
    let absolute = "/other/place";
    assert_eq!(
        base.clone().path(absolute),
        LoadOptions { path: absolute.to_string(), ..base.clone() }
    );
    assert_ne!(base.clone().path("hello").path, "hello");
}

#[test]
fn targets_and_profiles_by_name() {
    assert_eq!(StandardTarget::Grayskull.to_string(), "grayskull");
    assert_eq!(StandardTarget::Wormhole.to_string(), "wormhole");
    assert_eq!(StandardTarget::Blackhole.to_string(), "blackhole");
    assert_eq!(StandardTarget::Grayskull.display_name(), "Grayskull");
    assert_eq!(StandardTarget::Wormhole.display_name(), "Wormhole");
    assert_eq!(StandardTarget::Blackhole.display_name(), "Blackhole");
    assert_eq!(TensixTarget::Standard(StandardTarget::Wormhole).to_string(), "wormhole");
    let custom = TensixTarget::Custom {
        name: "mine".to_string(),
        target_def: StandardTargetOrCustom::Custom("{}".to_string()),
        linker_script: String::new(),
    };
    assert_eq!(custom.to_string(), "mine");
    assert_eq!(CargoProfile::Release.to_string(), "release");
    assert_eq!(CargoProfile::Debug.to_string(), "dev");
    assert_eq!(CargoProfile::Other("bench".to_string()).to_string(), "bench");
    assert_eq!(CargoProfile::from_name(&"debug".to_string()), CargoProfile::Debug);
    assert_eq!(CargoProfile::from_name(&"release".to_string()), CargoProfile::Release);
    assert_eq!(
        CargoProfile::from_name(&"dev".to_string()),
        CargoProfile::Other("dev".to_string())
    );
    assert_eq!(CargoProfile::from_name(&String::new()), CargoProfile::Other(String::new()));
    assert_eq!(standard_target(Arch::Grayskull), StandardTarget::Grayskull);
    assert_eq!(standard_target(Arch::Wormhole), StandardTarget::Wormhole);
    assert_eq!(standard_target(Arch::Blackhole), StandardTarget::Blackhole);
    let result = CargoResult { path: "/out/kernel".to_string(), bin: true };
    assert!(result.bin);
}

#[test]
fn what_is_asked_of_a_build() {
    let options = LoadOptions::new("/kernels").lto(true).hide_output().profile("debug");
    let (dir, cargo) = build_kernel("hello", Arch::Blackhole, options, None);
    assert_eq!(dir, "/kernels");
    assert_eq!(
        cargo,
        CargoOptions {
            target: TensixTarget::Standard(StandardTarget::Blackhole),
            profile: CargoProfile::Debug,
            lto: true,
            use_cache: CacheEnable::Disabled,
            verbose: false,
            build_std: false,
            default_features: true,
            stack_probes: false,
            kernel_name: "hello".to_string(),
            hide_output: true,
        }
    );

    let rewrites = vec![Rewrite::Add { value: ",\n\"dynamic-linking\": true\n".to_string() }];
    let options = LoadOptions::new("/kernels")
        .resolved_path("/elsewhere".to_string())
        .profile("bench")
        .use_cache(CacheEnable::Enabled);
    let (dir, cargo) = build_kernel(
        "firmware",
        Arch::Wormhole,
        options,
        Some(("SECTIONS {}".to_string(), rewrites.clone())),
    );
    assert_eq!(dir, "/elsewhere");
    assert_eq!(
        cargo.target,
        TensixTarget::Custom {
            name: "Wormhole-custom".to_string(),
            target_def: StandardTargetOrCustom::Standard(StandardTarget::Wormhole, rewrites),
            linker_script: "SECTIONS {}".to_string(),
        }
    );
    assert_eq!(cargo.profile, CargoProfile::Other("bench".to_string()));
    assert_eq!(cargo.use_cache, CacheEnable::Enabled);
    assert_eq!(cargo.kernel_name, "firmware");
    let (_, cargo) = build_kernel("k", Arch::Grayskull, LoadOptions::new("/"), None);
    assert_eq!(cargo.target.to_string(), "grayskull");
    assert_eq!(cargo.profile, CargoProfile::Release);
}

fn artifact(executable: Option<&str>, kinds: &[&str], filenames: &[&str]) -> Artifact {
    Artifact {
        executable: executable.map(|s| s.to_string()),
        kinds: kinds.iter().map(|s| s.to_string()).collect(),
        filenames: filenames.iter().map(|s| s.to_string()).collect(),
    }
}

#[test]
fn what_a_build_has_made() {
    let program = |path: &str| Some(CargoResult { path: path.to_string(), bin: true });
    let library = |path: &str| Some(CargoResult { path: path.to_string(), bin: false });
    assert_eq!(get_compiler_artifact(&vec![]), None);
    let dependency = artifact(None, &["lib"], &["/t/libcore.rlib"]);
    assert_eq!(get_compiler_artifact(&vec![dependency.clone()]), None);
    // The first program, wherever it stands.
    assert_eq!(
        get_compiler_artifact(&vec![
            dependency.clone(),
            artifact(None, &["cdylib"], &["/t/libk.so"]),
            artifact(Some("/t/kernel"), &["bin"], &["/t/kernel"]),
            artifact(Some("/t/other"), &["bin"], &["/t/other"]),
        ]),
        program("/t/kernel")
    );
    // Without a program the first file of the first library.
    assert_eq!(
        get_compiler_artifact(&vec![
            dependency.clone(),
            artifact(None, &["staticlib"], &[]),
            artifact(None, &["rlib", "cdylib"], &["/t/libk.so", "/t/libk.d"]),
            artifact(None, &["staticlib"], &["/t/libk.a"]),
        ]),
        library("/t/libk.so")
    );
    assert_eq!(
        get_compiler_artifact(&vec![artifact(None, &["staticlib"], &["/t/libk.a"])]),
        library("/t/libk.a")
    );
    assert_eq!(get_compiler_artifact(&vec![artifact(None, &["dylib"], &["/t/libk.so"])]), None);
}
