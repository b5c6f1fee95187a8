use crabfetch::gpu::{
    auto_format_bytes, cache_to_write, check_gpu_cache, get_gpus, gpu_cache_contents,
    parse_glxinfo, parse_gpu_cache, resolve_device, select_method, CacheDecision, GPUConfiguration, GPUInfo, GPUMethod, GpuFault, PciDevice,
    GPU_INFOFLAG_MODEL, GPU_INFOFLAG_VENDOR, GPU_INFOFLAG_VRAM,
};
use crabfetch::ids::{search_amd_model, search_pci_ids};

const PCI_IDS: &str = "# pci.ids sample\n\
1002  Advanced Micro Devices, Inc. [AMD/ATI]\n\
\t744c  Navi 31 [Radeon RX 7900 XT/7900 XTX]\n\
\t747e  Navi 32 [Radeon RX 7700 XT / 7800 XT]\n\
\t\t1da2 d475  Sapphire card\n\
10de  NVIDIA Corporation\n\
# a comment inside\n\
\t2484  GA104 [GeForce RTX 3070]\n\
8086  Intel Corporation\n";

const AMD_IDS: &str = "# amdgpu.ids sample\n\
1.0.0\n\
747E,\tC8,\tAMD Radeon RX 7800 XT\n\
747E,\tFF,\tAMD Radeon RX 7700 XT\n";

fn config(format: &str) -> GPUConfiguration {
    GPUConfiguration {
        method: GPUMethod::PCISysFile,
        cache: true,
        amd_accuracy: false,
        ignore_disabled_gpus: false,
        title: "GPU {index}".to_string(),
        title_color: None,
        title_bold: None,
        title_italic: None,
        separator: None,
        use_ibis: None,
        format: format.to_string(),
    }
}

fn modalias(vendor: &str, device: &str, class: &str) -> String {
    format!("pci:v0000{}d0000{}sv00001DA2sd0000D475bc{}sc00i00\n", vendor, device, class)
}

fn device(vendor: &str, dev: &str, class: &str) -> PciDevice {
    PciDevice {
        modalias: Some(modalias(vendor, dev, class)),
        enable: Some("1\n".to_string()),
        revision: Some("0xc8\n".to_string()),
        vram_total: Some("17163091968\n".to_string()),
    }
}

#[test]
fn pci_lookup_finds_vendor_and_device() {
    let (v, d) = search_pci_ids(PCI_IDS, "1002", "747e");
    assert_eq!(v, "Advanced Micro Devices, Inc. [AMD/ATI]");
    assert_eq!(d, "Navi 32 [Radeon RX 7700 XT / 7800 XT]");
}

#[test]
fn pci_lookup_skips_comments_inside_a_block() {
    let (v, d) = search_pci_ids(PCI_IDS, "10de", "2484");
    assert_eq!(v, "NVIDIA Corporation");
    assert_eq!(d, "GA104 [GeForce RTX 3070]");
}

#[test]
fn pci_lookup_stops_at_the_next_vendor() {
    let (v, d) = search_pci_ids(PCI_IDS, "1002", "2484");
    assert_eq!(v, "Advanced Micro Devices, Inc. [AMD/ATI]");
    assert_eq!(d, "2484");
}

#[test]
fn pci_lookup_missing_vendor() {
    let (v, d) = search_pci_ids(PCI_IDS, "1af4", "1050");
    assert_eq!(v, "");
    assert_eq!(d, "1050");
    let (v, d) = search_pci_ids("", "1002", "747e");
    assert_eq!(v, "");
    assert_eq!(d, "747e");
}

#[test]
fn amd_lookup_ignores_case() {
    assert_eq!(search_amd_model(AMD_IDS, "747e", "c8"), Some("AMD Radeon RX 7800 XT".to_string()));
    assert_eq!(search_amd_model(AMD_IDS, "747E", "ff"), Some("AMD Radeon RX 7700 XT".to_string()));
    assert_eq!(search_amd_model(AMD_IDS, "744c", "c8"), None);
}

#[test]
fn info_flags_plan() {
    assert_eq!(GPUInfo::gen_info_flags("{vram}"), GPU_INFOFLAG_VRAM);
    let m = GPUInfo::gen_info_flags("{model}");
    assert_eq!(m, GPU_INFOFLAG_VENDOR | GPU_INFOFLAG_MODEL);
    assert_eq!(GPUInfo::gen_info_flags("{vendor} ({vram})"), 7);
    assert_eq!(GPUInfo::gen_info_flags("nothing"), 0);
}

#[test]
fn display_class_is_included_and_network_class_excluded() {
    let devs = vec![device("10de", "2484", "03"), device("8086", "15F3", "02")];
    let gpus = get_gpus(&config("{vendor} {model}"), &devs, Some(PCI_IDS), None).ok().unwrap();
    assert_eq!(gpus.len(), 1);
    assert_eq!(gpus[0].vendor(), "NVIDIA Corporation");
    assert_eq!(gpus[0].model(), "GA104 [GeForce RTX 3070]");
    assert_eq!(gpus[0].vram_mb(), 0);
    assert_eq!(gpus[0].index(), Some(0));
}

#[test]
fn disabled_device_is_skipped() {
    let mut cfg = config("{model}");
    cfg.ignore_disabled_gpus = true;
    let mut off = device("10de", "2484", "03");
    off.enable = Some("0\n".to_string());
    let on = device("1002", "747E", "03");
    let gpus = get_gpus(&cfg, &vec![off, on], Some(PCI_IDS), None).ok().unwrap();
    assert_eq!(gpus.len(), 1);
    assert_eq!(gpus[0].vendor(), "Advanced Micro Devices, Inc. [AMD/ATI]");
    let mut unreadable = device("10de", "2484", "03");
    unreadable.enable = None;
    assert_eq!(get_gpus(&cfg, &vec![unreadable], Some(PCI_IDS), None).ok().unwrap().len(), 0);
}

#[test]
fn indices_follow_scan_order() {
    let devs = vec![
        device("1002", "747E", "03"),
        device("8086", "15F3", "02"),
        PciDevice { modalias: None, enable: None, revision: None, vram_total: None },
        device("10de", "2484", "03"),
    ];
    let gpus = get_gpus(&config("{vram}"), &devs, None, None).ok().unwrap();
    assert_eq!(gpus.len(), 2);
    assert_eq!(gpus[0].index(), Some(0));
    assert_eq!(gpus[1].index(), Some(1));
    assert_eq!(gpus[0].vram_mb(), 16368);
    assert_eq!(gpus[0].vendor(), "Unknown");
    assert_eq!(gpus[0].model(), "Unknown");
}

#[test]
fn amd_accuracy_uses_the_amd_database() {
    let mut cfg = config("{model}");
    cfg.amd_accuracy = true;
    let gpus = get_gpus(&cfg, &vec![device("1002", "747E", "03")], Some(PCI_IDS), Some(AMD_IDS)).ok().unwrap();
    assert_eq!(gpus[0].vendor(), "Advanced Micro Devices, Inc. [AMD/ATI]");
    assert_eq!(gpus[0].model(), "AMD Radeon RX 7800 XT");
    let mut other = device("1002", "744c", "03");
    other.revision = Some("0xc8".to_string());
    let gpus = get_gpus(&cfg, &vec![other], Some(PCI_IDS), Some(AMD_IDS)).ok().unwrap();
    assert_eq!(gpus[0].model(), "Navi 31 [Radeon RX 7900 XT/7900 XTX]");
}

#[test]
fn faults_are_reported() {
    let short = PciDevice { modalias: Some("pci:v00001002".to_string()), enable: None, revision: None, vram_total: None };
    let e = get_gpus(&config("{model}"), &vec![short], Some(PCI_IDS), None).err().unwrap();
    assert_eq!(e.module, "GPU");
    assert_eq!(e.message, "Malformed PCI identity string.");
    let e = get_gpus(&config("{model}"), &vec![device("10de", "2484", "03")], None, None).err().unwrap();
    assert_eq!(e.message, "Could not find an appropriate path for getting PCI ID info.");
    let mut cfg = config("{model}");
    cfg.amd_accuracy = true;
    let e = get_gpus(&cfg, &vec![device("1002", "747E", "03")], Some(PCI_IDS), None).err().unwrap();
    assert_eq!(e.message, "Could not find an appropriate path for getting AMD PCI ID info.");
    let mut bad = device("1002", "747E", "03");
    bad.vram_total = Some("lots\n".to_string());
    assert!(matches!(resolve_device(&bad, false, false, GPU_INFOFLAG_VRAM, None, None), Err(GpuFault::MalformedVram)));
    let mut huge = device("1002", "747E", "03");
    huge.vram_total = Some("18446744073709551615".to_string());
    assert!(matches!(resolve_device(&huge, false, false, GPU_INFOFLAG_VRAM, None, None), Err(GpuFault::VramTooLarge)));
}

#[test]
fn cache_round_trip_skips_resolution() {
    let gpus = get_gpus(&config("{vendor} {vram}"), &vec![device("10de", "2484", "03")], Some(PCI_IDS), None).ok().unwrap();
    let contents = gpu_cache_contents(GPUMethod::PCISysFile, &gpus[0]);
    assert_eq!(contents, "pcisysfile\nNVIDIA Corporation\nGA104 [GeForce RTX 3070]\n16368");
    match check_gpu_cache(GPUMethod::PCISysFile, true, false, Some(&contents)) {
        CacheDecision::Use(g) => {
            assert_eq!(g.vendor(), gpus[0].vendor());
            assert_eq!(g.model(), gpus[0].model());
            assert_eq!(g.vram_mb(), gpus[0].vram_mb());
        },
        CacheDecision::Resolve { .. } => panic!("the cache was not used"),
    }
}

#[test]
fn cache_for_another_method_is_discarded() {
    let contents = "glxinfo\nAMD\nRadeon\n16384";
    assert!(matches!(
        check_gpu_cache(GPUMethod::PCISysFile, true, false, Some(contents)),
        CacheDecision::Resolve { remove_stale: true }
    ));
    assert!(parse_gpu_cache(contents, GPUMethod::GLXInfo).is_some());
    assert!(parse_gpu_cache("pcisysfile\nAMD\nRadeon\nmany", GPUMethod::PCISysFile).is_none());
    assert!(parse_gpu_cache("pcisysfile\nAMD", GPUMethod::PCISysFile).is_none());
    assert!(matches!(
        check_gpu_cache(GPUMethod::PCISysFile, true, false, None),
        CacheDecision::Resolve { remove_stale: false }
    ));
    assert!(matches!(
        check_gpu_cache(GPUMethod::PCISysFile, true, true, Some("pcisysfile\nA\nB\n1")),
        CacheDecision::Resolve { remove_stale: false }
    ));
}

#[test]
fn cache_written_only_when_in_use() {
    let g = GPUInfo::new();
    assert_eq!(cache_to_write(GPUMethod::GLXInfo, true, false, &g), Some("glxinfo\nUnknown\nUnknown\n0".to_string()));
    assert_eq!(cache_to_write(GPUMethod::GLXInfo, false, false, &g), None);
    assert_eq!(cache_to_write(GPUMethod::GLXInfo, true, true, &g), None);
}

#[test]
fn method_selection() {
    assert!(select_method(GPUMethod::GLXInfo, None) == GPUMethod::GLXInfo);
    assert!(select_method(GPUMethod::GLXInfo, Some("pcisysfile")) == GPUMethod::PCISysFile);
    assert!(select_method(GPUMethod::PCISysFile, Some("glxinfo")) == GPUMethod::GLXInfo);
    assert!(select_method(GPUMethod::GLXInfo, Some("other")) == GPUMethod::PCISysFile);
    assert_eq!(GPUMethod::PCISysFile.to_string(), "pcisysfile");
}

#[test]
fn glxinfo_output() {
    let out = "name of display: :0\n\
    OpenGL vendor string: AMD\n\
    OpenGL renderer string: AMD Radeon RX 7800 XT (radeonsi, navi32, LLVM 17.0.6, DRM 3.57, 6.8.1-arch1-1)\n\
    Dedicated video memory: 16384 MB\n";
    let g = parse_glxinfo(out);
    assert_eq!(g.vendor(), "AMD");
    assert_eq!(g.model(), "Radeon RX 7800 XT");
    assert_eq!(g.vram_mb(), 16384);
    let g = parse_glxinfo("Dedicated video memory: lots MB\n");
    assert_eq!(g.vram_mb(), 0);
}

#[test]
fn byte_units() {
    assert_eq!(auto_format_bytes(8192 * 1000, false), "8 GB");
    assert_eq!(auto_format_bytes(8192 * 1000, true), "8 GiB");
    assert_eq!(auto_format_bytes(500, false), "500 KB");
    assert_eq!(auto_format_bytes(1500, false), "2 MB");
    assert_eq!(auto_format_bytes(1400, true), "1 MiB");
    assert_eq!(auto_format_bytes(3_000_000_000, false), "3 TB");
    assert_eq!(auto_format_bytes(0, true), "0 KiB");
}

#[test]
fn style_fills_templates() {
    let devs = vec![device("10de", "2484", "03")];
    let mut cfg = config("{vendor} {model} ({vram})");
    cfg.use_ibis = Some(false);
    let gpus = get_gpus(&cfg, &devs, Some(PCI_IDS), None).ok().unwrap();
    let (title, value) = gpus[0].style(&cfg, true);
    assert_eq!(title, "GPU 0");
    assert_eq!(value, "NVIDIA Corporation GA104 [GeForce RTX 3070] (16 GB)");
    let (title, value) = GPUInfo::unknown_output(&config("GPU {index} {model}"));
    assert_eq!(title, "GPU {index}".replace("{index}", "0"));
    assert_eq!(value, "Unknown");
    let mut cfg = config("x");
    cfg.title = "{vendor}/{model}/{vram}/{index}".to_string();
    assert_eq!(GPUInfo::unknown_output(&cfg).0, "Unknown/Unknown/Unknown/0");
}

#[test]
fn new_record_and_index() {
    let mut g = GPUInfo::new();
    assert_eq!(g.vendor(), "Unknown");
    assert_eq!(g.model(), "Unknown");
    assert_eq!(g.index(), None);
    g.set_index(3);
    assert_eq!(g.index(), Some(3));
    assert_eq!(g.replace_placeholders("#{index} {vram}", false), "#3 0 KB");
}

#[test]
fn id_lookup_is_case_sensitive() {
    let devs = vec![device("10DE", "2484", "03")];
    let gpus = get_gpus(&config("{model}"), &devs, Some(PCI_IDS), None).ok().unwrap();
    assert_eq!(gpus[0].vendor(), "");
    assert_eq!(gpus[0].model(), "2484");
}

#[test]
fn missing_amd_revision_falls_back_to_pci_ids() {
    let mut cfg = config("{vendor} {model}");
    cfg.amd_accuracy = true;
    let mut norev = device("1002", "747e", "03");
    norev.revision = None;
    let mut short = device("1002", "744c", "03");
    short.revision = Some("c".to_string());
    let gpus = get_gpus(&cfg, &vec![norev, short], Some(PCI_IDS), None).ok().unwrap();
    assert_eq!(gpus.len(), 2);
    assert_eq!(gpus[0].vendor(), "Advanced Micro Devices, Inc. [AMD/ATI]");
    assert_eq!(gpus[0].model(), "Navi 32 [Radeon RX 7700 XT / 7800 XT]");
    assert_eq!(gpus[1].model(), "Navi 31 [Radeon RX 7900 XT/7900 XTX]");
}

#[test]
fn many_entries_and_late_gpus() {
    let mut devs = Vec::new();
    for _ in 0..300 {
        devs.push(device("8086", "15F3", "02"));
    }
    for _ in 0..258 {
        devs.push(device("10de", "2484", "03"));
    }
    let gpus = get_gpus(&config("{vram}"), &devs, None, None).ok().unwrap();
    assert_eq!(gpus.len(), 258);
    assert_eq!(gpus[255].index(), Some(255));
    assert_eq!(gpus[256].index(), None);
    assert_eq!(gpus[257].index(), None);
}

#[test]
fn display_candidates() {
    assert!(crabfetch::gpu::is_display_candidate(&modalias("10de", "2484", "03")));
    assert!(!crabfetch::gpu::is_display_candidate(&modalias("8086", "15F3", "02")));
    assert!(crabfetch::gpu::is_display_candidate("pci:v0000"));
    assert!(crabfetch::gpu::cache_enabled(true, false));
    assert!(!crabfetch::gpu::cache_enabled(true, true));
}
