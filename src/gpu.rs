//! GPU records: the plan of which fields a template needs, the resolver over
//! a scanned PCI device tree, the `glxinfo` reader, the cache artifact and
//! the template substitution.
use vstd::prelude::*;
use crate::error::ModuleError;
use crate::ids::{amd_lookup, pci_lookup, search_amd_model, search_pci_ids};
use crate::text;

verus! {

broadcast use vstd::string::group_string_axioms;

/// One resolved GPU.
pub struct GPUInfo {
    index: Option<u8>,
    vendor: String,
    model: String,
    vram_mb: u32,
}

/// The mathematical model of a `GPUInfo`.
pub struct GpuRecord {
    pub index: Option<u8>,
    pub vendor: Seq<char>,
    pub model: Seq<char>,
    pub vram_mb: u32,
}

impl View for GPUInfo {
    type V = GpuRecord;

    closed spec fn view(&self) -> GpuRecord {
        GpuRecord {
            index: self.index,
            vendor: self.vendor@,
            model: self.model@,
            vram_mb: self.vram_mb,
        }
    }
}

/// The text shown for a field that could not be resolved.
pub open spec fn unknown_text() -> Seq<char> {
    seq!['U', 'n', 'k', 'n', 'o', 'w', 'n']
}

/// A record with nothing resolved yet.
pub open spec fn default_record() -> GpuRecord {
    GpuRecord { index: None, vendor: unknown_text(), model: unknown_text(), vram_mb: 0 }
}

/// The text "Unknown".
fn unknown_string() -> (r: String)
    ensures
        r@ == unknown_text(),
{
    let v: Vec<char> = vec!['U', 'n', 'k', 'n', 'o', 'w', 'n'];
    assert(v@ =~= unknown_text());
    text::string_of(&v)
}

impl GPUInfo {
    /// A record whose vendor and model are "Unknown", with no index and no
    /// VRAM size.
    pub fn new() -> (r: GPUInfo)
        ensures
            r@ == default_record(),
    {
        GPUInfo { index: None, vendor: unknown_string(), model: unknown_string(), vram_mb: 0 }
    }

    /// Records the position of this GPU in the scan.
    pub fn set_index(&mut self, index: u8)
        ensures
            final(self)@ == (GpuRecord { index: Some(index), ..old(self)@ }),
    {
        self.index = Some(index);
    }
}

/// The plan bit for the vendor name.
pub const GPU_INFOFLAG_VENDOR: u32 = 1;

/// The plan bit for the model name.
pub const GPU_INFOFLAG_MODEL: u32 = 2;

/// The plan bit for the VRAM size.
pub const GPU_INFOFLAG_VRAM: u32 = 4;

/// Whether `flag` is set in `flags`.
pub open spec fn flag_set(flags: u32, flag: u32) -> bool {
    flags & flag != 0
}

/// Whether a template shows the vendor or the model; the two are looked up
/// together.
pub open spec fn needs_names(format: Seq<char>) -> bool {
    text::has_infix(format, "{vendor}"@) || text::has_infix(format, "{model}"@)
}

/// The plan of lookups a template needs: vendor and model together, VRAM
/// on its own.
pub open spec fn info_flags_of(format: Seq<char>) -> u32 {
    ((if needs_names(format) {
        GPU_INFOFLAG_VENDOR + GPU_INFOFLAG_MODEL
    } else {
        0
    }) + (if text::has_infix(format, "{vram}"@) {
        GPU_INFOFLAG_VRAM
    } else {
        0
    })) as u32
}

impl GPUInfo {
    /// The lookups that `format` needs.
    pub fn gen_info_flags(format: &str) -> (r: u32)
        ensures
            r == info_flags_of(format@),
    {
        let f = text::chars_of(format);
        let mut info_flags: u32 = 0;
        if text::contains(&f, &text::chars_of("{vendor}")) || text::contains(
            &f,
            &text::chars_of("{model}"),
        ) {
            info_flags = GPU_INFOFLAG_VENDOR + GPU_INFOFLAG_MODEL;
        }
        if text::contains(&f, &text::chars_of("{vram}")) {
            info_flags = info_flags + GPU_INFOFLAG_VRAM;
        }
        info_flags
    }
}

/// A template that shows the model or the vendor plans both lookups; one
/// that shows neither but the VRAM size plans the VRAM read alone.
pub proof fn lemma_info_flags(format: Seq<char>)
    ensures
        needs_names(format) ==> flag_set(info_flags_of(format), GPU_INFOFLAG_VENDOR) && flag_set(
            info_flags_of(format),
            GPU_INFOFLAG_MODEL,
        ),
        !needs_names(format) && text::has_infix(format, "{vram}"@) ==> info_flags_of(format)
            == GPU_INFOFLAG_VRAM,
        !needs_names(format) ==> !flag_set(info_flags_of(format), GPU_INFOFLAG_VENDOR)
            && !flag_set(info_flags_of(format), GPU_INFOFLAG_MODEL),
        text::has_infix(format, "{vram}"@) <==> flag_set(info_flags_of(format), GPU_INFOFLAG_VRAM),
{
    assert(3u32 & 1u32 != 0u32) by (bit_vector);
    assert(3u32 & 2u32 != 0u32) by (bit_vector);
    assert(3u32 & 4u32 == 0u32) by (bit_vector);
    assert(7u32 & 1u32 != 0u32) by (bit_vector);
    assert(7u32 & 2u32 != 0u32) by (bit_vector);
    assert(7u32 & 4u32 != 0u32) by (bit_vector);
    assert(4u32 & 1u32 == 0u32) by (bit_vector);
    assert(4u32 & 2u32 == 0u32) by (bit_vector);
    assert(4u32 & 4u32 != 0u32) by (bit_vector);
    assert(0u32 & 1u32 == 0u32) by (bit_vector);
    assert(0u32 & 2u32 == 0u32) by (bit_vector);
    assert(0u32 & 4u32 == 0u32) by (bit_vector);
}

/// How the GPU is detected.
#[derive(Clone, Copy, PartialEq, Eq, Structural)]
pub enum GPUMethod {
    GLXInfo,
    PCISysFile,
}

/// The options of the GPU module.
pub struct GPUConfiguration {
    pub method: GPUMethod,
    pub cache: bool,
    pub amd_accuracy: bool,
    pub ignore_disabled_gpus: bool,
    pub title: String,
    pub title_color: Option<String>,
    pub title_bold: Option<bool>,
    pub title_italic: Option<bool>,
    pub separator: Option<String>,
    pub use_ibis: Option<bool>,
    pub format: String,
}

/// The attributes of one entry of the PCI device tree, as read: `None` where
/// the attribute could not be read.
pub struct PciDevice {
    /// The identity string (`modalias`): bus class, vendor and device ids.
    pub modalias: Option<String>,
    /// The `enable` attribute.
    pub enable: Option<String>,
    /// The `revision` attribute.
    pub revision: Option<String>,
    /// The `mem_info_vram_total` attribute, in bytes.
    pub vram_total: Option<String>,
}

/// Why resolving the GPUs failed.
#[derive(Clone, Copy, PartialEq, Eq, Structural)]
pub enum GpuFault {
    /// An identity string too short to hold the class and the ids.
    MalformedIdentity,
    /// No AMD GPU-id database was found.
    MissingAmdDatabase,
    /// No PCI id database was found.
    MissingPciDatabase,
    /// The VRAM size is not a decimal number.
    MalformedVram,
    /// The VRAM size in megabytes does not fit in 32 bits.
    VramTooLarge,
}

/// The message reported for a fault.
pub open spec fn fault_message(f: GpuFault) -> Seq<char> {
    match f {
        GpuFault::MalformedIdentity => "Malformed PCI identity string."@,
        GpuFault::MissingAmdDatabase => "Could not find an appropriate path for getting AMD PCI ID info."@,
        GpuFault::MissingPciDatabase => "Could not find an appropriate path for getting PCI ID info."@,
        GpuFault::MalformedVram => "Failed to parse the VRAM size."@,
        GpuFault::VramTooLarge => "Failed to convert vram to u32."@,
    }
}

/// The error reported for a fault of the GPU module.
pub fn fault_error(f: GpuFault) -> (r: ModuleError)
    ensures
        r.module@ == "GPU"@,
        r.message@ == fault_message(f),
{
    let message = match f {
        GpuFault::MalformedIdentity => "Malformed PCI identity string.",
        GpuFault::MissingAmdDatabase => "Could not find an appropriate path for getting AMD PCI ID info.",
        GpuFault::MissingPciDatabase => "Could not find an appropriate path for getting PCI ID info.",
        GpuFault::MalformedVram => "Failed to parse the VRAM size.",
        GpuFault::VramTooLarge => "Failed to convert vram to u32.",
    };
    ModuleError::new("GPU".to_string(), message.to_string())
}

/// Length of an identity string that holds the base class.
pub const MODALIAS_MIN_LEN: usize = 46;

/// The base class in an identity string such as
/// `pci:v00001002d0000747Esv00001DA2sd0000D475bc03sc00i00`.
pub open spec fn modalias_class(m: Seq<char>) -> Seq<char> {
    m.subrange(44, 46)
}

/// The vendor id in an identity string.
pub open spec fn modalias_vendor(m: Seq<char>) -> Seq<char> {
    m.subrange(9, 13)
}

/// The device id in an identity string.
pub open spec fn modalias_device(m: Seq<char>) -> Seq<char> {
    m.subrange(18, 22)
}

/// AMD's vendor id.
pub open spec fn amd_vendor_id() -> Seq<char> {
    "1002"@
}

/// The vendor name given to AMD devices resolved through the AMD database.
pub open spec fn amd_vendor_name() -> Seq<char> {
    "Advanced Micro Devices, Inc. [AMD/ATI]"@
}

/// Vendor and model of a display device, as far as `flags` asks for them.
/// An AMD device under the accuracy option is first looked up by device and
/// revision in the AMD database; where that gives no model, or the revision
/// cannot be read, the PCI id database names both.
pub open spec fn names_of(
    m: Seq<char>,
    revision: Option<Seq<char>>,
    amd_accuracy: bool,
    flags: u32,
    pci: Option<Seq<char>>,
    amd: Option<Seq<char>>,
) -> Result<(Seq<char>, Seq<char>), GpuFault> {
    if !(flag_set(flags, GPU_INFOFLAG_MODEL) || flag_set(flags, GPU_INFOFLAG_VENDOR)) {
        Ok((unknown_text(), unknown_text()))
    } else {
        let vid = modalias_vendor(m);
        let did = modalias_device(m);
        let first: Result<(Seq<char>, Seq<char>), GpuFault> = if vid == amd_vendor_id()
            && amd_accuracy {
            match revision {
                None => Ok((amd_vendor_name(), unknown_text())),
                Some(r) => if r.len() < 2 {
                    Ok((amd_vendor_name(), unknown_text()))
                } else {
                    match amd {
                        None => Err(GpuFault::MissingAmdDatabase),
                        Some(db) => Ok(
                            (amd_vendor_name(), match amd_lookup(db, did, text::trim(r.skip(2))) {
                                Some(n) => n,
                                None => unknown_text(),
                            }),
                        ),
                    }
                },
            }
        } else {
            Ok((unknown_text(), unknown_text()))
        };
        match first {
            Err(e) => Err(e),
            Ok(names) => if names.1 == unknown_text() {
                match pci {
                    None => Err(GpuFault::MissingPciDatabase),
                    Some(db) => Ok(pci_lookup(db, vid, did)),
                }
            } else {
                Ok(names)
            },
        }
    }
}

/// Bytes in a megabyte, as the VRAM size is converted.
pub const BYTES_PER_MB: u64 = 1048576;

/// The VRAM size in megabytes, as far as `flags` asks for it; 0 where the
/// attribute is absent.
pub open spec fn vram_of(vram_total: Option<Seq<char>>, flags: u32) -> Result<u32, GpuFault> {
    if !flag_set(flags, GPU_INFOFLAG_VRAM) {
        Ok(0)
    } else {
        match vram_total {
            None => Ok(0),
            Some(r) => match text::parse_u64_spec(text::trim(r)) {
                None => Err(GpuFault::MalformedVram),
                Some(b) => if b / BYTES_PER_MB > u32::MAX {
                    Err(GpuFault::VramTooLarge)
                } else {
                    Ok((b / BYTES_PER_MB) as u32)
                },
            },
        }
    }
}

/// What one device-tree entry contributes: nothing where its identity
/// cannot be read, it is no display controller (base class `03`), or it is
/// disabled and disabled devices are ignored; else its record.
pub open spec fn device_of(
    dev: PciDevice,
    amd_accuracy: bool,
    ignore_disabled: bool,
    flags: u32,
    pci: Option<Seq<char>>,
    amd: Option<Seq<char>>,
) -> Result<Option<GpuRecord>, GpuFault> {
    match dev.modalias {
        None => Ok(None),
        Some(ms) => {
            let m = ms@;
            if m.len() < MODALIAS_MIN_LEN {
                Err(GpuFault::MalformedIdentity)
            } else if modalias_class(m) != "03"@ {
                Ok(None)
            } else if ignore_disabled && (dev.enable is None || text::trim(dev.enable->0@) == "0"@) {
                Ok(None)
            } else {
                match names_of(m, text::opt_view(dev.revision), amd_accuracy, flags, pci, amd) {
                    Err(e) => Err(e),
                    Ok(names) => match vram_of(text::opt_view(dev.vram_total), flags) {
                        Err(e) => Err(e),
                        Ok(v) => Ok(
                            Some(GpuRecord { index: None, vendor: names.0, model: names.1, vram_mb: v }),
                        ),
                    },
                }
            }
        },
    }
}

/// The view of a resolver result.
pub open spec fn device_result_view(r: Result<Option<GPUInfo>, GpuFault>) -> Result<Option<GpuRecord>, GpuFault> {
    match r {
        Ok(Some(g)) => Ok(Some(g@)),
        Ok(None) => Ok(None),
        Err(e) => Err(e),
    }
}

/// Resolves one entry of the device tree.
pub fn resolve_device(
    dev: &PciDevice,
    amd_accuracy: bool,
    ignore_disabled: bool,
    info_flags: u32,
    pci_ids: Option<&str>,
    amd_ids: Option<&str>,
) -> (r: Result<Option<GPUInfo>, GpuFault>)
    ensures
        device_result_view(r) == device_of(
            *dev,
            amd_accuracy,
            ignore_disabled,
            info_flags,
            text::opt_str(pci_ids),
            text::opt_str(amd_ids),
        ),
{
    let m = match &dev.modalias {
        None => return Ok(None),
        Some(s) => text::chars_of(s.as_str()),
    };
    if m.len() < MODALIAS_MIN_LEN {
        return Err(GpuFault::MalformedIdentity);
    }
    let class = text::slice_chars(&m, 44, 46);
    let display_class = text::chars_of("03");
    if !text::same_chars(&class, &display_class) {
        proof {
            assert(modalias_class(m@) == class@);
        }
        return Ok(None);
    }
    if ignore_disabled {
        match &dev.enable {
            None => return Ok(None),
            Some(e) => {
                let t = text::trim_chars(&text::chars_of(e.as_str()));
                if text::same_chars(&t, &text::chars_of("0")) {
                    return Ok(None);
                }
            },
        }
    }
    let mut gpu = GPUInfo::new();
    if info_flags & GPU_INFOFLAG_MODEL != 0 || info_flags & GPU_INFOFLAG_VENDOR != 0 {
        let vendor_id = text::slice_chars(&m, 9, 13);
        let device_id = text::slice_chars(&m, 18, 22);
        let device_str = text::string_of(&device_id);
        let vendor_str = text::string_of(&vendor_id);
        if text::same_chars(&vendor_id, &text::chars_of("1002")) && amd_accuracy {
            gpu.vendor = "Advanced Micro Devices, Inc. [AMD/ATI]".to_string();
            let revision_id = match &dev.revision {
                None => None,
                Some(r) => {
                    let rc = text::chars_of(r.as_str());
                    if rc.len() < 2 {
                        None
                    } else {
                        Some(text::string_of(&text::trim_chars(&text::slice_chars(&rc, 2, rc.len()))))
                    }
                },
            };
            if let Some(revision_id) = revision_id {
                match amd_ids {
                    None => return Err(GpuFault::MissingAmdDatabase),
                    Some(db) => {
                        if let Some(r) = search_amd_model(db, device_str.as_str(), revision_id.as_str()) {
                            gpu.model = r;
                        }
                    },
                }
            }
        }
        if gpu.model == unknown_string() {
            match pci_ids {
                None => return Err(GpuFault::MissingPciDatabase),
                Some(db) => {
                    let (v, d) = search_pci_ids(db, vendor_str.as_str(), device_str.as_str());
                    gpu.vendor = v;
                    gpu.model = d;
                },
            }
        }
    }
    if info_flags & GPU_INFOFLAG_VRAM != 0 {
        if let Some(r) = &dev.vram_total {
            let t = text::trim_chars(&text::chars_of(r.as_str()));
            match text::parse_u64(&t) {
                None => return Err(GpuFault::MalformedVram),
                Some(bytes) => {
                    let mb = bytes / BYTES_PER_MB;
                    if mb > u32::MAX as u64 {
                        return Err(GpuFault::VramTooLarge);
                    }
                    gpu.vram_mb = mb as u32;
                },
            }
        }
    }
    Ok(Some(gpu))
}

/// The views of a sequence of GPU records.
pub open spec fn records(v: Seq<GPUInfo>) -> Seq<GpuRecord> {
    v.map_values(|g: GPUInfo| g@)
}

/// The records of a device tree scanned in order, or the first fault met.
pub open spec fn gpus_of(
    devs: Seq<PciDevice>,
    amd_accuracy: bool,
    ignore_disabled: bool,
    flags: u32,
    pci: Option<Seq<char>>,
    amd: Option<Seq<char>>,
) -> Result<Seq<GpuRecord>, GpuFault>
    decreases devs.len(),
{
    if devs.len() == 0 {
        Ok(Seq::empty())
    } else {
        match gpus_of(devs.drop_last(), amd_accuracy, ignore_disabled, flags, pci, amd) {
            Err(e) => Err(e),
            Ok(prev) => match device_of(devs.last(), amd_accuracy, ignore_disabled, flags, pci, amd) {
                Err(e) => Err(e),
                Ok(None) => Ok(prev),
                Ok(Some(g)) => Ok(prev.push(g)),
            },
        }
    }
}

/// The index of the GPU at position `i` of the scan: the position itself,
/// where it fits in a `u8`.
pub open spec fn index_at(i: int) -> Option<u8> {
    if i < 256 {
        Some(i as u8)
    } else {
        None
    }
}

/// The GPUs of a device tree under the configuration: the records of
/// `gpus_of` for the template's plan, each indexed by its position.
pub open spec fn get_gpus_spec(
    config: GPUConfiguration,
    devs: Seq<PciDevice>,
    pci: Option<Seq<char>>,
    amd: Option<Seq<char>>,
) -> Result<Seq<GpuRecord>, GpuFault> {
    match gpus_of(
        devs,
        config.amd_accuracy,
        config.ignore_disabled_gpus,
        info_flags_of(config.format@),
        pci,
        amd,
    ) {
        Err(e) => Err(e),
        Ok(s) => Ok(s.map(|i: int, g: GpuRecord| GpuRecord { index: index_at(i), ..g })),
    }
}

/// Whether `r` is what `get_gpus` owes for the outcome `s`.
pub open spec fn gpus_result_matches(
    r: Result<Vec<GPUInfo>, ModuleError>,
    s: Result<Seq<GpuRecord>, GpuFault>,
) -> bool {
    match (r, s) {
        (Ok(v), Ok(recs)) => v@.len() == recs.len() && forall|i: int|
            0 <= i < v@.len() ==> (#[trigger] v@[i])@ == recs[i],
        (Err(e), Err(f)) => e.module@ == "GPU"@ && e.message@ == fault_message(f),
        _ => false,
    }
}

/// Resolves the GPUs of a scanned device tree, given the text of the PCI id
/// and AMD GPU-id databases where they were found.
///
/// Unlike the records of a single entry, which carry no index, each GPU
/// returned here has its index set to its position among the GPUs found,
/// once the whole tree has been scanned; the 257th GPU and later ones, whose
/// positions do not fit the index, are left without one.
pub fn get_gpus(
    config: &GPUConfiguration,
    devices: &Vec<PciDevice>,
    pci_ids: Option<&str>,
    amd_ids: Option<&str>,
) -> (r: Result<Vec<GPUInfo>, ModuleError>)
    ensures
        gpus_result_matches(
            r,
            get_gpus_spec(*config, devices@, text::opt_str(pci_ids), text::opt_str(amd_ids)),
        ),
{
    let info_flags: u32 = GPUInfo::gen_info_flags(config.format.as_str());
    let ghost pci = text::opt_str(pci_ids);
    let ghost amd = text::opt_str(amd_ids);
    let mut gpus: Vec<GPUInfo> = Vec::new();
    let mut i: usize = 0;
    assert(devices@.take(0) =~= Seq::<PciDevice>::empty());
    assert(records(gpus@) =~= Seq::<GpuRecord>::empty());
    while i < devices.len()
        invariant
            i <= devices@.len(),
            info_flags == info_flags_of(config.format@),
            pci == text::opt_str(pci_ids),
            amd == text::opt_str(amd_ids),
            gpus@.len() <= i,
            forall|j: int| 0 <= j < gpus@.len() ==> (#[trigger] gpus@[j])@.index is None,
            gpus_of(
                devices@.take(i as int),
                config.amd_accuracy,
                config.ignore_disabled_gpus,
                info_flags,
                pci,
                amd,
            ) == Ok::<Seq<GpuRecord>, GpuFault>(records(gpus@)),
        decreases devices@.len() - i,
    {
        assert(devices@.take(i + 1).drop_last() =~= devices@.take(i as int));
        let ghost prev = records(gpus@);
        let ghost dev = devices@[i as int];
        let d = &devices[i];
        match resolve_device(
            d,
            config.amd_accuracy,
            config.ignore_disabled_gpus,
            info_flags,
            pci_ids,
            amd_ids,
        ) {
            Err(f) => {
                proof {
                    assert(device_of(dev, config.amd_accuracy, config.ignore_disabled_gpus, info_flags, pci, amd) == Err::<Option<GpuRecord>, GpuFault>(f));
                    lemma_gpus_of_err(
                        devices@,
                        i as int,
                        config.amd_accuracy,
                        config.ignore_disabled_gpus,
                        info_flags,
                        pci,
                        amd,
                    );
                }
                return Err(fault_error(f));
            },
            Ok(None) => {},
            Ok(Some(g)) => {
                gpus.push(g);
                assert(records(gpus@) =~= prev.push(g@));
            },
        }
        i = i + 1;
    }
    assert(devices@.take(i as int) =~= devices@);
    let ghost recs = records(gpus@);
    assert(recs.len() == gpus.len());
    let mut out: Vec<GPUInfo> = Vec::new();
    let mut k: usize = 0;
    while gpus.len() > 0
        invariant
            k + gpus@.len() == recs.len(),
            recs.len() <= usize::MAX,
            forall|j: int| 0 <= j < recs.len() ==> (#[trigger] recs[j]).index is None,
            forall|j: int| 0 <= j < gpus@.len() ==> (#[trigger] gpus@[j])@ == recs[k + j],
            out@.len() == k,
            forall|j: int|
                0 <= j < k ==> (#[trigger] out@[j])@ == (GpuRecord { index: index_at(j), ..recs[j] }),
        decreases gpus@.len(),
    {
        let ghost before = gpus@;
        let mut g = gpus.remove(0);
        assert(g@ == recs[k as int]);
        if k < 256 {
            g.set_index(k as u8);
        }
        out.push(g);
        assert forall|j: int| 0 <= j < gpus@.len() implies (#[trigger] gpus@[j])@ == recs[k + 1 + j] by {
            assert(gpus@[j] == before[j + 1]);
        }
        k = k + 1;
    }
    Ok(out)
}

/// A fault at one entry is the fault of the whole scan.
proof fn lemma_gpus_of_err(
    devs: Seq<PciDevice>,
    i: int,
    amd_accuracy: bool,
    ignore_disabled: bool,
    flags: u32,
    pci: Option<Seq<char>>,
    amd: Option<Seq<char>>,
)
    requires
        0 <= i < devs.len(),
        gpus_of(devs.take(i), amd_accuracy, ignore_disabled, flags, pci, amd) is Ok,
        device_of(devs[i], amd_accuracy, ignore_disabled, flags, pci, amd) is Err,
    ensures
        gpus_of(devs, amd_accuracy, ignore_disabled, flags, pci, amd) == Err::<Seq<GpuRecord>, GpuFault>(
            device_of(devs[i], amd_accuracy, ignore_disabled, flags, pci, amd)->Err_0,
        ),
{
    assert(devs.take(i + 1).drop_last() =~= devs.take(i));
    lemma_gpus_of_err_extends(devs, i + 1, amd_accuracy, ignore_disabled, flags, pci, amd);
}

/// Once the scan has failed, later entries change nothing.
proof fn lemma_gpus_of_err_extends(
    devs: Seq<PciDevice>,
    k: int,
    amd_accuracy: bool,
    ignore_disabled: bool,
    flags: u32,
    pci: Option<Seq<char>>,
    amd: Option<Seq<char>>,
)
    requires
        0 <= k <= devs.len(),
        gpus_of(devs.take(k), amd_accuracy, ignore_disabled, flags, pci, amd) is Err,
    ensures
        gpus_of(devs, amd_accuracy, ignore_disabled, flags, pci, amd) == gpus_of(
            devs.take(k),
            amd_accuracy,
            ignore_disabled,
            flags,
            pci,
            amd,
        ),
    decreases devs.len() - k,
{
    if k < devs.len() {
        assert(devs.take(k + 1).drop_last() =~= devs.take(k));
        lemma_gpus_of_err_extends(devs, k + 1, amd_accuracy, ignore_disabled, flags, pci, amd);
    } else {
        assert(devs.take(k) =~= devs);
    }
}

/// The tag under which a detection method stores its cache.
pub open spec fn method_tag(m: GPUMethod) -> Seq<char> {
    match m {
        GPUMethod::GLXInfo => "glxinfo"@,
        GPUMethod::PCISysFile => "pcisysfile"@,
    }
}

impl GPUMethod {
    /// The method's name, which is also its cache tag.
    pub fn to_string(&self) -> (r: String)
        ensures
            r@ == method_tag(*self),
    {
        match self {
            GPUMethod::GLXInfo => "glxinfo".to_string(),
            GPUMethod::PCISysFile => "pcisysfile".to_string(),
        }
    }
}

/// The detection method: the one named on the command line if any (an
/// unknown name means the device-tree scan), else the configured one.
pub open spec fn method_of(configured: GPUMethod, arg: Option<Seq<char>>) -> GPUMethod {
    match arg {
        None => configured,
        Some(a) => if a == "glxinfo"@ {
            GPUMethod::GLXInfo
        } else {
            GPUMethod::PCISysFile
        },
    }
}

/// Picks the detection method.
pub fn select_method(configured: GPUMethod, arg: Option<&str>) -> (r: GPUMethod)
    ensures
        r == method_of(configured, text::opt_str(arg)),
{
    match arg {
        None => configured,
        Some(a) => if text::same_chars(&text::chars_of(a), &text::chars_of("glxinfo")) {
            GPUMethod::GLXInfo
        } else {
            GPUMethod::PCISysFile
        },
    }
}

/// The cache artifact for a record: method tag, vendor, model and VRAM size
/// in decimal, one per line.
pub open spec fn cache_text(m: GPUMethod, g: GpuRecord) -> Seq<char> {
    method_tag(m) + seq!['\n'] + g.vendor + seq!['\n'] + g.model + seq!['\n'] + text::decimal(
        g.vram_mb as nat,
    )
}

/// The record a cache artifact holds for method `m`: none unless its first
/// line is `m`'s tag and the vendor, model and VRAM lines follow, the last a
/// 32-bit decimal number.
pub open spec fn cached_record(contents: Seq<char>, m: GPUMethod) -> Option<GpuRecord> {
    let lines = text::split_on(contents, '\n');
    if lines.len() >= 4 && lines[0] == method_tag(m) {
        match text::parse_u64_spec(lines[3]) {
            Some(v) => if v <= u32::MAX {
                Some(GpuRecord { index: None, vendor: lines[1], model: lines[2], vram_mb: v as u32 })
            } else {
                None
            },
            None => None,
        }
    } else {
        None
    }
}

/// The text of the cache artifact for `gpu` under method `method`.
pub fn gpu_cache_contents(method: GPUMethod, gpu: &GPUInfo) -> (r: String)
    ensures
        r@ == cache_text(method, gpu@),
{
    let nl: Vec<char> = vec!['\n'];
    let tag = text::chars_of(method.to_string().as_str());
    let vendor = text::chars_of(gpu.vendor.as_str());
    let model = text::chars_of(gpu.model.as_str());
    let vram = text::decimal_chars(gpu.vram_mb as u64);
    let out = text::concat(
        &text::concat(&text::concat(&text::concat(&text::concat(&text::concat(&tag, &nl), &vendor), &nl), &model), &nl),
        &vram,
    );
    assert(nl@ =~= seq!['\n']);
    text::string_of(&out)
}

/// Reads a cache artifact written for method `method`.
pub fn parse_gpu_cache(contents: &str, method: GPUMethod) -> (r: Option<GPUInfo>)
    ensures
        match r {
            Some(g) => cached_record(contents@, method) == Some(g@),
            None => cached_record(contents@, method) is None,
        },
{
    let lines = text::split_chars(&text::chars_of(contents), '\n');
    let ghost ls = text::views(lines@);
    if lines.len() < 4 {
        return None;
    }
    assert(ls[0] == lines@[0]@ && ls[1] == lines@[1]@ && ls[2] == lines@[2]@ && ls[3]
        == lines@[3]@);
    let tag = text::chars_of(method.to_string().as_str());
    if !text::same_chars(&lines[0], &tag) {
        return None;
    }
    match text::parse_u64(&lines[3]) {
        None => None,
        Some(v) => if v <= u32::MAX as u64 {
            Some(
                GPUInfo {
                    index: None,
                    vendor: text::string_of(&lines[1]),
                    model: text::string_of(&lines[2]),
                    vram_mb: v as u32,
                },
            )
        } else {
            None
        },
    }
}

/// What to do about the cache before resolving.
pub enum CacheDecision {
    /// The artifact holds a record for the current method: use it, resolve
    /// nothing.
    Use(GPUInfo),
    /// Resolve; if `remove_stale`, the artifact is corrupt or belongs to
    /// another method and is deleted first.
    Resolve { remove_stale: bool },
}

/// Whether the cache is in use: enabled in the configuration and not
/// bypassed on the command line.
pub open spec fn cache_in_use(config_cache: bool, ignore_cache: bool) -> bool {
    config_cache && !ignore_cache
}

/// The view of a cache decision: the record to use, or whether to delete
/// the artifact before resolving.
pub open spec fn decision_view(d: CacheDecision) -> Result<GpuRecord, bool> {
    match d {
        CacheDecision::Use(g) => Ok(g@),
        CacheDecision::Resolve { remove_stale } => Err(remove_stale),
    }
}

/// The decision owed for a cache artifact `cache` (`None` where there is
/// none; an unreadable one is given as empty text).
pub open spec fn cache_decision_of(
    method: GPUMethod,
    config_cache: bool,
    ignore_cache: bool,
    cache: Option<Seq<char>>,
) -> Result<GpuRecord, bool> {
    if !cache_in_use(config_cache, ignore_cache) {
        Err(false)
    } else {
        match cache {
            None => Err(false),
            Some(c) => match cached_record(c, method) {
                Some(g) => Ok(g),
                None => Err(true),
            },
        }
    }
}

/// Decides, before resolving, whether the cache artifact answers for the
/// current method.
pub fn check_gpu_cache(
    method: GPUMethod,
    config_cache: bool,
    ignore_cache: bool,
    cache: Option<&str>,
) -> (r: CacheDecision)
    ensures
        decision_view(r) == cache_decision_of(
            method,
            config_cache,
            ignore_cache,
            text::opt_str(cache),
        ),
{
    if !config_cache || ignore_cache {
        return CacheDecision::Resolve { remove_stale: false };
    }
    match cache {
        None => CacheDecision::Resolve { remove_stale: false },
        Some(c) => match parse_gpu_cache(c, method) {
            Some(g) => CacheDecision::Use(g),
            None => CacheDecision::Resolve { remove_stale: true },
        },
    }
}

/// The artifact to write after resolving `gpu`, if the cache is in use.
pub fn cache_to_write(
    method: GPUMethod,
    config_cache: bool,
    ignore_cache: bool,
    gpu: &GPUInfo,
) -> (r: Option<String>)
    ensures
        text::opt_view(r) == (if cache_in_use(config_cache, ignore_cache) {
            Some(cache_text(method, gpu@))
        } else {
            None
        }),
{
    if config_cache && !ignore_cache {
        Some(gpu_cache_contents(method, gpu))
    } else {
        None
    }
}

/// A method tag is a single line.
proof fn lemma_tag_single_line(m: GPUMethod)
    ensures
        !method_tag(m).contains('\n'),
        method_tag(m).len() > 0,
{
    reveal_strlit("glxinfo");
    reveal_strlit("pcisysfile");
    if method_tag(m).contains('\n') {
        let k = choose|k: int| 0 <= k < method_tag(m).len() && method_tag(m)[k] == '\n';
        assert(method_tag(m)[k] != '\n');
    }
}

/// The lines of a cache artifact.
proof fn lemma_cache_lines(m: GPUMethod, g: GpuRecord)
    requires
        !g.vendor.contains('\n'),
        !g.model.contains('\n'),
    ensures
        text::split_on(cache_text(m, g), '\n') == seq![
            method_tag(m),
            g.vendor,
            g.model,
            text::decimal(g.vram_mb as nat),
        ],
{
    let nl = seq!['\n'];
    let t = method_tag(m);
    let d = text::decimal(g.vram_mb as nat);
    lemma_tag_single_line(m);
    text::lemma_decimal_no_newline(g.vram_mb as nat);
    text::lemma_split_single(t, '\n');
    text::lemma_split_single(g.vendor, '\n');
    text::lemma_split_single(g.model, '\n');
    text::lemma_split_single(d, '\n');
    let a = t + nl + g.vendor;
    let b = a + nl + g.model;
    text::lemma_split_join(t, g.vendor, '\n');
    text::lemma_split_join(a, g.model, '\n');
    text::lemma_split_join(b, d, '\n');
    assert(cache_text(m, g) =~= b + nl + d);
    assert(text::split_on(cache_text(m, g), '\n') =~= seq![t, g.vendor, g.model, d]);
}

/// Writing a record to the cache and reading it back under the same method
/// gives the same vendor, model and VRAM size, and nothing is resolved; the
/// record's lines must hold no line break.
pub proof fn lemma_cache_round_trip(m: GPUMethod, g: GpuRecord)
    requires
        !g.vendor.contains('\n'),
        !g.model.contains('\n'),
    ensures
        cache_decision_of(m, true, false, Some(cache_text(m, g))) == Ok::<GpuRecord, bool>(
            GpuRecord { index: None, ..g },
        ),
{
    lemma_cache_lines(m, g);
    text::lemma_decimal_parses(g.vram_mb as nat);
}

/// A cache artifact whose first line is not the current method's tag is
/// never used: it is deleted and the GPU is resolved afresh.
pub proof fn lemma_cache_method_mismatch(m: GPUMethod, contents: Seq<char>)
    requires
        text::split_on(contents, '\n')[0] != method_tag(m),
    ensures
        cache_decision_of(m, true, false, Some(contents)) == Err::<GpuRecord, bool>(true),
{
}

/// A record cached under one method is never returned for another.
pub proof fn lemma_cache_other_method(written: GPUMethod, current: GPUMethod, g: GpuRecord)
    requires
        written != current,
        !g.vendor.contains('\n'),
        !g.model.contains('\n'),
    ensures
        cache_decision_of(current, true, false, Some(cache_text(written, g))) == Err::<
            GpuRecord,
            bool,
        >(true),
{
    lemma_cache_lines(written, g);
    reveal_strlit("glxinfo");
    reveal_strlit("pcisysfile");
    assert(method_tag(written).len() != method_tag(current).len());
}

/// One trimmed line of `glxinfo -B` output applied to a record: the vendor
/// string, the renderer (up to its first parenthesis, without the vendor's
/// name) and the dedicated video memory in MB (0 where it does not parse).
pub open spec fn glx_step(g: GpuRecord, raw: Seq<char>) -> GpuRecord {
    let line = text::trim(raw);
    if text::has_prefix(line, "OpenGL vendor string:"@) {
        if line.len() >= 22 {
            GpuRecord { vendor: line.skip(22), ..g }
        } else {
            g
        }
    } else if text::has_prefix(line, "OpenGL renderer string:"@) {
        let k = text::index_of(line, '(');
        if k >= 24 {
            GpuRecord {
                model: text::trim(text::replace_all(line.subrange(24, k), g.vendor, Seq::empty())),
                ..g
            }
        } else {
            g
        }
    } else if text::has_prefix(line, "Dedicated video memory:"@) {
        GpuRecord {
            vram_mb: if line.len() >= 27 {
                match text::parse_u64_spec(line.subrange(24, line.len() - 3)) {
                    Some(v) => if v <= u32::MAX {
                        v as u32
                    } else {
                        0
                    },
                    None => 0,
                }
            } else {
                0
            },
            ..g
        }
    } else {
        g
    }
}

/// The record after applying `lines` in order.
pub open spec fn glx_scan(lines: Seq<Seq<char>>) -> GpuRecord
    decreases lines.len(),
{
    if lines.len() == 0 {
        default_record()
    } else {
        glx_step(glx_scan(lines.drop_last()), lines.last())
    }
}

/// The GPU that the output of `glxinfo -B` describes.
pub fn parse_glxinfo(contents: &str) -> (r: GPUInfo)
    ensures
        r@ == glx_scan(text::split_on(contents@, '\n')),
{
    let lines = text::split_chars(&text::chars_of(contents), '\n');
    let ghost ls = text::views(lines@);
    let vendor_key = text::chars_of("OpenGL vendor string:");
    let renderer_key = text::chars_of("OpenGL renderer string:");
    let memory_key = text::chars_of("Dedicated video memory:");
    let mut gpu = GPUInfo::new();
    let mut i: usize = 0;
    assert(ls.take(0) =~= Seq::<Seq<char>>::empty());
    while i < lines.len()
        invariant
            i <= lines@.len(),
            ls == text::views(lines@),
            ls == text::split_on(contents@, '\n'),
            vendor_key@ == "OpenGL vendor string:"@,
            renderer_key@ == "OpenGL renderer string:"@,
            memory_key@ == "Dedicated video memory:"@,
            gpu@ == glx_scan(ls.take(i as int)),
        decreases lines@.len() - i,
    {
        assert(ls.take(i + 1).drop_last() =~= ls.take(i as int));
        assert(ls[i as int] == lines@[i as int]@);
        let line = text::trim_chars(&lines[i]);
        if text::starts_with(&line, &vendor_key) {
            if line.len() >= 22 {
                gpu.vendor = text::string_of(&text::slice_chars(&line, 22, line.len()));
                assert(line@.subrange(22, line@.len() as int) =~= line@.skip(22));
            }
        } else if text::starts_with(&line, &renderer_key) {
            match text::find_char(&line, '(') {
                Some(k) => if k >= 24 {
                    let name = text::slice_chars(&line, 24, k);
                    let vendor = text::chars_of(gpu.vendor.as_str());
                    let empty: Vec<char> = Vec::new();
                    let stripped = text::replace_chars(&name, &vendor, &empty);
                    assert(empty@ =~= Seq::<char>::empty());
                    gpu.model = text::string_of(&text::trim_chars(&stripped));
                },
                None => {},
            }
        } else if text::starts_with(&line, &memory_key) {
            let mut vram: u32 = 0;
            if line.len() >= 27 {
                match text::parse_u64(&text::slice_chars(&line, 24, line.len() - 3)) {
                    Some(v) => if v <= u32::MAX as u64 {
                        vram = v as u32;
                    },
                    None => {},
                }
            }
            gpu.vram_mb = vram;
        }
        i = i + 1;
    }
    assert(ls.take(i as int) =~= ls);
    gpu
}

/// The divisor between byte units: 1024 for binary units, else 1000.
pub open spec fn unit_base(ibis: bool) -> nat {
    if ibis {
        1024
    } else {
        1000
    }
}

/// The largest unit step (0 kilo, 1 mega, 2 giga, 3 tera) that a size of
/// `kb` kilobytes reaches.
pub open spec fn unit_step(kb: nat, d: nat) -> nat {
    if kb >= d * d * d {
        3
    } else if kb >= d * d {
        2
    } else if kb >= d {
        1
    } else {
        0
    }
}

/// `d` to the power `k`, for `k` at most 3.
pub open spec fn step_divisor(d: nat, k: nat) -> nat {
    if k == 3 {
        d * d * d
    } else if k == 2 {
        d * d
    } else if k == 1 {
        d
    } else {
        1
    }
}

/// The name of unit step `k`.
pub open spec fn unit_name(k: nat, ibis: bool) -> Seq<char> {
    if ibis {
        if k == 3 {
            "TiB"@
        } else if k == 2 {
            "GiB"@
        } else if k == 1 {
            "MiB"@
        } else {
            "KiB"@
        }
    } else {
        if k == 3 {
            "TB"@
        } else if k == 2 {
            "GB"@
        } else if k == 1 {
            "MB"@
        } else {
            "KB"@
        }
    }
}

/// `n / p` rounded to the nearest whole number, halves upwards.
pub open spec fn div_round(n: nat, p: nat) -> nat
    recommends
        p > 0,
{
    n / p + if 2 * (n % p) >= p {
        1nat
    } else {
        0nat
    }
}

/// A size of `kb` kilobytes in the largest unit it reaches, rounded to a
/// whole number: "8 GB", "977 MiB".
pub open spec fn bytes_text(kb: nat, ibis: bool) -> Seq<char> {
    let k = unit_step(kb, unit_base(ibis));
    text::decimal(div_round(kb, step_divisor(unit_base(ibis), k))) + seq![' '] + unit_name(k, ibis)
}

/// Formats a size given in kilobytes with an automatically chosen unit.
pub fn auto_format_bytes(kilobytes: u64, ibis: bool) -> (r: String)
    ensures
        r@ == bytes_text(kilobytes as nat, ibis),
{
    let d: u64 = if ibis {
        1024
    } else {
        1000
    };
    let (p, unit): (u64, &str) = if kilobytes >= d * d * d {
        (d * d * d, if ibis {
            "TiB"
        } else {
            "TB"
        })
    } else if kilobytes >= d * d {
        (d * d, if ibis {
            "GiB"
        } else {
            "GB"
        })
    } else if kilobytes >= d {
        (d, if ibis {
            "MiB"
        } else {
            "MB"
        })
    } else {
        (1, if ibis {
            "KiB"
        } else {
            "KB"
        })
    };
    let q = kilobytes / p;
    let rem = kilobytes % p;
    let n = if rem >= p - rem {
        assert(p >= 2);
        assert(q <= kilobytes / 2) by (nonlinear_arith)
            requires
                p >= 2,
                q == kilobytes / p,
        ;
        q + 1
    } else {
        q
    };
    assert(2 * (kilobytes as nat % p as nat) >= p <==> rem >= p - rem);
    let space: Vec<char> = vec![' '];
    assert(space@ =~= seq![' ']);
    let out = text::concat(&text::concat(&text::decimal_chars(n), &space), &text::chars_of(unit));
    text::string_of(&out)
}

impl GPUInfo {
    /// `text` with `{vendor}`, `{model}`, `{vram}` and `{index}` replaced by
    /// the record's fields, in that order.
    pub fn replace_placeholders(&self, text: &str, use_ibis: bool) -> (r: String)
        ensures
            r@ == placeholders_text(self@, text@, use_ibis),
    {
        let t = text::chars_of(text);
        let t = text::replace_chars(&t, &text::chars_of("{vendor}"), &text::chars_of(self.vendor.as_str()));
        let t = text::replace_chars(&t, &text::chars_of("{model}"), &text::chars_of(self.model.as_str()));
        let vram = auto_format_bytes(self.vram_mb as u64 * 1000, use_ibis);
        let t = text::replace_chars(&t, &text::chars_of("{vram}"), &text::chars_of(vram.as_str()));
        let index: u8 = match self.index {
            Some(i) => i,
            None => 0,
        };
        let t = text::replace_chars(&t, &text::chars_of("{index}"), &text::decimal_chars(index as u64));
        text::string_of(&t)
    }

    /// The title and value of this GPU's line: the configured templates with
    /// the fields filled in; binary units unless the configuration says
    /// otherwise, falling back to `default_ibis`.
    pub fn style(&self, config: &GPUConfiguration, default_ibis: bool) -> (r: (String, String))
        ensures
            r.0@ == placeholders_text(self@, config.title@, ibis_of(config.use_ibis, default_ibis)),
            r.1@ == placeholders_text(self@, config.format@, ibis_of(config.use_ibis, default_ibis)),
    {
        let use_ibis = match config.use_ibis {
            Some(b) => b,
            None => default_ibis,
        };
        (self.replace_placeholders(config.title.as_str(), use_ibis), self.replace_placeholders(config.format.as_str(), use_ibis))
    }

    /// The title and value shown when the GPU could not be resolved: the
    /// title with every field "Unknown" and index 0, and the value "Unknown".
    pub fn unknown_output(config: &GPUConfiguration) -> (r: (String, String))
        ensures
            r.0@ == unknown_title(config.title@),
            r.1@ == unknown_text(),
    {
        let unknown = text::chars_of("Unknown");
        let t = text::chars_of(config.title.as_str());
        let t = text::replace_chars(&t, &text::chars_of("{vendor}"), &unknown);
        let t = text::replace_chars(&t, &text::chars_of("{model}"), &unknown);
        let t = text::replace_chars(&t, &text::chars_of("{vram}"), &unknown);
        let t = text::replace_chars(&t, &text::chars_of("{index}"), &text::chars_of("0"));
        proof {
            reveal_strlit("Unknown");
        }
        assert(unknown@ =~= unknown_text());
        (text::string_of(&t), unknown_string())
    }
}

/// Whether binary units are used: the module's choice, else the default.
pub open spec fn ibis_of(module: Option<bool>, default_ibis: bool) -> bool {
    match module {
        Some(b) => b,
        None => default_ibis,
    }
}

/// A template with the record's fields filled in.
pub open spec fn placeholders_text(g: GpuRecord, t: Seq<char>, ibis: bool) -> Seq<char> {
    let t1 = text::replace_all(t, "{vendor}"@, g.vendor);
    let t2 = text::replace_all(t1, "{model}"@, g.model);
    let t3 = text::replace_all(t2, "{vram}"@, bytes_text(g.vram_mb as nat * 1000, ibis));
    text::replace_all(
        t3,
        "{index}"@,
        text::decimal(
            match g.index {
                Some(i) => i as nat,
                None => 0,
            },
        ),
    )
}

/// A title template with every field "Unknown" and index 0.
pub open spec fn unknown_title(t: Seq<char>) -> Seq<char> {
    let t1 = text::replace_all(t, "{vendor}"@, unknown_text());
    let t2 = text::replace_all(t1, "{model}"@, unknown_text());
    let t3 = text::replace_all(t2, "{vram}"@, unknown_text());
    text::replace_all(t3, "{index}"@, "0"@)
}

impl GPUInfo {
    /// The vendor name.
    pub fn vendor(&self) -> (r: &String)
        ensures
            r@ == self@.vendor,
    {
        &self.vendor
    }

    /// The model name.
    pub fn model(&self) -> (r: &String)
        ensures
            r@ == self@.model,
    {
        &self.model
    }

    /// The VRAM size in MB; 0 where unknown.
    pub fn vram_mb(&self) -> (r: u32)
        ensures
            r == self@.vram_mb,
    {
        self.vram_mb
    }

    /// The position of this GPU in the scan, once assigned.
    pub fn index(&self) -> (r: Option<u8>)
        ensures
            r == self@.index,
    {
        self.index
    }
}

/// A device whose identity string names a base class other than `03`
/// contributes nothing, whatever its other attributes and the options.
pub proof fn lemma_non_display_excluded(
    dev: PciDevice,
    amd_accuracy: bool,
    ignore_disabled: bool,
    flags: u32,
    pci: Option<Seq<char>>,
    amd: Option<Seq<char>>,
)
    requires
        dev.modalias is Some,
        dev.modalias->0@.len() >= MODALIAS_MIN_LEN,
        modalias_class(dev.modalias->0@) != "03"@,
    ensures
        device_of(dev, amd_accuracy, ignore_disabled, flags, pci, amd) == Ok::<
            Option<GpuRecord>,
            GpuFault,
        >(None),
{
}

/// A device of base class `03` that is not skipped as disabled is kept: it
/// gives a record unless one of its lookups fails.
pub proof fn lemma_display_included(
    dev: PciDevice,
    amd_accuracy: bool,
    ignore_disabled: bool,
    flags: u32,
    pci: Option<Seq<char>>,
    amd: Option<Seq<char>>,
)
    requires
        dev.modalias is Some,
        dev.modalias->0@.len() >= MODALIAS_MIN_LEN,
        modalias_class(dev.modalias->0@) == "03"@,
        !ignore_disabled || (dev.enable is Some && text::trim(dev.enable->0@) != "0"@),
    ensures
        device_of(dev, amd_accuracy, ignore_disabled, flags, pci, amd) != Ok::<
            Option<GpuRecord>,
            GpuFault,
        >(None),
{
}

/// With disabled devices ignored, a device whose `enable` attribute reads
/// "0" contributes nothing, even where its class is a display controller's.
pub proof fn lemma_disabled_excluded(
    dev: PciDevice,
    amd_accuracy: bool,
    flags: u32,
    pci: Option<Seq<char>>,
    amd: Option<Seq<char>>,
)
    requires
        dev.modalias is Some ==> dev.modalias->0@.len() >= MODALIAS_MIN_LEN,
        dev.enable is Some,
        text::trim(dev.enable->0@) == "0"@,
    ensures
        device_of(dev, amd_accuracy, true, flags, pci, amd) == Ok::<Option<GpuRecord>, GpuFault>(
            None,
        ),
{
}

/// Whether the other attributes of an entry with identity string
/// `modalias` can matter: they cannot where its base class is not a display
/// controller's (see `lemma_non_display_excluded`), so a scan need not read
/// them.
pub fn is_display_candidate(modalias: &str) -> (r: bool)
    ensures
        r == (modalias@.len() < MODALIAS_MIN_LEN || modalias_class(modalias@) == "03"@),
{
    let m = text::chars_of(modalias);
    if m.len() < MODALIAS_MIN_LEN {
        return true;
    }
    let class = text::slice_chars(&m, 44, 46);
    text::same_chars(&class, &text::chars_of("03"))
}

/// Whether the cache is in use.
pub fn cache_enabled(config_cache: bool, ignore_cache: bool) -> (r: bool)
    ensures
        r == cache_in_use(config_cache, ignore_cache),
{
    config_cache && !ignore_cache
}

} // verus!
