//! The GPUs of the host: how many there are and which stack they belong to.
use vstd::prelude::*;

use crate::text;

verus! {

/// Which GPU stack the host exposes, used to pick the right device-isolation
/// environment variable when launching jobs.
#[derive(Debug, Clone, Copy, PartialEq, Eq, Structural)]
pub enum Vendor {
    Nvidia,
    Amd,
    /// No GPUs detected (or detection failed). GPU jobs cannot run.
    NoGpu,
}

/// Total number of usable GPUs and the stack they belong to.
#[derive(Debug, Clone, Copy, PartialEq, Eq, Structural)]
pub struct GpuInfo {
    pub count: u32,
    pub vendor: Vendor,
}

/// The vendor that a name stands for, whatever its case and the white space
/// around it.
pub open spec fn vendor_named(s: Seq<char>) -> Option<Vendor> {
    let name = text::ascii_lowered(text::trimmed(s));
    if name == "nvidia"@ || name == "cuda"@ {
        Some(Vendor::Nvidia)
    } else if name == "amd"@ || name == "rocm"@ || name == "hip"@ {
        Some(Vendor::Amd)
    } else if name == "none"@ {
        Some(Vendor::NoGpu)
    } else {
        None
    }
}

impl Vendor {
    /// The names of the variables that restrict a process to some GPUs.
    pub open spec fn device_variables(self) -> Seq<Seq<char>> {
        match self {
            Vendor::Nvidia => seq!["CUDA_VISIBLE_DEVICES"@],
            Vendor::Amd => seq!["HIP_VISIBLE_DEVICES"@, "ROCR_VISIBLE_DEVICES"@],
            Vendor::NoGpu => Seq::empty(),
        }
    }

    /// Environment variable(s) that restrict a child process to a subset of
    /// GPUs. Every name a vendor honours is listed, so the isolation sticks
    /// regardless of which runtime (CUDA / HIP / ROCr) the job uses.
    pub fn visible_devices_env(self) -> (r: &'static [&'static str])
        ensures
            r@.map_values(|s: &'static str| s@) == self.device_variables(),
    {
        match self {
            Vendor::Nvidia => &["CUDA_VISIBLE_DEVICES"],
            Vendor::Amd => &["HIP_VISIBLE_DEVICES", "ROCR_VISIBLE_DEVICES"],
            Vendor::NoGpu => &[],
        }
    }

    /// The vendor that `s` names, if it names one.
    pub fn parse(s: &str) -> (r: Option<Vendor>)
        ensures
            r == vendor_named(s@),
    {
        let name = text::lower_text(&text::trim_chars(s));
        let name = name.as_str();
        if text::same_text(name, "nvidia") || text::same_text(name, "cuda") {
            Some(Vendor::Nvidia)
        } else if text::same_text(name, "amd") || text::same_text(name, "rocm")
            || text::same_text(name, "hip") {
            Some(Vendor::Amd)
        } else if text::same_text(name, "none") {
            Some(Vendor::NoGpu)
        } else {
            None
        }
    }

    /// The vendor's name, as a person would write it.
    pub fn name(self) -> (r: &'static str)
        ensures
            r@ == self.spec_name(),
    {
        match self {
            Vendor::Nvidia => "Nvidia",
            Vendor::Amd => "Amd",
            Vendor::NoGpu => "None",
        }
    }

    pub open spec fn spec_name(self) -> Seq<char> {
        match self {
            Vendor::Nvidia => "Nvidia"@,
            Vendor::Amd => "Amd"@,
            Vendor::NoGpu => "None"@,
        }
    }
}

// ---------------------------------------------------------------------------
// Detection
// ---------------------------------------------------------------------------

/// What an override of the GPU count asks for: nothing unless the count reads
/// as a number. The vendor defaults to NVIDIA, and a count of zero means no
/// GPUs regardless of the named vendor.
pub open spec fn gpu_override(count: Option<Seq<char>>, vendor: Option<Seq<char>>) -> Option<
    GpuInfo,
> {
    match count {
        None => None,
        Some(text) => match text::parsed_u32(text::trimmed(text)) {
            None => None,
            Some(n) => {
                let named = match vendor {
                    None => None,
                    Some(v) => vendor_named(v),
                };
                Some(
                    GpuInfo {
                        count: n,
                        vendor: if n == 0 {
                            Vendor::NoGpu
                        } else if named is Some {
                            named->0
                        } else {
                            Vendor::Nvidia
                        },
                    },
                )
            },
        },
    }
}

/// What the probes found: NVIDIA GPUs first, then AMD ones, else none.
pub open spec fn gpus_probed(nvidia: Option<u32>, amd: Option<u32>) -> GpuInfo {
    if nvidia is Some {
        GpuInfo { count: nvidia->0, vendor: Vendor::Nvidia }
    } else if amd is Some {
        GpuInfo { count: amd->0, vendor: Vendor::Amd }
    } else {
        GpuInfo { count: 0, vendor: Vendor::NoGpu }
    }
}

/// The GPUs that the values of the two override variables ask for. `None`
/// when the host has to be probed instead.
pub fn override_gpus(count: Option<&str>, vendor: Option<&str>) -> (r: Option<GpuInfo>)
    ensures
        r == gpu_override(
            match count {
                Some(s) => Some(s@),
                None => None,
            },
            match vendor {
                Some(s) => Some(s@),
                None => None,
            },
        ),
{
    let count: u32 = match count {
        None => return None,
        Some(s) => match text::parse_u32(text::trim(s).as_str()) {
            None => return None,
            Some(n) => n,
        },
    };
    let named: Option<Vendor> = match vendor {
        None => None,
        Some(v) => Vendor::parse(v),
    };
    let vendor = if count == 0 {
        Vendor::NoGpu
    } else {
        match named {
            Some(v) => v,
            None => Vendor::Nvidia,
        }
    };
    Some(GpuInfo { count, vendor })
}

/// Detect the GPUs from what was read on this host.
///
/// A GPU count given by the environment (optionally with a vendor, default
/// NVIDIA) short-circuits detection entirely. Otherwise the NVIDIA probe
/// counts, then the AMD probe, falling back to zero GPUs.
pub fn detect(
    count: Option<&str>,
    vendor: Option<&str>,
    nvidia: Option<u32>,
    amd: Option<u32>,
) -> (r: GpuInfo)
    ensures
        r == match gpu_override(
            match count {
                Some(s) => Some(s@),
                None => None,
            },
            match vendor {
                Some(s) => Some(s@),
                None => None,
            },
        ) {
            Some(info) => info,
            None => gpus_probed(nvidia, amd),
        },
{
    if let Some(info) = override_gpus(count, vendor) {
        return info;
    }
    if let Some(count) = nvidia {
        return GpuInfo { count, vendor: Vendor::Nvidia };
    }
    if let Some(count) = amd {
        return GpuInfo { count, vendor: Vendor::Amd };
    }
    GpuInfo { count: 0, vendor: Vendor::NoGpu }
}

/// Whether `prefix` stands at the start of `s`.
pub open spec fn begins_with(s: Seq<char>, prefix: Seq<char>) -> bool {
    prefix.len() <= s.len() && s.take(prefix.len() as int) == prefix
}

/// The index after the line of `s` that starts at `from`: past its line feed,
/// or the end of the text.
pub open spec fn line_end(s: Seq<char>, from: int) -> int
    decreases s.len() - from,
{
    if from >= s.len() {
        s.len() as int
    } else if s[from] == '\n' {
        from
    } else {
        line_end(s, from + 1)
    }
}

/// How many lines of `s[from..]`, without their leading white space, begin
/// with `prefix`. Lines end at a line feed; a last line needs none.
pub open spec fn device_lines(s: Seq<char>, from: int, prefix: Seq<char>) -> nat
    decreases s.len() + 1 - from,
    when 0 <= from
    via device_lines_decreases
{
    if from >= s.len() {
        0
    } else {
        let end = line_end(s, from);
        let here: nat = if begins_with(text::trimmed_start(s.subrange(from, end)), prefix) {
            1
        } else {
            0
        };
        here + device_lines(s, end + 1, prefix)
    }
}

#[via_fn]
proof fn device_lines_decreases(s: Seq<char>, from: int, prefix: Seq<char>) {
    if 0 <= from < s.len() {
        lemma_line_end(s, from);
    }
}

proof fn lemma_line_end(s: Seq<char>, from: int)
    requires
        0 <= from <= s.len(),
    ensures
        from <= line_end(s, from) <= s.len(),
    decreases s.len() - from,
{
    if from < s.len() && s[from] != '\n' {
        lemma_line_end(s, from + 1);
    }
}

proof fn lemma_device_lines_bound(s: Seq<char>, from: int, prefix: Seq<char>)
    requires
        0 <= from,
    ensures
        from <= s.len() ==> device_lines(s, from, prefix) <= s.len() - from,
        from > s.len() ==> device_lines(s, from, prefix) == 0,
    decreases s.len() + 1 - from,
{
    if from < s.len() {
        lemma_line_end(s, from);
        lemma_device_lines_bound(s, line_end(s, from) + 1, prefix);
    }
}

/// Counts the lines of `output` that, without their leading white space, begin
/// with `prefix`.
pub fn count_device_lines(output: &str, prefix: &str) -> (r: usize)
    ensures
        r == device_lines(output@, 0, prefix@),
{
    let chars = text::chars_of(output);
    let mark = text::chars_of(prefix);
    let mut count: usize = 0;
    let mut from: usize = 0;
    proof {
        lemma_device_lines_bound(output@, 0, prefix@);
    }
    while from < chars.len()
        invariant
            chars@ == output@,
            mark@ == prefix@,
            count <= from,
            from <= chars@.len() + 1,
            count + device_lines(output@, from as int, prefix@) == device_lines(
                output@,
                0,
                prefix@,
            ),
            device_lines(output@, 0, prefix@) <= output@.len(),
        decreases chars@.len() - from,
    {
        let mut end = from;
        while end < chars.len() && chars[end] != '\n'
            invariant
                from <= end <= chars@.len(),
                chars@ == output@,
                line_end(output@, from as int) == line_end(output@, end as int),
            ensures
                end == line_end(output@, from as int),
                from <= end <= chars@.len(),
            decreases chars@.len() - end,
        {
            end = end + 1;
        }
        let start = text::skip_white_space(&chars, from, end);
        let ghost line = text::trimmed_start(output@.subrange(from as int, end as int));
        assert(chars@.subrange(start as int, end as int) == line);
        if holds_at(&chars, start, end, &mark) {
            count = count + 1;
        }
        if end == chars.len() {
            assert(device_lines(output@, end + 1, prefix@) == 0);
            return count;
        }
        from = end + 1;
    }
    count
}

/// Whether `chars[from..to]` begins with `mark`.
fn holds_at(chars: &Vec<char>, from: usize, to: usize, mark: &Vec<char>) -> (r: bool)
    requires
        from <= to <= chars@.len(),
    ensures
        r == begins_with(chars@.subrange(from as int, to as int), mark@),
{
    let ghost rest = chars@.subrange(from as int, to as int);
    if mark.len() > to - from {
        return false;
    }
    for i in 0..mark.len()
        invariant
            from <= to <= chars@.len(),
            mark@.len() <= to - from,
            rest == chars@.subrange(from as int, to as int),
            forall|k: int| 0 <= k < i ==> rest[k] == #[trigger] mark@[k],
    {
        if chars[from + i] != mark[i] {
            assert(rest.take(mark@.len() as int)[i as int] != mark@[i as int]);
            return false;
        }
    }
    assert(rest.take(mark@.len() as int) =~= mark@);
    true
}

/// The text that `String::from_utf8_lossy` makes of bytes.
pub uninterp spec fn lossy_text(bytes: Seq<u8>) -> Seq<char>;

/// Calls `String::from_utf8_lossy`. The text is `lossy_text` of the bytes;
/// where the bytes are valid UTF-8, they are its encoding.
#[verifier::external_body]
fn text_lossy(bytes: &[u8]) -> (r: String)
    ensures
        r@ == lossy_text(bytes@),
        vstd::utf8::valid_utf8(bytes@) ==> vstd::utf8::encode_utf8(r@) == bytes@,
{
    String::from_utf8_lossy(bytes).into_owned()
}

/// A count of devices as a probe reports it: none at all means that the probe
/// has nothing to say.
pub open spec fn probed_count(success: bool, lines: nat) -> Option<u32> {
    if success && lines as u32 > 0 {
        Some(lines as u32)
    } else {
        None
    }
}

/// What a probe says of a host, from whether its tool succeeded and how many
/// device lines it printed.
pub fn probe_result(success: bool, lines: usize) -> (r: Option<u32>)
    ensures
        r == probed_count(success, lines as nat),
{
    let n = #[verifier::truncate] (lines as u32);
    if success && n > 0 {
        Some(n)
    } else {
        None
    }
}

/// Count NVIDIA GPUs from the output of `nvidia-smi -L`, which prints one
/// `GPU N: ...` line per device.
pub fn detect_nvidia(success: bool, stdout: &[u8]) -> (r: Option<u32>)
    ensures
        r == probed_count(success, device_lines(lossy_text(stdout@), 0, "GPU"@)),
{
    let output = text_lossy(stdout);
    probe_result(success, count_device_lines(output.as_str(), "GPU"))
}

/// Count AMD GPUs from the output of `rocm-smi --showid`, which prints one
/// `GPU[N]` line per device.
pub fn detect_amd(success: bool, stdout: &[u8]) -> (r: Option<u32>)
    ensures
        r == probed_count(success, device_lines(lossy_text(stdout@), 0, "GPU["@)),
{
    let output = text_lossy(stdout);
    probe_result(success, count_device_lines(output.as_str(), "GPU["))
}

// ---------------------------------------------------------------------------
// What detection comes to
// ---------------------------------------------------------------------------

/// The name of a vendor names that vendor.
pub proof fn law_vendors_go_by_their_name(vendor: Vendor)
    ensures
        vendor_named(vendor.spec_name()) == Some(vendor),
{
    reveal_strlit("Nvidia");
    reveal_strlit("Amd");
    reveal_strlit("None");
    reveal_strlit("nvidia");
    reveal_strlit("cuda");
    reveal_strlit("amd");
    reveal_strlit("rocm");
    reveal_strlit("hip");
    reveal_strlit("none");
    let name = vendor.spec_name();
    assert(!text::white_space(name[0]));
    assert(text::trimmed_start(name) == name);
    assert(!text::white_space(name.last()));
    assert(text::trimmed(name) == name);
    match vendor {
        Vendor::Nvidia => assert(text::ascii_lowered(name) =~= "nvidia"@),
        Vendor::Amd => {
            assert(text::ascii_lowered(name) =~= "amd"@);
            assert("amd"@.len() == 3);
        },
        Vendor::NoGpu => {
            assert(text::ascii_lowered(name) =~= "none"@);
            assert("none"@[0] == 'n' && "cuda"@[0] == 'c' && "rocm"@[0] == 'r');
        },
    }
}

/// A name stands for a vendor exactly where it is, apart from case and white space
/// around it, one that the vendor goes by.
pub proof fn law_vendors_are_named(s: Seq<char>)
    ensures
        ({
            let name = text::ascii_lowered(text::trimmed(s));
            &&& vendor_named(s) == Some(Vendor::Nvidia) <==> name == "nvidia"@ || name == "cuda"@
            &&& vendor_named(s) == Some(Vendor::Amd) <==> name == "amd"@ || name == "rocm"@ || name
                == "hip"@
            &&& vendor_named(s) == Some(Vendor::NoGpu) <==> name == "none"@
        }),
{
    reveal_strlit("nvidia");
    reveal_strlit("cuda");
    reveal_strlit("amd");
    reveal_strlit("rocm");
    reveal_strlit("hip");
    reveal_strlit("none");
    assert("nvidia"@.len() == 6 && "cuda"@.len() == 4 && "amd"@.len() == 3);
    assert("rocm"@.len() == 4 && "hip"@.len() == 3 && "none"@.len() == 4);
    assert("cuda"@[0] == 'c' && "rocm"@[0] == 'r' && "none"@[0] == 'n');
    assert("amd"@[0] == 'a' && "hip"@[0] == 'h');
}

/// The variables that hide GPUs are those of the vendor's runtimes, none without
/// GPUs.
pub proof fn law_vendors_have_their_variables()
    ensures
        Vendor::Nvidia.device_variables() == seq!["CUDA_VISIBLE_DEVICES"@],
        Vendor::Amd.device_variables() == seq!["HIP_VISIBLE_DEVICES"@, "ROCR_VISIBLE_DEVICES"@],
        Vendor::NoGpu.device_variables().len() == 0,
{
}

/// A count that is given is the count that the daemon goes by; zero means no GPUs
/// whoever is named, and without a vendor that makes sense it is NVIDIA. A count that
/// is no number is as good as none.
pub proof fn law_given_counts_are_taken(count: Seq<char>, vendor: Option<Seq<char>>)
    ensures
        gpu_override(None, vendor) is None,
        text::parsed_u32(text::trimmed(count)) is None ==> gpu_override(Some(count), vendor) is None,
        text::parsed_u32(text::trimmed(count)) matches Some(n) ==> ({
            let taken = gpu_override(Some(count), vendor);
            &&& taken is Some
            &&& taken->0.count == n
            &&& n == 0 ==> taken->0.vendor == Vendor::NoGpu
            &&& n > 0 && vendor is Some && vendor_named(vendor->0) is Some ==> taken->0.vendor
                == vendor_named(vendor->0)->0
            &&& n > 0 && (vendor is None || vendor_named(vendor->0) is None) ==> taken->0.vendor
                == Vendor::Nvidia
        }),
{
}

/// What the first probe counts is taken, NVIDIA before AMD; without either there are
/// no GPUs.
pub proof fn law_probes_are_asked_in_turn(nvidia: Option<u32>, amd: Option<u32>)
    ensures
        ({
            let found = gpus_probed(nvidia, amd);
            &&& nvidia matches Some(n) ==> found.count == n && found.vendor == Vendor::Nvidia
            &&& nvidia is None ==> (amd matches Some(n) ==> found.count == n && found.vendor
                == Vendor::Amd)
            &&& nvidia is None && amd is None ==> found.count == 0 && found.vendor == Vendor::NoGpu
        }),
{
}

/// A probe counts the lines that its tool printed, unless the tool failed or printed
/// none.
pub proof fn law_probes_count_lines(success: bool, lines: nat)
    requires
        lines <= u32::MAX,
    ensures
        success && lines > 0 <==> probed_count(success, lines) is Some,
        probed_count(success, lines) matches Some(n) ==> n == lines,
{
}

/// Whether a line is of a device, white space in front of it aside.
spec fn counts_as(line: Seq<char>, prefix: Seq<char>) -> bool {
    exists|rest: Seq<char>| text::trimmed_start(line) == #[trigger] (prefix + rest)
}

proof fn lemma_begins_with(line: Seq<char>, prefix: Seq<char>)
    ensures
        begins_with(text::trimmed_start(line), prefix) == counts_as(line, prefix),
{
    let s = text::trimmed_start(line);
    if begins_with(s, prefix) {
        assert(s =~= prefix + s.skip(prefix.len() as int));
    }
    if counts_as(line, prefix) {
        let rest = choose|rest: Seq<char>| s == #[trigger] (prefix + rest);
        assert(s.take(prefix.len() as int) =~= prefix);
    }
}

proof fn lemma_line_end_shift(s: Seq<char>, base: int, from: int)
    requires
        0 <= base <= s.len(),
        0 <= from,
        base + from <= s.len(),
    ensures
        line_end(s, base + from) == base + line_end(s.skip(base), from),
    decreases s.len() - base - from,
{
    if base + from < s.len() {
        assert(s.skip(base)[from] == s[base + from]);
        if s[base + from] != '\n' {
            lemma_line_end_shift(s, base, from + 1);
        }
    }
}

proof fn lemma_device_lines_shift(s: Seq<char>, base: int, from: int, prefix: Seq<char>)
    requires
        0 <= base <= s.len(),
        0 <= from,
    ensures
        device_lines(s, base + from, prefix) == device_lines(s.skip(base), from, prefix),
    decreases s.len() + 1 - base - from,
{
    if base + from < s.len() {
        lemma_line_end_shift(s, base, from);
        lemma_line_end(s, base + from);
        let end = line_end(s, base + from);
        assert(s.subrange(base + from, end) =~= s.skip(base).subrange(from, end - base));
        lemma_device_lines_shift(s, base, end - base + 1, prefix);
    }
}

proof fn lemma_line_end_at(s: Seq<char>, from: int, end: int)
    requires
        0 <= from <= end <= s.len(),
        forall|k: int| from <= k < end ==> #[trigger] s[k] != '\n',
        end < s.len() ==> s[end] == '\n',
    ensures
        line_end(s, from) == end,
    decreases end - from,
{
    if from < end {
        assert(s[from] != '\n');
        lemma_line_end_at(s, from + 1, end);
    }
}

/// Device lines are counted line by line: a line in front of others counts one where,
/// white space in front of it aside, it starts with the mark, and nothing otherwise,
/// and a last line needs no line feed.
pub proof fn law_device_lines_are_counted_one_by_one(
    line: Seq<char>,
    rest: Seq<char>,
    prefix: Seq<char>,
)
    requires
        !line.contains('\n'),
    ensures
        device_lines(line + seq!['\n'] + rest, 0, prefix) == device_lines(rest, 0, prefix) + (
        if exists|tail: Seq<char>| text::trimmed_start(line) == #[trigger] (prefix + tail) {
            1nat
        } else {
            0
        }),
        line.len() > 0 ==> device_lines(line, 0, prefix) == (if exists|tail: Seq<char>|
            text::trimmed_start(line) == #[trigger] (prefix + tail) {
            1nat
        } else {
            0
        }),
        device_lines(Seq::empty(), 0, prefix) == 0,
{
    let s = line + seq!['\n'] + rest;
    let n = line.len() as int;
    assert forall|k: int| 0 <= k < n implies #[trigger] line[k] != '\n' by {
        if line[k] == '\n' {
            assert(line.contains('\n'));
        }
    }
    assert forall|k: int| 0 <= k < n implies #[trigger] s[k] != '\n' by {
        assert(s[k] == line[k]);
    }
    assert(s[n] == '\n');
    lemma_line_end_at(s, 0, n);
    lemma_line_end_at(line, 0, n);
    lemma_begins_with(line, prefix);
    assert(s.subrange(0, n) =~= line);
    assert(line.subrange(0, n) =~= line);
    lemma_device_lines_shift(s, n + 1, 0, prefix);
    assert(s.skip(n + 1) =~= rest);
    assert(device_lines(s, 0, prefix) == (if counts_as(line, prefix) {
        1nat
    } else {
        0
    }) + device_lines(s, n + 1, prefix));
    lemma_device_lines_bound(line, n + 1, prefix);
}

/// What is detected: a count that is given and reads as a number, else what the NVIDIA
/// probe counts, else what the AMD probe counts, else none.
pub proof fn law_detection_takes_what_is_given_first(
    count: Option<&str>,
    vendor: Option<&str>,
    nvidia: Option<u32>,
    amd: Option<u32>,
    r: GpuInfo,
)
    requires
        detect.ensures((count, vendor, nvidia, amd), r),
    ensures
        count is Some && text::parsed_u32(text::trimmed(count->0@)) is Some ==> r.count
            == text::parsed_u32(text::trimmed(count->0@))->0 && (r.count == 0 ==> r.vendor
            == Vendor::NoGpu),
        count is None || text::parsed_u32(text::trimmed(count->0@)) is None ==> ({
            &&& nvidia matches Some(n) ==> r.count == n && r.vendor == Vendor::Nvidia
            &&& nvidia is None ==> (amd matches Some(n) ==> r.count == n && r.vendor == Vendor::Amd)
            &&& nvidia is None && amd is None ==> r.count == 0 && r.vendor == Vendor::NoGpu
        }),
{
    if let Some(s) = count {
        law_given_counts_are_taken(
            s@,
            match vendor {
                Some(v) => Some(v@),
                None => None,
            },
        );
    }
    law_probes_are_asked_in_turn(nvidia, amd);
}

} // verus!
