//! Host hardware summary shown in the UI header and embedded in reports.

use vstd::prelude::*;

use crate::device::{human, human_bytes};
use crate::engine::text_model;
use crate::scan::{
    after_prefix, field_after_colon, lines, lines_of, number_of, parse_u64, second_field, starts_with,
    strip_prefix, texts, trim, trim_end_matches, trimmed, trimmed_suffix,
};
use crate::text::push_text;

verus! {

/// The host that a session runs on.
#[derive(Debug)]
pub struct SystemInfo {
    pub cpu_model: String,
    pub cpu_cores: usize,
    pub mem_total_bytes: u64,
    pub kernel: String,
}

/// A [`SystemInfo`], with its texts as sequences.
pub struct SystemModel {
    pub cpu_model: Seq<char>,
    pub cpu_cores: usize,
    pub mem_total_bytes: u64,
    pub kernel: Seq<char>,
}

impl View for SystemInfo {
    type V = SystemModel;

    open spec fn view(&self) -> SystemModel {
        SystemModel {
            cpu_model: self.cpu_model@,
            cpu_cores: self.cpu_cores,
            mem_total_bytes: self.mem_total_bytes,
            kernel: self.kernel@,
        }
    }
}

impl Clone for SystemInfo {
    fn clone(&self) -> (r: Self)
        ensures
            r@ == self@,
    {
        SystemInfo {
            cpu_model: self.cpu_model.clone(),
            cpu_cores: self.cpu_cores,
            mem_total_bytes: self.mem_total_bytes,
            kernel: self.kernel.clone(),
        }
    }
}

/// The memory size as shown: a dash where it is not known.
pub open spec fn mem_text(bytes: u64) -> Seq<char> {
    if bytes == 0 {
        "—"@
    } else {
        human(bytes as nat)
    }
}

impl SystemInfo {
    /// The memory size in decimal units.
    pub fn mem_human(&self) -> (s: String)
        ensures
            s@ == mem_text(self.mem_total_bytes),
    {
        if self.mem_total_bytes == 0 {
            "—".to_owned()
        } else {
            human_bytes(self.mem_total_bytes)
        }
    }
}

/// Whether a line of `/proc/cpuinfo` names the processor.
pub open spec fn is_model_line(line: Seq<char>) -> bool {
    "model name"@.is_prefix_of(line) || "Processor"@.is_prefix_of(line)
}

/// The processor that the lines from `i` on name: the field behind the colon of
/// the first line that names one.
pub open spec fn model_in(lines: Seq<Seq<char>>, i: int) -> Option<Seq<char>>
    decreases lines.len() - i,
{
    if i >= lines.len() {
        None
    } else if is_model_line(lines[i]) {
        match second_field(lines[i]) {
            Some(f) => Some(trimmed(f)),
            None => None,
        }
    } else {
        model_in(lines, i + 1)
    }
}

/// The processor model, from the content of `/proc/cpuinfo`.
pub fn linux_cpu_model(cpuinfo: &str) -> (r: Option<String>)
    ensures
        text_model(r) == model_in(lines_of(cpuinfo@), 0),
{
    let ls = lines(cpuinfo);
    let ghost all = lines_of(cpuinfo@);
    let mut i: usize = 0;
    while i < ls.len()
        invariant
            i <= ls@.len(),
            texts(ls@) == all,
            all == lines_of(cpuinfo@),
            model_in(all, i as int) == model_in(all, 0),
        decreases ls@.len() - i,
    {
        assert(all[i as int] == ls@[i as int]@);
        // x86: "model name"; many ARM SoCs: "Hardware" / "Processor".
        if starts_with(ls[i].as_str(), "model name") || starts_with(ls[i].as_str(), "Processor") {
            return match field_after_colon(ls[i].as_str()) {
                Some(f) => Some(trim(f.as_str())),
                None => None,
            };
        }
        i += 1;
    }
    None
}

/// The number of kibibytes in what follows `MemTotal:`.
pub open spec fn kib_of(rest: Seq<char>) -> Option<u64> {
    number_of(trimmed(trimmed_suffix(trimmed(rest), " kB"@)))
}

/// The memory size in kibibytes that the lines from `i` on tell: that of the
/// first line with the total.
pub open spec fn mem_kib_in(lines: Seq<Seq<char>>, i: int) -> Option<u64>
    decreases lines.len() - i,
{
    if i >= lines.len() {
        None
    } else {
        match after_prefix(lines[i], "MemTotal:"@) {
            Some(rest) => kib_of(rest),
            None => mem_kib_in(lines, i + 1),
        }
    }
}

/// The memory size in kibibytes, from the content of `/proc/meminfo`.
pub fn linux_mem_kib(meminfo: &str) -> (r: Option<u64>)
    ensures
        r == mem_kib_in(lines_of(meminfo@), 0),
{
    let ls = lines(meminfo);
    let ghost all = lines_of(meminfo@);
    let mut i: usize = 0;
    while i < ls.len()
        invariant
            i <= ls@.len(),
            texts(ls@) == all,
            all == lines_of(meminfo@),
            mem_kib_in(all, i as int) == mem_kib_in(all, 0),
        decreases ls@.len() - i,
    {
        assert(all[i as int] == ls@[i as int]@);
        match strip_prefix(ls[i].as_str(), "MemTotal:") {
            Some(rest) => {
                let t = trim(rest.as_str());
                proof {
                    reveal_strlit(" kB");
                }
                let u = trim_end_matches(t.as_str(), " kB");
                let v = trim(u.as_str());
                return parse_u64(v.as_str());
            },
            None => {},
        }
        i += 1;
    }
    None
}

/// The memory size in bytes, from the content of `/proc/meminfo`.
pub fn linux_mem_total(meminfo: &str) -> (r: Option<u64>)
    requires
        mem_kib_in(lines_of(meminfo@), 0) matches Some(kib) ==> kib * 1024 <= u64::MAX,
    ensures
        r == (match mem_kib_in(lines_of(meminfo@), 0) {
            Some(kib) => Some((kib * 1024) as u64),
            None => None,
        }),
{
    match linux_mem_kib(meminfo) {
        Some(kib) => Some(kib * 1024),
        None => None,
    }
}

/// The kernel name, from the content of `/proc/sys/kernel/osrelease`.
pub fn linux_kernel(osrelease: &str) -> (s: String)
    ensures
        s@ == "Linux "@ + trimmed(osrelease@),
{
    let mut s = "Linux ".to_owned();
    let t = trim(osrelease);
    push_text(&mut s, t.as_str());
    s
}

/// What the files tell of the host, each if it could be read.
pub open spec fn collected(
    cpu_cores: usize,
    cpuinfo: Option<Seq<char>>,
    meminfo: Option<Seq<char>>,
    osrelease: Option<Seq<char>>,
) -> SystemModel {
    SystemModel {
        cpu_model: match cpuinfo {
            Some(t) => match model_in(lines_of(t), 0) {
                Some(m) => m,
                None => "unknown CPU"@,
            },
            None => "unknown CPU"@,
        },
        cpu_cores,
        mem_total_bytes: match meminfo {
            Some(t) => match mem_kib_in(lines_of(t), 0) {
                Some(kib) => (kib * 1024) as u64,
                None => 0,
            },
            None => 0,
        },
        kernel: match osrelease {
            Some(t) => "Linux "@ + trimmed(t),
            None => "linux"@,
        },
    }
}

/// The host summary, from the contents of `/proc/cpuinfo`, `/proc/meminfo` and
/// `/proc/sys/kernel/osrelease`, each if it could be read.
pub fn collect(
    cpu_cores: usize,
    cpuinfo: Option<String>,
    meminfo: Option<String>,
    osrelease: Option<String>,
) -> (r: SystemInfo)
    requires
        meminfo matches Some(t) ==> (mem_kib_in(lines_of(t@), 0) matches Some(kib) ==> kib * 1024
            <= u64::MAX),
    ensures
        r@ == collected(cpu_cores, text_model(cpuinfo), text_model(meminfo), text_model(osrelease)),
{
    let cpu_model = match cpuinfo {
        Some(t) => match linux_cpu_model(t.as_str()) {
            Some(m) => m,
            None => "unknown CPU".to_owned(),
        },
        None => "unknown CPU".to_owned(),
    };
    let mem_total_bytes: u64 = match meminfo {
        Some(t) => match linux_mem_total(t.as_str()) {
            Some(n) => n,
            None => 0,
        },
        None => 0,
    };
    let kernel = match osrelease {
        Some(t) => linux_kernel(t.as_str()),
        None => "linux".to_owned(),
    };
    SystemInfo { cpu_model, cpu_cores, mem_total_bytes, kernel }
}

} // verus!
