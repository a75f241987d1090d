//! Reading the GPU probe's report. The probe itself — a query to the
//! host's GPU tooling — runs in the host process; what it prints is
//! parsed here: one CSV line of total, used and free memory (MiB) and the
//! device name.

use vstd::prelude::*;
use crate::types::{GPUInfo, GPUInfoView};
use crate::strutil::{
    spec_split, spec_trim, split_str, trim_str, all_digits, digits_val, parse_u64,
};

verus! {

/// The comma-separated fields of the report's first line, each trimmed.
pub open spec fn spec_csv_fields(s: Seq<char>) -> Seq<Seq<char>> {
    let line = spec_split(spec_trim(s), seq!['\n'])[0];
    let raw = spec_split(line, seq![',']);
    Seq::new(raw.len(), |i: int| spec_trim(raw[i]))
}

/// Whether one field is a number that fits.
pub open spec fn field_is_number(f: Seq<char>) -> bool {
    f.len() > 0 && all_digits(f) && digits_val(f) <= u64::MAX
}

/// Whether the report is well-formed: exactly four fields, the first
/// three numeric.
pub open spec fn gpu_csv_ok(s: Seq<char>) -> bool {
    let f = spec_csv_fields(s);
    &&& f.len() == 4
    &&& field_is_number(f[0])
    &&& field_is_number(f[1])
    &&& field_is_number(f[2])
}

/// The snapshot a well-formed report stands for. The probe reports no
/// reservation figure and no CUDA details.
pub open spec fn spec_gpu_of_csv(s: Seq<char>) -> GPUInfoView {
    let f = spec_csv_fields(s);
    GPUInfoView {
        device_name: f[3],
        total_memory: digits_val(f[0]) as u64,
        allocated_memory: digits_val(f[1]) as u64,
        reserved_memory: 0,
        free_memory: digits_val(f[2]) as u64,
        cuda_version: "N/A"@,
        compute_capability: "N/A"@,
    }
}

/// Parse the probe's report; `None` when it is not the expected four
/// comma-separated fields with numeric memory figures.
pub fn parse_gpu_csv(s: &str) -> (r: Option<GPUInfo>)
    ensures
        match r {
            Option::Some(g) => gpu_csv_ok(s@) && g@ == spec_gpu_of_csv(s@),
            Option::None => !gpu_csv_ok(s@),
        },
{
    proof {
        reveal_strlit("\n");
        reveal_strlit(",");
        assert("\n"@ =~= seq!['\n']);
        assert(","@ =~= seq![',']);
    }
    let t = trim_str(s);
    let lines = split_str(t.as_str(), "\n");
    let line = &lines[0];
    let raw = split_str(line.as_str(), ",");
    let n = raw.len();
    let ghost fields = spec_csv_fields(s@);
    proof {
        assert(fields.len() == raw@.len());
    }
    if n != 4 {
        return Option::None;
    }
    let f0 = trim_str(raw[0].as_str());
    let f1 = trim_str(raw[1].as_str());
    let f2 = trim_str(raw[2].as_str());
    let f3 = trim_str(raw[3].as_str());
    proof {
        assert(f0@ == fields[0]);
        assert(f1@ == fields[1]);
        assert(f2@ == fields[2]);
        assert(f3@ == fields[3]);
    }
    let total = match parse_u64(f0.as_str()) {
        Option::Some(v) => v,
        Option::None => {
            return Option::None;
        },
    };
    let used = match parse_u64(f1.as_str()) {
        Option::Some(v) => v,
        Option::None => {
            return Option::None;
        },
    };
    let free = match parse_u64(f2.as_str()) {
        Option::Some(v) => v,
        Option::None => {
            return Option::None;
        },
    };
    let g = GPUInfo {
        device_name: f3,
        total_memory: total,
        allocated_memory: used,
        reserved_memory: 0,
        free_memory: free,
        cuda_version: String::from_str("N/A"),
        compute_capability: String::from_str("N/A"),
    };
    proof {
        assert(g@ =~= spec_gpu_of_csv(s@));
    }
    Option::Some(g)
}

} // verus!
