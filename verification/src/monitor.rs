//! System metrics: the parsers of `/proc` files and of the output of `df`
//! and `nvidia-smi`, and the counter arithmetic between two samples. The
//! values that are fractions (percentages, load averages, temperatures) are
//! kept as the text they were read from.
use vstd::prelude::*;

use crate::text::{
    chars_eq, chars_of, contains_chars, contains_seq, lowercase, lines_chars, lines_seq, parse_u64, parse_u64_spec, split_chars, split_seq,
    split_whitespace_chars, split_ws_seq, starts_with_chars, has_prefix, string_from_chars, ascii_lower, is_ascii_text,
    trim_chars, trim_seq, vec_views,
};

verus! {

// ---------------------------------------------------------------- numbers

/// The numbers among `words`, in order: the words that parse as `u64`
/// (`filter_map(|s| s.parse().ok())`).
pub open spec fn parsed_numbers(words: Seq<Seq<char>>) -> Seq<u64>
    decreases words.len(),
{
    if words.len() == 0 {
        Seq::empty()
    } else {
        let rest = parsed_numbers(words.drop_last());
        match parse_u64_spec(words.last()) {
            Some(n) => rest.push(n),
            None => rest,
        }
    }
}

/// The number a word holds, or zero (`parse().unwrap_or(0)`).
pub open spec fn number_or_zero(word: Seq<char>) -> u64 {
    match parse_u64_spec(word) {
        Some(n) => n,
        None => 0,
    }
}

/// The numbers among `words[from..]`.
fn parse_numbers(words: &[Vec<char>], from: usize) -> (r: Vec<u64>)
    requires
        from <= words@.len(),
    ensures
        r@ == parsed_numbers(vec_views(words@).skip(from as int)),
{
    let ghost all = vec_views(words@).skip(from as int);
    let mut out: Vec<u64> = Vec::new();
    let mut i: usize = from;
    assert(all.take(0) =~= Seq::<Seq<char>>::empty());
    while i < words.len()
        invariant
            from <= i <= words@.len(),
            all == vec_views(words@).skip(from as int),
            out@ == parsed_numbers(all.take(i - from)),
        decreases words.len() - i,
    {
        assert(all.take(i - from + 1).drop_last() =~= all.take(i - from));
        assert(all.take(i - from + 1).last() == words@[i as int]@);
        match parse_u64(words[i].as_slice()) {
            Some(n) => out.push(n),
            None => {},
        }
        i = i + 1;
    }
    assert(all.take(i - from) =~= all);
    out
}

/// The number a word holds, or zero.
fn number_or_zero_of(word: &[char]) -> (r: u64)
    ensures
        r == number_or_zero(word@),
{
    match parse_u64(word) {
        Some(n) => n,
        None => 0,
    }
}

/// `s` without its trailing `c` characters (`trim_end_matches(c)`).
pub open spec fn trim_end_char(s: Seq<char>, c: char) -> Seq<char>
    decreases s.len(),
{
    if s.len() > 0 && s.last() == c {
        trim_end_char(s.drop_last(), c)
    } else {
        s
    }
}

/// `s` without its trailing `c` characters.
fn trim_end_char_exec(s: &[char], c: char) -> (r: Vec<char>)
    ensures
        r@ == trim_end_char(s@, c),
{
    let mut n: usize = s.len();
    assert(s@.take(n as int) =~= s@);
    while n > 0 && s[n - 1] == c
        invariant
            n <= s@.len(),
            trim_end_char(s@, c) == trim_end_char(s@.take(n as int), c),
        decreases n,
    {
        assert(s@.take(n as int).drop_last() =~= s@.take(n - 1));
        n = n - 1;
    }
    crate::text::take_chars(s, n)
}

// ---------------------------------------------------------------- CPU

/// The time counters of one CPU line of `/proc/stat`, in clock ticks.
#[derive(Debug, Clone, Copy, PartialEq, Eq, Structural)]
pub struct CpuCounters {
    pub user: u64,
    pub nice: u64,
    pub system: u64,
    pub idle: u64,
    pub iowait: u64,
    pub irq: u64,
    pub softirq: u64,
    pub steal: u64,
}

/// The counters made of the first eight numbers.
pub open spec fn counters_from(nums: Seq<u64>) -> CpuCounters {
    CpuCounters {
        user: nums[0],
        nice: nums[1],
        system: nums[2],
        idle: nums[3],
        iowait: nums[4],
        irq: nums[5],
        softirq: nums[6],
        steal: nums[7],
    }
}

/// The counters of a CPU line such as `cpu0 1234 567 ...`: a line of at
/// least nine words, of which at least eight after the first are numbers;
/// the first eight numbers are user, nice, system, idle, iowait, irq,
/// softirq and steal.
pub open spec fn cpu_line_counters(line: Seq<char>) -> Option<CpuCounters> {
    let parts = split_ws_seq(line);
    if parts.len() < 9 {
        None
    } else {
        let nums = parsed_numbers(parts.skip(1));
        if nums.len() < 8 {
            None
        } else {
            Some(counters_from(nums))
        }
    }
}

fn cpu_line_chars(line: &[char]) -> (r: Option<CpuCounters>)
    ensures
        r == cpu_line_counters(line@),
{
    let parts = split_whitespace_chars(line);
    if parts.len() < 9 {
        return None;
    }
    let nums = parse_numbers(parts.as_slice(), 1);
    if nums.len() < 8 {
        return None;
    }
    Some(
        CpuCounters {
            user: nums[0],
            nice: nums[1],
            system: nums[2],
            idle: nums[3],
            iowait: nums[4],
            irq: nums[5],
            softirq: nums[6],
            steal: nums[7],
        },
    )
}

/// Parses one CPU line of `/proc/stat`.
pub fn parse_cpu_line(line: &str) -> (r: Option<CpuCounters>)
    ensures
        r == cpu_line_counters(line@),
{
    let chars = chars_of(line);
    cpu_line_chars(chars.as_slice())
}

/// What reading the rest of `/proc/stat` gives, from the lines `lines`,
/// with the total and per-core counters read so far: every line that
/// (trimmed) starts with `cpu` must be a CPU line, else the whole file is
/// refused; the `cpu` line gives the total, the others the cores in order.
pub open spec fn stat_scan(
    lines: Seq<Seq<char>>,
    total: Option<CpuCounters>,
    cores: Seq<CpuCounters>,
) -> Option<(Option<CpuCounters>, Seq<CpuCounters>)>
    decreases lines.len(),
{
    if lines.len() == 0 {
        Some((total, cores))
    } else {
        let line = trim_seq(lines[0]);
        let parts = split_ws_seq(line);
        if !has_prefix(line, "cpu"@) || parts.len() == 0 {
            stat_scan(lines.drop_first(), total, cores)
        } else {
            match cpu_line_counters(line) {
                None => None,
                Some(c) => if parts[0] == "cpu"@ {
                    stat_scan(lines.drop_first(), Some(c), cores)
                } else {
                    stat_scan(lines.drop_first(), total, cores.push(c))
                },
            }
        }
    }
}

/// The total and per-core counters of `/proc/stat`; `None` when a CPU line
/// is malformed or there is no total line.
pub open spec fn proc_stat(raw: Seq<char>) -> Option<(CpuCounters, Seq<CpuCounters>)> {
    match stat_scan(lines_seq(raw), None, Seq::empty()) {
        Some((Some(t), cores)) => Some((t, cores)),
        _ => None,
    }
}

/// Parses `/proc/stat` into the total and the per-core counters.
pub fn parse_proc_stat(raw: &str) -> (r: Option<(CpuCounters, Vec<CpuCounters>)>)
    ensures
        r is Some == proc_stat(raw@) is Some,
        r matches Some((t, cores)) ==> proc_stat(raw@) == Some((t, cores@)),
{
    proof {
        reveal_strlit("cpu");
    }
    let chars = chars_of(raw);
    let lines = lines_chars(chars.as_slice());
    let ghost all = vec_views(lines@);
    let cpu = chars_of("cpu");
    let mut total: Option<CpuCounters> = None;
    let mut cores: Vec<CpuCounters> = Vec::new();
    let mut i: usize = 0;
    assert(all.skip(0) =~= all);
    while i < lines.len()
        invariant
            i <= lines@.len(),
            all == vec_views(lines@),
            all == lines_seq(raw@),
            cpu@ == "cpu"@,
            stat_scan(all, None, Seq::empty()) == stat_scan(all.skip(i as int), total, cores@),
        decreases lines.len() - i,
    {
        assert(all.skip(i as int).drop_first() =~= all.skip(i + 1));
        assert(all.skip(i as int)[0] == lines@[i as int]@);
        let line = trim_chars(lines[i].as_slice());
        let parts = split_whitespace_chars(line.as_slice());
        if starts_with_chars(line.as_slice(), cpu.as_slice()) && parts.len() > 0 {
            match cpu_line_chars(line.as_slice()) {
                None => return None,
                Some(c) => {
                    if chars_eq(parts[0].as_slice(), cpu.as_slice()) {
                        total = Some(c);
                    } else {
                        cores.push(c);
                    }
                },
            }
        }
        i = i + 1;
    }
    match total {
        Some(t) => Some((t, cores)),
        None => None,
    }
}

/// Whether the counters add up without leaving the range of `i64`.
pub open spec fn counters_fit(c: CpuCounters) -> bool {
    c.user + c.nice + c.system + c.idle + c.iowait + c.irq + c.softirq + c.steal <= i64::MAX
}

/// Whether the counters of `c` sum to at most `i64::MAX`, as
/// [`cpu_delta`] needs.
pub fn counters_fit_check(c: &CpuCounters) -> (r: bool)
    ensures
        r == counters_fit(*c),
{
    let sum: u128 = c.user as u128 + c.nice as u128 + c.system as u128 + c.idle as u128
        + c.iowait as u128 + c.irq as u128 + c.softirq as u128 + c.steal as u128;
    sum <= i64::MAX as u128
}

/// The sum of all the counters.
pub open spec fn total_ticks(c: CpuCounters) -> int {
    c.user + c.nice + c.system + c.idle + c.iowait + c.irq + c.softirq + c.steal
}

/// The busy counters: user, nice, system, irq and softirq.
pub open spec fn busy_ticks(c: CpuCounters) -> int {
    c.user + c.nice + c.system + c.irq + c.softirq
}

/// How many ticks passed between two samples of a CPU, and how many of them
/// were busy; the usage is `busy / total` when `total > 0`.
#[derive(Debug, Clone, Copy, PartialEq, Eq, Structural)]
pub struct CpuDelta {
    pub busy: i64,
    pub total: i64,
}

/// The ticks between two samples of a CPU.
pub fn cpu_delta(prev: CpuCounters, curr: CpuCounters) -> (r: CpuDelta)
    requires
        counters_fit(prev),
        counters_fit(curr),
    ensures
        r.total == total_ticks(curr) - total_ticks(prev),
        r.busy == busy_ticks(curr) - busy_ticks(prev),
{
    let prev_total: u64 = prev.user + prev.nice + prev.system + prev.idle + prev.iowait + prev.irq
        + prev.softirq + prev.steal;
    let curr_total: u64 = curr.user + curr.nice + curr.system + curr.idle + curr.iowait + curr.irq
        + curr.softirq + curr.steal;
    let total: i64 = curr_total as i64 - prev_total as i64;
    let busy: i64 = (curr.user as i64 + curr.nice as i64 + curr.system as i64 - prev.user as i64
        - prev.nice as i64 - prev.system as i64) + (curr.irq as i64 + curr.softirq as i64
        - prev.irq as i64 - prev.softirq as i64);
    CpuDelta { busy, total }
}

/// The ticks between two samples of each core, core by core (as many as
/// both samples have).
pub fn per_core_deltas(prev: &[CpuCounters], curr: &[CpuCounters]) -> (r: Vec<CpuDelta>)
    requires
        forall|i: int| 0 <= i < prev@.len() ==> counters_fit(#[trigger] prev@[i]),
        forall|i: int| 0 <= i < curr@.len() ==> counters_fit(#[trigger] curr@[i]),
    ensures
        r@.len() == if prev@.len() < curr@.len() {
            prev@.len()
        } else {
            curr@.len()
        },
        forall|i: int|
            0 <= i < r@.len() ==> (#[trigger] r@[i]).total == total_ticks(curr@[i]) - total_ticks(
                prev@[i],
            ) && r@[i].busy == busy_ticks(curr@[i]) - busy_ticks(prev@[i]),
{
    let n: usize = if prev.len() < curr.len() {
        prev.len()
    } else {
        curr.len()
    };
    let mut out: Vec<CpuDelta> = Vec::new();
    let mut i: usize = 0;
    while i < n
        invariant
            n <= prev@.len(),
            n <= curr@.len(),
            i <= n,
            out@.len() == i,
            forall|i: int| 0 <= i < prev@.len() ==> counters_fit(#[trigger] prev@[i]),
            forall|i: int| 0 <= i < curr@.len() ==> counters_fit(#[trigger] curr@[i]),
            forall|k: int|
                0 <= k < i ==> (#[trigger] out@[k]).total == total_ticks(curr@[k]) - total_ticks(
                    prev@[k],
                ) && out@[k].busy == busy_ticks(curr@[k]) - busy_ticks(prev@[k]),
        decreases n - i,
    {
        out.push(cpu_delta(prev[i], curr[i]));
        i = i + 1;
    }
    out
}

// ---------------------------------------------------------------- memory

/// The memory counters of `/proc/meminfo`, in MiB.
#[derive(Debug, Clone, Copy, PartialEq, Eq, Structural)]
pub struct MemoryCounters {
    pub total_mb: u64,
    pub free_mb: u64,
    pub available_mb: u64,
    pub used_mb: u64,
    pub buffers_mb: u64,
    pub cached_mb: u64,
}

/// The key and value (in kB) of a `/proc/meminfo` line such as
/// `MemTotal:  16384000 kB`: its first word without trailing colons, and
/// its second word when a number.
pub open spec fn meminfo_entry(line: Seq<char>) -> Option<(Seq<char>, u64)> {
    let parts = split_ws_seq(line);
    if parts.len() < 2 {
        None
    } else {
        match parse_u64_spec(parts[1]) {
            Some(v) => Some((trim_end_char(parts[0], ':'), v)),
            None => None,
        }
    }
}

/// The value of `key` in MiB (the kB value divided by 1024, rounded down)
/// on the last of `lines` that gives one.
pub open spec fn meminfo_value(lines: Seq<Seq<char>>, key: Seq<char>) -> Option<u64>
    decreases lines.len(),
{
    if lines.len() == 0 {
        None
    } else {
        match meminfo_entry(lines.last()) {
            Some((k, v)) => if k == key {
                Some(v / 1024)
            } else {
                meminfo_value(lines.drop_last(), key)
            },
            None => meminfo_value(lines.drop_last(), key),
        }
    }
}

/// `a - b`, or zero when `b` is larger.
pub open spec fn sat_sub(a: u64, b: u64) -> u64 {
    if a >= b {
        (a - b) as u64
    } else {
        0
    }
}

/// The memory counters of `/proc/meminfo`: missing values are zero, the
/// available memory defaults to the free memory, and the used memory is
/// the total less free, buffers and cache (never below zero).
pub open spec fn proc_meminfo(raw: Seq<char>) -> MemoryCounters {
    let lines = lines_seq(raw);
    let total = meminfo_value(lines, "MemTotal"@).unwrap_or(0);
    let free = meminfo_value(lines, "MemFree"@).unwrap_or(0);
    let available = meminfo_value(lines, "MemAvailable"@).unwrap_or(free);
    let buffers = meminfo_value(lines, "Buffers"@).unwrap_or(0);
    let cached = meminfo_value(lines, "Cached"@).unwrap_or(0);
    MemoryCounters {
        total_mb: total,
        free_mb: free,
        available_mb: available,
        used_mb: sat_sub(sat_sub(sat_sub(total, free), buffers), cached),
        buffers_mb: buffers,
        cached_mb: cached,
    }
}

/// What the memory counters of `/proc/meminfo` say of one another: the
/// used memory is what is left of the total after free memory, buffers and
/// cache, so the four add up to the total when they fit in it, and nothing
/// is counted as used when they do not; without a `MemAvailable` line the
/// available memory is the free memory.
pub proof fn meminfo_used_is_total_less_free_buffers_cache(raw: Seq<char>)
    ensures
        ({
            let m = proc_meminfo(raw);
            &&& m.free_mb + m.buffers_mb + m.cached_mb <= m.total_mb ==> m.used_mb + m.free_mb
                + m.buffers_mb + m.cached_mb == m.total_mb
            &&& m.free_mb + m.buffers_mb + m.cached_mb > m.total_mb ==> m.used_mb == 0
            &&& m.used_mb <= m.total_mb
        }),
        meminfo_value(lines_seq(raw), "MemAvailable"@) is None ==> proc_meminfo(raw).available_mb
            == proc_meminfo(raw).free_mb,
{
}

/// Parses `/proc/meminfo` into memory counters.
pub fn parse_proc_meminfo(raw: &str) -> (r: MemoryCounters)
    ensures
        r == proc_meminfo(raw@),
{
    proof {
        reveal_strlit("MemTotal");
        reveal_strlit("MemFree");
        reveal_strlit("MemAvailable");
        reveal_strlit("Buffers");
        reveal_strlit("Cached");
    }
    let chars = chars_of(raw);
    let lines = lines_chars(chars.as_slice());
    let ghost all = vec_views(lines@);
    let k_total = chars_of("MemTotal");
    let k_free = chars_of("MemFree");
    let k_available = chars_of("MemAvailable");
    let k_buffers = chars_of("Buffers");
    let k_cached = chars_of("Cached");
    let mut total: Option<u64> = None;
    let mut free: Option<u64> = None;
    let mut available: Option<u64> = None;
    let mut buffers: Option<u64> = None;
    let mut cached: Option<u64> = None;
    let mut i: usize = 0;
    assert(all.take(0) =~= Seq::<Seq<char>>::empty());
    while i < lines.len()
        invariant
            i <= lines@.len(),
            all == vec_views(lines@),
            k_total@ == "MemTotal"@,
            k_free@ == "MemFree"@,
            k_available@ == "MemAvailable"@,
            k_buffers@ == "Buffers"@,
            k_cached@ == "Cached"@,
            total == meminfo_value(all.take(i as int), "MemTotal"@),
            free == meminfo_value(all.take(i as int), "MemFree"@),
            available == meminfo_value(all.take(i as int), "MemAvailable"@),
            buffers == meminfo_value(all.take(i as int), "Buffers"@),
            cached == meminfo_value(all.take(i as int), "Cached"@),
        decreases lines.len() - i,
    {
        assert(all.take(i + 1).drop_last() =~= all.take(i as int));
        assert(all.take(i + 1).last() == lines@[i as int]@);
        let parts = split_whitespace_chars(lines[i].as_slice());
        if parts.len() >= 2 {
            match parse_u64(parts[1].as_slice()) {
                Some(v) => {
                    let key = trim_end_char_exec(parts[0].as_slice(), ':');
                    let mb: u64 = v / 1024;
                    if chars_eq(key.as_slice(), k_total.as_slice()) {
                        total = Some(mb);
                    }
                    if chars_eq(key.as_slice(), k_free.as_slice()) {
                        free = Some(mb);
                    }
                    if chars_eq(key.as_slice(), k_available.as_slice()) {
                        available = Some(mb);
                    }
                    if chars_eq(key.as_slice(), k_buffers.as_slice()) {
                        buffers = Some(mb);
                    }
                    if chars_eq(key.as_slice(), k_cached.as_slice()) {
                        cached = Some(mb);
                    }
                },
                None => {},
            }
        }
        i = i + 1;
    }
    assert(all.take(i as int) =~= all);
    let total_mb: u64 = match total {
        Some(v) => v,
        None => 0,
    };
    let free_mb: u64 = match free {
        Some(v) => v,
        None => 0,
    };
    let available_mb: u64 = match available {
        Some(v) => v,
        None => free_mb,
    };
    let buffers_mb: u64 = match buffers {
        Some(v) => v,
        None => 0,
    };
    let cached_mb: u64 = match cached {
        Some(v) => v,
        None => 0,
    };
    let used_mb: u64 = total_mb.saturating_sub(free_mb).saturating_sub(buffers_mb).saturating_sub(
        cached_mb,
    );
    MemoryCounters {
        total_mb,
        free_mb,
        available_mb,
        used_mb,
        buffers_mb,
        cached_mb,
    }
}

// ---------------------------------------------------------------- load

/// The three load averages of `/proc/loadavg`, as the texts it holds.
#[derive(Debug, Clone, PartialEq, Eq)]
pub struct LoadAverageText {
    pub load1: String,
    pub load5: String,
    pub load15: String,
}

/// The first three whitespace-separated fields of `/proc/loadavg`, when it
/// has at least three.
pub open spec fn loadavg_fields(raw: Seq<char>) -> Option<(Seq<char>, Seq<char>, Seq<char>)> {
    let parts = split_ws_seq(raw);
    if parts.len() < 3 {
        None
    } else {
        Some((parts[0], parts[1], parts[2]))
    }
}

/// Splits `/proc/loadavg` into its 1, 5 and 15 minute load averages;
/// `None` when the text holds fewer than three fields.
pub fn parse_proc_loadavg(raw: &str) -> (r: Option<LoadAverageText>)
    ensures
        match loadavg_fields(raw@) {
            None => r is None,
            Some(f) => r matches Some(l) && l.load1@ == f.0 && l.load5@ == f.1 && l.load15@
                == f.2,
        },
{
    let chars = chars_of(raw);
    let parts = split_whitespace_chars(chars.as_slice());
    if parts.len() < 3 {
        return None;
    }
    assert(parts@[0]@ == split_ws_seq(raw@)[0]);
    assert(parts@[1]@ == split_ws_seq(raw@)[1]);
    assert(parts@[2]@ == split_ws_seq(raw@)[2]);
    Some(
        LoadAverageText {
            load1: string_from_chars(parts[0].as_slice()),
            load5: string_from_chars(parts[1].as_slice()),
            load15: string_from_chars(parts[2].as_slice()),
        },
    )
}

// ---------------------------------------------------------------- network

/// The counters of a network interface.
#[derive(Debug, Clone, PartialEq, Eq)]
pub struct NetworkInfo {
    pub interface: String,
    pub bytes_received: u64,
    pub bytes_transmitted: u64,
    pub packets_received: u64,
    pub packets_transmitted: u64,
    pub receive_errors: u64,
    pub transmit_errors: u64,
}

/// The counters of a network interface, with its name as characters.
pub struct NetworkInfoView {
    pub interface: Seq<char>,
    pub bytes_received: u64,
    pub bytes_transmitted: u64,
    pub packets_received: u64,
    pub packets_transmitted: u64,
    pub receive_errors: u64,
    pub transmit_errors: u64,
}

impl View for NetworkInfo {
    type V = NetworkInfoView;

    open spec fn view(&self) -> NetworkInfoView {
        NetworkInfoView {
            interface: self.interface@,
            bytes_received: self.bytes_received,
            bytes_transmitted: self.bytes_transmitted,
            packets_received: self.packets_received,
            packets_transmitted: self.packets_transmitted,
            receive_errors: self.receive_errors,
            transmit_errors: self.transmit_errors,
        }
    }
}

/// The views of a sequence of interfaces.
pub open spec fn network_views(v: Seq<NetworkInfo>) -> Seq<NetworkInfoView> {
    Seq::new(v.len(), |i: int| v[i]@)
}

/// The interface a `/proc/net/dev` line describes, such as
/// `eth0: 1234 89 0 ...`: the trimmed line split at `:`; the name before the
/// first colon (trimmed), and at least sixteen numbers between the first and
/// the second colon, of which the 1st, 2nd, 3rd are the received bytes,
/// packets and errors and the 9th, 10th, 11th the transmitted ones.
pub open spec fn net_dev_row(line: Seq<char>) -> Option<NetworkInfoView> {
    let t = trim_seq(line);
    let parts = split_seq(t, ':');
    if t.len() == 0 || parts.len() < 2 {
        None
    } else {
        let nums = parsed_numbers(split_ws_seq(parts[1]));
        if nums.len() < 16 {
            None
        } else {
            Some(
                NetworkInfoView {
                    interface: trim_seq(parts[0]),
                    bytes_received: nums[0],
                    bytes_transmitted: nums[8],
                    packets_received: nums[1],
                    packets_transmitted: nums[9],
                    receive_errors: nums[2],
                    transmit_errors: nums[10],
                },
            )
        }
    }
}

/// The interfaces described by `lines`, in order.
pub open spec fn net_dev_rows(lines: Seq<Seq<char>>) -> Seq<NetworkInfoView>
    decreases lines.len(),
{
    if lines.len() == 0 {
        Seq::empty()
    } else {
        match net_dev_row(lines[0]) {
            Some(r) => seq![r] + net_dev_rows(lines.drop_first()),
            None => net_dev_rows(lines.drop_first()),
        }
    }
}

/// The interfaces of `/proc/net/dev`: every line after the two header
/// lines that describes one.
pub open spec fn proc_net_dev(raw: Seq<char>) -> Seq<NetworkInfoView> {
    let lines = lines_seq(raw);
    if lines.len() <= 2 {
        Seq::empty()
    } else {
        net_dev_rows(lines.skip(2))
    }
}

fn net_dev_line(line: &[char]) -> (r: Option<NetworkInfo>)
    ensures
        match net_dev_row(line@) {
            Some(v) => r matches Some(n) && n@ == v,
            None => r is None,
        },
{
    let t = trim_chars(line);
    let parts = split_chars(t.as_slice(), ':');
    if t.len() == 0 || parts.len() < 2 {
        return None;
    }
    let words = split_whitespace_chars(parts[1].as_slice());
    let nums = parse_numbers(words.as_slice(), 0);
    assert(vec_views(words@).skip(0) =~= vec_views(words@));
    if nums.len() < 16 {
        return None;
    }
    let name = trim_chars(parts[0].as_slice());
    Some(
        NetworkInfo {
            interface: string_from_chars(name.as_slice()),
            bytes_received: nums[0],
            bytes_transmitted: nums[8],
            packets_received: nums[1],
            packets_transmitted: nums[9],
            receive_errors: nums[2],
            transmit_errors: nums[10],
        },
    )
}

/// Parses `/proc/net/dev` into the counters of each interface.
pub fn parse_proc_net_dev(raw: &str) -> (r: Vec<NetworkInfo>)
    ensures
        network_views(r@) == proc_net_dev(raw@),
{
    let chars = chars_of(raw);
    let lines = lines_chars(chars.as_slice());
    let ghost all = vec_views(lines@);
    let mut out: Vec<NetworkInfo> = Vec::new();
    if lines.len() <= 2 {
        assert(network_views(out@) =~= Seq::<NetworkInfoView>::empty());
        return out;
    }
    let mut i: usize = 2;
    assert(network_views(out@) =~= Seq::<NetworkInfoView>::empty());
    assert(all.skip(2).skip(0) =~= all.skip(2));
    while i < lines.len()
        invariant
            2 <= i <= lines@.len(),
            all == vec_views(lines@),
            network_views(out@) + net_dev_rows(all.skip(i as int)) == net_dev_rows(all.skip(2)),
        decreases lines.len() - i,
    {
        let ghost before = network_views(out@);
        assert(all.skip(i as int).drop_first() =~= all.skip(i + 1));
        assert(all.skip(i as int)[0] == lines@[i as int]@);
        match net_dev_line(lines[i].as_slice()) {
            Some(n) => {
                out.push(n);
                assert(network_views(out@) =~= before.push(n@));
                assert(before.push(n@) + net_dev_rows(all.skip(i + 1)) =~= before + (seq![n@]
                    + net_dev_rows(all.skip(i + 1))));
            },
            None => {},
        }
        i = i + 1;
    }
    assert(all.skip(i as int) =~= Seq::<Seq<char>>::empty());
    assert(network_views(out@) + Seq::<NetworkInfoView>::empty() =~= network_views(out@));
    out
}

/// The counters of an interface since an earlier sample: each counter's
/// growth, zero where it went down.
pub open spec fn network_delta(curr: NetworkInfoView, prev: NetworkInfoView) -> NetworkInfoView {
    NetworkInfoView {
        interface: curr.interface,
        bytes_received: sat_sub(curr.bytes_received, prev.bytes_received),
        bytes_transmitted: sat_sub(curr.bytes_transmitted, prev.bytes_transmitted),
        packets_received: sat_sub(curr.packets_received, prev.packets_received),
        packets_transmitted: sat_sub(curr.packets_transmitted, prev.packets_transmitted),
        receive_errors: sat_sub(curr.receive_errors, prev.receive_errors),
        transmit_errors: sat_sub(curr.transmit_errors, prev.transmit_errors),
    }
}

/// The traffic of each interface since the previous sample, interface by
/// interface in order (as many as both samples have); without a previous
/// sample, the cumulative counters.
pub fn network_deltas(curr: &[NetworkInfo], prev: Option<&[NetworkInfo]>) -> (r: Vec<NetworkInfo>)
    ensures
        match prev {
            None => network_views(r@) == network_views(curr@),
            Some(p) => {
                &&& r@.len() == if curr@.len() < p@.len() {
                    curr@.len()
                } else {
                    p@.len()
                }
                &&& forall|i: int|
                    0 <= i < r@.len() ==> (#[trigger] r@[i])@ == network_delta(curr@[i]@, p@[i]@)
            },
        },
{
    let mut out: Vec<NetworkInfo> = Vec::new();
    match prev {
        None => {
            let mut i: usize = 0;
            while i < curr.len()
                invariant
                    i <= curr@.len(),
                    out@.len() == i,
                    forall|k: int| 0 <= k < i ==> (#[trigger] out@[k])@ == curr@[k]@,
                decreases curr.len() - i,
            {
                let c = &curr[i];
                out.push(
                    NetworkInfo {
                        interface: c.interface.clone(),
                        bytes_received: c.bytes_received,
                        bytes_transmitted: c.bytes_transmitted,
                        packets_received: c.packets_received,
                        packets_transmitted: c.packets_transmitted,
                        receive_errors: c.receive_errors,
                        transmit_errors: c.transmit_errors,
                    },
                );
                i = i + 1;
            }
            assert(network_views(out@) =~= network_views(curr@));
        },
        Some(p) => {
            let n: usize = if curr.len() < p.len() {
                curr.len()
            } else {
                p.len()
            };
            let mut i: usize = 0;
            while i < n
                invariant
                    n <= curr@.len(),
                    n <= p@.len(),
                    n == (if curr@.len() < p@.len() {
                        curr@.len()
                    } else {
                        p@.len()
                    }),
                    i <= n,
                    out@.len() == i,
                    forall|k: int|
                        0 <= k < i ==> (#[trigger] out@[k])@ == network_delta(curr@[k]@, p@[k]@),
                decreases n - i,
            {
                let c = &curr[i];
                let q = &p[i];
                out.push(
                    NetworkInfo {
                        interface: c.interface.clone(),
                        bytes_received: c.bytes_received.saturating_sub(q.bytes_received),
                        bytes_transmitted: c.bytes_transmitted.saturating_sub(q.bytes_transmitted),
                        packets_received: c.packets_received.saturating_sub(q.packets_received),
                        packets_transmitted: c.packets_transmitted.saturating_sub(
                            q.packets_transmitted,
                        ),
                        receive_errors: c.receive_errors.saturating_sub(q.receive_errors),
                        transmit_errors: c.transmit_errors.saturating_sub(q.transmit_errors),
                    },
                );
                i = i + 1;
            }
        },
    }
    out
}

// ---------------------------------------------------------------- disks

/// A disk device or mount point: its I/O counters from `/proc/diskstats`
/// and its space from `df`. The usage percentage is kept as the text `df`
/// printed, without its `%`.
#[derive(Debug, Clone, PartialEq, Eq)]
pub struct DiskStat {
    pub mount: String,
    pub device: String,
    pub total_mb: u64,
    pub used_mb: u64,
    pub available_mb: u64,
    pub usage_percent: String,
    pub bytes_read: u64,
    pub bytes_written: u64,
    pub reads: u64,
    pub writes: u64,
}

/// A disk with its texts as characters.
pub struct DiskStatView {
    pub mount: Seq<char>,
    pub device: Seq<char>,
    pub total_mb: u64,
    pub used_mb: u64,
    pub available_mb: u64,
    pub usage_percent: Seq<char>,
    pub bytes_read: u64,
    pub bytes_written: u64,
    pub reads: u64,
    pub writes: u64,
}

impl View for DiskStat {
    type V = DiskStatView;

    open spec fn view(&self) -> DiskStatView {
        DiskStatView {
            mount: self.mount@,
            device: self.device@,
            total_mb: self.total_mb,
            used_mb: self.used_mb,
            available_mb: self.available_mb,
            usage_percent: self.usage_percent@,
            bytes_read: self.bytes_read,
            bytes_written: self.bytes_written,
            reads: self.reads,
            writes: self.writes,
        }
    }
}

/// The views of a sequence of disks.
pub open spec fn disk_views(v: Seq<DiskStat>) -> Seq<DiskStatView> {
    Seq::new(v.len(), |i: int| v[i]@)
}

/// Whether the sector counts of a `/proc/diskstats` line, in bytes, fit in
/// 64 bits.
pub open spec fn diskstat_line_fits(line: Seq<char>) -> bool {
    let parts = split_ws_seq(line);
    parts.len() < 14 || (number_or_zero(parts[5]) * 512 <= u64::MAX && number_or_zero(parts[9])
        * 512 <= u64::MAX)
}

/// Whether the sector counts of every line of `/proc/diskstats`, in bytes,
/// fit in 64 bits.
pub open spec fn diskstats_fit(raw: Seq<char>) -> bool {
    forall|i: int|
        0 <= i < lines_seq(raw).len() ==> diskstat_line_fits(#[trigger] lines_seq(raw)[i])
}

/// The device a `/proc/diskstats` line describes: a line of at least
/// fourteen words; the third is the device name, the 4th and 8th the reads
/// and writes completed, the 6th and 10th the sectors read and written
/// (512 bytes each); words that are not numbers count as zero.
pub open spec fn diskstat_row(line: Seq<char>) -> Option<DiskStatView> {
    let parts = split_ws_seq(line);
    if parts.len() < 14 {
        None
    } else {
        Some(
            DiskStatView {
                mount: Seq::empty(),
                device: parts[2],
                total_mb: 0,
                used_mb: 0,
                available_mb: 0,
                usage_percent: Seq::empty(),
                bytes_read: (number_or_zero(parts[5]) * 512) as u64,
                bytes_written: (number_or_zero(parts[9]) * 512) as u64,
                reads: number_or_zero(parts[3]),
                writes: number_or_zero(parts[7]),
            },
        )
    }
}

/// The devices described by `lines`, in order.
pub open spec fn diskstat_rows(lines: Seq<Seq<char>>) -> Seq<DiskStatView>
    decreases lines.len(),
{
    if lines.len() == 0 {
        Seq::empty()
    } else {
        match diskstat_row(lines[0]) {
            Some(r) => seq![r] + diskstat_rows(lines.drop_first()),
            None => diskstat_rows(lines.drop_first()),
        }
    }
}

fn diskstat_line(line: &[char]) -> (r: Option<DiskStat>)
    requires
        diskstat_line_fits(line@),
    ensures
        match diskstat_row(line@) {
            Some(v) => r matches Some(d) && d@ == v,
            None => r is None,
        },
{
    let parts = split_whitespace_chars(line);
    if parts.len() < 14 {
        return None;
    }
    let reads_completed = number_or_zero_of(parts[3].as_slice());
    let reads_sectors = number_or_zero_of(parts[5].as_slice());
    let writes_completed = number_or_zero_of(parts[7].as_slice());
    let writes_sectors = number_or_zero_of(parts[9].as_slice());
    Some(
        DiskStat {
            device: string_from_chars(parts[2].as_slice()),
            mount: String::new(),
            total_mb: 0,
            used_mb: 0,
            available_mb: 0,
            usage_percent: String::new(),
            bytes_read: reads_sectors * 512,
            bytes_written: writes_sectors * 512,
            reads: reads_completed,
            writes: writes_completed,
        },
    )
}

/// Whether `diskstats_fit` holds of the text of `/proc/diskstats`.
pub fn diskstats_fit_check(raw: &str) -> (r: bool)
    ensures
        r == diskstats_fit(raw@),
{
    let chars = chars_of(raw);
    let lines = lines_chars(chars.as_slice());
    let ghost all = vec_views(lines@);
    let mut i: usize = 0;
    while i < lines.len()
        invariant
            i <= lines@.len(),
            all == vec_views(lines@),
            all == lines_seq(raw@),
            forall|k: int| 0 <= k < i ==> diskstat_line_fits(#[trigger] all[k]),
        decreases lines.len() - i,
    {
        let parts = split_whitespace_chars(lines[i].as_slice());
        if parts.len() >= 14 {
            let a = number_or_zero_of(parts[5].as_slice());
            let b = number_or_zero_of(parts[9].as_slice());
            if a > u64::MAX / 512 || b > u64::MAX / 512 {
                assert(!diskstat_line_fits(all[i as int]));
                return false;
            }
        }
        assert(diskstat_line_fits(all[i as int]));
        i = i + 1;
    }
    true
}

/// The devices of `/proc/diskstats`: every line that describes one.
pub fn parse_proc_diskstats(raw: &str) -> (r: Vec<DiskStat>)
    requires
        diskstats_fit(raw@),
    ensures
        disk_views(r@) == diskstat_rows(lines_seq(raw@)),
{
    let chars = chars_of(raw);
    let lines = lines_chars(chars.as_slice());
    let ghost all = vec_views(lines@);
    let mut out: Vec<DiskStat> = Vec::new();
    let mut i: usize = 0;
    assert(disk_views(out@) =~= Seq::<DiskStatView>::empty());
    assert(all.skip(0) =~= all);
    while i < lines.len()
        invariant
            i <= lines@.len(),
            all == vec_views(lines@),
            all == lines_seq(raw@),
            diskstats_fit(raw@),
            disk_views(out@) + diskstat_rows(all.skip(i as int)) == diskstat_rows(all),
        decreases lines.len() - i,
    {
        let ghost before = disk_views(out@);
        assert(all.skip(i as int).drop_first() =~= all.skip(i + 1));
        assert(all.skip(i as int)[0] == lines@[i as int]@);
        assert(diskstat_line_fits(all[i as int]));
        match diskstat_line(lines[i].as_slice()) {
            Some(d) => {
                out.push(d);
                assert(disk_views(out@) =~= before.push(d@));
                assert(before.push(d@) + diskstat_rows(all.skip(i + 1)) =~= before + (seq![d@]
                    + diskstat_rows(all.skip(i + 1))));
            },
            None => {},
        }
        i = i + 1;
    }
    assert(all.skip(i as int) =~= Seq::<Seq<char>>::empty());
    assert(disk_views(out@) + Seq::<DiskStatView>::empty() =~= disk_views(out@));
    out
}

/// One MiB in bytes.
pub const MIB: u64 = 1048576;

/// The mount point a line of `df -B1 --output=target,size,used,avail,pcent`
/// describes: a line of at least five words; the mount point, the size,
/// used and available bytes (in MiB, rounded down; zero when not a number)
/// and the usage percentage without its trailing `%` signs.
pub open spec fn df_row(line: Seq<char>) -> Option<DiskStatView> {
    let parts = split_ws_seq(line);
    if parts.len() < 5 {
        None
    } else {
        Some(
            DiskStatView {
                mount: parts[0],
                device: Seq::empty(),
                total_mb: number_or_zero(parts[1]) / MIB,
                used_mb: number_or_zero(parts[2]) / MIB,
                available_mb: number_or_zero(parts[3]) / MIB,
                usage_percent: trim_end_char(parts[4], '%'),
                bytes_read: 0,
                bytes_written: 0,
                reads: 0,
                writes: 0,
            },
        )
    }
}

/// The mount points described by `lines`, in order.
pub open spec fn df_rows(lines: Seq<Seq<char>>) -> Seq<DiskStatView>
    decreases lines.len(),
{
    if lines.len() == 0 {
        Seq::empty()
    } else {
        match df_row(lines[0]) {
            Some(r) => seq![r] + df_rows(lines.drop_first()),
            None => df_rows(lines.drop_first()),
        }
    }
}

/// The mount points of the output of `df`: every line after the header
/// that describes one.
pub open spec fn df_output(raw: Seq<char>) -> Seq<DiskStatView> {
    let lines = lines_seq(raw);
    if lines.len() <= 1 {
        Seq::empty()
    } else {
        df_rows(lines.skip(1))
    }
}

fn df_line(line: &[char]) -> (r: Option<DiskStat>)
    ensures
        match df_row(line@) {
            Some(v) => r matches Some(d) && d@ == v,
            None => r is None,
        },
{
    let parts = split_whitespace_chars(line);
    if parts.len() < 5 {
        return None;
    }
    let size = number_or_zero_of(parts[1].as_slice()) / MIB;
    let used = number_or_zero_of(parts[2].as_slice()) / MIB;
    let avail = number_or_zero_of(parts[3].as_slice()) / MIB;
    let pct = trim_end_char_exec(parts[4].as_slice(), '%');
    Some(
        DiskStat {
            device: String::new(),
            mount: string_from_chars(parts[0].as_slice()),
            total_mb: size,
            used_mb: used,
            available_mb: avail,
            usage_percent: string_from_chars(pct.as_slice()),
            bytes_read: 0,
            bytes_written: 0,
            reads: 0,
            writes: 0,
        },
    )
}

/// Parses the output of `df -B1 --output=target,size,used,avail,pcent`.
pub fn parse_df_output(raw: &str) -> (r: Vec<DiskStat>)
    ensures
        disk_views(r@) == df_output(raw@),
{
    let chars = chars_of(raw);
    let lines = lines_chars(chars.as_slice());
    let ghost all = vec_views(lines@);
    let mut out: Vec<DiskStat> = Vec::new();
    assert(disk_views(out@) =~= Seq::<DiskStatView>::empty());
    if lines.len() <= 1 {
        return out;
    }
    let mut i: usize = 1;
    assert(all.skip(1).skip(0) =~= all.skip(1));
    while i < lines.len()
        invariant
            1 <= i <= lines@.len(),
            all == vec_views(lines@),
            disk_views(out@) + df_rows(all.skip(i as int)) == df_rows(all.skip(1)),
        decreases lines.len() - i,
    {
        let ghost before = disk_views(out@);
        assert(all.skip(i as int).drop_first() =~= all.skip(i + 1));
        assert(all.skip(i as int)[0] == lines@[i as int]@);
        match df_line(lines[i].as_slice()) {
            Some(d) => {
                out.push(d);
                assert(disk_views(out@) =~= before.push(d@));
                assert(before.push(d@) + df_rows(all.skip(i + 1)) =~= before + (seq![d@]
                    + df_rows(all.skip(i + 1))));
            },
            None => {},
        }
        i = i + 1;
    }
    assert(all.skip(i as int) =~= Seq::<Seq<char>>::empty());
    assert(disk_views(out@) + Seq::<DiskStatView>::empty() =~= disk_views(out@));
    out
}

/// Whether a device takes the space figures of a `df` mount: it is not
/// `loop` or `sr0` and has no mount point yet.
pub open spec fn takes_usage(d: DiskStatView) -> bool {
    d.device != "loop"@ && d.device != "sr0"@ && d.mount.len() == 0
}

/// A device with the mount point and space figures of `u`.
pub open spec fn with_usage(d: DiskStatView, u: DiskStatView) -> DiskStatView {
    DiskStatView {
        mount: u.mount,
        total_mb: u.total_mb,
        used_mb: u.used_mb,
        available_mb: u.available_mb,
        usage_percent: u.usage_percent,
        ..d
    }
}

/// Every device that takes space figures takes those of `u`.
pub open spec fn apply_usage(disks: Seq<DiskStatView>, u: DiskStatView) -> Seq<DiskStatView> {
    Seq::new(
        disks.len(),
        |i: int|
            if takes_usage(disks[i]) {
                with_usage(disks[i], u)
            } else {
                disks[i]
            },
    )
}

/// The devices after the mounts of `usage` are applied in order.
pub open spec fn apply_all_usage(disks: Seq<DiskStatView>, usage: Seq<DiskStatView>) -> Seq<
    DiskStatView,
>
    decreases usage.len(),
{
    if usage.len() == 0 {
        disks
    } else {
        apply_usage(apply_all_usage(disks, usage.drop_last()), usage.last())
    }
}

/// Whether some entry of `disks` has mount point `mount`.
pub open spec fn has_mount(disks: Seq<DiskStatView>, mount: Seq<char>) -> bool {
    exists|i: int| 0 <= i < disks.len() && (#[trigger] disks[i]).mount == mount
}

/// The entry of a mount point that matched no device: its space figures,
/// no device and no I/O counters.
pub open spec fn mount_entry(u: DiskStatView) -> DiskStatView {
    DiskStatView {
        mount: u.mount,
        device: Seq::empty(),
        total_mb: u.total_mb,
        used_mb: u.used_mb,
        available_mb: u.available_mb,
        usage_percent: u.usage_percent,
        bytes_read: 0,
        bytes_written: 0,
        reads: 0,
        writes: 0,
    }
}

/// `disks` with an entry appended, in order, for each mount of `usage`
/// whose mount point is not yet listed.
pub open spec fn add_missing_mounts(disks: Seq<DiskStatView>, usage: Seq<DiskStatView>) -> Seq<
    DiskStatView,
>
    decreases usage.len(),
{
    if usage.len() == 0 {
        disks
    } else {
        let d = add_missing_mounts(disks, usage.drop_last());
        if has_mount(d, usage.last().mount) {
            d
        } else {
            d.push(mount_entry(usage.last()))
        }
    }
}

/// The disks of a sample: the devices of `/proc/diskstats` with the space
/// of the `df` mounts applied, then the mounts no device took.
pub open spec fn merged_disks(diskstats: Seq<DiskStatView>, usage: Seq<DiskStatView>) -> Seq<
    DiskStatView,
> {
    add_missing_mounts(apply_all_usage(diskstats, usage), usage)
}

/// A copy of a disk entry.
fn copy_disk(d: &DiskStat) -> (r: DiskStat)
    ensures
        r@ == d@,
{
    DiskStat {
        mount: d.mount.clone(),
        device: d.device.clone(),
        total_mb: d.total_mb,
        used_mb: d.used_mb,
        available_mb: d.available_mb,
        usage_percent: d.usage_percent.clone(),
        bytes_read: d.bytes_read,
        bytes_written: d.bytes_written,
        reads: d.reads,
        writes: d.writes,
    }
}

/// Whether a device takes the space figures of a `df` mount.
fn takes_usage_exec(d: &DiskStat) -> (r: bool)
    ensures
        r == takes_usage(d@),
{
    proof {
        reveal_strlit("loop");
        reveal_strlit("sr0");
    }
    !crate::text::str_eq(d.device.as_str(), "loop") && !crate::text::str_eq(
        d.device.as_str(),
        "sr0",
    ) && d.mount.unicode_len() == 0
}

/// Merges the `df` mounts into the devices of `/proc/diskstats`.
pub fn merge_disk_usage(diskstats: Vec<DiskStat>, usage: &[DiskStat]) -> (r: Vec<DiskStat>)
    ensures
        disk_views(r@) == merged_disks(disk_views(diskstats@), disk_views(usage@)),
{
    let ghost start = disk_views(diskstats@);
    let ghost uv = disk_views(usage@);
    let mut disks = diskstats;
    let mut j: usize = 0;
    assert(uv.take(0) =~= Seq::<DiskStatView>::empty());
    while j < usage.len()
        invariant
            j <= usage@.len(),
            uv == disk_views(usage@),
            disk_views(disks@) == apply_all_usage(start, uv.take(j as int)),
        decreases usage.len() - j,
    {
        let ghost before = disk_views(disks@);
        let u = &usage[j];
        let mut k: usize = 0;
        while k < disks.len()
            invariant
                k <= disks@.len(),
                before.len() == disks@.len(),
                u@ == uv[j as int],
                forall|i: int|
                    0 <= i < k ==> (#[trigger] disks@[i])@ == apply_usage(before, u@)[i],
                forall|i: int| k <= i < disks@.len() ==> (#[trigger] disks@[i])@ == before[i],
            decreases disks.len() - k,
        {
            if takes_usage_exec(&disks[k]) {
                let d = &disks[k];
                let updated = DiskStat {
                    mount: u.mount.clone(),
                    device: d.device.clone(),
                    total_mb: u.total_mb,
                    used_mb: u.used_mb,
                    available_mb: u.available_mb,
                    usage_percent: u.usage_percent.clone(),
                    bytes_read: d.bytes_read,
                    bytes_written: d.bytes_written,
                    reads: d.reads,
                    writes: d.writes,
                };
                disks.set(k, updated);
            }
            k = k + 1;
        }
        assert(disk_views(disks@) =~= apply_usage(before, u@));
        assert(uv.take(j + 1).drop_last() =~= uv.take(j as int));
        assert(uv.take(j + 1).last() == u@);
        j = j + 1;
    }
    assert(uv.take(usage@.len() as int) =~= uv);
    let ghost applied = disk_views(disks@);
    j = 0;
    assert(uv.take(0) =~= Seq::<DiskStatView>::empty());
    while j < usage.len()
        invariant
            j <= usage@.len(),
            uv == disk_views(usage@),
            disk_views(disks@) == add_missing_mounts(applied, uv.take(j as int)),
        decreases usage.len() - j,
    {
        let ghost before = disk_views(disks@);
        let u = &usage[j];
        let mut found = false;
        let mut k: usize = 0;
        while k < disks.len()
            invariant
                k <= disks@.len(),
                before == disk_views(disks@),
                found == exists|i: int| 0 <= i < k && (#[trigger] before[i]).mount == u@.mount,
            decreases disks.len() - k,
        {
            if crate::text::str_eq(disks[k].mount.as_str(), u.mount.as_str()) {
                found = true;
            }
            assert(before[k as int] == disks@[k as int]@);
            k = k + 1;
        }
        assert(found == has_mount(before, u@.mount));
        if !found {
            let entry = DiskStat {
                device: String::new(),
                mount: u.mount.clone(),
                total_mb: u.total_mb,
                used_mb: u.used_mb,
                available_mb: u.available_mb,
                usage_percent: u.usage_percent.clone(),
                bytes_read: 0,
                bytes_written: 0,
                reads: 0,
                writes: 0,
            };
            disks.push(entry);
            assert(disk_views(disks@) =~= before.push(mount_entry(u@)));
        }
        assert(uv.take(j + 1).drop_last() =~= uv.take(j as int));
        assert(uv.take(j + 1).last() == u@);
        j = j + 1;
    }
    assert(uv.take(usage@.len() as int) =~= uv);
    disks
}

/// The I/O of a disk since an earlier sample: each I/O counter's growth,
/// zero where it went down; the space figures are the current ones.
pub open spec fn disk_delta(curr: DiskStatView, prev: DiskStatView) -> DiskStatView {
    DiskStatView {
        bytes_read: sat_sub(curr.bytes_read, prev.bytes_read),
        bytes_written: sat_sub(curr.bytes_written, prev.bytes_written),
        reads: sat_sub(curr.reads, prev.reads),
        writes: sat_sub(curr.writes, prev.writes),
        ..curr
    }
}

/// The I/O of each disk since the previous sample, disk by disk in order
/// (as many as both samples have); without a previous sample, the
/// cumulative counters.
pub fn disk_deltas(curr: &[DiskStat], prev: Option<&[DiskStat]>) -> (r: Vec<DiskStat>)
    ensures
        match prev {
            None => disk_views(r@) == disk_views(curr@),
            Some(p) => {
                &&& r@.len() == if curr@.len() < p@.len() {
                    curr@.len()
                } else {
                    p@.len()
                }
                &&& forall|i: int|
                    0 <= i < r@.len() ==> (#[trigger] r@[i])@ == disk_delta(curr@[i]@, p@[i]@)
            },
        },
{
    let mut out: Vec<DiskStat> = Vec::new();
    match prev {
        None => {
            let mut i: usize = 0;
            while i < curr.len()
                invariant
                    i <= curr@.len(),
                    out@.len() == i,
                    forall|k: int| 0 <= k < i ==> (#[trigger] out@[k])@ == curr@[k]@,
                decreases curr.len() - i,
            {
                out.push(copy_disk(&curr[i]));
                i = i + 1;
            }
            assert(disk_views(out@) =~= disk_views(curr@));
        },
        Some(p) => {
            let n: usize = if curr.len() < p.len() {
                curr.len()
            } else {
                p.len()
            };
            let mut i: usize = 0;
            while i < n
                invariant
                    n <= curr@.len(),
                    n <= p@.len(),
                    n == (if curr@.len() < p@.len() {
                        curr@.len()
                    } else {
                        p@.len()
                    }),
                    i <= n,
                    out@.len() == i,
                    forall|k: int|
                        0 <= k < i ==> (#[trigger] out@[k])@ == disk_delta(curr@[k]@, p@[k]@),
                decreases n - i,
            {
                let c = &curr[i];
                let q = &p[i];
                out.push(
                    DiskStat {
                        mount: c.mount.clone(),
                        device: c.device.clone(),
                        total_mb: c.total_mb,
                        used_mb: c.used_mb,
                        available_mb: c.available_mb,
                        usage_percent: c.usage_percent.clone(),
                        bytes_read: c.bytes_read.saturating_sub(q.bytes_read),
                        bytes_written: c.bytes_written.saturating_sub(q.bytes_written),
                        reads: c.reads.saturating_sub(q.reads),
                        writes: c.writes.saturating_sub(q.writes),
                    },
                );
                i = i + 1;
            }
        },
    }
    out
}

// ---------------------------------------------------------------- GPUs

/// What a column of the `nvidia-smi` CSV output holds.
#[derive(Debug, Clone, Copy, PartialEq, Eq, Structural)]
pub enum GpuColumn {
    Name,
    Utilization,
    MemoryUsed,
    MemoryTotal,
    Temperature,
    Power,
}

/// What a (lower-cased) header of the `nvidia-smi` CSV output names, by
/// the words it contains, tried in this order: a name (not of VRAM), the
/// GPU utilization, used memory, total memory, the temperature, the power
/// draw (a power that is not a limit).
pub open spec fn column_kind(h: Seq<char>) -> Option<GpuColumn> {
    if contains_seq(h, "name"@) && !contains_seq(h, "vram"@) {
        Some(GpuColumn::Name)
    } else if contains_seq(h, "utilization"@) && contains_seq(h, "gpu"@) {
        Some(GpuColumn::Utilization)
    } else if contains_seq(h, "used"@) && contains_seq(h, "memory"@) {
        Some(GpuColumn::MemoryUsed)
    } else if contains_seq(h, "total"@) && contains_seq(h, "memory"@) {
        Some(GpuColumn::MemoryTotal)
    } else if contains_seq(h, "temperature"@) {
        Some(GpuColumn::Temperature)
    } else if contains_seq(h, "power.draw"@) || (contains_seq(h, "power"@) && !contains_seq(
        h,
        "limit"@,
    )) {
        Some(GpuColumn::Power)
    } else {
        None
    }
}

/// The last of `headers` that holds `kind`.
pub open spec fn last_column(headers: Seq<Seq<char>>, kind: GpuColumn) -> Option<int>
    decreases headers.len(),
{
    if headers.len() == 0 {
        None
    } else if column_kind(headers.last()) == Some(kind) {
        Some(headers.len() - 1)
    } else {
        last_column(headers.drop_last(), kind)
    }
}

/// The headers of the CSV output: the comma-separated fields of its first
/// line, trimmed and lower-cased.
pub open spec fn gpu_headers(header: Seq<char>) -> Seq<Seq<char>> {
    let parts = split_seq(header, ',');
    Seq::new(parts.len(), |i: int| lowercase(trim_seq(parts[i])))
}

/// Every header of the header line is ASCII text.
pub open spec fn ascii_headers(header: Seq<char>) -> bool {
    forall|i: int|
        0 <= i < split_seq(header, ',').len() ==> is_ascii_text(
            trim_seq(#[trigger] split_seq(header, ',')[i]),
        )
}

/// The headers of an ASCII header line: its comma-separated fields, trimmed,
/// with `A` to `Z` lower-cased (what [`gpu_headers`] gives on ASCII text).
pub open spec fn gpu_headers_ascii(header: Seq<char>) -> Seq<Seq<char>> {
    let parts = split_seq(header, ',');
    Seq::new(parts.len(), |i: int| trim_seq(parts[i]).map_values(|c: char| ascii_lower(c)))
}

/// The trimmed comma-separated fields of a line.
pub open spec fn csv_fields(line: Seq<char>) -> Seq<Seq<char>> {
    let parts = split_seq(line, ',');
    Seq::new(parts.len(), |i: int| trim_seq(parts[i]))
}

/// The field of a row in a column, if the column exists and the row has it.
pub open spec fn field_at(fields: Seq<Seq<char>>, column: Option<int>) -> Option<Seq<char>> {
    match column {
        Some(i) => if 0 <= i < fields.len() {
            Some(fields[i])
        } else {
            None
        },
        None => None,
    }
}

/// The text of a field, or nothing.
pub open spec fn field_text(fields: Seq<Seq<char>>, column: Option<int>) -> Seq<char> {
    match field_at(fields, column) {
        Some(f) => trim_seq(f),
        None => Seq::empty(),
    }
}

/// The number in a field, or zero.
pub open spec fn field_number(fields: Seq<Seq<char>>, column: Option<int>) -> u64 {
    match field_at(fields, column) {
        Some(f) => number_or_zero(trim_seq(f)),
        None => 0,
    }
}

/// One GPU of the `nvidia-smi` output. Utilization, temperature and power
/// are kept as the text of their fields (empty when missing).
#[derive(Debug, Clone, PartialEq, Eq)]
pub struct GpuRow {
    pub name: String,
    pub index: u32,
    pub utilization: String,
    pub vram_total_mb: u64,
    pub vram_used_mb: u64,
    pub vram_free_mb: u64,
    pub temperature: String,
    pub power: String,
}

/// A GPU row with its texts as characters.
pub struct GpuRowView {
    pub name: Seq<char>,
    pub index: u32,
    pub utilization: Seq<char>,
    pub vram_total_mb: u64,
    pub vram_used_mb: u64,
    pub vram_free_mb: u64,
    pub temperature: Seq<char>,
    pub power: Seq<char>,
}

impl View for GpuRow {
    type V = GpuRowView;

    open spec fn view(&self) -> GpuRowView {
        GpuRowView {
            name: self.name@,
            index: self.index,
            utilization: self.utilization@,
            vram_total_mb: self.vram_total_mb,
            vram_used_mb: self.vram_used_mb,
            vram_free_mb: self.vram_free_mb,
            temperature: self.temperature@,
            power: self.power@,
        }
    }
}

/// The views of a sequence of GPU rows.
pub open spec fn gpu_views(v: Seq<GpuRow>) -> Seq<GpuRowView> {
    Seq::new(v.len(), |i: int| v[i]@)
}

/// The GPU on data line `idx` (counted from zero after the header) with the
/// given fields: its name is its name field, or `GPU <idx>`; free memory is
/// total less used, never below zero.
pub open spec fn gpu_row(headers: Seq<Seq<char>>, fields: Seq<Seq<char>>, idx: nat) -> GpuRowView {
    let total = field_number(fields, last_column(headers, GpuColumn::MemoryTotal));
    let used = field_number(fields, last_column(headers, GpuColumn::MemoryUsed));
    GpuRowView {
        name: match field_at(fields, last_column(headers, GpuColumn::Name)) {
            Some(n) => n,
            None => "GPU "@ + crate::text::decimal(idx),
        },
        index: idx as u32,
        utilization: field_text(fields, last_column(headers, GpuColumn::Utilization)),
        vram_total_mb: total,
        vram_used_mb: used,
        vram_free_mb: sat_sub(total, used),
        temperature: field_text(fields, last_column(headers, GpuColumn::Temperature)),
        power: field_text(fields, last_column(headers, GpuColumn::Power)),
    }
}

/// The GPUs of output whose header line is ASCII (what [`nvidia_smi`]
/// gives there), with the headers lower-cased letter by letter.
pub open spec fn nvidia_smi_ascii(raw: Seq<char>) -> Option<Seq<GpuRowView>> {
    let lines = lines_seq(raw);
    if lines.len() < 2 {
        None
    } else {
        let headers = gpu_headers_ascii(lines[0]);
        Some(
            Seq::new(
                (lines.len() - 1) as nat,
                |i: int| gpu_row(headers, csv_fields(lines[i + 1]), i as nat),
            ),
        )
    }
}

/// The GPUs of `nvidia-smi --format=csv,nounits` output: one per line
/// after the header; `None` when there is no line after the header.
pub open spec fn nvidia_smi(raw: Seq<char>) -> Option<Seq<GpuRowView>> {
    let lines = lines_seq(raw);
    if lines.len() < 2 {
        None
    } else {
        let headers = gpu_headers(lines[0]);
        Some(
            Seq::new(
                (lines.len() - 1) as nat,
                |i: int| gpu_row(headers, csv_fields(lines[i + 1]), i as nat),
            ),
        )
    }
}

/// The trimmed comma-separated fields of a line.
fn csv_fields_exec(line: &[char]) -> (r: Vec<Vec<char>>)
    ensures
        vec_views(r@) == csv_fields(line@),
{
    let parts = split_chars(line, ',');
    let mut out: Vec<Vec<char>> = Vec::new();
    let mut i: usize = 0;
    while i < parts.len()
        invariant
            i <= parts@.len(),
            vec_views(parts@) == split_seq(line@, ','),
            out@.len() == i,
            forall|k: int| 0 <= k < i ==> (#[trigger] out@[k])@ == trim_seq(parts@[k]@),
        decreases parts.len() - i,
    {
        out.push(trim_chars(parts[i].as_slice()));
        i = i + 1;
    }
    assert(vec_views(out@) =~= csv_fields(line@));
    out
}

/// The kind of column a lower-cased header names.
fn column_kind_exec(h: &[char]) -> (r: Option<GpuColumn>)
    ensures
        r == column_kind(h@),
{
    let name = chars_of("name");
    let vram = chars_of("vram");
    let utilization = chars_of("utilization");
    let gpu = chars_of("gpu");
    let used = chars_of("used");
    let memory = chars_of("memory");
    let total = chars_of("total");
    let temperature = chars_of("temperature");
    let power_draw = chars_of("power.draw");
    let power = chars_of("power");
    let limit = chars_of("limit");
    if contains_chars(h, name.as_slice()) && !contains_chars(h, vram.as_slice()) {
        Some(GpuColumn::Name)
    } else if contains_chars(h, utilization.as_slice()) && contains_chars(h, gpu.as_slice()) {
        Some(GpuColumn::Utilization)
    } else if contains_chars(h, used.as_slice()) && contains_chars(h, memory.as_slice()) {
        Some(GpuColumn::MemoryUsed)
    } else if contains_chars(h, total.as_slice()) && contains_chars(h, memory.as_slice()) {
        Some(GpuColumn::MemoryTotal)
    } else if contains_chars(h, temperature.as_slice()) {
        Some(GpuColumn::Temperature)
    } else if contains_chars(h, power_draw.as_slice()) || (contains_chars(h, power.as_slice())
        && !contains_chars(h, limit.as_slice())) {
        Some(GpuColumn::Power)
    } else {
        None
    }
}

/// The columns of each kind, from the header line.
struct GpuColumns {
    name: Option<usize>,
    utilization: Option<usize>,
    used: Option<usize>,
    total: Option<usize>,
    temperature: Option<usize>,
    power: Option<usize>,
}

/// An optional index as an optional integer.
spec fn opt_int(o: Option<usize>) -> Option<int> {
    match o {
        Some(i) => Some(i as int),
        None => None,
    }
}

impl GpuColumns {
    spec fn matches_headers(self, headers: Seq<Seq<char>>) -> bool {
        &&& opt_int(self.name) == last_column(headers, GpuColumn::Name)
        &&& opt_int(self.utilization) == last_column(headers, GpuColumn::Utilization)
        &&& opt_int(self.used) == last_column(headers, GpuColumn::MemoryUsed)
        &&& opt_int(self.total) == last_column(headers, GpuColumn::MemoryTotal)
        &&& opt_int(self.temperature) == last_column(headers, GpuColumn::Temperature)
        &&& opt_int(self.power) == last_column(headers, GpuColumn::Power)
    }
}

/// Finds the columns of each kind in the header line.
fn gpu_columns(header: &[char]) -> (r: GpuColumns)
    ensures
        r.matches_headers(gpu_headers(header@)),
        ascii_headers(header@) ==> r.matches_headers(gpu_headers_ascii(header@)),
{
    let parts = split_chars(header, ',');
    let ghost headers = gpu_headers(header@);
    let mut cols = GpuColumns {
        name: None,
        utilization: None,
        used: None,
        total: None,
        temperature: None,
        power: None,
    };
    let mut i: usize = 0;
    assert(headers.take(0) =~= Seq::<Seq<char>>::empty());
    while i < parts.len()
        invariant
            i <= parts@.len(),
            vec_views(parts@) == split_seq(header@, ','),
            headers == gpu_headers(header@),
            headers.len() == parts@.len(),
            cols.matches_headers(headers.take(i as int)),
            ascii_headers(header@) ==> forall|k: int|
                0 <= k < i ==> #[trigger] headers[k] == gpu_headers_ascii(header@)[k],
        decreases parts.len() - i,
    {
        let trimmed = trim_chars(parts[i].as_slice());
        let text = string_from_chars(trimmed.as_slice());
        let lowered = crate::text::to_lowercase(text.as_str());
        let h = chars_of(lowered.as_str());
        assert(h@ == headers[i as int]);
        proof {
            if ascii_headers(header@) {
                assert(split_seq(header@, ',')[i as int] == parts@[i as int]@);
                assert(is_ascii_text(trim_seq(split_seq(header@, ',')[i as int])));
                assert(headers[i as int] == gpu_headers_ascii(header@)[i as int]);
            }
        }
        assert(headers.take(i + 1).drop_last() =~= headers.take(i as int));
        assert(headers.take(i + 1).last() == headers[i as int]);
        match column_kind_exec(h.as_slice()) {
            Some(GpuColumn::Name) => cols.name = Some(i),
            Some(GpuColumn::Utilization) => cols.utilization = Some(i),
            Some(GpuColumn::MemoryUsed) => cols.used = Some(i),
            Some(GpuColumn::MemoryTotal) => cols.total = Some(i),
            Some(GpuColumn::Temperature) => cols.temperature = Some(i),
            Some(GpuColumn::Power) => cols.power = Some(i),
            None => {},
        }
        i = i + 1;
    }
    assert(headers.take(i as int) =~= headers);
    proof {
        if ascii_headers(header@) {
            assert(headers =~= gpu_headers_ascii(header@));
        }
    }
    cols
}

/// The field of a row in a column, trimmed; nothing when missing.
fn field_text_exec(fields: &[Vec<char>], column: Option<usize>) -> (r: Vec<char>)
    ensures
        r@ == field_text(vec_views(fields@), opt_int(column)),
{
    match column {
        Some(i) => if i < fields.len() {
            trim_chars(fields[i].as_slice())
        } else {
            Vec::new()
        },
        None => Vec::new(),
    }
}

/// The number in a field of a row, or zero.
fn field_number_exec(fields: &[Vec<char>], column: Option<usize>) -> (r: u64)
    ensures
        r == field_number(vec_views(fields@), opt_int(column)),
{
    match column {
        Some(i) => if i < fields.len() {
            let t = trim_chars(fields[i].as_slice());
            number_or_zero_of(t.as_slice())
        } else {
            0
        },
        None => 0,
    }
}

/// Parses the CSV output of `nvidia-smi` (with its header line) into the
/// GPUs it lists; `None` when it lists none.
pub fn parse_nvidia_smi(raw: &str) -> (r: Option<(Vec<String>, Vec<GpuRow>)>)
    ensures
        r is Some == nvidia_smi(raw@) is Some,
        r matches Some((names, g)) ==> gpu_views(g@) == nvidia_smi(raw@)->0 && names@.len()
            == g@.len() && forall|i: int| 0 <= i < names@.len() ==> (#[trigger] names@[i])@
            == g@[i].name@,
        ascii_headers(lines_seq(raw@)[0]) ==> (r matches Some((_, g)) ==> gpu_views(g@)
            == nvidia_smi_ascii(raw@)->0),
{
    proof {
        reveal_strlit("GPU ");
    }
    let chars = chars_of(raw);
    let lines = lines_chars(chars.as_slice());
    let ghost all = vec_views(lines@);
    if lines.len() < 2 {
        return None;
    }
    let cols = gpu_columns(lines[0].as_slice());
    let ghost headers = gpu_headers(all[0]);
    let mut gpus: Vec<GpuRow> = Vec::new();
    let mut names: Vec<String> = Vec::new();
    let mut i: usize = 1;
    while i < lines.len()
        invariant
            1 <= i <= lines@.len(),
            names@.len() == gpus@.len(),
            forall|k: int| 0 <= k < names@.len() ==> (#[trigger] names@[k])@ == gpus@[k].name@,
            all == vec_views(lines@),
            all == lines_seq(raw@),
            headers == gpu_headers(all[0]),
            cols.matches_headers(headers),
            gpus@.len() == i - 1,
            forall|k: int|
                0 <= k < i - 1 ==> (#[trigger] gpus@[k])@ == gpu_row(
                    headers,
                    csv_fields(all[k + 1]),
                    k as nat,
                ),
        decreases lines.len() - i,
    {
        let fields = csv_fields_exec(lines[i].as_slice());
        let idx: usize = i - 1;
        let ghost fv = vec_views(fields@);
        let name = match cols.name {
            Some(c) => if c < fields.len() {
                string_from_chars(fields[c].as_slice())
            } else {
                let mut n = "GPU ".to_owned();
                crate::text::push_decimal(&mut n, idx as u64);
                n
            },
            None => {
                let mut n = "GPU ".to_owned();
                crate::text::push_decimal(&mut n, idx as u64);
                n
            },
        };
        let total = field_number_exec(fields.as_slice(), cols.total);
        let used = field_number_exec(fields.as_slice(), cols.used);
        let utilization = field_text_exec(fields.as_slice(), cols.utilization);
        let temperature = field_text_exec(fields.as_slice(), cols.temperature);
        let power = field_text_exec(fields.as_slice(), cols.power);
        let row = GpuRow {
            name,
            index: idx as u32,
            utilization: string_from_chars(utilization.as_slice()),
            vram_total_mb: total,
            vram_used_mb: used,
            vram_free_mb: total.saturating_sub(used),
            temperature: string_from_chars(temperature.as_slice()),
            power: string_from_chars(power.as_slice()),
        };
        assert(row@ == gpu_row(headers, csv_fields(all[i as int]), idx as nat));
        names.push(row.name.clone());
        gpus.push(row);
        i = i + 1;
    }
    assert(gpu_views(gpus@) =~= nvidia_smi(raw@)->0);
    proof {
        if ascii_headers(all[0]) {
            assert(gpu_views(gpus@) =~= nvidia_smi_ascii(raw@)->0);
        }
    }
    Some((names, gpus))
}

// ---------------------------------------------------------------- settings

/// How often the monitor samples the system and how long samples are kept,
/// in seconds.
#[derive(Debug, Clone, Copy, PartialEq, Eq, Structural)]
pub struct MonitorConfig {
    /// Seconds between two samples.
    pub interval_secs: u64,
    /// Seconds a sample is kept.
    pub retention_secs: u64,
}

impl Default for MonitorConfig {
    /// A sample every five seconds, kept for a day.
    fn default() -> (c: Self)
        ensures
            c.interval_secs == 5,
            c.retention_secs == 24 * 3600,
    {
        MonitorConfig { interval_secs: 5, retention_secs: 24 * 3600 }
    }
}

impl MonitorConfig {
    /// The retention in whole hours (samples older than this many hours are
    /// removed).
    pub fn retention_hours(&self) -> (r: u64)
        ensures
            r == self.retention_secs / 3600,
    {
        self.retention_secs / 3600
    }
}

} // verus!
