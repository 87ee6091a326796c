//! Small pieces of the tooling around programs: where a built image lies, the names the
//! probe attributes give, and the table of disks read from the kernel's statistics.
use vstd::prelude::*;
use crate::section::append_bytes;

verus! {

/// Where the build leaves the iotop image under `out_dir`:
/// `<out_dir>/target/bpf/programs/iotop/iotop.elf`.
pub open spec fn image_suffix() -> Seq<u8> {
    seq![
        47u8, 116u8, 97u8, 114u8, 103u8, 101u8, 116u8, 47u8, 98u8, 112u8, 102u8, 47u8, 112u8,
        114u8, 111u8, 103u8, 114u8, 97u8, 109u8, 115u8, 47u8, 105u8, 111u8, 116u8, 111u8,
        112u8, 47u8, 105u8, 111u8, 116u8, 111u8, 112u8, 46u8, 101u8, 108u8, 102u8,
    ]
}

/// The path of the iotop probe image inside the build output directory `out_dir`.
pub fn probe_code(out_dir: &[u8]) -> (r: Vec<u8>)
    ensures
        r@ == out_dir@ + image_suffix(),
{
    let suffix = vec![
        47u8, 116u8, 97u8, 114u8, 103u8, 101u8, 116u8, 47u8, 98u8, 112u8, 102u8, 47u8, 112u8,
        114u8, 111u8, 103u8, 114u8, 97u8, 109u8, 115u8, 47u8, 105u8, 111u8, 116u8, 111u8,
        112u8, 47u8, 105u8, 111u8, 116u8, 111u8, 112u8, 46u8, 101u8, 108u8, 102u8,
    ];
    assert(suffix@ =~= image_suffix());
    let mut r: Vec<u8> = Vec::new();
    append_bytes(&mut r, out_dir);
    append_bytes(&mut r, suffix.as_slice());
    assert(r@ =~= out_dir@ + image_suffix());
    r
}

/// `outer_` in ASCII.
pub open spec fn outer_prefix() -> Seq<u8> {
    seq![111u8, 117u8, 116u8, 101u8, 114u8, 95u8]
}

/// The name of the entry point that wraps a probe function called `name`: `outer_<name>`.
pub fn outer_name(name: &[u8]) -> (r: Vec<u8>)
    ensures
        r@ == outer_prefix() + name@,
{
    let mut r = vec![111u8, 117u8, 116u8, 101u8, 114u8, 95u8];
    assert(r@ =~= outer_prefix());
    append_bytes(&mut r, name);
    r
}

/// Space, tab, line feed, form feed or carriage return.
pub open spec fn is_ws(b: u8) -> bool {
    b == 32u8 || b == 9u8 || b == 10u8 || b == 12u8 || b == 13u8
}

/// The first index at or after `i` that holds no white space.
pub open spec fn skip_ws(s: Seq<u8>, i: int) -> int
    decreases s.len() - i,
{
    if i < 0 || i >= s.len() || !is_ws(s[i]) {
        i
    } else {
        skip_ws(s, i + 1)
    }
}

/// The first index at or after `i` that holds white space, or the end.
pub open spec fn word_end(s: Seq<u8>, i: int) -> int
    decreases s.len() - i,
{
    if i < 0 || i >= s.len() || is_ws(s[i]) {
        i
    } else {
        word_end(s, i + 1)
    }
}

/// Whether every byte is an ASCII digit.
pub open spec fn all_digits(s: Seq<u8>) -> bool {
    forall|i: int| 0 <= i < s.len() ==> 48u8 <= #[trigger] s[i] <= 57u8
}

/// The number that a run of ASCII digits writes in decimal.
pub open spec fn decimal(s: Seq<u8>) -> int
    decreases s.len(),
{
    if s.len() == 0 {
        0
    } else {
        decimal(s.drop_last()) * 10 + (s.last() - 48u8)
    }
}

/// The value of a non-empty run of decimal digits, where it is at most `limit`.
pub open spec fn digits_value(w: Seq<u8>, limit: int) -> Option<int> {
    if w.len() > 0 && all_digits(w) && decimal(w) <= limit {
        Some(decimal(w))
    } else {
        None
    }
}

/// A decimal field with an optional sign, `+` or `-`, whose value fits an `i32`.
pub open spec fn number_field(w: Seq<u8>) -> Option<i32> {
    if w.len() > 0 && w[0] == 45u8 {
        match digits_value(w.skip(1), 0x8000_0000) {
            Some(v) => Some((-v) as i32),
            None => None,
        }
    } else if w.len() > 0 && w[0] == 43u8 {
        match digits_value(w.skip(1), i32::MAX as int) {
            Some(v) => Some(v as i32),
            None => None,
        }
    } else {
        match digits_value(w, i32::MAX as int) {
            Some(v) => Some(v as i32),
            None => None,
        }
    }
}

/// One line of the kernel's disk statistics: major number, minor number and device name,
/// the first three white-space separated fields. `None` where a number is not decimal
/// digits fitting an `i32`, or the name is missing.
pub open spec fn diskstat_spec(line: Seq<u8>) -> Option<(i32, i32, Seq<u8>)> {
    let a0 = skip_ws(line, 0);
    let b0 = word_end(line, a0);
    let a1 = skip_ws(line, b0);
    let b1 = word_end(line, a1);
    let a2 = skip_ws(line, b1);
    let b2 = word_end(line, a2);
    match (number_field(line.subrange(a0, b0)), number_field(line.subrange(a1, b1))) {
        (Some(major), Some(minor)) => if a2 < b2 {
            Some((major, minor, line.subrange(a2, b2)))
        } else {
            None
        },
        _ => None,
    }
}

proof fn lemma_skip_bounds(s: Seq<u8>, i: int)
    requires
        0 <= i <= s.len(),
    ensures
        i <= skip_ws(s, i) <= s.len(),
        i <= word_end(s, i) <= s.len(),
    decreases s.len() - i,
{
    if i < s.len() {
        lemma_skip_bounds(s, i + 1);
    }
}

fn skip_ws_exec(s: &[u8], i: usize) -> (r: usize)
    requires
        i <= s@.len(),
    ensures
        r == skip_ws(s@, i as int),
{
    let mut j = i;
    while j < s.len() && (s[j] == 32u8 || s[j] == 9u8 || s[j] == 10u8 || s[j] == 12u8 || s[j] == 13u8)
        invariant
            i <= j <= s@.len(),
            skip_ws(s@, i as int) == skip_ws(s@, j as int),
        decreases s@.len() - j,
    {
        j = j + 1;
    }
    j
}

fn word_end_exec(s: &[u8], i: usize) -> (r: usize)
    requires
        i <= s@.len(),
    ensures
        r == word_end(s@, i as int),
{
    let mut j = i;
    while j < s.len() && !(s[j] == 32u8 || s[j] == 9u8 || s[j] == 10u8 || s[j] == 12u8 || s[j]
        == 13u8)
        invariant
            i <= j <= s@.len(),
            word_end(s@, i as int) == word_end(s@, j as int),
        decreases s@.len() - j,
    {
        j = j + 1;
    }
    j
}

/// The value of the digits in `s[lo..hi]`, if they are a non-empty run of digits whose value
/// is at most `limit`.
fn parse_digits(s: &[u8], lo: usize, hi: usize, limit: i64) -> (r: Option<i64>)
    requires
        lo <= hi <= s@.len(),
        0 <= limit <= 0x8000_0000,
    ensures
        match digits_value(s@.subrange(lo as int, hi as int), limit as int) {
            Some(v) => r is Some && r->0 as int == v,
            None => r is None,
        },
        r matches Some(x) ==> 0 <= x <= limit,
{
    let ghost w = s@.subrange(lo as int, hi as int);
    if lo == hi {
        return None;
    }
    let mut v: i64 = 0;
    let mut j = lo;
    assert(w.take(0) =~= Seq::<u8>::empty());
    while j < hi
        invariant
            lo <= j <= hi <= s@.len(),
            0 <= limit <= 0x8000_0000,
            w == s@.subrange(lo as int, hi as int),
            all_digits(w.take(j - lo)),
            v == decimal(w.take(j - lo)),
            0 <= v <= limit,
        decreases hi - j,
    {
        let c = s[j];
        assert(w.take(j - lo + 1).drop_last() =~= w.take(j - lo));
        assert(w.take(j - lo + 1).last() == c);
        if c < 48u8 || c > 57u8 {
            assert(!all_digits(w)) by {
                assert(w[j - lo] == c);
            }
            return None;
        }
        v = v * 10 + (c - 48u8) as i64;
        if v > limit {
            proof { lemma_decimal_prefix_bound(w, j - lo + 1, limit as int); }
            return None;
        }
        j = j + 1;
    }
    assert(w.take(hi - lo) =~= w);
    Some(v)
}

/// The signed decimal number in `s[lo..hi]`, if it fits an `i32`.
fn parse_number(s: &[u8], lo: usize, hi: usize) -> (r: Option<i32>)
    requires
        lo <= hi <= s@.len(),
    ensures
        r == number_field(s@.subrange(lo as int, hi as int)),
{
    let ghost w = s@.subrange(lo as int, hi as int);
    if lo < hi {
        assert(w[0] == s@[lo as int]);
    }
    if lo < hi && (s[lo] == 45u8 || s[lo] == 43u8) {
        assert(w.skip(1) =~= s@.subrange(lo + 1, hi as int));
        if s[lo] == 45u8 {
            match parse_digits(s, lo + 1, hi, 0x8000_0000) {
                Some(v) => {
                    Some((-v) as i32)
                },
                None => None,
            }
        } else {
            match parse_digits(s, lo + 1, hi, 0x7FFF_FFFF) {
                Some(v) => Some(v as i32),
                None => None,
            }
        }
    } else {
        match parse_digits(s, lo, hi, 0x7FFF_FFFF) {
            Some(v) => Some(v as i32),
            None => None,
        }
    }
}

proof fn lemma_decimal_prefix_bound(w: Seq<u8>, n: int, limit: int)
    requires
        0 < n <= w.len(),
        all_digits(w.take(n)),
        decimal(w.take(n)) > limit,
        limit >= 0,
    ensures
        !(all_digits(w) && decimal(w) <= limit),
    decreases w.len() - n,
{
    if n < w.len() && all_digits(w) {
        assert(w.take(n + 1).drop_last() =~= w.take(n));
        assert(all_digits(w.take(n + 1)));
        lemma_decimal_prefix_bound(w, n + 1, limit);
    } else if n == w.len() {
        assert(w.take(n) =~= w);
    }
}

/// Reads one line of the kernel's disk statistics.
pub fn parse_diskstat_line(line: &[u8]) -> (r: Option<(i32, i32, Vec<u8>)>)
    ensures
        match diskstat_spec(line@) {
            Some((ma, mi, name)) => match r {
                Some((rma, rmi, rname)) => rma == ma && rmi == mi && rname@ == name,
                None => false,
            },
            None => r is None,
        },
{
    proof {
        lemma_skip_bounds(line@, 0);
    }
    let a0 = skip_ws_exec(line, 0);
    proof { lemma_skip_bounds(line@, a0 as int); }
    let b0 = word_end_exec(line, a0);
    proof { lemma_skip_bounds(line@, b0 as int); }
    let a1 = skip_ws_exec(line, b0);
    proof { lemma_skip_bounds(line@, a1 as int); }
    let b1 = word_end_exec(line, a1);
    proof { lemma_skip_bounds(line@, b1 as int); }
    let a2 = skip_ws_exec(line, b1);
    proof { lemma_skip_bounds(line@, a2 as int); }
    let b2 = word_end_exec(line, a2);
    let major = parse_number(line, a0, b0);
    let minor = parse_number(line, a1, b1);
    match (major, minor) {
        (Some(ma), Some(mi)) => {
            if a2 < b2 {
                let name = crate::section::copy_range(line, a2, b2);
                Some((ma, mi, name))
            } else {
                None
            }
        },
        _ => None,
    }
}

/// One disk: its major and minor numbers and its device name.
#[derive(Debug)]
pub struct DiskEntry {
    pub major: i32,
    pub minor: i32,
    pub name: Vec<u8>,
}

pub open spec fn entries_view(es: Seq<DiskEntry>) -> Seq<(i32, i32, Seq<u8>)> {
    es.map_values(|e: DiskEntry| (e.major, e.minor, e.name@))
}

/// The entries of a whole statistics file, one per line in order; `None` if any line cannot
/// be read.
pub open spec fn diskstats_spec(lines: Seq<Seq<u8>>) -> Option<Seq<(i32, i32, Seq<u8>)>> {
    if forall|i: int| 0 <= i < lines.len() ==> (#[trigger] diskstat_spec(lines[i])) is Some {
        Some(Seq::new(lines.len(), |i: int| diskstat_spec(lines[i])->0))
    } else {
        None
    }
}

/// The name that the last entry for (major, minor) gives: a later line overrides an earlier
/// one.
pub open spec fn last_name(es: Seq<(i32, i32, Seq<u8>)>, major: i32, minor: i32) -> Option<Seq<u8>>
    decreases es.len(),
{
    if es.len() == 0 {
        None
    } else if es.last().0 == major && es.last().1 == minor {
        Some(es.last().2)
    } else {
        last_name(es.drop_last(), major, minor)
    }
}

/// The disks named in the kernel's statistics, looked up by (major, minor) number.
#[derive(Debug)]
pub struct DiskTable {
    pub entries: Vec<DiskEntry>,
}

impl DiskTable {
    /// The name of the disk with these numbers, from the last line that gives them.
    pub fn name_of(&self, major: i32, minor: i32) -> (r: Option<&Vec<u8>>)
        ensures
            match last_name(entries_view(self.entries@), major, minor) {
                Some(n) => r is Some && r->0@ == n,
                None => r is None,
            },
    {
        let ghost es = entries_view(self.entries@);
        let mut i: usize = self.entries.len();
        assert(es.take(i as int) =~= es);
        while i > 0
            invariant
                i <= self.entries@.len(),
                es == entries_view(self.entries@),
                last_name(es, major, minor) == last_name(es.take(i as int), major, minor),
            decreases i,
        {
            let e = &self.entries[i - 1];
            assert(es.take(i as int).drop_last() =~= es.take(i - 1));
            assert(es.take(i as int).last() == es[i - 1]);
            if e.major == major && e.minor == minor {
                return Some(&e.name);
            }
            i = i - 1;
        }
        None
    }
}

/// Reads every line of the kernel's disk statistics; `None` if a line cannot be read.
pub fn parse_diskstats_lines(lines: &Vec<Vec<u8>>) -> (r: Option<DiskTable>)
    ensures
        match diskstats_spec(lines@.map_values(|l: Vec<u8>| l@)) {
            Some(es) => r is Some && entries_view(r->0.entries@) == es,
            None => r is None,
        },
{
    let ghost ls = lines@.map_values(|l: Vec<u8>| l@);
    let mut entries: Vec<DiskEntry> = Vec::new();
    let mut i: usize = 0;
    while i < lines.len()
        invariant
            i <= lines@.len(),
            ls == lines@.map_values(|l: Vec<u8>| l@),
            entries_view(entries@) =~= Seq::new(i as nat, |j: int| diskstat_spec(ls[j])->0),
            forall|j: int| 0 <= j < i ==> (#[trigger] diskstat_spec(ls[j])) is Some,
        decreases lines@.len() - i,
    {
        assert(ls[i as int] == lines@[i as int]@);
        match parse_diskstat_line(lines[i].as_slice()) {
            Some((major, minor, name)) => {
                let ghost before = entries_view(entries@);
                entries.push(DiskEntry { major, minor, name });
                assert(entries_view(entries@) =~= before.push(diskstat_spec(ls[i as int])->0));
            },
            None => {
                assert(diskstat_spec(ls[i as int]) is None);
                return None;
            },
        }
        i = i + 1;
    }
    Some(DiskTable { entries })
}

} // verus!
