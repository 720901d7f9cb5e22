//! Reading the text that remote status commands print: network counters and disks.
use vstd::prelude::*;
use crate::lines::{char_views, lines_of, text_lines, words, words_of};
use crate::planner::eq_ignore_ascii_case;
use crate::remote_path::slice_range;
use crate::text::{
    chars_of, first_pos, is_blank, is_first_pos, str_eq, string_of, trim, trim_chars,
    views,
};

verus! {

/// Traffic counters of one network interface.
#[derive(Debug, Clone)]
pub struct NetworkInterfaceStatus {
    pub interface: String,
    pub rx_bytes: u64,
    pub tx_bytes: u64,
}

/// One mounted filesystem as `df -hP` prints it.
#[derive(Debug, Clone)]
pub struct DiskStatus {
    pub filesystem: String,
    pub mount_point: String,
    pub used: String,
    pub total: String,
    pub used_percent: String,
}

/// The value of a run of decimal digits.
pub open spec fn digits_value(d: Seq<char>) -> nat
    decreases d.len(),
{
    if d.len() == 0 {
        0
    } else {
        digits_value(d.drop_last()) * 10 + ((d.last() as u32) - ('0' as u32)) as nat
    }
}

/// Every character of `d` is an ASCII digit.
pub open spec fn all_digits(d: Seq<char>) -> bool {
    forall|i: int| 0 <= i < d.len() ==> '0' <= #[trigger] d[i] && d[i] <= '9'
}

/// `s` without one leading `+`.
pub open spec fn unsigned_part(s: Seq<char>) -> Seq<char> {
    if s.len() > 0 && s[0] == '+' {
        s.drop_first()
    } else {
        s
    }
}

/// What `str::parse::<u64>` accepts: an optional `+`, then one or more ASCII digits,
/// with a value that fits.
pub open spec fn u64_text_value(s: Seq<char>) -> Option<u64> {
    let d = unsigned_part(s);
    if d.len() > 0 && all_digits(d) && digits_value(d) <= u64::MAX {
        Some(digits_value(d) as u64)
    } else {
        None
    }
}

/// Reads a `u64` as `str::parse::<u64>` does (see `u64_text_value`).
pub fn parse_u64(s: &str) -> (r: Option<u64>)
    ensures
        r == u64_text_value(s@),
{
    let v = chars_of(s);
    let n = v.len();
    let start: usize = if n > 0 && v[0] == '+' {
        1
    } else {
        0
    };
    let ghost d = unsigned_part(s@);
    assert(d =~= v@.subrange(start as int, n as int));
    if start == n {
        return None;
    }
    let mut acc: u128 = 0;
    let mut over = false;
    let mut i: usize = start;
    assert(v@.subrange(start as int, start as int) =~= Seq::<char>::empty());
    while i < n
        invariant
            start <= i <= n,
            n == v@.len(),
            v@ == s@,
            d == v@.subrange(start as int, n as int),
            d == unsigned_part(s@),
            forall|j: int| start <= j < i ==> '0' <= #[trigger] v@[j] && v@[j] <= '9',
            !over ==> acc == digits_value(v@.subrange(start as int, i as int)) && acc <= u64::MAX,
            over ==> digits_value(v@.subrange(start as int, i as int)) > u64::MAX,
        decreases n - i,
    {
        let c = v[i];
        if !('0' <= c && c <= '9') {
            assert(v@.subrange(start as int, n as int)[i - start] == v@[i as int]);
            assert(d[i - start] == c);
            assert(!all_digits(d));
            return None;
        }
        let dig = ((c as u32) - ('0' as u32)) as u128;
        let ghost prefix = v@.subrange(start as int, i as int);
        let ghost next = v@.subrange(start as int, i + 1);
        assert(next.drop_last() =~= prefix);
        assert(next.last() == c);
        assert(digits_value(next) == digits_value(prefix) * 10 + dig);
        if !over {
            assert(acc * 10 + dig <= 10 * 18446744073709551615u128 + 9) by (nonlinear_arith)
                requires
                    acc <= 18446744073709551615u128,
                    dig <= 9,
            ;
            let nv = acc * 10 + dig;
            if nv > 18446744073709551615u128 {
                over = true;
            } else {
                acc = nv;
            }
        } else {
            let ghost pv = digits_value(prefix);
            assert(pv * 10 + dig >= pv) by (nonlinear_arith)
                requires
                    pv >= 0,
                    dig >= 0,
            ;
        }
        i = i + 1;
    }
    assert(v@.subrange(start as int, n as int) == d);
    if over {
        None
    } else {
        Some(acc as u64)
    }
}

/// `ls` from position `n` on (nothing when it is shorter).
pub open spec fn after(ls: Seq<Seq<char>>, n: int) -> Seq<Seq<char>> {
    if ls.len() <= n {
        Seq::empty()
    } else {
        ls.skip(n)
    }
}

/// The name and statistics of a `/proc/net/dev` line, split at its first colon.
pub open spec fn colon_split(t: Seq<char>) -> Option<(Seq<char>, Seq<char>)> {
    if exists|i: int| is_first_pos(t, ':', i) {
        let i = choose|i: int| is_first_pos(t, ':', i);
        Some((t.take(i), t.skip(i + 1)))
    } else {
        None
    }
}

/// One interface read from a `/proc/net/dev` line: its trimmed name, and the received
/// and sent byte counts (the first and ninth statistics of at least sixteen).
pub open spec fn interface_row(line: Seq<char>) -> Option<(Seq<char>, u64, u64)> {
    let t = trim(line);
    if t.len() == 0 {
        None
    } else {
        match colon_split(t) {
            None => None,
            Some((name, stats)) => {
                let cols = words(stats);
                if cols.len() < 16 {
                    None
                } else {
                    match (u64_text_value(cols[0]), u64_text_value(cols[8])) {
                        (Some(rx), Some(tx)) => Some((trim(name), rx, tx)),
                        _ => None,
                    }
                }
            },
        }
    }
}

/// The interfaces read from some lines, in order, skipping lines that are none.
pub open spec fn interface_rows(ls: Seq<Seq<char>>) -> Seq<(Seq<char>, u64, u64)>
    decreases ls.len(),
{
    if ls.len() == 0 {
        Seq::empty()
    } else {
        let p = interface_rows(ls.drop_last());
        match interface_row(ls.last()) {
            Some(row) => p.push(row),
            None => p,
        }
    }
}

/// What a test compares of an interface.
pub open spec fn interface_view(n: NetworkInterfaceStatus) -> (Seq<char>, u64, u64) {
    (n.interface@, n.rx_bytes, n.tx_bytes)
}

/// The interfaces of some statuses.
pub open spec fn interface_views(v: Seq<NetworkInterfaceStatus>) -> Seq<(Seq<char>, u64, u64)> {
    v.map_values(|n: NetworkInterfaceStatus| interface_view(n))
}

/// The lines of `ls` that are not blank.
pub open spec fn nonblank_lines(ls: Seq<Seq<char>>) -> Seq<Seq<char>>
    decreases ls.len(),
{
    if ls.len() == 0 {
        Seq::empty()
    } else if is_blank(ls.last()) {
        nonblank_lines(ls.drop_last())
    } else {
        nonblank_lines(ls.drop_last()).push(ls.last())
    }
}

/// One filesystem read from a `df -hP` line of at least six columns, other than a
/// header: filesystem, size, used, use%, mount point.
pub open spec fn disk_row(line: Seq<char>) -> Option<(Seq<char>, Seq<char>, Seq<char>, Seq<char>, Seq<char>)> {
    let cols = words(line);
    if cols.len() < 6 || eq_ignore_ascii_case(cols[0], "filesystem"@) {
        None
    } else {
        Some((cols[0], cols[1], cols[2], cols[4], cols[5]))
    }
}

/// The filesystems read from some lines, in order.
pub open spec fn disk_rows(ls: Seq<Seq<char>>) -> Seq<(Seq<char>, Seq<char>, Seq<char>, Seq<char>, Seq<char>)>
    decreases ls.len(),
{
    if ls.len() == 0 {
        Seq::empty()
    } else {
        let p = disk_rows(ls.drop_last());
        match disk_row(ls.last()) {
            Some(row) => p.push(row),
            None => p,
        }
    }
}

/// What a test compares of a filesystem: filesystem, size, used, use%, mount point.
pub open spec fn disk_view(d: DiskStatus) -> (Seq<char>, Seq<char>, Seq<char>, Seq<char>, Seq<char>) {
    (d.filesystem@, d.total@, d.used@, d.used_percent@, d.mount_point@)
}

/// The filesystems of some statuses.
pub open spec fn disk_views(v: Seq<DiskStatus>) -> Seq<(Seq<char>, Seq<char>, Seq<char>, Seq<char>, Seq<char>)> {
    v.map_values(|d: DiskStatus| disk_view(d))
}

fn interface_of_line(line: &[char]) -> (r: Option<NetworkInterfaceStatus>)
    ensures
        match r {
            Some(n) => interface_row(line@) == Some(interface_view(n)),
            None => interface_row(line@) is None,
        },
{
    let t = trim_chars(line);
    if t.len() == 0 {
        return None;
    }
    let colon = match first_pos(t.as_slice(), ':') {
        Some(i) => i,
        None => {
            return None;
        },
    };
    proof {
        let j = choose|j: int| is_first_pos(t@, ':', j);
        assert(j == colon) by {
            if j < colon {
                assert(t@[j] != ':');
            }
            if colon < j {
                assert(t@[colon as int] != ':');
            }
        }
    }
    let name = slice_range(t.as_slice(), 0, colon);
    let stats = slice_range(t.as_slice(), colon + 1, t.len());
    assert(name@ =~= t@.take(colon as int));
    assert(stats@ =~= t@.skip(colon + 1));
    let cols = words_of(stats.as_slice());
    if cols.len() < 16 {
        return None;
    }
    assert(views(cols@)[0] == cols@[0]@);
    assert(views(cols@)[8] == cols@[8]@);
    let rx = match parse_u64(cols[0].as_str()) {
        Some(v) => v,
        None => {
            return None;
        },
    };
    let tx = match parse_u64(cols[8].as_str()) {
        Some(v) => v,
        None => {
            return None;
        },
    };
    let trimmed_name = trim_chars(name.as_slice());
    Some(NetworkInterfaceStatus { interface: string_of(trimmed_name.as_slice()), rx_bytes: rx, tx_bytes: tx })
}

/// Reads `/proc/net/dev` output: after the two header lines, each line that names an
/// interface and carries its counters (see `interface_row`).
pub fn parse_network_interfaces(output: &str) -> (r: Vec<NetworkInterfaceStatus>)
    ensures
        interface_views(r@) == interface_rows(after(text_lines(output@), 2)),
{
    let chars = chars_of(output);
    let ls = lines_of(chars.as_slice());
    let ghost all = char_views(ls@);
    let mut rows: Vec<NetworkInterfaceStatus> = Vec::new();
    if ls.len() <= 2 {
        assert(interface_views(rows@) =~= Seq::<(Seq<char>, u64, u64)>::empty());
        return rows;
    }
    let mut i: usize = 2;
    assert(all.subrange(2, 2) =~= Seq::<Seq<char>>::empty());
    assert(interface_views(rows@) =~= interface_rows(all.subrange(2, 2)));
    while i < ls.len()
        invariant
            2 <= i <= ls@.len(),
            all == char_views(ls@),
            interface_views(rows@) == interface_rows(all.subrange(2, i as int)),
        decreases ls@.len() - i,
    {
        let ghost prefix = all.subrange(2, i as int);
        let ghost next = all.subrange(2, i + 1);
        assert(next.drop_last() =~= prefix);
        assert(next.last() == ls@[i as int]@);
        match interface_of_line(ls[i].as_slice()) {
            Some(row) => {
                rows.push(row);
                assert(interface_views(rows@) =~= interface_views(rows@.drop_last()).push(interface_view(rows@.last())));
                assert(rows@.drop_last() =~= rows@.subrange(0, rows@.len() - 1));
            },
            None => {},
        }
        proof {
            assert(interface_views(rows@) =~= interface_rows(next));
        }
        i = i + 1;
    }
    assert(all.subrange(2, i as int) =~= all.skip(2));
    rows
}

fn disk_of_line(line: &[char]) -> (r: Option<DiskStatus>)
    ensures
        match r {
            Some(d) => disk_row(line@) == Some(disk_view(d)),
            None => disk_row(line@) is None,
        },
{
    let cols = words_of(line);
    if cols.len() < 6 {
        return None;
    }
    let first = chars_of(cols[0].as_str());
    let header = chars_of("filesystem");
    assert(views(cols@)[0] == cols@[0]@);
    if crate::planner::ascii_lower_equals(first.as_slice(), header.as_slice()) {
        return None;
    }
    assert(views(cols@)[1] == cols@[1]@);
    assert(views(cols@)[2] == cols@[2]@);
    assert(views(cols@)[4] == cols@[4]@);
    assert(views(cols@)[5] == cols@[5]@);
    Some(
        DiskStatus {
            filesystem: cols[0].clone(),
            mount_point: cols[5].clone(),
            used: cols[2].clone(),
            total: cols[1].clone(),
            used_percent: cols[4].clone(),
        },
    )
}

/// Reads `df -hP` output: after the first non-blank line (the header), each non-blank
/// line that describes a filesystem (see `disk_row`).
pub fn parse_disks(output: &str) -> (r: Vec<DiskStatus>)
    ensures
        disk_views(r@) == disk_rows(after(nonblank_lines(text_lines(output@)), 1)),
{
    let chars = chars_of(output);
    let ls = lines_of(chars.as_slice());
    let ghost all = char_views(ls@);
    let mut kept: Vec<usize> = Vec::new();
    let mut i: usize = 0;
    assert(all.take(0) =~= Seq::<Seq<char>>::empty());
    while i < ls.len()
        invariant
            i <= ls@.len(),
            all == char_views(ls@),
            forall|j: int| 0 <= j < kept@.len() ==> kept@[j] < ls@.len(),
            kept@.map_values(|k: usize| all[k as int]) == nonblank_lines(all.take(i as int)),
        decreases ls@.len() - i,
    {
        let ghost next = all.take(i + 1);
        assert(next.drop_last() =~= all.take(i as int));
        assert(next.last() == ls@[i as int]@);
        let line = string_of(ls[i].as_slice());
        if !crate::text::is_blank_str(line.as_str()) {
            let ghost before = kept@;
            kept.push(i);
            assert(kept@.map_values(|k: usize| all[k as int]) =~= before.map_values(
                |k: usize| all[k as int],
            ).push(all[i as int]));
        }
        i = i + 1;
    }
    assert(all.take(i as int) =~= all);
    let ghost nb = nonblank_lines(all);
    let mut rows: Vec<DiskStatus> = Vec::new();
    if kept.len() <= 1 {
        assert(disk_views(rows@) =~= Seq::<(Seq<char>, Seq<char>, Seq<char>, Seq<char>, Seq<char>)>::empty());
        return rows;
    }
    let mut k: usize = 1;
    assert(nb.subrange(1, 1) =~= Seq::<Seq<char>>::empty());
    assert(disk_views(rows@) =~= disk_rows(nb.subrange(1, 1)));
    while k < kept.len()
        invariant
            1 <= k <= kept@.len(),
            all == char_views(ls@),
            nb == kept@.map_values(|k: usize| all[k as int]),
            forall|j: int| 0 <= j < kept@.len() ==> kept@[j] < ls@.len(),
            disk_views(rows@) == disk_rows(nb.subrange(1, k as int)),
        decreases kept@.len() - k,
    {
        let ghost next = nb.subrange(1, k + 1);
        assert(next.drop_last() =~= nb.subrange(1, k as int));
        let idx = kept[k];
        assert(next.last() == ls@[idx as int]@);
        match disk_of_line(ls[idx].as_slice()) {
            Some(row) => {
                let ghost before = rows@;
                rows.push(row);
                assert(disk_views(rows@) =~= disk_views(before).push(disk_view(row)));
            },
            None => {},
        }
        assert(disk_views(rows@) =~= disk_rows(next));
        k = k + 1;
    }
    assert(nb.subrange(1, k as int) =~= nb.skip(1));
    rows
}

/// `preferred` names one of the listed interfaces.
pub open spec fn interface_listed(all: Seq<NetworkInterfaceStatus>, preferred: Option<String>) -> bool {
    preferred is Some && exists|i: int|
        0 <= i < all.len() && (#[trigger] all[i]).interface@ == preferred->0@
}

/// The interface to show: the preferred one when it is listed, else the first listed.
pub fn pick_selected_interface(all: &[NetworkInterfaceStatus], preferred: Option<String>) -> (r:
    Option<String>)
    ensures
        interface_listed(all@, preferred) ==> r == preferred,
        !interface_listed(all@, preferred) ==> (if all@.len() > 0 {
            r matches Some(s) && s@ == all@[0].interface@
        } else {
            r is None
        }),
{
    if let Some(p) = preferred {
        let mut i: usize = 0;
        while i < all.len()
            invariant
                i <= all@.len(),
                preferred == Some(p),
                forall|j: int| 0 <= j < i ==> (#[trigger] all@[j]).interface@ != p@,
            decreases all@.len() - i,
        {
            if str_eq(all[i].interface.as_str(), p.as_str()) {
                return Some(p);
            }
            i = i + 1;
        }
    }
    if all.len() > 0 {
        Some(all[0].interface.clone())
    } else {
        None
    }
}

} // verus!
