//! IPv6 address text, read the way `Ipv6Addr`'s parser reads it: up to
//! eight colon-separated groups of one to four hex digits, at most one
//! `::` standing for one or more zero groups, and an optional trailing
//! dotted-quad IPv4 address filling the last two groups.

use vstd::prelude::*;

verus! {

/// Whether `c` is a hex digit.
pub open spec fn is_hex(c: char) -> bool {
    ('0' <= c && c <= '9') || ('a' <= c && c <= 'f') || ('A' <= c && c <= 'F')
}

/// The value of a hex digit.
pub open spec fn hex_val(c: char) -> int {
    if '0' <= c && c <= '9' {
        c as int - '0' as int
    } else if 'a' <= c && c <= 'f' {
        c as int - 'a' as int + 10
    } else {
        c as int - 'A' as int + 10
    }
}

/// Whether `c` is a decimal digit.
pub open spec fn is_dec(c: char) -> bool {
    '0' <= c && c <= '9'
}

/// Length of the run of hex (or decimal) digits starting at `pos`.
pub open spec fn run_len(s: Seq<char>, pos: int, hex: bool) -> int
    decreases s.len() - pos,
{
    if pos < 0 || pos >= s.len() || !(if hex { is_hex(s[pos]) } else { is_dec(s[pos]) }) {
        0
    } else {
        1 + run_len(s, pos + 1, hex)
    }
}

/// The number the `n` digits at `pos` spell in base 16 (or 10).
pub open spec fn digits_num(s: Seq<char>, pos: int, n: int, hex: bool) -> int
    decreases n,
{
    if n <= 0 {
        0
    } else {
        digits_num(s, pos, n - 1, hex) * (if hex { 16int } else { 10int }) + hex_val(s[pos + n - 1])
    }
}

/// A group: one to four hex digits; a fifth digit fails the read.
pub open spec fn read_group(s: Seq<char>, pos: int) -> Option<(int, int)> {
    let n = run_len(s, pos, true);
    if n == 0 || n > 4 { None } else { Some((digits_num(s, pos, n, true), pos + n)) }
}

/// An IPv4 octet: one to three decimal digits, no leading zero, at
/// most 255.
pub open spec fn read_octet(s: Seq<char>, pos: int) -> Option<(int, int)> {
    let n = run_len(s, pos, false);
    if n == 0 || n > 3 || (n > 1 && s[pos] == '0') {
        None
    } else if digits_num(s, pos, n, false) > 255 {
        None
    } else {
        Some((digits_num(s, pos, n, false), pos + n))
    }
}

/// Whether `s[pos]` is `c`.
pub open spec fn char_at(s: Seq<char>, pos: int, c: char) -> bool {
    0 <= pos < s.len() && s[pos] == c
}

/// A dotted-quad IPv4 address at `pos`, as two 16-bit groups.
pub open spec fn read_ipv4(s: Seq<char>, pos: int) -> Option<(int, int, int)> {
    match read_octet(s, pos) {
        None => None,
        Some((a, p1)) => if !char_at(s, p1, '.') {
            None
        } else {
            match read_octet(s, p1 + 1) {
                None => None,
                Some((b, p2)) => if !char_at(s, p2, '.') {
                    None
                } else {
                    match read_octet(s, p2 + 1) {
                        None => None,
                        Some((c, p3)) => if !char_at(s, p3, '.') {
                            None
                        } else {
                            match read_octet(s, p3 + 1) {
                                None => None,
                                Some((d, p4)) => Some((a * 256 + b, c * 256 + d, p4)),
                            }
                        },
                    }
                },
            }
        },
    }
}

/// Where the item after `i` items starts: after a `:` for all but the
/// first item.
pub open spec fn after_sep(s: Seq<char>, pos: int, i: int) -> Option<int> {
    if i == 0 {
        Some(pos)
    } else if char_at(s, pos, ':') {
        Some(pos + 1)
    } else {
        None
    }
}

/// Colon-separated groups read from `pos`, item `i` of at most `limit`,
/// `acc` read so far: an IPv4 address may stand where two groups are
/// left and ends the read; a failed item leaves the position before
/// its separator. Gives the groups, whether an IPv4 address ended
/// them, and the position reached.
pub open spec fn read_groups(s: Seq<char>, pos: int, i: int, limit: int, acc: Seq<int>) -> (Seq<int>, bool, int)
    decreases limit - i,
{
    if i >= limit {
        (acc, false, pos)
    } else {
        let v4 = if i < limit - 1 {
            match after_sep(s, pos, i) {
                Some(q) => read_ipv4(s, q),
                None => None,
            }
        } else {
            None
        };
        match v4 {
            Some((g1, g2, np)) => (acc.push(g1).push(g2), true, np),
            None => match after_sep(s, pos, i) {
                None => (acc, false, pos),
                Some(q) => match read_group(s, q) {
                    None => (acc, false, pos),
                    Some((g, np)) => read_groups(s, np, i + 1, limit, acc.push(g)),
                },
            },
        }
    }
}

/// The eight groups of the IPv6 address the whole of `s` spells, if it
/// spells one.
pub open spec fn ipv6_groups(s: Seq<char>) -> Option<Seq<int>> {
    let (head, head_v4, p1) = read_groups(s, 0, 0, 8, Seq::empty());
    if head.len() == 8 {
        if p1 == s.len() { Some(head) } else { None }
    } else if head_v4 {
        None
    } else if !(char_at(s, p1, ':') && char_at(s, p1 + 1, ':')) {
        None
    } else {
        let (tail, _, p3) = read_groups(s, p1 + 2, 0, 7 - head.len(), Seq::empty());
        if p3 != s.len() {
            None
        } else {
            Some(head + Seq::new((8 - head.len() - tail.len()) as nat, |k: int| 0int) + tail)
        }
    }
}

/// Whether `s` spells the IPv6 loopback address `::1`.
pub open spec fn ipv6_loopback(s: Seq<char>) -> bool {
    ipv6_groups(s) == Some(seq![0int, 0, 0, 0, 0, 0, 0, 1])
}

// ─── reading ─────────────────────────────────────────────────

proof fn lemma_digits_num_bound(s: Seq<char>, pos: int, n: int, hex: bool)
    requires
        0 <= n,
        forall|k: int| pos <= k < pos + n ==> (if hex { is_hex(s[k]) } else { is_dec(s[k]) }),
    ensures
        0 <= digits_num(s, pos, n, hex),
        hex && n <= 4 ==> digits_num(s, pos, n, hex) < 65536,
        !hex && n <= 3 ==> digits_num(s, pos, n, hex) < 1000,
        hex ==> digits_num(s, pos, n, hex) < pow_of(16, n),
        !hex ==> digits_num(s, pos, n, hex) < pow_of(10, n),
    decreases n,
{
    if n > 0 {
        lemma_digits_num_bound(s, pos, n - 1, hex);
        assert(0 <= hex_val(s[pos + n - 1]));
        if hex {
            assert(hex_val(s[pos + n - 1]) < 16);
        } else {
            assert(hex_val(s[pos + n - 1]) < 10);
        }
    }
    reveal_with_fuel(pow_of, 5);
    if n <= 4 {
        assert(pow_of(16, 0) == 1);
        assert(pow_of(16, 1) == 16);
        assert(pow_of(16, 2) == 256);
        assert(pow_of(16, 3) == 4096);
        assert(pow_of(16, 4) == 65536);
        assert(pow_of(10, 1) == 10);
        assert(pow_of(10, 2) == 100);
        assert(pow_of(10, 3) == 1000);
    }
}

/// `b` to the `n`.
pub open spec fn pow_of(b: int, n: int) -> int
    decreases n,
{
    if n <= 0 { 1 } else { b * pow_of(b, n - 1) }
}

proof fn lemma_run_len(s: Seq<char>, pos: int, hex: bool)
    requires
        0 <= pos,
    ensures
        0 <= run_len(s, pos, hex),
        pos + run_len(s, pos, hex) <= s.len() || run_len(s, pos, hex) == 0,
        forall|k: int| pos <= k < pos + run_len(s, pos, hex) ==> (if hex { is_hex(s[k]) } else { is_dec(s[k]) }),
        pos + run_len(s, pos, hex) < s.len() ==> !(if hex { is_hex(s[pos + run_len(s, pos, hex)]) } else {
            is_dec(s[pos + run_len(s, pos, hex)])
        }),
    decreases s.len() - pos,
{
    if pos < s.len() && (if hex { is_hex(s[pos]) } else { is_dec(s[pos]) }) {
        lemma_run_len(s, pos + 1, hex);
    }
}

fn is_digit_of(c: char, hex: bool) -> (r: bool)
    ensures
        r == (if hex { is_hex(c) } else { is_dec(c) }),
{
    if hex {
        ('0' <= c && c <= '9') || ('a' <= c && c <= 'f') || ('A' <= c && c <= 'F')
    } else {
        '0' <= c && c <= '9'
    }
}

fn digit_value(c: char) -> (r: u32)
    requires
        is_hex(c),
    ensures
        r as int == hex_val(c),
        r < 16,
{
    if '0' <= c && c <= '9' {
        (c as u32) - ('0' as u32)
    } else if 'a' <= c && c <= 'f' {
        (c as u32) - ('a' as u32) + 10
    } else {
        (c as u32) - ('A' as u32) + 10
    }
}

/// Length of the digit run at `pos`.
fn run_length(s: &Vec<char>, pos: usize, hex: bool) -> (r: usize)
    requires
        pos <= s@.len(),
    ensures
        r as int == run_len(s@, pos as int, hex),
        pos + r <= s@.len(),
{
    proof {
        lemma_run_len(s@, pos as int, hex);
    }
    let mut k = pos;
    while k < s.len() && is_digit_of(s[k], hex)
        invariant
            pos <= k <= s@.len(),
            run_len(s@, pos as int, hex) == (k - pos) + run_len(s@, k as int, hex),
        decreases s@.len() - k,
    {
        k = k + 1;
    }
    k - pos
}

/// The value of `n` (at most 4) digits at `pos`.
fn digits_value_at(s: &Vec<char>, pos: usize, n: usize, hex: bool) -> (r: u32)
    requires
        pos + n <= s@.len(),
        n <= 4,
        forall|k: int| pos <= k < pos + n ==> (if hex { is_hex(s@[k]) } else { is_dec(s@[k]) }),
    ensures
        r as int == digits_num(s@, pos as int, n as int, hex),
{
    let _len = s.len();
    let base: u32 = if hex { 16 } else { 10 };
    let mut v: u32 = 0;
    let mut k: usize = 0;
    while k < n
        invariant
            k <= n <= 4,
            pos + n <= s@.len() <= usize::MAX,
            base == (if hex { 16u32 } else { 10u32 }),
            forall|j: int| pos <= j < pos + n ==> (if hex { is_hex(s@[j]) } else { is_dec(s@[j]) }),
            v as int == digits_num(s@, pos as int, k as int, hex),
        decreases n - k,
    {
        proof {
            lemma_digits_num_bound(s@, pos as int, k as int, hex);
        }
        let d = digit_value(s[pos + k]);
        v = v * base + d;
        k = k + 1;
    }
    v
}

fn group_at(s: &Vec<char>, pos: usize) -> (r: Option<(u16, usize)>)
    requires
        pos <= s@.len(),
    ensures
        match read_group(s@, pos as int) {
            Some((g, np)) => r matches Some((x, q)) && x as int == g && q as int == np && q <= s@.len(),
            None => r is None,
        },
{
    let _len = s.len();
    let n = run_length(s, pos, true);
    if n == 0 || n > 4 {
        return None;
    }
    proof {
        lemma_run_len(s@, pos as int, true);
        lemma_digits_num_bound(s@, pos as int, n as int, true);
    }
    let v = digits_value_at(s, pos, n, true);
    Some((v as u16, pos + n))
}

fn octet_at(s: &Vec<char>, pos: usize) -> (r: Option<(u16, usize)>)
    requires
        pos <= s@.len(),
    ensures
        match read_octet(s@, pos as int) {
            Some((g, np)) => r matches Some((x, q)) && x as int == g && q as int == np && q <= s@.len(),
            None => r is None,
        },
{
    let _len = s.len();
    let n = run_length(s, pos, false);
    if n == 0 || n > 3 || (n > 1 && s[pos] == '0') {
        return None;
    }
    proof {
        lemma_run_len(s@, pos as int, false);
        lemma_digits_num_bound(s@, pos as int, n as int, false);
    }
    let v = digits_value_at(s, pos, n, false);
    if v > 255 {
        return None;
    }
    Some((v as u16, pos + n))
}

fn char_is(s: &Vec<char>, pos: usize, c: char) -> (r: bool)
    ensures
        r == char_at(s@, pos as int, c),
{
    pos < s.len() && s[pos] == c
}

fn ipv4_at(s: &Vec<char>, pos: usize) -> (r: Option<(u16, u16, usize)>)
    requires
        pos <= s@.len(),
    ensures
        match read_ipv4(s@, pos as int) {
            Some((g1, g2, np)) => r matches Some((x, y, q)) && x as int == g1 && y as int == g2 && q as int == np
                && q <= s@.len(),
            None => r is None,
        },
{
    let _len = s.len();
    let (a, p1) = match octet_at(s, pos) {
        Some(x) => x,
        None => return None,
    };
    if !char_is(s, p1, '.') {
        return None;
    }
    let (b, p2) = match octet_at(s, p1 + 1) {
        Some(x) => x,
        None => return None,
    };
    if !char_is(s, p2, '.') {
        return None;
    }
    let (c, p3) = match octet_at(s, p2 + 1) {
        Some(x) => x,
        None => return None,
    };
    if !char_is(s, p3, '.') {
        return None;
    }
    let (d, p4) = match octet_at(s, p3 + 1) {
        Some(x) => x,
        None => return None,
    };
    Some((a * 256 + b, c * 256 + d, p4))
}

fn sep_at(s: &Vec<char>, pos: usize, i: usize) -> (r: Option<usize>)
    requires
        pos <= s@.len(),
    ensures
        match r {
            Some(x) => after_sep(s@, pos as int, i as int) == Some(x as int) && x <= s@.len(),
            None => after_sep(s@, pos as int, i as int) is None,
        },
{
    let _len = s.len();
    if i == 0 {
        Some(pos)
    } else if char_is(s, pos, ':') {
        Some(pos + 1)
    } else {
        None
    }
}

proof fn lemma_widened(acc: Seq<u16>, g: Seq<int>)
    requires
        Seq::new(acc.len(), |k: int| acc[k] as int) == g,
    ensures
        acc.len() == g.len(),
        forall|k: int| 0 <= k < g.len() ==> (#[trigger] acc[k]) as int == g[k],
{
    assert forall|k: int| 0 <= k < g.len() implies (#[trigger] acc[k]) as int == g[k] by {
        assert(Seq::new(acc.len(), |k: int| acc[k] as int)[k] == acc[k] as int);
    }
}

fn groups_from(s: &Vec<char>, pos: usize, limit: usize) -> (r: (Vec<u16>, bool, usize))
    requires
        pos <= s@.len(),
        limit <= 8,
    ensures
        ({
            let (g, v4, p) = read_groups(s@, pos as int, 0, limit as int, Seq::empty());
            &&& r.0@.len() == g.len()
            &&& forall|k: int| 0 <= k < g.len() ==> (#[trigger] r.0@[k]) as int == g[k]
            &&& r.1 == v4
            &&& r.2 as int == p
            &&& r.2 <= s@.len()
        }),
{
    let ghost target = read_groups(s@, pos as int, 0, limit as int, Seq::empty());
    let mut acc: Vec<u16> = Vec::new();
    let mut p = pos;
    let mut i: usize = 0;
    proof {
        assert(Seq::new(acc@.len(), |k: int| acc@[k] as int) =~= Seq::<int>::empty());
    }
    while i < limit
        invariant
            i <= limit <= 8,
            p <= s@.len(),
            acc@.len() == i,
            target == read_groups(s@, pos as int, 0, limit as int, Seq::empty()),
            target == read_groups(s@, p as int, i as int, limit as int, Seq::new(acc@.len(), |k: int| acc@[k] as int)),
        decreases limit - i,
    {
        let ghost accs = Seq::new(acc@.len(), |k: int| acc@[k] as int);
        let sep = sep_at(s, p, i);
        if i + 1 < limit {
            match sep {
                Some(q) => match ipv4_at(s, q) {
                    Some((g1, g2, np)) => {
                        acc.push(g1);
                        acc.push(g2);
                        proof {
                            assert(read_ipv4(s@, q as int) == Some((g1 as int, g2 as int, np as int)));
                            assert(target == (accs.push(g1 as int).push(g2 as int), true, np as int));
                            assert(Seq::new(acc@.len(), |k: int| acc@[k] as int) =~= accs.push(g1 as int).push(g2 as int));
                            lemma_widened(acc@, target.0);
                        }
                        return (acc, true, np);
                    },
                    None => {
                        proof {
                            assert(read_ipv4(s@, q as int) is None);
                        }
                    },
                },
                None => {},
            }
        }
        match sep {
            None => {
                proof {
                    assert(target == (accs, false, p as int));
                    assert(Seq::new(acc@.len(), |k: int| acc@[k] as int) =~= accs);
                    lemma_widened(acc@, target.0);
                }
                return (acc, false, p);
            },
            Some(q) => match group_at(s, q) {
                None => {
                    proof {
                        assert(target == (accs, false, p as int));
                        assert(Seq::new(acc@.len(), |k: int| acc@[k] as int) =~= accs);
                        lemma_widened(acc@, target.0);
                    }
                    return (acc, false, p);
                },
                Some((g, np)) => {
                    acc.push(g);
                    proof {
                        assert(Seq::new(acc@.len(), |k: int| acc@[k] as int) =~= accs.push(g as int));
                    }
                    p = np;
                },
            },
        }
        i = i + 1;
    }
    proof {
        lemma_widened(acc@, target.0);
    }
    (acc, false, p)
}

/// Whether the text spells the IPv6 loopback address `::1` (in any of
/// its spellings, such as `0:0:0:0:0:0:0:1` or `::0.0.0.1`).
pub fn is_ipv6_loopback(s: &Vec<char>) -> (r: bool)
    ensures
        r == ipv6_loopback(s@),
{
    let _len = s.len();
    let (head, head_v4, p1) = groups_from(s, 0, 8);
    let ghost hd = read_groups(s@, 0, 0, 8, Seq::empty());
    let ghost want = seq![0int, 0, 0, 0, 0, 0, 0, 1];
    if head.len() == 8 {
        if p1 != s.len() {
            return false;
        }
        let ok = head[0] == 0 && head[1] == 0 && head[2] == 0 && head[3] == 0 && head[4] == 0 && head[5] == 0
            && head[6] == 0 && head[7] == 1;
        proof {
            if ok {
                assert(hd.0 =~= want);
            } else if hd.0 =~= want {
                assert(false);
            }
        }
        return ok;
    }
    if head_v4 {
        return false;
    }
    proof {
        lemma_groups_len(s@, 0, 0, 8, Seq::empty());
    }
    if !(char_is(s, p1, ':') && char_is(s, p1 + 1, ':')) {
        return false;
    }
    let hn = head.len();
    let (tail, _, p3) = groups_from(s, p1 + 2, 7 - hn);
    let ghost tl = read_groups(s@, p1 + 2, 0, 7 - hn, Seq::empty());
    if p3 != s.len() {
        return false;
    }
    let tn = tail.len();
    proof {
        lemma_groups_len(s@, p1 + 2, 0, (7 - hn) as int, Seq::empty());
    }
    // the address: head, zeros, tail; loopback when all zero but a final 1
    let zeros = 8 - hn - tn;
    let mut ok = true;
    let mut k: usize = 0;
    while k < hn
        invariant
            k <= hn == head@.len(),
            ok == forall|j: int| 0 <= j < k ==> head@[j] == 0,
        decreases hn - k,
    {
        ok = ok && head[k] == 0;
        k = k + 1;
    }
    let head_zero = ok;
    let mut ok2 = true;
    let mut k2: usize = 0;
    while k2 + 1 < tn
        invariant
            tn == tail@.len(),
            k2 == 0 || k2 < tn,
            ok2 == forall|j: int| 0 <= j < k2 ==> tail@[j] == 0,
        decreases tn - k2,
    {
        ok2 = ok2 && tail[k2] == 0;
        k2 = k2 + 1;
    }
    let r = if tn == 0 { false } else { head_zero && ok2 && tail[tn - 1] == 1 };
    proof {
        let full = hd.0 + Seq::new((8 - hd.0.len() - tl.0.len()) as nat, |k: int| 0int) + tl.0;
        assert(full.len() == 8);
        if r {
            assert forall|j: int| 0 <= j < 8 implies full[j] == want[j] by {
                if j < hn {
                    assert(full[j] == hd.0[j]);
                    assert(head@[j] == 0);
                } else if j < hn + zeros {
                } else {
                    assert(full[j] == tl.0[j - hn - zeros]);
                    if j < 7 {
                        assert(tail@[j - hn - zeros] == 0);
                    }
                }
            }
            assert(full =~= want);
        } else {
            if full =~= want {
                if tn == 0 {
                    assert(full[7] == 0);
                } else {
                    assert(full[7] == tl.0[tn - 1]);
                    if !head_zero {
                        let j = choose|j: int| 0 <= j < hn && head@[j] != 0;
                        assert(full[j] == hd.0[j]);
                    } else if !ok2 {
                        let j = choose|j: int| 0 <= j < k2 && tail@[j] != 0;
                        assert(full[hn + zeros + j] == tl.0[j]);
                    }
                }
            }
        }
    }
    r
}

proof fn lemma_groups_len(s: Seq<char>, pos: int, i: int, limit: int, acc: Seq<int>)
    requires
        0 <= i <= limit,
        acc.len() == i,
    ensures
        read_groups(s, pos, i, limit, acc).0.len() <= limit,
        read_groups(s, pos, i, limit, acc).0.len() >= acc.len(),
    decreases limit - i,
{
    if i < limit {
        match after_sep(s, pos, i) {
            Some(q) => match read_group(s, q) {
                Some((g, np)) => lemma_groups_len(s, np, i + 1, limit, acc.push(g)),
                None => {},
            },
            None => {},
        }
    }
}

} // verus!
