//! IP address values for the `host` field of a server configuration.
//!
//! The configuration file holds the host as an IP literal string; parsing
//! it yields one of these plain values.

use vstd::prelude::*;

verus! {

/// An IPv4 address, as its four octets.
#[derive(Clone, Copy, Debug, PartialEq, Eq, Structural)]
pub struct Ipv4Addr {
    pub a: u8,
    pub b: u8,
    pub c: u8,
    pub d: u8,
}

impl Ipv4Addr {
    /// The address `a.b.c.d`.
    pub fn new(a: u8, b: u8, c: u8, d: u8) -> (r: Ipv4Addr)
        ensures
            r == (Ipv4Addr { a, b, c, d }),
    {
        Ipv4Addr { a, b, c, d }
    }
}

/// An IPv6 address, as its eight 16-bit segments.
#[derive(Clone, Copy, Debug, PartialEq, Eq, Structural)]
pub struct Ipv6Addr {
    pub s0: u16,
    pub s1: u16,
    pub s2: u16,
    pub s3: u16,
    pub s4: u16,
    pub s5: u16,
    pub s6: u16,
    pub s7: u16,
}

impl Ipv6Addr {
    /// The address `s0:s1:s2:s3:s4:s5:s6:s7`.
    pub fn new(s0: u16, s1: u16, s2: u16, s3: u16, s4: u16, s5: u16, s6: u16, s7: u16) -> (r:
        Ipv6Addr)
        ensures
            r == (Ipv6Addr { s0, s1, s2, s3, s4, s5, s6, s7 }),
    {
        Ipv6Addr { s0, s1, s2, s3, s4, s5, s6, s7 }
    }
}

/// An IP address, either version.
#[derive(Clone, Copy, Debug, PartialEq, Eq, Structural)]
pub enum IpAddr {
    V4(Ipv4Addr),
    V6(Ipv6Addr),
}

/// Whether `c` is a decimal digit.
pub open spec fn is_dec_digit(c: char) -> bool {
    '0' as int <= c as int <= '9' as int
}

/// The value of a decimal digit.
pub open spec fn dec_digit_val(c: char) -> int {
    c as int - '0' as int
}

/// The value of a sequence of decimal digits, most significant first.
pub open spec fn dec_val(s: Seq<char>) -> int
    decreases s.len(),
{
    if s.len() == 0 {
        0
    } else {
        dec_val(s.drop_last()) * 10 + dec_digit_val(s.last())
    }
}

/// Whether `c` is a hexadecimal digit, either case.
pub open spec fn is_hex_digit(c: char) -> bool {
    ||| '0' as int <= c as int <= '9' as int
    ||| 'a' as int <= c as int <= 'f' as int
    ||| 'A' as int <= c as int <= 'F' as int
}

/// The value of a hexadecimal digit.
pub open spec fn hex_digit_val(c: char) -> int {
    if '0' as int <= c as int <= '9' as int {
        c as int - '0' as int
    } else if 'a' as int <= c as int <= 'f' as int {
        c as int - 'a' as int + 10
    } else {
        c as int - 'A' as int + 10
    }
}

/// The value of a sequence of hexadecimal digits, most significant first.
pub open spec fn hex_val(s: Seq<char>) -> int
    decreases s.len(),
{
    if s.len() == 0 {
        0
    } else {
        hex_val(s.drop_last()) * 16 + hex_digit_val(s.last())
    }
}

/// Splitting a character sequence on a separator: the parts between the
/// separators, in order.  A sequence with no separator is one part; each
/// separator ends a part, so `n` separators give `n + 1` parts, empty parts
/// included.
pub open spec fn split_on(s: Seq<char>, sep: char) -> Seq<Seq<char>>
    decreases s.len(),
{
    if s.len() == 0 {
        seq![Seq::<char>::empty()]
    } else if s[0] == sep {
        seq![Seq::<char>::empty()] + split_on(s.skip(1), sep)
    } else {
        let r = split_on(s.skip(1), sep);
        seq![seq![s[0]] + r[0]] + r.skip(1)
    }
}

/// Splitting always yields at least one part.
pub proof fn lemma_split_len_pos(s: Seq<char>, sep: char)
    ensures
        split_on(s, sep).len() >= 1,
    decreases s.len(),
{
    if s.len() != 0 && s[0] != sep {
        lemma_split_len_pos(s.skip(1), sep);
    }
}

/// A separator-free sequence is a single part.
pub proof fn lemma_split_no_sep(s: Seq<char>, sep: char)
    requires
        forall|i: int| 0 <= i < s.len() ==> s[i] != sep,
    ensures
        split_on(s, sep) == seq![s],
    decreases s.len(),
{
    if s.len() == 0 {
        assert(split_on(s, sep) =~~= seq![s]);
    } else {
        lemma_split_no_sep(s.skip(1), sep);
        assert(seq![s[0]] + s.skip(1) =~= s);
        assert(split_on(s, sep) =~~= seq![s]);
    }
}

/// Splitting at the first separator: a separator-free prefix becomes the
/// first part, and the rest is split on its own.
pub proof fn lemma_split_at_sep(t: Seq<char>, u: Seq<char>, sep: char)
    requires
        forall|i: int| 0 <= i < t.len() ==> t[i] != sep,
    ensures
        split_on(t + seq![sep] + u, sep) == seq![t] + split_on(u, sep),
    decreases t.len(),
{
    let s = t + seq![sep] + u;
    if t.len() == 0 {
        assert(s =~= seq![sep] + u);
        assert(s[0] == sep);
        assert(s.skip(1) =~= u);
        assert(split_on(s, sep) =~~= seq![t] + split_on(u, sep));
    } else {
        assert(s[0] == t[0]);
        assert(s.skip(1) =~= t.skip(1) + seq![sep] + u);
        lemma_split_at_sep(t.skip(1), u, sep);
        let r = split_on(s.skip(1), sep);
        lemma_split_len_pos(u, sep);
        assert(r[0] == t.skip(1));
        assert(seq![s[0]] + t.skip(1) =~= t);
        assert(r.skip(1) =~= split_on(u, sep));
        assert(split_on(s, sep) =~~= seq![t] + split_on(u, sep));
    }
}

/// Splits `s` on `sep`, as [`split_on`] describes.
pub fn split_str(s: &str, sep: char) -> (parts: Vec<String>)
    ensures
        parts.deep_view() == split_on(s@, sep),
{
    let n = s.unicode_len();
    let mut parts: Vec<String> = Vec::new();
    let mut start: usize = 0;
    let mut i: usize = 0;
    proof {
        assert(s@.skip(0) =~= s@);
        assert(parts.deep_view() =~= Seq::<Seq<char>>::empty());
    }
    while i < n
        invariant
            start <= i <= n,
            n == s@.len(),
            forall|k: int| start <= k < i ==> s@[k] != sep,
            split_on(s@, sep) == parts.deep_view() + split_on(s@.skip(start as int), sep),
        decreases n - i,
    {
        let c = s.get_char(i);
        if c == sep {
            let ghost old_dv = parts.deep_view();
            let part = s.substring_char(start, i).to_owned();
            parts.push(part);
            proof {
                let pre = s@.subrange(start as int, i as int);
                assert(s@.skip(start as int) =~= pre + seq![sep] + s@.skip(i + 1));
                lemma_split_at_sep(pre, s@.skip(i + 1), sep);
                assert(parts.deep_view() =~= old_dv + seq![pre]);
                assert(parts.deep_view() + split_on(s@.skip(i + 1), sep) =~~= old_dv + split_on(
                    s@.skip(start as int),
                    sep,
                ));
            }
            start = i + 1;
        }
        i += 1;
    }
    let ghost old_dv = parts.deep_view();
    let part = s.substring_char(start, n).to_owned();
    parts.push(part);
    proof {
        let tail = s@.skip(start as int);
        assert(tail =~= s@.subrange(start as int, n as int));
        lemma_split_no_sep(tail, sep);
        assert(parts.deep_view() =~= old_dv + seq![tail]);
        assert(parts.deep_view() =~~= old_dv + split_on(tail, sep));
    }
    parts
}

/// What one dotted-quad part stands for: a part of one to three decimal
/// digits, without a superfluous leading zero, whose value is at most 255.
pub open spec fn spec_octet(s: Seq<char>) -> Option<u8> {
    if 1 <= s.len() <= 3 && (forall|i: int| 0 <= i < s.len() ==> is_dec_digit(s[i])) && (s.len()
        > 1 ==> s[0] != '0') && dec_val(s) <= 255 {
        Some(dec_val(s) as u8)
    } else {
        None
    }
}

/// Parses one dotted-quad part, as [`spec_octet`] describes.
pub fn parse_octet(s: &str) -> (r: Option<u8>)
    ensures
        r == spec_octet(s@),
{
    let n = s.unicode_len();
    if n < 1 || n > 3 {
        return None;
    }
    if n > 1 && s.get_char(0) == '0' {
        return None;
    }
    let mut acc: u32 = 0;
    let mut i: usize = 0;
    while i < n
        invariant
            i <= n == s@.len() <= 3,
            forall|k: int| 0 <= k < i ==> is_dec_digit(s@[k]),
            acc == dec_val(s@.take(i as int)),
            i <= 1 ==> acc <= 9,
            i <= 2 ==> acc <= 99,
            acc <= 999,
        decreases n - i,
    {
        let c = s.get_char(i);
        if c < '0' || c > '9' {
            return None;
        }
        let d = c as u32 - '0' as u32;
        proof {
            assert(s@.take(i + 1).drop_last() =~= s@.take(i as int));
        }
        acc = acc * 10 + d;
        i += 1;
    }
    proof {
        assert(s@.take(n as int) =~= s@);
    }
    if acc > 255 {
        return None;
    }
    Some(acc as u8)
}

/// What one hexadecimal group of an IPv6 literal stands for: one to four
/// hexadecimal digits.
pub open spec fn spec_hex_group(s: Seq<char>) -> Option<u16> {
    if 1 <= s.len() <= 4 && (forall|i: int| 0 <= i < s.len() ==> is_hex_digit(s[i])) {
        Some(hex_val(s) as u16)
    } else {
        None
    }
}

/// Parses one hexadecimal group, as [`spec_hex_group`] describes.
pub fn parse_hex_group(s: &str) -> (r: Option<u16>)
    ensures
        r == spec_hex_group(s@),
{
    let n = s.unicode_len();
    if n < 1 || n > 4 {
        return None;
    }
    let mut acc: u32 = 0;
    let mut i: usize = 0;
    while i < n
        invariant
            i <= n == s@.len() <= 4,
            forall|k: int| 0 <= k < i ==> is_hex_digit(s@[k]),
            acc == hex_val(s@.take(i as int)),
            i <= 1 ==> acc <= 0xf,
            i <= 2 ==> acc <= 0xff,
            i <= 3 ==> acc <= 0xfff,
            acc <= 0xffff,
        decreases n - i,
    {
        let c = s.get_char(i);
        let d: u32;
        if '0' <= c && c <= '9' {
            d = c as u32 - '0' as u32;
        } else if 'a' <= c && c <= 'f' {
            d = c as u32 - 'a' as u32 + 10;
        } else if 'A' <= c && c <= 'F' {
            d = c as u32 - 'A' as u32 + 10;
        } else {
            return None;
        }
        proof {
            assert(s@.take(i + 1).drop_last() =~= s@.take(i as int));
        }
        acc = acc * 16 + d;
        i += 1;
    }
    proof {
        assert(s@.take(n as int) =~= s@);
    }
    Some(acc as u16)
}

/// What an IPv4 literal stands for: four octet parts separated by dots.
pub open spec fn spec_parse_ipv4(s: Seq<char>) -> Option<Ipv4Addr> {
    let ps = split_on(s, '.');
    if ps.len() == 4 {
        match (spec_octet(ps[0]), spec_octet(ps[1]), spec_octet(ps[2]), spec_octet(ps[3])) {
            (Some(a), Some(b), Some(c), Some(d)) => Some(Ipv4Addr { a, b, c, d }),
            _ => None,
        }
    } else {
        None
    }
}

/// Parses an IPv4 literal, as [`spec_parse_ipv4`] describes.
pub fn parse_ipv4(s: &str) -> (r: Option<Ipv4Addr>)
    ensures
        r == spec_parse_ipv4(s@),
{
    let parts = split_str(s, '.');
    if parts.len() != 4 {
        return None;
    }
    proof {
        assert(parts.deep_view()[0] == parts@[0]@);
        assert(parts.deep_view()[1] == parts@[1]@);
        assert(parts.deep_view()[2] == parts@[2]@);
        assert(parts.deep_view()[3] == parts@[3]@);
    }
    let a = match parse_octet(parts[0].as_str()) {
        Some(x) => x,
        None => {
            return None;
        },
    };
    let b = match parse_octet(parts[1].as_str()) {
        Some(x) => x,
        None => {
            return None;
        },
    };
    let c = match parse_octet(parts[2].as_str()) {
        Some(x) => x,
        None => {
            return None;
        },
    };
    let d = match parse_octet(parts[3].as_str()) {
        Some(x) => x,
        None => {
            return None;
        },
    };
    Some(Ipv4Addr::new(a, b, c, d))
}

/// Whether a part contains a dot, which routes it to IPv4 parsing inside an
/// IPv6 literal.
pub open spec fn has_dot(p: Seq<char>) -> bool {
    exists|i: int| 0 <= i < p.len() && p[i] == '.'
}

/// A run of `n` zero segments.
pub open spec fn zeros(n: nat) -> Seq<u16> {
    Seq::new(n, |i: int| 0u16)
}

/// The address whose eight segments are `gs`.
pub open spec fn mk_ipv6(gs: Seq<u16>) -> Ipv6Addr
    recommends
        gs.len() == 8,
{
    Ipv6Addr {
        s0: gs[0],
        s1: gs[1],
        s2: gs[2],
        s3: gs[3],
        s4: gs[4],
        s5: gs[5],
        s6: gs[6],
        s7: gs[7],
    }
}

/// The segments a run of colon-separated parts stands for: each part is a
/// hexadecimal group, except that with `v4_tail` the last part may be an
/// IPv4 literal standing for the final two segments.
pub open spec fn groups_of(ps: Seq<Seq<char>>, v4_tail: bool) -> Option<Seq<u16>>
    decreases ps.len(),
{
    if ps.len() == 0 {
        Some(Seq::<u16>::empty())
    } else if ps.len() == 1 && v4_tail && has_dot(ps[0]) {
        match spec_parse_ipv4(ps[0]) {
            Some(ip) => Some(seq![(ip.a * 256 + ip.b) as u16, (ip.c * 256 + ip.d) as u16]),
            None => None,
        }
    } else {
        match spec_hex_group(ps[0]) {
            Some(g) => match groups_of(ps.skip(1), v4_tail) {
                Some(r) => Some(seq![g] + r),
                None => None,
            },
            None => None,
        }
    }
}

/// The index of the first empty part, or `-1` if every part is nonempty.
pub open spec fn find_empty(ps: Seq<Seq<char>>) -> int
    decreases ps.len(),
{
    if ps.len() == 0 {
        -1
    } else if ps[0].len() == 0 {
        0
    } else {
        let r = find_empty(ps.skip(1));
        if r == -1 {
            -1
        } else {
            r + 1
        }
    }
}

/// `find_empty` returns the first empty part's index.
proof fn lemma_find_empty_first(ps: Seq<Seq<char>>, i: int)
    requires
        0 <= i < ps.len(),
        ps[i].len() == 0,
        forall|k: int| 0 <= k < i ==> ps[k].len() > 0,
    ensures
        find_empty(ps) == i,
    decreases i,
{
    if i > 0 {
        assert(ps.skip(1)[i - 1].len() == 0);
        assert(forall|k: int| 0 <= k < i - 1 ==> ps.skip(1)[k].len() > 0);
        lemma_find_empty_first(ps.skip(1), i - 1);
    }
}

/// What an IPv6 literal stands for.  The parts between colons are
/// hexadecimal groups (the last possibly an embedded IPv4 literal); exactly
/// eight groups, or fewer with one `::` standing for the missing run of
/// zero groups.
pub open spec fn spec_parse_ipv6(s: Seq<char>) -> Option<Ipv6Addr> {
    let ps = split_on(s, ':');
    if forall|k: int| 0 <= k < ps.len() ==> ps[k].len() > 0 {
        // no `::`: exactly eight groups
        match groups_of(ps, true) {
            Some(gs) => if gs.len() == 8 {
                Some(mk_ipv6(gs))
            } else {
                None
            },
            None => None,
        }
    } else if ps.len() == 3 && ps[0].len() == 0 && ps[1].len() == 0 && ps[2].len() == 0 {
        // the literal `::`
        Some(mk_ipv6(zeros(8)))
    } else if ps.len() >= 3 && ps[0].len() == 0 && ps[1].len() == 0 && (forall|k: int|
        2 <= k < ps.len() ==> ps[k].len() > 0) {
        // leading `::`
        match groups_of(ps.skip(2), true) {
            Some(gs) => if gs.len() <= 7 {
                Some(mk_ipv6(zeros((8 - gs.len()) as nat) + gs))
            } else {
                None
            },
            None => None,
        }
    } else if ps.len() >= 3 && ps[ps.len() - 1].len() == 0 && ps[ps.len() - 2].len() == 0 && (
    forall|k: int| 0 <= k < ps.len() - 2 ==> ps[k].len() > 0) {
        // trailing `::`
        match groups_of(ps.take(ps.len() - 2), false) {
            Some(gs) => if gs.len() <= 7 {
                Some(mk_ipv6(gs + zeros((8 - gs.len()) as nat)))
            } else {
                None
            },
            None => None,
        }
    } else {
        // `::` between two nonempty runs
        let e = find_empty(ps);
        if 0 < e < ps.len() - 1 && (forall|k: int|
            0 <= k < ps.len() && k != e ==> ps[k].len() > 0) {
            match (groups_of(ps.take(e), false), groups_of(ps.skip(e + 1), true)) {
                (Some(h), Some(t)) => if h.len() + t.len() <= 7 {
                    Some(mk_ipv6(h + zeros((8 - h.len() - t.len()) as nat) + t))
                } else {
                    None
                },
                _ => None,
            }
        } else {
            None
        }
    }
}

/// Whether the part holds a dot, as [`has_dot`] describes.
fn contains_dot(s: &str) -> (r: bool)
    ensures
        r == has_dot(s@),
{
    let n = s.unicode_len();
    let mut i: usize = 0;
    while i < n
        invariant
            i <= n == s@.len(),
            forall|k: int| 0 <= k < i ==> s@[k] != '.',
        decreases n - i,
    {
        if s.get_char(i) == '.' {
            return true;
        }
        i += 1;
    }
    false
}

/// Whether every part in `[from, to)` is nonempty.
fn all_nonempty_range(parts: &Vec<String>, from: usize, to: usize) -> (r: bool)
    requires
        from <= to <= parts.len(),
    ensures
        r == (forall|k: int| from <= k < to ==> parts.deep_view()[k].len() > 0),
{
    let mut i: usize = from;
    while i < to
        invariant
            from <= i <= to <= parts.len(),
            forall|k: int| from <= k < i ==> parts.deep_view()[k].len() > 0,
        decreases to - i,
    {
        if parts[i].as_str().is_empty() {
            proof {
                assert(parts.deep_view()[i as int].len() == 0);
            }
            return false;
        }
        proof {
            assert(parts.deep_view()[i as int] == parts@[i as int]@);
        }
        i += 1;
    }
    true
}

/// The first empty part's index, or the part count when every part is
/// nonempty; agrees with [`find_empty`].
fn find_first_empty(parts: &Vec<String>) -> (r: usize)
    ensures
        r <= parts.len(),
        r < parts.len() ==> {
            &&& parts.deep_view()[r as int].len() == 0
            &&& find_empty(parts.deep_view()) == r
        },
        r == parts.len() ==> (forall|k: int|
            0 <= k < parts.len() ==> parts.deep_view()[k].len() > 0),
{
    let mut i: usize = 0;
    while i < parts.len()
        invariant
            i <= parts.len(),
            forall|k: int| 0 <= k < i ==> parts.deep_view()[k].len() > 0,
        decreases parts.len() - i,
    {
        if parts[i].as_str().is_empty() {
            proof {
                assert(parts.deep_view()[i as int] == parts@[i as int]@);
                lemma_find_empty_first(parts.deep_view(), i as int);
            }
            return i;
        }
        proof {
            assert(parts.deep_view()[i as int] == parts@[i as int]@);
        }
        i += 1;
    }
    parts.len()
}

/// Parses the parts in `[from, to)` into segments, as [`groups_of`]
/// describes.
fn parse_groups(parts: &Vec<String>, from: usize, to: usize, v4_tail: bool) -> (r: Option<
    Vec<u16>,
>)
    requires
        from <= to <= parts.len(),
    ensures
        match r {
            Some(v) => groups_of(parts.deep_view().subrange(from as int, to as int), v4_tail)
                == Some(v@),
            None => groups_of(parts.deep_view().subrange(from as int, to as int), v4_tail)
                is None,
        },
{
    let ghost whole = parts.deep_view().subrange(from as int, to as int);
    let mut acc: Vec<u16> = Vec::new();
    let mut i: usize = from;
    while i < to
        invariant
            from <= i <= to <= parts.len(),
            whole == parts.deep_view().subrange(from as int, to as int),
            groups_of(whole, v4_tail) == (match groups_of(
                parts.deep_view().subrange(i as int, to as int),
                v4_tail,
            ) {
                Some(rest) => Some(acc@ + rest),
                None => None,
            }),
        decreases to - i,
    {
        let ghost remaining = parts.deep_view().subrange(i as int, to as int);
        proof {
            assert(remaining[0] == parts.deep_view()[i as int]);
            assert(parts.deep_view()[i as int] == parts@[i as int]@);
            assert(remaining.skip(1) =~= parts.deep_view().subrange(i + 1, to as int));
        }
        if v4_tail && i + 1 == to && contains_dot(parts[i].as_str()) {
            match parse_ipv4(parts[i].as_str()) {
                Some(ip) => {
                    let ghost old_acc = acc@;
                    let hi = (ip.a as u16) * 256 + (ip.b as u16);
                    let lo = (ip.c as u16) * 256 + (ip.d as u16);
                    acc.push(hi);
                    acc.push(lo);
                    proof {
                        assert(groups_of(remaining.skip(1), v4_tail) == Some(
                            Seq::<u16>::empty(),
                        ));
                        assert(acc@ =~= old_acc + seq![hi, lo]);
                    }
                },
                None => {
                    return None;
                },
            }
        } else {
            match parse_hex_group(parts[i].as_str()) {
                Some(g) => {
                    let ghost old_acc = acc@;
                    acc.push(g);
                    proof {
                        assert(forall|rest: Seq<u16>| (old_acc + seq![g]) + rest =~= old_acc + (
                        seq![g] + rest));
                    }
                },
                None => {
                    return None;
                },
            }
        }
        i += 1;
    }
    proof {
        assert(parts.deep_view().subrange(i as int, to as int) =~= Seq::<Seq<char>>::empty());
        assert(acc@ + Seq::<u16>::empty() =~= acc@);
    }
    Some(acc)
}

/// Builds the eight segments from the groups before and after a `::`, with
/// the missing run filled by zeros.
fn assemble_ipv6(head: &Vec<u16>, tail: &Vec<u16>) -> (r: Ipv6Addr)
    requires
        head@.len() + tail@.len() <= 8,
    ensures
        r == mk_ipv6(head@ + zeros((8 - head@.len() - tail@.len()) as nat) + tail@),
{
    let mut v: Vec<u16> = Vec::new();
    let mut i: usize = 0;
    while i < head.len()
        invariant
            i <= head.len(),
            v@ =~= head@.take(i as int),
        decreases head.len() - i,
    {
        v.push(head[i]);
        i += 1;
    }
    let n_zero = 8 - head.len() - tail.len();
    let mut z: usize = 0;
    while z < n_zero
        invariant
            z <= n_zero == 8 - head@.len() - tail@.len(),
            v@ =~= head@ + zeros(z as nat),
        decreases n_zero - z,
    {
        v.push(0);
        proof {
            assert(head@ + zeros(z as nat) + seq![0u16] =~= head@ + zeros((z + 1) as nat));
        }
        z += 1;
    }
    let mut j: usize = 0;
    while j < tail.len()
        invariant
            j <= tail.len(),
            head@.len() + tail@.len() <= 8,
            v@ =~= head@ + zeros((8 - head@.len() - tail@.len()) as nat) + tail@.take(j as int),
        decreases tail.len() - j,
    {
        v.push(tail[j]);
        j += 1;
    }
    let ghost gs = head@ + zeros((8 - head@.len() - tail@.len()) as nat) + tail@;
    proof {
        assert(tail@.take(tail@.len() as int) =~= tail@);
        assert(v@ =~= gs);
        assert(v@.len() == 8);
    }
    Ipv6Addr::new(v[0], v[1], v[2], v[3], v[4], v[5], v[6], v[7])
}

/// Parses an IPv6 literal, as [`spec_parse_ipv6`] describes.
pub fn parse_ipv6(s: &str) -> (r: Option<Ipv6Addr>)
    ensures
        r == spec_parse_ipv6(s@),
{
    let parts = split_str(s, ':');
    let ghost ps = parts.deep_view();
    let len = parts.len();
    proof {
        assert(ps.len() == parts@.len());
    }
    let first_empty = find_first_empty(&parts);
    if first_empty == len {
        // no `::`: exactly eight groups
        proof {
            assert(ps.subrange(0, len as int) =~= ps);
        }
        match parse_groups(&parts, 0, len, true) {
            Some(gs) => {
                if gs.len() == 8 {
                    let zero_tail: Vec<u16> = Vec::new();
                    let r = assemble_ipv6(&gs, &zero_tail);
                    proof {
                        assert(gs@ + zeros(0) + zero_tail@ =~= gs@);
                    }
                    Some(r)
                } else {
                    None
                }
            },
            None => None,
        }
    } else if len == 3 && parts[0].as_str().is_empty() && parts[1].as_str().is_empty()
        && parts[2].as_str().is_empty() {
        // the literal `::`
        let head: Vec<u16> = Vec::new();
        let tail: Vec<u16> = Vec::new();
        let r = assemble_ipv6(&head, &tail);
        proof {
            assert(ps[0] == parts@[0]@);
            assert(ps[1] == parts@[1]@);
            assert(ps[2] == parts@[2]@);
            assert(head@ + zeros(8) + tail@ =~= zeros(8));
        }
        Some(r)
    } else if len >= 3 && parts[0].as_str().is_empty() && parts[1].as_str().is_empty()
        && all_nonempty_range(&parts, 2, len) {
        // leading `::`
        proof {
            assert(ps[0] == parts@[0]@);
            assert(ps[1] == parts@[1]@);
            assert(ps.subrange(2, len as int) =~= ps.skip(2));
            assert(!(ps.len() == 3 && ps[0].len() == 0 && ps[1].len() == 0 && ps[2].len() == 0));
        }
        match parse_groups(&parts, 2, len, true) {
            Some(gs) => {
                if gs.len() <= 7 {
                    let head: Vec<u16> = Vec::new();
                    let r = assemble_ipv6(&head, &gs);
                    proof {
                        assert(head@ + zeros((8 - gs@.len()) as nat) + gs@ =~= zeros(
                            (8 - gs@.len()) as nat,
                        ) + gs@);
                    }
                    Some(r)
                } else {
                    None
                }
            },
            None => None,
        }
    } else if len >= 3 && parts[len - 1].as_str().is_empty() && parts[len - 2].as_str().is_empty()
        && all_nonempty_range(&parts, 0, len - 2) {
        // trailing `::`
        proof {
            assert(ps[len - 1] == parts@[len - 1]@);
            assert(ps[len - 2] == parts@[len - 2]@);
            assert(ps.subrange(0, len - 2) =~= ps.take(len - 2));
        }
        match parse_groups(&parts, 0, len - 2, false) {
            Some(gs) => {
                if gs.len() <= 7 {
                    let tail: Vec<u16> = Vec::new();
                    let r = assemble_ipv6(&gs, &tail);
                    proof {
                        assert(gs@ + zeros((8 - gs@.len()) as nat) + tail@ =~= gs@ + zeros(
                            (8 - gs@.len()) as nat,
                        ));
                    }
                    Some(r)
                } else {
                    None
                }
            },
            None => None,
        }
    } else {
        // `::` between two nonempty runs
        let e = first_empty;
        proof {
            assert(find_empty(ps) == e);
        }
        if 0 < e && e < len - 1 && all_nonempty_range(&parts, 0, e) && all_nonempty_range(
            &parts,
            e + 1,
            len,
        ) {
            proof {
                assert(forall|k: int| 0 <= k < ps.len() && k != e ==> ps[k].len() > 0);
                assert(ps.subrange(0, e as int) =~= ps.take(e as int));
                assert(ps.subrange(e + 1, len as int) =~= ps.skip(e + 1));
            }
            match (parse_groups(&parts, 0, e, false), parse_groups(&parts, e + 1, len, true)) {
                (Some(h), Some(t)) => {
                    if h.len() <= 7 && t.len() <= 7 - h.len() {
                        Some(assemble_ipv6(&h, &t))
                    } else {
                        None
                    }
                },
                _ => None,
            }
        } else {
            None
        }
    }
}

/// What an IP literal stands for: an IPv4 literal, or else an IPv6 literal.
pub open spec fn spec_parse_ip(s: Seq<char>) -> Option<IpAddr> {
    match spec_parse_ipv4(s) {
        Some(v4) => Some(IpAddr::V4(v4)),
        None => match spec_parse_ipv6(s) {
            Some(v6) => Some(IpAddr::V6(v6)),
            None => None,
        },
    }
}

/// Parses an IP literal of either version, as [`spec_parse_ip`] describes.
pub fn parse_ip(s: &str) -> (r: Option<IpAddr>)
    ensures
        r == spec_parse_ip(s@),
{
    match parse_ipv4(s) {
        Some(v4) => Some(IpAddr::V4(v4)),
        None => match parse_ipv6(s) {
            Some(v6) => Some(IpAddr::V6(v6)),
            None => None,
        },
    }
}

} // verus!
