//! The textual form of IP addresses.
//!
//! An IPv4 address is four decimal numbers from 0 to 255, separated by dots,
//! each of one to three digits and none with a needless leading zero. An IPv6
//! address is eight groups of one to four hexadecimal digits, separated by
//! colons; one run of zero groups may be written `::`, and the last two groups
//! may be written as an IPv4 address.

use crate::text::copy_range;
use vstd::prelude::*;

verus! {

/// Whether `c` is one of `0` to `9`.
pub open spec fn is_dec_digit(c: char) -> bool {
    '0' <= c <= '9'
}

/// Whether `c` is a hexadecimal digit, in either case.
pub open spec fn is_hex_digit(c: char) -> bool {
    ('0' <= c <= '9') || ('a' <= c <= 'f') || ('A' <= c <= 'F')
}

/// The value of a hexadecimal digit (a decimal digit is one).
pub open spec fn digit_value(c: char) -> nat {
    if '0' <= c <= '9' {
        (c as nat - '0' as nat) as nat
    } else if 'a' <= c <= 'f' {
        (c as nat - 'a' as nat + 10) as nat
    } else if 'A' <= c <= 'F' {
        (c as nat - 'A' as nat + 10) as nat
    } else {
        0
    }
}

/// The number that a run of digits denotes in the given base.
pub open spec fn digits_value(s: Seq<char>, radix: nat) -> nat
    decreases s.len(),
{
    if s.len() == 0 {
        0
    } else {
        digits_value(s.drop_last(), radix) * radix + digit_value(s.last())
    }
}

/// Whether every character is a decimal digit.
pub open spec fn all_dec_digits(s: Seq<char>) -> bool {
    forall|i: int| 0 <= i < s.len() ==> is_dec_digit(#[trigger] s[i])
}

/// Whether every character is a hexadecimal digit.
pub open spec fn all_hex_digits(s: Seq<char>) -> bool {
    forall|i: int| 0 <= i < s.len() ==> is_hex_digit(#[trigger] s[i])
}

/// One number of an IPv4 address: one to three decimal digits, no leading
/// zero before another digit, at most 255.
pub open spec fn dec_octet(s: Seq<char>) -> Option<u8> {
    if 1 <= s.len() <= 3 && all_dec_digits(s) && (s.len() == 1 || s[0] != '0') && digits_value(
        s,
        10,
    ) <= 255 {
        Some(digits_value(s, 10) as u8)
    } else {
        None
    }
}

/// One group of an IPv6 address: one to four hexadecimal digits.
pub open spec fn hex_group(s: Seq<char>) -> Option<u16> {
    if 1 <= s.len() <= 4 && all_hex_digits(s) {
        Some(digits_value(s, 16) as u16)
    } else {
        None
    }
}

/// The index of the first `c` in `s`, or the length of `s` if it holds none.
pub open spec fn first_index_of(s: Seq<char>, c: char) -> int
    decreases s.len(),
{
    if s.len() == 0 {
        0
    } else if s[0] == c {
        0
    } else {
        1 + first_index_of(s.drop_first(), c)
    }
}

/// The pieces of `s` between the occurrences of `sep`. A string without
/// `sep` is one piece; two neighbouring separators have an empty piece
/// between them.
pub open spec fn split_on(s: Seq<char>, sep: char) -> Seq<Seq<char>>
    decreases s.len(),
{
    let k = first_index_of(s, sep);
    if 0 <= k < s.len() {
        seq![s.take(k)] + split_on(s.skip(k + 1), sep)
    } else {
        seq![s]
    }
}

/// The four numbers of an IPv4 address in text, if `s` is one.
pub open spec fn ipv4_octets(s: Seq<char>) -> Option<Seq<u8>> {
    let parts = split_on(s, '.');
    if parts.len() == 4 && (forall|i: int| 0 <= i < 4 ==> (#[trigger] dec_octet(parts[i])) is Some) {
        Some(Seq::new(4, |i: int| dec_octet(parts[i]).unwrap()))
    } else {
        None
    }
}

/// The groups that colon-separated hexadecimal text denotes, if every piece
/// is a group.
pub open spec fn hex_groups(s: Seq<char>) -> Option<Seq<u16>> {
    let parts = split_on(s, ':');
    if forall|i: int| 0 <= i < parts.len() ==> (#[trigger] hex_group(parts[i])) is Some {
        Some(Seq::new(parts.len(), |i: int| hex_group(parts[i]).unwrap()))
    } else {
        None
    }
}

/// The two groups that four IPv4 numbers fill.
pub open spec fn octets_as_groups(o: Seq<u8>) -> Seq<u16> {
    seq![(o[0] as nat * 256 + o[1] as nat) as u16, (o[2] as nat * 256 + o[3] as nat) as u16]
}

/// The groups that colon-separated text denotes when its last piece may be an
/// IPv4 address, which then stands for two groups.
pub open spec fn groups_with_tail(s: Seq<char>) -> Option<Seq<u16>> {
    let parts = split_on(s, ':');
    let last = parts.last();
    match ipv4_octets(last) {
        Some(o) => {
            if parts.len() == 1 {
                Some(octets_as_groups(o))
            } else {
                let front = s.take(s.len() - last.len() - 1);
                match hex_groups(front) {
                    Some(g) => Some(g + octets_as_groups(o)),
                    None => None,
                }
            }
        },
        None => hex_groups(s),
    }
}

/// Whether two colons stand at index `i` and the one after.
pub open spec fn is_double_colon(s: Seq<char>, i: int) -> bool {
    0 <= i && i + 1 < s.len() && s[i] == ':' && s[i + 1] == ':'
}

/// The index of the first `::` in `s`, if there is one.
#[verifier::opaque]
pub open spec fn double_colon_at(s: Seq<char>) -> Option<int> {
    if exists|i: int| is_double_colon(s, i) {
        Some(choose|i: int| is_double_colon(s, i) && forall|j: int| 0 <= j < i ==> !is_double_colon(s, j))
    } else {
        None
    }
}

/// The groups before and after a `::`, with the zero groups that it stands
/// for between them.
pub open spec fn with_gap(front: Seq<u16>, back: Seq<u16>) -> Seq<u16> {
    front + Seq::new((8 - front.len() - back.len()) as nat, |i: int| 0u16) + back
}

/// The groups before a `::`: none where nothing stands there.
pub open spec fn groups_before(head: Seq<char>) -> Option<Seq<u16>> {
    if head.len() == 0 {
        Some(Seq::<u16>::empty())
    } else {
        hex_groups(head)
    }
}

/// The groups after a `::`: none where nothing stands there.
pub open spec fn groups_after(tail: Seq<char>) -> Option<Seq<u16>> {
    if tail.len() == 0 {
        Some(Seq::<u16>::empty())
    } else {
        groups_with_tail(tail)
    }
}

/// The eight groups of an IPv6 address in text, if `s` is one.
pub open spec fn ipv6_groups(s: Seq<char>) -> Option<Seq<u16>> {
    match double_colon_at(s) {
        None => match groups_with_tail(s) {
            Some(g) => if g.len() == 8 {
                Some(g)
            } else {
                None
            },
            None => None,
        },
        Some(k) => match (groups_before(s.take(k)), groups_after(s.skip(k + 2))) {
            (Some(f), Some(b)) => if f.len() + b.len() <= 7 {
                Some(with_gap(f, b))
            } else {
                None
            },
            _ => None,
        },
    }
}

/// The value of a hexadecimal digit, if `c` is one.
fn hex_digit_of(c: char) -> (r: Option<u32>)
    ensures
        r is Some == is_hex_digit(c),
        r is Some ==> r.unwrap() == digit_value(c) && r.unwrap() < 16,
        r is Some && is_dec_digit(c) ==> r.unwrap() < 10,
{
    if c >= '0' && c <= '9' {
        Some(c as u32 - '0' as u32)
    } else if c >= 'a' && c <= 'f' {
        Some(c as u32 - 'a' as u32 + 10)
    } else if c >= 'A' && c <= 'F' {
        Some(c as u32 - 'A' as u32 + 10)
    } else {
        None
    }
}

/// Reads a run of one to `max` digits, hexadecimal or decimal.
fn read_digits(v: &Vec<char>, hex: bool, max: usize) -> (r: Option<u32>)
    requires
        max <= 4,
    ensures
        r is Some == (1 <= v@.len() <= max && if hex {
            all_hex_digits(v@)
        } else {
            all_dec_digits(v@)
        }),
        r is Some ==> r.unwrap() == digits_value(v@, if hex { 16 } else { 10 }) && r.unwrap()
            <= 0xffff,
{
    if v.len() == 0 || v.len() > max {
        return None;
    }
    let radix: u32 = if hex {
        16
    } else {
        10
    };
    let mut acc: u32 = 0;
    let mut i: usize = 0;
    while i < v.len()
        invariant
            i <= v.len() <= max <= 4,
            radix == if hex { 16u32 } else { 10u32 },
            acc == digits_value(v@.take(i as int), radix as nat),
            i == 0 ==> acc == 0,
            i == 1 ==> acc < 0x10,
            i == 2 ==> acc < 0x100,
            i == 3 ==> acc < 0x1000,
            i == 4 ==> acc < 0x10000,
            hex ==> all_hex_digits(v@.take(i as int)),
            !hex ==> all_dec_digits(v@.take(i as int)),
        decreases v.len() - i,
    {
        let c: char = v[i];
        let d: u32 = match hex_digit_of(c) {
            Some(d) => d,
            None => {
                return None;
            },
        };
        if !hex && !(c >= '0' && c <= '9') {
            return None;
        }
        let ghost next = v@.take(i + 1);
        assert(next.drop_last() =~= v@.take(i as int));
        assert(next.last() == c);
        assert forall|j: int| 0 <= j < next.len() implies if hex {
            is_hex_digit(#[trigger] next[j])
        } else {
            is_dec_digit(next[j])
        } by {
            if j < i {
                assert(next[j] == v@.take(i as int)[j]);
            }
        }
        acc = acc * radix + d;
        i += 1;
    }
    assert(v@.take(v.len() as int) =~= v@);
    Some(acc)
}

/// One number of an IPv4 address.
pub fn parse_dec_octet(v: &Vec<char>) -> (r: Option<u8>)
    ensures
        r == dec_octet(v@),
{
    match read_digits(v, false, 3) {
        Some(n) => {
            if (v.len() > 1 && v[0] == '0') || n > 255 {
                None
            } else {
                Some(n as u8)
            }
        },
        None => None,
    }
}

/// One group of an IPv6 address.
pub fn parse_hex_group(v: &Vec<char>) -> (r: Option<u16>)
    ensures
        r == hex_group(v@),
{
    match read_digits(v, true, 4) {
        Some(n) => Some(n as u16),
        None => None,
    }
}

/// `first_index_of` gives `k` where no `c` stands before `k`, and `k` is
/// the length of `s` or the place of a `c`.
proof fn lemma_first_index_of(s: Seq<char>, c: char, k: int)
    requires
        0 <= k <= s.len(),
        forall|j: int| 0 <= j < k ==> s[j] != c,
        k < s.len() ==> s[k] == c,
    ensures
        first_index_of(s, c) == k,
    decreases s.len(),
{
    if s.len() == 0 {
    } else if k == 0 {
    } else {
        let t = s.drop_first();
        assert forall|j: int| 0 <= j < k - 1 implies t[j] != c by {
            assert(t[j] == s[j + 1]);
        }
        lemma_first_index_of(t, c, k - 1);
    }
}

/// The pieces of the text between the occurrences of `sep`.
pub fn split_chars(v: &Vec<char>, sep: char) -> (parts: Vec<Vec<char>>)
    ensures
        parts@.len() == split_on(v@, sep).len(),
        forall|i: int| 0 <= i < parts@.len() ==> (#[trigger] parts@[i])@ == split_on(v@, sep)[i],
{
    let mut parts: Vec<Vec<char>> = Vec::new();
    let mut start: usize = 0;
    let mut i: usize = 0;
    assert(v@.skip(0) =~= v@);
    while i < v.len()
        invariant
            start <= i <= v.len(),
            forall|j: int| start <= j < i ==> v@[j] != sep,
            split_on(v@, sep) =~= Seq::new(parts@.len(), |k: int| parts@[k]@) + split_on(
                v@.skip(start as int),
                sep,
            ),
        decreases v.len() - i,
    {
        if v[i] == sep {
            let piece: Vec<char> = copy_range(v, start, i);
            proof {
                let rest = v@.skip(start as int);
                let k = i - start;
                assert forall|j: int| 0 <= j < k implies rest[j] != sep by {
                    assert(rest[j] == v@[start + j]);
                }
                lemma_first_index_of(rest, sep, k);
                assert(rest.take(k) =~= v@.subrange(start as int, i as int));
                assert(rest.skip(k + 1) =~= v@.skip(i + 1));
                let done = Seq::new(parts@.len(), |k: int| parts@[k]@);
                let grown = Seq::new(parts@.push(piece).len(), |k: int| parts@.push(piece)[k]@);
                assert(grown =~= done + seq![piece@]);
            }
            parts.push(piece);
            start = i + 1;
        }
        i += 1;
    }
    let piece: Vec<char> = copy_range(v, start, v.len());
    proof {
        let rest = v@.skip(start as int);
        assert forall|j: int| 0 <= j < rest.len() implies rest[j] != sep by {
            assert(rest[j] == v@[start + j]);
        }
        lemma_first_index_of(rest, sep, rest.len() as int);
        assert(rest =~= v@.subrange(start as int, v.len() as int));
        let done = Seq::new(parts@.len(), |k: int| parts@[k]@);
        let grown = Seq::new(parts@.push(piece).len(), |k: int| parts@.push(piece)[k]@);
        assert(grown =~= done + seq![piece@]);
        assert(split_on(v@, sep) =~= grown);
    }
    parts.push(piece);
    parts
}

/// The four numbers of an IPv4 address in text.
pub fn parse_ipv4(v: &Vec<char>) -> (r: Option<Vec<u8>>)
    ensures
        r is Some == ipv4_octets(v@) is Some,
        r is Some ==> r.unwrap()@ == ipv4_octets(v@).unwrap(),
{
    let parts: Vec<Vec<char>> = split_chars(v, '.');
    if parts.len() != 4 {
        return None;
    }
    let mut octets: Vec<u8> = Vec::new();
    let mut i: usize = 0;
    while i < 4
        invariant
            i <= 4,
            parts@.len() == 4,
            parts@.len() == split_on(v@, '.').len(),
            forall|k: int|
                0 <= k < parts@.len() ==> (#[trigger] parts@[k])@ == split_on(v@, '.')[k],
            octets@.len() == i,
            forall|k: int|
                0 <= k < i ==> (#[trigger] dec_octet(split_on(v@, '.')[k])) == Some(octets@[k]),
        decreases 4 - i,
    {
        assert(parts@[i as int]@ == split_on(v@, '.')[i as int]);
        match parse_dec_octet(&parts[i]) {
            Some(o) => {
                octets.push(o);
            },
            None => {
                return None;
            },
        }
        i += 1;
    }
    assert(octets@ =~= ipv4_octets(v@).unwrap());
    Some(octets)
}

/// The groups of colon-separated hexadecimal text.
pub fn parse_hex_groups(v: &Vec<char>) -> (r: Option<Vec<u16>>)
    ensures
        r is Some == hex_groups(v@) is Some,
        r is Some ==> r.unwrap()@ == hex_groups(v@).unwrap(),
{
    let parts: Vec<Vec<char>> = split_chars(v, ':');
    let mut groups: Vec<u16> = Vec::new();
    let mut i: usize = 0;
    while i < parts.len()
        invariant
            i <= parts@.len(),
            parts@.len() == split_on(v@, ':').len(),
            forall|k: int|
                0 <= k < parts@.len() ==> (#[trigger] parts@[k])@ == split_on(v@, ':')[k],
            groups@.len() == i,
            forall|k: int|
                0 <= k < i ==> (#[trigger] hex_group(split_on(v@, ':')[k])) == Some(groups@[k]),
        decreases parts.len() - i,
    {
        assert(parts@[i as int]@ == split_on(v@, ':')[i as int]);
        match parse_hex_group(&parts[i]) {
            Some(g) => {
                groups.push(g);
            },
            None => {
                return None;
            },
        }
        i += 1;
    }
    assert(groups@ =~= hex_groups(v@).unwrap());
    Some(groups)
}

/// A split has at least one piece, and where it has more than one, the last
/// piece and the separator before it fit in the text.
proof fn lemma_split_last(s: Seq<char>, sep: char)
    ensures
        split_on(s, sep).len() >= 1,
        split_on(s, sep).len() == 1 ==> split_on(s, sep).last() == s,
        split_on(s, sep).len() > 1 ==> split_on(s, sep).last().len() + 1 <= s.len(),
    decreases s.len(),
{
    let k = first_index_of(s, sep);
    if 0 <= k < s.len() {
        let rest = s.skip(k + 1);
        lemma_split_last(rest, sep);
        assert(split_on(s, sep) =~= seq![s.take(k)] + split_on(rest, sep));
        assert(split_on(s, sep).last() == split_on(rest, sep).last());
    }
}

/// The groups of colon-separated text whose last piece may be an IPv4
/// address.
pub fn parse_groups_with_tail(v: &Vec<char>) -> (r: Option<Vec<u16>>)
    ensures
        r is Some == groups_with_tail(v@) is Some,
        r is Some ==> r.unwrap()@ == groups_with_tail(v@).unwrap(),
{
    let parts: Vec<Vec<char>> = split_chars(v, ':');
    proof {
        lemma_split_last(v@, ':');
    }
    let n: usize = parts.len();
    let last: &Vec<char> = &parts[n - 1];
    assert(last@ == split_on(v@, ':').last());
    match parse_ipv4(last) {
        Some(o) => {
            let high: u16 = o[0] as u16 * 256 + o[1] as u16;
            let low: u16 = o[2] as u16 * 256 + o[3] as u16;
            if n == 1 {
                let mut g: Vec<u16> = Vec::new();
                g.push(high);
                g.push(low);
                assert(g@ =~= octets_as_groups(o@));
                Some(g)
            } else {
                let front: Vec<char> = copy_range(v, 0, v.len() - last.len() - 1);
                assert(front@ =~= v@.take(v@.len() - last@.len() - 1));
                match parse_hex_groups(&front) {
                    Some(g) => {
                        let mut g: Vec<u16> = g;
                        let ghost before = g@;
                        g.push(high);
                        g.push(low);
                        assert(g@ =~= before + octets_as_groups(o@));
                        Some(g)
                    },
                    None => None,
                }
            }
        },
        None => parse_hex_groups(v),
    }
}

/// The index of the first `::` in the text.
pub fn find_double_colon(v: &Vec<char>) -> (r: Option<usize>)
    ensures
        match r {
            Some(k) => double_colon_at(v@) == Some(k as int) && k + 2 <= v.len(),
            None => double_colon_at(v@) is None,
        },
{
    reveal(double_colon_at);
    let mut i: usize = 0;
    while i < v.len()
        invariant
            i <= v.len(),
            forall|j: int| 0 <= j < i ==> !is_double_colon(v@, j),
        decreases v.len() - i,
    {
        if v[i] == ':' && i + 1 < v.len() && v[i + 1] == ':' {
            proof {
                reveal(double_colon_at);
                let k = i as int;
                assert(is_double_colon(v@, k));
                assert(exists|c: int|
                    is_double_colon(v@, c) && forall|j: int|
                        0 <= j < c ==> !is_double_colon(v@, j)) by {
                    assert(is_double_colon(v@, k) && forall|j: int|
                        0 <= j < k ==> !is_double_colon(v@, j));
                }
                let c = double_colon_at(v@).unwrap();
                assert(is_double_colon(v@, c));
                assert(forall|j: int| 0 <= j < c ==> !is_double_colon(v@, j));
                if c < k {
                    assert(!is_double_colon(v@, c));
                }
                if k < c {
                    assert(!is_double_colon(v@, k));
                }
            }
            return Some(i);
        }
        i += 1;
    }
    assert forall|j: int| !is_double_colon(v@, j) by {
        if 0 <= j < v@.len() {
            assert(!is_double_colon(v@, j));
        }
    }
    None
}

/// Joins the groups before and after a `::` into eight groups.
fn fill_gap(front: Vec<u16>, back: &Vec<u16>) -> (g: Vec<u16>)
    requires
        front@.len() + back@.len() <= 7,
    ensures
        g@ == with_gap(front@, back@),
{
    let gap: usize = 8 - front.len() - back.len();
    let mut g: Vec<u16> = front;
    let ghost f0 = g@;
    let mut i: usize = 0;
    while i < gap
        invariant
            i <= gap,
            g@ == f0 + Seq::new(i as nat, |j: int| 0u16),
        decreases gap - i,
    {
        g.push(0);
        assert(g@ =~= f0 + Seq::new((i + 1) as nat, |j: int| 0u16));
        i += 1;
    }
    let mut j: usize = 0;
    while j < back.len()
        invariant
            j <= back.len(),
            g@ == f0 + Seq::new(gap as nat, |j: int| 0u16) + back@.take(j as int),
        decreases back.len() - j,
    {
        g.push(back[j]);
        assert(back@.take(j + 1) =~= back@.take(j as int).push(back@[j as int]));
        assert(g@ =~= f0 + Seq::new(gap as nat, |j: int| 0u16) + back@.take(j + 1));
        j += 1;
    }
    assert(back@.take(back.len() as int) =~= back@);
    g
}

fn parse_groups_before(head: &Vec<char>) -> (r: Option<Vec<u16>>)
    ensures
        r is Some == groups_before(head@) is Some,
        r is Some ==> r.unwrap()@ == groups_before(head@).unwrap(),
{
    if head.len() == 0 {
        Some(Vec::new())
    } else {
        parse_hex_groups(head)
    }
}

fn parse_groups_after(tail: &Vec<char>) -> (r: Option<Vec<u16>>)
    ensures
        r is Some == groups_after(tail@) is Some,
        r is Some ==> r.unwrap()@ == groups_after(tail@).unwrap(),
{
    if tail.len() == 0 {
        Some(Vec::new())
    } else {
        parse_groups_with_tail(tail)
    }
}

/// The eight groups of an IPv6 address in text.
pub fn parse_ipv6(v: &Vec<char>) -> (r: Option<Vec<u16>>)
    ensures
        r is Some == ipv6_groups(v@) is Some,
        r is Some ==> r.unwrap()@ == ipv6_groups(v@).unwrap(),
{
    match find_double_colon(v) {
        None => match parse_groups_with_tail(v) {
            Some(g) => if g.len() == 8 {
                Some(g)
            } else {
                None
            },
            None => None,
        },
        Some(k) => {
            let head: Vec<char> = copy_range(v, 0, k);
            let tail: Vec<char> = copy_range(v, k + 2, v.len());
            assert(head@ =~= v@.take(k as int));
            assert(tail@ =~= v@.skip(k + 2));
            match parse_groups_before(&head) {
                Some(f) => match parse_groups_after(&tail) {
                    Some(b) => {
                        if f.len() <= 7 && b.len() <= 7 - f.len() {
                            Some(fill_gap(f, &b))
                        } else {
                            None
                        }
                    },
                    None => None,
                },
                None => None,
            }
        },
    }
}

/// An IP address as numbers.
pub enum IpAddress {
    /// The four numbers of an IPv4 address.
    V4(Vec<u8>),
    /// The eight groups of an IPv6 address.
    V6(Vec<u16>),
}

/// An IP address as sequences of numbers.
pub enum IpNumbers {
    V4(Seq<u8>),
    V6(Seq<u16>),
}

impl View for IpAddress {
    type V = IpNumbers;

    open spec fn view(&self) -> IpNumbers {
        match self {
            IpAddress::V4(o) => IpNumbers::V4(o@),
            IpAddress::V6(g) => IpNumbers::V6(g@),
        }
    }
}

/// The address that `s` denotes: an IPv4 address, or else an IPv6 address, or
/// nothing.
pub open spec fn ip_numbers(s: Seq<char>) -> Option<IpNumbers> {
    match ipv4_octets(s) {
        Some(o) => Some(IpNumbers::V4(o)),
        None => match ipv6_groups(s) {
            Some(g) => Some(IpNumbers::V6(g)),
            None => None,
        },
    }
}

/// The address that the text denotes.
pub fn parse_ip(v: &Vec<char>) -> (r: Option<IpAddress>)
    ensures
        match r {
            Some(a) => ip_numbers(v@) == Some(a@),
            None => ip_numbers(v@) is None,
        },
{
    match parse_ipv4(v) {
        Some(o) => Some(IpAddress::V4(o)),
        None => match parse_ipv6(v) {
            Some(g) => Some(IpAddress::V6(g)),
            None => None,
        },
    }
}

} // verus!
