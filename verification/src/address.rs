//! Internet addresses in writing.
//!
//! Whether a host name is an address of this very computer decides whom the local mode trusts, so
//! the writing of addresses is read strictly: four decimal numbers without leading zeros, or the
//! groups of an IPv6 address with at most one gap.
use vstd::prelude::*;
use crate::text;
use crate::text::Class;

verus! {

/// The value of a character as a digit, in a base up to sixteen.
pub open spec fn digit_value(c: char) -> Option<int> {
    if '0' <= c <= '9' {
        Some(c as int - '0' as int)
    } else if 'a' <= c <= 'f' {
        Some(c as int - 'a' as int + 10)
    } else if 'A' <= c <= 'F' {
        Some(c as int - 'A' as int + 10)
    } else {
        None
    }
}

/// The value of a numeral in a base, if every character is a digit of it.
pub open spec fn numeral(s: Seq<char>, base: int) -> Option<int>
    decreases s.len(),
{
    if s.len() == 0 {
        Some(0)
    } else {
        match (numeral(s.drop_last(), base), digit_value(s.last())) {
            (Some(n), Some(d)) => if d < base {
                Some(n * base + d)
            } else {
                None
            },
            _ => None,
        }
    }
}

fn value_of_digit(c: char) -> (r: Option<u32>)
    ensures
        match r {
            Some(d) => digit_value(c) == Some(d as int) && d < 16,
            None => digit_value(c) is None,
        },
{
    let n: u32 = c as u32;
    if '0' <= c && c <= '9' {
        Some(n - 48)
    } else if 'a' <= c && c <= 'f' {
        Some(n - 97 + 10)
    } else if 'A' <= c && c <= 'F' {
        Some(n - 65 + 10)
    } else {
        None
    }
}

fn read_numeral(s: &str, base: u32) -> (r: Option<u32>)
    requires
        2 <= base <= 16,
        s@.len() <= 4,
    ensures
        match r {
            Some(n) => numeral(s@, base as int) == Some(n as int),
            None => numeral(s@, base as int) is None,
        },
        r matches Some(n) ==> n < 65536,
{
    let cs = text::chars_of(s);
    let mut n: u32 = 0;
    let mut i: usize = 0;
    proof {
        assert(cs@.take(0) =~= Seq::empty());
    }
    while i < cs.len()
        invariant
            i <= cs.len() <= 4,
            2 <= base <= 16,
            cs@ == s@,
            numeral(cs@.take(i as int), base as int) == Some(n as int),
            i == 0 ==> n == 0,
            i == 1 ==> n < 16,
            i == 2 ==> n < 256,
            i == 3 ==> n < 4096,
            n < 65536,
        decreases cs.len() - i,
    {
        proof {
            assert(cs@.take(i + 1).drop_last() =~= cs@.take(i as int));
            assert(n * base <= n * 16) by (nonlinear_arith)
                requires
                    base <= 16,
                    n >= 0,
            ;
        }
        match value_of_digit(cs[i]) {
            Some(d) => {
                if d >= base {
                    proof {
                        lemma_numeral_prefix(s@, base as int, i + 1);
                    }
                    return None;
                }
                n = n * base + d;
            },
            None => {
                proof {
                    lemma_numeral_prefix(s@, base as int, i + 1);
                }
                return None;
            },
        }
        i = i + 1;
    }
    assert(cs@.take(i as int) =~= s@);
    Some(n)
}

/// A numeral with a bad prefix is none.
proof fn lemma_numeral_prefix(s: Seq<char>, base: int, k: int)
    requires
        0 <= k <= s.len(),
        numeral(s.take(k), base) is None,
    ensures
        numeral(s, base) is None,
    decreases s.len(),
{
    if k == s.len() {
        assert(s.take(k) =~= s);
    } else {
        assert(s.drop_last().take(k) =~= s.take(k));
        lemma_numeral_prefix(s.drop_last(), base, k);
    }
}

// ---------------------------------------------------------------------------------------------
// IPv4
// ---------------------------------------------------------------------------------------------
/// One of the four numbers of an IPv4 address: at most three digits, no leading zero, below 256.
pub open spec fn octet(s: Seq<char>) -> Option<int> {
    if 1 <= s.len() <= 3 && (s.len() > 1 ==> s[0] != '0') {
        match numeral(s, 10) {
            Some(n) => if n < 256 {
                Some(n)
            } else {
                None
            },
            None => None,
        }
    } else {
        None
    }
}

fn read_octet(s: &str) -> (r: Option<u32>)
    ensures
        match r {
            Some(n) => octet(s@) == Some(n as int) && n < 256,
            None => octet(s@) is None,
        },
{
    let cs = text::chars_of(s);
    if cs.len() < 1 || cs.len() > 3 {
        return None;
    }
    if cs.len() > 1 && cs[0] == '0' {
        return None;
    }
    match read_numeral(s, 10) {
        Some(n) => if n < 256 {
            Some(n)
        } else {
            None
        },
        None => None,
    }
}

/// The four numbers of an IPv4 address.
pub open spec fn ipv4(s: Seq<char>) -> Option<Seq<int>> {
    let parts = text::pieces(s, Class::Is('.'));
    if parts.len() == 4 && octet(parts[0]) is Some && octet(parts[1]) is Some && octet(
        parts[2],
    ) is Some && octet(parts[3]) is Some {
        Some(
            seq![
                octet(parts[0])->0,
                octet(parts[1])->0,
                octet(parts[2])->0,
                octet(parts[3])->0,
            ],
        )
    } else {
        None
    }
}

/// The values of some numbers.
pub open spec fn ints(list: Seq<u32>) -> Seq<int> {
    list.map_values(|n: u32| n as int)
}

fn read_ipv4(s: &str) -> (r: Option<Vec<u32>>)
    ensures
        match r {
            Some(v) => ipv4(s@) == Some(ints(v@)) && v@.len() == 4 && (forall|i: int|
                0 <= i < 4 ==> (#[trigger] v@[i]) < 256),
            None => ipv4(s@) is None,
        },
{
    let parts = text::split(s, &Class::Is('.'));
    let ghost pv = text::views(parts@);
    assert(pv.len() == parts@.len());
    if parts.len() != 4 {
        return None;
    }
    assert(pv[0] == parts@[0]@ && pv[1] == parts@[1]@ && pv[2] == parts@[2]@ && pv[3]
        == parts@[3]@);
    match (
        read_octet(parts[0].as_str()),
        read_octet(parts[1].as_str()),
        read_octet(parts[2].as_str()),
        read_octet(parts[3].as_str()),
    ) {
        (Some(a), Some(b), Some(c), Some(d)) => {
            let mut v: Vec<u32> = Vec::new();
            v.push(a);
            v.push(b);
            v.push(c);
            v.push(d);
            assert(ints(v@) =~= seq![a as int, b as int, c as int, d as int]);
            Some(v)
        },
        _ => None,
    }
}

// ---------------------------------------------------------------------------------------------
// IPv6
// ---------------------------------------------------------------------------------------------
/// One group of an IPv6 address: one to four hexadecimal digits.
pub open spec fn hex_group(s: Seq<char>) -> Option<int> {
    if 1 <= s.len() <= 4 {
        numeral(s, 16)
    } else {
        None
    }
}

fn read_hex_group(s: &str) -> (r: Option<u32>)
    ensures
        match r {
            Some(n) => hex_group(s@) == Some(n as int) && n < 65536,
            None => hex_group(s@) is None,
        },
{
    let cs = text::chars_of(s);
    if cs.len() < 1 || cs.len() > 4 {
        return None;
    }
    read_numeral(s, 16)
}

/// The groups that some pieces stand for. Where it is allowed, the last piece may be an IPv4
/// address, which makes two groups.
pub open spec fn groups(parts: Seq<Seq<char>>, ipv4_at_end: bool) -> Option<Seq<int>>
    decreases parts.len(),
{
    if parts.len() == 0 {
        Some(Seq::empty())
    } else {
        match groups(parts.drop_last(), false) {
            Some(front) => match hex_group(parts.last()) {
                Some(g) => Some(front.push(g)),
                None => if ipv4_at_end {
                    match ipv4(parts.last()) {
                        Some(v) => Some(front.push(v[0] * 256 + v[1]).push(v[2] * 256 + v[3])),
                        None => None,
                    }
                } else {
                    None
                },
            },
            None => None,
        }
    }
}

/// The groups of one side of the gap; nothing stands for no groups.
pub open spec fn side(s: Seq<char>, ipv4_at_end: bool) -> Option<Seq<int>> {
    if s.len() == 0 {
        Some(Seq::empty())
    } else {
        groups(text::pieces(s, Class::Is(':')), ipv4_at_end)
    }
}

/// So many zero groups.
pub open spec fn zeros(n: int) -> Seq<int> {
    Seq::new(n as nat, |i: int| 0)
}

/// The eight groups of an IPv6 address. A gap stands for at least one group of zero.
pub open spec fn ipv6(s: Seq<char>) -> Option<Seq<int>> {
    match text::cut_first(s, "::"@) {
        Some(cut) => match (side(cut.0, false), side(cut.1, true)) {
            (Some(head), Some(tail)) => if head.len() + tail.len() <= 7 {
                Some(head + zeros(8 - head.len() - tail.len()) + tail)
            } else {
                None
            },
            _ => None,
        },
        None => match groups(text::pieces(s, Class::Is(':')), true) {
            Some(all) => if all.len() == 8 {
                Some(all)
            } else {
                None
            },
            None => None,
        },
    }
}

fn read_groups(parts: &Vec<String>, n: usize, ipv4_at_end: bool) -> (r: Option<Vec<u32>>)
    requires
        n <= parts.len(),
    ensures
        match r {
            Some(v) => groups(text::views(parts@).take(n as int), ipv4_at_end) == Some(ints(v@)),
            None => groups(text::views(parts@).take(n as int), ipv4_at_end) is None,
        },
    decreases n,
{
    let ghost all = text::views(parts@).take(n as int);
    if n == 0 {
        let v: Vec<u32> = Vec::new();
        assert(ints(v@) =~= Seq::empty());
        return Some(v);
    }
    proof {
        assert(all.drop_last() =~= text::views(parts@).take(n - 1));
        assert(all.last() == parts@[n - 1]@);
    }
    let mut front = match read_groups(parts, n - 1, false) {
        Some(v) => v,
        None => {
            return None;
        },
    };
    let ghost before = ints(front@);
    match read_hex_group(parts[n - 1].as_str()) {
        Some(g) => {
            front.push(g);
            assert(ints(front@) =~= before.push(g as int));
            Some(front)
        },
        None => if ipv4_at_end {
            match read_ipv4(parts[n - 1].as_str()) {
                Some(v) => {
                    let a: u32 = v[0] * 256 + v[1];
                    let b: u32 = v[2] * 256 + v[3];
                    front.push(a);
                    front.push(b);
                    assert(ints(front@) =~= before.push(a as int).push(b as int));
                    Some(front)
                },
                None => None,
            }
        } else {
            None
        },
    }
}

fn read_side(s: &str, ipv4_at_end: bool) -> (r: Option<Vec<u32>>)
    ensures
        match r {
            Some(v) => side(s@, ipv4_at_end) == Some(ints(v@)),
            None => side(s@, ipv4_at_end) is None,
        },
{
    if s.is_empty() {
        let v: Vec<u32> = Vec::new();
        assert(ints(v@) =~= Seq::empty());
        return Some(v);
    }
    read_all_groups(s, ipv4_at_end)
}

fn read_all_groups(s: &str, ipv4_at_end: bool) -> (r: Option<Vec<u32>>)
    ensures
        match r {
            Some(v) => groups(text::pieces(s@, Class::Is(':')), ipv4_at_end) == Some(ints(v@)),
            None => groups(text::pieces(s@, Class::Is(':')), ipv4_at_end) is None,
        },
{
    let parts = text::split(s, &Class::Is(':'));
    assert(text::views(parts@).take(parts@.len() as int) =~= text::views(parts@));
    read_groups(&parts, parts.len(), ipv4_at_end)
}

// ---------------------------------------------------------------------------------------------
// Addresses of this computer
// ---------------------------------------------------------------------------------------------
/// Whether a text is an IPv4 or IPv6 address.
pub open spec fn is_address(s: Seq<char>) -> bool {
    ipv4(s) is Some || ipv6(s) is Some
}

/// The IPv6 address of this computer.
pub open spec fn ipv6_loopback() -> Seq<int> {
    seq![0, 0, 0, 0, 0, 0, 0, 1]
}

/// Whether a text is an address of this computer: 127.x.x.x or ::1.
pub open spec fn is_loopback(s: Seq<char>) -> bool {
    match ipv4(s) {
        Some(v) => v[0] == 127,
        None => ipv6(s) == Some(ipv6_loopback()),
    }
}

fn all_zero(v: &Vec<u32>, n: usize) -> (r: bool)
    requires
        n <= v.len(),
    ensures
        r == (forall|i: int| 0 <= i < n ==> (#[trigger] ints(v@)[i]) == 0),
{
    let mut i: usize = 0;
    while i < n
        invariant
            i <= n <= v.len(),
            forall|k: int| 0 <= k < i ==> (#[trigger] ints(v@)[k]) == 0,
        decreases n - i,
    {
        if v[i] != 0 {
            assert(ints(v@)[i as int] != 0);
            return false;
        }
        i = i + 1;
    }
    true
}

/// With a gap, an address is the one of this computer if its last group is one and every other
/// written group is zero.
proof fn lemma_gap_loopback(head: Seq<int>, tail: Seq<int>)
    requires
        head.len() + tail.len() <= 7,
    ensures
        (head + zeros(8 - head.len() - tail.len()) + tail == ipv6_loopback()) <==> (tail.len() > 0
            && tail.last() == 1 && (forall|i: int| 0 <= i < head.len() ==> (#[trigger] head[i])
            == 0) && (forall|i: int| 0 <= i < tail.len() - 1 ==> (#[trigger] tail[i]) == 0)),
{
    let whole = head + zeros(8 - head.len() - tail.len()) + tail;
    let gap = 8 - tail.len();
    assert(whole.len() == 8);
    if whole == ipv6_loopback() {
        if tail.len() == 0 {
            assert(whole[7] == 0);
        }
        assert(whole[7] == tail.last());
        assert forall|i: int| 0 <= i < head.len() implies (#[trigger] head[i]) == 0 by {
            assert(whole[i] == head[i]);
            assert(ipv6_loopback()[i] == 0);
        }
        assert forall|i: int| 0 <= i < tail.len() - 1 implies (#[trigger] tail[i]) == 0 by {
            assert(whole[gap + i] == tail[i]);
            assert(ipv6_loopback()[gap + i] == 0);
        }
    }
    if tail.len() > 0 && tail.last() == 1 && (forall|i: int|
        0 <= i < head.len() ==> (#[trigger] head[i]) == 0) && (forall|i: int|
        0 <= i < tail.len() - 1 ==> (#[trigger] tail[i]) == 0) {
        assert forall|i: int| 0 <= i < 8 implies whole[i] == ipv6_loopback()[i] by {
            if i < head.len() {
                assert(whole[i] == head[i]);
            } else if i < gap {
                assert(whole[i] == 0);
            } else {
                assert(whole[i] == tail[i - gap]);
                if i == 7 {
                    assert(tail[i - gap] == tail.last());
                }
            }
        }
        assert(whole =~= ipv6_loopback());
    }
}

/// Without a gap, an address is the one of this computer if its last group is one and every other
/// is zero.
proof fn lemma_full_loopback(all: Seq<int>)
    requires
        all.len() == 8,
    ensures
        all == ipv6_loopback() <==> (all[7] == 1 && forall|i: int|
            0 <= i < 7 ==> (#[trigger] all[i]) == 0),
{
    if all[7] == 1 && (forall|i: int| 0 <= i < 7 ==> (#[trigger] all[i]) == 0) {
        assert(all =~= ipv6_loopback());
    }
    if all == ipv6_loopback() {
        assert forall|i: int| 0 <= i < 7 implies (#[trigger] all[i]) == 0 by {
            assert(ipv6_loopback()[i] == 0);
        }
    }
}

fn gap_is_loopback(head: &Vec<u32>, tail: &Vec<u32>) -> (r: bool)
    requires
        head@.len() + tail@.len() <= 7,
    ensures
        r == (ints(head@) + zeros(8 - head@.len() - tail@.len()) + ints(tail@) == ipv6_loopback()),
{
    proof {
        lemma_gap_loopback(ints(head@), ints(tail@));
    }
    if tail.len() == 0 {
        return false;
    }
    let last: usize = tail.len() - 1;
    assert(ints(tail@).last() == tail@[last as int] as int);
    all_zero(head, head.len()) && all_zero(tail, last) && tail[last] == 1
}

fn ipv6_is_loopback(s: &str) -> (r: bool)
    ensures
        r == (ipv6(s@) == Some(ipv6_loopback())),
{
    match text::split_once(s, "::") {
        Some(cut) => match (
            read_side(cut.0.as_str(), false),
            read_side(cut.1.as_str(), true),
        ) {
            (Some(head), Some(tail)) => {
                assert(ints(head@).len() == head@.len() && ints(tail@).len() == tail@.len());
                if head.len() > 7 || tail.len() > 7 || head.len() + tail.len() > 7 {
                    return false;
                }
                gap_is_loopback(&head, &tail)
            },
            _ => false,
        },
        None => match read_all_groups(s, true) {
            Some(all) => {
                assert(ints(all@).len() == all@.len());
                if all.len() != 8 {
                    return false;
                }
                proof {
                    lemma_full_loopback(ints(all@));
                    assert(ints(all@)[7] == all@[7] as int);
                }
                all_zero(&all, 7) && all[7] == 1
            },
            None => false,
        },
    }
}

/// Whether a text is an address of this computer.
pub fn loopback(s: &str) -> (r: bool)
    ensures
        r == is_loopback(s@),
{
    match read_ipv4(s) {
        Some(v) => {
            assert(ints(v@)[0] == v@[0] as int);
            v[0] == 127
        },
        None => ipv6_is_loopback(s),
    }
}

fn ipv6_is_valid(s: &str) -> (r: bool)
    ensures
        r == (ipv6(s@) is Some),
{
    match text::split_once(s, "::") {
        Some(cut) => match (
            read_side(cut.0.as_str(), false),
            read_side(cut.1.as_str(), true),
        ) {
            (Some(head), Some(tail)) => {
                assert(ints(head@).len() == head@.len() && ints(tail@).len() == tail@.len());
                head.len() <= 7 && tail.len() <= 7 && head.len() + tail.len() <= 7
            },
            _ => false,
        },
        None => match read_all_groups(s, true) {
            Some(all) => {
                assert(ints(all@).len() == all@.len());
                all.len() == 8
            },
            None => false,
        },
    }
}

/// Whether a text is an IPv4 or IPv6 address.
pub fn read_address(s: &str) -> (r: bool)
    ensures
        r == is_address(s@),
{
    match read_ipv4(s) {
        Some(_) => true,
        None => ipv6_is_valid(s),
    }
}


// ---------------------------------------------------------------------------------------------
// Laws
// ---------------------------------------------------------------------------------------------
/// Each digit has its value, and nothing but digits and the first six letters has one.
pub proof fn law_digits_have_their_values(c: char)
    ensures
        '0' <= c <= '9' ==> digit_value(c) == Some(c as int - 48),
        'a' <= c <= 'f' ==> digit_value(c) == Some(c as int - 87),
        'A' <= c <= 'F' ==> digit_value(c) == Some(c as int - 55),
        digit_value(c) is Some <==> '0' <= c <= '9' || 'a' <= c <= 'f' || 'A' <= c <= 'F',
{
}

/// One more digit takes the value of a numeral times the base and adds its own; a character that is no
/// digit of the base spoils it.
pub proof fn law_a_numeral_grows_by_its_base(s: Seq<char>, c: char, base: int, n: int, d: int)
    ensures
        numeral(s, base) == Some(n) && digit_value(c) == Some(d) && d < base ==> numeral(
            s.push(c),
            base,
        ) == Some(n * base + d),
        digit_value(c) is None || digit_value(c)->0 >= base ==> numeral(s.push(c), base) is None,
        numeral(Seq::empty(), base) == Some(0int),
{
    assert(s.push(c).drop_last() =~= s);
}

/// A part of an IPv4 address is a number below 256 of one to three digits, without a leading zero.
pub proof fn law_an_octet_is_below_256(s: Seq<char>, n: int)
    ensures
        octet(s) == Some(n) ==> n < 256 && numeral(s, 10) == Some(n) && 1 <= s.len() <= 3,
        s.len() > 1 && s[0] == '0' ==> octet(s) is None,
        s.len() == 0 || s.len() > 3 ==> octet(s) is None,
        1 <= s.len() <= 3 && (s.len() > 1 ==> s[0] != '0') && numeral(s, 10) == Some(n) && n < 256
            ==> octet(s) == Some(n),
{
}

/// Four numbers with full stops between them are an IPv4 address, and it is one of this computer
/// exactly if the first of them is 127.
pub proof fn law_four_numbers_are_an_address(
    a: Seq<char>,
    b: Seq<char>,
    c: Seq<char>,
    d: Seq<char>,
)
    requires
        octet(a) is Some,
        octet(b) is Some,
        octet(c) is Some,
        octet(d) is Some,
    ensures
        ({
            let s = text::joined(seq![a, b, c, d], seq!['.']);
            &&& ipv4(s) == Some(seq![octet(a)->0, octet(b)->0, octet(c)->0, octet(d)->0])
            &&& is_address(s)
            &&& is_loopback(s) <==> octet(a) == Some(127int)
        }),
{
    lemma_octet_has_no_stop(a);
    lemma_octet_has_no_stop(b);
    lemma_octet_has_no_stop(c);
    lemma_octet_has_no_stop(d);
    text::law_joining_is_undone_by_parting(seq![a, b, c, d], '.');
}

proof fn lemma_octet_has_no_stop(s: Seq<char>)
    requires
        octet(s) is Some,
    ensures
        !s.contains('.'),
{
    if s.contains('.') {
        let i = choose|i: int| 0 <= i < s.len() && s[i] == '.';
        lemma_no_stop(s, i);
    }
}

proof fn lemma_no_stop(s: Seq<char>, i: int)
    requires
        0 <= i < s.len(),
        s[i] == '.',
    ensures
        numeral(s, 10) is None,
    decreases s.len(),
{
    if i < s.len() - 1 {
        lemma_no_stop(s.drop_last(), i);
    }
}

/// The address of this computer in IPv6 has seven groups of zero and a last group of one.
pub proof fn law_only_one_ipv6_address_is_this_computer(s: Seq<char>, v: Seq<int>)
    requires
        ipv4(s) is None,
        ipv6(s) == Some(v),
        v.len() == 8,
    ensures
        is_loopback(s) <==> v[7] == 1 && (forall|i: int| 0 <= i < 7 ==> (#[trigger] v[i]) == 0),
        is_address(s),
{
    lemma_full_loopback(v);
}

/// A gap stands for as many groups of zero as are missing to eight.
pub proof fn law_a_gap_fills_with_zeros(head: Seq<char>, tail: Seq<char>, h: Seq<int>, t: Seq<int>)
    requires
        text::cut_first(head + "::"@ + tail, "::"@) == Some((head, tail)),
        side(head, false) == Some(h),
        side(tail, true) == Some(t),
    ensures
        h.len() + t.len() <= 7 ==> (ipv6(head + "::"@ + tail) matches Some(v) && v.len() == 8 && v.take(
            h.len() as int,
        ) == h && v.skip(8 - t.len()) == t && (forall|i: int|
            h.len() <= i < 8 - t.len() ==> (#[trigger] v[i]) == 0)),
        h.len() + t.len() > 7 ==> ipv6(head + "::"@ + tail) is None,
{
    if h.len() + t.len() <= 7 {
        let v = h + zeros(8 - h.len() - t.len()) + t;
        assert(v.take(h.len() as int) =~= h);
        assert(v.skip(8 - t.len()) =~= t);
    }
}


/// A group of an IPv6 address has one to four digits in the base sixteen; the groups stand one after
/// the other, and an IPv4 address at the end makes two of them.
pub proof fn law_groups_stand_one_after_the_other(
    parts: Seq<Seq<char>>,
    part: Seq<char>,
    front: Seq<int>,
    g: int,
    v: Seq<int>,
    last: bool,
)
    requires
        groups(parts, false) == Some(front),
    ensures
        1 <= part.len() <= 4 && numeral(part, 16) == Some(g) ==> groups(parts.push(part), last) == Some(
            front.push(g),
        ),
        part.len() == 0 || part.len() > 4 ==> hex_group(part) is None,
        hex_group(part) is None && ipv4(part) == Some(v) ==> groups(parts.push(part), true) == Some(
            front.push(v[0] * 256 + v[1]).push(v[2] * 256 + v[3]),
        ) && groups(parts.push(part), false) is None,
        hex_group(part) is None && ipv4(part) is None ==> groups(parts.push(part), last) is None,
        side(Seq::empty(), last) == Some(Seq::<int>::empty()),
{
    assert(parts.push(part).drop_last() =~= parts);
}

} // verus!
