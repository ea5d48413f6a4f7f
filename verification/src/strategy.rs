//! The public-port strategy and its textual form. The grammar accepts a
//! single port `N`, a comma-separated list `N,M,…`, the bare range `..`, and
//! a bounded range `N..M`; anything else is rejected.

use vstd::prelude::*;
use vstd::slice::slice_index_get;
use vstd::string::*;

verus! {

/// Which public ports the server exposes and how users are mapped onto
/// clients.
#[derive(Debug)]
pub enum Strategy {
    /// One public listener on this port, serving clients round-robin.
    Single(u16),
    /// One listener per listed port, each serving the same registry.
    Multiple(Vec<u16>),
    /// A public port assigned per client at registration time, from the OS
    /// ephemeral range (`None`) or from the half-open range `[lo, hi)`.
    Dynamic(Option<core::ops::Range<u16>>),
}

/// The mathematical value of a strategy: the list as a sequence, the range
/// as its two bounds.
pub enum StrategyModel {
    Single(u16),
    Multiple(Seq<u16>),
    Dynamic(Option<(u16, u16)>),
}

impl View for Strategy {
    type V = StrategyModel;

    open spec fn view(&self) -> StrategyModel {
        match self {
            Strategy::Single(p) => StrategyModel::Single(*p),
            Strategy::Multiple(v) => StrategyModel::Multiple(v@),
            Strategy::Dynamic(r) => match r {
                Some(range) => StrategyModel::Dynamic(Some((range.start, range.end))),
                None => StrategyModel::Dynamic(None),
            },
        }
    }
}

/// Element-wise equality of two port lists.
fn ports_eq(a: &Vec<u16>, b: &Vec<u16>) -> (r: bool)
    ensures
        r == (a@ == b@),
{
    if a.len() != b.len() {
        return false;
    }
    let n = a.len();
    let mut i: usize = 0;
    while i < n
        invariant
            n == a@.len(),
            n == b@.len(),
            i <= n,
            forall|q: int| 0 <= q < i ==> a@[q] == b@[q],
        decreases n - i,
    {
        if a[i] != b[i] {
            proof {
                assert(a@[i as int] != b@[i as int]);
            }
            return false;
        }
        i = i + 1;
    }
    proof {
        assert(a@ =~= b@);
    }
    true
}

impl PartialEq for Strategy {
    fn eq(&self, other: &Strategy) -> (r: bool) {
        match (self, other) {
            (Strategy::Single(a), Strategy::Single(b)) => *a == *b,
            (Strategy::Multiple(a), Strategy::Multiple(b)) => ports_eq(a, b),
            (Strategy::Dynamic(a), Strategy::Dynamic(b)) => match (a, b) {
                (Option::None, Option::None) => true,
                (Option::Some(r1), Option::Some(r2)) => r1.start == r2.start && r1.end == r2.end,
                _ => false,
            },
            _ => false,
        }
    }
}

impl vstd::std_specs::cmp::PartialEqSpecImpl for Strategy {
    open spec fn obeys_eq_spec() -> bool {
        true
    }

    open spec fn eq_spec(&self, other: &Strategy) -> bool {
        match (*self, *other) {
            (Strategy::Single(a), Strategy::Single(b)) => a == b,
            (Strategy::Multiple(a), Strategy::Multiple(b)) => a@ == b@,
            (Strategy::Dynamic(a), Strategy::Dynamic(b)) => match (a, b) {
                (Option::None, Option::None) => true,
                (Option::Some(r1), Option::Some(r2)) => r1.start == r2.start && r1.end == r2.end,
                _ => false,
            },
            _ => false,
        }
    }
}

/// A decimal digit byte.
pub open spec fn is_digit(c: u8) -> bool {
    48 <= c <= 57
}

/// The numeric value of a digit byte.
pub open spec fn digit_val(c: u8) -> int {
    c - 48
}

/// The value of a digit string, most significant digit first.
pub open spec fn dec_value(s: Seq<u8>) -> int
    decreases s.len(),
{
    if s.len() == 0 {
        0
    } else {
        dec_value(s.drop_last()) * 10 + digit_val(s.last())
    }
}

/// A port in text: nonempty, digits only, value at most 65535.
pub open spec fn spec_parse_port(s: Seq<u8>) -> Option<u16> {
    if s.len() > 0 && (forall|i: int| 0 <= i < s.len() ==> is_digit(s[i])) && dec_value(s)
        <= 65535 {
        Some(dec_value(s) as u16)
    } else {
        None
    }
}

/// The position of the first occurrence of a byte.
pub open spec fn find_byte(s: Seq<u8>, c: u8) -> Option<int>
    decreases s.len(),
{
    if s.len() == 0 {
        None
    } else if s[0] == c {
        Some(0)
    } else {
        match find_byte(s.drop_first(), c) {
            Some(i) => Some(i + 1),
            None => None,
        }
    }
}

/// What `find_byte` finds is the first occurrence: a found position carries
/// the byte and nothing before it does; nothing is found only when the byte
/// does not occur.
pub proof fn lemma_find_byte_first(s: Seq<u8>, c: u8)
    ensures
        match find_byte(s, c) {
            Some(i) => {
                &&& 0 <= i < s.len()
                &&& s[i] == c
                &&& forall|q: int| 0 <= q < i ==> s[q] != c
            },
            None => forall|q: int| 0 <= q < s.len() ==> s[q] != c,
        },
    decreases s.len(),
{
    if s.len() > 0 && s[0] != c {
        lemma_find_byte_first(s.drop_first(), c);
        assert forall|q: int| 1 <= q < s.len() implies s[q] == s.drop_first()[q - 1] by {}
    }
}

/// The position of the first occurrence of two consecutive dots.
pub open spec fn find_dotdot(s: Seq<u8>) -> Option<int>
    decreases s.len(),
{
    if s.len() < 2 {
        None
    } else if s[0] == 46 && s[1] == 46 {
        Some(0)
    } else {
        match find_dotdot(s.drop_first()) {
            Some(i) => Some(i + 1),
            None => None,
        }
    }
}

/// The ports of a comma-separated list, or nothing if any piece is not a
/// port.
pub open spec fn spec_parse_ports_csv(s: Seq<u8>) -> Option<Seq<u16>>
    decreases s.len(),
    via spec_parse_ports_csv_decreases
{
    match find_byte(s, 44) {
        Some(i) => match (spec_parse_port(s.take(i)), spec_parse_ports_csv(s.skip(i + 1))) {
            (Some(p), Some(rest)) => Some(seq![p] + rest),
            _ => None,
        },
        None => match spec_parse_port(s) {
            Some(p) => Some(seq![p]),
            None => None,
        },
    }
}

#[via_fn]
proof fn spec_parse_ports_csv_decreases(s: Seq<u8>) {
    lemma_find_byte_first(s, 44);
}

/// What `find_dotdot` finds is the first dot pair, and nothing is found
/// only when no two consecutive dots occur.
pub proof fn lemma_find_dotdot_first(s: Seq<u8>)
    ensures
        match find_dotdot(s) {
            Some(i) => {
                &&& 0 <= i
                &&& i + 2 <= s.len()
                &&& s[i] == 46 && s[i + 1] == 46
                &&& forall|q: int| #![trigger s[q]] 0 <= q < i ==> !(s[q] == 46 && s[q + 1] == 46)
            },
            None => forall|q: int|
                #![trigger s[q]]
                0 <= q && q + 2 <= s.len() ==> !(s[q] == 46 && s[q + 1] == 46),
        },
    decreases s.len(),
{
    if s.len() >= 2 && !(s[0] == 46 && s[1] == 46) {
        lemma_find_dotdot_first(s.drop_first());
        assert forall|q: int| 1 <= q < s.len() implies s[q] == s.drop_first()[q - 1] by {}
    }
}

/// The value of a digit string is never negative.
proof fn lemma_dec_value_nonneg(s: Seq<u8>)
    requires
        forall|i: int| 0 <= i < s.len() ==> is_digit(s[i]),
    ensures
        dec_value(s) >= 0,
    decreases s.len(),
{
    if s.len() > 0 {
        assert forall|i: int| 0 <= i < s.drop_last().len() implies is_digit(s.drop_last()[i]) by {
            assert(s.drop_last()[i] == s[i]);
        }
        lemma_dec_value_nonneg(s.drop_last());
    }
}

/// Appending digits never shrinks the value: a digit string is worth at
/// least any of its prefixes.
proof fn lemma_dec_value_prefix(s: Seq<u8>, i: int)
    requires
        forall|q: int| 0 <= q < s.len() ==> is_digit(s[q]),
        0 <= i <= s.len(),
    ensures
        dec_value(s.take(i)) <= dec_value(s),
    decreases s.len() - i,
{
    if i == s.len() {
        assert(s.take(i) =~= s);
    } else {
        assert forall|q: int| 0 <= q < s.take(i).len() implies is_digit(s.take(i)[q]) by {
            assert(s.take(i)[q] == s[q]);
        }
        lemma_dec_value_nonneg(s.take(i));
        assert(s.take(i + 1).drop_last() =~= s.take(i));
        assert(s.take(i + 1).last() == s[i]);
        assert(dec_value(s.take(i + 1)) == dec_value(s.take(i)) * 10 + digit_val(s[i]));
        lemma_dec_value_prefix(s, i + 1);
    }
}

/// Parses `b[from..to]` as a port number: some value exactly when the piece
/// is nonempty, all digits, and at most 65535.
fn parse_port(b: &[u8], from: usize, to: usize) -> (r: Option<u16>)
    requires
        from <= to <= b@.len(),
    ensures
        r == spec_parse_port(b@.subrange(from as int, to as int)),
{
    let ghost seg = b@.subrange(from as int, to as int);
    if from == to {
        return None;
    }
    let mut acc: u32 = 0;
    let mut i = from;
    while i < to
        invariant
            seg == b@.subrange(from as int, to as int),
            from <= i <= to <= b@.len(),
            from < to,
            forall|q: int| from <= q < i ==> is_digit(b@[q]),
            acc as int == dec_value(b@.subrange(from as int, i as int)),
            acc <= 65535,
        decreases to - i,
    {
        let c = *slice_index_get(b, i);
        if !(48 <= c && c <= 57) {
            proof {
                assert(!is_digit(seg[i - from]));
            }
            return None;
        }
        proof {
            assert(b@.subrange(from as int, i + 1).drop_last() =~= b@.subrange(
                from as int,
                i as int,
            ));
            assert(b@.subrange(from as int, i + 1).last() == b@[i as int]);
        }
        acc = acc * 10 + ((c - 48) as u32);
        i = i + 1;
        if acc > 65535 {
            proof {
                let pre = i - from;
                if forall|q: int| 0 <= q < seg.len() ==> is_digit(seg[q]) {
                    assert(seg.take(pre) =~= b@.subrange(from as int, i as int));
                    lemma_dec_value_prefix(seg, pre);
                }
            }
            return None;
        }
    }
    proof {
        assert(seg =~= b@.subrange(from as int, i as int));
        assert forall|q: int| 0 <= q < seg.len() implies is_digit(seg[q]) by {
            assert(seg[q] == b@[from + q]);
        }
    }
    Some(acc as u16)
}

/// Finds the first occurrence of a byte at or after `from`.
fn scan_byte(b: &[u8], from: usize, c: u8) -> (r: Option<usize>)
    requires
        from <= b@.len(),
    ensures
        match r {
            Some(i) => from <= i < b@.len() && find_byte(b@.skip(from as int), c) == Some(
                i - from,
            ),
            None => find_byte(b@.skip(from as int), c) is None,
        },
{
    let ghost s = b@.skip(from as int);
    let n = b.len();
    let mut i = from;
    while i < n
        invariant
            s == b@.skip(from as int),
            from <= i <= n,
            n == b@.len(),
            forall|q: int| from <= q < i ==> b@[q] != c,
        decreases n - i,
    {
        if *slice_index_get(b, i) == c {
            proof {
                lemma_find_byte_first(s, c);
                assert(s[i - from] == c);
                match find_byte(s, c) {
                    Some(f) => {
                        assert(s[f] == b@[from + f]);
                        assert(!(f < i - from) && !(i - from < f));
                    },
                    None => {
                        assert(false);
                    },
                }
            }
            return Some(i);
        }
        i = i + 1;
    }
    proof {
        lemma_find_byte_first(s, c);
        if let Some(f) = find_byte(s, c) {
            assert(s[f] == b@[from + f]);
            assert(false);
        }
    }
    None
}

/// Finds the first two consecutive dots.
fn scan_dotdot(b: &[u8]) -> (r: Option<usize>)
    ensures
        match r {
            Some(i) => i + 2 <= b@.len() && find_dotdot(b@) == Some(i as int),
            None => find_dotdot(b@) is None,
        },
{
    let n = b.len();
    if n < 2 {
        proof {
            lemma_find_dotdot_first(b@);
        }
        return None;
    }
    let mut i: usize = 0;
    while i + 1 < n
        invariant
            n == b@.len(),
            n >= 2,
            i <= n - 1,
            forall|q: int| #![trigger b@[q]] 0 <= q < i ==> !(b@[q] == 46 && b@[q + 1] == 46),
        decreases n - i,
    {
        if *slice_index_get(b, i) == 46 && *slice_index_get(b, i + 1) == 46 {
            proof {
                lemma_find_dotdot_first(b@);
                match find_dotdot(b@) {
                    Some(f) => {
                        assert(!(f < i) && !(i < f));
                    },
                    None => {
                        assert(false);
                    },
                }
            }
            return Some(i);
        }
        i = i + 1;
    }
    proof {
        lemma_find_dotdot_first(b@);
        if let Some(f) = find_dotdot(b@) {
            assert(false);
        }
    }
    None
}

/// Parses the comma-separated port list that starts at `from`.
fn parse_ports_csv(b: &[u8], from: usize) -> (r: Option<Vec<u16>>)
    requires
        from <= b@.len(),
    ensures
        match r {
            Some(v) => spec_parse_ports_csv(b@.skip(from as int)) == Some(v@),
            None => spec_parse_ports_csv(b@.skip(from as int)) is None,
        },
    decreases b@.len() - from,
{
    let ghost s = b@.skip(from as int);
    match scan_byte(b, from, 44) {
        Some(ci) => {
            proof {
                assert(s.take(ci - from) =~= b@.subrange(from as int, ci as int));
                assert(s.skip(ci - from + 1) =~= b@.skip(ci + 1));
            }
            match parse_port(b, from, ci) {
                None => None,
                Some(p) => match parse_ports_csv(b, ci + 1) {
                    None => None,
                    Some(mut rest) => {
                        let mut out: Vec<u16> = Vec::new();
                        out.push(p);
                        out.append(&mut rest);
                        proof {
                            assert(out@ =~= seq![p] + spec_parse_ports_csv(s.skip(
                                ci - from + 1,
                            )).unwrap());
                        }
                        Some(out)
                    },
                },
            }
        },
        None => {
            proof {
                assert(s =~= b@.subrange(from as int, b@.len() as int));
            }
            match parse_port(b, from, b.len()) {
                Some(p) => {
                    let mut out: Vec<u16> = Vec::new();
                    out.push(p);
                    proof {
                        assert(out@ =~= seq![p]);
                    }
                    Some(out)
                },
                None => None,
            }
        },
    }
}

/// Parses the strategy text: `N`, `N,M,…`, `..`, or `N..M`. Anything the
/// grammar rejects is an error.
pub fn parse_strategy(src: &str) -> (r: Result<Strategy, String>)
    ensures
        match r {
            Ok(st) => spec_parse_strategy(src.spec_bytes()) == Some(st@),
            Err(_) => spec_parse_strategy(src.spec_bytes()) is None,
        },
{
    let b = src.as_bytes();
    proof {
        assert(b@.skip(0) =~= b@);
    }
    match scan_byte(b, 0, 44) {
        Some(_) => match parse_ports_csv(b, 0) {
            Some(v) => Ok(Strategy::Multiple(v)),
            None => Err(String::from_str("invalid strategy")),
        },
        None => match scan_dotdot(b) {
            Some(i) => {
                if b.len() == 2 {
                    Ok(Strategy::Dynamic(None))
                } else {
                    proof {
                        assert(b@.take(i as int) =~= b@.subrange(0, i as int));
                        assert(b@.skip(i + 2) =~= b@.subrange(i + 2, b@.len() as int));
                    }
                    let lo = parse_port(b, 0, i);
                    let hi = parse_port(b, i + 2, b.len());
                    match (lo, hi) {
                        (Some(lo), Some(hi)) => Ok(
                            Strategy::Dynamic(Some(core::ops::Range { start: lo, end: hi })),
                        ),
                        _ => Err(String::from_str("invalid strategy")),
                    }
                }
            },
            None => {
                proof {
                    assert(b@ =~= b@.subrange(0, b@.len() as int));
                }
                match parse_port(b, 0, b.len()) {
                    Some(p) => Ok(Strategy::Single(p)),
                    None => Err(String::from_str("invalid strategy")),
                }
            },
        },
    }
}

/// The strategy a byte string denotes: a list wherever a comma occurs, a
/// range wherever two consecutive dots occur, a single port otherwise, and
/// nothing when the text fits no form of the grammar.
pub open spec fn spec_parse_strategy(s: Seq<u8>) -> Option<StrategyModel> {
    if find_byte(s, 44) is Some {
        match spec_parse_ports_csv(s) {
            Some(ports) => Some(StrategyModel::Multiple(ports)),
            None => None,
        }
    } else {
        match find_dotdot(s) {
            Some(i) => {
                if s.len() == 2 {
                    Some(StrategyModel::Dynamic(None))
                } else {
                    match (spec_parse_port(s.take(i)), spec_parse_port(s.skip(i + 2))) {
                        (Some(lo), Some(hi)) => Some(StrategyModel::Dynamic(Some((lo, hi)))),
                        _ => None,
                    }
                }
            },
            None => match spec_parse_port(s) {
                Some(p) => Some(StrategyModel::Single(p)),
                None => None,
            },
        }
    }
}

} // verus!
