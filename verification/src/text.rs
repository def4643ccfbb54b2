//! Character-level helpers: exact and ASCII-case-insensitive comparison,
//! locating a separator, recognizing IPv4 literals, and decimal rendering.

use vstd::prelude::*;
use vstd::string::StrSliceExecFns;
use vstd::string::StringExecFns;

verus! {

/// True when `c` is an ASCII uppercase letter.
pub open spec fn is_ascii_upper(c: char) -> bool {
    65 <= c as u32 && c as u32 <= 90
}

/// The code point of `c`, with ASCII uppercase letters folded to lowercase.
pub open spec fn lower_code(c: char) -> int {
    if is_ascii_upper(c) {
        c as u32 + 32
    } else {
        c as u32 as int
    }
}

/// ASCII-case-insensitive equality of two character sequences.
pub open spec fn seq_eq_ignore_case(a: Seq<char>, b: Seq<char>) -> bool {
    a.len() == b.len() && (forall|i: int| 0 <= i < a.len() ==> lower_code(a[i]) == lower_code(b[i]))
}

/// Decides exact equality of two string slices.
pub fn str_eq(a: &str, b: &str) -> (r: bool)
    ensures
        r == (a@ == b@),
{
    let alen: usize = a.unicode_len();
    let blen: usize = b.unicode_len();
    if alen != blen {
        return false;
    }
    let mut i: usize = 0;
    while i < alen
        invariant
            0 <= i <= alen,
            alen == a@.len(),
            alen == b@.len(),
            forall|j: int| 0 <= j < i ==> a@[j] == b@[j],
        decreases alen - i,
    {
        let ca: char = a.get_char(i);
        let cb: char = b.get_char(i);
        if ca != cb {
            return false;
        }
        i = i + 1;
    }
    proof {
        assert(a@ =~= b@);
    }
    true
}

/// Decides ASCII-case-insensitive equality of two string slices.
pub fn eq_ignore_case(a: &str, b: &str) -> (r: bool)
    ensures
        r == seq_eq_ignore_case(a@, b@),
{
    let alen: usize = a.unicode_len();
    let blen: usize = b.unicode_len();
    if alen != blen {
        return false;
    }
    let mut i: usize = 0;
    while i < alen
        invariant
            0 <= i <= alen,
            alen == a@.len(),
            alen == b@.len(),
            forall|j: int| 0 <= j < i ==> lower_code(a@[j]) == lower_code(b@[j]),
        decreases alen - i,
    {
        let cau: u32 = a.get_char(i) as u32;
        let cbu: u32 = b.get_char(i) as u32;
        let la: u32 = if 65 <= cau && cau <= 90 {
            cau + 32
        } else {
            cau
        };
        let lb: u32 = if 65 <= cbu && cbu <= 90 {
            cbu + 32
        } else {
            cbu
        };
        if la != lb {
            assert(lower_code(a@[i as int]) != lower_code(b@[i as int]));
            return false;
        }
        i = i + 1;
    }
    true
}

/// The index of the first occurrence of `c` in `s`, or `s.len()` when absent.
pub open spec fn first_index_of(s: Seq<char>, c: char) -> int
    decreases s.len(),
{
    if s.len() == 0 {
        0
    } else if s[0] == c {
        0
    } else {
        1 + first_index_of(s.drop_first(), c)
    }
}

pub proof fn lemma_first_index_of(s: Seq<char>, c: char)
    ensures
        0 <= first_index_of(s, c) <= s.len(),
        forall|j: int| 0 <= j < first_index_of(s, c) ==> s[j] != c,
        first_index_of(s, c) < s.len() ==> s[first_index_of(s, c)] == c,
    decreases s.len(),
{
    if s.len() == 0 {
    } else if s[0] == c {
    } else {
        lemma_first_index_of(s.drop_first(), c);
        assert forall|j: int| 0 <= j < first_index_of(s, c) implies s[j] != c by {
            if j > 0 {
                assert(s.drop_first()[j - 1] == s[j]);
            }
        }
        if first_index_of(s, c) < s.len() {
            assert(s.drop_first()[first_index_of(s, c) - 1] == s[first_index_of(s, c)]);
        }
    }
}

/// Finds the index of the first occurrence of `c` in `s`, if there is one.
pub fn find_char(s: &str, c: char) -> (r: Option<usize>)
    ensures
        match r {
            Some(i) => i as int == first_index_of(s@, c) && (i as int) < s@.len(),
            None => first_index_of(s@, c) == s@.len(),
        },
{
    proof {
        lemma_first_index_of(s@, c);
    }
    let n: usize = s.unicode_len();
    let mut i: usize = 0;
    while i < n
        invariant
            0 <= i <= n,
            n == s@.len(),
            forall|j: int| 0 <= j < i ==> s@[j] != c,
            0 <= first_index_of(s@, c) <= s@.len(),
            forall|j: int| 0 <= j < first_index_of(s@, c) ==> s@[j] != c,
            first_index_of(s@, c) < s@.len() ==> s@[first_index_of(s@, c)] == c,
        decreases n - i,
    {
        if s.get_char(i) == c {
            return Some(i);
        }
        i = i + 1;
    }
    None
}

/// A decimal digit character.
pub open spec fn is_digit(c: char) -> bool {
    48 <= c as u32 && c as u32 <= 57
}

/// The numeric value of a decimal digit character.
pub open spec fn digit_val(c: char) -> int {
    c as u32 - 48
}

/// The numeric value of a group of one to three digit characters.
pub open spec fn octet_val(s: Seq<char>) -> int {
    if s.len() == 1 {
        digit_val(s[0])
    } else if s.len() == 2 {
        digit_val(s[0]) * 10 + digit_val(s[1])
    } else {
        digit_val(s[0]) * 100 + digit_val(s[1]) * 10 + digit_val(s[2])
    }
}

/// A valid dotted-quad group: one to three digits, no leading zero, at most 255.
pub open spec fn is_octet(s: Seq<char>) -> bool {
    &&& 1 <= s.len() <= 3
    &&& (forall|i: int| 0 <= i < s.len() ==> is_digit(s[i]))
    &&& (s.len() > 1 ==> s[0] != '0')
    &&& octet_val(s) <= 255
}

fn is_octet_str(s: &str) -> (r: bool)
    ensures
        r == is_octet(s@),
{
    let n: usize = s.unicode_len();
    if n < 1 || n > 3 {
        return false;
    }
    let mut i: usize = 0;
    while i < n
        invariant
            0 <= i <= n,
            n == s@.len(),
            forall|j: int| 0 <= j < i ==> is_digit(s@[j]),
        decreases n - i,
    {
        let cu: u32 = s.get_char(i) as u32;
        if cu < 48 || cu > 57 {
            assert(!is_digit(s@[i as int]));
            return false;
        }
        i = i + 1;
    }
    if n > 1 && s.get_char(0) == '0' {
        return false;
    }
    let v: u32 = if n == 1 {
        s.get_char(0) as u32 - 48
    } else if n == 2 {
        (s.get_char(0) as u32 - 48) * 10 + (s.get_char(1) as u32 - 48)
    } else {
        (s.get_char(0) as u32 - 48) * 100 + (s.get_char(1) as u32 - 48) * 10 + (s.get_char(2)
            as u32 - 48)
    };
    v <= 255
}

/// `s` consists of `groups` dot-separated octet groups.
pub open spec fn is_ipv4_groups(s: Seq<char>, groups: int) -> bool
    decreases groups,
{
    if groups <= 1 {
        is_octet(s)
    } else {
        exists|i: int|
            0 <= i < s.len() && s[i] == '.' && is_octet(s.subrange(0, i)) && is_ipv4_groups(
                s.subrange(i + 1, s.len() as int),
                groups - 1,
            )
    }
}

/// `s` is an IPv4 literal: four dot-separated decimal octets, as the standard
/// address parser accepts them (no leading zeros, each octet at most 255).
pub open spec fn is_ipv4_literal(s: Seq<char>) -> bool {
    is_ipv4_groups(s, 4)
}

fn ipv4_groups(s: &str, groups: u32) -> (r: bool)
    requires
        1 <= groups,
    ensures
        r == is_ipv4_groups(s@, groups as int),
    decreases groups,
{
    if groups == 1 {
        return is_octet_str(s);
    }
    let found: Option<usize> = find_char(s, '.');
    proof {
        lemma_first_index_of(s@, '.');
    }
    match found {
        None => {
            assert(!is_ipv4_groups(s@, groups as int)) by {
                if is_ipv4_groups(s@, groups as int) {
                    let i = choose|i: int|
                        0 <= i < s@.len() && s@[i] == '.' && is_octet(s@.subrange(0, i))
                            && is_ipv4_groups(s@.subrange(i + 1, s@.len() as int), groups - 1);
                    assert(s@[i] != '.');
                }
            }
            false
        },
        Some(f) => {
            let n: usize = s.unicode_len();
            let head: &str = s.substring_char(0, f);
            let tail: &str = s.substring_char(f + 1, n);
            let ok_head: bool = is_octet_str(head);
            let ok_tail: bool = ipv4_groups(tail, groups - 1);
            let r: bool = ok_head && ok_tail;
            proof {
                if r {
                    assert(is_ipv4_groups(s@, groups as int)) by {
                        assert(0 <= (f as int) && (f as int) < s@.len() && s@[f as int] == '.'
                            && is_octet(
                            s@.subrange(0, f as int),
                        ) && is_ipv4_groups(s@.subrange(f + 1, s@.len() as int), groups - 1));
                    }
                } else {
                    assert(!is_ipv4_groups(s@, groups as int)) by {
                        if is_ipv4_groups(s@, groups as int) {
                            let i = choose|i: int|
                                0 <= i < s@.len() && s@[i] == '.' && is_octet(s@.subrange(0, i))
                                    && is_ipv4_groups(
                                    s@.subrange(i + 1, s@.len() as int),
                                    groups - 1,
                                );
                            if i < f as int {
                                assert(s@[i] != '.');
                            } else if i > f as int {
                                assert(s@.subrange(0, i)[f as int] == '.');
                                assert(!is_digit('.'));
                            } else {
                                assert(is_octet(head@));
                                assert(is_ipv4_groups(tail@, groups - 1));
                            }
                        }
                    }
                }
            }
            r
        },
    }
}

/// Decides whether `s` is an IPv4 literal.
pub fn is_ipv4_literal_str(s: &str) -> (r: bool)
    ensures
        r == is_ipv4_literal(s@),
{
    ipv4_groups(s, 4)
}

/// The digit character for `d`.
pub open spec fn dec_digit(d: int) -> char {
    if d == 0 {
        '0'
    } else if d == 1 {
        '1'
    } else if d == 2 {
        '2'
    } else if d == 3 {
        '3'
    } else if d == 4 {
        '4'
    } else if d == 5 {
        '5'
    } else if d == 6 {
        '6'
    } else if d == 7 {
        '7'
    } else if d == 8 {
        '8'
    } else {
        '9'
    }
}

/// The decimal rendering of a non-negative number.
pub open spec fn dec_str(n: int) -> Seq<char>
    decreases n,
{
    if n < 10 {
        seq![dec_digit(n)]
    } else {
        dec_str(n / 10).push(dec_digit(n % 10))
    }
}

fn digit_str(d: u16) -> (r: &'static str)
    requires
        d < 10,
    ensures
        r@ == seq![dec_digit(d as int)],
{
    proof {
        reveal_strlit("0");
        reveal_strlit("1");
        reveal_strlit("2");
        reveal_strlit("3");
        reveal_strlit("4");
        reveal_strlit("5");
        reveal_strlit("6");
        reveal_strlit("7");
        reveal_strlit("8");
        reveal_strlit("9");
    }
    if d == 0 {
        proof {
            assert("0"@ =~= seq![dec_digit(0int)]);
        }
        "0"
    } else if d == 1 {
        proof {
            assert("1"@ =~= seq![dec_digit(1int)]);
        }
        "1"
    } else if d == 2 {
        proof {
            assert("2"@ =~= seq![dec_digit(2int)]);
        }
        "2"
    } else if d == 3 {
        proof {
            assert("3"@ =~= seq![dec_digit(3int)]);
        }
        "3"
    } else if d == 4 {
        proof {
            assert("4"@ =~= seq![dec_digit(4int)]);
        }
        "4"
    } else if d == 5 {
        proof {
            assert("5"@ =~= seq![dec_digit(5int)]);
        }
        "5"
    } else if d == 6 {
        proof {
            assert("6"@ =~= seq![dec_digit(6int)]);
        }
        "6"
    } else if d == 7 {
        proof {
            assert("7"@ =~= seq![dec_digit(7int)]);
        }
        "7"
    } else if d == 8 {
        proof {
            assert("8"@ =~= seq![dec_digit(8int)]);
        }
        "8"
    } else {
        proof {
            assert("9"@ =~= seq![dec_digit(9int)]);
        }
        "9"
    }
}

/// Renders `n` in decimal.
pub fn dec_u16(n: u16) -> (r: String)
    ensures
        r@ == dec_str(n as int),
    decreases n,
{
    if n < 10 {
        let s: String = String::from_str(digit_str(n));
        proof {
            assert(s@ =~= dec_str(n as int));
        }
        s
    } else {
        let mut s: String = dec_u16(n / 10);
        s.append(digit_str(n % 10));
        proof {
            assert(s@ =~= dec_str(n as int));
        }
        s
    }
}

} // verus!
