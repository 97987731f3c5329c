//! Parsing of the line-oriented dataset: each line holds an address and an
//! optional decimal balance, separated by a tab. Malformed lines (empty
//! address, or a present but non-numeric balance field) are rejected and the
//! caller skips them.

use vstd::prelude::*;
use vstd::string::*;

verus! {

/// One parsed dataset row: the unique address key and its optional balance.
pub struct AddressRecord {
    pub address: String,
    pub balance: Option<i64>,
}

/// The ASCII decimal digits.
pub open spec fn spec_is_digit(c: char) -> bool {
    48 <= c as u32 && c as u32 <= 57
}

/// Numeric value of one ASCII decimal digit.
pub open spec fn spec_digit_value(c: char) -> int {
    c as u32 - 48
}

/// Index of the first tab in `s`, or `s.len()` if `s` holds none.
pub open spec fn first_tab(s: Seq<char>) -> int
    decreases s.len(),
{
    if s.len() == 0 {
        0
    } else if s[0] == '\t' {
        0
    } else {
        1 + first_tab(s.skip(1))
    }
}

/// Value of a digit string read as a decimal number, most significant first.
pub open spec fn spec_digits_val(s: Seq<char>) -> int
    decreases s.len(),
{
    if s.len() == 0 {
        0
    } else {
        10 * spec_digits_val(s.drop_last()) + spec_digit_value(s.last())
    }
}

pub open spec fn spec_all_digits(s: Seq<char>) -> bool {
    forall|i: int| 0 <= i < s.len() ==> spec_is_digit(s[i])
}

/// A balance field is well formed when it is a non-empty string of decimal
/// digits whose value fits in `i64`; anything else is malformed.
pub open spec fn spec_parse_balance(s: Seq<char>) -> Option<i64> {
    if s.len() > 0 && spec_all_digits(s) && spec_digits_val(s) <= i64::MAX {
        Some(spec_digits_val(s) as i64)
    } else {
        None
    }
}

/// The balance field of a line: the characters between the first tab and the
/// second tab (or the end); `None` when the line has no tab at all.
pub open spec fn spec_balance_field(s: Seq<char>) -> Option<Seq<char>> {
    if first_tab(s) == s.len() {
        None
    } else {
        Some(s.skip(first_tab(s) + 1).take(first_tab(s.skip(first_tab(s) + 1))))
    }
}

/// What one dataset line parses to: the address (before the first tab) and the
/// optional balance, or `None` for a malformed line. A line is malformed when
/// its address field is empty, or when a balance field is present but is not a
/// non-empty digit string fitting in `i64`.
pub open spec fn spec_parse_line(s: Seq<char>) -> Option<(Seq<char>, Option<i64>)> {
    let addr = s.take(first_tab(s));
    if addr.len() == 0 {
        None
    } else {
        match spec_balance_field(s) {
            None => Some((addr, None)),
            Some(f) => match spec_parse_balance(f) {
                Some(b) => Some((addr, Some(b))),
                None => None,
            },
        }
    }
}

proof fn lemma_first_tab_bounds(s: Seq<char>)
    ensures
        0 <= first_tab(s) <= s.len(),
        forall|j: int| 0 <= j < first_tab(s) ==> s[j] != '\t',
        first_tab(s) < s.len() ==> s[first_tab(s)] == '\t',
    decreases s.len(),
{
    if s.len() == 0 {
    } else if s[0] == '\t' {
    } else {
        lemma_first_tab_bounds(s.skip(1));
        assert(forall|j: int| 0 <= j < first_tab(s) ==> s[j] != '\t') by {
            assert forall|j: int| 0 <= j < first_tab(s) implies s[j] != '\t' by {
                if j > 0 {
                    assert(s.skip(1)[j - 1] == s[j]);
                }
            }
        }
        if first_tab(s) < s.len() {
            assert(s.skip(1)[first_tab(s) - 1] == s[first_tab(s)]);
        }
    }
}

proof fn lemma_first_tab_from_prefix(s: Seq<char>, i: int)
    requires
        0 <= i <= s.len(),
        forall|j: int| 0 <= j < i ==> s[j] != '\t',
        i < s.len() ==> s[i] == '\t',
    ensures
        first_tab(s) == i,
    decreases s.len(),
{
    if i == 0 {
        if s.len() > 0 && s[0] != '\t' {
            assert(i < s.len());
        }
    } else {
        assert(s[0] != '\t');
        assert forall|j: int| 0 <= j < i - 1 implies s.skip(1)[j] != '\t' by {
            assert(s.skip(1)[j] == s[j + 1]);
        }
        if i - 1 < s.skip(1).len() {
            assert(s.skip(1)[i - 1] == s[i]);
        }
        lemma_first_tab_from_prefix(s.skip(1), i - 1);
    }
}

/// Index of the first tab character of `line`, or its length if none occurs.
pub fn find_tab(line: &str) -> (i: usize)
    ensures
        i == first_tab(line@),
{
    let n: usize = line.unicode_len();
    let mut i: usize = 0;
    while i < n
        invariant
            0 <= i <= n,
            n == line@.len(),
            forall|j: int| 0 <= j < i ==> line@[j] != '\t',
        decreases n - i,
    {
        let c: char = line.get_char(i);
        if c == '\t' {
            proof {
                lemma_first_tab_from_prefix(line@, i as int);
            }
            return i;
        }
        i = i + 1;
    }
    proof {
        lemma_first_tab_from_prefix(line@, i as int);
    }
    i
}

proof fn lemma_digits_val_nonneg(s: Seq<char>)
    requires
        spec_all_digits(s),
    ensures
        spec_digits_val(s) >= 0,
    decreases s.len(),
{
    if s.len() > 0 {
        assert(spec_all_digits(s.drop_last()));
        lemma_digits_val_nonneg(s.drop_last());
    }
}

proof fn lemma_digits_val_prefix_le(s: Seq<char>, i: int)
    requires
        spec_all_digits(s),
        0 <= i <= s.len(),
    ensures
        spec_digits_val(s.take(i)) <= spec_digits_val(s),
    decreases s.len(),
{
    if i == s.len() {
        assert(s.take(i) =~= s);
    } else {
        assert(spec_all_digits(s.drop_last()));
        assert(s.drop_last().take(i) =~= s.take(i));
        lemma_digits_val_prefix_le(s.drop_last(), i);
        lemma_digits_val_nonneg(s.drop_last());
    }
}

/// Parses a balance field. Returns the balance exactly when the field is a
/// non-empty string of decimal digits whose value fits in `i64`.
pub fn parse_balance(field: &str) -> (r: Option<i64>)
    ensures
        r == spec_parse_balance(field@),
{
    let n: usize = field.unicode_len();
    if n == 0 {
        return None;
    }
    let mut acc: i64 = 0;
    let mut i: usize = 0;
    while i < n
        invariant
            0 <= i <= n,
            n == field@.len(),
            spec_all_digits(field@.take(i as int)),
            acc == spec_digits_val(field@.take(i as int)),
            acc >= 0,
        decreases n - i,
    {
        let c: char = field.get_char(i);
        let cv: u32 = c as u32;
        if cv < 48 || cv > 57 {
            assert(!spec_is_digit(field@[i as int]));
            return None;
        }
        let d: i64 = (cv - 48) as i64;
        proof {
            assert(field@.take(i + 1).drop_last() =~= field@.take(i as int));
            assert(field@.take(i + 1).last() == field@[i as int]);
        }
        if acc > (i64::MAX - d) / 10 {
            proof {
                assert(10 * acc + d > i64::MAX);
                if spec_all_digits(field@) {
                    lemma_digits_val_prefix_le(field@, i + 1);
                }
            }
            return None;
        }
        acc = acc * 10 + d;
        i = i + 1;
    }
    proof {
        assert(field@.take(n as int) =~= field@);
    }
    Some(acc)
}

/// Parses one dataset line into an address record, or `None` when the line is
/// malformed: empty address field, or a present balance field that is not a
/// non-empty digit string fitting in `i64`. Such lines are skipped by
/// ingestion rather than aborting the load.
pub fn parse_line(line: &str) -> (r: Option<AddressRecord>)
    ensures
        match r {
            Some(rec) => spec_parse_line(line@) == Some((rec.address@, rec.balance)),
            None => spec_parse_line(line@) is None,
        },
{
    let n: usize = line.unicode_len();
    let t: usize = find_tab(line);
    proof {
        lemma_first_tab_bounds(line@);
    }
    if t == 0 {
        return None;
    }
    let addr: String = line.substring_char(0, t).to_owned();
    if t == n {
        return Some(AddressRecord { address: addr, balance: None });
    }
    let rest: &str = line.substring_char(t + 1, n);
    let t2: usize = find_tab(rest);
    proof {
        lemma_first_tab_bounds(rest@);
    }
    let field: &str = rest.substring_char(0, t2);
    proof {
        assert(rest@.take(t2 as int) =~= field@);
    }
    match parse_balance(field) {
        Some(b) => Some(AddressRecord { address: addr, balance: Some(b) }),
        None => None,
    }
}

} // verus!
