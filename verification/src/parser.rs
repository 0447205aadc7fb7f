//! The grammar of what is written to the command files.
//!
//! ```text
//! segment      ::= "." | [A-Za-z_][A-Za-z0-9_]*
//! cgroup_name  ::= segment ("/" segment)*
//! number       ::= [0-9]+
//! reservation  ::= cgroup_name BLANK+ number BLANK+ number
//! policy       ::= "SCHED_OTHER" | "SCHED_FIFO(" number ")" | "SCHED_RR(" number ")"
//! ```
//!
//! A parser that reads the start of its input consumes as much as the
//! grammar lets it; a request is the whole of the text written.
use vstd::prelude::*;
use vstd::slice::*;
use vstd::string::*;
use crate::policy::{lemma_words, word_close, word_fifo, word_other, word_rr, SchedPolicy};
use crate::reservation::Reservation;
use crate::text::{
    blanks_end,
    decimal_between,
    decimal_text,
    decimal_value,
    digits_end,
    has_word_at,
    is_alpha,
    is_ascii_bytes,
    is_digit,
    is_space_byte,
    lemma_blanks_end,
    lemma_decimal_text,
    lemma_digits_end,
    lemma_digits_end_from,
    lemma_written_ascii,
    scan_blanks,
    scan_digits,
    strip_end,
    strip_start,
    stripped,
    word_at,
    written_text,
};

pub mod laws;

verus! {

/// A byte that may start a segment other than `.`.
pub open spec fn is_name_start(b: u8) -> bool {
    is_alpha(b) || b == 0x5F
}

/// A byte that may follow in such a segment.
pub open spec fn is_name_char(b: u8) -> bool {
    is_alpha(b) || is_digit(b) || b == 0x5F
}

/// Where the run of segment bytes that starts at `i` ends.
pub open spec fn name_chars_end(s: Seq<u8>, i: int) -> int
    decreases s.len() - i,
{
    if 0 <= i < s.len() && is_name_char(s[i]) {
        name_chars_end(s, i + 1)
    } else {
        i
    }
}

/// Where the segment that starts at `i` ends; `i` where none starts there.
pub open spec fn segment_end(s: Seq<u8>, i: int) -> int {
    if 0 <= i < s.len() && s[i] == 0x2E {
        i + 1
    } else if 0 <= i < s.len() && is_name_start(s[i]) {
        name_chars_end(s, i + 1)
    } else {
        i
    }
}

/// Where the cgroup name that starts at `i` ends; `i` where none starts
/// there.  A slash belongs to the name only if a segment follows it.
pub open spec fn name_end(s: Seq<u8>, i: int) -> int
    decreases s.len() - i,
{
    let e = segment_end(s, i);
    if e <= i || e > s.len() {
        i
    } else if e < s.len() && s[e] == 0x2F && segment_end(s, e + 1) > e + 1 {
        name_end(s, e + 1)
    } else {
        e
    }
}

/// The whole of `s` is one cgroup name.
pub open spec fn is_cgroup_name(s: Seq<u8>) -> bool {
    s.len() > 0 && name_end(s, 0) == s.len()
}

/// The number that starts at `i`, with the place where it ends: a run of at
/// least one digit whose value fits 64 bits.
pub open spec fn number_at(s: Seq<u8>, i: int) -> Option<(int, u64)> {
    let e = digits_end(s, i);
    let value = decimal_value(s.subrange(i, e));
    if 0 <= i < e && value <= u64::MAX {
        Some((e, value as u64))
    } else {
        None
    }
}

/// The two numbers of a reservation that start at `i`, with the place where
/// the second ends: runtime, blanks, period.
pub open spec fn alloc_request_at(s: Seq<u8>, i: int) -> Option<(int, Reservation)> {
    match number_at(s, i) {
        Some((a, runtime_us)) => {
            let b = blanks_end(s, a);
            match number_at(s, b) {
                Some((c, period_us)) => if a < b {
                    Some((c, Reservation { runtime_us, period_us }))
                } else {
                    None
                },
                None => None,
            }
        },
        None => None,
    }
}

/// What a text asks of the files `create` and `update`: a name and a
/// reservation.
pub open spec fn reservation_request(s: Seq<u8>) -> Option<(Seq<u8>, Reservation)> {
    let n = name_end(s, 0);
    let a = blanks_end(s, n);
    match alloc_request_at(s, a) {
        Some((e, reservation)) => if 0 < n < a && e == s.len() {
            Some((s.take(n), reservation))
        } else {
            None
        },
        None => None,
    }
}

/// What a text asks of the file `delete`: a name.
pub open spec fn delete_request(s: Seq<u8>) -> Option<Seq<u8>> {
    if is_cgroup_name(s) {
        Some(s)
    } else {
        None
    }
}

/// The real-time policy written as `word`, a number of 32 bits and `)`.
pub open spec fn priority_request(s: Seq<u8>, word: Seq<u8>) -> Option<u32> {
    match number_at(s, word.len() as int) {
        Some((e, priority)) => if has_word_at(s, 0, word) && priority <= u32::MAX && has_word_at(
            s,
            e,
            word_close(),
        ) && e + 1 == s.len() {
            Some(priority as u32)
        } else {
            None
        },
        None => None,
    }
}

/// What a text asks of a policy file.
pub open spec fn policy_request(s: Seq<u8>) -> Option<SchedPolicy> {
    if s == word_other() {
        Some(SchedPolicy::Other)
    } else if priority_request(s, word_fifo()) is Some {
        Some(SchedPolicy::Fifo(priority_request(s, word_fifo()).unwrap()))
    } else if priority_request(s, word_rr()) is Some {
        Some(SchedPolicy::Rr(priority_request(s, word_rr()).unwrap()))
    } else {
        None
    }
}

pub proof fn lemma_name_chars_end(s: Seq<u8>, i: int)
    requires
        0 <= i <= s.len(),
    ensures
        i <= name_chars_end(s, i) <= s.len(),
        forall|j: int| i <= j < name_chars_end(s, i) ==> is_name_char(#[trigger] s[j]),
        name_chars_end(s, i) < s.len() ==> !is_name_char(s[name_chars_end(s, i)]),
    decreases s.len() - i,
{
    if i < s.len() && is_name_char(s[i]) {
        lemma_name_chars_end(s, i + 1);
    }
}

pub proof fn lemma_segment_end(s: Seq<u8>, i: int)
    requires
        0 <= i <= s.len(),
    ensures
        i <= segment_end(s, i) <= s.len(),
{
    if i < s.len() {
        lemma_name_chars_end(s, i + 1);
    }
}

pub proof fn lemma_name_end(s: Seq<u8>, i: int)
    requires
        0 <= i <= s.len(),
    ensures
        i <= name_end(s, i) <= s.len(),
        name_end(s, i) > i <==> segment_end(s, i) > i,
    decreases s.len() - i,
{
    lemma_segment_end(s, i);
    let e = segment_end(s, i);
    if e > i && e < s.len() && s[e] == 0x2F && segment_end(s, e + 1) > e + 1 {
        lemma_name_end(s, e + 1);
    }
}

fn scan_name_chars(data: &[u8], start: usize) -> (end: usize)
    requires
        start <= data@.len(),
    ensures
        end == name_chars_end(data@, start as int),
        start <= end <= data@.len(),
{
    let mut i: usize = start;
    while i < data.len() && name_char(data[i])
        invariant
            start <= i <= data@.len(),
            name_chars_end(data@, i as int) == name_chars_end(data@, start as int),
        decreases data@.len() - i,
    {
        i += 1;
    }
    i
}

fn name_start(b: u8) -> (yes: bool)
    ensures
        yes == is_name_start(b),
{
    (0x41 <= b && b <= 0x5A) || (0x61 <= b && b <= 0x7A) || b == 0x5F
}

fn name_char(b: u8) -> (yes: bool)
    ensures
        yes == is_name_char(b),
{
    name_start(b) || (0x30 <= b && b <= 0x39)
}

fn scan_segment(data: &[u8], start: usize) -> (end: usize)
    requires
        start <= data@.len(),
    ensures
        end == segment_end(data@, start as int),
        start <= end <= data@.len(),
{
    if start < data.len() && data[start] == 0x2E {
        start + 1
    } else if start < data.len() && name_start(data[start]) {
        scan_name_chars(data, start + 1)
    } else {
        start
    }
}

/// Where the cgroup name of `data` that starts at `start` ends; `start`
/// where none starts there.
pub fn scan_name(data: &[u8], start: usize) -> (end: usize)
    requires
        start <= data@.len(),
    ensures
        end == name_end(data@, start as int),
        start <= end <= data@.len(),
{
    let mut end: usize = scan_segment(data, start);
    if end == start {
        return start;
    }
    let ghost mut from: int = start as int;
    loop
        invariant
            start <= from < end <= data@.len(),
            end == segment_end(data@, from),
            name_end(data@, from) == name_end(data@, start as int),
        ensures
            end == name_end(data@, start as int),
            start < end <= data@.len(),
        decreases data@.len() - end,
    {
        if end < data.len() && data[end] == 0x2F {
            let next = scan_segment(data, end + 1);
            if next > end + 1 {
                proof {
                    from = end + 1;
                }
                end = next;
            } else {
                break ;
            }
        } else {
            break ;
        }
    }
    end
}

/// The length of the longest cgroup name that `data` starts with.
pub fn parse_cgroup_name(data: &[u8]) -> (len: Option<usize>)
    ensures
        match len {
            Some(n) => 0 < n <= data@.len() && n == name_end(data@, 0) && is_cgroup_name(
                data@.take(n as int),
            ),
            None => name_end(data@, 0) == 0,
        },
        forall|m: int|
            (match len {
                Some(n) => n as int,
                None => 0,
            }) < m <= data@.len() ==> !is_cgroup_name(#[trigger] data@.take(m)),
{
    proof {
        crate::parser::laws::law_longest_name(data@);
    }
    let end = scan_name(data, 0);
    if end == 0 {
        None
    } else {
        Some(end)
    }
}

/// The number that stands in `data` at `start`, and where it ends.
pub fn parse_u64_at(data: &[u8], start: usize) -> (number: Option<(usize, u64)>)
    requires
        start <= data@.len(),
    ensures
        match number {
            Some((end, value)) => number_at(data@, start as int) == Some((end as int, value))
                && start < end <= data@.len(),
            None => number_at(data@, start as int) is None,
        },
{
    let end = scan_digits(data, start);
    if end == start {
        return None;
    }
    proof {
        lemma_digits_end(data@, start as int);
    }
    match decimal_between(data, start, end) {
        Some(value) => Some((end, value)),
        None => None,
    }
}

/// The number that `data` starts with, and how many bytes write it.
pub fn parse_u64(data: &[u8]) -> (number: Option<(usize, u64)>)
    ensures
        match number {
            Some((len, value)) => number_at(data@, 0) == Some((len as int, value)) && 0 < len
                <= data@.len(),
            None => number_at(data@, 0) is None,
        },
{
    parse_u64_at(data, 0)
}

/// The two numbers of a reservation that stand in `data` at `start`, and
/// where they end.
pub fn parse_cgroup_alloc_request_at(data: &[u8], start: usize) -> (request: Option<
    (usize, Reservation),
>)
    requires
        start <= data@.len(),
    ensures
        match request {
            Some((end, reservation)) => alloc_request_at(data@, start as int) == Some(
                (end as int, reservation),
            ) && start < end <= data@.len(),
            None => alloc_request_at(data@, start as int) is None,
        },
{
    let (after_runtime, runtime_us) = match parse_u64_at(data, start) {
        Some(found) => found,
        None => {
            return None;
        },
    };
    let after_blanks = scan_blanks(data, after_runtime);
    if after_blanks == after_runtime {
        proof {
            lemma_digits_end(data@, start as int);
            lemma_digits_end(data@, after_runtime as int);
        }
        return None;
    }
    match parse_u64_at(data, after_blanks) {
        Some((end, period_us)) => Some((end, Reservation { runtime_us, period_us })),
        None => None,
    }
}

/// The two numbers of a reservation that `data` starts with, and how many
/// bytes write them.
pub fn parse_cgroup_alloc_request(data: &[u8]) -> (request: Option<(usize, Reservation)>)
    ensures
        match request {
            Some((len, reservation)) => alloc_request_at(data@, 0) == Some(
                (len as int, reservation),
            ) && 0 < len <= data@.len(),
            None => alloc_request_at(data@, 0) is None,
        },
{
    parse_cgroup_alloc_request_at(data, 0)
}

/// Reads what was written to `create` or `update`.
pub fn parse_reservation_request(text: &[u8]) -> (request: Option<(Vec<u8>, Reservation)>)
    ensures
        match request {
            Some((name, reservation)) => reservation_request(text@) == Some((name@, reservation)),
            None => reservation_request(text@) is None,
        },
        request is Some ==> is_cgroup_name(request.unwrap().0@),
{
    let name_len = scan_name(text, 0);
    let after_blanks = scan_blanks(text, name_len);
    if name_len == 0 || after_blanks == name_len {
        proof {
            if name_len == 0 {
                lemma_blanks_end(text@, 0);
            }
        }
        return None;
    }
    match parse_cgroup_alloc_request_at(text, after_blanks) {
        Some((end, reservation)) => {
            if end == text.len() {
                let name = slice_to_vec(slice_subrange(text, 0, name_len));
                proof {
                    lemma_name_prefix(text@, name_len as int);
                }
                Some((name, reservation))
            } else {
                None
            }
        },
        None => None,
    }
}

/// Reads what was written to `delete`.
pub fn parse_delete_request(text: &[u8]) -> (request: Option<Vec<u8>>)
    ensures
        match request {
            Some(name) => delete_request(text@) == Some(name@),
            None => delete_request(text@) is None,
        },
        request is Some ==> is_cgroup_name(request.unwrap()@),
{
    let name_len = scan_name(text, 0);
    if name_len == 0 || name_len != text.len() {
        return None;
    }
    let name = slice_to_vec(text);
    Some(name)
}

/// The priority written in `text` between `word` and `)`.
fn parse_priority(text: &[u8], word: &[u8]) -> (priority: Option<u32>)
    ensures
        priority == priority_request(text@, word@),
{
    if !word_at(text, 0, word) {
        return None;
    }
    match parse_u64_at(text, word.len()) {
        Some((end, value)) => {
            if value <= 0xFFFF_FFFF && word_at(text, end, ")".as_bytes()) && text.len() - end
                == 1 {
                Some(value as u32)
            } else {
                proof {
                    lemma_words();
                }
                None
            }
        },
        None => None,
    }
}

/// Reads what was written to a policy file.
pub fn parse_policy_request(text: &[u8]) -> (request: Option<SchedPolicy>)
    ensures
        request == policy_request(text@),
{
    let other = "SCHED_OTHER".as_bytes();
    if word_at(text, 0, other) && text.len() == other.len() {
        assert(text@.subrange(0, text@.len() as int) =~= text@);
        return Some(SchedPolicy::Other);
    }
    assert(text@ != word_other()) by {
        if text@ == word_other() {
            assert(text@.subrange(0, text@.len() as int) =~= text@);
        }
    }
    match parse_priority(text, "SCHED_FIFO(".as_bytes()) {
        Some(priority) => {
            return Some(SchedPolicy::Fifo(priority));
        },
        None => {},
    }
    match parse_priority(text, "SCHED_RR(".as_bytes()) {
        Some(priority) => Some(SchedPolicy::Rr(priority)),
        None => None,
    }
}

/// The name that a text starts with is a name when it stands alone.
pub proof fn lemma_name_prefix(s: Seq<u8>, n: int)
    requires
        0 < n <= s.len(),
        n == name_end(s, 0),
    ensures
        is_cgroup_name(s.take(n)),
{
    lemma_name_end_cut(s, 0, n);
}

/// Cutting a text where a name ends leaves the name as it was.
proof fn lemma_name_end_cut(s: Seq<u8>, i: int, n: int)
    requires
        0 <= i < n <= s.len(),
        n == name_end(s, i),
    ensures
        name_end(s.take(n), i) == n,
    decreases s.len() - i,
{
    let t = s.take(n);
    lemma_segment_end(s, i);
    let e = segment_end(s, i);
    assert(e > i);
    lemma_name_end(s, i);
    if e < s.len() && s[e] == 0x2F && segment_end(s, e + 1) > e + 1 {
        lemma_name_end(s, e + 1);
        lemma_segment_end(s, e + 1);
        lemma_name_end_cut(s, e + 1, n);
        lemma_segment_cut(s, i, n);
        lemma_segment_cut(s, e + 1, n);
        lemma_name_end(t, e + 1);
    } else {
        assert(e == n);
        lemma_segment_cut(s, i, n);
    }
}

/// A segment that ends before a cut is the same segment after the cut; one
/// that reaches the cut or goes beyond it ends at the cut.
proof fn lemma_segment_cut(s: Seq<u8>, i: int, n: int)
    requires
        0 <= i < n <= s.len(),
    ensures
        segment_end(s, i) <= n ==> segment_end(s.take(n), i) == segment_end(s, i),
        segment_end(s, i) > n ==> segment_end(s.take(n), i) == n,
{
    let t = s.take(n);
    assert(t[i] == s[i]);
    if s[i] != 0x2E && is_name_start(s[i]) {
        lemma_name_chars_cut(s, i + 1, n);
    }
}

proof fn lemma_name_chars_cut(s: Seq<u8>, i: int, n: int)
    requires
        0 <= i <= n <= s.len(),
    ensures
        name_chars_end(s, i) <= n ==> name_chars_end(s.take(n), i) == name_chars_end(s, i),
        name_chars_end(s, i) > n ==> name_chars_end(s.take(n), i) == n,
    decreases n - i,
{
    let t = s.take(n);
    if i < n {
        assert(t[i] == s[i]);
        if is_name_char(s[i]) {
            lemma_name_chars_cut(s, i + 1, n);
        }
    } else {
        lemma_name_chars_end(s, i);
    }
}

/// A real-time policy as it is written is read back as it was.
proof fn lemma_priority_read_back(word: Seq<u8>, priority: u32)
    requires
        word.len() > 0,
    ensures
        priority_request(word + decimal_text(priority as nat) + word_close(), word) == Some(
            priority,
        ),
{
    lemma_words();
    lemma_decimal_text(priority as nat);
    let digits = decimal_text(priority as nat);
    let s = word + digits + word_close();
    let from = word.len() as int;
    let to = from + digits.len();
    assert forall|k: int| from <= k < to implies is_digit(#[trigger] s[k]) by {
        assert(s[k] == digits[k - from]);
    }
    lemma_digits_end_from(s, from, to);
    assert(s[to] == 0x29);
    assert(digits_end(s, to) == to);
    assert(s.subrange(from, to) =~= digits);
    assert(s.subrange(0, from) =~= word);
    assert(s.subrange(to, to + 1) =~= word_close());
}

/// What a policy file shows of the default policy or of a real-time policy
/// can be written back to it: the text of the line is the request for that
/// very policy.  The other policies are shown but cannot be asked for.
pub proof fn law_policy_written_back(policy: SchedPolicy)
    ensures
        is_ascii_bytes(policy.line()),
        written_text(policy.line()) == Some(policy.word()),
        policy is Other || policy is Fifo || policy is Rr ==> policy_request(policy.word())
            == Some(policy),
        !(policy is Other || policy is Fifo || policy is Rr) ==> policy_request(policy.word())
            is None,
{
    lemma_words();
    let word = policy.word();
    let line = policy.line();
    match policy {
        SchedPolicy::Fifo(priority) => {
            lemma_decimal_text(priority as nat);
            lemma_priority_read_back(word_fifo(), priority);
            assert(word[6] == 0x46);
            assert(word.last() == 0x29);
        },
        SchedPolicy::Rr(priority) => {
            lemma_decimal_text(priority as nat);
            lemma_priority_read_back(word_rr(), priority);
            assert(word[6] == 0x52);
            assert(word.subrange(0, 11)[6] == word[6]);
            assert(word.last() == 0x29);
        },
        SchedPolicy::Other => {},
        SchedPolicy::Batch => {
            assert(word[6] == 0x42);
            assert(word.subrange(0, 11)[6] == word[6]);
            assert(word.subrange(0, 9)[6] == word[6]);
        },
        SchedPolicy::Idle => {
            assert(word[6] == 0x49);
            assert(word.len() == 10);
        },
        SchedPolicy::Deadline => {
            assert(word[6] == 0x44);
            assert(word.subrange(0, 11)[6] == word[6]);
            assert(word.subrange(0, 9)[6] == word[6]);
        },
    }
    assert(word[0] == 0x53);
    assert forall|i: int| 0 <= i < line.len() implies #[trigger] line[i] < 128 by {
        if i < word.len() {
            assert(line[i] == word[i]);
            match policy {
                SchedPolicy::Fifo(priority) => {
                    let digits = decimal_text(priority as nat);
                    if 11 <= i < 11 + digits.len() {
                        assert(word[i] == digits[i - 11]);
                        assert(is_digit(digits[i - 11]));
                    }
                },
                SchedPolicy::Rr(priority) => {
                    let digits = decimal_text(priority as nat);
                    if 9 <= i < 9 + digits.len() {
                        assert(word[i] == digits[i - 9]);
                        assert(is_digit(digits[i - 9]));
                    }
                },
                _ => {},
            }
        }
    }
    lemma_written_ascii(line);
    assert(strip_start(line) == line);
    assert(line.drop_last() =~= word);
    assert(!is_space_byte(word.last()));
    assert(strip_end(word) == word);
    assert(stripped(line) == word);
}

} // verus!
