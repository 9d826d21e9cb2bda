//! Parsing and classification of ask-request files.
//!
//! A request file is a flat sequence of `Key=Value` lines.  The parser
//! extracts the first `Message=`, `Socket=` and `PID=` values byte for byte,
//! and classifies the file as a disk-passphrase request exactly when the
//! message value contains the fixed prompt text.

use vstd::prelude::*;
use crate::bytes::{matches_at, contains_seq, matches_at_exec, contains_exec};

verus! {

// --- the fixed keys and the classification prompt ---

/// The `Message=` key, including the separator.
pub open spec fn message_key() -> Seq<u8> {
    seq![
        'M' as u8, 'e' as u8, 's' as u8, 's' as u8, 'a' as u8, 'g' as u8, 'e' as u8, '=' as u8,
    ]
}

/// The `Socket=` key, including the separator.
pub open spec fn socket_key() -> Seq<u8> {
    seq!['S' as u8, 'o' as u8, 'c' as u8, 'k' as u8, 'e' as u8, 't' as u8, '=' as u8]
}

/// The `PID=` key, including the separator.
pub open spec fn pid_key() -> Seq<u8> {
    seq!['P' as u8, 'I' as u8, 'D' as u8, '=' as u8]
}

/// The fixed prompt text `Please enter passphrase for disk` that marks a
/// disk-passphrase request.
pub open spec fn disk_prompt() -> Seq<u8> {
    seq![
        'P' as u8, 'l' as u8, 'e' as u8, 'a' as u8, 's' as u8, 'e' as u8, ' ' as u8,
        'e' as u8, 'n' as u8, 't' as u8, 'e' as u8, 'r' as u8, ' ' as u8,
        'p' as u8, 'a' as u8, 's' as u8, 's' as u8, 'p' as u8, 'h' as u8, 'r' as u8,
        'a' as u8, 's' as u8, 'e' as u8, ' ' as u8,
        'f' as u8, 'o' as u8, 'r' as u8, ' ' as u8,
        'd' as u8, 'i' as u8, 's' as u8, 'k' as u8,
    ]
}

/// The `Message=` key as bytes.
pub fn message_key_bytes() -> (v: Vec<u8>)
    ensures
        v@ == message_key(),
{
    let mut v: Vec<u8> = Vec::new();
    v.push('M' as u8);
    v.push('e' as u8);
    v.push('s' as u8);
    v.push('s' as u8);
    v.push('a' as u8);
    v.push('g' as u8);
    v.push('e' as u8);
    v.push('=' as u8);
    proof {
        assert(v@ =~= message_key());
    }
    v
}

/// The `Socket=` key as bytes.
pub fn socket_key_bytes() -> (v: Vec<u8>)
    ensures
        v@ == socket_key(),
{
    let mut v: Vec<u8> = Vec::new();
    v.push('S' as u8);
    v.push('o' as u8);
    v.push('c' as u8);
    v.push('k' as u8);
    v.push('e' as u8);
    v.push('t' as u8);
    v.push('=' as u8);
    proof {
        assert(v@ =~= socket_key());
    }
    v
}

/// The `PID=` key as bytes.
pub fn pid_key_bytes() -> (v: Vec<u8>)
    ensures
        v@ == pid_key(),
{
    let mut v: Vec<u8> = Vec::new();
    v.push('P' as u8);
    v.push('I' as u8);
    v.push('D' as u8);
    v.push('=' as u8);
    proof {
        assert(v@ =~= pid_key());
    }
    v
}

/// The fixed prompt text as bytes.
pub fn disk_prompt_bytes() -> (v: Vec<u8>)
    ensures
        v@ == disk_prompt(),
{
    let mut v: Vec<u8> = Vec::new();
    v.push('P' as u8);
    v.push('l' as u8);
    v.push('e' as u8);
    v.push('a' as u8);
    v.push('s' as u8);
    v.push('e' as u8);
    v.push(' ' as u8);
    v.push('e' as u8);
    v.push('n' as u8);
    v.push('t' as u8);
    v.push('e' as u8);
    v.push('r' as u8);
    v.push(' ' as u8);
    v.push('p' as u8);
    v.push('a' as u8);
    v.push('s' as u8);
    v.push('s' as u8);
    v.push('p' as u8);
    v.push('h' as u8);
    v.push('r' as u8);
    v.push('a' as u8);
    v.push('s' as u8);
    v.push('e' as u8);
    v.push(' ' as u8);
    v.push('f' as u8);
    v.push('o' as u8);
    v.push('r' as u8);
    v.push(' ' as u8);
    v.push('d' as u8);
    v.push('i' as u8);
    v.push('s' as u8);
    v.push('k' as u8);
    proof {
        assert(v@ =~= disk_prompt());
    }
    v
}

// --- line structure ---

/// Index of the first line feed of `s` at or after `from`, or `s.len()` if
/// the rest of `s` has none.
pub open spec fn find_newline(s: Seq<u8>, from: int) -> int
    decreases s.len() - from,
{
    if from < 0 || from >= s.len() {
        s.len() as int
    } else if s[from] == 10u8 {
        from
    } else {
        find_newline(s, from + 1)
    }
}

/// The value of the first line at or after `pos` that starts with `key`:
/// the bytes from the end of `key` up to (not including) the line's
/// terminator.  `pos` is expected to be a line start.
pub open spec fn value_from(s: Seq<u8>, key: Seq<u8>, pos: int) -> Option<Seq<u8>>
    decreases s.len() - pos,
{
    if pos < 0 || pos > s.len() {
        None
    } else {
        let end = find_newline(s, pos);
        if matches_at(s, key, pos) {
            Some(s.subrange(pos + key.len(), end))
        } else if pos <= end && end < s.len() {
            value_from(s, key, end + 1)
        } else {
            None
        }
    }
}

/// The value of the first line of `s` that starts with `key`.
pub open spec fn first_value(s: Seq<u8>, key: Seq<u8>) -> Option<Seq<u8>> {
    value_from(s, key, 0)
}

/// Bounds and characterization of `find_newline`: it lands on the first
/// line feed at or after `from`, or on the end of the sequence.
pub proof fn lemma_find_newline_bounds(s: Seq<u8>, from: int)
    requires
        0 <= from <= s.len(),
    ensures
        from <= find_newline(s, from) <= s.len(),
        find_newline(s, from) < s.len() ==> s[find_newline(s, from)] == 10u8,
        forall|k: int| from <= k < find_newline(s, from) ==> s[k] != 10u8,
    decreases s.len() - from,
{
    if from < s.len() && s[from] != 10u8 {
        lemma_find_newline_bounds(s, from + 1);
    }
}

/// Finds the next line terminator at or after `from`.
fn find_newline_exec(s: &Vec<u8>, from: usize) -> (r: usize)
    requires
        from <= s@.len(),
    ensures
        r == find_newline(s@, from as int),
        from <= r <= s@.len(),
{
    let mut i: usize = from;
    while i < s.len()
        invariant
            from <= i <= s@.len(),
            find_newline(s@, from as int) == find_newline(s@, i as int),
        decreases s@.len() - i,
    {
        if s[i] == 10u8 {
            return i;
        }
        i = i + 1;
    }
    i
}

/// Extracts the value of the first line of `s` that starts with `key`.
///
/// The key must be non-empty and free of line feeds, which holds of the
/// three fixed keys.
pub fn extract_value(s: &Vec<u8>, key: &Vec<u8>) -> (r: Option<Vec<u8>>)
    requires
        key@.len() >= 1,
        forall|j: int| 0 <= j < key@.len() ==> key@[j] != 10u8,
    ensures
        match r {
            Some(v) => first_value(s@, key@) == Some(v@),
            None => first_value(s@, key@) is None,
        },
{
    let mut pos: usize = 0;
    loop
        invariant
            pos <= s@.len(),
            key@.len() >= 1,
            forall|j: int| 0 <= j < key@.len() ==> key@[j] != 10u8,
            first_value(s@, key@) == value_from(s@, key@, pos as int),
        decreases s@.len() - pos,
    {
        let end = find_newline_exec(s, pos);
        if matches_at_exec(s, key, pos) {
            proof {
                lemma_find_newline_bounds(s@, pos as int);
                if find_newline(s@, pos as int) < pos + key@.len() {
                    let nl = find_newline(s@, pos as int);
                    assert(s@.subrange(pos as int, pos + key@.len())[nl - pos] == s@[nl]);
                }
            }
            let start = pos + key.len();
            let mut v: Vec<u8> = Vec::new();
            let mut i: usize = start;
            while i < end
                invariant
                    start <= i <= end <= s@.len(),
                    v@ == s@.subrange(start as int, i as int),
                decreases end - i,
            {
                v.push(s[i]);
                assert(v@ =~= s@.subrange(start as int, i + 1 as int));
                i = i + 1;
            }
            return Some(v);
        } else if end >= s.len() {
            return None;
        } else {
            pos = end + 1;
        }
    }
}

// --- decimal values (for the PID key) ---

/// All bytes of `s` are decimal digits and there is at least one.
pub open spec fn is_digits(s: Seq<u8>) -> bool {
    s.len() > 0 && forall|i: int| 0 <= i < s.len() ==> ('0' as u8) <= #[trigger] s[i] <= ('9' as u8)
}

/// The number written in decimal in `s`.
pub open spec fn dec_value(s: Seq<u8>) -> int
    decreases s.len(),
{
    if s.len() == 0 {
        0
    } else {
        dec_value(s.drop_last()) * 10 + (s.last() - ('0' as u8))
    }
}

/// The number a sequence of decimal digits denotes, when it fits in a
/// `u64`; `None` on anything else.
pub open spec fn spec_parse_u64(s: Seq<u8>) -> Option<u64> {
    if is_digits(s) && dec_value(s) <= u64::MAX {
        Some(dec_value(s) as u64)
    } else {
        None
    }
}

/// A digit string denotes a non-negative number.
proof fn lemma_dec_value_nonneg(s: Seq<u8>)
    requires
        forall|i: int| 0 <= i < s.len() ==> ('0' as u8) <= #[trigger] s[i] <= ('9' as u8),
    ensures
        dec_value(s) >= 0,
    decreases s.len(),
{
    if s.len() > 0 {
        lemma_dec_value_nonneg(s.drop_last());
    }
}

/// Reading one more digit multiplies the prefix's value by ten and adds
/// the digit.
proof fn lemma_dec_value_extend(s: Seq<u8>, i: int)
    requires
        0 <= i < s.len(),
    ensures
        dec_value(s.subrange(0, i + 1)) == dec_value(s.subrange(0, i)) * 10 + (s[i] - ('0' as u8)),
{
    assert(s.subrange(0, i + 1).drop_last() =~= s.subrange(0, i));
    assert(s.subrange(0, i + 1).last() == s[i]);
}

/// A digit string's value is no less than any of its prefixes' values.
proof fn lemma_dec_value_prefix_le(s: Seq<u8>, i: int)
    requires
        forall|k: int| 0 <= k < s.len() ==> ('0' as u8) <= #[trigger] s[k] <= ('9' as u8),
        0 <= i <= s.len(),
    ensures
        dec_value(s.subrange(0, i)) <= dec_value(s),
    decreases s.len() - i,
{
    if i == s.len() {
        assert(s.subrange(0, i) =~= s);
    } else {
        lemma_dec_value_extend(s, i);
        assert(forall|k: int| 0 <= k < s.subrange(0, i).len()
            ==> ('0' as u8) <= #[trigger] s.subrange(0, i)[k] <= ('9' as u8));
        lemma_dec_value_nonneg(s.subrange(0, i));
        lemma_dec_value_prefix_le(s, i + 1);
    }
}

/// Parses a decimal `u64`, rejecting non-digits and overflow.
pub fn parse_u64(s: &Vec<u8>) -> (r: Option<u64>)
    ensures
        r == spec_parse_u64(s@),
{
    if s.len() == 0 {
        return None;
    }
    let mut acc: u64 = 0;
    let mut i: usize = 0;
    while i < s.len()
        invariant
            0 < s@.len(),
            i <= s@.len(),
            forall|k: int| 0 <= k < i ==> ('0' as u8) <= #[trigger] s@[k] <= ('9' as u8),
            acc == dec_value(s@.subrange(0, i as int)),
        decreases s@.len() - i,
    {
        let b = s[i];
        if b < ('0' as u8) || b > ('9' as u8) {
            return None;
        }
        let d = (b - ('0' as u8)) as u64;
        if acc > (u64::MAX - d) / 10 {
            proof {
                lemma_dec_value_extend(s@, i as int);
                if is_digits(s@) {
                    lemma_dec_value_prefix_le(s@, i + 1 as int);
                }
            }
            return None;
        }
        acc = acc * 10 + d;
        proof {
            lemma_dec_value_extend(s@, i as int);
        }
        i = i + 1;
    }
    proof {
        assert(s@.subrange(0, s@.len() as int) =~= s@);
    }
    Some(acc)
}

// --- requests and their classification ---

/// What a request file is classified as: a disk-decryption passphrase
/// prompt, or anything else (which the agent ignores).
#[derive(PartialEq, Eq, Structural, Clone, Copy, Debug)]
pub enum Classification {
    DiskPassphrase,
    Other,
}

/// A parsed request: the prompt message, the reply socket path if the file
/// carried one, and the requester's process id if it carried one (kept for
/// a liveness check that is a documented gap).
#[derive(Debug)]
pub struct Request {
    pub message: Vec<u8>,
    pub reply_socket_path: Option<Vec<u8>>,
    pub pid: Option<u64>,
}

/// The mathematical image of a `Request`.
pub struct SpecRequest {
    pub message: Seq<u8>,
    pub reply_socket_path: Option<Seq<u8>>,
    pub pid: Option<u64>,
}

impl View for Request {
    type V = SpecRequest;

    open spec fn view(&self) -> SpecRequest {
        SpecRequest {
            message: self.message@,
            reply_socket_path: match self.reply_socket_path {
                Some(v) => Some(v@),
                None => None,
            },
            pid: self.pid,
        }
    }
}

/// The message value of a request file.
pub open spec fn spec_message(s: Seq<u8>) -> Option<Seq<u8>> {
    first_value(s, message_key())
}

/// The reply socket path of a request file.
pub open spec fn spec_socket(s: Seq<u8>) -> Option<Seq<u8>> {
    first_value(s, socket_key())
}

/// The process id of a request file: the first `PID=` value, read as a
/// decimal number.
pub open spec fn spec_pid(s: Seq<u8>) -> Option<u64> {
    match first_value(s, pid_key()) {
        Some(v) => spec_parse_u64(v),
        None => None,
    }
}

/// How a request file is classified: a disk-passphrase request exactly
/// when it has a message value containing the fixed prompt.  The
/// classification is a function of the message value alone.
pub open spec fn spec_classification(s: Seq<u8>) -> Classification {
    match spec_message(s) {
        Some(m) => if contains_seq(m, disk_prompt()) {
            Classification::DiskPassphrase
        } else {
            Classification::Other
        },
        None => Classification::Other,
    }
}

/// The request a file with a message value parses to.
pub open spec fn spec_request(s: Seq<u8>) -> SpecRequest
    recommends
        spec_message(s) is Some,
{
    SpecRequest {
        message: spec_message(s)->0,
        reply_socket_path: spec_socket(s),
        pid: spec_pid(s),
    }
}

/// Parses one request file's bytes into a classification and, when the
/// file has a `Message=` line, the structured request.
///
/// Files without a message value are classified `Other` and yield no
/// request; they are never an error, since foreign agents' files are
/// expected and must be skipped silently.
pub fn parse(content: &Vec<u8>) -> (r: (Classification, Option<Request>))
    ensures
        r.0 == spec_classification(content@),
        match r.1 {
            Some(req) => spec_message(content@) is Some && req@ == spec_request(content@),
            None => spec_message(content@) is None,
        },
{
    let msg = extract_value(content, &message_key_bytes());
    match msg {
        None => (Classification::Other, None),
        Some(m) => {
            let classification = if contains_exec(&m, &disk_prompt_bytes()) {
                Classification::DiskPassphrase
            } else {
                Classification::Other
            };
            let reply_socket_path = extract_value(content, &socket_key_bytes());
            let pid = match extract_value(content, &pid_key_bytes()) {
                Some(p) => parse_u64(&p),
                None => None,
            };
            (classification, Some(Request { message: m, reply_socket_path, pid }))
        },
    }
}

// --- the classification and extraction laws ---

/// Law: a request file whose message value is missing, or lacks the fixed
/// prompt, is classified `Other`.
pub proof fn lemma_no_prompt_classified_other(s: Seq<u8>)
    requires
        spec_message(s) is None || !contains_seq(spec_message(s)->0, disk_prompt()),
    ensures
        spec_classification(s) == Classification::Other,
{
}

/// Law: a request file whose message value contains the fixed prompt is
/// classified as a disk-passphrase request.
pub proof fn lemma_prompt_classified_disk(s: Seq<u8>)
    requires
        spec_message(s) is Some,
        contains_seq(spec_message(s)->0, disk_prompt()),
    ensures
        spec_classification(s) == Classification::DiskPassphrase,
{
}

/// `value_from` walks exactly the line starts: if `i` is the first line
/// start at or after `pos` whose line begins with `key`, the value found
/// from `pos` is that line's remainder, up to its terminator.
proof fn lemma_value_from_found(s: Seq<u8>, key: Seq<u8>, pos: int, i: int)
    requires
        key.len() >= 1,
        forall|j: int| 0 <= j < key.len() ==> key[j] != 10u8,
        0 <= pos <= i <= s.len(),
        pos == 0 || s[pos - 1] == 10u8,
        i == 0 || s[i - 1] == 10u8,
        matches_at(s, key, i),
        forall|j: int| pos <= j < i && (j == 0 || s[j - 1] == 10u8) ==> !matches_at(s, key, j),
    ensures
        value_from(s, key, pos) == Some(s.subrange(i + key.len(), find_newline(s, i))),
    decreases i - pos,
{
    if pos == i {
    } else {
        assert(!matches_at(s, key, pos));
        let end = find_newline(s, pos);
        lemma_find_newline_bounds(s, pos);
        assert(end <= i - 1) by {
            if end > i - 1 {
                assert(s[i - 1] != 10u8);
            }
        }
        lemma_value_from_found(s, key, end + 1, i);
    }
}

/// Law: if the first `Socket=` line of a request file begins at `i`, the
/// extracted reply socket path is exactly the bytes after `Socket=` up to
/// (not including) the line terminator.
pub proof fn lemma_socket_value_exact(s: Seq<u8>, i: int)
    requires
        0 <= i <= s.len(),
        i == 0 || s[i - 1] == 10u8,
        matches_at(s, socket_key(), i),
        forall|j: int| 0 <= j < i && (j == 0 || s[j - 1] == 10u8) ==> !matches_at(s, socket_key(), j),
    ensures
        spec_socket(s) == Some(s.subrange(i + socket_key().len(), find_newline(s, i))),
{
    lemma_value_from_found(s, socket_key(), 0, i);
}

} // verus!
