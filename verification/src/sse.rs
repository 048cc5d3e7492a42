//! The SSE `data:` field extractor: a one-bit state machine over complete
//! lines that emits normalized `data: <payload>` records, merging a bare
//! label with a structured value that arrives on the following line.

use vstd::prelude::*;

verus! {

/// ASCII whitespace, as trimming understands it.
pub open spec fn is_ws(b: u8) -> bool {
    b == 32 || b == 9 || b == 13 || b == 10 || b == 11 || b == 12
}

/// `s` with its leading whitespace removed.
pub open spec fn trim_left(s: Seq<u8>) -> Seq<u8>
    decreases s.len(),
{
    if s.len() > 0 && is_ws(s[0]) {
        trim_left(s.drop_first())
    } else {
        s
    }
}

/// `s` with its trailing whitespace removed.
pub open spec fn trim_right(s: Seq<u8>) -> Seq<u8>
    decreases s.len(),
{
    if s.len() > 0 && is_ws(s.last()) {
        trim_right(s.drop_last())
    } else {
        s
    }
}

/// `s` with whitespace removed from both ends.
pub open spec fn trimmed(s: Seq<u8>) -> Seq<u8> {
    trim_right(trim_left(s))
}

/// If the first `i` bytes are whitespace and byte `i` (if any) is not,
/// trimming on the left is exactly dropping those `i` bytes.
proof fn lemma_trim_left_skip(s: Seq<u8>, i: int)
    requires
        0 <= i <= s.len(),
        forall|k: int| 0 <= k < i ==> is_ws(s[k]),
        i == s.len() || !is_ws(s[i]),
    ensures
        trim_left(s) == s.skip(i),
    decreases i,
{
    if i == 0 {
        assert(s.skip(0) =~= s);
    } else {
        assert(is_ws(s[0]));
        lemma_trim_left_skip(s.drop_first(), i - 1);
        assert(s.drop_first().skip(i - 1) =~= s.skip(i));
    }
}

/// If the bytes from `j` on are whitespace and byte `j - 1` (if any) is
/// not, trimming on the right is exactly keeping the first `j` bytes.
proof fn lemma_trim_right_take(s: Seq<u8>, j: int)
    requires
        0 <= j <= s.len(),
        forall|k: int| j <= k < s.len() ==> is_ws(s[k]),
        j == 0 || !is_ws(s[j - 1]),
    ensures
        trim_right(s) == s.take(j),
    decreases s.len() - j,
{
    if j == s.len() {
        assert(s.take(j) =~= s);
        if s.len() > 0 {
            assert(!is_ws(s.last()));
        }
    } else {
        assert(is_ws(s.last()));
        lemma_trim_right_take(s.drop_last(), j);
        assert(s.drop_last().take(j) =~= s.take(j));
    }
}

/// Whether `b` is an ASCII whitespace byte.
pub fn ws_byte(b: u8) -> (r: bool)
    ensures
        r == is_ws(b),
{
    b == 32 || b == 9 || b == 13 || b == 10 || b == 11 || b == 12
}

/// Copy of `s` with whitespace removed from both ends.
pub fn trim_bytes(s: &[u8]) -> (r: Vec<u8>)
    ensures
        r@ == trimmed(s@),
{
    let n = s.len();
    let mut i: usize = 0;
    while i < n && ws_byte(s[i])
        invariant
            0 <= i <= n == s@.len(),
            forall|k: int| 0 <= k < i ==> is_ws(s@[k]),
        decreases n - i,
    {
        i += 1;
    }
    proof {
        lemma_trim_left_skip(s@, i as int);
    }
    if i == n {
        proof {
            assert(s@.skip(i as int) =~= Seq::<u8>::empty());
            assert(trim_right(Seq::<u8>::empty()) =~= Seq::<u8>::empty());
        }
        return Vec::new();
    }
    let mut j: usize = n;
    while j > i + 1 && ws_byte(s[j - 1])
        invariant
            i < j <= n == s@.len(),
            forall|k: int| j <= k < n ==> is_ws(s@[k]),
        decreases j,
    {
        j -= 1;
    }
    let ghost left = s@.skip(i as int);
    proof {
        assert(!is_ws(left[0]));
        assert(forall|k: int|
            j - i <= k < left.len() ==> is_ws(#[trigger] left[k]) == is_ws(s@[k + i]));
        assert(!is_ws(left[j - i - 1]));
        lemma_trim_right_take(left, j - i);
    }
    let mut r: Vec<u8> = Vec::new();
    let mut m: usize = i;
    while m < j
        invariant
            i <= m <= j <= s@.len(),
            r@.len() == m - i,
            forall|k: int| 0 <= k < r@.len() ==> r@[k] == s@[k + i],
        decreases j - m,
    {
        r.push(s[m]);
        m += 1;
    }
    proof {
        assert(r@ =~= left.take(j - i));
    }
    r
}

/// `s` begins with `p`.
pub open spec fn starts_with(s: Seq<u8>, p: Seq<u8>) -> bool {
    p.len() <= s.len() && s.take(p.len() as int) == p
}

/// The bytes of the field label `data:`.
pub open spec fn data_label() -> Seq<u8> {
    seq![100u8, 97u8, 116u8, 97u8, 58u8]
}

/// A normalized record: `data: ` + payload + a single newline.
pub open spec fn record_of(value: Seq<u8>) -> Seq<u8> {
    seq![100u8, 97u8, 116u8, 97u8, 58u8, 32u8] + value + seq![10u8]
}

/// One transition of the extractor. `pending` is true when the previous
/// relevant line was a bare `data:` label whose value has not arrived yet.
/// Returns the new flag and the record, if any, emitted for this line.
pub open spec fn extract_step(pending: bool, line: Seq<u8>) -> (bool, Option<Seq<u8>>) {
    let t = trimmed(line);
    if t.len() == 0 || t[0] == 58 {
        // blank or comment line: ignored, flag untouched
        (pending, None)
    } else if starts_with(t, data_label()) {
        let v = trimmed(t.skip(5));
        if v.len() == 0 {
            // a bare label (or label followed only by whitespace): hold it
            (true, None)
        } else {
            // label with value on one line
            (false, Some(record_of(v)))
        }
    } else if pending && (t[0] == 123 || t[0] == 91) {
        // a structured value (`{` or `[`) for the held label
        (false, Some(record_of(t)))
    } else {
        // any other line is dropped by design
        (pending, None)
    }
}

/// An ASCII byte at the front of a valid encoding is a whole scalar, so
/// dropping it keeps the encoding valid.
proof fn lemma_valid_drop_first(s: Seq<u8>)
    requires
        vstd::utf8::valid_utf8(s),
        s.len() > 0,
        s[0] < 128,
    ensures
        vstd::utf8::valid_utf8(s.drop_first()),
{
    assert(vstd::utf8::pop_first_scalar(s) =~= s.drop_first());
}

/// Putting an ASCII byte in front of a valid encoding keeps it valid.
proof fn lemma_valid_push_front(s: Seq<u8>)
    requires
        s.len() > 0,
        s[0] < 128,
        vstd::utf8::valid_utf8(s.drop_first()),
    ensures
        vstd::utf8::valid_utf8(s),
{
    assert(vstd::utf8::pop_first_scalar(s) =~= s.drop_first());
}

/// A sequence of ASCII bytes is a valid encoding.
proof fn lemma_ascii_valid(s: Seq<u8>)
    requires
        forall|i: int| 0 <= i < s.len() ==> s[i] < 128,
    ensures
        vstd::utf8::valid_utf8(s),
    decreases s.len(),
{
    if s.len() > 0 {
        lemma_ascii_valid(s.drop_first());
        lemma_valid_push_front(s);
    }
}

/// An ASCII byte at the back of a valid encoding is a whole scalar, so
/// dropping it keeps the encoding valid.
proof fn lemma_valid_drop_last(s: Seq<u8>)
    requires
        vstd::utf8::valid_utf8(s),
        s.len() > 0,
        s.last() < 128,
    ensures
        vstd::utf8::valid_utf8(s.drop_last()),
{
    let n = s.len() as int;
    vstd::utf8::is_char_boundary_iff_not_is_continuation_byte(s, n - 1);
    vstd::utf8::valid_utf8_split(s, n - 1);
    assert(s.subrange(0, n - 1) =~= s.drop_last());
}

/// Trimming whitespace off a valid encoding keeps it valid: every
/// whitespace byte is ASCII and so a whole scalar.
proof fn lemma_trimmed_valid(s: Seq<u8>)
    requires
        vstd::utf8::valid_utf8(s),
    ensures
        vstd::utf8::valid_utf8(trimmed(s)),
{
    lemma_trim_left_valid(s);
    lemma_trim_right_valid(trim_left(s));
}

proof fn lemma_trim_left_valid(s: Seq<u8>)
    requires
        vstd::utf8::valid_utf8(s),
    ensures
        vstd::utf8::valid_utf8(trim_left(s)),
    decreases s.len(),
{
    if s.len() > 0 && is_ws(s[0]) {
        lemma_valid_drop_first(s);
        lemma_trim_left_valid(s.drop_first());
    }
}

proof fn lemma_trim_right_valid(s: Seq<u8>)
    requires
        vstd::utf8::valid_utf8(s),
    ensures
        vstd::utf8::valid_utf8(trim_right(s)),
    decreases s.len(),
{
    if s.len() > 0 && is_ws(s.last()) {
        lemma_valid_drop_last(s);
        lemma_trim_right_valid(s.drop_last());
    }
}

/// Dropping `k` leading ASCII bytes off a valid encoding keeps it valid.
proof fn lemma_valid_skip_ascii(s: Seq<u8>, k: int)
    requires
        vstd::utf8::valid_utf8(s),
        0 <= k <= s.len(),
        forall|i: int| 0 <= i < k ==> s[i] < 128,
    ensures
        vstd::utf8::valid_utf8(s.skip(k)),
    decreases k,
{
    if k == 0 {
        assert(s.skip(0) =~= s);
    } else {
        lemma_valid_drop_first(s);
        lemma_valid_skip_ascii(s.drop_first(), k - 1);
        assert(s.drop_first().skip(k - 1) =~= s.skip(k));
    }
}

/// Every record the extractor emits for a valid line is itself a valid
/// encoding: the label and newline are ASCII, and the payload is the line
/// with only whole ASCII scalars removed.
pub proof fn lemma_record_valid(pending: bool, line: Seq<u8>)
    requires
        vstd::utf8::valid_utf8(line),
    ensures
        extract_step(pending, line).1 matches Some(r) ==> vstd::utf8::valid_utf8(r),
{
    let t = trimmed(line);
    lemma_trimmed_valid(line);
    if extract_step(pending, line).1 is Some {
        let v = if starts_with(t, data_label()) {
            trimmed(t.skip(5))
        } else {
            t
        };
        if starts_with(t, data_label()) {
            assert(forall|i: int| 0 <= i < 5 ==> t[i] == data_label()[i]);
            lemma_valid_skip_ascii(t, 5);
            lemma_trimmed_valid(t.skip(5));
        }
        let head = seq![100u8, 97u8, 116u8, 97u8, 58u8, 32u8];
        let tail = seq![10u8];
        lemma_ascii_valid(head);
        lemma_ascii_valid(tail);
        vstd::utf8::valid_utf8_concat(head, v);
        vstd::utf8::valid_utf8_concat(head + v, tail);
        assert(record_of(v) =~= (head + v) + tail);
    }
}

/// Build the normalized record for `value`.
fn make_record(value: &[u8]) -> (r: Vec<u8>)
    ensures
        r@ == record_of(value@),
{
    let mut r: Vec<u8> = Vec::new();
    r.push(100);
    r.push(97);
    r.push(116);
    r.push(97);
    r.push(58);
    r.push(32);
    let mut m: usize = 0;
    while m < value.len()
        invariant
            0 <= m <= value@.len(),
            r@.len() == 6 + m,
            forall|k: int| 0 <= k < 6 ==> r@[k] == record_of(value@)[k],
            forall|k: int| 0 <= k < m ==> r@[k + 6] == value@[k],
        decreases value@.len() - m,
    {
        r.push(value[m]);
        m += 1;
    }
    r.push(10);
    proof {
        assert(r@ =~= record_of(value@));
    }
    r
}

/// The extractor's one bit of state: whether a bare `data:` label is
/// waiting for its value.
pub struct DataExtractor {
    pending: bool,
}

impl DataExtractor {
    /// True when a bare label is held, awaiting a value line.
    pub closed spec fn view(&self) -> bool {
        self.pending
    }

    pub fn new() -> (r: Self)
        ensures
            r@ == false,
    {
        DataExtractor { pending: false }
    }

    /// Classify one complete line; emit its normalized record, if any.
    pub fn feed_line(&mut self, line: &[u8]) -> (r: Option<Vec<u8>>)
        ensures
            final(self)@ == extract_step(old(self)@, line@).0,
            match r {
                Some(v) => extract_step(old(self)@, line@).1 == Some(v@),
                None => extract_step(old(self)@, line@).1 is None,
            },
    {
        let t = trim_bytes(line);
        if t.len() == 0 || t[0] == 58 {
            return None;
        }
        if t.len() >= 5 && t[0] == 100 && t[1] == 97 && t[2] == 116 && t[3] == 97 && t[4] == 58 {
            proof {
                assert(t@.take(5) =~= data_label());
            }
            let rest = vstd::slice::slice_subrange(t.as_slice(), 5, t.len());
            let v = trim_bytes(rest);
            proof {
                assert(rest@ =~= t@.skip(5));
            }
            if v.len() == 0 {
                self.pending = true;
                None
            } else {
                self.pending = false;
                Some(make_record(v.as_slice()))
            }
        } else {
            proof {
                if starts_with(t@, data_label()) {
                    assert(t@.take(5)[0] == t@[0]);
                    assert(t@.take(5)[1] == t@[1]);
                    assert(t@.take(5)[2] == t@[2]);
                    assert(t@.take(5)[3] == t@[3]);
                    assert(t@.take(5)[4] == t@[4]);
                }
            }
            if self.pending && (t[0] == 123 || t[0] == 91) {
                self.pending = false;
                Some(make_record(t.as_slice()))
            } else {
                None
            }
        }
    }
}

} // verus!
