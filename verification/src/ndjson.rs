//! Newline-delimited-JSON stream reassembly.
//!
//! A network stream arrives as arbitrary byte chunks; record boundaries do
//! not align with chunk boundaries.  The decoder appends each chunk to an
//! accumulation buffer, extracts every complete line (prefix up to a line
//! break), discards blank lines, and keeps the remainder for the next chunk.
//! Bytes left in the buffer when the stream ends belong to a truncated final
//! record and are never emitted.

use vstd::prelude::*;

verus! {

/// The byte that delimits records.
pub const LINE_BREAK: u8 = 10;

/// ASCII whitespace bytes; a line made only of these is blank.
pub open spec fn is_ws_byte(b: u8) -> bool {
    b == 32 || b == 9 || b == 10 || b == 11 || b == 12 || b == 13
}

/// A blank line carries no record and is discarded.
pub open spec fn is_blank(line: Seq<u8>) -> bool {
    forall|i: int| 0 <= i < line.len() ==> is_ws_byte(#[trigger] line[i])
}

/// What one complete line contributes to the decoder's output.
pub open spec fn emitted_line(line: Seq<u8>) -> Seq<Seq<u8>> {
    if is_blank(line) {
        Seq::empty()
    } else {
        seq![line]
    }
}

/// The non-blank complete lines of `s`, when the bytes `cur` were already
/// read before `s` without meeting a line break.
pub open spec fn lines_from(s: Seq<u8>, cur: Seq<u8>) -> Seq<Seq<u8>>
    decreases s.len(),
{
    if s.len() == 0 {
        Seq::empty()
    } else if s[0] == LINE_BREAK {
        emitted_line(cur) + lines_from(s.skip(1), Seq::empty())
    } else {
        lines_from(s.skip(1), cur.push(s[0]))
    }
}

/// The bytes of `s` after its last line break, when the bytes `cur` were
/// already read before `s` without meeting a line break.
pub open spec fn tail_from(s: Seq<u8>, cur: Seq<u8>) -> Seq<u8>
    decreases s.len(),
{
    if s.len() == 0 {
        cur
    } else if s[0] == LINE_BREAK {
        tail_from(s.skip(1), Seq::empty())
    } else {
        tail_from(s.skip(1), cur.push(s[0]))
    }
}

/// The ordered non-blank complete lines of a whole stream prefix.
pub open spec fn decoded(s: Seq<u8>) -> Seq<Seq<u8>> {
    lines_from(s, Seq::empty())
}

/// The record still in progress after a whole stream prefix.
pub open spec fn pending(s: Seq<u8>) -> Seq<u8> {
    tail_from(s, Seq::empty())
}

pub open spec fn has_line_break(s: Seq<u8>) -> bool {
    exists|i: int| 0 <= i < s.len() && s[i] == LINE_BREAK
}

/// The views of a vector of extracted lines.
pub open spec fn views_of(lines: Seq<Vec<u8>>) -> Seq<Seq<u8>> {
    lines.map_values(|l: Vec<u8>| l@)
}

/// Reading `a ++ b` is reading `a` and then reading `b` from wherever `a`
/// left off.  Decoding therefore depends only on the concatenation of the
/// chunks fed in, never on where one chunk ends and the next begins.
pub proof fn lemma_lines_from_append(a: Seq<u8>, b: Seq<u8>, cur: Seq<u8>)
    ensures
        lines_from(a + b, cur) == lines_from(a, cur) + lines_from(b, tail_from(a, cur)),
        tail_from(a + b, cur) == tail_from(b, tail_from(a, cur)),
    decreases a.len(),
{
    if a.len() == 0 {
        assert(a + b =~= b);
    } else {
        assert((a + b)[0] == a[0]);
        assert((a + b).skip(1) =~= a.skip(1) + b);
        if a[0] == LINE_BREAK {
            lemma_lines_from_append(a.skip(1), b, Seq::empty());
            assert(lines_from(a + b, cur) =~= lines_from(a, cur) + lines_from(
                b,
                tail_from(a, cur),
            ));
        } else {
            lemma_lines_from_append(a.skip(1), b, cur.push(a[0]));
        }
    }
}

/// A stretch of bytes without a line break completes no line and stays
/// pending in full.
pub proof fn lemma_no_break(s: Seq<u8>, cur: Seq<u8>)
    requires
        !has_line_break(s),
    ensures
        lines_from(s, cur) == Seq::<Seq<u8>>::empty(),
        tail_from(s, cur) == cur + s,
    decreases s.len(),
{
    if s.len() == 0 {
        assert(cur + s =~= cur);
    } else {
        assert(s[0] != LINE_BREAK);
        assert(!has_line_break(s.skip(1))) by {
            assert(forall|i: int|
                0 <= i < s.skip(1).len() ==> s.skip(1)[i] == s[i + 1]);
        }
        lemma_no_break(s.skip(1), cur.push(s[0]));
        assert(cur.push(s[0]) + s.skip(1) =~= cur + s);
    }
}

/// The pending remainder never holds a line break.
pub proof fn lemma_tail_no_break(s: Seq<u8>, cur: Seq<u8>)
    requires
        !has_line_break(cur),
    ensures
        !has_line_break(tail_from(s, cur)),
    decreases s.len(),
{
    if s.len() == 0 {
    } else if s[0] == LINE_BREAK {
        assert(!has_line_break(Seq::<u8>::empty()));
        lemma_tail_no_break(s.skip(1), Seq::empty());
    } else {
        assert(!has_line_break(cur.push(s[0]))) by {
            assert(forall|i: int|
                0 <= i < cur.len() ==> cur.push(s[0])[i] == cur[i]);
        }
        lemma_tail_no_break(s.skip(1), cur.push(s[0]));
    }
}

/// Extracting the first complete line: when the first line break of `s`
/// stands at `i`, the decode of `s` is the line before it followed by the
/// decode of what comes after it.
pub proof fn lemma_first_line(s: Seq<u8>, cur: Seq<u8>, i: int)
    requires
        0 <= i < s.len(),
        s[i] == LINE_BREAK,
        forall|j: int| 0 <= j < i ==> s[j] != LINE_BREAK,
    ensures
        lines_from(s, cur) == emitted_line(cur + s.take(i)) + lines_from(
            s.skip(i + 1),
            Seq::empty(),
        ),
        tail_from(s, cur) == tail_from(s.skip(i + 1), Seq::empty()),
    decreases i,
{
    if i == 0 {
        assert(cur + s.take(0) =~= cur);
        assert(s.skip(1) =~= s.skip(i + 1));
    } else {
        assert(s[0] != LINE_BREAK);
        let s1 = s.skip(1);
        assert(s1[i - 1] == LINE_BREAK);
        assert(forall|j: int| 0 <= j < i - 1 ==> s1[j] == s[j + 1] && s1[j] != LINE_BREAK);
        lemma_first_line(s1, cur.push(s[0]), i - 1);
        assert(cur.push(s[0]) + s1.take(i - 1) =~= cur + s.take(i));
        assert(s1.skip(i) =~= s.skip(i + 1));
    }
}

/// Splitting a stream anywhere leaves its decode unchanged: decoding
/// `a ++ b` in one piece equals decoding `a`, then decoding `b` starting
/// from `a`'s pending remainder.
pub proof fn lemma_split_invariance(a: Seq<u8>, b: Seq<u8>)
    ensures
        decoded(a + b) == decoded(a) + lines_from(b, pending(a)),
        pending(a + b) == tail_from(b, pending(a)),
{
    lemma_lines_from_append(a, b, Seq::empty());
}

/// Reassembles an NDJSON byte stream into complete non-blank lines.
///
/// Owns its accumulation buffer; built per call and discarded at stream
/// end, so no state outlives the stream it decodes.
pub struct NdjsonDecoder {
    buf: Vec<u8>,
    fed: Ghost<Seq<u8>>,
}

impl NdjsonDecoder {
    /// All bytes fed so far.
    pub closed spec fn fed(&self) -> Seq<u8> {
        self.fed@
    }

    pub closed spec fn wf(&self) -> bool {
        &&& self.buf@ == pending(self.fed@)
        &&& !has_line_break(self.buf@)
    }

    pub fn new() -> (d: NdjsonDecoder)
        ensures
            d.wf(),
            d.fed() == Seq::<u8>::empty(),
    {
        let d = NdjsonDecoder { buf: Vec::new(), fed: Ghost(Seq::empty()) };
        proof {
            assert(pending(Seq::<u8>::empty()) =~= Seq::<u8>::empty());
        }
        d
    }

    /// Feed one chunk; every line completed by it comes back, in stream
    /// order, blank lines dropped.  The output over a whole stream is a
    /// function of the concatenation of the chunks alone, whatever the
    /// chunk boundaries.
    pub fn push(&mut self, chunk: &[u8]) -> (lines: Vec<Vec<u8>>)
        requires
            old(self).wf(),
        ensures
            final(self).wf(),
            final(self).fed() == old(self).fed() + chunk@,
            decoded(final(self).fed()) == decoded(old(self).fed()) + views_of(lines@),
    {
        let ghost old_fed = self.fed@;
        let ghost old_pending = self.buf@;
        self.buf.extend_from_slice(chunk);
        self.fed = Ghost(old_fed + chunk@);
        let ghost b0 = self.buf@;
        proof {
            assert(b0 =~= old_pending + chunk@);
            // Decoding the grown stream = old decode + decode of the buffer.
            lemma_lines_from_append(old_fed, chunk@, Seq::empty());
            lemma_lines_from_append(old_pending, chunk@, Seq::empty());
            lemma_no_break(old_pending, Seq::empty());
            assert(Seq::<u8>::empty() + old_pending =~= old_pending);
            assert(lines_from(b0, Seq::empty()) == lines_from(chunk@, old_pending));
            assert(tail_from(b0, Seq::empty()) == tail_from(chunk@, old_pending));
            assert(decoded(self.fed@) == decoded(old_fed) + lines_from(b0, Seq::empty()));
            assert(pending(self.fed@) == tail_from(b0, Seq::empty()));
        }
        let mut lines: Vec<Vec<u8>> = Vec::new();
        let mut found = find_line_break(&self.buf);
        while found.is_some()
            invariant
                self.fed@ == old_fed + chunk@,
                lines_from(b0, Seq::empty()) =~= views_of(lines@) + lines_from(
                    self.buf@,
                    Seq::empty(),
                ),
                tail_from(b0, Seq::empty()) == tail_from(self.buf@, Seq::empty()),
                found matches Some(i) ==> i < self.buf@.len() && self.buf@[i as int]
                    == LINE_BREAK && (forall|j: int|
                    0 <= j < i ==> self.buf@[j] != LINE_BREAK),
                found is None ==> !has_line_break(self.buf@),
            decreases self.buf@.len(),
        {
            let i = found.unwrap();
            let buf_len = self.buf.len();
            assert(i < buf_len);
            let line = copy_range(&self.buf, 0, i);
            let rest = copy_range(&self.buf, i + 1, buf_len);
            proof {
                lemma_first_line(self.buf@, Seq::empty(), i as int);
                assert(Seq::<u8>::empty() + self.buf@.take(i as int) =~= line@);
            }
            if !line_is_blank(&line) {
                let ghost before = lines@;
                lines.push(line);
                proof {
                    assert(views_of(lines@) =~= views_of(before).push(
                        lines@[lines@.len() - 1]@,
                    ));
                }
            }
            self.buf = rest;
            found = find_line_break(&self.buf);
            proof {
                assert(views_of(lines@) + lines_from(self.buf@, Seq::empty())
                    =~= lines_from(b0, Seq::empty()));
            }
        }
        proof {
            lemma_no_break(self.buf@, Seq::empty());
            assert(Seq::<u8>::empty() + self.buf@ =~= self.buf@);
            assert(views_of(lines@) + Seq::<Seq<u8>>::empty() =~= views_of(lines@));
            assert(decoded(self.fed@) =~= decoded(old_fed) + views_of(lines@));
        }
        lines
    }
}

/// Decode a stream given in one piece; the reference against which any
/// chunked feeding of the same bytes can be compared.
pub fn decode_all(data: &[u8]) -> (lines: Vec<Vec<u8>>)
    ensures
        views_of(lines@) == decoded(data@),
{
    let mut d = NdjsonDecoder::new();
    let lines = d.push(data);
    proof {
        assert(Seq::<u8>::empty() + data@ =~= data@);
        assert(decoded(Seq::<u8>::empty()) =~= Seq::<Seq<u8>>::empty());
        assert(Seq::<Seq<u8>>::empty() + views_of(lines@) =~= views_of(lines@));
    }
    lines
}

/// Index of the first line break, if any.
fn find_line_break(v: &Vec<u8>) -> (r: Option<usize>)
    ensures
        r matches Some(i) ==> i < v@.len() && v@[i as int] == LINE_BREAK && (forall|j: int|
            0 <= j < i ==> v@[j] != LINE_BREAK),
        r is None ==> !has_line_break(v@),
{
    let mut i: usize = 0;
    while i < v.len()
        invariant
            i <= v@.len(),
            forall|j: int| 0 <= j < i ==> v@[j] != LINE_BREAK,
        decreases v@.len() - i,
    {
        if v[i] == LINE_BREAK {
            return Some(i);
        }
        i = i + 1;
    }
    None
}

/// Copy of `v[from..to]`.
fn copy_range(v: &Vec<u8>, from: usize, to: usize) -> (r: Vec<u8>)
    requires
        from <= to <= v@.len(),
    ensures
        r@ == v@.subrange(from as int, to as int),
{
    let mut r: Vec<u8> = Vec::new();
    let mut i: usize = from;
    while i < to
        invariant
            from <= i <= to <= v@.len(),
            r@ =~= v@.subrange(from as int, i as int),
        decreases to - i,
    {
        r.push(v[i]);
        proof {
            assert(r@ =~= v@.subrange(from as int, i + 1 as int));
        }
        i = i + 1;
    }
    r
}

/// Executable twin of `is_blank`.
pub fn line_is_blank(line: &Vec<u8>) -> (r: bool)
    ensures
        r == is_blank(line@),
{
    let mut i: usize = 0;
    while i < line.len()
        invariant
            i <= line@.len(),
            forall|j: int| 0 <= j < i ==> is_ws_byte(#[trigger] line@[j]),
        decreases line@.len() - i,
    {
        let b = line[i];
        if !(b == 32 || b == 9 || b == 10 || b == 11 || b == 12 || b == 13) {
            return false;
        }
        i = i + 1;
    }
    true
}

} // verus!
