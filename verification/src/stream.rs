//! Streaming chat: each decoded NDJSON record either carries a reply
//! fragment, is silently skipped when malformed, or aborts the call when
//! the server reports an error.  Fragments are handed out strictly in
//! decode order.

use vstd::prelude::*;
use crate::ndjson::{NdjsonDecoder, decoded, views_of};
use crate::textfmt::{chars_to_string, push_str_chars};

verus! {

/// One reply fragment; `done` marks the record the server flagged as
/// terminal.
pub struct StreamChunk {
    pub content: String,
    pub done: bool,
}

pub open spec fn chunk_views(cs: Seq<StreamChunk>) -> Seq<(Seq<char>, bool)> {
    cs.map_values(|c: StreamChunk| (c.content@, c.done))
}

/// Names what serde_json's `from_slice` yields for one streaming chat
/// record: the `message.content` string if that path holds one, the
/// `done` flag if present, and the `error` field if present (the inner
/// option telling a string error from one of another shape); or nothing
/// when the line is not JSON.
pub uninterp spec fn stream_record_of(line: Seq<u8>) -> Option<
    (Option<Seq<char>>, Option<bool>, Option<Option<Seq<char>>>),
>;

/// The view of a parsed record as the executable wrapper returns it.
pub open spec fn exec_record_view(t: (Option<String>, Option<bool>, Option<Option<String>>)) -> (
    Option<Seq<char>>,
    Option<bool>,
    Option<Option<Seq<char>>>,
) {
    (
        match t.0 {
            Some(c) => Some(c@),
            None => None,
        },
        t.1,
        match t.2 {
            Some(Some(m)) => Some(Some(m@)),
            Some(None) => Some(None),
            None => None,
        },
    )
}

/// Relies on serde_json::from_slice on a Value, Value::get, Value::as_str
/// and Value::as_bool: reads `message.content`, `done` and `error`.
#[verifier::external_body]
fn parse_stream_record(line: &[u8]) -> (r: Option<
    (Option<String>, Option<bool>, Option<Option<String>>),
>)
    ensures
        r is Some <==> stream_record_of(line@) is Some,
        r matches Some(t) ==> stream_record_of(line@) == Some(exec_record_view(t)),
{
    match serde_json::from_slice::<serde_json::Value>(line) {
        Ok(v) => {
            let content = v
                .get("message")
                .and_then(|m| m.get("content"))
                .and_then(|c| c.as_str())
                .map(String::from);
            let done = v.get("done").and_then(|d| d.as_bool());
            let error = v.get("error").map(|e| e.as_str().map(String::from));
            Some((content, done, error))
        },
        Err(_) => None,
    }
}

/// The fragments one record contributes: one when it carries content
/// (`done` absent reads as false), none otherwise.
pub open spec fn record_chunks(line: Seq<u8>) -> Seq<(Seq<char>, bool)> {
    match stream_record_of(line) {
        Some((Some(c), done, _)) => seq![(c, done == Some(true))],
        _ => Seq::empty(),
    }
}

/// The error one record reports: the `error` string when present, a
/// fixed text when the field is present but not a string, nothing for a
/// clean or malformed record.
pub open spec fn record_error(line: Seq<u8>) -> Option<Seq<char>> {
    match stream_record_of(line) {
        Some((_, _, Some(Some(m)))) => Some(m),
        Some((_, _, Some(None))) => Some("Unknown error"@),
        _ => None,
    }
}

/// All fragments a sequence of records yields, in order, stopping right
/// after the first record that reports an error (whose own fragment is
/// still delivered).
pub open spec fn stream_chunks(lines: Seq<Seq<u8>>) -> Seq<(Seq<char>, bool)>
    decreases lines.len(),
{
    if lines.len() == 0 {
        Seq::empty()
    } else if record_error(lines[0]) is Some {
        record_chunks(lines[0])
    } else {
        record_chunks(lines[0]) + stream_chunks(lines.skip(1))
    }
}

/// The first error a sequence of records reports, if any.
pub open spec fn stream_error(lines: Seq<Seq<u8>>) -> Option<Seq<char>>
    decreases lines.len(),
{
    if lines.len() == 0 {
        None
    } else if record_error(lines[0]) is Some {
        record_error(lines[0])
    } else {
        stream_error(lines.skip(1))
    }
}

/// One more clean batch of records extends the fragments and leaves the
/// error search open.
pub proof fn lemma_stream_push(lines: Seq<Seq<u8>>, l: Seq<u8>)
    requires
        stream_error(lines) is None,
    ensures
        stream_chunks(lines.push(l)) == stream_chunks(lines) + record_chunks(l),
        stream_error(lines.push(l)) == record_error(l),
    decreases lines.len(),
{
    if lines.len() == 0 {
        assert(lines.push(l)[0] == l);
        assert(lines.push(l).skip(1) =~= Seq::<Seq<u8>>::empty());
        assert(stream_chunks(lines) =~= Seq::<(Seq<char>, bool)>::empty());
        if record_error(l) is Some {
            assert(record_error(lines.push(l)[0]) is Some);
            assert(stream_chunks(lines.push(l)) == record_chunks(lines.push(l)[0]));
            assert(stream_error(lines.push(l)) == record_error(lines.push(l)[0]));
            assert(stream_chunks(lines.push(l)) =~= stream_chunks(lines) + record_chunks(l));
        } else {
            assert(record_error(lines.push(l)[0]) is None);
            assert(stream_chunks(lines.push(l)) == record_chunks(lines.push(l)[0])
                + stream_chunks(lines.push(l).skip(1)));
            assert(stream_chunks(lines.push(l).skip(1)) =~= Seq::<(Seq<char>, bool)>::empty());
            assert(stream_error(lines.push(l).skip(1)) is None);
            assert(stream_chunks(lines.push(l)) =~= stream_chunks(lines) + record_chunks(l));
        }
    } else {
        assert(lines.push(l)[0] == lines[0]);
        assert(lines.push(l).skip(1) =~= lines.skip(1).push(l));
        lemma_stream_push(lines.skip(1), l);
        assert(stream_chunks(lines.push(l)) =~= stream_chunks(lines) + record_chunks(l));
    }
}

/// Once a record has reported an error, records after it change nothing.
pub proof fn lemma_stream_absorb(lines: Seq<Seq<u8>>, more: Seq<Seq<u8>>)
    requires
        stream_error(lines) is Some,
    ensures
        stream_chunks(lines + more) == stream_chunks(lines),
        stream_error(lines + more) == stream_error(lines),
    decreases lines.len(),
{
    assert(lines.len() > 0);
    assert((lines + more)[0] == lines[0]);
    assert((lines + more).skip(1) =~= lines.skip(1) + more);
    if record_error(lines[0]) is Some {
    } else {
        lemma_stream_absorb(lines.skip(1), more);
    }
}

/// A malformed line changes nothing, wherever it stands: the stream
/// yields exactly the fragments of the records that parse, in their
/// original relative order.
pub proof fn lemma_malformed_line_ignored(a: Seq<Seq<u8>>, m: Seq<u8>, b: Seq<Seq<u8>>)
    requires
        stream_record_of(m) is None,
    ensures
        stream_chunks(a + seq![m] + b) == stream_chunks(a + b),
        stream_error(a + seq![m] + b) == stream_error(a + b),
    decreases a.len(),
{
    if a.len() == 0 {
        assert((a + seq![m] + b)[0] == m);
        assert(record_error(m) is None);
        assert(record_chunks(m) =~= Seq::<(Seq<char>, bool)>::empty());
        assert((a + seq![m] + b).skip(1) =~= b);
        assert(a + b =~= b);
        assert(stream_chunks(a + seq![m] + b) =~= record_chunks(m) + stream_chunks(b));
        assert(stream_chunks(a + seq![m] + b) =~= stream_chunks(a + b));
    } else {
        assert((a + seq![m] + b)[0] == a[0]);
        assert((a + b)[0] == a[0]);
        assert((a + seq![m] + b).skip(1) =~= a.skip(1) + seq![m] + b);
        assert((a + b).skip(1) =~= a.skip(1) + b);
        if record_error(a[0]) is Some {
        } else {
            lemma_malformed_line_ignored(a.skip(1), m, b);
        }
    }
}

/// The text a record contributes to the whole reply.
pub open spec fn content_of(line: Seq<u8>) -> Seq<char> {
    match stream_record_of(line) {
        Some((Some(c), _, _)) => c,
        _ => Seq::empty(),
    }
}

/// The whole reply the records spell out, fragment by fragment.
pub open spec fn total_content(lines: Seq<Seq<u8>>) -> Seq<char>
    decreases lines.len(),
{
    if lines.len() == 0 {
        Seq::empty()
    } else {
        content_of(lines[0]) + total_content(lines.skip(1))
    }
}

/// The concatenation of the fragments handed out.
pub open spec fn concat_contents(chunks: Seq<(Seq<char>, bool)>) -> Seq<char>
    decreases chunks.len(),
{
    if chunks.len() == 0 {
        Seq::empty()
    } else {
        chunks[0].0 + concat_contents(chunks.skip(1))
    }
}

/// Concatenating the contents of the fragments a clean stream emits, in
/// emission order, spells out exactly the text the records carry — the
/// reply a non-streaming call over the same records would return.
pub proof fn lemma_stream_concat(lines: Seq<Seq<u8>>)
    requires
        stream_error(lines) is None,
    ensures
        concat_contents(stream_chunks(lines)) == total_content(lines),
    decreases lines.len(),
{
    if lines.len() == 0 {
    } else {
        assert(record_error(lines[0]) is None);
        lemma_stream_concat(lines.skip(1));
        let rc = record_chunks(lines[0]);
        let rest = stream_chunks(lines.skip(1));
        if rc.len() == 0 {
            assert(content_of(lines[0]) =~= Seq::<char>::empty());
            assert(rc + rest =~= rest);
            assert(content_of(lines[0]) + total_content(lines.skip(1)) =~= total_content(
                lines.skip(1),
            ));
        } else {
            assert(rc[0].0 == content_of(lines[0]));
            assert((rc + rest)[0] == rc[0]);
            assert((rc + rest).skip(1) =~= rest);
        }
    }
}

/// A streaming chat call in progress: the decoder, and whether a server
/// error has already ended it.
pub struct ChatStream {
    dec: NdjsonDecoder,
    failed: bool,
}

impl ChatStream {
    /// All bytes fed so far.
    pub closed spec fn fed(&self) -> Seq<u8> {
        self.dec.fed()
    }

    /// The records decoded so far.
    pub closed spec fn lines(&self) -> Seq<Seq<u8>> {
        decoded(self.dec.fed())
    }

    pub closed spec fn wf(&self) -> bool {
        &&& self.dec.wf()
        &&& self.failed == (stream_error(decoded(self.dec.fed())) is Some)
    }

    pub closed spec fn has_failed(&self) -> bool {
        self.failed
    }

    pub fn new() -> (s: ChatStream)
        ensures
            s.wf(),
            !s.has_failed(),
            s.fed() == Seq::<u8>::empty(),
            s.lines() == decoded(s.fed()),
            s.lines() == Seq::<Seq<u8>>::empty(),
    {
        let dec = NdjsonDecoder::new();
        proof {
            assert(decoded(Seq::<u8>::empty()) =~= Seq::<Seq<u8>>::empty());
        }
        ChatStream { dec, failed: false }
    }

    /// Feed one network chunk.  Every fragment completed by it comes back
    /// in decode order; a server-reported error comes back as the second
    /// component, ends the call, and leaves fragments decoded before it
    /// intact.  The records are the decode of all bytes fed, so the
    /// cumulative output is a function of the concatenated stream alone,
    /// whatever the chunk boundaries.
    pub fn push(&mut self, chunk: &[u8]) -> (r: (Vec<StreamChunk>, Option<String>))
        requires
            old(self).wf(),
            !old(self).has_failed(),
        ensures
            final(self).wf(),
            final(self).fed() == old(self).fed() + chunk@,
            final(self).lines() == decoded(final(self).fed()),
            stream_chunks(final(self).lines()) == stream_chunks(old(self).lines())
                + chunk_views(r.0@),
            r.1 is None <==> stream_error(final(self).lines()) is None,
            r.1 matches Some(e) ==> (stream_error(final(self).lines()) matches Some(m) && e@
                == "Ollama error: "@ + m),
            final(self).has_failed() == (r.1 is Some),
    {
        let ghost l0 = decoded(self.dec.fed());
        let lines = self.dec.push(chunk);
        let ghost lnew = views_of(lines@);
        let ghost lall = decoded(self.dec.fed());
        proof {
            assert(lall == l0 + lnew);
        }
        let mut chunks: Vec<StreamChunk> = Vec::new();
        let mut err: Option<String> = None;
        let mut i: usize = 0;
        while i < lines.len() && err.is_none()
            invariant
                self.dec.wf(),
                decoded(self.dec.fed()) == lall,
                lall == l0 + lnew,
                lnew == views_of(lines@),
                stream_error(l0) is None,
                i <= lines@.len(),
                err is None ==> stream_error(l0 + lnew.take(i as int)) is None,
                err is None ==> stream_chunks(l0 + lnew.take(i as int)) == stream_chunks(l0)
                    + chunk_views(chunks@),
                err matches Some(e) ==> (stream_error(lall) matches Some(m) && e@
                    == "Ollama error: "@ + m),
                err is Some ==> stream_chunks(lall) == stream_chunks(l0) + chunk_views(chunks@),
            decreases lines@.len() - i,
        {
            let ghost processed = l0 + lnew.take(i as int);
            let ghost lv = lnew[i as int];
            proof {
                lemma_stream_push(processed, lv);
                assert(processed.push(lv) =~= l0 + lnew.take(i + 1 as int));
            }
            let line = &lines[i];
            match parse_stream_record(line.as_slice()) {
                None => {
                    proof {
                        assert(record_chunks(lv) =~= Seq::<(Seq<char>, bool)>::empty());
                        assert(stream_chunks(processed) + record_chunks(lv) =~= stream_chunks(
                            processed,
                        ));
                    }
                },
                Some((content, done, error)) => {
                    match content {
                        Some(c) => {
                            let d = match done {
                                Some(b) => b,
                                None => false,
                            };
                            let ghost before = chunks@;
                            chunks.push(StreamChunk { content: c, done: d });
                            proof {
                                assert(chunk_views(chunks@) =~= chunk_views(before).push(
                                    (chunks@.last().content@, chunks@.last().done),
                                ));
                                assert(stream_chunks(processed) + record_chunks(lv)
                                    =~= stream_chunks(l0) + chunk_views(chunks@));
                            }
                        },
                        None => {
                            proof {
                                assert(record_chunks(lv) =~= Seq::<(Seq<char>, bool)>::empty());
                                assert(stream_chunks(processed) + record_chunks(lv)
                                    =~= stream_chunks(processed));
                            }
                        },
                    }
                    match error {
                        None => {},
                        Some(field) => {
                            let mut out: Vec<char> = Vec::new();
                            push_str_chars(&mut out, "Ollama error: ");
                            match field {
                                Some(m) => push_str_chars(&mut out, m.as_str()),
                                None => push_str_chars(&mut out, "Unknown error"),
                            }
                            err = Some(chars_to_string(&out));
                            proof {
                                assert(record_error(lv) is Some);
                                assert(stream_error(l0 + lnew.take(i + 1 as int)) is Some);
                                lemma_stream_absorb(
                                    l0 + lnew.take(i + 1 as int),
                                    lnew.skip(i + 1 as int),
                                );
                                assert((l0 + lnew.take(i + 1 as int)) + lnew.skip(i + 1 as int)
                                    =~= lall);
                            }
                        },
                    }
                },
            }
            i = i + 1;
        }
        if err.is_some() {
            self.failed = true;
        }
        proof {
            if err is None {
                assert(lnew.take(lnew.len() as int) =~= lnew);
            }
        }
        (chunks, err)
    }
}

} // verus!
