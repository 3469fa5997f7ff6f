//! Model download: the pull endpoint streams NDJSON progress records;
//! each parsed record becomes a progress snapshot, and a record whose
//! `error` field carries a string aborts the call.

use vstd::prelude::*;
use crate::http_success;
use crate::ndjson::{NdjsonDecoder, decoded, views_of};
use crate::textfmt::{spec_dec, spec_escape, chars_to_string, push_dec, push_escaped, push_str_chars};

verus! {

/// One progress snapshot; emitted as a side effect, never stored.
pub struct PullUpdate {
    pub status: String,
    pub total: u64,
    pub completed: u64,
}

pub open spec fn update_views(us: Seq<PullUpdate>) -> Seq<(Seq<char>, u64, u64)> {
    us.map_values(|u: PullUpdate| (u.status@, u.total, u.completed))
}

/// Names what serde_json's `from_slice` yields for one pull record: the
/// `status` string, the `total` and `completed` counters, and the
/// `error` field if present (the inner option telling a string error
/// from one of another shape); or nothing when the line is not JSON.
pub uninterp spec fn pull_record_of(line: Seq<u8>) -> Option<
    (Option<Seq<char>>, Option<u64>, Option<u64>, Option<Option<Seq<char>>>),
>;

/// The view of a parsed record as the executable wrapper returns it.
pub open spec fn exec_pull_view(
    t: (Option<String>, Option<u64>, Option<u64>, Option<Option<String>>),
) -> (Option<Seq<char>>, Option<u64>, Option<u64>, Option<Option<Seq<char>>>) {
    (
        match t.0 {
            Some(s) => Some(s@),
            None => None,
        },
        t.1,
        t.2,
        match t.3 {
            Some(Some(m)) => Some(Some(m@)),
            Some(None) => Some(None),
            None => None,
        },
    )
}

/// Relies on serde_json::from_slice on a Value, Value::get, Value::as_str
/// and Value::as_u64: reads `status`, `total`, `completed` and `error`.
#[verifier::external_body]
fn parse_pull_record(line: &[u8]) -> (r: Option<
    (Option<String>, Option<u64>, Option<u64>, Option<Option<String>>),
>)
    ensures
        r is Some <==> pull_record_of(line@) is Some,
        r matches Some(t) ==> pull_record_of(line@) == Some(exec_pull_view(t)),
{
    match serde_json::from_slice::<serde_json::Value>(line) {
        Ok(v) => {
            let status = v.get("status").and_then(|s| s.as_str()).map(String::from);
            let total = v.get("total").and_then(|t| t.as_u64());
            let completed = v.get("completed").and_then(|c| c.as_u64());
            let error = v.get("error").map(|e| e.as_str().map(String::from));
            Some((status, total, completed, error))
        },
        Err(_) => None,
    }
}

/// The snapshot one record yields: absent fields read as the empty
/// status and zero counters; a malformed line yields none.
pub open spec fn record_update(line: Seq<u8>) -> Seq<(Seq<char>, u64, u64)> {
    match pull_record_of(line) {
        Some((status, total, completed, _)) => seq![
            (
                match status {
                    Some(s) => s,
                    None => Seq::empty(),
                },
                match total {
                    Some(t) => t,
                    None => 0u64,
                },
                match completed {
                    Some(c) => c,
                    None => 0u64,
                },
            ),
        ],
        None => Seq::empty(),
    }
}

/// The error one record reports: only an `error` field that carries a
/// string aborts a pull.
pub open spec fn record_pull_error(line: Seq<u8>) -> Option<Seq<char>> {
    match pull_record_of(line) {
        Some((_, _, _, Some(Some(m)))) => Some(m),
        _ => None,
    }
}

/// All snapshots a sequence of records yields, in order, stopping right
/// after the first record that reports an error (whose own snapshot is
/// still delivered).
pub open spec fn pull_updates(lines: Seq<Seq<u8>>) -> Seq<(Seq<char>, u64, u64)>
    decreases lines.len(),
{
    if lines.len() == 0 {
        Seq::empty()
    } else if record_pull_error(lines[0]) is Some {
        record_update(lines[0])
    } else {
        record_update(lines[0]) + pull_updates(lines.skip(1))
    }
}

/// The first error a sequence of records reports, if any.
pub open spec fn pull_error(lines: Seq<Seq<u8>>) -> Option<Seq<char>>
    decreases lines.len(),
{
    if lines.len() == 0 {
        None
    } else if record_pull_error(lines[0]) is Some {
        record_pull_error(lines[0])
    } else {
        pull_error(lines.skip(1))
    }
}

/// One more clean record extends the snapshots and leaves the error
/// search open.
pub proof fn lemma_pull_push(lines: Seq<Seq<u8>>, l: Seq<u8>)
    requires
        pull_error(lines) is None,
    ensures
        pull_updates(lines.push(l)) == pull_updates(lines) + record_update(l),
        pull_error(lines.push(l)) == record_pull_error(l),
    decreases lines.len(),
{
    if lines.len() == 0 {
        assert(lines.push(l)[0] == l);
        assert(lines.push(l).skip(1) =~= Seq::<Seq<u8>>::empty());
        assert(pull_updates(lines) =~= Seq::<(Seq<char>, u64, u64)>::empty());
        if record_pull_error(l) is Some {
            assert(pull_updates(lines.push(l)) == record_update(lines.push(l)[0]));
            assert(pull_error(lines.push(l)) == record_pull_error(lines.push(l)[0]));
            assert(pull_updates(lines.push(l)) =~= pull_updates(lines) + record_update(l));
        } else {
            assert(pull_updates(lines.push(l)) == record_update(lines.push(l)[0]) + pull_updates(
                lines.push(l).skip(1),
            ));
            assert(pull_updates(lines.push(l).skip(1)) =~= Seq::<(Seq<char>, u64, u64)>::empty());
            assert(pull_error(lines.push(l).skip(1)) is None);
            assert(pull_updates(lines.push(l)) =~= pull_updates(lines) + record_update(l));
        }
    } else {
        assert(lines.push(l)[0] == lines[0]);
        assert(lines.push(l).skip(1) =~= lines.skip(1).push(l));
        lemma_pull_push(lines.skip(1), l);
        assert(pull_updates(lines.push(l)) =~= pull_updates(lines) + record_update(l));
    }
}

/// Once a record has reported an error, records after it change nothing.
pub proof fn lemma_pull_absorb(lines: Seq<Seq<u8>>, more: Seq<Seq<u8>>)
    requires
        pull_error(lines) is Some,
    ensures
        pull_updates(lines + more) == pull_updates(lines),
        pull_error(lines + more) == pull_error(lines),
    decreases lines.len(),
{
    assert(lines.len() > 0);
    assert((lines + more)[0] == lines[0]);
    assert((lines + more).skip(1) =~= lines.skip(1) + more);
    if record_pull_error(lines[0]) is Some {
    } else {
        lemma_pull_absorb(lines.skip(1), more);
    }
}

/// A malformed line changes nothing, wherever it stands: the pull
/// yields exactly the snapshots of the records that parse, in their
/// original relative order.
pub proof fn lemma_malformed_pull_line_ignored(a: Seq<Seq<u8>>, m: Seq<u8>, b: Seq<Seq<u8>>)
    requires
        pull_record_of(m) is None,
    ensures
        pull_updates(a + seq![m] + b) == pull_updates(a + b),
        pull_error(a + seq![m] + b) == pull_error(a + b),
    decreases a.len(),
{
    if a.len() == 0 {
        assert((a + seq![m] + b)[0] == m);
        assert(record_pull_error(m) is None);
        assert(record_update(m) =~= Seq::<(Seq<char>, u64, u64)>::empty());
        assert((a + seq![m] + b).skip(1) =~= b);
        assert(a + b =~= b);
        assert(pull_updates(a + seq![m] + b) =~= record_update(m) + pull_updates(b));
        assert(pull_updates(a + seq![m] + b) =~= pull_updates(a + b));
    } else {
        assert((a + seq![m] + b)[0] == a[0]);
        assert((a + b)[0] == a[0]);
        assert((a + seq![m] + b).skip(1) =~= a.skip(1) + seq![m] + b);
        assert((a + b).skip(1) =~= a.skip(1) + b);
        if record_pull_error(a[0]) is Some {
        } else {
            lemma_malformed_pull_line_ignored(a.skip(1), m, b);
        }
    }
}

/// The JSON body of a pull request; always streamed so progress can be
/// reported.
pub open spec fn spec_pull_body(model: Seq<char>) -> Seq<char> {
    "{\"name\":\""@ + spec_escape(model) + "\",\"stream\":true}"@
}

pub fn build_pull_request(model: &str) -> (r: String)
    ensures
        r@ == spec_pull_body(model@),
{
    let mut out: Vec<char> = Vec::new();
    push_str_chars(&mut out, "{\"name\":\"");
    push_escaped(&mut out, model);
    push_str_chars(&mut out, "\",\"stream\":true}");
    proof {
        assert(out@ =~= spec_pull_body(model@));
    }
    chars_to_string(&out)
}

/// Settle the transport outcome of a pull call before its stream is
/// read: an error naming the HTTP status when the server refused.
pub fn pull_http_check(status: u16) -> (r: Result<(), String>)
    ensures
        http_success(status) <==> r is Ok,
        !http_success(status) ==> (r matches Err(e) && e@ == "Failed to download model: HTTP "@
            + spec_dec(status as nat)),
{
    if 200 <= status && status < 300 {
        Ok(())
    } else {
        let mut out: Vec<char> = Vec::new();
        push_str_chars(&mut out, "Failed to download model: HTTP ");
        push_dec(&mut out, status as u64);
        Err(chars_to_string(&out))
    }
}

/// A model pull in progress: the decoder, and whether the server has
/// already reported an error.
pub struct PullSession {
    dec: NdjsonDecoder,
    failed: bool,
}

impl PullSession {
    /// All bytes fed so far.
    pub closed spec fn fed(&self) -> Seq<u8> {
        self.dec.fed()
    }

    /// The records decoded so far.
    pub closed spec fn lines(&self) -> Seq<Seq<u8>> {
        decoded(self.dec.fed())
    }

    pub closed spec fn wf(&self) -> bool {
        &&& self.dec.wf()
        &&& self.failed == (pull_error(decoded(self.dec.fed())) is Some)
    }

    pub closed spec fn has_failed(&self) -> bool {
        self.failed
    }

    pub fn new() -> (s: PullSession)
        ensures
            s.wf(),
            !s.has_failed(),
            s.fed() == Seq::<u8>::empty(),
            s.lines() == decoded(s.fed()),
            s.lines() == Seq::<Seq<u8>>::empty(),
    {
        let dec = NdjsonDecoder::new();
        proof {
            assert(decoded(Seq::<u8>::empty()) =~= Seq::<Seq<u8>>::empty());
        }
        PullSession { dec, failed: false }
    }

    /// Feed one network chunk.  Every snapshot completed by it comes back
    /// in decode order; a server-reported error comes back as the second
    /// component and ends the call.  The records are the decode of all
    /// bytes fed, so the cumulative output is a function of the
    /// concatenated stream alone, whatever the chunk boundaries.
    pub fn push(&mut self, chunk: &[u8]) -> (r: (Vec<PullUpdate>, Option<String>))
        requires
            old(self).wf(),
            !old(self).has_failed(),
        ensures
            final(self).wf(),
            final(self).fed() == old(self).fed() + chunk@,
            final(self).lines() == decoded(final(self).fed()),
            pull_updates(final(self).lines()) == pull_updates(old(self).lines()) + update_views(
                r.0@,
            ),
            r.1 is None <==> pull_error(final(self).lines()) is None,
            r.1 matches Some(e) ==> (pull_error(final(self).lines()) matches Some(m) && e@
                == "Ollama error: "@ + m),
            final(self).has_failed() == (r.1 is Some),
    {
        let ghost l0 = decoded(self.dec.fed());
        let lines = self.dec.push(chunk);
        let ghost lnew = views_of(lines@);
        let ghost lall = decoded(self.dec.fed());
        proof {
            assert(lall == l0 + lnew);
        }
        let mut updates: Vec<PullUpdate> = Vec::new();
        let mut err: Option<String> = None;
        let mut i: usize = 0;
        while i < lines.len() && err.is_none()
            invariant
                self.dec.wf(),
                decoded(self.dec.fed()) == lall,
                lall == l0 + lnew,
                lnew == views_of(lines@),
                pull_error(l0) is None,
                i <= lines@.len(),
                err is None ==> pull_error(l0 + lnew.take(i as int)) is None,
                err is None ==> pull_updates(l0 + lnew.take(i as int)) == pull_updates(l0)
                    + update_views(updates@),
                err matches Some(e) ==> (pull_error(lall) matches Some(m) && e@
                    == "Ollama error: "@ + m),
                err is Some ==> pull_updates(lall) == pull_updates(l0) + update_views(updates@),
            decreases lines@.len() - i,
        {
            let ghost processed = l0 + lnew.take(i as int);
            let ghost lv = lnew[i as int];
            proof {
                lemma_pull_push(processed, lv);
                assert(processed.push(lv) =~= l0 + lnew.take(i + 1 as int));
            }
            let line = &lines[i];
            match parse_pull_record(line.as_slice()) {
                None => {
                    proof {
                        assert(record_update(lv) =~= Seq::<(Seq<char>, u64, u64)>::empty());
                        assert(pull_updates(processed) + record_update(lv) =~= pull_updates(
                            processed,
                        ));
                    }
                },
                Some((status, total, completed, error)) => {
                    let s = match status {
                        Some(s) => s,
                        None => new_string(),
                    };
                    let t = match total {
                        Some(t) => t,
                        None => 0u64,
                    };
                    let c = match completed {
                        Some(c) => c,
                        None => 0u64,
                    };
                    let ghost before = updates@;
                    updates.push(PullUpdate { status: s, total: t, completed: c });
                    proof {
                        assert(update_views(updates@) =~= update_views(before).push(
                            (
                                updates@.last().status@,
                                updates@.last().total,
                                updates@.last().completed,
                            ),
                        ));
                        assert(pull_updates(processed) + record_update(lv) =~= pull_updates(l0)
                            + update_views(updates@));
                    }
                    match error {
                        Some(Some(m)) => {
                            let mut out: Vec<char> = Vec::new();
                            push_str_chars(&mut out, "Ollama error: ");
                            push_str_chars(&mut out, m.as_str());
                            err = Some(chars_to_string(&out));
                            proof {
                                assert(record_pull_error(lv) is Some);
                                assert(pull_error(l0 + lnew.take(i + 1 as int)) is Some);
                                lemma_pull_absorb(
                                    l0 + lnew.take(i + 1 as int),
                                    lnew.skip(i + 1 as int),
                                );
                                assert((l0 + lnew.take(i + 1 as int)) + lnew.skip(i + 1 as int)
                                    =~= lall);
                            }
                        },
                        _ => {},
                    }
                },
            }
            i = i + 1;
        }
        if err.is_some() {
            self.failed = true;
        }
        proof {
            if err is None {
                assert(lnew.take(lnew.len() as int) =~= lnew);
            }
        }
        (updates, err)
    }
}

/// An empty string, for a record that carries no status text.
fn new_string() -> (r: String)
    ensures
        r@ == Seq::<char>::empty(),
{
    String::new()
}

} // verus!
