//! Running host tools: bounded capture of their output, redaction of
//! secrets, and the errors reported for a run that timed out or failed.
use crate::error::{is_error, is_process_error, ApiError, ErrorDetails, ProcessOutput};
use crate::text;
use vstd::prelude::*;

verus! {

/// The most bytes kept of each output stream.
pub const MAX_CAPTURE_BYTES: usize = 1_048_576;

/// What is kept of one output stream while a tool runs.
#[derive(Debug, Clone)]
pub struct Capture {
    pub bytes: Vec<u8>,
    pub truncated: bool,
    pub done: bool,
    pub error: Option<String>,
}

/// What the reader of a stream reports.
#[derive(Debug, Clone)]
pub enum CaptureEvent {
    Chunk(Vec<u8>),
    Truncated,
    Done,
    Error(String),
}

pub fn new_capture() -> (c: Capture)
    ensures
        c.bytes@.len() == 0,
        !c.truncated && !c.done && c.error is None,
{
    Capture { bytes: Vec::new(), truncated: false, done: false, error: None }
}

/// How many bytes of a read of `count` bytes the reader passes on, when it
/// has passed on `retained` bytes so far.
pub open spec fn keep_of(retained: nat, count: nat) -> nat {
    let room = if retained < MAX_CAPTURE_BYTES { (MAX_CAPTURE_BYTES - retained) as nat } else { 0 };
    if room < count { room } else { count }
}

pub fn chunk_keep(retained: usize, count: usize) -> (r: usize)
    ensures
        r == keep_of(retained as nat, count as nat),
{
    let room = if retained < MAX_CAPTURE_BYTES { MAX_CAPTURE_BYTES - retained } else { 0 };
    if room < count { room } else { count }
}

/// What the capture holds: its bytes, whether it was cut, whether its
/// stream finished, and the read error, if any.
pub type CaptureState = (Seq<u8>, bool, bool, Option<Seq<char>>);

pub open spec fn capture_state(c: Capture) -> CaptureState {
    (c.bytes@, c.truncated, c.done, text::opt_view(c.error))
}

/// The effect of one event on a capture: a chunk is kept up to the limit
/// (and marks the capture truncated when cut), a truncation note marks it,
/// the end and a read error (whose message is kept) finish it.
pub open spec fn event_step(s: CaptureState, e: CaptureEvent) -> CaptureState {
    match e {
        CaptureEvent::Chunk(chunk) => {
            let keep = keep_of(s.0.len(), chunk@.len());
            (s.0 + chunk@.take(keep as int), s.1 || keep < chunk@.len(), s.2, s.3)
        },
        CaptureEvent::Truncated => (s.0, true, s.2, s.3),
        CaptureEvent::Done => (s.0, s.1, true, s.3),
        CaptureEvent::Error(m) => (s.0, s.1, true, Some("Unable to read process output: "@ + m@)),
    }
}

pub open spec fn after_event(c: Capture, e: CaptureEvent) -> CaptureState {
    event_step(capture_state(c), e)
}

/// The capture after a run of events, applied in order.
pub open spec fn after_events(s: CaptureState, events: Seq<CaptureEvent>) -> CaptureState
    decreases events.len(),
{
    if events.len() == 0 {
        s
    } else {
        event_step(after_events(s, events.drop_last()), events.last())
    }
}

pub fn apply_event(capture: &mut Capture, event: CaptureEvent)
    ensures
        (final(capture).bytes@, final(capture).truncated, final(capture).done, text::opt_view(final(capture).error))
            == after_event(*old(capture), event),
{
    match event {
        CaptureEvent::Chunk(chunk) => {
            let keep = chunk_keep(capture.bytes.len(), chunk.len());
            let ghost start = capture.bytes@;
            let ghost t0 = capture.truncated;
            let ghost d0 = capture.done;
            let ghost e0 = text::opt_view(capture.error);
            let mut i: usize = 0;
            while i < keep
                invariant
                    keep <= chunk@.len(),
                    i <= keep,
                    capture.bytes@ == start + chunk@.take(i as int),
                    capture.truncated == t0,
                    capture.done == d0,
                    text::opt_view(capture.error) == e0,
                decreases keep - i,
            {
                capture.bytes.push(chunk[i]);
                assert(chunk@.take(i + 1) =~= chunk@.take(i as int).push(chunk@[i as int]));
                i = i + 1;
            }
            if keep < chunk.len() {
                capture.truncated = true;
            }
            assert(capture.bytes@ == start + chunk@.take(keep as int));
        },
        CaptureEvent::Truncated => {
            capture.truncated = true;
        },
        CaptureEvent::Done => {
            capture.done = true;
        },
        CaptureEvent::Error(m) => {
            capture.error = Some(text::concat_strs("Unable to read process output: ", m.as_str()));
            capture.done = true;
        },
    }
}

/// However many events arrive, a capture never holds more than the limit,
/// keeps every byte it held, and never clears its truncation or end marks.
pub proof fn lemma_capture_stays_bounded(s: CaptureState, events: Seq<CaptureEvent>)
    requires
        s.0.len() <= MAX_CAPTURE_BYTES,
    ensures
        after_events(s, events).0.len() <= MAX_CAPTURE_BYTES,
        s.0.is_prefix_of(after_events(s, events).0),
        s.1 ==> after_events(s, events).1,
        s.2 ==> after_events(s, events).2,
    decreases events.len(),
{
    if events.len() > 0 {
        lemma_capture_stays_bounded(s, events.drop_last());
        let p = after_events(s, events.drop_last());
        match events.last() {
            CaptureEvent::Chunk(chunk) => {
                let keep = keep_of(p.0.len(), chunk@.len());
                let q = p.0 + chunk@.take(keep as int);
                assert(q.len() <= MAX_CAPTURE_BYTES);
                assert(s.0.is_prefix_of(q)) by {
                    assert forall|i: int| 0 <= i < s.0.len() implies q[i] == s.0[i] by {
                        assert(q[i] == p.0[i]);
                    }
                }
            },
            _ => {},
        }
    }
}

/// Applies the events that a reader reported, in order.
pub fn drain_events(capture: &mut Capture, events: Vec<CaptureEvent>)
    ensures
        capture_state(*final(capture)) == after_events(capture_state(*old(capture)), events@),
{
    let ghost start = capture_state(*capture);
    let ghost all = events@;
    let n = events.len();
    let mut rest = events;
    let mut k: usize = 0;
    assert(all.skip(0) =~= all);
    while rest.len() > 0
        invariant
            k <= all.len(),
            all.len() == n,
            rest@ == all.skip(k as int),
            capture_state(*capture) == after_events(start, all.take(k as int)),
        decreases rest@.len(),
    {
        let event = rest.remove(0);
        assert(all.take(k + 1).drop_last() =~= all.take(k as int));
        assert(all.take(k + 1).last() == event);
        apply_event(capture, event);
        assert(rest@ =~= all.skip(k + 1));
        k = k + 1;
    }
    assert(all.take(k as int) =~= all);
}

/// What one read of `data` does to a capture, through the events its reader
/// sends: the bytes are kept up to the limit, and a cut marks it truncated.
pub open spec fn read_step(s: CaptureState, data: Seq<u8>) -> CaptureState {
    let keep = keep_of(s.0.len(), data.len());
    (s.0 + data.take(keep as int), s.1 || keep < data.len(), s.2, s.3)
}

/// The capture after a run of reads, in order.
pub open spec fn after_reads(s: CaptureState, reads: Seq<Seq<u8>>) -> CaptureState
    decreases reads.len(),
{
    if reads.len() == 0 {
        s
    } else {
        read_step(after_reads(s, reads.drop_last()), reads.last())
    }
}

/// Every byte of a run of reads, in order.
pub open spec fn read_bytes(reads: Seq<Seq<u8>>) -> Seq<u8>
    decreases reads.len(),
{
    if reads.len() == 0 {
        Seq::empty()
    } else {
        read_bytes(reads.drop_last()) + reads.last()
    }
}

/// The events the reader of a stream sends for one read of `chunk`, with
/// its count of bytes passed on and whether it has reported a cut: the part
/// that fits under the limit, if any, and a truncation note the first time
/// a read does not fit. Applied to a capture that holds as many bytes as the
/// reader passed on (and is marked truncated once the reader reported a
/// cut), they have the effect of `read_step`.
pub fn reader_events(retained: usize, reported: bool, chunk: &[u8]) -> (r: (Vec<CaptureEvent>, usize, bool))
    requires
        retained <= MAX_CAPTURE_BYTES,
    ensures
        r.1 == retained + keep_of(retained as nat, chunk@.len()),
        r.1 <= MAX_CAPTURE_BYTES,
        r.2 == (reported || keep_of(retained as nat, chunk@.len()) < chunk@.len()),
        forall|s: CaptureState|
            s.0.len() == retained && (reported ==> s.1) ==> #[trigger] after_events(s, r.0@) == read_step(
                s,
                chunk@,
            ),
{
    let keep = chunk_keep(retained, chunk.len());
    let mut events: Vec<CaptureEvent> = Vec::new();
    let mut kept: Vec<u8> = Vec::new();
    if keep > 0 {
        let mut i: usize = 0;
        while i < keep
            invariant
                keep <= chunk@.len(),
                i <= keep,
                kept@ == chunk@.take(i as int),
            decreases keep - i,
        {
            kept.push(chunk[i]);
            assert(chunk@.take(i + 1) =~= chunk@.take(i as int).push(chunk@[i as int]));
            i = i + 1;
        }
        events.push(CaptureEvent::Chunk(kept));
    }
    let cut = keep < chunk.len();
    if cut && !reported {
        events.push(CaptureEvent::Truncated);
    }
    proof {
        reveal_with_fuel(after_events, 3);
        assert forall|s: CaptureState| s.0.len() == retained && (reported ==> s.1) implies #[trigger] after_events(
            s,
            events@,
        ) == read_step(s, chunk@) by {
            if keep > 0 {
                let c = events@[0];
                assert(c matches CaptureEvent::Chunk(v) && v@ == chunk@.take(keep as int));
                let s1 = event_step(s, c);
                assert(s1 == (s.0 + chunk@.take(keep as int), s.1, s.2, s.3));
                if cut && !reported {
                    assert(events@ =~= seq![c, CaptureEvent::Truncated]);
                    assert(events@.drop_last() =~= seq![c]);
                    assert(seq![c].drop_last() =~= Seq::<CaptureEvent>::empty());
                } else {
                    assert(events@ =~= seq![c]);
                    assert(seq![c].drop_last() =~= Seq::<CaptureEvent>::empty());
                }
            } else {
                assert(chunk@.take(0) =~= Seq::<u8>::empty());
                assert(s.0 + chunk@.take(0) =~= s.0);
                if cut && !reported {
                    assert(events@ =~= seq![CaptureEvent::Truncated]);
                    assert(events@.drop_last() =~= Seq::<CaptureEvent>::empty());
                } else {
                    assert(events@ =~= Seq::<CaptureEvent>::empty());
                }
            }
        }
    }
    (events, retained + keep, reported || cut)
}

/// Whatever the sizes of the reads, a capture that starts empty holds the
/// first `MAX_CAPTURE_BYTES` bytes of the stream, and is marked truncated
/// exactly when the stream had more.
pub proof fn lemma_capture_of_reads(reads: Seq<Seq<u8>>)
    ensures
        after_reads((Seq::empty(), false, false, None), reads).0 == read_bytes(reads).take(
            if read_bytes(reads).len() < MAX_CAPTURE_BYTES { read_bytes(reads).len() as int } else { MAX_CAPTURE_BYTES as int },
        ),
        after_reads((Seq::empty(), false, false, None), reads).1 == (read_bytes(reads).len() > MAX_CAPTURE_BYTES),
        !after_reads((Seq::empty(), false, false, None), reads).2,
        after_reads((Seq::empty(), false, false, None), reads).3 is None,
    decreases reads.len(),
{
    let init: CaptureState = (Seq::empty(), false, false, None);
    if reads.len() == 0 {
        assert(read_bytes(reads) =~= Seq::<u8>::empty());
        assert(Seq::<u8>::empty().take(0) =~= Seq::<u8>::empty());
    } else {
        let prefix = reads.drop_last();
        let d = reads.last();
        lemma_capture_of_reads(prefix);
        let f = read_bytes(prefix);
        let p = after_reads(init, prefix);
        let all = f + d;
        assert(read_bytes(reads) == all);
        let keep = keep_of(p.0.len(), d.len());
        if f.len() >= MAX_CAPTURE_BYTES {
            assert(keep == 0);
            assert(p.0 + d.take(0) =~= p.0);
            assert(all.take(MAX_CAPTURE_BYTES as int) =~= f.take(MAX_CAPTURE_BYTES as int));
        } else {
            assert(p.0 == f.take(f.len() as int));
            assert(f.take(f.len() as int) =~= f);
            assert(p.0 + d.take(keep as int) =~= all.take((f.len() + keep) as int));
        }
    }
}

/// When the pipes did not both finish within the grace period after the
/// tool exited, the unfinished streams count as truncated.
pub fn close_captures(out: &mut Capture, err: &mut Capture)
    ensures
        final(out).bytes@ == old(out).bytes@ && final(err).bytes@ == old(err).bytes@,
        final(out).done == old(out).done && final(err).done == old(err).done,
        text::opt_view(final(out).error) == text::opt_view(old(out).error),
        text::opt_view(final(err).error) == text::opt_view(old(err).error),
        !(old(out).done && old(err).done) ==> final(out).truncated == (old(out).truncated || !old(out).done)
            && final(err).truncated == (old(err).truncated || !old(err).done),
        old(out).done && old(err).done ==> final(out).truncated == old(out).truncated && final(err).truncated
            == old(err).truncated,
{
    if !(out.done && err.done) {
        out.truncated = out.truncated || !out.done;
        err.truncated = err.truncated || !err.done;
    }
}

/// `str::replace(pat, rep)` for a non-empty pattern: every occurrence, left
/// to right, without overlap.
pub open spec fn replace_all(s: Seq<char>, pat: Seq<char>, rep: Seq<char>) -> Seq<char>
    decreases s.len(),
{
    if pat.len() == 0 {
        s
    } else {
        match text::find(s, pat) {
            None => s,
            Some(i) => if 0 <= i && i + pat.len() <= s.len() {
                s.take(i) + rep + replace_all(s.skip(i + pat.len()), pat, rep)
            } else {
                s
            },
        }
    }
}

fn replace_all_exec(s: &[char], pat: &[char], rep: &[char]) -> (r: Vec<char>)
    ensures
        r@ == replace_all(s@, pat@, rep@),
{
    if pat.len() == 0 {
        return text::copy_chars(s);
    }
    let mut out: Vec<char> = Vec::new();
    let mut rest = text::copy_chars(s);
    let ghost target = replace_all(s@, pat@, rep@);
    while rest.len() > 0
        invariant
            pat@.len() > 0,
            target == replace_all(s@, pat@, rep@),
            out@ + replace_all(rest@, pat@, rep@) == target,
        decreases rest@.len(),
    {
        match text::find_exec(&rest, pat) {
            None => {
                text::append(&mut out, &rest);
                assert(out@ == target);
                return out;
            },
            Some(i) => {
                proof {
                    text::lemma_find_from_bounds(rest@, pat@, 0);
                }
                let head = text::slice_chars(&rest, 0, i);
                text::append(&mut out, &head);
                text::append(&mut out, rep);
                let tail = text::slice_chars(&rest, i + pat.len(), rest.len());
                assert(head@ =~= rest@.take(i as int));
                assert(tail@ =~= rest@.skip(i + pat@.len()));
                assert(out@ + replace_all(tail@, pat@, rep@) =~= target);
                rest = tail;
            },
        }
    }
    assert(rest@ =~= Seq::<char>::empty());
    assert(replace_all(rest@, pat@, rep@) == rest@) by {
        assert(text::find(rest@, pat@) is None);
    }
    assert(out@ =~= target);
    out
}

/// Each non-empty secret replaced by `******`, one secret after another.
pub open spec fn redacted(s: Seq<char>, secrets: Seq<Seq<char>>) -> Seq<char>
    decreases secrets.len(),
{
    if secrets.len() == 0 {
        s
    } else {
        replace_all(redacted(s, secrets.drop_last()), secrets.last(), "******"@)
    }
}

pub fn redact(s: &str, secrets: &[String]) -> (r: String)
    ensures
        r@ == redacted(s@, text::string_views(secrets@)),
{
    let mut cur = text::chars_of(s);
    let stars = text::chars_of("******");
    let mut i: usize = 0;
    while i < secrets.len()
        invariant
            i <= secrets@.len(),
            stars@ == "******"@,
            cur@ == redacted(s@, text::string_views(secrets@.take(i as int))),
        decreases secrets@.len() - i,
    {
        assert(text::string_views(secrets@.take(i + 1)).drop_last() =~= text::string_views(secrets@.take(i as int)));
        let pat = text::chars_of(secrets[i].as_str());
        cur = replace_all_exec(&cur, &pat, &stars);
        i = i + 1;
    }
    assert(secrets@.take(secrets@.len() as int) =~= secrets@);
    text::string_of(&cur)
}

/// The output of a finished run: each stream's decoded text with trailing
/// whitespace removed and the secrets redacted.
pub fn finished_output(
    program: &str,
    exit_code: Option<i32>,
    stdout: &str,
    stderr: &str,
    secrets: &[String],
    timed_out: bool,
    truncated: bool,
    duration_ms: u64,
) -> (r: ProcessOutput)
    ensures
        r.program@ == program@,
        r.exit_code == exit_code,
        r.stdout@ == redacted(text::trim_end(stdout@), text::string_views(secrets@)),
        r.stderr@ == redacted(text::trim_end(stderr@), text::string_views(secrets@)),
        r.timed_out == timed_out,
        r.truncated == truncated,
        r.duration_ms == duration_ms,
{
    let out = text::string_of(&text::trim_end_exec(&text::chars_of(stdout)));
    let err = text::string_of(&text::trim_end_exec(&text::chars_of(stderr)));
    ProcessOutput {
        program: text::copy_str(program),
        exit_code,
        stdout: redact(out.as_str(), secrets),
        stderr: redact(err.as_str(), secrets),
        timed_out,
        truncated,
        duration_ms,
    }
}

/// The message of a failed run: the trimmed error output, or the trimmed
/// standard output when that is blank; with neither, the exit status.
pub open spec fn failure_text(program: Seq<char>, o: ProcessOutput) -> Seq<char> {
    let summary = if text::trim(o.stderr@).len() == 0 {
        text::trim(o.stdout@)
    } else {
        text::trim(o.stderr@)
    };
    if summary.len() == 0 {
        program + " exited with status "@ + text::debug_status(o.exit_code)
    } else {
        program + ": "@ + summary
    }
}

/// Accepts a run that finished in time with exit status 0; otherwise the
/// timeout or failure error, carrying the output.
pub fn check_output(program: &str, timeout_ms: u64, output: ProcessOutput) -> (r: Result<ProcessOutput, ApiError>)
    ensures
        output.timed_out ==> (r matches Err(e) && is_process_error(
            e,
            "process_timeout"@,
            program@ + " did not finish within "@ + text::decimal(timeout_ms as nat) + " ms"@,
            output,
        )),
        !output.timed_out && output.exit_code != Some(0i32) ==> (r matches Err(e) && is_process_error(
            e,
            "process_failed"@,
            failure_text(program@, output),
            output,
        )),
        !output.timed_out && output.exit_code == Some(0i32) ==> (r matches Ok(o) && crate::error::same_output(o, output)),
{
    if output.timed_out {
        let mut m = text::chars_of(program);
        text::append_str(&mut m, " did not finish within ");
        text::append(&mut m, &text::decimal_exec(timeout_ms));
        text::append_str(&mut m, " ms");
        return Err(
            ApiError::with_message("process_timeout", text::string_of(&m)).with_details(
                ErrorDetails::Process(output.copied()),
            ),
        );
    }
    let ok = match output.exit_code {
        Some(c) => c == 0,
        None => false,
    };
    if !ok {
        let e = text::trim_exec(&text::chars_of(output.stderr.as_str()));
        let summary = if e.len() == 0 {
            text::trim_exec(&text::chars_of(output.stdout.as_str()))
        } else {
            e
        };
        let mut m = text::chars_of(program);
        if summary.len() == 0 {
            text::append_str(&mut m, " exited with status ");
            text::append_str(&mut m, text::debug_status_string(output.exit_code).as_str());
        } else {
            text::append_str(&mut m, ": ");
            text::append(&mut m, &summary);
        }
        return Err(
            ApiError::with_message("process_failed", text::string_of(&m)).with_details(
                ErrorDetails::Process(output.copied()),
            ),
        );
    }
    let o = output.copied();
    Ok(o)
}

/// The error when a tool cannot be started: `tool_not_found` when the
/// executable does not exist.
pub fn spawn_error(program: &str, not_found: bool, reason: &str) -> (e: ApiError)
    ensures
        is_error(
            e,
            if not_found { "tool_not_found"@ } else { "process_spawn_error"@ },
            "Unable to start "@ + program@ + ": "@ + reason@,
        ),
{
    let mut m = text::chars_of("Unable to start ");
    text::append_str(&mut m, program);
    text::append_str(&mut m, ": ");
    text::append_str(&mut m, reason);
    let code = if not_found { "tool_not_found" } else { "process_spawn_error" };
    ApiError::with_message(code, text::string_of(&m))
}

} // verus!
