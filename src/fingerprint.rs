//! Stable grouping keys for events.
use vstd::prelude::*;
use vstd::utf8::*;

use crate::hashing::{blake3_hex, digest_hex, is_lower_hex};
use crate::normalize::{event_of, frame_function, frame_of, normalized_path};
use crate::text::ascii_lower;
use crate::types::{Event, Fingerprint, Frame, InboundEvent};

verus! {

/// `|file:function` for each frame, in order.
pub open spec fn frames_text(frames: Seq<Frame>) -> Seq<char>
    decreases frames.len(),
{
    if frames.len() == 0 {
        Seq::<char>::empty()
    } else {
        let f = frames.last();
        frames_text(frames.drop_last()) + "|"@ + f.file@ + ":"@ + f.function@
    }
}

/// Number of frames that enter the fingerprint.
pub open spec fn frames_used(n: int, max_frames: int) -> int {
    if n < max_frames {
        n
    } else {
        max_frames
    }
}

/// The text whose digest is the fingerprint.
pub open spec fn fingerprint_input(
    exception_type: Seq<char>,
    service: Seq<char>,
    environment: Seq<char>,
    frames: Seq<Frame>,
    max_frames: int,
) -> Seq<char> {
    exception_type + "|"@ + service + "|"@ + environment + frames_text(
        frames.take(frames_used(frames.len() as int, max_frames)),
    )
}

/// The fingerprint of an event: the first 32 hex digits of the digest of its
/// exception type, service, environment and first `max_frames` frames.
pub open spec fn fingerprint_of(e: Event, max_frames: int) -> Seq<char> {
    blake3_hex(
        encode_utf8(
            fingerprint_input(e.exception_type@, e.service@, e.environment@, e.frames@, max_frames),
        ),
    ).subrange(0, 32)
}

/// Computes the fingerprint of an event from its exception type, service,
/// environment and its first `max_frames` normalized frames.
pub fn compute(event: &Event, max_frames: usize) -> (r: Fingerprint)
    ensures
        r.0@ == fingerprint_of(*event, max_frames as int),
        r.0@.len() == 32,
        forall|i: int| 0 <= i < 32 ==> is_lower_hex(#[trigger] r.0@[i]),
{
    let mut s = String::from_str(event.exception_type.as_str());
    s.append("|");
    s.append(event.service.as_str());
    s.append("|");
    s.append(event.environment.as_str());
    let ghost head = s@;
    let n: usize = if event.frames.len() < max_frames {
        event.frames.len()
    } else {
        max_frames
    };
    let mut k: usize = 0;
    while k < n
        invariant
            n <= event.frames@.len(),
            k <= n,
            s@ == head + frames_text(event.frames@.take(k as int)),
        decreases n - k,
    {
        let f = &event.frames[k];
        s.append("|");
        s.append(f.file.as_str());
        s.append(":");
        s.append(f.function.as_str());
        proof {
            let t = event.frames@.take(k + 1);
            assert(t.drop_last() =~= event.frames@.take(k as int));
            assert(t.last() == *f);
        }
        k += 1;
    }
    proof {
        assert(s@ =~= fingerprint_input(
            event.exception_type@,
            event.service@,
            event.environment@,
            event.frames@,
            max_frames as int,
        ));
    }
    let h = digest_hex(s.as_str().as_bytes());
    fingerprint_from_digest(h.as_str())
}

/// The fingerprint carried by a hex digest: its first 32 digits.
pub fn fingerprint_from_digest(hex: &str) -> (r: Fingerprint)
    requires
        hex@.len() >= 32,
    ensures
        r.0@ == hex@.subrange(0, 32),
{
    Fingerprint(String::from_str(hex.substring_char(0, 32)))
}

/// Events that agree on exception type, service, environment and on the
/// first `max_frames` frames have the same fingerprint, whatever follows.
pub proof fn fingerprint_depends_on_key(e1: Event, e2: Event, max_frames: int)
    requires
        0 <= max_frames,
        e1.exception_type@ == e2.exception_type@,
        e1.service@ == e2.service@,
        e1.environment@ == e2.environment@,
        frames_used(e1.frames@.len() as int, max_frames) == frames_used(
            e2.frames@.len() as int,
            max_frames,
        ),
        forall|i: int|
            0 <= i < frames_used(e1.frames@.len() as int, max_frames) ==> (#[trigger] e1.frames@[i]).file@
                == e2.frames@[i].file@ && e1.frames@[i].function@ == e2.frames@[i].function@,
    ensures
        fingerprint_of(e1, max_frames) == fingerprint_of(e2, max_frames),
{
    let n = frames_used(e1.frames@.len() as int, max_frames);
    lemma_frames_text_views(e1.frames@.take(n), e2.frames@.take(n));
}

proof fn lemma_frames_text_views(a: Seq<Frame>, b: Seq<Frame>)
    requires
        a.len() == b.len(),
        forall|i: int| 0 <= i < a.len() ==> (#[trigger] a[i]).file@ == b[i].file@ && a[i].function@ == b[i].function@,
    ensures
        frames_text(a) == frames_text(b),
    decreases a.len(),
{
    if a.len() > 0 {
        lemma_frames_text_views(a.drop_last(), b.drop_last());
    }
}

/// Two inbound events that agree on exception type, on service and
/// environment up to ASCII case, and, over the first `max_frames` frames,
/// on each normalized path and function name, get the same fingerprint once
/// normalized: line numbers, path case and slash style, and frames past the
/// first `max_frames` play no part.
pub proof fn fingerprint_stable(
    raw1: InboundEvent,
    raw2: InboundEvent,
    e1: Event,
    e2: Event,
    max_frames: int,
)
    requires
        0 <= max_frames,
        event_of(raw1, e1),
        event_of(raw2, e2),
        raw1.exception_type@ == raw2.exception_type@,
        ascii_lower(raw1.service@) == ascii_lower(raw2.service@),
        ascii_lower(raw1.environment@) == ascii_lower(raw2.environment@),
        frames_used(raw1.stacktrace@.len() as int, max_frames) == frames_used(
            raw2.stacktrace@.len() as int,
            max_frames,
        ),
        forall|i: int|
            0 <= i < frames_used(raw1.stacktrace@.len() as int, max_frames) ==> normalized_path(
                (#[trigger] raw1.stacktrace@[i]).file@,
            ) == normalized_path(raw2.stacktrace@[i].file@) && frame_function(raw1.stacktrace@[i])
                == frame_function(raw2.stacktrace@[i]),
    ensures
        fingerprint_of(e1, max_frames) == fingerprint_of(e2, max_frames),
{
    let n = frames_used(raw1.stacktrace@.len() as int, max_frames);
    assert forall|i: int| 0 <= i < n implies (#[trigger] e1.frames@[i]).file@ == e2.frames@[i].file@
        && e1.frames@[i].function@ == e2.frames@[i].function@ by {
        assert(frame_of(raw1.stacktrace@[i], e1.frames@[i]));
        assert(frame_of(raw2.stacktrace@[i], e2.frames@[i]));
    }
    fingerprint_depends_on_key(e1, e2, max_frames);
}

/// Changing only the exception type, only the service or only the
/// environment changes the bytes that are digested. (That the digests then
/// differ is the collision resistance of BLAKE3, which is not proved here.)
pub proof fn fingerprint_input_sensitive(e1: Event, e2: Event, max_frames: int)
    requires
        e1.frames@ == e2.frames@,
        (e1.exception_type@ != e2.exception_type@ && e1.service@ == e2.service@
            && e1.environment@ == e2.environment@) || (e1.exception_type@ == e2.exception_type@
            && e1.service@ != e2.service@ && e1.environment@ == e2.environment@) || (
        e1.exception_type@ == e2.exception_type@ && e1.service@ == e2.service@
            && e1.environment@ != e2.environment@),
    ensures
        encode_utf8(
            fingerprint_input(e1.exception_type@, e1.service@, e1.environment@, e1.frames@, max_frames),
        ) != encode_utf8(
            fingerprint_input(e2.exception_type@, e2.service@, e2.environment@, e2.frames@, max_frames),
        ),
{
    let t1 = fingerprint_input(e1.exception_type@, e1.service@, e1.environment@, e1.frames@, max_frames);
    let t2 = fingerprint_input(e2.exception_type@, e2.service@, e2.environment@, e2.frames@, max_frames);
    let tail = frames_text(e1.frames@.take(frames_used(e1.frames@.len() as int, max_frames)));
    let bar = "|"@;
    if t1 == t2 {
        if e1.exception_type@ != e2.exception_type@ {
            let rest = bar + e1.service@ + bar + e1.environment@ + tail;
            assert(t1 =~= e1.exception_type@ + rest);
            assert(t2 =~= e2.exception_type@ + rest);
            lemma_same_suffix(e1.exception_type@, e2.exception_type@, rest);
        } else if e1.service@ != e2.service@ {
            let pre = e1.exception_type@ + bar;
            let post = bar + e1.environment@ + tail;
            assert(t1 =~= pre + e1.service@ + post);
            assert(t2 =~= pre + e2.service@ + post);
            lemma_same_frame(pre, e1.service@, e2.service@, post);
        } else {
            let pre = e1.exception_type@ + bar + e1.service@ + bar;
            assert(t1 =~= pre + e1.environment@ + tail);
            assert(t2 =~= pre + e2.environment@ + tail);
            lemma_same_frame(pre, e1.environment@, e2.environment@, tail);
        }
    }
    encode_utf8_decode_utf8(t1);
    encode_utf8_decode_utf8(t2);
}

proof fn lemma_same_suffix(a: Seq<char>, b: Seq<char>, rest: Seq<char>)
    requires
        a + rest == b + rest,
    ensures
        a == b,
{
    assert((a + rest).len() == a.len() + rest.len());
    assert((b + rest).len() == b.len() + rest.len());
    assert(a.len() == b.len());
    assert forall|i: int| 0 <= i < a.len() implies a[i] == b[i] by {
        assert((a + rest)[i] == a[i]);
        assert((b + rest)[i] == b[i]);
    }
    assert(a =~= b);
}

proof fn lemma_same_frame(pre: Seq<char>, a: Seq<char>, b: Seq<char>, post: Seq<char>)
    requires
        pre + a + post == pre + b + post,
    ensures
        a == b,
{
    let x = pre + a + post;
    let y = pre + b + post;
    assert(x.len() == pre.len() + a.len() + post.len());
    assert(y.len() == pre.len() + b.len() + post.len());
    assert forall|i: int| 0 <= i < a.len() implies a[i] == b[i] by {
        assert(x[pre.len() + i] == a[i]);
        assert(y[pre.len() + i] == b[i]);
    }
    assert(a =~= b);
}

} // verus!
