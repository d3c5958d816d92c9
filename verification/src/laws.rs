//! Proved properties of whole upload runs: what a run of the orchestrator
//! does for every payload, ceiling and failure point.

use vstd::prelude::*;
use crate::error::ErrorModel;
use crate::media::{spec_media_type_of, MediaType};
use crate::meme::{MemeModel, StoredFileModel};
use crate::orchestrator::{spec_step, ActionModel, ConfigModel, EventModel, StateModel};

verus! {

/// Folds [`spec_step`] over a sequence of events. A run draws at most one
/// UUID stem (locating the field) and one clock reading (completing), so one
/// `fresh` and one `now` serve every step.
pub open spec fn spec_run(
    cfg: ConfigModel,
    s: StateModel,
    evs: Seq<EventModel>,
    fresh: Seq<char>,
    now: i64,
) -> (StateModel, Seq<ActionModel>)
    decreases evs.len(),
{
    if evs.len() == 0 {
        (s, Seq::empty())
    } else {
        let first = spec_step(cfg, s, evs[0], fresh, now);
        let rest = spec_run(cfg, first.0, evs.drop_first(), fresh, now);
        (rest.0, seq![first.1] + rest.1)
    }
}

/// The events of a payload delivered as `chunks`: each chunk is followed by
/// the acknowledgement of its write, in arrival order.
pub open spec fn pair_events(chunks: Seq<Seq<u8>>) -> Seq<EventModel>
    decreases chunks.len(),
{
    if chunks.len() == 0 {
        Seq::empty()
    } else {
        seq![EventModel::Chunk { data: chunks[0] }, EventModel::WriteDone] + pair_events(
            chunks.drop_first(),
        )
    }
}

/// The actions a cleanly streamed payload of `chunks` draws: each chunk is
/// written, then the next one is read.
pub open spec fn pair_actions(chunks: Seq<Seq<u8>>) -> Seq<ActionModel>
    decreases chunks.len(),
{
    if chunks.len() == 0 {
        Seq::empty()
    } else {
        seq![ActionModel::Write { data: chunks[0] }, ActionModel::ReadChunk] + pair_actions(
            chunks.drop_first(),
        )
    }
}

/// The total byte size of a chunk sequence.
pub open spec fn sum_len(chunks: Seq<Seq<u8>>) -> int
    decreases chunks.len(),
{
    if chunks.len() == 0 {
        0
    } else {
        chunks[0].len() + sum_len(chunks.drop_first())
    }
}

/// The payload a chunk sequence carries: its chunks joined in order.
pub open spec fn concat_bytes(chunks: Seq<Seq<u8>>) -> Seq<u8>
    decreases chunks.len(),
{
    if chunks.len() == 0 {
        Seq::empty()
    } else {
        chunks[0] + concat_bytes(chunks.drop_first())
    }
}

/// The chunks an action trace hands to the sink, in order.
pub open spec fn writes_of(acts: Seq<ActionModel>) -> Seq<Seq<u8>>
    decreases acts.len(),
{
    if acts.len() == 0 {
        Seq::empty()
    } else {
        let rest = writes_of(acts.drop_first());
        match acts[0] {
            ActionModel::Write { data } => seq![data] + rest,
            _ => rest,
        }
    }
}

/// The names an action trace creates files under, in order.
pub open spec fn opens_of(acts: Seq<ActionModel>) -> Seq<Seq<char>>
    decreases acts.len(),
{
    if acts.len() == 0 {
        Seq::empty()
    } else {
        let rest = opens_of(acts.drop_first());
        match acts[0] {
            ActionModel::OpenSink { name } => seq![name] + rest,
            _ => rest,
        }
    }
}

/// The names an action trace asks to delete, in order.
pub open spec fn cleanups_of(acts: Seq<ActionModel>) -> Seq<Seq<char>>
    decreases acts.len(),
{
    if acts.len() == 0 {
        Seq::empty()
    } else {
        let rest = cleanups_of(acts.drop_first());
        match acts[0] {
            ActionModel::Cleanup { name } => seq![name] + rest,
            _ => rest,
        }
    }
}

/// A chunk sequence's total size is never negative.
pub proof fn lemma_sum_len_nonneg(chunks: Seq<Seq<u8>>)
    ensures
        sum_len(chunks) >= 0,
    decreases chunks.len(),
{
    if chunks.len() > 0 {
        lemma_sum_len_nonneg(chunks.drop_first());
    }
}

/// The joined payload is exactly as long as the chunk sizes add up to.
pub proof fn lemma_concat_bytes_len(chunks: Seq<Seq<u8>>)
    ensures
        concat_bytes(chunks).len() == sum_len(chunks),
    decreases chunks.len(),
{
    if chunks.len() > 0 {
        lemma_concat_bytes_len(chunks.drop_first());
    }
}

/// Splitting a run at an event boundary splits its actions there too.
pub proof fn lemma_spec_run_concat(
    cfg: ConfigModel,
    s: StateModel,
    evs1: Seq<EventModel>,
    evs2: Seq<EventModel>,
    fresh: Seq<char>,
    now: i64,
)
    ensures
        ({
            let first = spec_run(cfg, s, evs1, fresh, now);
            let second = spec_run(cfg, first.0, evs2, fresh, now);
            spec_run(cfg, s, evs1 + evs2, fresh, now) == (second.0, first.1 + second.1)
        }),
    decreases evs1.len(),
{
    let first = spec_run(cfg, s, evs1, fresh, now);
    let second = spec_run(cfg, first.0, evs2, fresh, now);
    if evs1.len() == 0 {
        assert(evs1 + evs2 =~= evs2);
        assert(first.1 + second.1 =~= second.1);
    } else {
        let step0 = spec_step(cfg, s, evs1[0], fresh, now);
        assert((evs1 + evs2)[0] == evs1[0]);
        assert((evs1 + evs2).drop_first() =~= evs1.drop_first() + evs2);
        lemma_spec_run_concat(cfg, step0.0, evs1.drop_first(), evs2, fresh, now);
        let firstrest = spec_run(cfg, step0.0, evs1.drop_first(), fresh, now);
        assert(seq![step0.1] + (firstrest.1 + second.1) =~= (seq![step0.1] + firstrest.1)
            + second.1);
    }
}

/// Writes split across a trace boundary like the trace itself.
pub proof fn lemma_writes_of_concat(a: Seq<ActionModel>, b: Seq<ActionModel>)
    ensures
        writes_of(a + b) == writes_of(a) + writes_of(b),
    decreases a.len(),
{
    if a.len() == 0 {
        assert(a + b =~= b);
        assert(writes_of(a) + writes_of(b) =~= writes_of(b));
    } else {
        assert((a + b)[0] == a[0]);
        assert((a + b).drop_first() =~= a.drop_first() + b);
        lemma_writes_of_concat(a.drop_first(), b);
        if let ActionModel::Write { data } = a[0] {
            assert(seq![data] + (writes_of(a.drop_first()) + writes_of(b)) =~= (seq![data]
                + writes_of(a.drop_first())) + writes_of(b));
        }
        assert(writes_of(a + b) =~= writes_of(a) + writes_of(b));
    }
}

/// Created names split across a trace boundary like the trace itself.
pub proof fn lemma_opens_of_concat(a: Seq<ActionModel>, b: Seq<ActionModel>)
    ensures
        opens_of(a + b) == opens_of(a) + opens_of(b),
    decreases a.len(),
{
    if a.len() == 0 {
        assert(a + b =~= b);
        assert(opens_of(a) + opens_of(b) =~= opens_of(b));
    } else {
        assert((a + b)[0] == a[0]);
        assert((a + b).drop_first() =~= a.drop_first() + b);
        lemma_opens_of_concat(a.drop_first(), b);
        if let ActionModel::OpenSink { name } = a[0] {
            assert(seq![name] + (opens_of(a.drop_first()) + opens_of(b)) =~= (seq![name]
                + opens_of(a.drop_first())) + opens_of(b));
        }
        assert(opens_of(a + b) =~= opens_of(a) + opens_of(b));
    }
}

/// Deleted names split across a trace boundary like the trace itself.
pub proof fn lemma_cleanups_of_concat(a: Seq<ActionModel>, b: Seq<ActionModel>)
    ensures
        cleanups_of(a + b) == cleanups_of(a) + cleanups_of(b),
    decreases a.len(),
{
    if a.len() == 0 {
        assert(a + b =~= b);
        assert(cleanups_of(a) + cleanups_of(b) =~= cleanups_of(b));
    } else {
        assert((a + b)[0] == a[0]);
        assert((a + b).drop_first() =~= a.drop_first() + b);
        lemma_cleanups_of_concat(a.drop_first(), b);
        if let ActionModel::Cleanup { name } = a[0] {
            assert(seq![name] + (cleanups_of(a.drop_first()) + cleanups_of(b)) =~= (seq![name]
                + cleanups_of(a.drop_first())) + cleanups_of(b));
        }
        assert(cleanups_of(a + b) =~= cleanups_of(a) + cleanups_of(b));
    }
}

/// Streaming a payload whose size fits under the ceiling walks the machine
/// through every chunk: the bytes written grow by exactly the payload, and
/// the trace writes each chunk once, in order, touching no file otherwise.
pub proof fn lemma_stream_chunks(
    cfg: ConfigModel,
    mt: MediaType,
    name: Seq<char>,
    written: Seq<u8>,
    chunks: Seq<Seq<u8>>,
    fresh: Seq<char>,
    now: i64,
)
    requires
        written.len() + sum_len(chunks) <= cfg.ceiling,
    ensures
        ({
            let r = spec_run(
                cfg,
                StateModel::Streaming { media_type: mt, name, written },
                pair_events(chunks),
                fresh,
                now,
            );
            &&& r.0 == (StateModel::Streaming {
                media_type: mt,
                name,
                written: written + concat_bytes(chunks),
            })
            &&& r.1 == pair_actions(chunks)
            &&& writes_of(r.1) == chunks
            &&& opens_of(r.1) == Seq::<Seq<char>>::empty()
            &&& cleanups_of(r.1) == Seq::<Seq<char>>::empty()
        }),
    decreases chunks.len(),
{
    let s0 = StateModel::Streaming { media_type: mt, name, written };
    let evs = pair_events(chunks);
    if chunks.len() == 0 {
        assert(spec_run(cfg, s0, evs, fresh, now) == (s0, Seq::<ActionModel>::empty()));
        assert(written + concat_bytes(chunks) =~= written);
        assert(writes_of(Seq::<ActionModel>::empty()) =~= Seq::<Seq<u8>>::empty());
    } else {
        let c0 = chunks[0];
        let rest = chunks.drop_first();
        lemma_sum_len_nonneg(rest);
        // first event: the chunk is accepted and handed to the sink
        assert(evs[0] == (EventModel::Chunk { data: c0 }));
        let step1 = spec_step(cfg, s0, evs[0], fresh, now);
        assert(written.len() + c0.len() <= cfg.ceiling);
        let s1 = StateModel::Writing { media_type: mt, name, written, pending: c0 };
        assert(step1 == (s1, ActionModel::Write { data: c0 }));
        // second event: the write completes
        assert(evs.drop_first()[0] == EventModel::WriteDone);
        let step2 = spec_step(cfg, s1, EventModel::WriteDone, fresh, now);
        let s2 = StateModel::Streaming { media_type: mt, name, written: written + c0 };
        assert(step2 == (s2, ActionModel::ReadChunk));
        // the remaining chunks stream from there
        lemma_stream_chunks(cfg, mt, name, written + c0, rest, fresh, now);
        let r_rest = spec_run(cfg, s2, pair_events(rest), fresh, now);
        assert(evs.drop_first().drop_first() =~= pair_events(rest));
        let r = spec_run(cfg, s0, evs, fresh, now);
        let rest1 = spec_run(cfg, s2, evs.drop_first().drop_first(), fresh, now);
        let rest0 = spec_run(cfg, s1, evs.drop_first(), fresh, now);
        assert(rest1 == r_rest);
        assert(evs.drop_first().len() > 0);
        assert(rest0 == (rest1.0, seq![step2.1] + rest1.1));
        assert(evs.len() > 0);
        assert(r == (rest0.0, seq![step1.1] + rest0.1));
        assert(r.1 =~= seq![step1.1] + (seq![step2.1] + r_rest.1));
        assert(r.1 =~= seq![ActionModel::Write { data: c0 }, ActionModel::ReadChunk]
            + pair_actions(rest));
        assert(r.1 == pair_actions(chunks));
        assert((written + c0) + concat_bytes(rest) =~= written + concat_bytes(chunks));
        assert(r.0 == (StateModel::Streaming {
            media_type: mt,
            name,
            written: written + concat_bytes(chunks),
        }));
        // the trace: one write per chunk, nothing opened or deleted
        assert(writes_of(r.1) =~= seq![c0] + writes_of(r.1.drop_first()));
        assert(r.1.drop_first() =~= seq![ActionModel::ReadChunk] + pair_actions(rest));
        assert(r.1.drop_first().drop_first() =~= pair_actions(rest));
        assert(writes_of(r.1) =~= seq![c0] + writes_of(pair_actions(rest)));
        assert(writes_of(r.1) =~= chunks);
        assert(opens_of(r.1) =~= opens_of(r.1.drop_first()));
        assert(opens_of(r.1.drop_first()) =~= opens_of(r.1.drop_first().drop_first()));
        assert(opens_of(r.1) =~= opens_of(pair_actions(rest)));
        assert(cleanups_of(r.1) =~= cleanups_of(r.1.drop_first()));
        assert(cleanups_of(r.1.drop_first()) =~= cleanups_of(r.1.drop_first().drop_first()));
        assert(cleanups_of(r.1) =~= cleanups_of(pair_actions(rest)));
    }
}

/// What the two actions that locate the field and open the sink do to files:
/// they create `name` and nothing else.
pub proof fn lemma_trace_open_pair(name: Seq<char>)
    ensures
        writes_of(seq![ActionModel::OpenSink { name }, ActionModel::ReadChunk]) == Seq::<
            Seq<u8>,
        >::empty(),
        opens_of(seq![ActionModel::OpenSink { name }, ActionModel::ReadChunk]) == seq![name],
        cleanups_of(seq![ActionModel::OpenSink { name }, ActionModel::ReadChunk]) == Seq::<
            Seq<char>,
        >::empty(),
{
    let t = seq![ActionModel::OpenSink { name }, ActionModel::ReadChunk];
    assert(t[0] == (ActionModel::OpenSink { name }));
    assert(t.drop_first() =~= seq![ActionModel::ReadChunk]);
    assert(t.drop_first()[0] == ActionModel::ReadChunk);
    assert(t.drop_first().drop_first().len() == 0);
    assert(writes_of(t.drop_first().drop_first()) =~= Seq::<Seq<u8>>::empty());
    assert(opens_of(t.drop_first().drop_first()) =~= Seq::<Seq<char>>::empty());
    assert(cleanups_of(t.drop_first().drop_first()) =~= Seq::<Seq<char>>::empty());
    assert(writes_of(t.drop_first()) =~= Seq::<Seq<u8>>::empty());
    assert(opens_of(t.drop_first()) =~= Seq::<Seq<char>>::empty());
    assert(cleanups_of(t.drop_first()) =~= Seq::<Seq<char>>::empty());
    assert(writes_of(t) =~= Seq::<Seq<u8>>::empty());
    assert(opens_of(t) =~= seq![name]);
    assert(cleanups_of(t) =~= Seq::<Seq<char>>::empty());
}

/// The final action of a clean run touches no file.
pub proof fn lemma_trace_done()
    ensures
        writes_of(seq![ActionModel::Done]) == Seq::<Seq<u8>>::empty(),
        opens_of(seq![ActionModel::Done]) == Seq::<Seq<char>>::empty(),
        cleanups_of(seq![ActionModel::Done]) == Seq::<Seq<char>>::empty(),
{
    let t = seq![ActionModel::Done];
    assert(t[0] == ActionModel::Done);
    assert(t.drop_first().len() == 0);
    assert(writes_of(t.drop_first()) =~= Seq::<Seq<u8>>::empty());
    assert(opens_of(t.drop_first()) =~= Seq::<Seq<char>>::empty());
    assert(cleanups_of(t.drop_first()) =~= Seq::<Seq<char>>::empty());
    assert(writes_of(t) =~= Seq::<Seq<u8>>::empty());
    assert(opens_of(t) =~= Seq::<Seq<char>>::empty());
    assert(cleanups_of(t) =~= Seq::<Seq<char>>::empty());
}

/// The final action of a cleaned-up run deletes `name` and nothing else.
pub proof fn lemma_trace_cleanup(name: Seq<char>)
    ensures
        writes_of(seq![ActionModel::Cleanup { name }]) == Seq::<Seq<u8>>::empty(),
        opens_of(seq![ActionModel::Cleanup { name }]) == Seq::<Seq<char>>::empty(),
        cleanups_of(seq![ActionModel::Cleanup { name }]) == seq![name],
{
    let t = seq![ActionModel::Cleanup { name }];
    assert(t[0] == (ActionModel::Cleanup { name }));
    assert(t.drop_first().len() == 0);
    assert(writes_of(t.drop_first()) =~= Seq::<Seq<u8>>::empty());
    assert(opens_of(t.drop_first()) =~= Seq::<Seq<char>>::empty());
    assert(cleanups_of(t.drop_first()) =~= Seq::<Seq<char>>::empty());
    assert(writes_of(t) =~= Seq::<Seq<u8>>::empty());
    assert(opens_of(t) =~= Seq::<Seq<char>>::empty());
    assert(cleanups_of(t) =~= seq![name]);
}

/// Locating the matching field with a supported declared type, then opening
/// the sink, takes the machine from idle to streaming an empty file under
/// the generated name.
pub proof fn lemma_locate_and_open(
    cfg: ConfigModel,
    ct: Seq<char>,
    mt: MediaType,
    fresh: Seq<char>,
    now: i64,
)
    requires
        spec_media_type_of(ct) == Option::Some(mt),
    ensures
        ({
            let name = crate::naming::spec_stored_name(fresh, mt);
            let evs = seq![
                EventModel::Part {
                    name: Option::Some(cfg.field_name),
                    content_type: Option::Some(ct),
                },
                EventModel::OpenDone,
            ];
            spec_run(cfg, StateModel::Idle, evs, fresh, now) == (
                StateModel::Streaming { media_type: mt, name, written: Seq::empty() },
                seq![ActionModel::OpenSink { name }, ActionModel::ReadChunk],
            )
        }),
{
    let name = crate::naming::spec_stored_name(fresh, mt);
    let p = EventModel::Part {
        name: Option::Some(cfg.field_name),
        content_type: Option::Some(ct),
    };
    let evs = seq![p, EventModel::OpenDone];
    let s1 = StateModel::Opening { media_type: mt, name };
    assert(spec_step(cfg, StateModel::Idle, p, fresh, now) == (
        s1,
        ActionModel::OpenSink { name },
    ));
    let s2 = StateModel::Streaming { media_type: mt, name, written: Seq::empty() };
    assert(spec_step(cfg, s1, EventModel::OpenDone, fresh, now) == (s2, ActionModel::ReadChunk));
    assert(evs[0] == p);
    assert(evs.drop_first()[0] == EventModel::OpenDone);
    let r2 = spec_run(cfg, s2, evs.drop_first().drop_first(), fresh, now);
    assert(evs.drop_first().drop_first().len() == 0);
    assert(r2 == (s2, Seq::<ActionModel>::empty()));
    let r1 = spec_run(cfg, s1, evs.drop_first(), fresh, now);
    assert(r1 == (s2, seq![ActionModel::ReadChunk] + r2.1));
    let r = spec_run(cfg, StateModel::Idle, evs, fresh, now);
    assert(r == (s2, seq![ActionModel::OpenSink { name }] + r1.1));
    assert(r.1 =~= seq![ActionModel::OpenSink { name }, ActionModel::ReadChunk]);
}

/// The events of one whole clean upload: the matching part arrives with the
/// declared type `ct`, the sink opens, the chunks stream, the stream ends.
pub open spec fn upload_events(field: Seq<char>, ct: Seq<char>, chunks: Seq<Seq<u8>>) -> Seq<
    EventModel,
> {
    seq![
        EventModel::Part { name: Option::Some(field), content_type: Option::Some(ct) },
        EventModel::OpenDone,
    ] + pair_events(chunks) + seq![EventModel::StreamEnd]
}

/// An upload whose declared content type is supported and whose total size
/// fits under the ceiling succeeds: the run completes with the record built
/// from the generated name, exactly one file is created and none deleted, and
/// the bytes handed to the sink are exactly the payload's chunks in order.
pub proof fn lemma_supported_upload_succeeds(
    cfg: ConfigModel,
    ct: Seq<char>,
    mt: MediaType,
    chunks: Seq<Seq<u8>>,
    fresh: Seq<char>,
    now: i64,
)
    requires
        spec_media_type_of(ct) == Option::Some(mt),
        sum_len(chunks) <= cfg.ceiling,
    ensures
        ({
            let name = crate::naming::spec_stored_name(fresh, mt);
            let r = spec_run(
                cfg,
                StateModel::Idle,
                upload_events(cfg.field_name, ct, chunks),
                fresh,
                now,
            );
            &&& r.0 == (StateModel::Completed {
                meme: MemeModel { media_type: mt, url: cfg.url_prefix + name, created_at: now },
                stored: StoredFileModel { name, size: sum_len(chunks) as u64 },
            })
            &&& r.1 == seq![ActionModel::OpenSink { name }, ActionModel::ReadChunk]
                + pair_actions(chunks) + seq![ActionModel::Done]
            &&& writes_of(r.1) == chunks
            &&& opens_of(r.1) == seq![name]
            &&& cleanups_of(r.1) == Seq::<Seq<char>>::empty()
        }),
{
    let name = crate::naming::spec_stored_name(fresh, mt);
    let p = EventModel::Part {
        name: Option::Some(cfg.field_name),
        content_type: Option::Some(ct),
    };
    let a = seq![p, EventModel::OpenDone];
    let b = pair_events(chunks);
    let c = seq![EventModel::StreamEnd];
    lemma_locate_and_open(cfg, ct, mt, fresh, now);
    let s_stream = StateModel::Streaming { media_type: mt, name, written: Seq::empty() };
    lemma_sum_len_nonneg(chunks);
    lemma_stream_chunks(cfg, mt, name, Seq::empty(), chunks, fresh, now);
    lemma_concat_bytes_len(chunks);
    let payload = concat_bytes(chunks);
    assert(Seq::<u8>::empty() + payload =~= payload);
    let s_full = StateModel::Streaming { media_type: mt, name, written: payload };
    let s_done = StateModel::Completed {
        meme: MemeModel { media_type: mt, url: cfg.url_prefix + name, created_at: now },
        stored: StoredFileModel { name, size: sum_len(chunks) as u64 },
    };
    assert(spec_step(cfg, s_full, EventModel::StreamEnd, fresh, now) == (
        s_done,
        ActionModel::Done,
    ));
    let rc = spec_run(cfg, s_full, c, fresh, now);
    assert(c[0] == EventModel::StreamEnd);
    assert(c.drop_first().len() == 0);
    assert(spec_run(cfg, s_done, c.drop_first(), fresh, now) == (
        s_done,
        Seq::<ActionModel>::empty(),
    ));
    assert(rc == (s_done, seq![ActionModel::Done] + Seq::<ActionModel>::empty()));
    assert(rc.1 =~= seq![ActionModel::Done]);
    lemma_spec_run_concat(cfg, StateModel::Idle, a, b + c, fresh, now);
    lemma_spec_run_concat(cfg, s_stream, b, c, fresh, now);
    assert(upload_events(cfg.field_name, ct, chunks) =~= a + (b + c));
    let ra = spec_run(cfg, StateModel::Idle, a, fresh, now);
    let rb = spec_run(cfg, s_stream, b, fresh, now);
    let r = spec_run(cfg, StateModel::Idle, upload_events(cfg.field_name, ct, chunks), fresh, now);
    assert(r.0 == s_done);
    assert(r.1 == ra.1 + (rb.1 + rc.1));
    assert(r.1 =~= seq![ActionModel::OpenSink { name }, ActionModel::ReadChunk] + pair_actions(
        chunks,
    ) + seq![ActionModel::Done]);
    // the trace: the writes are the chunks, one file is created, none deleted
    lemma_writes_of_concat(ra.1, rb.1 + rc.1);
    lemma_writes_of_concat(rb.1, rc.1);
    lemma_opens_of_concat(ra.1, rb.1 + rc.1);
    lemma_opens_of_concat(rb.1, rc.1);
    lemma_cleanups_of_concat(ra.1, rb.1 + rc.1);
    lemma_cleanups_of_concat(rb.1, rc.1);
    lemma_trace_open_pair(name);
    lemma_trace_done();
    assert(writes_of(r.1) =~= chunks);
    assert(opens_of(r.1) =~= seq![name]);
    assert(cleanups_of(r.1) =~= Seq::<Seq<char>>::empty());
}

/// An event sequence made only of parts that do not carry the configured
/// field name.
pub open spec fn all_skipped(evs: Seq<EventModel>, field: Seq<char>) -> bool {
    forall|i: int| 0 <= i < evs.len() ==> ((#[trigger] evs[i]) matches EventModel::Part {
        name,
        ..
    } && name != Option::Some(field))
}

/// Parts that do not carry the configured field name are skipped: the machine
/// stays idle, asks only for the next part, and touches no file.
pub proof fn lemma_skipped_parts_stay_idle(
    cfg: ConfigModel,
    evs: Seq<EventModel>,
    fresh: Seq<char>,
    now: i64,
)
    requires
        all_skipped(evs, cfg.field_name),
    ensures
        ({
            let r = spec_run(cfg, StateModel::Idle, evs, fresh, now);
            &&& r.0 == StateModel::Idle
            &&& writes_of(r.1) == Seq::<Seq<u8>>::empty()
            &&& opens_of(r.1) == Seq::<Seq<char>>::empty()
            &&& cleanups_of(r.1) == Seq::<Seq<char>>::empty()
        }),
    decreases evs.len(),
{
    let r = spec_run(cfg, StateModel::Idle, evs, fresh, now);
    if evs.len() == 0 {
        assert(writes_of(r.1) =~= Seq::<Seq<u8>>::empty());
        assert(opens_of(r.1) =~= Seq::<Seq<char>>::empty());
        assert(cleanups_of(r.1) =~= Seq::<Seq<char>>::empty());
    } else {
        assert(evs[0] matches EventModel::Part { name, .. } && name != Option::Some(
            cfg.field_name,
        ));
        let step0 = spec_step(cfg, StateModel::Idle, evs[0], fresh, now);
        assert(step0 == (StateModel::Idle, ActionModel::ReadPart));
        assert(all_skipped(evs.drop_first(), cfg.field_name)) by {
            assert(forall|i: int| 0 <= i < evs.drop_first().len() ==> evs.drop_first()[i] == evs[i
                + 1]);
        }
        lemma_skipped_parts_stay_idle(cfg, evs.drop_first(), fresh, now);
        let rest = spec_run(cfg, StateModel::Idle, evs.drop_first(), fresh, now);
        assert(r == (rest.0, seq![ActionModel::ReadPart] + rest.1));
        assert(r.1[0] == ActionModel::ReadPart);
        assert(r.1.drop_first() =~= rest.1);
        assert(writes_of(r.1) =~= writes_of(rest.1));
        assert(opens_of(r.1) =~= opens_of(rest.1));
        assert(cleanups_of(r.1) =~= cleanups_of(rest.1));
    }
}

/// A request with no part carrying the configured field name is rejected as
/// missing the field, and no file is created, written or deleted.
pub proof fn lemma_missing_field_rejected(
    cfg: ConfigModel,
    skips: Seq<EventModel>,
    fresh: Seq<char>,
    now: i64,
)
    requires
        all_skipped(skips, cfg.field_name),
    ensures
        ({
            let r = spec_run(
                cfg,
                StateModel::Idle,
                skips + seq![EventModel::NoMorePart],
                fresh,
                now,
            );
            &&& r.0 == (StateModel::Rejected {
                error: ErrorModel::MissingField,
                partial: Option::None,
            })
            &&& writes_of(r.1) == Seq::<Seq<u8>>::empty()
            &&& opens_of(r.1) == Seq::<Seq<char>>::empty()
            &&& cleanups_of(r.1) == Seq::<Seq<char>>::empty()
        }),
{
    lemma_skipped_parts_stay_idle(cfg, skips, fresh, now);
    lemma_spec_run_concat(cfg, StateModel::Idle, skips, seq![EventModel::NoMorePart], fresh, now);
    let rs = spec_run(cfg, StateModel::Idle, skips, fresh, now);
    let c = seq![EventModel::NoMorePart];
    let s_done = StateModel::Rejected { error: ErrorModel::MissingField, partial: Option::None };
    assert(c[0] == EventModel::NoMorePart);
    assert(spec_step(cfg, StateModel::Idle, EventModel::NoMorePart, fresh, now) == (
        s_done,
        ActionModel::Done,
    ));
    assert(c.drop_first().len() == 0);
    let rc = spec_run(cfg, StateModel::Idle, c, fresh, now);
    assert(spec_run(cfg, s_done, c.drop_first(), fresh, now) == (
        s_done,
        Seq::<ActionModel>::empty(),
    ));
    assert(rc == (s_done, seq![ActionModel::Done] + Seq::<ActionModel>::empty()));
    assert(rc.1 =~= seq![ActionModel::Done]);
    lemma_trace_done();
    lemma_writes_of_concat(rs.1, rc.1);
    lemma_opens_of_concat(rs.1, rc.1);
    lemma_cleanups_of_concat(rs.1, rc.1);
    let r = spec_run(cfg, StateModel::Idle, skips + c, fresh, now);
    assert(writes_of(r.1) =~= Seq::<Seq<u8>>::empty());
    assert(opens_of(r.1) =~= Seq::<Seq<char>>::empty());
    assert(cleanups_of(r.1) =~= Seq::<Seq<char>>::empty());
}

/// A declared content type outside the supported set is rejected as
/// unsupported, carrying the offending string, and no file is created,
/// written or deleted.
pub proof fn lemma_unsupported_media_type_rejected(
    cfg: ConfigModel,
    skips: Seq<EventModel>,
    ct: Seq<char>,
    fresh: Seq<char>,
    now: i64,
)
    requires
        all_skipped(skips, cfg.field_name),
        spec_media_type_of(ct) is None,
    ensures
        ({
            let r = spec_run(
                cfg,
                StateModel::Idle,
                skips + seq![
                    EventModel::Part {
                        name: Option::Some(cfg.field_name),
                        content_type: Option::Some(ct),
                    },
                ],
                fresh,
                now,
            );
            &&& r.0 == (StateModel::Rejected {
                error: ErrorModel::UnsupportedMediaType(ct),
                partial: Option::None,
            })
            &&& writes_of(r.1) == Seq::<Seq<u8>>::empty()
            &&& opens_of(r.1) == Seq::<Seq<char>>::empty()
            &&& cleanups_of(r.1) == Seq::<Seq<char>>::empty()
        }),
{
    lemma_skipped_parts_stay_idle(cfg, skips, fresh, now);
    let p = EventModel::Part {
        name: Option::Some(cfg.field_name),
        content_type: Option::Some(ct),
    };
    lemma_spec_run_concat(cfg, StateModel::Idle, skips, seq![p], fresh, now);
    let rs = spec_run(cfg, StateModel::Idle, skips, fresh, now);
    let c = seq![p];
    let s_done = StateModel::Rejected {
        error: ErrorModel::UnsupportedMediaType(ct),
        partial: Option::None,
    };
    assert(c[0] == p);
    assert(spec_step(cfg, StateModel::Idle, p, fresh, now) == (s_done, ActionModel::Done));
    assert(c.drop_first().len() == 0);
    let rc = spec_run(cfg, StateModel::Idle, c, fresh, now);
    assert(spec_run(cfg, s_done, c.drop_first(), fresh, now) == (
        s_done,
        Seq::<ActionModel>::empty(),
    ));
    assert(rc == (s_done, seq![ActionModel::Done] + Seq::<ActionModel>::empty()));
    assert(rc.1 =~= seq![ActionModel::Done]);
    lemma_trace_done();
    lemma_writes_of_concat(rs.1, rc.1);
    lemma_opens_of_concat(rs.1, rc.1);
    lemma_cleanups_of_concat(rs.1, rc.1);
    let r = spec_run(cfg, StateModel::Idle, skips + c, fresh, now);
    assert(writes_of(r.1) =~= Seq::<Seq<u8>>::empty());
    assert(opens_of(r.1) =~= Seq::<Seq<char>>::empty());
    assert(cleanups_of(r.1) =~= Seq::<Seq<char>>::empty());
}

/// A payload whose running total would pass the ceiling with its next chunk
/// is rejected as too large the moment that chunk arrives: the chunk is not
/// counted or written, and the one file the run created is asked to be
/// deleted, so no partial file remains.
pub proof fn lemma_oversized_payload_rejected(
    cfg: ConfigModel,
    ct: Seq<char>,
    mt: MediaType,
    chunks: Seq<Seq<u8>>,
    last: Seq<u8>,
    fresh: Seq<char>,
    now: i64,
)
    requires
        spec_media_type_of(ct) == Option::Some(mt),
        sum_len(chunks) <= cfg.ceiling,
        sum_len(chunks) + last.len() > cfg.ceiling,
    ensures
        ({
            let name = crate::naming::spec_stored_name(fresh, mt);
            let evs = seq![
                EventModel::Part {
                    name: Option::Some(cfg.field_name),
                    content_type: Option::Some(ct),
                },
                EventModel::OpenDone,
            ] + pair_events(chunks) + seq![EventModel::Chunk { data: last }];
            let r = spec_run(cfg, StateModel::Idle, evs, fresh, now);
            &&& r.0 == (StateModel::Rejected {
                error: ErrorModel::PayloadTooLarge,
                partial: Option::Some(
                    StoredFileModel { name, size: sum_len(chunks) as u64 },
                ),
            })
            &&& writes_of(r.1) == chunks
            &&& opens_of(r.1) == seq![name]
            &&& cleanups_of(r.1) == seq![name]
        }),
{
    let name = crate::naming::spec_stored_name(fresh, mt);
    let p = EventModel::Part {
        name: Option::Some(cfg.field_name),
        content_type: Option::Some(ct),
    };
    let a = seq![p, EventModel::OpenDone];
    let b = pair_events(chunks);
    let c = seq![EventModel::Chunk { data: last }];
    lemma_locate_and_open(cfg, ct, mt, fresh, now);
    let s_stream = StateModel::Streaming { media_type: mt, name, written: Seq::empty() };
    lemma_sum_len_nonneg(chunks);
    lemma_stream_chunks(cfg, mt, name, Seq::empty(), chunks, fresh, now);
    lemma_concat_bytes_len(chunks);
    let payload = concat_bytes(chunks);
    assert(Seq::<u8>::empty() + payload =~= payload);
    let s_full = StateModel::Streaming { media_type: mt, name, written: payload };
    let s_done = StateModel::Rejected {
        error: ErrorModel::PayloadTooLarge,
        partial: Option::Some(StoredFileModel { name, size: sum_len(chunks) as u64 }),
    };
    assert(payload.len() + last.len() > cfg.ceiling);
    assert(spec_step(cfg, s_full, c[0], fresh, now) == (s_done, ActionModel::Cleanup { name }));
    let rc = spec_run(cfg, s_full, c, fresh, now);
    assert(c.drop_first().len() == 0);
    assert(spec_run(cfg, s_done, c.drop_first(), fresh, now) == (
        s_done,
        Seq::<ActionModel>::empty(),
    ));
    assert(rc == (s_done, seq![ActionModel::Cleanup { name }] + Seq::<ActionModel>::empty()));
    assert(rc.1 =~= seq![ActionModel::Cleanup { name }]);
    lemma_spec_run_concat(cfg, StateModel::Idle, a, b + c, fresh, now);
    lemma_spec_run_concat(cfg, s_stream, b, c, fresh, now);
    let evs = a + b + c;
    assert(evs =~= a + (b + c));
    let ra = spec_run(cfg, StateModel::Idle, a, fresh, now);
    let rb = spec_run(cfg, s_stream, b, fresh, now);
    let r = spec_run(cfg, StateModel::Idle, evs, fresh, now);
    assert(r.0 == s_done);
    assert(r.1 == ra.1 + (rb.1 + rc.1));
    lemma_writes_of_concat(ra.1, rb.1 + rc.1);
    lemma_writes_of_concat(rb.1, rc.1);
    lemma_opens_of_concat(ra.1, rb.1 + rc.1);
    lemma_opens_of_concat(rb.1, rc.1);
    lemma_cleanups_of_concat(ra.1, rb.1 + rc.1);
    lemma_cleanups_of_concat(rb.1, rc.1);
    lemma_trace_open_pair(name);
    lemma_trace_cleanup(name);
    assert(writes_of(r.1) =~= chunks);
    assert(opens_of(r.1) =~= seq![name]);
    assert(cleanups_of(r.1) =~= seq![name]);
}

/// A stream that fails mid-transfer, after any number of cleanly written
/// chunks, is rejected as a stream error, and the one file the run created is
/// asked to be deleted, so no partial file remains.
pub proof fn lemma_aborted_stream_rejected(
    cfg: ConfigModel,
    ct: Seq<char>,
    mt: MediaType,
    chunks: Seq<Seq<u8>>,
    fresh: Seq<char>,
    now: i64,
)
    requires
        spec_media_type_of(ct) == Option::Some(mt),
        sum_len(chunks) <= cfg.ceiling,
    ensures
        ({
            let name = crate::naming::spec_stored_name(fresh, mt);
            let evs = seq![
                EventModel::Part {
                    name: Option::Some(cfg.field_name),
                    content_type: Option::Some(ct),
                },
                EventModel::OpenDone,
            ] + pair_events(chunks) + seq![EventModel::StreamFail];
            let r = spec_run(cfg, StateModel::Idle, evs, fresh, now);
            &&& r.0 == (StateModel::Rejected {
                error: ErrorModel::StreamError,
                partial: Option::Some(
                    StoredFileModel { name, size: sum_len(chunks) as u64 },
                ),
            })
            &&& writes_of(r.1) == chunks
            &&& opens_of(r.1) == seq![name]
            &&& cleanups_of(r.1) == seq![name]
        }),
{
    let name = crate::naming::spec_stored_name(fresh, mt);
    let p = EventModel::Part {
        name: Option::Some(cfg.field_name),
        content_type: Option::Some(ct),
    };
    let a = seq![p, EventModel::OpenDone];
    let b = pair_events(chunks);
    let c = seq![EventModel::StreamFail];
    lemma_locate_and_open(cfg, ct, mt, fresh, now);
    let s_stream = StateModel::Streaming { media_type: mt, name, written: Seq::empty() };
    lemma_sum_len_nonneg(chunks);
    lemma_stream_chunks(cfg, mt, name, Seq::empty(), chunks, fresh, now);
    lemma_concat_bytes_len(chunks);
    let payload = concat_bytes(chunks);
    assert(Seq::<u8>::empty() + payload =~= payload);
    let s_full = StateModel::Streaming { media_type: mt, name, written: payload };
    let s_done = StateModel::Rejected {
        error: ErrorModel::StreamError,
        partial: Option::Some(StoredFileModel { name, size: sum_len(chunks) as u64 }),
    };
    assert(c[0] == EventModel::StreamFail);
    assert(spec_step(cfg, s_full, c[0], fresh, now) == (s_done, ActionModel::Cleanup { name }));
    let rc = spec_run(cfg, s_full, c, fresh, now);
    assert(c.drop_first().len() == 0);
    assert(spec_run(cfg, s_done, c.drop_first(), fresh, now) == (
        s_done,
        Seq::<ActionModel>::empty(),
    ));
    assert(rc == (s_done, seq![ActionModel::Cleanup { name }] + Seq::<ActionModel>::empty()));
    assert(rc.1 =~= seq![ActionModel::Cleanup { name }]);
    lemma_spec_run_concat(cfg, StateModel::Idle, a, b + c, fresh, now);
    lemma_spec_run_concat(cfg, s_stream, b, c, fresh, now);
    let evs = a + b + c;
    assert(evs =~= a + (b + c));
    let ra = spec_run(cfg, StateModel::Idle, a, fresh, now);
    let rb = spec_run(cfg, s_stream, b, fresh, now);
    let r = spec_run(cfg, StateModel::Idle, evs, fresh, now);
    assert(r.0 == s_done);
    assert(r.1 == ra.1 + (rb.1 + rc.1));
    lemma_writes_of_concat(ra.1, rb.1 + rc.1);
    lemma_writes_of_concat(rb.1, rc.1);
    lemma_opens_of_concat(ra.1, rb.1 + rc.1);
    lemma_opens_of_concat(rb.1, rc.1);
    lemma_cleanups_of_concat(ra.1, rb.1 + rc.1);
    lemma_cleanups_of_concat(rb.1, rc.1);
    lemma_trace_open_pair(name);
    lemma_trace_cleanup(name);
    assert(writes_of(r.1) =~= chunks);
    assert(opens_of(r.1) =~= seq![name]);
    assert(cleanups_of(r.1) =~= seq![name]);
}

} // verus!
