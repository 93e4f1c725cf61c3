//! The file sink core: lifecycle, event handling and the write path.

use vstd::prelude::*;

use crate::codec::Codec;
use crate::error::SinkError;
use crate::event::ack_of;
use crate::event::Event;
use crate::event::Reply;
use crate::handle::FileOpener;
use crate::handle::Handle;
use crate::postprocess::PostprocessorChain;

verus! {

/// The sink's own configuration: the path it writes to. Immutable once
/// constructed.
pub struct Config {
    pub file: String,
}

/// The configuration blob handed down by the pipeline, already shaped: it
/// either carries the target path under its `file` field or lacks it.
pub struct OpConfig {
    pub file: Option<String>,
}

/// Where the sink stands in its lifecycle. The output handle and the
/// postprocessor chain exist exactly while the sink is active.
pub enum SinkState<P, H> {
    Uninitialized,
    Active { chain: P, handle: H },
    Terminated,
}

/// The file sink: writes each value of each event as one or more
/// newline-terminated records, flushing once per event, and acknowledges
/// every fully written event upstream.
pub struct File<P, H> {
    pub config: Config,
    pub state: SinkState<P, H>,
}

/// One packet framed as a record: the packet followed by a single newline
/// byte.
pub open spec fn line_of(packet: Seq<u8>) -> Seq<u8> {
    packet + seq![10u8]
}

/// All packets of one value framed as records, in chain order.
pub open spec fn lines_of(packets: Seq<Seq<u8>>) -> Seq<u8>
    decreases packets.len(),
{
    if packets.len() == 0 {
        Seq::empty()
    } else {
        lines_of(packets.drop_last()) + line_of(packets.last())
    }
}

/// The packets the chain produces for one value, or `None` if the codec or
/// the chain rejects it.
pub open spec fn value_packets<V, C: Codec<V>, P: PostprocessorChain>(
    codec: C,
    chain: P,
    ingest_ns: u64,
    value: V,
) -> Option<Seq<Seq<u8>>> {
    match codec.enc(value) {
        Some(raw) => chain.post(ingest_ns, raw),
        None => None,
    }
}

/// The bytes one value contributes to the file, or `None` if it is rejected.
pub open spec fn value_output<V, C: Codec<V>, P: PostprocessorChain>(
    codec: C,
    chain: P,
    ingest_ns: u64,
    value: V,
) -> Option<Seq<u8>> {
    match value_packets(codec, chain, ingest_ns, value) {
        Some(packets) => Some(lines_of(packets)),
        None => None,
    }
}

/// The first `k` values all encode and transform without error.
pub open spec fn values_ok<V, C: Codec<V>, P: PostprocessorChain>(
    codec: C,
    chain: P,
    ingest_ns: u64,
    values: Seq<V>,
    k: int,
) -> bool {
    forall|j: int|
        0 <= j < k ==> #[trigger] value_output(codec, chain, ingest_ns, values[j]) is Some
}

/// The bytes the first `k` values contribute to the file, in order.
/// Meaningful where those values are all accepted.
pub open spec fn written_bytes<V, C: Codec<V>, P: PostprocessorChain>(
    codec: C,
    chain: P,
    ingest_ns: u64,
    values: Seq<V>,
    k: int,
) -> Seq<u8>
    decreases k,
{
    if k <= 0 {
        Seq::empty()
    } else {
        written_bytes(codec, chain, ingest_ns, values, k - 1) + value_output(
            codec,
            chain,
            ingest_ns,
            values[k - 1],
        )->Some_0
    }
}

/// The reply is exactly one positive acknowledgment for `event`.
pub open spec fn is_ack_reply<V>(r: Result<Option<Vec<Reply>>, SinkError>, event: Event<V>) -> bool {
    r matches Ok(rep) && (rep matches Some(rs) && rs@ == seq![Reply::Insight(ack_of(event))])
}

/// An event aborted at its `k`-th value: every earlier value was accepted
/// and fully written, value `k` was rejected by the codec (`Encode`) or by
/// the chain (`Transform`), and nothing of value `k` reached the file.
pub open spec fn aborted_at<V, C: Codec<V>, P: PostprocessorChain>(
    codec: C,
    chain: P,
    ingest_ns: u64,
    values: Seq<V>,
    e: SinkError,
    before: Seq<u8>,
    after: Seq<u8>,
    k: int,
) -> bool {
    &&& 0 <= k < values.len()
    &&& values_ok(codec, chain, ingest_ns, values, k)
    &&& value_output(codec, chain, ingest_ns, values[k]) is None
    &&& (e == SinkError::Encode <==> codec.enc(values[k]) is None)
    &&& (e == SinkError::Transform <==> codec.enc(values[k]) is Some)
    &&& after == before + written_bytes(codec, chain, ingest_ns, values, k)
}

/// What `on_event` guarantees of an active sink, relating the handle before
/// (`h0`) and after (`h1`) the call to the reply `r`.
pub open spec fn event_outcome<V, C: Codec<V>, P: PostprocessorChain, H: Handle>(
    codec: C,
    chain: P,
    h0: H,
    h1: H,
    event: Event<V>,
    r: Result<Option<Vec<Reply>>, SinkError>,
) -> bool {
    let ns = event.ingest_ns;
    let vs = event.values@;
    match r {
        Ok(rep) => {
            &&& values_ok(codec, chain, ns, vs, vs.len() as int)
            &&& h1.bytes() == h0.bytes() + written_bytes(codec, chain, ns, vs, vs.len() as int)
            &&& h1.syncs() == h0.syncs() + 1
            &&& rep matches Some(rs) && rs@ == seq![Reply::Insight(ack_of(event))]
        },
        Err(e) => {
            &&& e != SinkError::Configuration
            &&& (e == SinkError::Encode || e == SinkError::Transform) ==> h1.syncs() == h0.syncs()
                && (exists|k: int|
                aborted_at(codec, chain, ns, vs, e, h0.bytes(), h1.bytes(), k))
            &&& e == SinkError::Io ==> h0.bytes().is_prefix_of(h1.bytes()) && h0.syncs()
                <= h1.syncs() <= h0.syncs() + 1
        },
    }
}

/// A packet without a newline byte of its own. Only for such packets are the
/// file's line boundaries unambiguous; the write path does not enforce this.
pub open spec fn newline_free(packet: Seq<u8>) -> bool {
    forall|i: int| 0 <= i < packet.len() ==> packet[i] != 10u8
}

/// How many newline-terminated records a byte sequence holds.
pub open spec fn record_count(s: Seq<u8>) -> nat
    decreases s.len(),
{
    if s.len() == 0 {
        0
    } else {
        record_count(s.drop_last()) + if s.last() == 10u8 {
            1nat
        } else {
            0nat
        }
    }
}

proof fn lemma_record_count_add(a: Seq<u8>, b: Seq<u8>)
    ensures
        record_count(a + b) == record_count(a) + record_count(b),
    decreases b.len(),
{
    if b.len() == 0 {
        assert(a + b =~= a);
    } else {
        assert((a + b).drop_last() =~= a + b.drop_last());
        assert((a + b).last() == b.last());
        lemma_record_count_add(a, b.drop_last());
    }
}

proof fn lemma_record_count_newline_free(s: Seq<u8>)
    requires
        newline_free(s),
    ensures
        record_count(s) == 0,
    decreases s.len(),
{
    if s.len() > 0 {
        assert(s.last() == s[s.len() - 1]);
        lemma_record_count_newline_free(s.drop_last());
    }
}

/// Law: framing one value's packets yields exactly one newline-terminated
/// record per packet, provided no packet carries a newline byte of its own.
pub proof fn lemma_lines_record_count(packets: Seq<Seq<u8>>)
    requires
        forall|i: int| 0 <= i < packets.len() ==> newline_free(#[trigger] packets[i]),
    ensures
        record_count(lines_of(packets)) == packets.len(),
    decreases packets.len(),
{
    if packets.len() > 0 {
        assert(packets.last() == packets[packets.len() - 1]);
        lemma_lines_record_count(packets.drop_last());
        lemma_record_count_add(lines_of(packets.drop_last()), line_of(packets.last()));
        lemma_record_count_add(packets.last(), seq![10u8]);
        lemma_record_count_newline_free(packets.last());
        assert(seq![10u8].drop_last() =~= Seq::<u8>::empty());
        assert(seq![10u8].len() == 1);
        assert(seq![10u8].last() == 10u8);
        assert(record_count(Seq::<u8>::empty()) == 0);
        assert(record_count(seq![10u8]) == 1);
    }
}

/// Law: a fully successful event whose first `k` values each yield a single
/// newline-free packet appends exactly `k` new records to the file — one
/// line per value, the line being that value's postprocessing-chain output.
pub proof fn lemma_event_record_count<V, C: Codec<V>, P: PostprocessorChain>(
    codec: C,
    chain: P,
    ingest_ns: u64,
    values: Seq<V>,
    k: int,
)
    requires
        0 <= k <= values.len(),
        values_ok(codec, chain, ingest_ns, values, k),
        forall|j: int|
            0 <= j < k ==> {
                let packets = (#[trigger] value_packets(codec, chain, ingest_ns, values[j]));
                packets->Some_0.len() == 1 && newline_free((packets->Some_0)[0])
            },
    ensures
        record_count(written_bytes(codec, chain, ingest_ns, values, k)) == k,
    decreases k,
{
    if k > 0 {
        lemma_event_record_count(codec, chain, ingest_ns, values, k - 1);
        assert(value_output(codec, chain, ingest_ns, values[k - 1]) is Some);
        let packets = value_packets(codec, chain, ingest_ns, values[k - 1])->Some_0;
        assert(value_output(codec, chain, ingest_ns, values[k - 1])->Some_0 == lines_of(packets));
        lemma_lines_record_count(packets);
        lemma_record_count_add(
            written_bytes(codec, chain, ingest_ns, values, k - 1),
            lines_of(packets),
        );
    }
}

proof fn lemma_lines_of_take_snoc(packets: Seq<Seq<u8>>, k: int)
    requires
        0 <= k < packets.len(),
    ensures
        lines_of(packets.take(k + 1)) == lines_of(packets.take(k)) + line_of(packets[k]),
{
    assert(packets.take(k + 1).drop_last() =~= packets.take(k));
    assert(packets.take(k + 1).last() == packets[k]);
}

proof fn lemma_extends_is_prefix(a: Seq<u8>, b: Seq<u8>)
    ensures
        a.is_prefix_of(a + b),
{
    assert((a + b).take(a.len() as int) =~= a);
}

impl<P: PostprocessorChain, H: Handle> File<P, H> {
    /// Construct an uninitialized sink from the pipeline's configuration
    /// blob. A missing blob, or one without a target path, is refused: a
    /// file sink cannot be configured implicitly.
    pub fn from_config(config: &Option<OpConfig>) -> (r: Result<File<P, H>, SinkError>)
        ensures
            (match r {
                Ok(sink) => config matches Some(c) && (c.file matches Some(path) && (
                sink.config.file == path && sink.state is Uninitialized)),
                Err(e) => e == SinkError::Configuration && (*config is None || (*config)->Some_0.file
                    is None),
            }),
    {
        match config {
            Some(c) => match &c.file {
                Some(path) => Ok(
                    File {
                        config: Config { file: path.clone() },
                        state: SinkState::Uninitialized,
                    },
                ),
                None => Err(SinkError::Configuration),
            },
            None => Err(SinkError::Configuration),
        }
    }

    /// Build the postprocessor chain from the declared names, then open the
    /// configured path. On success the sink becomes active, owning a fresh,
    /// empty handle. An unrecognized chain is refused before the path is
    /// touched.
    pub fn init<O: FileOpener<H>>(&mut self, processors: &Vec<String>, opener: &O) -> (r: Result<
        (),
        SinkError,
    >)
        requires
            old(self).state is Uninitialized,
        ensures
            final(self).config == old(self).config,
            (match r {
                Ok(()) => final(self).state matches SinkState::Active { chain, handle } && (
                P::from_specs_spec(processors.deep_view()) == Some(chain) && (handle.bytes()
                    == Seq::<u8>::empty() && handle.syncs() == 0)),
                Err(e) => final(self).state is Uninitialized && ((e == SinkError::Configuration
                    && P::from_specs_spec(processors.deep_view()) is None) || (e == SinkError::Io
                    && P::from_specs_spec(processors.deep_view()) is Some)),
            }),
    {
        let chain = match P::from_specs(processors) {
            Ok(c) => c,
            Err(e) => {
                return Err(e);
            },
        };
        let handle = match opener.open(self.config.file.as_str()) {
            Ok(h) => h,
            Err(e) => {
                return Err(e);
            },
        };
        self.state = SinkState::Active { chain, handle };
        Ok(())
    }

    /// Handle one event: encode every value in order, run it through the
    /// chain, append each packet as a newline-terminated record, and flush
    /// once after the last value. A fully written event is acknowledged with
    /// exactly one positive insight; any failure aborts the event
    /// immediately, leaving the records written so far and no
    /// acknowledgment. On an inactive sink nothing is written and the event
    /// is acknowledged as a defensive no-op.
    #[verifier::loop_isolation(false)]
    pub fn on_event<V, C: Codec<V>>(&mut self, codec: &mut C, event: &Event<V>) -> (r: Result<
        Option<Vec<Reply>>,
        SinkError,
    >)
        ensures
            final(self).config == old(self).config,
            forall|v: V| #[trigger] final(codec).enc(v) == old(codec).enc(v),
            !(old(self).state is Active) ==> *final(self) == *old(self) && is_ack_reply(r, *event),
            old(self).state matches SinkState::Active { chain: p0, handle: h0 } ==> (final(
                self).state matches SinkState::Active { chain: p1, handle: h1 } && ((forall|ns2: u64, d: Seq<u8>|
                #[trigger] p1.post(ns2, d) == p0.post(ns2, d)) && event_outcome(
                *old(codec),
                p0,
                h0,
                h1,
                *event,
                r,
            ))),
    {
        let ghost cod0 = *codec;
        let mut taken: SinkState<P, H> = SinkState::Uninitialized;
        core::mem::swap(&mut self.state, &mut taken);
        match taken {
            SinkState::Active { mut chain, mut handle } => {
                let ghost p0 = chain;
                let ghost h0 = handle;
                let ghost ns = event.ingest_ns;
                let ghost vs = event.values@;
                let mut newline: Vec<u8> = Vec::new();
                newline.push(10u8);
                proof {
                    assert(newline@ =~= seq![10u8]);
                    assert(h0.bytes() + written_bytes(cod0, p0, ns, vs, 0) =~= h0.bytes());
                }
                let n = event.values.len();
                let mut i: usize = 0;
                while i < n
                    invariant
                        self.config == old(self).config,
                        n == event.values.len(),
                        i <= n,
                        vs == event.values@,
                        ns == event.ingest_ns,
                        newline@ == seq![10u8],
                        forall|v: V| #[trigger] codec.enc(v) == cod0.enc(v),
                        forall|ns2: u64, d: Seq<u8>| #[trigger] chain.post(ns2, d) == p0.post(
                            ns2,
                            d,
                        ),
                        values_ok(cod0, p0, ns, vs, i as int),
                        handle.bytes() == h0.bytes() + written_bytes(cod0, p0, ns, vs, i as int),
                        handle.syncs() == h0.syncs(),
                    decreases n - i,
                {
                    let value = &event.values[i];
                    let raw = match codec.encode(value) {
                        Ok(b) => b,
                        Err(e) => {
                            proof {
                                assert(aborted_at(
                                    cod0,
                                    p0,
                                    ns,
                                    vs,
                                    e,
                                    h0.bytes(),
                                    handle.bytes(),
                                    i as int,
                                ));
                            }
                            self.state = SinkState::Active { chain, handle };
                            return Err(e);
                        },
                    };
                    let ghost rawv = raw@;
                    let packets = match chain.apply(event.ingest_ns, raw) {
                        Ok(ps) => ps,
                        Err(e) => {
                            proof {
                                assert(aborted_at(
                                    cod0,
                                    p0,
                                    ns,
                                    vs,
                                    e,
                                    h0.bytes(),
                                    handle.bytes(),
                                    i as int,
                                ));
                            }
                            self.state = SinkState::Active { chain, handle };
                            return Err(e);
                        },
                    };
                    let ghost pk = packets.deep_view();
                    proof {
                        assert(cod0.enc(vs[i as int]) == Some(rawv));
                        assert(p0.post(ns, rawv) == Some(pk));
                        assert(value_output(cod0, p0, ns, vs[i as int]) == Some(lines_of(pk)));
                        assert(handle.bytes() + lines_of(pk.take(0)) =~= handle.bytes());
                    }
                    let m = packets.len();
                    let mut j: usize = 0;
                    while j < m
                        invariant
                            self.config == old(self).config,
                            m == packets.len(),
                            j <= m,
                            pk == packets.deep_view(),
                            i < n,
                            n == event.values.len(),
                            vs == event.values@,
                            ns == event.ingest_ns,
                            newline@ == seq![10u8],
                            forall|v: V| #[trigger] codec.enc(v) == cod0.enc(v),
                            forall|ns2: u64, d: Seq<u8>| #[trigger] chain.post(ns2, d) == p0.post(
                                ns2,
                                d,
                            ),
                            values_ok(cod0, p0, ns, vs, i as int),
                            value_output(cod0, p0, ns, vs[i as int]) == Some(lines_of(pk)),
                            handle.bytes() == h0.bytes() + written_bytes(cod0, p0, ns, vs, i as int)
                                + lines_of(pk.take(j as int)),
                            handle.syncs() == h0.syncs(),
                        decreases m - j,
                    {
                        proof {
                            assert(pk[j as int] == packets@[j as int]@);
                        }
                        let r1 = handle.append(&packets[j]);
                        match r1 {
                            Ok(()) => {},
                            Err(e) => {
                                proof {
                                    lemma_extends_is_prefix(
                                        h0.bytes(),
                                        written_bytes(cod0, p0, ns, vs, i as int) + lines_of(
                                            pk.take(j as int),
                                        ),
                                    );
                                    assert(handle.bytes() =~= h0.bytes() + (written_bytes(
                                        cod0,
                                        p0,
                                        ns,
                                        vs,
                                        i as int,
                                    ) + lines_of(pk.take(j as int))));
                                }
                                self.state = SinkState::Active { chain, handle };
                                return Err(e);
                            },
                        }
                        let r2 = handle.append(&newline);
                        match r2 {
                            Ok(()) => {},
                            Err(e) => {
                                proof {
                                    lemma_extends_is_prefix(
                                        h0.bytes(),
                                        written_bytes(cod0, p0, ns, vs, i as int) + (lines_of(
                                            pk.take(j as int),
                                        ) + packets@[j as int]@),
                                    );
                                    assert(handle.bytes() =~= h0.bytes() + (written_bytes(
                                        cod0,
                                        p0,
                                        ns,
                                        vs,
                                        i as int,
                                    ) + (lines_of(pk.take(j as int)) + packets@[j as int]@)));
                                }
                                self.state = SinkState::Active { chain, handle };
                                return Err(e);
                            },
                        }
                        j += 1;
                        proof {
                            lemma_lines_of_take_snoc(pk, j - 1);
                            assert(handle.bytes() =~= h0.bytes() + written_bytes(
                                cod0,
                                p0,
                                ns,
                                vs,
                                i as int,
                            ) + lines_of(pk.take(j as int)));
                        }
                    }
                    i += 1;
                    proof {
                        assert(pk.take(m as int) =~= pk);
                        assert(written_bytes(cod0, p0, ns, vs, i as int) == written_bytes(
                            cod0,
                            p0,
                            ns,
                            vs,
                            i - 1,
                        ) + lines_of(pk));
                        assert(handle.bytes() == h0.bytes() + written_bytes(
                            cod0,
                            p0,
                            ns,
                            vs,
                            i as int,
                        ));
                        assert(values_ok(cod0, p0, ns, vs, i as int));
                    }
                }
                let rf = handle.flush();
                match rf {
                    Ok(()) => {},
                    Err(e) => {
                        proof {
                            lemma_extends_is_prefix(
                                h0.bytes(),
                                written_bytes(cod0, p0, ns, vs, n as int),
                            );
                        }
                        self.state = SinkState::Active { chain, handle };
                        return Err(e);
                    },
                }
                self.state = SinkState::Active { chain, handle };
                let insight = event.insight_ack();
                let mut replies: Vec<Reply> = Vec::new();
                replies.push(Reply::Insight(insight));
                proof {
                    assert(replies@ =~= seq![Reply::Insight(ack_of(*event))]);
                }
                Ok(Some(replies))
            },
            other => {
                self.state = other;
                let insight = event.insight_ack();
                let mut replies: Vec<Reply> = Vec::new();
                replies.push(Reply::Insight(insight));
                proof {
                    assert(replies@ =~= seq![Reply::Insight(ack_of(*event))]);
                }
                Ok(Some(replies))
            },
        }
    }

    /// Accept a pipeline control signal. This sink has no signal-driven
    /// behavior: nothing happens and no reply is produced.
    pub fn on_signal<V>(&mut self, _signal: &Event<V>) -> (r: Result<Option<Vec<Reply>>, SinkError>)
        ensures
            *final(self) == *old(self),
            r == Ok::<Option<Vec<Reply>>, SinkError>(None),
    {
        Ok(None)
    }

    /// Shut the sink down: flush the handle once, best effort, and drop it.
    /// A failing flush is swallowed — termination never fails — and the sink
    /// ends terminated whatever state it was in.
    pub fn terminate(&mut self)
        ensures
            final(self).config == old(self).config,
            final(self).state is Terminated,
    {
        let mut taken: SinkState<P, H> = SinkState::Terminated;
        core::mem::swap(&mut self.state, &mut taken);
        match taken {
            SinkState::Active { mut handle, .. } => {
                let _best_effort = handle.flush();
            },
            _ => {},
        }
    }

    /// The encoding this sink prefers when the pipeline does not choose one.
    pub fn default_codec(&self) -> (r: &'static str)
        ensures
            r@ == "json"@,
    {
        "json"
    }

    /// This sink has no degraded or paused mode: it always reports active.
    pub fn is_active(&self) -> (r: bool)
        ensures
            r,
    {
        true
    }

    /// This sink emits its own acknowledgment per event rather than relying
    /// on a pipeline-level default-ack policy.
    pub fn auto_ack(&self) -> (r: bool)
        ensures
            r,
    {
        true
    }

    /// The output handle, while the sink is active.
    pub fn active_handle(&self) -> (r: Option<&H>)
        ensures
            r is Some <==> self.state is Active,
            r matches Some(h) ==> self.state matches SinkState::Active { handle, .. } && *h
                == handle,
    {
        match &self.state {
            SinkState::Active { handle, .. } => Some(handle),
            _ => None,
        }
    }
}

} // verus!
