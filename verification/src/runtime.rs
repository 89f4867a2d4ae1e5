//! The per-tick logic of the realtime loop: apply one decoded inbound
//! report, run the effect pipeline on frame boundaries, diff the LED
//! colors into outbound batches, and produce the published snapshot.
//!
//! The loop itself — reading the device, writing reports, sleeping,
//! publishing over a channel — is outside work the caller performs; this
//! module is the function from loop state and tick inputs to the next
//! state and the actions to take, so every tick is an exact function of
//! its inputs and the state so far.

use vstd::prelude::*;
use crate::color::Hsv;
use crate::color::Hsva;
use crate::color::spec_premultiply;
use crate::color::premultiply;
use crate::config::KBConfig;
use crate::config::build_led_state;
use crate::config::spec_bind;
use crate::config::spec_led_matrix;
use crate::effects::EffectPipeline;
use crate::effects::LedState;
use crate::effects::Effect;
use crate::effects::Rainbow1Effect;
use crate::effects::spec_pipeline_run;
use crate::effects::spec_default_led;
use crate::matrix::KeyMatrix;
use crate::matrix::KeyState;
use crate::matrix::spec_apply_press;
use crate::protocol::ProtocolMessage;
use crate::protocol::RgbSetMessage;
use crate::protocol::RgbSetFullMessage;
use crate::protocol::spec_decode;
use crate::protocol::spec_encode_rgbset;
use crate::protocol::spec_black_full_report;
use crate::protocol::RAW_EPSIZE;

verus! {

/// The (index, premultiplied color) entries for every LED whose color
/// differs between two states, from index `i` up, in index order.
pub open spec fn spec_diff_from(pre: Seq<LedState>, post: Seq<LedState>, i: int) -> Seq<(u8, Hsv)>
    decreases pre.len() - i,
{
    if i < 0 || i >= pre.len() {
        Seq::empty()
    } else {
        let rest = spec_diff_from(pre, post, i + 1);
        if post[i].color != pre[i].color {
            seq![((i as u8), spec_premultiply(post[i].color))] + rest
        } else {
            rest
        }
    }
}

/// The changed-LED entries between two states, in index order.
pub open spec fn spec_diff(pre: Seq<LedState>, post: Seq<LedState>) -> Seq<(u8, Hsv)> {
    spec_diff_from(pre, post, 0)
}

/// Collects the LEDs whose color changed, each with its new color, alpha
/// folded in, in index order.
pub fn diff_led_colors(pre: &Vec<LedState>, post: &Vec<LedState>) -> (r: Vec<(u8, Hsv)>)
    requires
        pre@.len() == post@.len(),
        post@.len() <= 256,
    ensures
        r@ == spec_diff(pre@, post@),
        (forall|t: int| 0 <= t < post@.len() ==> (#[trigger] post@[t]).color.wf()) ==> (forall|
            k: int,
        | 0 <= k < r@.len() ==> (#[trigger] r@[k]).1.wf()),
{
    let n: usize = post.len();
    let mut r: Vec<(u8, Hsv)> = Vec::new();
    let mut i: usize = 0;
    while i < n
        invariant
            n == pre@.len(),
            n == post@.len(),
            n <= 256,
            i <= n,
            spec_diff(pre@, post@) == r@ + spec_diff_from(pre@, post@, i as int),
            (forall|t: int| 0 <= t < post@.len() ==> (#[trigger] post@[t]).color.wf()) ==> (forall|
                k: int,
            | 0 <= k < r@.len() ==> (#[trigger] r@[k]).1.wf()),
        decreases n - i,
    {
        let changed: bool = !(post[i].color == pre[i].color);
        if changed {
            let e: (u8, Hsv) = ((i as u8), premultiply(post[i].color));
            proof {
                assert(spec_diff_from(pre@, post@, i as int) == seq![e] + spec_diff_from(
                    pre@,
                    post@,
                    i + 1,
                ));
                assert(r@ + spec_diff_from(pre@, post@, i as int) =~= r@.push(e)
                    + spec_diff_from(pre@, post@, i + 1));
            }
            r.push(e);
        } else {
            proof {
                assert(spec_diff_from(pre@, post@, i as int) == spec_diff_from(
                    pre@,
                    post@,
                    i + 1,
                ));
            }
        }
        i = i + 1;
    }
    proof {
        assert(spec_diff_from(pre@, post@, n as int) == Seq::<(u8, Hsv)>::empty());
        assert(r@ + Seq::<(u8, Hsv)>::empty() =~= r@);
    }
    r
}

/// How many reports a set of changed entries takes: seven entries per
/// report, so the count rounds up.
pub open spec fn spec_batch_count(n: int) -> int {
    (n + 6) / 7
}

/// Where batch `b` ends: seven entries past its start, or the end of the
/// changes if those run out first.
pub open spec fn spec_batch_end(n: int, b: int) -> int {
    if 7 * b + 7 <= n {
        7 * b + 7
    } else {
        n
    }
}

/// Splits changed-LED entries into outbound batches of at most seven
/// entries each, in order: batch `b` carries entries `7b` up to
/// `spec_batch_end`.
pub fn batch_rgb_messages(changes: &Vec<(u8, Hsv)>) -> (r: Vec<RgbSetMessage>)
    ensures
        r@.len() == spec_batch_count(changes@.len() as int),
        forall|b: int|
            0 <= b < r@.len() ==> (#[trigger] r@[b]).colors@ == changes@.subrange(
                7 * b,
                spec_batch_end(changes@.len() as int, b),
            ),
{
    let n: usize = changes.len();
    let mut r: Vec<RgbSetMessage> = Vec::new();
    let mut i: usize = 0;
    while i < n
        invariant
            n == changes@.len(),
            i <= n,
            i < n ==> i == 7 * r@.len(),
            i == n ==> r@.len() == spec_batch_count(n as int),
            forall|b: int|
                0 <= b < r@.len() ==> (#[trigger] r@[b]).colors@ == changes@.subrange(
                    7 * b,
                    spec_batch_end(n as int, b),
                ),
        decreases n - i,
    {
        let end: usize = if n - i > 7 {
            i + 7
        } else {
            n
        };
        let mut batch: Vec<(u8, Hsv)> = Vec::new();
        let mut j: usize = i;
        while j < end
            invariant
                i <= j <= end,
                end <= n,
                n == changes@.len(),
                batch@ == changes@.subrange(i as int, j as int),
            decreases end - j,
        {
            let e = changes[j];
            proof {
                assert(changes@.subrange(i as int, j + 1) =~= changes@.subrange(
                    i as int,
                    j as int,
                ).push(changes@[j as int]));
            }
            batch.push(e);
            j = j + 1;
        }
        r.push(RgbSetMessage { colors: batch });
        i = end;
    }
    proof {
        if n == 0 {
            assert(spec_batch_count(0) == 0);
        }
    }
    r
}

/// The payloads of a run of batches, concatenated in order.
pub open spec fn spec_concat_batches(batches: Seq<RgbSetMessage>) -> Seq<(u8, Hsv)>
    decreases batches.len(),
{
    if batches.len() == 0 {
        Seq::empty()
    } else {
        batches[0].colors@ + spec_concat_batches(batches.drop_first())
    }
}

/// Where the uncovered tail starts after the first `b` batches.
pub open spec fn spec_batch_start(n: int, b: int) -> int {
    if 7 * b <= n {
        7 * b
    } else {
        n
    }
}

/// The batches from `b0` on carry exactly the tail of the changes.
proof fn lemma_batches_cover_from(changes: Seq<(u8, Hsv)>, batches: Seq<RgbSetMessage>, b0: int)
    requires
        batches.len() == spec_batch_count(changes.len() as int),
        forall|b: int|
            0 <= b < batches.len() ==> (#[trigger] batches[b]).colors@ == changes.subrange(
                7 * b,
                spec_batch_end(changes.len() as int, b),
            ),
        0 <= b0 <= batches.len(),
    ensures
        spec_concat_batches(batches.skip(b0)) == changes.subrange(
            spec_batch_start(changes.len() as int, b0),
            changes.len() as int,
        ),
    decreases batches.len() - b0,
{
    let n = changes.len() as int;
    if b0 == batches.len() {
        assert(batches.skip(b0) =~= Seq::<RgbSetMessage>::empty());
        assert(spec_batch_start(n, b0) == n);
        assert(changes.subrange(n, n) =~= Seq::<(u8, Hsv)>::empty());
    } else {
        lemma_batches_cover_from(changes, batches, b0 + 1);
        assert(batches.skip(b0)[0] == batches[b0]);
        assert(batches.skip(b0).drop_first() =~= batches.skip(b0 + 1));
        assert(spec_concat_batches(batches.skip(b0)) == batches[b0].colors@
            + spec_concat_batches(batches.skip(b0 + 1)));
        assert(spec_batch_end(n, b0) == spec_batch_start(n, b0 + 1));
        assert(changes.subrange(7 * b0, spec_batch_end(n, b0)) + changes.subrange(
            spec_batch_start(n, b0 + 1),
            n,
        ) =~= changes.subrange(spec_batch_start(n, b0), n));
    }
}

/// Batching changed entries yields exactly `ceil(N/7)` reports, each of
/// one to seven entries, whose payloads concatenate back to exactly the
/// entries: every changed index appears exactly once, none dropped, none
/// repeated.
pub proof fn lemma_batches_cover(changes: Seq<(u8, Hsv)>, batches: Seq<RgbSetMessage>)
    requires
        batches.len() == spec_batch_count(changes.len() as int),
        forall|b: int|
            0 <= b < batches.len() ==> (#[trigger] batches[b]).colors@ == changes.subrange(
                7 * b,
                spec_batch_end(changes.len() as int, b),
            ),
    ensures
        spec_concat_batches(batches) == changes,
        forall|b: int| 0 <= b < batches.len() ==> (#[trigger] batches[b]).colors@.len() <= 7,
        forall|b: int| 0 <= b < batches.len() ==> (#[trigger] batches[b]).colors@.len() >= 1,
{
    let n = changes.len() as int;
    lemma_batches_cover_from(changes, batches, 0);
    assert(batches.skip(0) =~= batches);
    assert(changes.subrange(0, n) =~= changes);
    assert forall|b: int| 0 <= b < batches.len() implies (#[trigger] batches[b]).colors@.len() <= 7
        && batches[b].colors@.len() >= 1 by {
        assert(batches[b].colors@ == changes.subrange(7 * b, spec_batch_end(n, b)));
        assert(7 * b < n);
    }
}

/// The published view of one loop tick: the elapsed times, deep copies
/// of the key matrix and the LED colors, and the active layer.
#[derive(Clone, Debug)]
pub struct HIDThreadState {
    /// Microseconds since the previous tick began.
    pub delta_update_us: u64,
    /// Microseconds the last frame actually spanned.
    pub delta_frame_us: u64,
    /// Deep copy of the key matrix, row-major.
    pub matrix: Vec<Vec<KeyState>>,
    /// Deep copy of the LED colors, by LED index.
    pub led_state: Vec<Hsva>,
    /// The firmware's active layer.
    pub layer_state: u8,
}

impl HIDThreadState {
    /// The matrix copy as a mathematical value.
    pub open spec fn matrix_view(self) -> Seq<Seq<KeyState>> {
        self.matrix@.map(|i: int, r: Vec<KeyState>| r@)
    }
}

/// Keeps only the newest of the states drained from the channel; older
/// entries are discarded unread.
pub fn latest_state(drained: Vec<HIDThreadState>) -> (r: Option<HIDThreadState>)
    ensures
        drained@.len() == 0 ==> r is None,
        drained@.len() > 0 ==> (r matches Some(s) && s == drained@.last()),
{
    let mut d = drained;
    d.pop()
}

/// What one tick's raw read decodes to, if anything was read.
pub open spec fn spec_tick_message(report: Option<([u8; RAW_EPSIZE], usize)>) -> Option<
    ProtocolMessage,
> {
    match report {
        Some(r) => spec_decode(r.0@, r.1 as int),
        None => None,
    }
}

/// What one tick does to the record of one key: a press message at its
/// position applies; everything else leaves it alone.
pub open spec fn spec_tick_key(
    ks: KeyState,
    msg: Option<ProtocolMessage>,
    i: int,
    j: int,
    now_us: u64,
) -> KeyState {
    match msg {
        Some(ProtocolMessage::Press(p)) => if p.row == i && p.col == j {
            spec_apply_press(ks, p.pressed, now_us)
        } else {
            ks
        },
        _ => ks,
    }
}

/// What one tick does to the layer state: a layer message replaces it
/// wholesale; everything else leaves it alone.
pub open spec fn spec_tick_layer(layer: u8, msg: Option<ProtocolMessage>) -> u8 {
    match msg {
        Some(ProtocolMessage::Layer(l)) => l.layer_state,
        _ => layer,
    }
}

/// Whether enough time has passed since the last frame for a new one.
pub open spec fn spec_frame_due(last_frame_us: u64, wait_frame_us: u64, now_us: u64) -> bool {
    now_us - last_frame_us >= wait_frame_us
}

/// The outbound reports of one frame: the changed entries split into
/// batches of at most seven, each encoded as one report, in order.
pub open spec fn spec_frame_reports(changes: Seq<(u8, Hsv)>) -> Seq<Seq<u8>> {
    Seq::new(
        spec_batch_count(changes.len() as int) as nat,
        |b: int|
            spec_encode_rgbset(
                changes.subrange(7 * b, spec_batch_end(changes.len() as int, b)),
            ),
    )
}

/// What one tick hands back to the caller: the encoded reports to write
/// to the device, and the snapshot to publish.
pub struct TickOutput {
    /// Encoded outbound reports, to be written in order; each write is
    /// best-effort, a failure is dropped.
    pub reports: Vec<Vec<u8>>,
    /// The snapshot to publish without blocking; dropped if nobody reads.
    pub snapshot: HIDThreadState,
}

impl TickOutput {
    /// The reports as mathematical values.
    pub open spec fn reports_view(self) -> Seq<Seq<u8>> {
        self.reports@.map(|i: int, v: Vec<u8>| v@)
    }
}

/// The state the realtime loop owns: the key matrix, the LED slots, the
/// effect pipeline, the active layer, and the tick/frame timers.
pub struct LoopCore {
    /// The authoritative key state.
    pub matrix: KeyMatrix,
    /// The LED slots, by LED index.
    pub led_state: Vec<LedState>,
    /// The effects run on every frame.
    pub pipeline: EffectPipeline,
    /// The firmware's active layer.
    pub layer_state: u8,
    /// When the previous tick began, in microseconds.
    pub last_update_us: u64,
    /// When the last frame was rendered, in microseconds.
    pub last_frame_us: u64,
    /// How long the last frame actually spanned, in microseconds.
    pub delta_frame_us: u64,
    /// The configured frame interval, in microseconds.
    pub wait_frame_us: u64,
}

impl LoopCore {
    /// The grid is rectangular, the pipeline and the LED colors are
    /// within their bounds, the LED count fits the protocol's one-byte
    /// index, and the frame timer never runs ahead of the tick timer.
    pub open spec fn wf(self) -> bool {
        &&& self.matrix.wf()
        &&& self.pipeline.wf()
        &&& self.led_state@.len() <= 255
        &&& self.last_frame_us <= self.last_update_us
        &&& forall|i: int|
            0 <= i < self.led_state@.len() ==> (#[trigger] self.led_state@[i]).color.wf()
    }

    /// The LED colors, by index.
    pub open spec fn led_colors(self) -> Seq<Hsva> {
        self.led_state@.map(|i: int, s: LedState| s.color)
    }

    /// The key matrix as a mathematical value.
    pub open spec fn keys_view(self) -> Seq<Seq<KeyState>> {
        self.matrix.grid@.map(|i: int, r: Vec<KeyState>| r@)
    }

    /// Builds the loop state a configuration describes: an unseen key
    /// matrix of the configured dimensions, the bound LED slots at their
    /// default color, the default pipeline, layer zero, and timers at
    /// the given start.
    pub fn new(cfg: &KBConfig, wait_frame_us: u64, start_us: u64) -> (r: LoopCore)
        requires
            cfg.wf(),
        ensures
            r.wf(),
            r.matrix.rows() == cfg.rows as int,
            cfg.rows > 0 ==> r.matrix.cols() == cfg.columns as int,
            forall|i: int, j: int|
                0 <= i < r.matrix.rows() && 0 <= j < r.matrix.cols() ==> r.matrix.at(i, j) == (
                KeyState { last_down: None, last_pressed: None, is_pressed: false }),
            r.led_state@.len() == cfg.led_count as int,
            forall|j: int|
                0 <= j < r.led_state@.len() ==> (#[trigger] r.led_state@[j]).color
                    == spec_default_led().color && r.led_state@[j].key == spec_bind(
                    cfg.layout.layout@,
                    spec_led_matrix(cfg.matrix),
                    j,
                ),
            r.pipeline.effects@ =~= seq![Effect::Rainbow1(Rainbow1Effect { base_hue_mdeg: 0 })],
            r.layer_state == 0,
            r.last_update_us == start_us,
            r.last_frame_us == start_us,
            r.delta_frame_us == wait_frame_us,
            r.wait_frame_us == wait_frame_us,
    {
        LoopCore {
            matrix: KeyMatrix::new(cfg.rows(), cfg.columns()),
            led_state: build_led_state(cfg),
            pipeline: EffectPipeline::new_default(),
            layer_state: 0,
            last_update_us: start_us,
            last_frame_us: start_us,
            delta_frame_us: wait_frame_us,
            wait_frame_us,
        }
    }

    /// One loop iteration: applies the decoded inbound report, if any;
    /// on a frame boundary records the actual elapsed frame time, runs
    /// the pipeline, and encodes one report per batch of changed LEDs;
    /// and produces the snapshot to publish. Everything the tick does is
    /// an exact function of the prior state, the clock reading and the
    /// raw report.
    pub fn tick(&mut self, now_us: u64, report: Option<([u8; RAW_EPSIZE], usize)>) -> (r:
        TickOutput)
        requires
            old(self).wf(),
            now_us >= old(self).last_update_us,
        ensures
            final(self).wf(),
            final(self).matrix.rows() == old(self).matrix.rows(),
            final(self).matrix.cols() == old(self).matrix.cols(),
            forall|i: int, j: int|
                0 <= i < old(self).matrix.rows() && 0 <= j < old(self).matrix.cols()
                    ==> final(self).matrix.at(i, j) == spec_tick_key(
                    old(self).matrix.at(i, j),
                    spec_tick_message(report),
                    i,
                    j,
                    now_us,
                ),
            final(self).layer_state == spec_tick_layer(
                old(self).layer_state,
                spec_tick_message(report),
            ),
            final(self).last_update_us == now_us,
            final(self).wait_frame_us == old(self).wait_frame_us,
            !spec_frame_due(old(self).last_frame_us, old(self).wait_frame_us, now_us) ==> {
                &&& final(self).led_state@ == old(self).led_state@
                &&& final(self).pipeline.effects@ == old(self).pipeline.effects@
                &&& final(self).delta_frame_us == old(self).delta_frame_us
                &&& final(self).last_frame_us == old(self).last_frame_us
                &&& r.reports@.len() == 0
            },
            spec_frame_due(old(self).last_frame_us, old(self).wait_frame_us, now_us) ==> {
                let run = spec_pipeline_run(
                    old(self).pipeline.effects@,
                    (now_us - old(self).last_frame_us) as u64,
                    old(self).led_state@,
                    final(self).keys_view(),
                );
                &&& final(self).led_state@ == run.1
                &&& final(self).pipeline.effects@ == run.0
                &&& final(self).delta_frame_us == now_us - old(self).last_frame_us
                &&& final(self).last_frame_us == now_us
                &&& r.reports_view() == spec_frame_reports(
                    spec_diff(old(self).led_state@, run.1),
                )
            },
            r.snapshot.delta_update_us == now_us - old(self).last_update_us,
            r.snapshot.delta_frame_us == final(self).delta_frame_us,
            r.snapshot.layer_state == final(self).layer_state,
            r.snapshot.led_state@ == final(self).led_colors(),
            r.snapshot.matrix_view() == final(self).keys_view(),
    {
        let delta_update_us: u64 = now_us - self.last_update_us;

        match report {
            Some((buf, size)) => {
                match ProtocolMessage::read_buffer(&buf, size) {
                    Some(ProtocolMessage::Press(p)) => {
                        if (p.row as usize) < self.matrix.grid.len() {
                            let cols: usize = self.matrix.grid[p.row as usize].len();
                            if (p.col as usize) < cols {
                                self.matrix.apply_press(p.row, p.col, p.pressed, now_us);
                            }
                        }
                    },
                    Some(ProtocolMessage::Layer(l)) => {
                        self.layer_state = l.layer_state;
                    },
                    _ => {},
                }
            },
            None => {},
        }

        let mut reports: Vec<Vec<u8>> = Vec::new();
        if now_us - self.last_frame_us >= self.wait_frame_us {
            let delta_frame: u64 = now_us - self.last_frame_us;
            self.delta_frame_us = delta_frame;
            let pre = copy_leds(&self.led_state);
            proof {
                crate::effects::lemma_pipeline_run_slots(
                    self.pipeline.effects@,
                    delta_frame,
                    self.led_state@,
                    self.keys_view(),
                );
            }
            self.pipeline.update(delta_frame, &mut self.led_state, &self.matrix);
            let changes = diff_led_colors(&pre, &self.led_state);
            let mut batches = batch_rgb_messages(&changes);
            let ghost all_batches = batches@;
            while batches.len() > 0
                invariant
                    reports@.len() + batches@.len() == all_batches.len(),
                    batches@ == all_batches.skip(reports@.len() as int),
                    forall|b: int|
                        0 <= b < all_batches.len() ==> (#[trigger] all_batches[b]).colors@.len()
                            <= 7 && (forall|k: int|
                            0 <= k < all_batches[b].colors@.len()
                                ==> (#[trigger] all_batches[b].colors@[k]).1.wf()),
                    forall|b: int|
                        0 <= b < reports@.len() ==> (#[trigger] reports@[b])@
                            == spec_encode_rgbset(all_batches[b].colors@),
                decreases batches@.len(),
            {
                let ghost k = reports@.len() as int;
                let msg = batches.remove(0);
                proof {
                    assert(msg == all_batches[k]);
                    assert(all_batches.skip(k).drop_first() =~= all_batches.skip(k + 1));
                    assert(batches@ =~= all_batches.skip(k).drop_first());
                }
                let pm = ProtocolMessage::RgbSet(msg);
                let encoded = pm.encode();
                reports.push(encoded);
            }
            self.last_frame_us = now_us;
            proof {
                assert(reports@.map(|i: int, v: Vec<u8>| v@) =~= spec_frame_reports(
                    spec_diff(pre@, self.led_state@),
                ));
            }
        }

        let snapshot = HIDThreadState {
            delta_update_us,
            delta_frame_us: self.delta_frame_us,
            matrix: self.matrix.snapshot(),
            led_state: led_colors_vec(&self.led_state),
            layer_state: self.layer_state,
        };
        proof {
            assert(snapshot.matrix@.map(|i: int, r: Vec<KeyState>| r@) =~= self.matrix.grid@.map(
                |i: int, r: Vec<KeyState>| r@,
            ));
        }
        self.last_update_us = now_us;
        TickOutput { reports, snapshot }
    }

    /// The one report the loop sends on its way out: all LEDs to black,
    /// a best-effort attempt to leave the hardware dark.
    pub fn shutdown_report() -> (r: Vec<u8>)
        ensures
            r@ == spec_black_full_report(),
    {
        let msg = ProtocolMessage::RgbSetFull(
            RgbSetFullMessage { color: Hsv { hue_mdeg: 0, sat: 0, val: 0 } },
        );
        msg.encode()
    }
}

/// An element-for-element copy of the LED slots.
fn copy_leds(v: &Vec<LedState>) -> (r: Vec<LedState>)
    ensures
        r@ == v@,
{
    let mut r: Vec<LedState> = Vec::new();
    let mut i: usize = 0;
    while i < v.len()
        invariant
            i <= v@.len(),
            r@ == v@.take(i as int),
        decreases v@.len() - i,
    {
        proof {
            assert(v@.take(i + 1) =~= v@.take(i as int).push(v@[i as int]));
        }
        r.push(v[i]);
        i = i + 1;
    }
    proof {
        assert(v@.take(v@.len() as int) =~= v@);
    }
    r
}

/// The colors of the LED slots, by index: the deep copy the snapshot
/// carries.
fn led_colors_vec(v: &Vec<LedState>) -> (r: Vec<Hsva>)
    ensures
        r@ == v@.map(|i: int, s: LedState| s.color),
{
    let mut r: Vec<Hsva> = Vec::new();
    let mut i: usize = 0;
    while i < v.len()
        invariant
            i <= v@.len(),
            r@.len() == i,
            forall|j: int| 0 <= j < i ==> r@[j] == v@[j].color,
        decreases v@.len() - i,
    {
        r.push(v[i].color);
        i = i + 1;
    }
    proof {
        assert(r@ =~= v@.map(|i: int, s: LedState| s.color));
    }
    r
}

} // verus!
