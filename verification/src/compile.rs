//! The design compiler's semantic stage: from a design with resolved
//! asset paths to a render plan — the canvas, one decoded input per
//! asset, one filter chain per visual and audio item, text overlays, and
//! the output settings. The plan is deterministic in its inputs; turning
//! it into the engine's argument list is the render stage's job.

use vstd::prelude::*;
use vstd::string::StringExecFns;
use crate::types::{Design, TrackItem, TrackType};
use crate::parse::{
    opt_str_view, spec_px_val, spec_scale_micro, spec_rotate_micro, spec_alpha_milli,
    spec_brightness_milli, spec_volume_milli, parse_px, parse_scale, parse_rotate,
    opacity_alpha, brightness_offset, volume_milli,
};
use crate::types::clone_opt_string;

verus! {

/// What the capability probe reported: whether hardware encoding is
/// usable.
#[derive(Clone, Copy, Debug, PartialEq, Eq, Structural)]
pub struct BackendCaps {
    pub nvenc: bool,
}

/// Why compilation failed. A composite with no video layer is
/// meaningless; every other irregularity degrades to a default instead.
#[derive(Clone, Copy, Debug, PartialEq, Eq, Structural)]
pub enum CompileError {
    NoVisualTracks,
}

impl CompileError {
    /// A human-readable description of the failure.
    pub fn message(&self) -> (r: String)
        ensures
            r@ == "no visual tracks"@,
    {
        proof {
            reveal_strlit("no visual tracks");
        }
        let s: &str = "no visual tracks";
        s.to_owned()
    }
}

/// The default canvas width when the design gives none.
pub const DEFAULT_WIDTH: u32 = 1080;

/// The default canvas height when the design gives none.
pub const DEFAULT_HEIGHT: u32 = 1920;

/// The default frame rate when the design gives none.
pub const DEFAULT_FPS: u32 = 30;

/// The default output duration, in milliseconds, when no item bounds
/// the timeline.
pub const DEFAULT_DURATION_MS: u64 = 10000;

// ---------------------------------------------------------------------
// Duration
// ---------------------------------------------------------------------

/// The end an item claims on the timeline: the larger of its trim end
/// and its display end, zero when it has neither.
pub open spec fn item_end(it: TrackItem) -> nat {
    let t = match it.trim.to {
        Some(v) => v as nat,
        None => 0,
    };
    let d = match it.display.to {
        Some(v) => v as nat,
        None => 0,
    };
    if t >= d {
        t
    } else {
        d
    }
}

/// The largest end over a sequence of items.
pub open spec fn max_end(items: Seq<TrackItem>) -> nat
    decreases items.len(),
{
    if items.len() == 0 {
        0
    } else {
        let rest = max_end(items.drop_last());
        let last = item_end(items.last());
        if last >= rest {
            last
        } else {
            rest
        }
    }
}

/// The output duration of a design: the largest item end, or the default
/// when no item sets one.
pub open spec fn spec_duration_ms(d: Design) -> nat {
    if max_end(d.items()) == 0 {
        DEFAULT_DURATION_MS as nat
    } else {
        max_end(d.items())
    }
}

/// `max_end` bounds every item and is attained by one of them.
proof fn lemma_max_end(items: Seq<TrackItem>)
    ensures
        forall|i: int| 0 <= i < items.len() ==> item_end(#[trigger] items[i]) <= max_end(items),
        items.len() > 0 ==> exists|i: int|
            0 <= i < items.len() && item_end(#[trigger] items[i]) == max_end(items),
    decreases items.len(),
{
    if items.len() > 0 {
        lemma_max_end(items.drop_last());
        assert(forall|i: int|
            0 <= i < items.len() - 1 ==> items.drop_last()[i] == #[trigger] items[i]);
        if items.len() > 1 && max_end(items) == max_end(items.drop_last()) && item_end(
            items.last(),
        ) < max_end(items) {
            let w = choose|i: int|
                0 <= i < items.len() - 1 && item_end(#[trigger] items.drop_last()[i]) == max_end(
                    items.drop_last(),
                );
            assert(item_end(items[w]) == max_end(items));
        }
    }
}

/// The duration law: the output duration is the largest of the items'
/// trim and display ends, and exactly the default when no item sets
/// either.
pub proof fn lemma_duration_is_max(d: Design)
    ensures
        forall|i: int|
            0 <= i < d.items().len() ==> item_end(#[trigger] d.items()[i]) <= spec_duration_ms(d),
        (forall|i: int| 0 <= i < d.items().len() ==> item_end(#[trigger] d.items()[i]) == 0)
            ==> spec_duration_ms(d) == DEFAULT_DURATION_MS as nat,
        max_end(d.items()) > 0 ==> exists|i: int|
            0 <= i < d.items().len() && item_end(#[trigger] d.items()[i]) == spec_duration_ms(d),
{
    lemma_max_end(d.items());
    if forall|i: int| 0 <= i < d.items().len() ==> item_end(#[trigger] d.items()[i]) == 0 {
        if max_end(d.items()) > 0 {
            let w = choose|i: int|
                0 <= i < d.items().len() && item_end(#[trigger] d.items()[i]) == max_end(
                    d.items(),
                );
            assert(item_end(d.items()[w]) == 0);
        }
    }
}

/// The output duration of a design, in milliseconds.
pub fn compute_duration_ms(design: &Design) -> (r: u64)
    ensures
        r as nat == spec_duration_ms(*design),
        r > 0,
{
    let items = design.effective_items();
    let mut acc: u64 = 0;
    let mut i: usize = 0;
    while i < items.len()
        invariant
            items@ == design.items(),
            i <= items@.len(),
            acc as nat == max_end(items@.take(i as int)),
        decreases items@.len() - i,
    {
        let it = &items[i];
        let trim_end = match it.trim.to {
            Some(v) => v,
            None => 0,
        };
        if trim_end > acc {
            acc = trim_end;
        }
        let disp_end = match it.display.to {
            Some(v) => v,
            None => 0,
        };
        if disp_end > acc {
            acc = disp_end;
        }
        proof {
            assert(items@.take(i + 1 as int).drop_last() =~= items@.take(i as int));
            assert(items@.take(i + 1 as int).last() == items@[i as int]);
        }
        i += 1;
    }
    proof {
        assert(items@.take(items@.len() as int) =~= items@);
    }
    if acc == 0 {
        DEFAULT_DURATION_MS
    } else {
        acc
    }
}

// ---------------------------------------------------------------------
// Plan data
// ---------------------------------------------------------------------

/// One decoded input of the command: its local path, and whether it is a
/// still image that must be looped and truncated to the output duration.
pub struct PlanInput {
    pub path: String,
    pub image_loop: bool,
}

/// The ghost image of a `PlanInput`.
pub ghost struct PlanInputV {
    pub path: Seq<char>,
    pub image_loop: bool,
}

impl View for PlanInput {
    type V = PlanInputV;

    open spec fn view(&self) -> PlanInputV {
        PlanInputV { path: self.path@, image_loop: self.image_loop }
    }
}

/// The per-item filter chain of a visual (video or image) item, plus its
/// overlay placement and visibility window.
pub struct VisualChain {
    pub input_index: usize,
    pub scale_w: i32,
    pub scale_h: i32,
    pub rotate_micro: Option<i64>,
    pub brightness_milli: Option<i64>,
    pub alpha_milli: Option<u32>,
    pub x: i32,
    pub y: i32,
    pub start_ms: u64,
    pub end_ms: u64,
}

/// The ghost image of a `VisualChain`.
pub ghost struct VisualChainV {
    pub input_index: int,
    pub scale_w: int,
    pub scale_h: int,
    pub rotate_micro: Option<int>,
    pub brightness_milli: Option<int>,
    pub alpha_milli: Option<int>,
    pub x: int,
    pub y: int,
    pub start_ms: int,
    pub end_ms: int,
}

impl View for VisualChain {
    type V = VisualChainV;

    open spec fn view(&self) -> VisualChainV {
        VisualChainV {
            input_index: self.input_index as int,
            scale_w: self.scale_w as int,
            scale_h: self.scale_h as int,
            rotate_micro: match self.rotate_micro {
                Some(v) => Some(v as int),
                None => None,
            },
            brightness_milli: match self.brightness_milli {
                Some(v) => Some(v as int),
                None => None,
            },
            alpha_milli: match self.alpha_milli {
                Some(v) => Some(v as int),
                None => None,
            },
            x: self.x as int,
            y: self.y as int,
            start_ms: self.start_ms as int,
            end_ms: self.end_ms as int,
        }
    }
}

/// The filter chain of one audio item: volume scaling, an optional
/// leading trim, a delay aligning it on the timeline, and the final
/// trim/pad to the output duration.
pub struct AudioChain {
    pub input_index: usize,
    pub volume_milli: u32,
    pub trim_from_ms: Option<u64>,
    pub delay_ms: u64,
    pub duration_ms: u64,
}

/// The ghost image of an `AudioChain`.
pub ghost struct AudioChainV {
    pub input_index: int,
    pub volume_milli: int,
    pub trim_from_ms: Option<int>,
    pub delay_ms: int,
    pub duration_ms: int,
}

impl View for AudioChain {
    type V = AudioChainV;

    open spec fn view(&self) -> AudioChainV {
        AudioChainV {
            input_index: self.input_index as int,
            volume_milli: self.volume_milli as int,
            trim_from_ms: match self.trim_from_ms {
                Some(v) => Some(v as int),
                None => None,
            },
            delay_ms: self.delay_ms as int,
            duration_ms: self.duration_ms as int,
        }
    }
}

/// One text overlay: drawn onto the running composite within its own
/// display window.
pub struct TextChain {
    pub id: String,
    pub font_path: String,
    pub text: String,
    pub font_size: u32,
    pub x: i32,
    pub y: i32,
    pub alpha_milli: u32,
    pub color: String,
    pub border_w: u32,
    pub border_color: String,
    pub start_ms: u64,
    pub end_ms: u64,
}

/// The ghost image of a `TextChain`.
pub ghost struct TextChainV {
    pub id: Seq<char>,
    pub font_path: Seq<char>,
    pub text: Seq<char>,
    pub font_size: int,
    pub x: int,
    pub y: int,
    pub alpha_milli: int,
    pub color: Seq<char>,
    pub border_w: int,
    pub border_color: Seq<char>,
    pub start_ms: int,
    pub end_ms: int,
}

impl View for TextChain {
    type V = TextChainV;

    open spec fn view(&self) -> TextChainV {
        TextChainV {
            id: self.id@,
            font_path: self.font_path@,
            text: self.text@,
            font_size: self.font_size as int,
            x: self.x as int,
            y: self.y as int,
            alpha_milli: self.alpha_milli as int,
            color: self.color@,
            border_w: self.border_w as int,
            border_color: self.border_color@,
            start_ms: self.start_ms as int,
            end_ms: self.end_ms as int,
        }
    }
}

/// The compiled plan: everything the argument renderer needs, in order.
pub struct RenderPlan {
    pub width: u32,
    pub height: u32,
    pub fps: u32,
    pub duration_ms: u64,
    pub use_hw: bool,
    pub inputs: Vec<PlanInput>,
    pub visuals: Vec<VisualChain>,
    pub texts: Vec<TextChain>,
    pub audios: Vec<AudioChain>,
    pub out_path: String,
}

/// The ghost image of a `RenderPlan`.
pub ghost struct RenderPlanV {
    pub width: int,
    pub height: int,
    pub fps: int,
    pub duration_ms: int,
    pub use_hw: bool,
    pub inputs: Seq<PlanInputV>,
    pub visuals: Seq<VisualChainV>,
    pub texts: Seq<TextChainV>,
    pub audios: Seq<AudioChainV>,
    pub out_path: Seq<char>,
}

impl View for RenderPlan {
    type V = RenderPlanV;

    open spec fn view(&self) -> RenderPlanV {
        RenderPlanV {
            width: self.width as int,
            height: self.height as int,
            fps: self.fps as int,
            duration_ms: self.duration_ms as int,
            use_hw: self.use_hw,
            inputs: self.inputs@.map_values(|p: PlanInput| p@),
            visuals: self.visuals@.map_values(|v: VisualChain| v@),
            texts: self.texts@.map_values(|t: TextChain| t@),
            audios: self.audios@.map_values(|a: AudioChain| a@),
            out_path: self.out_path@,
        }
    }
}

// ---------------------------------------------------------------------
// Spec builders: from items to chains
// ---------------------------------------------------------------------

/// A visual item: one that contributes a video layer.
pub open spec fn is_visual(k: TrackType) -> bool {
    k == TrackType::Video || k == TrackType::Image
}

/// Field accessors over an item's optional details.
pub open spec fn d_width(it: TrackItem) -> Option<u32> {
    match it.details {
        Some(d) => d.width,
        None => None,
    }
}

pub open spec fn d_height(it: TrackItem) -> Option<u32> {
    match it.details {
        Some(d) => d.height,
        None => None,
    }
}

pub open spec fn d_opacity(it: TrackItem) -> Option<u32> {
    match it.details {
        Some(d) => d.opacity_tenths,
        None => None,
    }
}

pub open spec fn d_volume(it: TrackItem) -> Option<u32> {
    match it.details {
        Some(d) => d.volume_tenths,
        None => None,
    }
}

pub open spec fn d_brightness(it: TrackItem) -> Option<u32> {
    match it.details {
        Some(d) => d.brightness_tenths,
        None => None,
    }
}

pub open spec fn d_left(it: TrackItem) -> Option<Seq<char>> {
    match it.details {
        Some(d) => match d.left {
            Some(s) => Some(s@),
            None => None,
        },
        None => None,
    }
}

pub open spec fn d_top(it: TrackItem) -> Option<Seq<char>> {
    match it.details {
        Some(d) => match d.top {
            Some(s) => Some(s@),
            None => None,
        },
        None => None,
    }
}

pub open spec fn d_transform(it: TrackItem) -> Option<Seq<char>> {
    match it.details {
        Some(d) => match d.transform {
            Some(s) => Some(s@),
            None => None,
        },
        None => None,
    }
}

pub open spec fn d_rotate(it: TrackItem) -> Option<Seq<char>> {
    match it.details {
        Some(d) => match d.rotate {
            Some(s) => Some(s@),
            None => None,
        },
        None => None,
    }
}

/// The scheduled start of an item on the timeline: its display start,
/// else its trim start, else zero.
pub open spec fn overlay_start_ms(it: TrackItem) -> int {
    match it.display.from {
        Some(v) => v as int,
        None => match it.trim.from {
            Some(v) => v as int,
            None => 0,
        },
    }
}

/// The end of an item's visibility window: its display end, else its
/// trim end, else the output duration.
pub open spec fn overlay_end_ms(it: TrackItem, dur: int) -> int {
    match it.display.to {
        Some(v) => v as int,
        None => match it.trim.to {
            Some(v) => v as int,
            None => dur,
        },
    }
}

/// A scaled dimension: the item dimension (or the canvas dimension)
/// times the scale factor, truncated, clamped into `i32`, and at least
/// one pixel.
pub open spec fn spec_scaled_dim(base: int, scale_micro: int) -> int {
    let t = (base * scale_micro) / 1000000;
    if t > i32::MAX as int {
        i32::MAX as int
    } else if t < 1 {
        1
    } else {
        t
    }
}

/// The filter chain a visual item compiles to.
pub open spec fn spec_visual_chain(it: TrackItem, ff_idx: int, cw: int, ch: int, dur: int)
    -> VisualChainV {
    let base_w = match d_width(it) {
        Some(v) => v as int,
        None => cw,
    };
    let base_h = match d_height(it) {
        Some(v) => v as int,
        None => ch,
    };
    let sc = spec_scale_micro(d_transform(it));
    let rot = spec_rotate_micro(d_rotate(it));
    let br = spec_brightness_milli(d_brightness(it));
    let al = spec_alpha_milli(d_opacity(it));
    VisualChainV {
        input_index: ff_idx,
        scale_w: spec_scaled_dim(base_w, sc),
        scale_h: spec_scaled_dim(base_h, sc),
        rotate_micro: if rot > 10000 || rot < -10000 {
            Some(rot)
        } else {
            None
        },
        brightness_milli: if br > 1 || br < -1 {
            Some(br)
        } else {
            None
        },
        alpha_milli: if al < 999 {
            Some(al)
        } else {
            None
        },
        x: spec_px_val(d_left(it)),
        y: spec_px_val(d_top(it)),
        start_ms: overlay_start_ms(it),
        end_ms: overlay_end_ms(it, dur),
    }
}

/// The alpha gate: a visual item's chain carries an alpha-multiply step
/// exactly when its opacity, clamped to full, is below 99.9 percent (999
/// thousandths), and then with the item's exact normalized alpha.
pub proof fn lemma_alpha_gate(it: TrackItem, ff_idx: int, cw: int, ch: int, dur: int)
    ensures
        (spec_visual_chain(it, ff_idx, cw, ch, dur).alpha_milli is None) <==> spec_alpha_milli(
            d_opacity(it),
        ) >= 999,
        spec_visual_chain(it, ff_idx, cw, ch, dur).alpha_milli matches Some(a) ==> a
            == spec_alpha_milli(d_opacity(it)),
{
}

/// The filter chain an audio item compiles to.
pub open spec fn spec_audio_chain(it: TrackItem, ff_idx: int, dur: int) -> AudioChainV {
    AudioChainV {
        input_index: ff_idx,
        volume_milli: spec_volume_milli(d_volume(it)),
        trim_from_ms: match it.trim.from {
            Some(v) => Some(v as int),
            None => None,
        },
        delay_ms: overlay_start_ms(it),
        duration_ms: dur,
    }
}

/// The visual chains of a resolved asset list, in input order.
pub open spec fn spec_visuals(
    assets: Seq<(usize, TrackItem, String)>,
    cw: int,
    ch: int,
    dur: int,
) -> Seq<VisualChainV>
    decreases assets.len(),
{
    if assets.len() == 0 {
        Seq::empty()
    } else {
        let rest = spec_visuals(assets.drop_last(), cw, ch, dur);
        let a = assets.last();
        if is_visual(a.1.kind) {
            rest.push(spec_visual_chain(a.1, a.0 as int + 1, cw, ch, dur))
        } else {
            rest
        }
    }
}

/// The audio chains of a resolved asset list, in input order.
pub open spec fn spec_audios(assets: Seq<(usize, TrackItem, String)>, dur: int) -> Seq<
    AudioChainV,
>
    decreases assets.len(),
{
    if assets.len() == 0 {
        Seq::empty()
    } else {
        let rest = spec_audios(assets.drop_last(), dur);
        let a = assets.last();
        if a.1.kind == TrackType::Audio {
            rest.push(spec_audio_chain(a.1, a.0 as int + 1, dur))
        } else {
            rest
        }
    }
}

/// The inputs of a resolved asset list, in order: each asset's path,
/// flagged for looping when the item is a still image.
pub open spec fn spec_inputs(assets: Seq<(usize, TrackItem, String)>) -> Seq<PlanInputV>
    decreases assets.len(),
{
    if assets.len() == 0 {
        Seq::empty()
    } else {
        spec_inputs(assets.drop_last()).push(
            PlanInputV {
                path: assets.last().2@,
                image_loop: assets.last().1.kind == TrackType::Image,
            },
        )
    }
}

/// The font path recorded for an item identifier, if any: the first
/// entry with that key.
pub open spec fn spec_font_lookup(fonts: Seq<(String, String)>, id: Seq<char>) -> Option<
    Seq<char>,
>
    decreases fonts.len(),
{
    if fonts.len() == 0 {
        None
    } else if fonts.first().0@ == id {
        Some(fonts.first().1@)
    } else {
        spec_font_lookup(fonts.drop_first(), id)
    }
}

/// Text field accessors with their defaults.
pub open spec fn d_text(it: TrackItem) -> Seq<char> {
    match it.details {
        Some(d) => match d.text {
            Some(s) => s@,
            None => Seq::empty(),
        },
        None => Seq::empty(),
    }
}

pub open spec fn d_font_size(it: TrackItem) -> int {
    match it.details {
        Some(d) => match d.font_size {
            Some(v) => v as int,
            None => 48,
        },
        None => 48,
    }
}

pub open spec fn d_color(it: TrackItem) -> Seq<char> {
    match it.details {
        Some(d) => match d.color {
            Some(s) => s@,
            None => "white"@,
        },
        None => "white"@,
    }
}

pub open spec fn d_border_color(it: TrackItem) -> Seq<char> {
    match it.details {
        Some(d) => match d.border_color {
            Some(s) => s@,
            None => "black"@,
        },
        None => "black"@,
    }
}

pub open spec fn d_border_width(it: TrackItem) -> int {
    match it.details {
        Some(d) => match d.border_width {
            Some(v) => v as int,
            None => 0,
        },
        None => 0,
    }
}

/// The start of a text overlay's window: its display start, else zero.
pub open spec fn text_start_ms(it: TrackItem) -> int {
    match it.display.from {
        Some(v) => v as int,
        None => 0,
    }
}

/// The end of a text overlay's window: its display end, else the output
/// duration.
pub open spec fn text_end_ms(it: TrackItem, dur: int) -> int {
    match it.display.to {
        Some(v) => v as int,
        None => dur,
    }
}

/// The overlay a text item compiles to, given its resolved font path.
pub open spec fn spec_text_chain(it: TrackItem, id: Seq<char>, font: Seq<char>, dur: int)
    -> TextChainV {
    TextChainV {
        id: id,
        font_path: font,
        text: d_text(it),
        font_size: d_font_size(it),
        x: spec_px_val(d_left(it)),
        y: spec_px_val(d_top(it)),
        alpha_milli: spec_alpha_milli(d_opacity(it)),
        color: d_color(it),
        border_w: d_border_width(it),
        border_color: d_border_color(it),
        start_ms: text_start_ms(it),
        end_ms: text_end_ms(it, dur),
    }
}

/// The text overlays of a design, in item order: text items that carry
/// an identifier with a resolved font; any other text item is skipped.
pub open spec fn spec_texts(
    items: Seq<TrackItem>,
    fonts: Seq<(String, String)>,
    dur: int,
) -> Seq<TextChainV>
    decreases items.len(),
{
    if items.len() == 0 {
        Seq::empty()
    } else {
        let rest = spec_texts(items.drop_last(), fonts, dur);
        let it = items.last();
        if it.kind == TrackType::Text {
            match it.id {
                Some(id) => match spec_font_lookup(fonts, id@) {
                    Some(font) => rest.push(spec_text_chain(it, id@, font, dur)),
                    None => rest,
                },
                None => rest,
            }
        } else {
            rest
        }
    }
}

/// Whether some resolved asset is visual.
pub open spec fn has_visual(assets: Seq<(usize, TrackItem, String)>) -> bool {
    exists|i: int| 0 <= i < assets.len() && is_visual(#[trigger] assets[i].1.kind)
}

/// The plan a design compiles to.
pub open spec fn spec_plan(
    workdir: Seq<char>,
    d: Design,
    assets: Seq<(usize, TrackItem, String)>,
    caps: BackendCaps,
    fonts: Seq<(String, String)>,
) -> RenderPlanV {
    let cw = match d.size {
        Some(s) => s.width as int,
        None => DEFAULT_WIDTH as int,
    };
    let ch = match d.size {
        Some(s) => s.height as int,
        None => DEFAULT_HEIGHT as int,
    };
    let fps = match d.fps {
        Some(v) => v as int,
        None => DEFAULT_FPS as int,
    };
    let dur = spec_duration_ms(d) as int;
    RenderPlanV {
        width: cw,
        height: ch,
        fps: fps,
        duration_ms: dur,
        use_hw: caps.nvenc,
        inputs: spec_inputs(assets),
        visuals: spec_visuals(assets, cw, ch, dur),
        texts: spec_texts(d.items(), fonts, dur),
        audios: spec_audios(assets, dur),
        out_path: workdir + "/output.mp4"@,
    }
}

// ---------------------------------------------------------------------
// Executable compilation
// ---------------------------------------------------------------------

/// A scaled dimension, executable.
fn scaled_dim(base: u32, scale_micro: i64) -> (r: i32)
    requires
        -1_000_000_000_001_000_000 <= scale_micro <= 1_000_000_000_001_000_000,
    ensures
        r as int == spec_scaled_dim(base as int, scale_micro as int),
        r >= 1,
{
    proof {
        assert((base as int) * (scale_micro as int) <= 4294967295
            * 1_000_000_000_001_000_000 && (base as int) * (scale_micro as int) >= -(4294967295
            * 1_000_000_000_001_000_000)) by (nonlinear_arith)
            requires
                0 <= base <= 4294967295,
                -1_000_000_000_001_000_000 <= scale_micro <= 1_000_000_000_001_000_000,
        ;
    }
    let prod: i128 = (base as i128) * (scale_micro as i128);
    if prod < 1000000 {
        1
    } else {
        let t: i128 = prod / 1000000;
        if t > i32::MAX as i128 {
            i32::MAX
        } else {
            t as i32
        }
    }
}

/// Compile one visual item into its chain.
fn build_visual_chain(it: &TrackItem, ff_idx: usize, cw: u32, ch: u32, dur: u64) -> (r:
    VisualChain)
    ensures
        r@ == spec_visual_chain(*it, ff_idx as int, cw as int, ch as int, dur as int),
{
    let base_w = match &it.details {
        Some(d) => match d.width {
            Some(v) => v,
            None => cw,
        },
        None => cw,
    };
    let base_h = match &it.details {
        Some(d) => match d.height {
            Some(v) => v,
            None => ch,
        },
        None => ch,
    };
    let transform = match &it.details {
        Some(d) => clone_opt_string(&d.transform),
        None => None,
    };
    let rotate = match &it.details {
        Some(d) => clone_opt_string(&d.rotate),
        None => None,
    };
    let left = match &it.details {
        Some(d) => clone_opt_string(&d.left),
        None => None,
    };
    let top = match &it.details {
        Some(d) => clone_opt_string(&d.top),
        None => None,
    };
    let opacity = match &it.details {
        Some(d) => d.opacity_tenths,
        None => None,
    };
    let brightness = match &it.details {
        Some(d) => d.brightness_tenths,
        None => None,
    };
    let sc = parse_scale(&transform);
    let rot = parse_rotate(&rotate);
    let br = brightness_offset(brightness);
    let al = opacity_alpha(opacity);
    let start: u64 = match it.display.from {
        Some(v) => v,
        None => match it.trim.from {
            Some(v) => v,
            None => 0,
        },
    };
    let end: u64 = match it.display.to {
        Some(v) => v,
        None => match it.trim.to {
            Some(v) => v,
            None => dur,
        },
    };
    VisualChain {
        input_index: ff_idx,
        scale_w: scaled_dim(base_w, sc),
        scale_h: scaled_dim(base_h, sc),
        rotate_micro: if rot > 10000 || rot < -10000 {
            Some(rot)
        } else {
            None
        },
        brightness_milli: if br > 1 || br < -1 {
            Some(br)
        } else {
            None
        },
        alpha_milli: if al < 999 {
            Some(al)
        } else {
            None
        },
        x: parse_px(&left),
        y: parse_px(&top),
        start_ms: start,
        end_ms: end,
    }
}

/// Compile one audio item into its chain.
fn build_audio_chain(it: &TrackItem, ff_idx: usize, dur: u64) -> (r: AudioChain)
    ensures
        r@ == spec_audio_chain(*it, ff_idx as int, dur as int),
{
    let volume = match &it.details {
        Some(d) => d.volume_tenths,
        None => None,
    };
    let start: u64 = match it.display.from {
        Some(v) => v,
        None => match it.trim.from {
            Some(v) => v,
            None => 0,
        },
    };
    AudioChain {
        input_index: ff_idx,
        volume_milli: volume_milli(volume),
        trim_from_ms: it.trim.from,
        delay_ms: start,
        duration_ms: dur,
    }
}

/// Look an item identifier up in the font map: the first entry wins.
fn font_lookup(fonts: &Vec<(String, String)>, id: &String) -> (r: Option<String>)
    ensures
        match r {
            Some(p) => spec_font_lookup(fonts@, id@) == Some(p@),
            None => spec_font_lookup(fonts@, id@) is None,
        },
{
    let mut i: usize = 0;
    proof {
        assert(fonts@.skip(0) =~= fonts@);
    }
    while i < fonts.len()
        invariant
            i <= fonts@.len(),
            spec_font_lookup(fonts@, id@) == spec_font_lookup(fonts@.skip(i as int), id@),
        decreases fonts@.len() - i,
    {
        proof {
            assert(fonts@.skip(i as int).first() == fonts@[i as int]);
            assert(fonts@.skip(i as int).drop_first() =~= fonts@.skip(i + 1 as int));
        }
        if fonts[i].0 == *id {
            return Some(fonts[i].1.clone());
        }
        i += 1;
    }
    proof {
        assert(fonts@.skip(fonts@.len() as int).len() == 0);
    }
    None
}

/// Compile one text item into its overlay, given its font path.
fn build_text_chain(it: &TrackItem, id: &String, font: String, dur: u64) -> (r: TextChain)
    ensures
        r@ == spec_text_chain(*it, id@, font@, dur as int),
{
    let text: String = match &it.details {
        Some(d) => match &d.text {
            Some(s) => s.clone(),
            None => String::new(),
        },
        None => String::new(),
    };
    let font_size: u32 = match &it.details {
        Some(d) => match d.font_size {
            Some(v) => v,
            None => 48,
        },
        None => 48,
    };
    let color: String = match &it.details {
        Some(d) => match &d.color {
            Some(s) => s.clone(),
            None => {
                let w: &str = "white";
                w.to_owned()
            },
        },
        None => {
            let w: &str = "white";
            w.to_owned()
        },
    };
    let border_color: String = match &it.details {
        Some(d) => match &d.border_color {
            Some(s) => s.clone(),
            None => {
                let b: &str = "black";
                b.to_owned()
            },
        },
        None => {
            let b: &str = "black";
            b.to_owned()
        },
    };
    let border_w: u32 = match &it.details {
        Some(d) => match d.border_width {
            Some(v) => v,
            None => 0,
        },
        None => 0,
    };
    let left = match &it.details {
        Some(d) => clone_opt_string(&d.left),
        None => None,
    };
    let top = match &it.details {
        Some(d) => clone_opt_string(&d.top),
        None => None,
    };
    let opacity = match &it.details {
        Some(d) => d.opacity_tenths,
        None => None,
    };
    let start: u64 = match it.display.from {
        Some(v) => v,
        None => 0,
    };
    let end: u64 = match it.display.to {
        Some(v) => v,
        None => dur,
    };
    TextChain {
        id: id.clone(),
        font_path: font,
        text: text,
        font_size: font_size,
        x: parse_px(&left),
        y: parse_px(&top),
        alpha_milli: opacity_alpha(opacity),
        color: color,
        border_w: border_w,
        border_color: border_color,
        start_ms: start,
        end_ms: end,
    }
}

/// Compile a design with resolved assets into a render plan.
///
/// Fails exactly when no resolved asset is a visual (video or image)
/// item: a composite with no video layer is meaningless. Everything else
/// degrades to documented defaults.
pub fn compile_plan(
    workdir: &str,
    design: &Design,
    assets: &Vec<(usize, TrackItem, String)>,
    caps: &BackendCaps,
    font_map: &Vec<(String, String)>,
) -> (r: Result<RenderPlan, CompileError>)
    requires
        forall|i: int| 0 <= i < assets@.len() ==> (#[trigger] assets@[i]).0 == i,
        assets@.len() < usize::MAX,
    ensures
        r is Err <==> !has_visual(assets@),
        r matches Ok(p) ==> p@ == spec_plan(workdir@, *design, assets@, *caps, font_map@),
{
    let cw = match &design.size {
        Some(s) => s.width,
        None => DEFAULT_WIDTH,
    };
    let ch = match &design.size {
        Some(s) => s.height,
        None => DEFAULT_HEIGHT,
    };
    let fps = match design.fps {
        Some(v) => v,
        None => DEFAULT_FPS,
    };
    let dur = compute_duration_ms(design);

    let mut inputs: Vec<PlanInput> = Vec::new();
    let mut visuals: Vec<VisualChain> = Vec::new();
    let mut audios: Vec<AudioChain> = Vec::new();
    let mut i: usize = 0;
    while i < assets.len()
        invariant
            forall|j: int| 0 <= j < assets@.len() ==> (#[trigger] assets@[j]).0 == j,
            assets@.len() < usize::MAX,
            i <= assets@.len(),
            inputs@.map_values(|p: PlanInput| p@) =~= spec_inputs(assets@.take(i as int)),
            visuals@.map_values(|v: VisualChain| v@) =~= spec_visuals(
                assets@.take(i as int),
                cw as int,
                ch as int,
                dur as int,
            ),
            audios@.map_values(|a: AudioChain| a@) =~= spec_audios(
                assets@.take(i as int),
                dur as int,
            ),
        decreases assets@.len() - i,
    {
        let item = &assets[i].1;
        let path = assets[i].2.clone();
        let is_image = match item.kind {
            TrackType::Image => true,
            _ => false,
        };
        inputs.push(PlanInput { path: path, image_loop: is_image });
        let ff_idx = assets[i].0 + 1;
        match item.kind {
            TrackType::Video | TrackType::Image => {
                let chain = build_visual_chain(item, ff_idx, cw, ch, dur);
                visuals.push(chain);
            },
            TrackType::Audio => {
                let chain = build_audio_chain(item, ff_idx, dur);
                audios.push(chain);
            },
            TrackType::Text => {},
        }
        proof {
            let prev = assets@.take(i as int);
            let cur = assets@.take(i + 1 as int);
            assert(cur.drop_last() =~= prev);
            assert(cur.last() == assets@[i as int]);
            assert(spec_inputs(cur) == spec_inputs(prev).push(
                PlanInputV {
                    path: assets@[i as int].2@,
                    image_loop: assets@[i as int].1.kind == TrackType::Image,
                },
            ));
            assert(inputs@.map_values(|p: PlanInput| p@) =~= spec_inputs(cur));
            if is_visual(assets@[i as int].1.kind) {
                assert(spec_visuals(cur, cw as int, ch as int, dur as int) == spec_visuals(
                    prev,
                    cw as int,
                    ch as int,
                    dur as int,
                ).push(
                    spec_visual_chain(
                        assets@[i as int].1,
                        assets@[i as int].0 as int + 1,
                        cw as int,
                        ch as int,
                        dur as int,
                    ),
                ));
            }
            assert(visuals@.map_values(|v: VisualChain| v@) =~= spec_visuals(
                cur,
                cw as int,
                ch as int,
                dur as int,
            ));
            assert(audios@.map_values(|a: AudioChain| a@) =~= spec_audios(cur, dur as int));
        }
        i += 1;
    }
    proof {
        assert(assets@.take(assets@.len() as int) =~= assets@);
    }

    if visuals.len() == 0 {
        proof {
            lemma_no_visuals(assets@, cw as int, ch as int, dur as int);
        }
        return Err(CompileError::NoVisualTracks);
    }
    proof {
        lemma_some_visual(assets@, cw as int, ch as int, dur as int);
    }

    // Text overlays follow the canonical item order of the design.
    let items = design.effective_items();
    let mut texts: Vec<TextChain> = Vec::new();
    let mut j: usize = 0;
    while j < items.len()
        invariant
            items@ == design.items(),
            j <= items@.len(),
            texts@.map_values(|t: TextChain| t@) =~= spec_texts(
                items@.take(j as int),
                font_map@,
                dur as int,
            ),
        decreases items@.len() - j,
    {
        let it = &items[j];
        match it.kind {
            TrackType::Text => {
                match &it.id {
                    Some(id) => {
                        match font_lookup(font_map, id) {
                            Some(font) => {
                                let chain = build_text_chain(it, id, font, dur);
                                texts.push(chain);
                            },
                            None => {},
                        }
                    },
                    None => {},
                }
            },
            _ => {},
        }
        proof {
            assert(items@.take(j + 1 as int).drop_last() =~= items@.take(j as int));
            assert(items@.take(j + 1 as int).last() == items@[j as int]);
        }
        j += 1;
    }
    proof {
        assert(items@.take(items@.len() as int) =~= items@);
    }

    let mut out_path = workdir.to_owned();
    out_path.append("/output.mp4");
    Ok(
        RenderPlan {
            width: cw,
            height: ch,
            fps: fps,
            duration_ms: dur,
            use_hw: caps.nvenc,
            inputs: inputs,
            visuals: visuals,
            texts: texts,
            audios: audios,
            out_path: out_path,
        },
    )
}

/// With no visual asset, the visual chain list is empty.
proof fn lemma_no_visuals(assets: Seq<(usize, TrackItem, String)>, cw: int, ch: int, dur: int)
    requires
        spec_visuals(assets, cw, ch, dur).len() == 0,
    ensures
        !has_visual(assets),
    decreases assets.len(),
{
    if assets.len() > 0 {
        lemma_no_visuals(assets.drop_last(), cw, ch, dur);
        assert(!is_visual(assets.last().1.kind));
        assert forall|i: int| 0 <= i < assets.len() implies !is_visual(
            #[trigger] assets[i].1.kind,
        ) by {
            if i < assets.len() - 1 {
                assert(assets.drop_last()[i] == assets[i]);
                assert(!has_visual(assets.drop_last()));
            }
        }
    }
}

/// With a visual asset, the visual chain list is not empty.
proof fn lemma_some_visual(assets: Seq<(usize, TrackItem, String)>, cw: int, ch: int, dur: int)
    requires
        spec_visuals(assets, cw, ch, dur).len() > 0,
    ensures
        has_visual(assets),
    decreases assets.len(),
{
    if assets.len() > 0 {
        if is_visual(assets.last().1.kind) {
            assert(has_visual(assets));
        } else {
            lemma_some_visual(assets.drop_last(), cw, ch, dur);
            let w = choose|i: int|
                0 <= i < assets.drop_last().len() && is_visual(
                    #[trigger] assets.drop_last()[i].1.kind,
                );
            assert(assets.drop_last()[w] == assets[w]);
            assert(is_visual(assets[w].1.kind));
        }
    }
}

} // verus!
