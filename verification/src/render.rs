//! The design compiler's render stage: from a render plan to the
//! ordered argument list of the external engine. Every string is pinned
//! down exactly by a spec-level rendering of the plan.
//!
//! The filter graph lists the per-item chains in a canonical grouped
//! order — visual chains with their overlays, then text overlays, then
//! audio chains, then the mix — which the labels make order-independent
//! for the engine.

use vstd::prelude::*;
use vstd::string::StringExecFns;
use vstd::string::StrSliceExecFns;
use crate::compile::{
    RenderPlan, RenderPlanV, VisualChain, VisualChainV, AudioChain, AudioChainV, TextChain,
    TextChainV, PlanInputV, BackendCaps, CompileError, compile_plan, spec_plan, has_visual,
};
use crate::fmt::{
    spec_udec, spec_idec, spec_fixed3, spec_micro6, spec_milli_trimmed, fmt_u64, fmt_i64,
    fmt_ms_as_secs_3, fmt_micro_6, fmt_milli_trimmed, fmt_milli_trimmed_u64, push_char,
};
use crate::types::{Design, TrackItem};

verus! {

/// The views of a list of argument strings.
pub open spec fn strs(v: Seq<String>) -> Seq<Seq<char>> {
    v.map_values(|s: String| s@)
}

// ---------------------------------------------------------------------
// Spec rendering
// ---------------------------------------------------------------------

/// The escape of one character for the filter-string grammar: backslash,
/// single quote and colon are prefixed with a backslash.
pub open spec fn esc_char(c: char) -> Seq<char> {
    if c == '\\' {
        seq!['\\', '\\']
    } else if c == '\'' {
        seq!['\\', '\'']
    } else if c == ':' {
        seq!['\\', ':']
    } else {
        seq![c]
    }
}

/// The filter-string escape of a text.
pub open spec fn spec_escape(s: Seq<char>) -> Seq<char>
    decreases s.len(),
{
    if s.len() == 0 {
        Seq::empty()
    } else {
        spec_escape(s.drop_last()) + esc_char(s.last())
    }
}

/// The per-item filter chain of a visual item, as a filter string: pixel
/// format, scale, and the optional rotate, brightness and alpha steps,
/// labelled `v<input>`.
pub open spec fn chain_str(v: VisualChainV) -> Seq<char> {
    "["@ + spec_udec(v.input_index as nat) + ":v]format=rgba,scale="@ + spec_idec(v.scale_w)
        + ":"@ + spec_idec(v.scale_h) + (match v.rotate_micro {
        Some(r) => ",rotate="@ + spec_micro6(r) + "*PI/180"@,
        None => Seq::<char>::empty(),
    }) + (match v.brightness_milli {
        Some(b) => ",eq=brightness="@ + spec_milli_trimmed(b),
        None => Seq::<char>::empty(),
    }) + (match v.alpha_milli {
        Some(a) => ",colorchannelmixer=aa="@ + spec_milli_trimmed(a),
        None => Seq::<char>::empty(),
    }) + "[v"@ + spec_udec(v.input_index as nat) + "]"@
}

/// The overlay of a visual item onto the running composite, gated by its
/// visibility window, labelled `m<input>`.
pub open spec fn overlay_str(prev: Seq<char>, v: VisualChainV) -> Seq<char> {
    "["@ + prev + "][v"@ + spec_udec(v.input_index as nat) + "]overlay="@ + spec_idec(v.x) + ":"@
        + spec_idec(v.y) + ":format=auto:enable='between(t,"@ + spec_fixed3(v.start_ms as nat)
        + ","@ + spec_fixed3(v.end_ms as nat) + ")'["@ + "m"@ + spec_udec(v.input_index as nat)
        + "]"@
}

/// The filter chain of one audio item, labelled `a<input>`.
pub open spec fn audio_str(a: AudioChainV) -> Seq<char> {
    "["@ + spec_udec(a.input_index as nat) + ":a]volume="@ + spec_milli_trimmed(a.volume_milli)
        + (match a.trim_from_ms {
        Some(f) => ",atrim=start="@ + spec_fixed3(f as nat) + ",asetpts=PTS-STARTPTS"@,
        None => Seq::<char>::empty(),
    }) + ",adelay="@ + spec_udec(a.delay_ms as nat) + ":all=1,atrim=0:"@ + spec_fixed3(
        a.duration_ms as nat,
    ) + ",asetpts=PTS-STARTPTS[a"@ + spec_udec(a.input_index as nat) + "]"@
}

/// The engine's form of a font color: a `#RRGGBB` value becomes hex
/// syntax, and the alpha factor is appended.
pub open spec fn fontcolor_str(color: Seq<char>, alpha_milli: int) -> Seq<char> {
    if color.len() > 0 && color[0] == '#' {
        "0x"@ + color.subrange(1, color.len() as int) + "@"@ + spec_milli_trimmed(alpha_milli)
    } else {
        color + "@"@ + spec_milli_trimmed(alpha_milli)
    }
}

/// The engine's form of a border color: a `#RRGGBB` value becomes hex
/// syntax.
pub open spec fn bordercolor_str(color: Seq<char>) -> Seq<char> {
    if color.len() > 0 && color[0] == '#' {
        "0x"@ + color.subrange(1, color.len() as int)
    } else {
        color
    }
}

/// One text overlay drawn onto the running composite, labelled
/// `txt<id>`.
pub open spec fn text_str(prev: Seq<char>, t: TextChainV) -> Seq<char> {
    "["@ + prev + "]drawtext=fontfile="@ + t.font_path + ":text='"@ + spec_escape(t.text)
        + "':fontsize="@ + spec_udec(t.font_size as nat) + ":fontcolor="@ + fontcolor_str(
        t.color,
        t.alpha_milli,
    ) + ":borderw="@ + spec_udec(t.border_w as nat) + ":bordercolor="@ + bordercolor_str(
        t.border_color,
    ) + ":x="@ + spec_idec(t.x) + ":y="@ + spec_idec(t.y) + ":enable='between(t,"@ + spec_fixed3(
        t.start_ms as nat,
    ) + ","@ + spec_fixed3(t.end_ms as nat) + ")'[txt"@ + t.id + "]"@
}

/// The label of the running composite after the visual overlays: the
/// canvas when there is none.
pub open spec fn label_after_visuals(vs: Seq<VisualChainV>) -> Seq<char> {
    if vs.len() == 0 {
        "0:v"@
    } else {
        "m"@ + spec_udec(vs.last().input_index as nat)
    }
}

/// The label of the running composite after the text overlays.
pub open spec fn label_after_texts(vs: Seq<VisualChainV>, ts: Seq<TextChainV>) -> Seq<char> {
    if ts.len() == 0 {
        label_after_visuals(vs)
    } else {
        "txt"@ + ts.last().id
    }
}

/// The filter-graph parts of the visual items: each item's chain
/// followed by its overlay onto the running composite.
pub open spec fn visual_parts(vs: Seq<VisualChainV>) -> Seq<Seq<char>>
    decreases vs.len(),
{
    if vs.len() == 0 {
        Seq::empty()
    } else {
        visual_parts(vs.drop_last()) + seq![
            chain_str(vs.last()),
            overlay_str(label_after_visuals(vs.drop_last()), vs.last()),
        ]
    }
}

/// The filter-graph parts of the text overlays, in item order.
pub open spec fn text_parts(vs: Seq<VisualChainV>, ts: Seq<TextChainV>) -> Seq<Seq<char>>
    decreases ts.len(),
{
    if ts.len() == 0 {
        Seq::empty()
    } else {
        text_parts(vs, ts.drop_last()) + seq![
            text_str(label_after_texts(vs, ts.drop_last()), ts.last()),
        ]
    }
}

/// The filter-graph parts of the audio chains, in input order.
pub open spec fn audio_parts(audios: Seq<AudioChainV>) -> Seq<Seq<char>>
    decreases audios.len(),
{
    if audios.len() == 0 {
        Seq::empty()
    } else {
        audio_parts(audios.drop_last()) + seq![audio_str(audios.last())]
    }
}

/// The concatenated `[a<input>]` labels of the audio chains.
pub open spec fn audio_labels(audios: Seq<AudioChainV>) -> Seq<char>
    decreases audios.len(),
{
    if audios.len() == 0 {
        Seq::empty()
    } else {
        audio_labels(audios.drop_last()) + "[a"@ + spec_udec(audios.last().input_index as nat)
            + "]"@
    }
}

/// The mixing stage: nothing for zero audio chains, an identity pass
/// for one, and a mix of all of them — with no level normalization —
/// for two or more, labelled `aout`.
pub open spec fn mix_parts(audios: Seq<AudioChainV>) -> Seq<Seq<char>> {
    if audios.len() == 0 {
        Seq::empty()
    } else if audios.len() == 1 {
        seq!["[a"@ + spec_udec(audios[0].input_index as nat) + "]anull[aout]"@]
    } else {
        seq![
            audio_labels(audios) + "amix=inputs="@ + spec_udec(audios.len()) + ":normalize=0[aout]"@,
        ]
    }
}

/// The audio mixing policy: no mixing stage without audio items, an
/// identity pass for exactly one, and for two or more a single mix that
/// declares exactly as many inputs as there are audio chains and no
/// level normalization.
pub proof fn lemma_audio_mix_arity(audios: Seq<AudioChainV>)
    ensures
        audios.len() == 0 ==> mix_parts(audios) == Seq::<Seq<char>>::empty(),
        audios.len() == 1 ==> mix_parts(audios) == seq![
            "[a"@ + spec_udec(audios[0].input_index as nat) + "]anull[aout]"@,
        ],
        audios.len() >= 2 ==> mix_parts(audios) == seq![
            audio_labels(audios) + "amix=inputs="@ + spec_udec(audios.len()) + ":normalize=0[aout]"@,
        ],
{
}

/// With no audio chain at all, the command maps the base input's audio
/// stream instead, right after the video codec arguments.
pub proof fn lemma_base_audio_fallback(p: RenderPlanV)
    requires
        p.audios.len() == 0,
    ensures
        spec_args(p).len() >= 9,
        spec_args(p)[spec_args(p).len() - 9] == "-map"@,
        spec_args(p)[spec_args(p).len() - 8] == "0:a?"@,
{
}

/// Every filter-graph part of a plan, in canonical order.
pub open spec fn all_parts(p: RenderPlanV) -> Seq<Seq<char>> {
    visual_parts(p.visuals) + text_parts(p.visuals, p.texts) + audio_parts(p.audios) + mix_parts(
        p.audios,
    )
}

/// The parts joined with semicolons into one filter-graph expression.
pub open spec fn join_semi(parts: Seq<Seq<char>>) -> Seq<char>
    decreases parts.len(),
{
    if parts.len() == 0 {
        Seq::empty()
    } else if parts.len() == 1 {
        parts.last()
    } else {
        join_semi(parts.drop_last()) + ";"@ + parts.last()
    }
}

/// The synthesized canvas: a black frame source of the output size,
/// frame rate and duration.
pub open spec fn canvas_src(p: RenderPlanV) -> Seq<char> {
    "color=c=black:s="@ + spec_udec(p.width as nat) + "x"@ + spec_udec(p.height as nat) + ":r="@
        + spec_udec(p.fps as nat) + ":d="@ + spec_milli_trimmed(p.duration_ms)
}

/// The input arguments: each asset's path, preceded for a still image by
/// the loop flag and a truncation to the output duration.
pub open spec fn input_args(inputs: Seq<PlanInputV>, dur: int) -> Seq<Seq<char>>
    decreases inputs.len(),
{
    if inputs.len() == 0 {
        Seq::empty()
    } else {
        input_args(inputs.drop_last(), dur) + (if inputs.last().image_loop {
            seq!["-loop"@, "1"@, "-t"@, spec_fixed3(dur as nat)]
        } else {
            Seq::<Seq<char>>::empty()
        }) + seq!["-i"@, inputs.last().path]
    }
}

/// The complete argument list of a plan.
pub open spec fn spec_args(p: RenderPlanV) -> Seq<Seq<char>> {
    let parts = all_parts(p);
    seq!["-y"@, "-hide_banner"@, "-loglevel"@, "error"@] + (if p.use_hw {
        seq!["-hwaccel"@, "cuda"@]
    } else {
        Seq::<Seq<char>>::empty()
    }) + seq!["-f"@, "lavfi"@, "-i"@, canvas_src(p)] + input_args(p.inputs, p.duration_ms) + (
    if parts.len() > 0 {
        seq!["-filter_complex"@, join_semi(parts)]
    } else {
        Seq::<Seq<char>>::empty()
    }) + seq!["-map"@, "["@ + label_after_texts(p.visuals, p.texts) + "]"@] + (if p.use_hw {
        seq!["-c:v"@, "h264_nvenc"@, "-preset"@, "p4"@]
    } else {
        seq!["-c:v"@, "libx264"@, "-preset"@, "veryfast"@]
    }) + seq!["-pix_fmt"@, "yuv420p"@, "-r"@, spec_udec(p.fps as nat)] + (if p.audios.len() > 0 {
        seq!["-map"@, "[aout]"@, "-c:a"@, "aac"@, "-b:a"@, "192k"@]
    } else {
        seq!["-map"@, "0:a?"@, "-c:a"@, "aac"@, "-b:a"@, "192k"@]
    }) + seq!["-progress"@, "pipe:1"@, p.out_path]
}

// ---------------------------------------------------------------------
// Executable rendering
// ---------------------------------------------------------------------

/// Escape a text for the filter-string grammar.
pub fn escape_text(s: &str) -> (r: String)
    ensures
        r@ == spec_escape(s@),
{
    let n = s.unicode_len();
    let mut out = String::new();
    let mut i: usize = 0;
    proof {
        assert(out@ =~= spec_escape(s@.take(0)));
    }
    while i < n
        invariant
            n == s@.len(),
            i <= n,
            out@ == spec_escape(s@.take(i as int)),
        decreases n - i,
    {
        let c = s.get_char(i);
        if c == '\\' {
            out.append("\\\\");
            proof {
                reveal_strlit("\\\\");
            }
        } else if c == '\'' {
            out.append("\\'");
            proof {
                reveal_strlit("\\'");
            }
        } else if c == ':' {
            out.append("\\:");
            proof {
                reveal_strlit("\\:");
            }
        } else {
            push_char(&mut out, c);
        }
        proof {
            assert(s@.take(i + 1 as int).drop_last() =~= s@.take(i as int));
            assert(s@.take(i + 1 as int).last() == s@[i as int]);
            assert(out@ =~= spec_escape(s@.take(i + 1 as int)));
        }
        i += 1;
    }
    proof {
        assert(s@.take(n as int) =~= s@);
    }
    out
}

/// Render the chain string of a visual item.
fn chain_string(v: &VisualChain) -> (r: String)
    ensures
        r@ == chain_str(v@),
{
    let mut s: String = "[".to_owned();
    let idx = fmt_u64(v.input_index as u64);
    s.append(idx.as_str());
    s.append(":v]format=rgba,scale=");
    let sw = fmt_i64(v.scale_w as i64);
    s.append(sw.as_str());
    s.append(":");
    let sh = fmt_i64(v.scale_h as i64);
    s.append(sh.as_str());
    match v.rotate_micro {
        Some(r) => {
            s.append(",rotate=");
            let rs = fmt_micro_6(r);
            s.append(rs.as_str());
            s.append("*PI/180");
        },
        None => {},
    }
    match v.brightness_milli {
        Some(b) => {
            s.append(",eq=brightness=");
            let bs = fmt_milli_trimmed(b);
            s.append(bs.as_str());
        },
        None => {},
    }
    match v.alpha_milli {
        Some(a) => {
            s.append(",colorchannelmixer=aa=");
            let al = fmt_milli_trimmed(a as i64);
            s.append(al.as_str());
        },
        None => {},
    }
    s.append("[v");
    s.append(idx.as_str());
    s.append("]");
    proof {
        assert(s@ =~= chain_str(v@));
    }
    s
}

/// Render the overlay string of a visual item onto the composite so far.
fn overlay_string(prev: &str, v: &VisualChain) -> (r: String)
    ensures
        r@ == overlay_str(prev@, v@),
{
    let mut s: String = "[".to_owned();
    s.append(prev);
    s.append("][v");
    let idx = fmt_u64(v.input_index as u64);
    s.append(idx.as_str());
    s.append("]overlay=");
    let xs = fmt_i64(v.x as i64);
    s.append(xs.as_str());
    s.append(":");
    let ys = fmt_i64(v.y as i64);
    s.append(ys.as_str());
    s.append(":format=auto:enable='between(t,");
    let st = fmt_ms_as_secs_3(v.start_ms);
    s.append(st.as_str());
    s.append(",");
    let en = fmt_ms_as_secs_3(v.end_ms);
    s.append(en.as_str());
    s.append(")'[");
    s.append("m");
    s.append(idx.as_str());
    s.append("]");
    proof {
        assert(s@ =~= overlay_str(prev@, v@));
    }
    s
}

/// Render the filter chain of an audio item.
fn audio_string(a: &AudioChain) -> (r: String)
    ensures
        r@ == audio_str(a@),
{
    let mut s: String = "[".to_owned();
    let idx = fmt_u64(a.input_index as u64);
    s.append(idx.as_str());
    s.append(":a]volume=");
    let vol = fmt_milli_trimmed(a.volume_milli as i64);
    s.append(vol.as_str());
    match a.trim_from_ms {
        Some(f) => {
            s.append(",atrim=start=");
            let fs = fmt_ms_as_secs_3(f);
            s.append(fs.as_str());
            s.append(",asetpts=PTS-STARTPTS");
        },
        None => {},
    }
    s.append(",adelay=");
    let del = fmt_u64(a.delay_ms);
    s.append(del.as_str());
    s.append(":all=1,atrim=0:");
    let dur = fmt_ms_as_secs_3(a.duration_ms);
    s.append(dur.as_str());
    s.append(",asetpts=PTS-STARTPTS[a");
    s.append(idx.as_str());
    s.append("]");
    proof {
        assert(s@ =~= audio_str(a@));
    }
    s
}

/// Render a text overlay onto the composite so far.
fn text_string(prev: &str, t: &TextChain) -> (r: String)
    ensures
        r@ == text_str(prev@, t@),
{
    let mut s: String = "[".to_owned();
    s.append(prev);
    s.append("]drawtext=fontfile=");
    s.append(t.font_path.as_str());
    s.append(":text='");
    let esc = escape_text(t.text.as_str());
    s.append(esc.as_str());
    s.append("':fontsize=");
    let fs = fmt_u64(t.font_size as u64);
    s.append(fs.as_str());
    s.append(":fontcolor=");
    let n = t.color.as_str().unicode_len();
    if n > 0 && t.color.as_str().get_char(0) == '#' {
        s.append("0x");
        let rest = t.color.as_str().substring_char(1, n);
        s.append(rest);
    } else {
        s.append(t.color.as_str());
    }
    s.append("@");
    let al = fmt_milli_trimmed(t.alpha_milli as i64);
    s.append(al.as_str());
    s.append(":borderw=");
    let bw = fmt_u64(t.border_w as u64);
    s.append(bw.as_str());
    s.append(":bordercolor=");
    let bn = t.border_color.as_str().unicode_len();
    if bn > 0 && t.border_color.as_str().get_char(0) == '#' {
        s.append("0x");
        let brest = t.border_color.as_str().substring_char(1, bn);
        s.append(brest);
    } else {
        s.append(t.border_color.as_str());
    }
    s.append(":x=");
    let xs = fmt_i64(t.x as i64);
    s.append(xs.as_str());
    s.append(":y=");
    let ys = fmt_i64(t.y as i64);
    s.append(ys.as_str());
    s.append(":enable='between(t,");
    let st = fmt_ms_as_secs_3(t.start_ms);
    s.append(st.as_str());
    s.append(",");
    let en = fmt_ms_as_secs_3(t.end_ms);
    s.append(en.as_str());
    s.append(")'[txt");
    s.append(t.id.as_str());
    s.append("]");
    proof {
        assert(fontcolor_str(t.color@, t.alpha_milli as int) == (if t.color@.len() > 0
            && t.color@[0] == '#' {
            "0x"@ + t.color@.subrange(1, t.color@.len() as int) + "@"@ + spec_milli_trimmed(
                t.alpha_milli as int,
            )
        } else {
            t.color@ + "@"@ + spec_milli_trimmed(t.alpha_milli as int)
        }));
        assert(s@ =~= text_str(prev@, t@));
    }
    s
}

/// Append one argument to the list.
fn push_arg(args: &mut Vec<String>, s: String)
    ensures
        strs(final(args)@) == strs(old(args)@).push(s@),
{
    let ghost prev = args@;
    args.push(s);
    proof {
        assert(strs(args@) =~= strs(prev).push(args@.last()@));
    }
}

/// Append one literal argument to the list.
fn push_lit(args: &mut Vec<String>, s: &str)
    ensures
        strs(final(args)@) == strs(old(args)@).push(s@),
{
    push_arg(args, s.to_owned());
}

/// The compiled, ordered argument list for one invocation of the
/// external render engine.
pub struct BuiltCommand {
    pub args: Vec<String>,
}

/// The fixed head of the argument list: global flags, the optional
/// hardware-acceleration flag, and the synthesized canvas input.
fn head_args(p: &RenderPlan) -> (r: Vec<String>)
    ensures
        strs(r@) == seq!["-y"@, "-hide_banner"@, "-loglevel"@, "error"@] + (if p.use_hw {
            seq!["-hwaccel"@, "cuda"@]
        } else {
            Seq::<Seq<char>>::empty()
        }) + seq!["-f"@, "lavfi"@, "-i"@, canvas_src(p@)],
{
    let mut args: Vec<String> = Vec::new();
    push_lit(&mut args, "-y");
    push_lit(&mut args, "-hide_banner");
    push_lit(&mut args, "-loglevel");
    push_lit(&mut args, "error");
    if p.use_hw {
        push_lit(&mut args, "-hwaccel");
        push_lit(&mut args, "cuda");
    }
    push_lit(&mut args, "-f");
    push_lit(&mut args, "lavfi");
    push_lit(&mut args, "-i");
    let mut canvas: String = "color=c=black:s=".to_owned();
    let ws = fmt_u64(p.width as u64);
    canvas.append(ws.as_str());
    canvas.append("x");
    let hs = fmt_u64(p.height as u64);
    canvas.append(hs.as_str());
    canvas.append(":r=");
    let fr = fmt_u64(p.fps as u64);
    canvas.append(fr.as_str());
    canvas.append(":d=");
    let ds = fmt_milli_trimmed_u64(p.duration_ms);
    canvas.append(ds.as_str());
    proof {
        assert(canvas@ =~= canvas_src(p@));
    }
    push_arg(&mut args, canvas);
    proof {
        assert(strs(args@) =~= seq!["-y"@, "-hide_banner"@, "-loglevel"@, "error"@] + (
        if p.use_hw {
            seq!["-hwaccel"@, "cuda"@]
        } else {
            Seq::<Seq<char>>::empty()
        }) + seq!["-f"@, "lavfi"@, "-i"@, canvas_src(p@)]);
    }
    args
}

/// One input per resolved asset, with loop and truncation flags for
/// still images.
fn asset_input_args(p: &RenderPlan) -> (r: Vec<String>)
    ensures
        strs(r@) == input_args(p@.inputs, p@.duration_ms),
{
    let ghost inputs_v = p.inputs@.map_values(|x: crate::compile::PlanInput| x@);
    let mut args: Vec<String> = Vec::new();
    let mut i: usize = 0;
    while i < p.inputs.len()
        invariant
            i <= p.inputs@.len(),
            inputs_v == p.inputs@.map_values(|x: crate::compile::PlanInput| x@),
            strs(args@) == input_args(inputs_v.take(i as int), p.duration_ms as int),
        decreases p.inputs@.len() - i,
    {
        if p.inputs[i].image_loop {
            push_lit(&mut args, "-loop");
            push_lit(&mut args, "1");
            push_lit(&mut args, "-t");
            push_arg(&mut args, fmt_ms_as_secs_3(p.duration_ms));
        }
        push_lit(&mut args, "-i");
        push_arg(&mut args, p.inputs[i].path.clone());
        proof {
            assert(inputs_v.take(i + 1 as int).drop_last() =~= inputs_v.take(i as int));
            assert(inputs_v.take(i + 1 as int).last() == inputs_v[i as int]);
            assert(strs(args@) =~= input_args(inputs_v.take(i + 1 as int), p.duration_ms as int));
        }
        i += 1;
    }
    proof {
        assert(inputs_v.take(inputs_v.len() as int) =~= inputs_v);
    }
    args
}

/// The visual filter-graph parts, and the label of the composite after
/// them.
fn visual_filter_parts(p: &RenderPlan) -> (r: (Vec<String>, String))
    ensures
        strs(r.0@) == visual_parts(p@.visuals),
        r.1@ == label_after_visuals(p@.visuals),
{
    let ghost visuals_v = p.visuals@.map_values(|x: VisualChain| x@);
    let mut parts: Vec<String> = Vec::new();
    let mut last: String = "0:v".to_owned();
    let mut k: usize = 0;
    while k < p.visuals.len()
        invariant
            k <= p.visuals@.len(),
            visuals_v == p.visuals@.map_values(|x: VisualChain| x@),
            strs(parts@) == visual_parts(visuals_v.take(k as int)),
            last@ == label_after_visuals(visuals_v.take(k as int)),
        decreases p.visuals@.len() - k,
    {
        let v = &p.visuals[k];
        let chain = chain_string(v);
        push_arg(&mut parts, chain);
        let ov = overlay_string(last.as_str(), v);
        push_arg(&mut parts, ov);
        let mut nl: String = "m".to_owned();
        let idx = fmt_u64(v.input_index as u64);
        nl.append(idx.as_str());
        last = nl;
        proof {
            assert(visuals_v.take(k + 1 as int).drop_last() =~= visuals_v.take(k as int));
            assert(visuals_v.take(k + 1 as int).last() == visuals_v[k as int]);
            assert(strs(parts@) =~= visual_parts(visuals_v.take(k + 1 as int)));
            assert(last@ =~= label_after_visuals(visuals_v.take(k + 1 as int)));
        }
        k += 1;
    }
    proof {
        assert(visuals_v.take(visuals_v.len() as int) =~= visuals_v);
    }
    (parts, last)
}

/// Append the text-overlay parts, threading the composite label.
fn text_filter_parts(p: &RenderPlan, parts: Vec<String>, last: String) -> (r: (
    Vec<String>,
    String,
))
    requires
        last@ == label_after_visuals(p@.visuals),
    ensures
        strs(r.0@) == strs(parts@) + text_parts(p@.visuals, p@.texts),
        r.1@ == label_after_texts(p@.visuals, p@.texts),
{
    let ghost visuals_v = p.visuals@.map_values(|x: VisualChain| x@);
    let ghost texts_v = p.texts@.map_values(|x: TextChain| x@);
    let ghost base = strs(parts@);
    let mut out = parts;
    let mut cur = last;
    let mut k: usize = 0;
    proof {
        assert(base + text_parts(visuals_v, texts_v.take(0)) =~= base);
    }
    while k < p.texts.len()
        invariant
            k <= p.texts@.len(),
            visuals_v == p.visuals@.map_values(|x: VisualChain| x@),
            texts_v == p.texts@.map_values(|x: TextChain| x@),
            strs(out@) == base + text_parts(visuals_v, texts_v.take(k as int)),
            cur@ == label_after_texts(visuals_v, texts_v.take(k as int)),
        decreases p.texts@.len() - k,
    {
        let t = &p.texts[k];
        let ts = text_string(cur.as_str(), t);
        push_arg(&mut out, ts);
        let mut nl: String = "txt".to_owned();
        nl.append(t.id.as_str());
        cur = nl;
        proof {
            assert(texts_v.take(k + 1 as int).drop_last() =~= texts_v.take(k as int));
            assert(texts_v.take(k + 1 as int).last() == texts_v[k as int]);
            assert(strs(out@) =~= base + text_parts(visuals_v, texts_v.take(k + 1 as int)));
            assert(cur@ =~= label_after_texts(visuals_v, texts_v.take(k + 1 as int)));
        }
        k += 1;
    }
    proof {
        assert(texts_v.take(texts_v.len() as int) =~= texts_v);
    }
    (out, cur)
}

/// Append the audio chain parts.
fn audio_filter_parts(p: &RenderPlan, parts: Vec<String>) -> (r: Vec<String>)
    ensures
        strs(r@) == strs(parts@) + audio_parts(p@.audios),
{
    let ghost audios_v = p.audios@.map_values(|x: AudioChain| x@);
    let ghost base = strs(parts@);
    let mut out = parts;
    let mut k: usize = 0;
    proof {
        assert(base + audio_parts(audios_v.take(0)) =~= base);
    }
    while k < p.audios.len()
        invariant
            k <= p.audios@.len(),
            audios_v == p.audios@.map_values(|x: AudioChain| x@),
            strs(out@) == base + audio_parts(audios_v.take(k as int)),
        decreases p.audios@.len() - k,
    {
        let a = &p.audios[k];
        let astr = audio_string(a);
        push_arg(&mut out, astr);
        proof {
            assert(audios_v.take(k + 1 as int).drop_last() =~= audios_v.take(k as int));
            assert(audios_v.take(k + 1 as int).last() == audios_v[k as int]);
            assert(strs(out@) =~= base + audio_parts(audios_v.take(k + 1 as int)));
        }
        k += 1;
    }
    proof {
        assert(audios_v.take(audios_v.len() as int) =~= audios_v);
    }
    out
}

/// Append the mixing stage part, if any.
fn mix_filter_part(p: &RenderPlan, parts: Vec<String>) -> (r: Vec<String>)
    ensures
        strs(r@) == strs(parts@) + mix_parts(p@.audios),
{
    let ghost audios_v = p.audios@.map_values(|x: AudioChain| x@);
    let ghost base = strs(parts@);
    let mut out = parts;
    if p.audios.len() == 1 {
        let mut mix: String = "[a".to_owned();
        let idx = fmt_u64(p.audios[0].input_index as u64);
        mix.append(idx.as_str());
        mix.append("]anull[aout]");
        proof {
            assert(mix@ =~= mix_parts(audios_v)[0]);
        }
        push_arg(&mut out, mix);
        proof {
            assert(strs(out@) =~= base + mix_parts(audios_v));
        }
    } else if p.audios.len() > 1 {
        let mut mix: String = String::new();
        let mut k: usize = 0;
        proof {
            assert(mix@ =~= audio_labels(audios_v.take(0)));
        }
        while k < p.audios.len()
            invariant
                k <= p.audios@.len(),
                audios_v == p.audios@.map_values(|x: AudioChain| x@),
                mix@ == audio_labels(audios_v.take(k as int)),
            decreases p.audios@.len() - k,
        {
            mix.append("[a");
            let idx = fmt_u64(p.audios[k].input_index as u64);
            mix.append(idx.as_str());
            mix.append("]");
            proof {
                assert(audios_v.take(k + 1 as int).drop_last() =~= audios_v.take(k as int));
                assert(audios_v.take(k + 1 as int).last() == audios_v[k as int]);
                assert(mix@ =~= audio_labels(audios_v.take(k + 1 as int)));
            }
            k += 1;
        }
        proof {
            assert(audios_v.take(audios_v.len() as int) =~= audios_v);
        }
        mix.append("amix=inputs=");
        let cnt = fmt_u64(p.audios.len() as u64);
        mix.append(cnt.as_str());
        mix.append(":normalize=0[aout]");
        proof {
            assert(mix@ =~= mix_parts(audios_v)[0]);
        }
        push_arg(&mut out, mix);
        proof {
            assert(strs(out@) =~= base + mix_parts(audios_v));
        }
    } else {
        proof {
            assert(strs(out@) =~= base + mix_parts(audios_v));
        }
    }
    out
}

/// The tail of the argument list: stream mappings, codecs, pixel format,
/// frame rate, progress reporting, and the output path.
fn tail_args(p: &RenderPlan, last: &str) -> (r: Vec<String>)
    ensures
        strs(r@) == seq!["-map"@, "["@ + last@ + "]"@] + (if p.use_hw {
            seq!["-c:v"@, "h264_nvenc"@, "-preset"@, "p4"@]
        } else {
            seq!["-c:v"@, "libx264"@, "-preset"@, "veryfast"@]
        }) + seq!["-pix_fmt"@, "yuv420p"@, "-r"@, spec_udec(p@.fps as nat)] + (
        if p@.audios.len() > 0 {
            seq!["-map"@, "[aout]"@, "-c:a"@, "aac"@, "-b:a"@, "192k"@]
        } else {
            seq!["-map"@, "0:a?"@, "-c:a"@, "aac"@, "-b:a"@, "192k"@]
        }) + seq!["-progress"@, "pipe:1"@, p@.out_path],
{
    let mut args: Vec<String> = Vec::new();
    push_lit(&mut args, "-map");
    let mut vmap: String = "[".to_owned();
    vmap.append(last);
    vmap.append("]");
    push_arg(&mut args, vmap);
    if p.use_hw {
        push_lit(&mut args, "-c:v");
        push_lit(&mut args, "h264_nvenc");
        push_lit(&mut args, "-preset");
        push_lit(&mut args, "p4");
    } else {
        push_lit(&mut args, "-c:v");
        push_lit(&mut args, "libx264");
        push_lit(&mut args, "-preset");
        push_lit(&mut args, "veryfast");
    }
    push_lit(&mut args, "-pix_fmt");
    push_lit(&mut args, "yuv420p");
    push_lit(&mut args, "-r");
    push_arg(&mut args, fmt_u64(p.fps as u64));
    if p.audios.len() > 0 {
        push_lit(&mut args, "-map");
        push_lit(&mut args, "[aout]");
    } else {
        push_lit(&mut args, "-map");
        push_lit(&mut args, "0:a?");
    }
    push_lit(&mut args, "-c:a");
    push_lit(&mut args, "aac");
    push_lit(&mut args, "-b:a");
    push_lit(&mut args, "192k");
    push_lit(&mut args, "-progress");
    push_lit(&mut args, "pipe:1");
    push_arg(&mut args, p.out_path.clone());
    proof {
        assert(strs(args@) =~= seq!["-map"@, "["@ + last@ + "]"@] + (if p.use_hw {
            seq!["-c:v"@, "h264_nvenc"@, "-preset"@, "p4"@]
        } else {
            seq!["-c:v"@, "libx264"@, "-preset"@, "veryfast"@]
        }) + seq!["-pix_fmt"@, "yuv420p"@, "-r"@, spec_udec(p@.fps as nat)] + (
        if p@.audios.len() > 0 {
            seq!["-map"@, "[aout]"@, "-c:a"@, "aac"@, "-b:a"@, "192k"@]
        } else {
            seq!["-map"@, "0:a?"@, "-c:a"@, "aac"@, "-b:a"@, "192k"@]
        }) + seq!["-progress"@, "pipe:1"@, p@.out_path]);
    }
    args
}

/// Render a plan into the engine's argument list.
#[verifier::rlimit(100)]
pub fn render_args(p: &RenderPlan) -> (r: BuiltCommand)
    ensures
        strs(r.args@) == spec_args(p@),
{
    let mut args = head_args(p);
    let ghost head = strs(args@);
    let mut ins = asset_input_args(p);
    let ghost inseg = strs(ins@);
    args.append(&mut ins);
    proof {
        assert(strs(args@) =~= head + inseg);
    }
    let (vparts, vlast) = visual_filter_parts(p);
    let (tparts, last) = text_filter_parts(p, vparts, vlast);
    let aparts = audio_filter_parts(p, tparts);
    let parts = mix_filter_part(p, aparts);
    proof {
        assert(strs(parts@) =~= all_parts(p@));
    }
    let ghost mid0 = strs(args@);
    if parts.len() > 0 {
        push_lit(&mut args, "-filter_complex");
        let joined = join_parts(&parts);
        push_arg(&mut args, joined);
    }
    proof {
        assert(strs(args@) =~= mid0 + (if all_parts(p@).len() > 0 {
            seq!["-filter_complex"@, join_semi(all_parts(p@))]
        } else {
            Seq::<Seq<char>>::empty()
        }));
    }
    let ghost mid = strs(args@);
    let mut tail = tail_args(p, last.as_str());
    let ghost tailseg = strs(tail@);
    args.append(&mut tail);
    proof {
        assert(strs(args@) =~= mid + tailseg);
        assert(strs(args@) =~= spec_args(p@));
    }
    BuiltCommand { args }
}

/// Join the filter parts with semicolons.
fn join_parts(parts: &Vec<String>) -> (r: String)
    requires
        parts@.len() > 0,
    ensures
        r@ == join_semi(strs(parts@)),
{
    let mut out: String = parts[0].clone();
    proof {
        assert(strs(parts@).take(1).drop_last() =~= Seq::<Seq<char>>::empty());
        assert(out@ =~= join_semi(strs(parts@).take(1)));
    }
    let mut i: usize = 1;
    while i < parts.len()
        invariant
            1 <= i <= parts@.len(),
            out@ == join_semi(strs(parts@).take(i as int)),
        decreases parts@.len() - i,
    {
        out.append(";");
        out.append(parts[i].as_str());
        proof {
            reveal_strlit(";");
            assert(strs(parts@).take(i + 1 as int).drop_last() =~= strs(parts@).take(i as int));
            assert(strs(parts@).take(i + 1 as int).last() == strs(parts@)[i as int]);
            assert(out@ =~= join_semi(strs(parts@).take(i + 1 as int)));
        }
        i += 1;
    }
    proof {
        assert(strs(parts@).take(parts@.len() as int) =~= strs(parts@));
    }
    out
}

/// Compile a design with resolved assets straight to the engine's
/// argument list: the semantic stage followed by the render stage.
///
/// Fails exactly when no resolved asset is a visual item.
pub fn build_ffmpeg_command(
    workdir: &str,
    design: &Design,
    assets: &Vec<(usize, TrackItem, String)>,
    caps: &BackendCaps,
    font_map: &Vec<(String, String)>,
) -> (r: Result<BuiltCommand, CompileError>)
    requires
        forall|i: int| 0 <= i < assets@.len() ==> (#[trigger] assets@[i]).0 == i,
        assets@.len() < usize::MAX,
    ensures
        r is Err <==> !has_visual(assets@),
        r matches Ok(b) ==> strs(b.args@) == spec_args(
            spec_plan(workdir@, *design, assets@, *caps, font_map@),
        ),
{
    match compile_plan(workdir, design, assets, caps, font_map) {
        Ok(plan) => Ok(render_args(&plan)),
        Err(e) => Err(e),
    }
}

} // verus!
