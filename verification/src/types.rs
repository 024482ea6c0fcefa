//! Timeline model: the value types that describe a design to be rendered.
//!
//! A design is a canvas plus an ordered collection of track items (video,
//! image, audio, text), each with a trim window (in/out point within the
//! source) and a display window (placement on the timeline). All times are
//! in milliseconds. Fractional style parameters (opacity, volume,
//! brightness) are carried as tenths of a percent so that the compiler's
//! arithmetic is exact.

use vstd::prelude::*;

verus! {

/// Canvas or item dimensions in pixels.
#[derive(Clone, Copy, Debug, PartialEq, Eq, Structural)]
pub struct Size {
    pub width: u32,
    pub height: u32,
}

/// Render overrides that a submission may carry beside the design itself.
#[derive(Debug)]
pub struct RenderOptions {
    pub fps: Option<u32>,
    pub size: Option<Size>,
    pub format: Option<String>,
}

/// Clone an optional string, preserving the value exactly.
pub fn clone_opt_string(o: &Option<String>) -> (r: Option<String>)
    ensures
        r == *o,
{
    match o {
        Some(s) => Some(s.clone()),
        None => None,
    }
}

impl Clone for RenderOptions {
    fn clone(&self) -> (r: Self)
        ensures
            r == *self,
    {
        RenderOptions { fps: self.fps, size: self.size, format: clone_opt_string(&self.format) }
    }
}

/// A pair of optional millisecond offsets. Used both for the trim window
/// (source in/out point) and the display window (timeline visibility).
/// An absent `from` means 0; an absent `to` means "use the overall duration".
#[derive(Clone, Copy, Debug, PartialEq, Eq, Structural, Default)]
pub struct Trim {
    pub from: Option<u64>,
    pub to: Option<u64>,
}

/// The closed set of track item kinds.
#[derive(Clone, Copy, Debug, PartialEq, Eq, Structural)]
pub enum TrackType {
    Video,
    Image,
    Audio,
    Text,
}

/// Per-item rendering parameters. Every field is optional; absent or
/// malformed values degrade to documented defaults rather than failing.
///
/// `opacity_tenths`, `volume_tenths` and `brightness_tenths` hold the
/// 0-100 percent scales of the design in tenths of a percent (so 1000
/// stands for 100.0).
#[derive(Debug)]
pub struct Details {
    pub src: Option<String>,
    pub width: Option<u32>,
    pub height: Option<u32>,
    pub opacity_tenths: Option<u32>,
    pub volume_tenths: Option<u32>,
    pub left: Option<String>,
    pub top: Option<String>,
    pub transform: Option<String>,
    pub brightness_tenths: Option<u32>,
    pub flip_x: Option<bool>,
    pub flip_y: Option<bool>,
    pub rotate: Option<String>,
    pub text: Option<String>,
    pub font_family: Option<String>,
    pub font_url: Option<String>,
    pub font_size: Option<u32>,
    pub color: Option<String>,
    pub border_color: Option<String>,
    pub border_width: Option<u32>,
}

impl Clone for Details {
    fn clone(&self) -> (r: Self)
        ensures
            r == *self,
    {
        Details {
            src: clone_opt_string(&self.src),
            width: self.width,
            height: self.height,
            opacity_tenths: self.opacity_tenths,
            volume_tenths: self.volume_tenths,
            left: clone_opt_string(&self.left),
            top: clone_opt_string(&self.top),
            transform: clone_opt_string(&self.transform),
            brightness_tenths: self.brightness_tenths,
            flip_x: self.flip_x,
            flip_y: self.flip_y,
            rotate: clone_opt_string(&self.rotate),
            text: clone_opt_string(&self.text),
            font_family: clone_opt_string(&self.font_family),
            font_url: clone_opt_string(&self.font_url),
            font_size: self.font_size,
            color: clone_opt_string(&self.color),
            border_color: clone_opt_string(&self.border_color),
            border_width: self.border_width,
        }
    }
}

/// One element of a design: a kind, optional details, and its two time
/// windows.
#[derive(Debug)]
pub struct TrackItem {
    pub id: Option<String>,
    pub kind: TrackType,
    pub details: Option<Details>,
    pub trim: Trim,
    pub display: Trim,
}

impl Clone for TrackItem {
    fn clone(&self) -> (r: Self)
        ensures
            r == *self,
    {
        TrackItem {
            id: clone_opt_string(&self.id),
            kind: self.kind,
            details: match &self.details {
                Some(d) => Some(d.clone()),
                None => None,
            },
            trim: self.trim,
            display: self.display,
        }
    }
}

/// A client-submitted timeline. The ordered `track_items` list is the
/// authoritative item source when non-empty; otherwise `track_items_map`,
/// a keyed list in a deterministic order fixed at the boundary, is used.
#[derive(Debug)]
pub struct Design {
    pub id: Option<String>,
    pub track_items: Vec<TrackItem>,
    pub track_items_map: Vec<(String, TrackItem)>,
    pub size: Option<Size>,
    pub fps: Option<u32>,
}

impl Clone for Design {
    fn clone(&self) -> (r: Self)
        ensures
            r.id == self.id,
            r.track_items@ == self.track_items@,
            r.track_items_map@ == self.track_items_map@,
            r.size == self.size,
            r.fps == self.fps,
            r.items() == self.items(),
    {
        let items = self.track_items.clone();
        proof {
            assert(items@ =~= self.track_items@);
        }
        let mut map_entries: Vec<(String, TrackItem)> = Vec::new();
        let mut i: usize = 0;
        while i < self.track_items_map.len()
            invariant
                i <= self.track_items_map@.len(),
                map_entries@ == self.track_items_map@.take(i as int),
            decreases self.track_items_map@.len() - i,
        {
            let entry = (self.track_items_map[i].0.clone(), self.track_items_map[i].1.clone());
            map_entries.push(entry);
            proof {
                assert(map_entries@ =~= self.track_items_map@.take(i + 1 as int));
            }
            i += 1;
        }
        proof {
            assert(self.track_items_map@.take(self.track_items_map@.len() as int)
                =~= self.track_items_map@);
        }
        Design {
            id: clone_opt_string(&self.id),
            track_items: items,
            track_items_map: map_entries,
            size: self.size,
            fps: self.fps,
        }
    }
}

/// A design together with optional render overrides.
#[derive(Debug)]
pub struct DesignEnvelope {
    pub design: Design,
    pub options: Option<RenderOptions>,
}

impl Clone for DesignEnvelope {
    fn clone(&self) -> (r: Self)
        ensures
            r.design.id == self.design.id,
            r.design.track_items@ == self.design.track_items@,
            r.design.track_items_map@ == self.design.track_items_map@,
            r.design.size == self.design.size,
            r.design.fps == self.design.fps,
            r.options == self.options,
    {
        DesignEnvelope {
            design: self.design.clone(),
            options: match &self.options {
                Some(o) => Some(o.clone()),
                None => None,
            },
        }
    }
}

/// Reply to a submission: the identifier of the job that was created.
#[derive(Debug)]
pub struct SubmitResponse {
    pub job_id: String,
}

impl Clone for SubmitResponse {
    fn clone(&self) -> (r: Self)
        ensures
            r == *self,
    {
        SubmitResponse { job_id: self.job_id.clone() }
    }
}

/// Reply to a status query.
#[derive(Debug)]
pub struct StatusResponse {
    pub status: String,
    pub progress: u32,
    pub url: Option<String>,
    pub error: Option<String>,
}

impl Clone for StatusResponse {
    fn clone(&self) -> (r: Self)
        ensures
            r == *self,
    {
        StatusResponse {
            status: self.status.clone(),
            progress: self.progress,
            url: clone_opt_string(&self.url),
            error: clone_opt_string(&self.error),
        }
    }
}

impl Design {
    /// The items the compiler works on: the ordered list when it is
    /// non-empty, else the values of the keyed list in its stored order.
    pub open spec fn items(&self) -> Seq<TrackItem> {
        if self.track_items@.len() > 0 {
            self.track_items@
        } else {
            self.track_items_map@.map_values(|e: (String, TrackItem)| e.1)
        }
    }

    /// Executable form of `items`.
    pub fn effective_items(&self) -> (r: Vec<TrackItem>)
        ensures
            r@ == self.items(),
    {
        let mut out: Vec<TrackItem> = Vec::new();
        if self.track_items.len() > 0 {
            let mut i: usize = 0;
            while i < self.track_items.len()
                invariant
                    i <= self.track_items@.len(),
                    out@ == self.track_items@.take(i as int),
                decreases self.track_items@.len() - i,
            {
                out.push(self.track_items[i].clone());
                proof {
                    assert(out@ =~= self.track_items@.take(i + 1 as int));
                }
                i += 1;
            }
            proof {
                assert(self.track_items@.take(self.track_items@.len() as int)
                    =~= self.track_items@);
            }
        } else {
            let mut i: usize = 0;
            while i < self.track_items_map.len()
                invariant
                    i <= self.track_items_map@.len(),
                    out@ == self.track_items_map@
                        .map_values(|e: (String, TrackItem)| e.1)
                        .take(i as int),
                decreases self.track_items_map@.len() - i,
            {
                out.push(self.track_items_map[i].1.clone());
                proof {
                    assert(out@ =~= self.track_items_map@
                        .map_values(|e: (String, TrackItem)| e.1)
                        .take(i + 1 as int));
                }
                i += 1;
            }
            proof {
                let vals = self.track_items_map@.map_values(|e: (String, TrackItem)| e.1);
                assert(vals.take(vals.len() as int) =~= vals);
            }
        }
        out
    }
}

/// Merge render overrides into a design: an override replaces the design's
/// own value where present, and leaves it untouched where absent.
pub fn merge_options(design: Design, options: Option<RenderOptions>) -> (r: Design)
    ensures
        r.id == design.id,
        r.track_items == design.track_items,
        r.track_items_map == design.track_items_map,
        match options {
            Some(o) => {
                &&& r.fps == (if o.fps is Some { o.fps } else { design.fps })
                &&& r.size == (if o.size is Some { o.size } else { design.size })
            },
            None => r.fps == design.fps && r.size == design.size,
        },
{
    let mut d = design;
    if let Some(opts) = options {
        if let Some(fps) = opts.fps {
            d.fps = Some(fps);
        }
        if let Some(sz) = opts.size {
            d.size = Some(sz);
        }
    }
    d
}

} // verus!
