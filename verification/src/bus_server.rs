use vstd::prelude::*;

verus! {

use crate::runner::Runner;
use crate::runner::RunnerView;
use crate::runner::Playback;
use crate::strutil::remove_ext;
use crate::strutil::remove_ext_spec;

/// The metadata block of one outward property change: what the desktop
/// media-control transport shows for the current track.
#[derive(Clone, Debug, PartialEq, Eq)]
pub struct Metadata {
    pub title: Option<String>,
    pub artists: Option<Vec<String>>,
    pub length: u64,
    pub id: String,
    pub image_path: Option<String>,
}

/// One outward property change. Volume is in thousandths of full scale, as
/// everywhere in this library.
#[derive(Clone, Debug, PartialEq, Eq)]
pub enum Property {
    Playing(bool),
    Metadata(Metadata),
    Volume(u32),
}

/// What the change-diff broadcaster reads off the Runner on one tick. The
/// first tick diffs against an externally supplied initial observation, so
/// a field equal to that baseline is not reported.
#[derive(Clone, Copy, Debug, PartialEq, Eq, Structural)]
pub struct Observation {
    pub playing: bool,
    pub volume: u32,
    pub index: usize,
}

pub open spec fn observe_spec(s: RunnerView) -> Observation {
    Observation { playing: s.playback is Playing, volume: s.volume, index: s.index as usize }
}

/// One consistent snapshot of the three observed fields.
pub fn observe(r: &Runner) -> (o: Observation)
    ensures
        o == observe_spec(r@),
{
    Observation { playing: r.playing(), volume: r.volume(), index: r.index() }
}

/// Which observed fields changed between two ticks, each carrying its new
/// value; an index change additionally calls for a metadata lookup.
#[derive(Clone, Copy, Debug, PartialEq, Eq, Structural)]
pub struct DiffPlan {
    pub playing: Option<bool>,
    pub volume: Option<u32>,
    pub new_index: Option<usize>,
}

/// The minimal delta between two observations: exactly the fields whose
/// values differ, nothing for one that stayed put.
pub open spec fn diff_spec(prev: Observation, cur: Observation) -> DiffPlan {
    DiffPlan {
        playing: if cur.playing != prev.playing {
            Some(cur.playing)
        } else {
            None
        },
        volume: if cur.volume != prev.volume {
            Some(cur.volume)
        } else {
            None
        },
        new_index: if cur.index != prev.index {
            Some(cur.index)
        } else {
            None
        },
    }
}

pub fn diff_observation(prev: &Observation, cur: &Observation) -> (r: DiffPlan)
    ensures
        r == diff_spec(*prev, *cur),
{
    DiffPlan {
        playing: if cur.playing != prev.playing {
            Some(cur.playing)
        } else {
            None
        },
        volume: if cur.volume != prev.volume {
            Some(cur.volume)
        } else {
            None
        },
        new_index: if cur.index != prev.index {
            Some(cur.index)
        } else {
            None
        },
    }
}

/// What the decoder reported for one track; empty strings and a zero length
/// stand for fields it could not produce.
#[derive(Clone, Debug, PartialEq, Eq)]
pub struct TrackMeta {
    pub title: String,
    pub artist: String,
    pub length_secs: u64,
}

impl TrackMeta {
    /// The outcome of a failed decode: no field was produced.
    pub fn none() -> (r: TrackMeta)
        ensures
            r.title@ == Seq::<char>::empty(),
            r.artist@ == Seq::<char>::empty(),
            r.length_secs == 0,
    {
        TrackMeta { title: String::new(), artist: String::new(), length_secs: 0 }
    }
}

/// Builds the outward metadata block for a track, with the decode-failure
/// fallbacks: an empty title falls back to the file name without its
/// extension, an empty artist is omitted rather than shown blank.
pub fn build_metadata(track_name: &str, meta: &TrackMeta, image_path: Option<String>) -> (r:
    Metadata)
    ensures
        r.title matches Some(t) && t@ == (if meta.title@.len() > 0 {
            meta.title@
        } else {
            remove_ext_spec(track_name@)
        }),
        meta.artist@.len() == 0 ==> r.artists is None,
        meta.artist@.len() > 0 ==> (r.artists matches Some(a) && a.deep_view() == seq![
            meta.artist@,
        ]),
        r.length == meta.length_secs,
        r.id@ == "/n_music"@,
        r.image_path == image_path,
{
    let title = if meta.title.as_str().unicode_len() > 0 {
        meta.title.clone()
    } else {
        remove_ext(track_name)
    };
    let artists = if meta.artist.as_str().unicode_len() == 0 {
        None
    } else {
        let mut a: Vec<String> = Vec::new();
        a.push(meta.artist.clone());
        proof {
            assert(a.deep_view() =~= seq![meta.artist@]);
        }
        Some(a)
    };
    Metadata {
        title: Some(title),
        artists,
        length: meta.length_secs,
        id: String::from_str("/n_music"),
        image_path,
    }
}

/// The batch one tick emits: the changed fields in a fixed order — playback
/// flag, volume, then the metadata that an index change called for.
pub open spec fn assemble_spec(plan: DiffPlan, metadata: Option<Metadata>) -> Seq<Property> {
    (match plan.playing {
        Some(p) => seq![Property::Playing(p)],
        None => Seq::empty(),
    }) + (match plan.volume {
        Some(v) => seq![Property::Volume(v)],
        None => Seq::empty(),
    }) + (match (plan.new_index, metadata) {
        (Some(i), Some(m)) => seq![Property::Metadata(m)],
        _ => Seq::empty(),
    })
}

/// Stages the outward batch for one tick. When nothing is staged the caller
/// emits nothing at all this tick.
pub fn assemble_properties(plan: &DiffPlan, metadata: Option<Metadata>) -> (r: Vec<Property>)
    ensures
        r@ == assemble_spec(*plan, metadata),
{
    let mut out: Vec<Property> = Vec::new();
    if let Some(p) = plan.playing {
        out.push(Property::Playing(p));
    }
    if let Some(v) = plan.volume {
        out.push(Property::Volume(v));
    }
    if plan.new_index.is_some() {
        if let Some(m) = metadata {
            out.push(Property::Metadata(m));
        }
    }
    proof {
        assert(out@ =~= assemble_spec(*plan, metadata));
    }
    out
}

/// Diff-broadcast minimality, silent half: a tick on which no observed
/// field changed stages zero properties, whatever metadata lookup the
/// caller may have run.
pub proof fn lemma_no_change_emits_nothing(
    prev: Observation,
    cur: Observation,
    metadata: Option<Metadata>,
)
    requires
        prev == cur,
    ensures
        assemble_spec(diff_spec(prev, cur), metadata).len() == 0,
{
}

/// Diff-broadcast minimality, volume half: a tick on which only the volume
/// changed stages exactly one property, and it carries the new volume.
pub proof fn lemma_volume_only_emits_volume(
    prev: Observation,
    cur: Observation,
    metadata: Option<Metadata>,
)
    requires
        prev.playing == cur.playing,
        prev.index == cur.index,
        prev.volume != cur.volume,
    ensures
        assemble_spec(diff_spec(prev, cur), metadata) =~= seq![Property::Volume(cur.volume)],
{
}

} // verus!
