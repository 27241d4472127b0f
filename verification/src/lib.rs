pub mod bus_server;
pub mod fonts;
pub mod localization;
pub mod persist;
pub mod runner;
pub mod scan;
pub mod strutil;

use vstd::prelude::*;

verus! {

/// One track as a control surface lists it: the file name (identity), the
/// display title and artist once the loader found them, and the duration in
/// whole seconds.
#[derive(Clone, Debug, PartialEq, Eq)]
pub struct FileTrack {
    pub name: String,
    pub title: String,
    pub artist: String,
    pub length: u64,
}

impl FileTrack {
    pub fn new(name: String, artist: String, length: u64) -> (r: FileTrack)
        ensures
            r.name == name,
            r.artist == artist,
            r.length == length,
            r.title@ == Seq::<char>::empty(),
    {
        FileTrack { name, title: String::new(), artist, length }
    }
}

/// One metadata result streamed out of the loader: which queue entry it
/// belongs to and the single field that just became known.
#[derive(Clone, Debug, PartialEq, Eq)]
pub enum Message {
    Length(usize, u64),
    Artist(usize, String),
    Title(usize, String),
}

/// What probing one track yielded: each field independently absent until the
/// decoder produced it. A failed decode yields all three absent.
#[derive(Clone, Debug, PartialEq, Eq)]
pub struct LoaderProbe {
    pub length: Option<u64>,
    pub artist: Option<String>,
    pub title: Option<String>,
}

/// The messages one probed track gives rise to: one per field that became
/// known, in the order length, artist, title — and none for a field that
/// did not, so a failed decode emits nothing and the scan moves on.
pub open spec fn loader_messages_spec(index: usize, probe: LoaderProbe) -> Seq<Message> {
    (match probe.length {
        Some(l) => seq![Message::Length(index, l)],
        None => Seq::empty(),
    }) + (match probe.artist {
        Some(a) => seq![Message::Artist(index, a)],
        None => Seq::empty(),
    }) + (match probe.title {
        Some(t) => seq![Message::Title(index, t)],
        None => Seq::empty(),
    })
}

/// Turns one track's probe outcome into the loader's outbound messages.
pub fn loader_messages(index: usize, probe: LoaderProbe) -> (r: Vec<Message>)
    ensures
        r@ == loader_messages_spec(index, probe),
{
    let mut out: Vec<Message> = Vec::new();
    let LoaderProbe { length, artist, title } = probe;
    if let Some(l) = length {
        out.push(Message::Length(index, l));
    }
    if let Some(a) = artist {
        out.push(Message::Artist(index, a));
    }
    if let Some(t) = title {
        out.push(Message::Title(index, t));
    }
    proof {
        assert(out@ =~= loader_messages_spec(index, probe));
    }
    out
}

/// Everything one whole scan emits: the tracks processed one at a time in
/// queue order, each contributing its own messages. A track that produced
/// nothing contributes nothing, and the tracks after it still contribute in
/// full: one bad file never halts metadata population for the rest.
pub open spec fn loader_stream_spec(probes: Seq<LoaderProbe>) -> Seq<Message>
    decreases probes.len(),
{
    if probes.len() == 0 {
        Seq::empty()
    } else {
        loader_stream_spec(probes.drop_last()) + loader_messages_spec(
            (probes.len() - 1) as usize,
            probes.last(),
        )
    }
}

/// Runs the loader's message production over a whole scan's probe outcomes.
pub fn loader_stream(probes: Vec<LoaderProbe>) -> (r: Vec<Message>)
    ensures
        r@ == loader_stream_spec(probes@),
{
    let ghost pv = probes@;
    let mut out: Vec<Message> = Vec::new();
    let mut i: usize = 0;
    proof {
        assert(pv.take(0) =~= Seq::<LoaderProbe>::empty());
    }
    let n = probes.len();
    let mut rest = probes;
    while i < n
        invariant
            i <= n,
            n == pv.len(),
            rest@ == pv.skip(i as int),
            out@ == loader_stream_spec(pv.take(i as int)),
        decreases n - i,
    {
        let probe = rest.remove(0);
        proof {
            assert(probe == pv[i as int]);
            assert(rest@ =~= pv.skip(i as int + 1));
            assert(pv.take(i as int + 1).drop_last() =~= pv.take(i as int));
            assert(pv.take(i as int + 1).last() == pv[i as int]);
        }
        let mut msgs = loader_messages(i, probe);
        out.append(&mut msgs);
        i += 1;
    }
    proof {
        assert(pv.take(n as int) =~= pv);
    }
    out
}

/// The track table after one loader message: the named field of the named
/// entry is overwritten; a message about an entry past the end of the table
/// changes nothing.
pub open spec fn apply_message_spec(tracks: Seq<FileTrack>, msg: Message) -> Seq<FileTrack> {
    match msg {
        Message::Length(i, l) => if i < tracks.len() {
            tracks.update(i as int, FileTrack { length: l, ..tracks[i as int] })
        } else {
            tracks
        },
        Message::Artist(i, a) => if i < tracks.len() {
            tracks.update(i as int, FileTrack { artist: a, ..tracks[i as int] })
        } else {
            tracks
        },
        Message::Title(i, t) => if i < tracks.len() {
            tracks.update(i as int, FileTrack { title: t, ..tracks[i as int] })
        } else {
            tracks
        },
    }
}

/// Folds one loader message into the track table a surface renders from.
pub fn apply_loader_message(tracks: &mut Vec<FileTrack>, msg: Message)
    ensures
        final(tracks)@ == apply_message_spec(old(tracks)@, msg),
{
    match msg {
        Message::Length(i, l) => {
            if i < tracks.len() {
                tracks[i].length = l;
            }
        },
        Message::Artist(i, a) => {
            if i < tracks.len() {
                tracks[i].artist = a;
            }
        },
        Message::Title(i, t) => {
            if i < tracks.len() {
                tracks[i].title = t;
            }
        },
    }
}

/// The largest volume value a session accepts; volumes are measured in
/// thousandths of full scale, so `1000` is full volume.
pub const MAX_VOLUME: u32 = 1000;

} // verus!
