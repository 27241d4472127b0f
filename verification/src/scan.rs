use vstd::prelude::*;

verus! {

use crate::strutil::contains_seq;
use crate::strutil::str_contains;
use crate::strutil::remove_ext_spec;
use crate::strutil::remove_ext;
use crate::persist::PersistedSnapshot;
use crate::persist::durs_view;
use crate::persist::lookup_spec;
use crate::persist::saved_duration;
use crate::FileTrack;

/// The mime type that the file-type matchers detect for a byte prefix: a
/// function of the bytes alone, the same on every machine.
pub uninterp spec fn mime_of(b: Seq<u8>) -> Option<Seq<char>>;

/// Relies on infer::get and infer::Type::mime_type: the matcher table is
/// fixed, so the detected mime type depends on the leading bytes alone.
#[verifier::external_body]
fn detect_mime(head: &Vec<u8>) -> (r: Option<String>)
    ensures
        r matches Some(s) ==> mime_of(head@) == Some(s@),
        r is None ==> mime_of(head@) is None,
{
    infer::get(head.as_slice()).map(|t| t.mime_type().to_string())
}

/// One directory entry as the folder scan hands it over: the file name,
/// whether it is a regular file, and the leading bytes of its contents,
/// from which the file type is detected.
#[derive(Clone, Debug, PartialEq, Eq)]
pub struct ScanEntry {
    pub name: String,
    pub is_file: bool,
    pub head: Vec<u8>,
}

/// An entry joins the queue when it is a regular file whose detected mime
/// type mentions audio.
pub open spec fn entry_selected(e: ScanEntry) -> bool {
    e.is_file && (mime_of(e.head@) matches Some(m) && contains_seq(m, "audio"@))
}

/// The names of the selected entries, in directory-scan order.
pub open spec fn selected_names(es: Seq<ScanEntry>) -> Seq<Seq<char>>
    decreases es.len(),
{
    if es.len() == 0 {
        Seq::empty()
    } else {
        (if entry_selected(es[0]) {
            seq![es[0].name@]
        } else {
            Seq::empty()
        }) + selected_names(es.drop_first())
    }
}

proof fn lemma_selected_snoc(es: Seq<ScanEntry>, i: int)
    requires
        0 <= i < es.len(),
    ensures
        selected_names(es.take(i + 1)) == selected_names(es.take(i)) + (if entry_selected(es[i]) {
            seq![es[i].name@]
        } else {
            Seq::empty()
        }),
    decreases i,
{
    let head = if entry_selected(es[0]) {
        seq![es[0].name@]
    } else {
        Seq::<Seq<char>>::empty()
    };
    if i == 0 {
        assert(es.take(1)[0] == es[0]);
        assert(es.take(1).drop_first() =~= es.take(0));
        assert(selected_names(es.take(0)) =~= Seq::<Seq<char>>::empty());
        assert(selected_names(es.take(1)) =~= head);
        assert(selected_names(es.take(0)) + head =~= head);
    } else {
        lemma_selected_snoc(es.drop_first(), i - 1);
        assert(es.take(i + 1).drop_first() =~= es.drop_first().take(i));
        assert(es.take(i).drop_first() =~= es.drop_first().take(i - 1));
        assert(es.take(i + 1)[0] == es[0]);
        assert(es.take(i)[0] == es[0]);
        assert(es.drop_first()[i - 1] == es[i]);
        let tail = if entry_selected(es[i]) {
            seq![es[i].name@]
        } else {
            Seq::<Seq<char>>::empty()
        };
        assert(head + (selected_names(es.drop_first().take(i - 1)) + tail) =~= (head
            + selected_names(es.drop_first().take(i - 1))) + tail);
    }
}

/// Scans a directory listing for playable tracks: keeps exactly the regular
/// files whose contents are detected as audio, in scan order, by name.
pub fn select_audio_tracks(entries: &Vec<ScanEntry>) -> (r: Vec<String>)
    ensures
        r.deep_view() == selected_names(entries@),
{
    let mut out: Vec<String> = Vec::new();
    let mut i: usize = 0;
    proof {
        assert(selected_names(entries@.take(0)) =~= Seq::<Seq<char>>::empty());
        assert(out.deep_view() =~= selected_names(entries@.take(0)));
    }
    while i < entries.len()
        invariant
            i <= entries@.len(),
            out.deep_view() == selected_names(entries@.take(i as int)),
        decreases entries@.len() - i,
    {
        let ghost before = out.deep_view();
        let e = &entries[i];
        let mut selected = false;
        if e.is_file {
            match detect_mime(&e.head) {
                Some(m) => {
                    if str_contains(m.as_str(), "audio") {
                        selected = true;
                    }
                },
                None => {},
            }
        }
        proof {
            assert(selected == entry_selected(entries@[i as int]));
        }
        if selected {
            out.push(e.name.clone());
            proof {
                assert(out.deep_view() =~= before.push(entries@[i as int].name@));
            }
        }
        proof {
            lemma_selected_snoc(entries@, i as int);
            assert(out.deep_view() =~= selected_names(entries@.take(i as int + 1)));
        }
        i += 1;
    }
    proof {
        assert(entries@.take(entries@.len() as int) =~= entries@);
    }
    out
}

/// For each scanned name, the saved duration to reuse, or `None` where the
/// file still has to be probed: a name that already stands in the snapshot
/// is never probed again.
pub fn plan_durations(names: &Vec<String>, saved: &PersistedSnapshot) -> (r: Vec<Option<u64>>)
    ensures
        r@.len() == names@.len(),
        forall|k: int|
            0 <= k < names@.len() ==> r@[k] == lookup_spec(
                durs_view(saved.durations@),
                names@[k]@,
            ),
{
    let mut out: Vec<Option<u64>> = Vec::new();
    let mut i: usize = 0;
    while i < names.len()
        invariant
            i <= names@.len(),
            out@.len() == i,
            forall|k: int|
                0 <= k < i ==> out@[k] == lookup_spec(durs_view(saved.durations@), names@[k]@),
        decreases names@.len() - i,
    {
        let d = saved_duration(saved, names[i].as_str());
        out.push(d);
        i += 1;
    }
    out
}

/// The track table for a freshly scanned queue: one row per name, titled by
/// the name without its extension, with the duration the caller settled on
/// (reused or freshly probed) and no metadata yet.
pub fn build_file_tracks(names: &Vec<String>, durations: &Vec<u64>) -> (r: Vec<FileTrack>)
    requires
        names@.len() == durations@.len(),
    ensures
        r@.len() == names@.len(),
        forall|k: int|
            0 <= k < r@.len() ==> (#[trigger] r@[k]).name@ == remove_ext_spec(names@[k]@)
                && r@[k].length == durations@[k] && r@[k].title@.len() == 0 && r@[k].artist@.len()
                == 0,
{
    let mut out: Vec<FileTrack> = Vec::new();
    let mut i: usize = 0;
    while i < names.len()
        invariant
            i <= names@.len(),
            names@.len() == durations@.len(),
            out@.len() == i,
            forall|k: int|
                0 <= k < i ==> (#[trigger] out@[k]).name@ == remove_ext_spec(names@[k]@)
                    && out@[k].length == durations@[k] && out@[k].title@.len() == 0
                    && out@[k].artist@.len() == 0,
        decreases names@.len() - i,
    {
        let display = remove_ext(names[i].as_str());
        out.push(
            FileTrack {
                name: display,
                title: String::new(),
                artist: String::new(),
                length: durations[i],
            },
        );
        i += 1;
    }
    out
}

} // verus!
