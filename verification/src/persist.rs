use vstd::prelude::*;

verus! {

use crate::strutil::chars_of;
use crate::strutil::str_eq;
use crate::strutil::string_of_range;

/// The state that survives a restart: the last opened folder, the volume (in
/// thousandths of full scale) and the track-name-to-duration pairs that let
/// the next load skip duration probing for names it has seen.
#[derive(Clone, Debug, PartialEq, Eq)]
pub struct PersistedSnapshot {
    pub path: String,
    pub volume: u32,
    pub durations: Vec<(String, u64)>,
}

/// The duration pairs as mathematics: each name a character sequence.
pub open spec fn durs_view(v: Seq<(String, u64)>) -> Seq<(Seq<char>, u64)> {
    v.map_values(|p: (String, u64)| (p.0@, p.1))
}

pub open spec fn digit_of(d: int) -> char {
    if d == 0 {
        '0'
    } else if d == 1 {
        '1'
    } else if d == 2 {
        '2'
    } else if d == 3 {
        '3'
    } else if d == 4 {
        '4'
    } else if d == 5 {
        '5'
    } else if d == 6 {
        '6'
    } else if d == 7 {
        '7'
    } else if d == 8 {
        '8'
    } else {
        '9'
    }
}

/// The value of a decimal digit character, `-1` for any other character.
pub open spec fn digit_val(c: char) -> int {
    if c == '0' {
        0
    } else if c == '1' {
        1
    } else if c == '2' {
        2
    } else if c == '3' {
        3
    } else if c == '4' {
        4
    } else if c == '5' {
        5
    } else if c == '6' {
        6
    } else if c == '7' {
        7
    } else if c == '8' {
        8
    } else if c == '9' {
        9
    } else {
        -1
    }
}

pub open spec fn pow10(w: nat) -> int
    decreases w,
{
    if w == 0 {
        1
    } else {
        10 * pow10((w - 1) as nat)
    }
}

/// `n` written as exactly `w` decimal digits, zero-padded on the left.
pub open spec fn padded_rep(n: int, w: nat) -> Seq<char>
    decreases w,
{
    if w == 0 {
        Seq::empty()
    } else {
        padded_rep(n / 10, (w - 1) as nat).push(digit_of(n % 10))
    }
}

/// The value of a digit string read left to right, `None` on a non-digit or
/// on overflow past `u64::MAX`.
pub open spec fn fold_digits(s: Seq<char>) -> Option<u64>
    decreases s.len(),
{
    if s.len() == 0 {
        Some(0u64)
    } else {
        match fold_digits(s.drop_last()) {
            Some(v) => {
                let d = digit_val(s.last());
                if d < 0 {
                    None
                } else if (v as int) * 10 + d > u64::MAX as int {
                    None
                } else {
                    Some(((v as int) * 10 + d) as u64)
                }
            },
            None => None,
        }
    }
}

pub proof fn lemma_padded_len(n: int, w: nat)
    ensures
        padded_rep(n, w).len() == w,
    decreases w,
{
    if w > 0 {
        lemma_padded_len(n / 10, (w - 1) as nat);
    }
}

/// Reading back a zero-padded representation recovers the number.
pub proof fn lemma_fold_padded(n: int, w: nat)
    requires
        0 <= n < pow10(w),
        n <= u64::MAX as int,
    ensures
        fold_digits(padded_rep(n, w)) == Some(n as u64),
    decreases w,
{
    if w == 0 {
        assert(padded_rep(n, 0) =~= Seq::<char>::empty());
    } else {
        let q = n / 10;
        let d = n % 10;
        assert(0 <= d < 10);
        assert(n == 10 * q + d);
        assert(pow10(w) == 10 * pow10((w - 1) as nat));
        assert(q < pow10((w - 1) as nat));
        lemma_fold_padded(q, (w - 1) as nat);
        assert(padded_rep(n, w).drop_last() =~= padded_rep(q, (w - 1) as nat));
        assert(padded_rep(n, w).last() == digit_of(d));
        assert(digit_val(digit_of(d)) == d);
    }
}

/// Once a prefix of a digit string fails to fold, the whole string fails.
pub proof fn lemma_fold_none_extends(s: Seq<char>, i: int)
    requires
        0 <= i <= s.len(),
        fold_digits(s.take(i)) is None,
    ensures
        fold_digits(s) is None,
    decreases s.len() - i,
{
    if i == s.len() {
        assert(s.take(i) =~= s);
    } else {
        assert(s.drop_last().take(i) =~= s.take(i));
        lemma_fold_none_extends(s.drop_last(), i);
    }
}

/// Bound of the fixed number width: every `u64` fits in 20 digits.
pub proof fn lemma_u64_fits_width()
    ensures
        u64::MAX < pow10(20),
{
    reveal_with_fuel(pow10, 21);
    assert(pow10(20) == 100_000_000_000_000_000_000);
}

/// A number on the wire: exactly 20 decimal digits and one space.
pub open spec fn enc_num(n: u64) -> Seq<char> {
    padded_rep(n as int, 20).push(' ')
}

/// A string on the wire: its character count as a number, then its
/// characters verbatim, so any name round-trips.
pub open spec fn enc_str(s: Seq<char>) -> Seq<char> {
    enc_num(s.len() as u64) + s
}

pub open spec fn enc_pair(p: (Seq<char>, u64)) -> Seq<char> {
    enc_str(p.0) + enc_num(p.1)
}

pub open spec fn enc_pairs(ds: Seq<(Seq<char>, u64)>) -> Seq<char>
    decreases ds.len(),
{
    if ds.len() == 0 {
        Seq::empty()
    } else {
        enc_pair(ds[0]) + enc_pairs(ds.drop_first())
    }
}

/// The whole snapshot on the wire: volume, folder path, pair count, pairs.
pub open spec fn enc_snapshot(path: Seq<char>, volume: u32, ds: Seq<(Seq<char>, u64)>) -> Seq<
    char,
> {
    enc_num(volume as u64) + enc_str(path) + enc_num(ds.len() as u64) + enc_pairs(ds)
}

/// Decodes one number at `pos`: `Some` exactly when 20 digits that fit a
/// `u64` stand there, followed by one space.
pub open spec fn dec_num(v: Seq<char>, pos: int) -> Option<(u64, int)> {
    if 0 <= pos && pos + 21 <= v.len() {
        match fold_digits(v.subrange(pos, pos + 20)) {
            Some(n) => if v[pos + 20] == ' ' {
                Some((n, pos + 21))
            } else {
                None
            },
            None => None,
        }
    } else {
        None
    }
}

/// Decodes one length-prefixed string at `pos`.
pub open spec fn dec_str(v: Seq<char>, pos: int) -> Option<(Seq<char>, int)> {
    match dec_num(v, pos) {
        Some((n, p2)) => if p2 + n <= v.len() {
            Some((v.subrange(p2, p2 + n), p2 + n))
        } else {
            None
        },
        None => None,
    }
}

/// Decodes exactly `count` name/duration pairs starting at `pos`.
pub open spec fn dec_pairs(v: Seq<char>, pos: int, count: nat) -> Option<
    (Seq<(Seq<char>, u64)>, int),
>
    decreases count,
{
    if count == 0 {
        Some((Seq::empty(), pos))
    } else {
        match dec_str(v, pos) {
            Some((name, p1)) => match dec_num(v, p1) {
                Some((dur, p2)) => match dec_pairs(v, p2, (count - 1) as nat) {
                    Some((rest, end)) => Some((seq![(name, dur)] + rest, end)),
                    None => None,
                },
                None => None,
            },
            None => None,
        }
    }
}

/// Decodes a whole snapshot text; `Some` exactly when the text is one
/// complete snapshot encoding with an in-range volume and nothing after it.
pub open spec fn dec_snapshot(v: Seq<char>) -> Option<(Seq<char>, u32, Seq<(Seq<char>, u64)>)> {
    match dec_num(v, 0) {
        Some((vol, p1)) => if vol <= u32::MAX {
            match dec_str(v, p1) {
                Some((path, p2)) => match dec_num(v, p2) {
                    Some((cnt, p3)) => match dec_pairs(v, p3, cnt as nat) {
                        Some((ds, end)) => if end == v.len() {
                            Some((path, vol as u32, ds))
                        } else {
                            None
                        },
                        None => None,
                    },
                    None => None,
                },
                None => None,
            }
        } else {
            None
        },
        None => None,
    }
}

/// Where an encoded number stands, decoding finds exactly that number.
pub proof fn lemma_dec_num_at(v: Seq<char>, pos: int, n: u64)
    requires
        0 <= pos,
        pos + 21 <= v.len(),
        v.subrange(pos, pos + 21) == enc_num(n),
    ensures
        dec_num(v, pos) == Some((n, pos + 21)),
{
    lemma_padded_len(n as int, 20);
    assert(v.subrange(pos, pos + 20) =~= padded_rep(n as int, 20)) by {
        assert forall|j: int| 0 <= j < 20 implies v.subrange(pos, pos + 20)[j] == padded_rep(
            n as int,
            20,
        )[j] by {
            assert(v.subrange(pos, pos + 21)[j] == enc_num(n)[j]);
        }
    }
    lemma_u64_fits_width();
    lemma_fold_padded(n as int, 20);
    assert(v[pos + 20] == v.subrange(pos, pos + 21)[20]);
    assert(enc_num(n)[20] == ' ');
}

/// Where an encoded string stands, decoding finds exactly that string.
pub proof fn lemma_dec_str_at(v: Seq<char>, pos: int, s: Seq<char>)
    requires
        0 <= pos,
        s.len() <= u64::MAX,
        pos + 21 + s.len() <= v.len(),
        v.subrange(pos, pos + 21 + s.len()) == enc_str(s),
    ensures
        dec_str(v, pos) == Some((s, pos + 21 + s.len())),
{
    let n = s.len() as u64;
    lemma_padded_len(n as int, 20);
    assert(enc_num(n).len() == 21);
    assert(v.subrange(pos, pos + 21) =~= enc_num(n)) by {
        assert forall|j: int| 0 <= j < 21 implies v.subrange(pos, pos + 21)[j] == enc_num(n)[j] by {
            assert(v.subrange(pos, pos + 21 + s.len())[j] == enc_str(s)[j]);
        }
    }
    lemma_dec_num_at(v, pos, n);
    assert(v.subrange(pos + 21, pos + 21 + s.len()) =~= s) by {
        assert forall|j: int| 0 <= j < s.len() implies v.subrange(pos + 21, pos + 21 + s.len())[j]
            == s[j] by {
            assert(v.subrange(pos, pos + 21 + s.len())[21 + j] == enc_str(s)[21 + j]);
        }
    }
}

/// Where an encoded pair list stands, decoding that many pairs finds
/// exactly the list.
pub proof fn lemma_dec_pairs_at(v: Seq<char>, pos: int, ds: Seq<(Seq<char>, u64)>)
    requires
        0 <= pos,
        pos + enc_pairs(ds).len() <= v.len(),
        forall|k: int| 0 <= k < ds.len() ==> (#[trigger] ds[k]).0.len() <= u64::MAX,
        v.subrange(pos, pos + enc_pairs(ds).len()) == enc_pairs(ds),
    ensures
        dec_pairs(v, pos, ds.len()) == Some((ds, pos + enc_pairs(ds).len())),
    decreases ds.len(),
{
    if ds.len() == 0 {
    } else {
        let name = ds[0].0;
        let dur = ds[0].1;
        let rest = ds.drop_first();
        lemma_padded_len(name.len() as u64 as int, 20);
        lemma_padded_len(dur as int, 20);
        let l1 = 21 + name.len() as int;
        let l2 = 21int;
        let lr = enc_pairs(rest).len() as int;
        assert(enc_pairs(ds) == enc_pair(ds[0]) + enc_pairs(rest));
        assert(enc_pair(ds[0]).len() == l1 + l2);
        assert(v.subrange(pos, pos + l1) =~= enc_str(name)) by {
            assert forall|j: int| 0 <= j < l1 implies v.subrange(pos, pos + l1)[j] == enc_str(
                name,
            )[j] by {
                assert(v.subrange(pos, pos + l1 + l2 + lr)[j] == enc_pairs(ds)[j]);
                assert(enc_pairs(ds)[j] == enc_pair(ds[0])[j]);
            }
        }
        lemma_dec_str_at(v, pos, name);
        assert(v.subrange(pos + l1, pos + l1 + l2) =~= enc_num(dur)) by {
            assert forall|j: int| 0 <= j < l2 implies v.subrange(pos + l1, pos + l1 + l2)[j]
                == enc_num(dur)[j] by {
                assert(v.subrange(pos, pos + l1 + l2 + lr)[l1 + j] == enc_pairs(ds)[l1 + j]);
                assert(enc_pairs(ds)[l1 + j] == enc_pair(ds[0])[l1 + j]);
            }
        }
        lemma_dec_num_at(v, pos + l1, dur);
        assert(v.subrange(pos + l1 + l2, pos + l1 + l2 + lr) =~= enc_pairs(rest)) by {
            assert forall|j: int| 0 <= j < lr implies v.subrange(
                pos + l1 + l2,
                pos + l1 + l2 + lr,
            )[j] == enc_pairs(rest)[j] by {
                assert(v.subrange(pos, pos + l1 + l2 + lr)[l1 + l2 + j] == enc_pairs(ds)[l1 + l2
                    + j]);
            }
        }
        assert(forall|k: int| 0 <= k < rest.len() ==> (#[trigger] rest[k]).0.len() <= u64::MAX);
        lemma_dec_pairs_at(v, pos + l1 + l2, rest);
        assert(seq![(name, dur)] + rest =~= ds);
    }
}

/// Round-trip law: decoding an encoded snapshot yields exactly the folder
/// path, the volume and the duration pairs that were encoded, so a reload
/// reproduces every saved duration without re-probing.
pub proof fn lemma_snapshot_round_trip(path: Seq<char>, volume: u32, ds: Seq<(Seq<char>, u64)>)
    requires
        path.len() <= u64::MAX,
        ds.len() <= u64::MAX,
        forall|k: int| 0 <= k < ds.len() ==> (#[trigger] ds[k]).0.len() <= u64::MAX,
    ensures
        dec_snapshot(enc_snapshot(path, volume, ds)) == Some((path, volume, ds)),
{
    let v = enc_snapshot(path, volume, ds);
    let cnt = ds.len() as u64;
    lemma_padded_len(volume as u64 as int, 20);
    lemma_padded_len(path.len() as u64 as int, 20);
    lemma_padded_len(cnt as int, 20);
    let p1 = 21int;
    let p2 = p1 + 21 + path.len() as int;
    let p3 = p2 + 21;
    let lr = enc_pairs(ds).len() as int;
    assert(v.len() == p3 + lr);
    assert(v.subrange(0, p1) =~= enc_num(volume as u64)) by {
        assert forall|j: int| 0 <= j < p1 implies v.subrange(0, p1)[j] == enc_num(
            volume as u64,
        )[j] by {
            assert(v[j] == enc_num(volume as u64)[j]);
        }
    }
    lemma_dec_num_at(v, 0, volume as u64);
    assert(v.subrange(p1, p2) =~= enc_str(path)) by {
        assert forall|j: int| 0 <= j < p2 - p1 implies v.subrange(p1, p2)[j] == enc_str(path)[j] by {
            assert(v[p1 + j] == enc_str(path)[j]);
        }
    }
    lemma_dec_str_at(v, p1, path);
    assert(v.subrange(p2, p3) =~= enc_num(cnt)) by {
        assert forall|j: int| 0 <= j < 21 implies v.subrange(p2, p3)[j] == enc_num(cnt)[j] by {
            assert(v[p2 + j] == enc_num(cnt)[j]);
        }
    }
    lemma_dec_num_at(v, p2, cnt);
    assert(v.subrange(p3, p3 + lr) =~= enc_pairs(ds)) by {
        assert forall|j: int| 0 <= j < lr implies v.subrange(p3, p3 + lr)[j] == enc_pairs(ds)[j] by {
            assert(v[p3 + j] == enc_pairs(ds)[j]);
        }
    }
    lemma_dec_pairs_at(v, p3, ds);
}

fn digit_char_of(d: u64) -> (c: char)
    requires
        d < 10,
    ensures
        c == digit_of(d as int),
{
    if d == 0 {
        '0'
    } else if d == 1 {
        '1'
    } else if d == 2 {
        '2'
    } else if d == 3 {
        '3'
    } else if d == 4 {
        '4'
    } else if d == 5 {
        '5'
    } else if d == 6 {
        '6'
    } else if d == 7 {
        '7'
    } else if d == 8 {
        '8'
    } else {
        '9'
    }
}

fn val_of_digit(c: char) -> (r: Option<u8>)
    ensures
        match r {
            Some(d) => digit_val(c) == d as int && d < 10,
            None => digit_val(c) < 0,
        },
{
    if c == '0' {
        Some(0)
    } else if c == '1' {
        Some(1)
    } else if c == '2' {
        Some(2)
    } else if c == '3' {
        Some(3)
    } else if c == '4' {
        Some(4)
    } else if c == '5' {
        Some(5)
    } else if c == '6' {
        Some(6)
    } else if c == '7' {
        Some(7)
    } else if c == '8' {
        Some(8)
    } else if c == '9' {
        Some(9)
    } else {
        None
    }
}

fn push_padded(n: u64, w: usize, out: &mut Vec<char>)
    ensures
        final(out)@ == old(out)@ + padded_rep(n as int, w as nat),
    decreases w,
{
    if w == 0 {
        proof {
            assert(old(out)@ + padded_rep(n as int, 0) =~= old(out)@);
        }
    } else {
        push_padded(n / 10, w - 1, out);
        let c = digit_char_of(n % 10);
        out.push(c);
        proof {
            assert(final(out)@ =~= old(out)@ + padded_rep(n as int, w as nat));
        }
    }
}

fn push_num(n: u64, out: &mut Vec<char>)
    ensures
        final(out)@ == old(out)@ + enc_num(n),
{
    push_padded(n, 20, out);
    out.push(' ');
    proof {
        assert(final(out)@ =~= old(out)@ + enc_num(n));
    }
}

fn push_str_enc(s: &str, out: &mut Vec<char>)
    ensures
        final(out)@ == old(out)@ + enc_str(s@),
        s@.len() <= u64::MAX,
{
    let n = s.unicode_len();
    push_num(n as u64, out);
    let mut cs = chars_of(s);
    out.append(&mut cs);
    proof {
        assert(final(out)@ =~= old(out)@ + enc_str(s@));
    }
}

/// `enc_pairs` grows by one pair's encoding when the list grows at the end.
proof fn lemma_enc_pairs_snoc(ds: Seq<(Seq<char>, u64)>, i: int)
    requires
        0 <= i < ds.len(),
    ensures
        enc_pairs(ds.take(i + 1)) == enc_pairs(ds.take(i)) + enc_pair(ds[i]),
    decreases i,
{
    if i == 0 {
        assert(ds.take(1)[0] == ds[0]);
        assert(ds.take(1).drop_first() =~= ds.take(0));
        assert(enc_pairs(ds.take(0)) =~= Seq::<char>::empty());
        assert(enc_pairs(ds.take(1)) =~= enc_pair(ds[0]));
        assert(enc_pairs(ds.take(0)) + enc_pair(ds[0]) =~= enc_pair(ds[0]));
    } else {
        lemma_enc_pairs_snoc(ds.drop_first(), i - 1);
        assert(ds.take(i + 1).drop_first() =~= ds.drop_first().take(i));
        assert(ds.take(i).drop_first() =~= ds.drop_first().take(i - 1));
        assert(ds.take(i + 1)[0] == ds[0]);
        assert(ds.take(i)[0] == ds[0]);
        assert(ds.drop_first()[i - 1] == ds[i]);
        assert(enc_pair(ds[0]) + (enc_pairs(ds.drop_first().take(i - 1)) + enc_pair(ds[i])) =~= (
        enc_pair(ds[0]) + enc_pairs(ds.drop_first().take(i - 1))) + enc_pair(ds[i]));
    }
}

/// Writes a snapshot as one line of text in the library's own format. The
/// length bounds, forced by the machine, are exactly what
/// `lemma_snapshot_round_trip` asks of a decodable snapshot.
pub fn encode_snapshot(snap: &PersistedSnapshot) -> (r: String)
    ensures
        r@ == enc_snapshot(snap.path@, snap.volume, durs_view(snap.durations@)),
        snap.path@.len() <= u64::MAX,
        durs_view(snap.durations@).len() <= u64::MAX,
        forall|k: int|
            0 <= k < snap.durations@.len() ==> (#[trigger] durs_view(snap.durations@)[k]).0.len()
                <= u64::MAX,
{
    let ghost dv = durs_view(snap.durations@);
    let mut out: Vec<char> = Vec::new();
    push_num(snap.volume as u64, &mut out);
    push_str_enc(snap.path.as_str(), &mut out);
    push_num(snap.durations.len() as u64, &mut out);
    let ghost head = out@;
    proof {
        assert(enc_pairs(dv.take(0)) =~= Seq::<char>::empty());
        assert(out@ =~= head + enc_pairs(dv.take(0)));
    }
    let mut i: usize = 0;
    while i < snap.durations.len()
        invariant
            i <= snap.durations.len(),
            dv == durs_view(snap.durations@),
            dv.len() == snap.durations@.len(),
            out@ == head + enc_pairs(dv.take(i as int)),
            forall|k: int| 0 <= k < i ==> (#[trigger] dv[k]).0.len() <= u64::MAX,
        decreases snap.durations.len() - i,
    {
        push_str_enc(snap.durations[i].0.as_str(), &mut out);
        push_num(snap.durations[i].1, &mut out);
        proof {
            assert(dv[i as int] == (snap.durations@[i as int].0@, snap.durations@[i as int].1));
            lemma_enc_pairs_snoc(dv, i as int);
            assert(out@ =~= head + enc_pairs(dv.take(i + 1)));
        }
        i += 1;
    }
    proof {
        assert(dv.take(dv.len() as int) =~= dv);
        assert(out@ =~= enc_snapshot(snap.path@, snap.volume, dv));
    }
    crate::strutil::string_from_chars(&out)
}

fn parse_num(v: &Vec<char>, pos: usize) -> (r: Option<(u64, usize)>)
    requires
        pos <= v@.len(),
    ensures
        match r {
            Some(p) => dec_num(v@, pos as int) == Some((p.0, p.1 as int)) && pos < p.1 <= v@.len(),
            None => dec_num(v@, pos as int) is None,
        },
{
    if v.len() - pos < 21 {
        return None;
    }
    let ghost digits = v@.subrange(pos as int, pos as int + 20);
    let mut acc: u64 = 0;
    let mut k: usize = 0;
    proof {
        assert(v@.subrange(pos as int, pos as int + 0) =~= Seq::<char>::empty());
    }
    while k < 20
        invariant
            pos + 21 <= v@.len(),
            v@.len() <= usize::MAX,
            k <= 20,
            digits == v@.subrange(pos as int, pos as int + 20),
            fold_digits(v@.subrange(pos as int, pos as int + k)) == Some(acc),
        decreases 20 - k,
    {
        let c = v[pos + k];
        let ghost next = v@.subrange(pos as int, pos as int + k + 1);
        proof {
            assert(next.drop_last() =~= v@.subrange(pos as int, pos as int + k));
            assert(next.last() == c);
        }
        match val_of_digit(c) {
            None => {
                proof {
                    assert(fold_digits(next) is None);
                    assert(digits.take(k + 1) =~= next);
                    lemma_fold_none_extends(digits, k + 1);
                }
                return None;
            },
            Some(d) => {
                if acc > (u64::MAX - d as u64) / 10 {
                    proof {
                        assert((acc as int) * 10 + d > u64::MAX as int);
                        assert(fold_digits(next) is None);
                        assert(digits.take(k + 1) =~= next);
                        lemma_fold_none_extends(digits, k + 1);
                    }
                    return None;
                }
                proof {
                    assert((acc as int) * 10 + d <= u64::MAX as int);
                }
                acc = acc * 10 + d as u64;
                k += 1;
            },
        }
    }
    if v[pos + 20] == ' ' {
        Some((acc, pos + 21))
    } else {
        None
    }
}

fn parse_str(v: &Vec<char>, pos: usize) -> (r: Option<(String, usize)>)
    requires
        pos <= v@.len(),
    ensures
        match r {
            Some(p) => dec_str(v@, pos as int) == Some((p.0@, p.1 as int)) && pos < p.1 <= v@.len(),
            None => dec_str(v@, pos as int) is None,
        },
{
    match parse_num(v, pos) {
        None => None,
        Some((n, p2)) => {
            let rem = v.len() - p2;
            if n > rem as u64 {
                None
            } else {
                let nn = n as usize;
                let s = string_of_range(v, p2, p2 + nn);
                Some((s, p2 + nn))
            }
        },
    }
}

fn parse_pairs(v: &Vec<char>, pos: usize, count: u64) -> (r: Option<(Vec<(String, u64)>, usize)>)
    requires
        pos <= v@.len(),
    ensures
        match r {
            Some(p) => dec_pairs(v@, pos as int, count as nat) == Some(
                (durs_view(p.0@), p.1 as int),
            ) && p.1 <= v@.len(),
            None => dec_pairs(v@, pos as int, count as nat) is None,
        },
{
    let mut acc: Vec<(String, u64)> = Vec::new();
    let mut cur: usize = pos;
    let mut i: u64 = 0;
    proof {
        assert(durs_view(acc@) =~= Seq::<(Seq<char>, u64)>::empty());
    }
    while i < count
        invariant
            i <= count,
            cur <= v@.len(),
            durs_view(acc@).len() == i,
            match dec_pairs(v@, cur as int, (count - i) as nat) {
                Some(p) => dec_pairs(v@, pos as int, count as nat) == Some(
                    (durs_view(acc@) + p.0, p.1),
                ),
                None => dec_pairs(v@, pos as int, count as nat) is None,
            },
        decreases count - i,
    {
        match parse_str(v, cur) {
            None => {
                return None;
            },
            Some((name, p1)) => {
                match parse_num(v, p1) {
                    None => {
                        return None;
                    },
                    Some((dur, p2)) => {
                        let ghost old_acc = durs_view(acc@);
                        acc.push((name, dur));
                        proof {
                            assert(durs_view(acc@) =~= old_acc.push((name@, dur)));
                            assert forall|rest: Seq<(Seq<char>, u64)>|
                                old_acc.push((name@, dur)) + rest =~= old_acc + (seq![
                                    (name@, dur),
                                ] + rest) by {
                            }
                        }
                        cur = p2;
                        i += 1;
                    },
                }
            },
        }
    }
    proof {
        assert(durs_view(acc@) + Seq::<(Seq<char>, u64)>::empty() =~= durs_view(acc@));
    }
    Some((acc, cur))
}

/// Reads a snapshot back from its text form: exactly the decoded snapshot
/// when the text is a complete encoding, and nothing otherwise.
pub fn parse_snapshot(text: &str) -> (r: Option<PersistedSnapshot>)
    ensures
        match r {
            Some(p) => dec_snapshot(text@) == Some((p.path@, p.volume, durs_view(p.durations@))),
            None => dec_snapshot(text@) is None,
        },
{
    let v = chars_of(text);
    match parse_num(&v, 0) {
        None => None,
        Some((vol, p1)) => {
            if vol > u32::MAX as u64 {
                return None;
            }
            match parse_str(&v, p1) {
                None => None,
                Some((path, p2)) => {
                    match parse_num(&v, p2) {
                        None => None,
                        Some((cnt, p3)) => {
                            match parse_pairs(&v, p3, cnt) {
                                None => None,
                                Some((ds, end)) => {
                                    if end == v.len() {
                                        Some(
                                            PersistedSnapshot {
                                                path,
                                                volume: vol as u32,
                                                durations: ds,
                                            },
                                        )
                                    } else {
                                        None
                                    }
                                },
                            }
                        },
                    }
                },
            }
        },
    }
}

/// The first saved duration under this exact name, if any.
pub open spec fn lookup_spec(ds: Seq<(Seq<char>, u64)>, name: Seq<char>) -> Option<u64>
    decreases ds.len(),
{
    if ds.len() == 0 {
        None
    } else if ds[0].0 == name {
        Some(ds[0].1)
    } else {
        lookup_spec(ds.drop_first(), name)
    }
}

/// Looks a track name up among the saved durations, so a reload can reuse
/// the duration instead of probing the file again.
pub fn saved_duration(snap: &PersistedSnapshot, name: &str) -> (r: Option<u64>)
    ensures
        r == lookup_spec(durs_view(snap.durations@), name@),
{
    let ghost dv = durs_view(snap.durations@);
    proof {
        assert(dv.skip(0) =~= dv);
    }
    let mut i: usize = 0;
    while i < snap.durations.len()
        invariant
            i <= snap.durations@.len(),
            dv == durs_view(snap.durations@),
            dv.len() == snap.durations@.len(),
            lookup_spec(dv, name@) == lookup_spec(dv.skip(i as int), name@),
        decreases snap.durations@.len() - i,
    {
        proof {
            assert(dv.skip(i as int)[0] == dv[i as int]);
            assert(dv.skip(i as int).drop_first() =~= dv.skip(i as int + 1));
        }
        if str_eq(snap.durations[i].0.as_str(), name) {
            return Some(snap.durations[i].1);
        }
        i += 1;
    }
    proof {
        assert(dv.skip(dv.len() as int).len() == 0);
    }
    None
}

} // verus!
