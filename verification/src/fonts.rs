use vstd::prelude::*;

verus! {

use crate::strutil::chars_of;
use crate::strutil::contains_seq;
use crate::strutil::find_first_from;
use crate::strutil::find_last;
use crate::strutil::first_pos;
use crate::strutil::has_char;
use crate::strutil::lemma_first_pos;
use crate::strutil::lemma_last_pos;
use crate::strutil::str_contains;
use crate::strutil::string_of_range;
use crate::strutil::trim_spaces;
use crate::strutil::trim_spec;

/// A line of the system's font listing offers a usable wide-coverage face
/// when it names a Regular style of a CJK family.
pub open spec fn is_cjk_line(l: Seq<char>) -> bool {
    contains_seq(l, "Regular"@) && contains_seq(l, "CJK"@)
}

/// The first usable line of the listing, in listing order.
pub open spec fn first_cjk_line(lines: Seq<Seq<char>>) -> Option<Seq<char>>
    decreases lines.len(),
{
    if lines.len() == 0 {
        None
    } else if is_cjk_line(lines[0]) {
        Some(lines[0])
    } else {
        first_cjk_line(lines.drop_first())
    }
}

proof fn lemma_first_cjk_scan(lines: Seq<Seq<char>>, i: int)
    requires
        0 <= i <= lines.len(),
        forall|j: int| 0 <= j < i ==> !is_cjk_line(#[trigger] lines[j]),
    ensures
        i < lines.len() && is_cjk_line(lines[i]) ==> first_cjk_line(lines) == Some(lines[i]),
        i == lines.len() ==> first_cjk_line(lines) is None,
    decreases i,
{
    if i > 0 {
        let t = lines.drop_first();
        assert(forall|j: int| 0 <= j < i - 1 ==> t[j] == lines[j + 1]);
        lemma_first_cjk_scan(t, i - 1);
        if i < lines.len() {
            assert(t[i - 1] == lines[i]);
        }
    }
}

/// What a listing line contributes: its font file path, which stands before
/// the first colon, with surrounding spaces dropped.
pub open spec fn font_path_of_line(l: Seq<char>) -> Seq<char> {
    trim_spec(
        if has_char(l, ':') {
            l.take(first_pos(l, ':'))
        } else {
            l
        },
    )
}

/// Picks the font file for wide glyph coverage out of the system's font
/// listing: the path named by the first Regular CJK line, or the well-known
/// system fallback path when the listing names none.
pub fn pick_cjk_font(lines: &Vec<String>) -> (r: String)
    ensures
        r@ == (match first_cjk_line(lines.deep_view()) {
            Some(l) => font_path_of_line(l),
            None => "/usr/share/fonts/opentype/noto/NotoSansCJK-Regular.ttc"@,
        }),
{
    let ghost lv = lines.deep_view();
    let mut i: usize = 0;
    while i < lines.len()
        invariant
            lv == lines.deep_view(),
            lv.len() == lines@.len(),
            i <= lines@.len(),
            forall|j: int| 0 <= j < i ==> !is_cjk_line(#[trigger] lv[j]),
        decreases lines@.len() - i,
    {
        let line = &lines[i];
        proof {
            assert(lv[i as int] == line@);
        }
        if str_contains(line.as_str(), "Regular") && str_contains(line.as_str(), "CJK") {
            proof {
                lemma_first_cjk_scan(lv, i as int);
            }
            let v = chars_of(line.as_str());
            let before_colon = match find_first_from(&v, ':', 0) {
                Some(j) => {
                    proof {
                        lemma_first_pos(v@, ':');
                        assert(first_pos(v@, ':') == j as int);
                        assert(v@.subrange(0, j as int) =~= v@.take(j as int));
                    }
                    string_of_range(&v, 0, j)
                },
                None => {
                    proof {
                        lemma_first_pos(v@, ':');
                        assert(v@.subrange(0, v@.len() as int) =~= v@);
                    }
                    string_of_range(&v, 0, v.len())
                },
            };
            return trim_spaces(before_colon.as_str());
        }
        i += 1;
    }
    proof {
        lemma_first_cjk_scan(lv, lv.len() as int);
    }
    String::from_str("/usr/share/fonts/opentype/noto/NotoSansCJK-Regular.ttc")
}

/// The family key of a font file path: the file name up to its first dot,
/// the way the interactive surface registers the fallback font.
pub open spec fn font_name_spec(path: Seq<char>) -> Seq<char> {
    let base = if has_char(path, '/') {
        path.subrange(crate::strutil::last_pos(path, '/') + 1, path.len() as int)
    } else {
        path
    };
    if has_char(base, '.') {
        base.take(first_pos(base, '.'))
    } else {
        base
    }
}

pub fn font_name_of_path(path: &str) -> (r: String)
    ensures
        r@ == font_name_spec(path@),
{
    let v = chars_of(path);
    let base = match find_last(&v, '/') {
        Some(j) => {
            proof {
                lemma_last_pos(v@, '/');
            }
            string_of_range(&v, j + 1, v.len())
        },
        None => {
            proof {
                assert(v@.subrange(0, v@.len() as int) =~= v@);
            }
            string_of_range(&v, 0, v.len())
        },
    };
    let b = chars_of(base.as_str());
    match find_first_from(&b, '.', 0) {
        Some(j) => {
            proof {
                lemma_first_pos(b@, '.');
                assert(first_pos(b@, '.') == j as int);
                assert(b@.subrange(0, j as int) =~= b@.take(j as int));
            }
            string_of_range(&b, 0, j)
        },
        None => {
            proof {
                lemma_first_pos(b@, '.');
                assert(b@.subrange(0, b@.len() as int) =~= b@);
            }
            string_of_range(&b, 0, b.len())
        },
    }
}

} // verus!
