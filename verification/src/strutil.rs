use vstd::prelude::*;

verus! {

/// Relies on String::push: appends exactly the one character.
#[verifier::external_body]
pub fn push_char(s: &mut String, c: char)
    ensures
        final(s)@ == old(s)@.push(c),
{
    s.push(c);
}

/// The characters of a string, in order, as a vector.
pub fn chars_of(s: &str) -> (v: Vec<char>)
    ensures
        v@ == s@,
{
    let n = s.unicode_len();
    let mut v: Vec<char> = Vec::new();
    let mut i: usize = 0;
    while i < n
        invariant
            n == s@.len(),
            i <= n,
            v@.len() == i,
            forall|j: int| 0 <= j < i ==> v@[j] == s@[j],
        decreases n - i,
    {
        v.push(s.get_char(i));
        i += 1;
    }
    proof {
        assert(v@ =~= s@);
    }
    v
}

/// A string holding exactly `v@.subrange(a, b)`.
pub fn string_of_range(v: &Vec<char>, a: usize, b: usize) -> (r: String)
    requires
        a <= b <= v@.len(),
    ensures
        r@ == v@.subrange(a as int, b as int),
{
    let mut r = String::new();
    let mut i: usize = a;
    while i < b
        invariant
            a <= i <= b <= v@.len(),
            r@.len() == i - a,
            forall|j: int| 0 <= j < i - a ==> r@[j] == v@[a + j],
        decreases b - i,
    {
        push_char(&mut r, v[i]);
        i += 1;
    }
    proof {
        assert(r@ =~= v@.subrange(a as int, b as int));
    }
    r
}

/// A string holding exactly the characters of `v`, in order.
pub fn string_from_chars(v: &Vec<char>) -> (r: String)
    ensures
        r@ == v@,
{
    let r = string_of_range(v, 0, v.len());
    proof {
        assert(v@.subrange(0, v@.len() as int) =~= v@);
    }
    r
}

/// Character-for-character string equality.
pub fn str_eq(a: &str, b: &str) -> (r: bool)
    ensures
        r == (a@ == b@),
{
    let na = a.unicode_len();
    let nb = b.unicode_len();
    if na != nb {
        return false;
    }
    let mut i: usize = 0;
    while i < na
        invariant
            na == a@.len(),
            na == b@.len(),
            i <= na,
            forall|j: int| 0 <= j < i ==> a@[j] == b@[j],
        decreases na - i,
    {
        if a.get_char(i) != b.get_char(i) {
            return false;
        }
        i += 1;
    }
    proof {
        assert(a@ =~= b@);
    }
    true
}

/// Index of the last occurrence of `c` in `s`, or `-1` when `s` has none.
pub open spec fn last_pos(s: Seq<char>, c: char) -> int
    decreases s.len(),
{
    if s.len() == 0 {
        -1
    } else if s.last() == c {
        s.len() - 1
    } else {
        last_pos(s.drop_last(), c)
    }
}

pub open spec fn has_char(s: Seq<char>, c: char) -> bool {
    exists|i: int| 0 <= i < s.len() && s[i] == c
}

/// `last_pos` finds an occurrence exactly when one exists, finds the last
/// one, and stays inside the sequence.
pub proof fn lemma_last_pos(s: Seq<char>, c: char)
    ensures
        last_pos(s, c) >= -1,
        has_char(s, c) <==> last_pos(s, c) >= 0,
        has_char(s, c) ==> 0 <= last_pos(s, c) < s.len() && s[last_pos(s, c)] == c,
        forall|j: int| last_pos(s, c) < j < s.len() ==> s[j] != c,
    decreases s.len(),
{
    if s.len() > 0 && s.last() != c {
        lemma_last_pos(s.drop_last(), c);
        assert(forall|i: int| 0 <= i < s.len() - 1 ==> s[i] == s.drop_last()[i]);
        if has_char(s, c) {
            let w = choose|i: int| 0 <= i < s.len() && s[i] == c;
            assert(s.drop_last()[w] == c);
        }
        assert forall|j: int| last_pos(s, c) < j < s.len() implies s[j] != c by {
            if j < s.len() - 1 {
                assert(s[j] == s.drop_last()[j]);
            }
        }
    }
}

/// Index of the first occurrence of `c` in `s`, or `-1` when `s` has none.
pub open spec fn first_pos(s: Seq<char>, c: char) -> int
    decreases s.len(),
{
    if s.len() == 0 {
        -1
    } else if s[0] == c {
        0
    } else {
        let p = first_pos(s.drop_first(), c);
        if p < 0 {
            -1
        } else {
            p + 1
        }
    }
}

pub proof fn lemma_first_pos(s: Seq<char>, c: char)
    ensures
        first_pos(s, c) >= -1,
        has_char(s, c) <==> first_pos(s, c) >= 0,
        has_char(s, c) ==> 0 <= first_pos(s, c) < s.len() && s[first_pos(s, c)] == c,
        forall|j: int| 0 <= j < first_pos(s, c) ==> s[j] != c,
    decreases s.len(),
{
    if s.len() > 0 && s[0] != c {
        lemma_first_pos(s.drop_first(), c);
        assert(forall|i: int| 0 <= i < s.len() - 1 ==> s.drop_first()[i] == s[i + 1]);
        if has_char(s, c) {
            let w = choose|i: int| 0 <= i < s.len() && s[i] == c;
            assert(s.drop_first()[w - 1] == c);
        }
        assert forall|j: int| 0 <= j < first_pos(s, c) implies s[j] != c by {
            if j > 0 {
                assert(s.drop_first()[j - 1] == s[j]);
            }
        }
    }
}

/// Index of the first occurrence of `c` at or after position `from`.
pub fn find_first_from(v: &Vec<char>, c: char, from: usize) -> (r: Option<usize>)
    requires
        from <= v@.len(),
    ensures
        match r {
            Some(j) => from <= j < v@.len() && v@[j as int] == c && forall|k: int|
                from <= k < j ==> v@[k] != c,
            None => forall|k: int| from <= k < v@.len() ==> v@[k] != c,
        },
{
    let mut i: usize = from;
    while i < v.len()
        invariant
            from <= i <= v@.len(),
            forall|k: int| from <= k < i ==> v@[k] != c,
        decreases v@.len() - i,
    {
        if v[i] == c {
            return Some(i);
        }
        i += 1;
    }
    None
}

/// Index of the last occurrence of `c`, as `last_pos` gives it.
pub fn find_last(v: &Vec<char>, c: char) -> (r: Option<usize>)
    ensures
        match r {
            Some(j) => j == last_pos(v@, c) && has_char(v@, c),
            None => !has_char(v@, c),
        },
{
    let mut i: usize = v.len();
    proof {
        assert(v@.take(v@.len() as int) =~= v@);
    }
    while i > 0
        invariant
            i <= v@.len(),
            last_pos(v@, c) == last_pos(v@.take(i as int), c),
        decreases i,
    {
        if v[i - 1] == c {
            proof {
                assert(v@.take(i as int).last() == c);
                lemma_last_pos(v@, c);
            }
            return Some(i - 1);
        }
        proof {
            assert(v@.take(i as int).drop_last() =~= v@.take(i as int - 1));
        }
        i -= 1;
    }
    proof {
        lemma_last_pos(v@, c);
    }
    None
}

/// The name without its extension: everything after the last dot is
/// dropped, a dotless name stays whole.
pub open spec fn remove_ext_spec(s: Seq<char>) -> Seq<char> {
    if has_char(s, '.') {
        s.take(last_pos(s, '.'))
    } else {
        s
    }
}

/// The last path segment: everything after the last separator.
pub open spec fn file_name_spec(s: Seq<char>) -> Seq<char> {
    if has_char(s, '/') {
        s.subrange(last_pos(s, '/') + 1, s.len() as int)
    } else {
        s
    }
}

/// Drops the extension from a track file name.
pub fn remove_ext(name: &str) -> (r: String)
    ensures
        r@ == remove_ext_spec(name@),
{
    let v = chars_of(name);
    match find_last(&v, '.') {
        Some(j) => {
            proof {
                lemma_last_pos(v@, '.');
                assert(v@.subrange(0, j as int) =~= v@.take(j as int));
            }
            string_of_range(&v, 0, j)
        },
        None => {
            proof {
                assert(v@.subrange(0, v@.len() as int) =~= v@);
            }
            string_of_range(&v, 0, v.len())
        },
    }
}

/// The display name a path stands for: its file name without the extension.
pub fn from_path_to_name_without_ext(path: &str) -> (r: String)
    ensures
        r@ == remove_ext_spec(file_name_spec(path@)),
{
    let v = chars_of(path);
    let base = match find_last(&v, '/') {
        Some(j) => {
            proof {
                lemma_last_pos(v@, '/');
            }
            string_of_range(&v, j + 1, v.len())
        },
        None => {
            proof {
                assert(v@.subrange(0, v@.len() as int) =~= v@);
            }
            string_of_range(&v, 0, v.len())
        },
    };
    remove_ext(base.as_str())
}

/// The string without its leading spaces.
pub open spec fn trim_start_spec(s: Seq<char>) -> Seq<char>
    decreases s.len(),
{
    if s.len() > 0 && s[0] == ' ' {
        trim_start_spec(s.drop_first())
    } else {
        s
    }
}

/// The string without its trailing spaces.
pub open spec fn trim_end_spec(s: Seq<char>) -> Seq<char>
    decreases s.len(),
{
    if s.len() > 0 && s.last() == ' ' {
        trim_end_spec(s.drop_last())
    } else {
        s
    }
}

/// The string without leading and trailing spaces.
pub open spec fn trim_spec(s: Seq<char>) -> Seq<char> {
    trim_end_spec(trim_start_spec(s))
}

proof fn lemma_trim_start_at(s: Seq<char>, a: int)
    requires
        0 <= a <= s.len(),
        forall|k: int| 0 <= k < a ==> s[k] == ' ',
        a == s.len() || s[a] != ' ',
    ensures
        trim_start_spec(s) == s.skip(a),
    decreases a,
{
    if a == 0 {
        assert(s.skip(0) =~= s);
    } else {
        assert(s[0] == ' ');
        let t = s.drop_first();
        assert(forall|k: int| 0 <= k < a - 1 ==> t[k] == s[k + 1]);
        lemma_trim_start_at(t, a - 1);
        assert(t.skip(a - 1) =~= s.skip(a));
    }
}

proof fn lemma_trim_end_at(s: Seq<char>, b: int)
    requires
        0 <= b <= s.len(),
        forall|k: int| b <= k < s.len() ==> s[k] == ' ',
        b == 0 || s[b - 1] != ' ',
    ensures
        trim_end_spec(s) == s.take(b),
    decreases s.len() - b,
{
    if b == s.len() {
        assert(s.take(b) =~= s);
    } else {
        assert(s.last() == ' ');
        let t = s.drop_last();
        assert(forall|k: int| 0 <= k < s.len() - 1 ==> t[k] == s[k]);
        lemma_trim_end_at(t, b);
        assert(t.take(b) =~= s.take(b));
    }
}

/// The string with the spaces at both ends dropped.
pub fn trim_spaces(s: &str) -> (r: String)
    ensures
        r@ == trim_spec(s@),
{
    let v = chars_of(s);
    let n = v.len();
    let mut a: usize = 0;
    while a < n && v[a] == ' '
        invariant
            n == v@.len(),
            a <= n,
            forall|k: int| 0 <= k < a ==> v@[k] == ' ',
        decreases n - a,
    {
        a += 1;
    }
    proof {
        lemma_trim_start_at(v@, a as int);
    }
    let mut b: usize = n;
    while b > a && v[b - 1] == ' '
        invariant
            n == v@.len(),
            a <= b <= n,
            forall|k: int| b <= k < n ==> v@[k] == ' ',
        decreases b,
    {
        b -= 1;
    }
    proof {
        let t = v@.skip(a as int);
        assert(forall|k: int| b - a <= k < t.len() ==> t[k] == v@[k + a]);
        lemma_trim_end_at(t, b - a);
        assert(t.take(b - a) =~= v@.subrange(a as int, b as int));
    }
    string_of_range(&v, a, b)
}

/// `needle` occurs in `hay` starting at position `i`.
pub open spec fn contains_at(hay: Seq<char>, needle: Seq<char>, i: int) -> bool {
    0 <= i && i + needle.len() <= hay.len() && hay.subrange(i, i + needle.len()) == needle
}

/// `needle` occurs somewhere in `hay`.
pub open spec fn contains_seq(hay: Seq<char>, needle: Seq<char>) -> bool {
    exists|i: int| contains_at(hay, needle, i)
}

/// Substring search: whether `needle` occurs anywhere in `hay`.
pub fn str_contains(hay: &str, needle: &str) -> (r: bool)
    ensures
        r == contains_seq(hay@, needle@),
{
    let h = chars_of(hay);
    let n = chars_of(needle);
    if n.len() > h.len() {
        return false;
    }
    if n.len() == 0 {
        proof {
            assert(hay@.subrange(0, 0) =~= needle@);
            assert(contains_at(hay@, needle@, 0));
        }
        return true;
    }
    let last_start = h.len() - n.len();
    let mut i: usize = 0;
    while i <= last_start
        invariant
            n@.len() > 0,
            h@.len() <= usize::MAX,
            last_start == h@.len() - n@.len(),
            i <= last_start + 1,
            h@ == hay@,
            n@ == needle@,
            forall|i0: int| 0 <= i0 < i ==> !contains_at(hay@, needle@, i0),
        decreases last_start + 1 - i,
    {
        let mut j: usize = 0;
        let mut matched = true;
        while matched && j < n.len()
            invariant
                n@.len() > 0,
                h@.len() <= usize::MAX,
                i + n@.len() <= h@.len(),
                j <= n@.len(),
                h@ == hay@,
                n@ == needle@,
                matched ==> forall|j0: int| 0 <= j0 < j ==> hay@[i + j0] == needle@[j0],
                !matched ==> !contains_at(hay@, needle@, i as int),
            decreases n@.len() - j + (if matched { 1int } else { 0int }),
        {
            if h[i + j] != n[j] {
                proof {
                    let jj = j as int;
                    assert(hay@.subrange(i as int, i + needle@.len())[jj] != needle@[jj]);
                }
                matched = false;
            } else {
                j += 1;
            }
        }
        if matched {
            proof {
                assert(hay@.subrange(i as int, i + needle@.len()) =~= needle@);
                assert(contains_at(hay@, needle@, i as int));
            }
            return true;
        }
        i += 1;
    }
    proof {
        assert forall|i0: int| !contains_at(hay@, needle@, i0) by {
            if 0 <= i0 && i0 + needle@.len() <= hay@.len() {
                assert(i0 < i);
            }
        }
    }
    false
}

} // verus!
