//! Character-level text operations, each with its mathematical meaning over `Seq<char>`.

use vstd::prelude::*;

verus! {

/// std's `String::push`: appends one character at the end of the string.
pub assume_specification[ String::push ](s: &mut String, ch: char)
    ensures
        final(s)@ == old(s)@.push(ch),
;

// ---------------------------------------------------------------------------------------------
// Specifications
// ---------------------------------------------------------------------------------------------

/// `pat` occurs in `s` starting at position `i`.
pub open spec fn occurs_at(s: Seq<char>, pat: Seq<char>, i: int) -> bool {
    0 <= i && i + pat.len() <= s.len() && s.subrange(i, i + pat.len()) == pat
}

/// The position of the first occurrence of `pat` in `s` that starts at or after `from`.
pub open spec fn find_from(s: Seq<char>, pat: Seq<char>, from: int) -> Option<int>
    decreases s.len() + 1 - from,
{
    if from + pat.len() > s.len() {
        None
    } else if occurs_at(s, pat, from) {
        Some(from)
    } else {
        find_from(s, pat, from + 1)
    }
}

/// The position of the first occurrence of `pat` in `s`.
pub open spec fn find(s: Seq<char>, pat: Seq<char>) -> Option<int> {
    find_from(s, pat, 0)
}

/// The pieces of `s` between the non-overlapping occurrences of `pat`, found left to right
/// (as `str::split` with a string pattern).
pub open spec fn split_str(s: Seq<char>, pat: Seq<char>) -> Seq<Seq<char>>
    decreases s.len(),
{
    if pat.len() == 0 {
        seq![s]
    } else {
        match find(s, pat) {
            Some(i) => {
                proof {
                    lemma_find_from_bounds(s, pat, 0);
                }
                seq![s.take(i)] + split_str(s.skip(i + pat.len()), pat)
            },
            None => seq![s],
        }
    }
}

/// `s` with every non-overlapping occurrence of `pat`, found left to right, replaced by
/// `rep` (as `str::replace`).
pub open spec fn replace_all(s: Seq<char>, pat: Seq<char>, rep: Seq<char>) -> Seq<char>
    decreases s.len(),
{
    if pat.len() == 0 {
        s
    } else {
        match find(s, pat) {
            Some(i) => {
                proof {
                    lemma_find_from_bounds(s, pat, 0);
                }
                s.take(i) + rep + replace_all(s.skip(i + pat.len()), pat, rep)
            },
            None => s,
        }
    }
}

/// The part of `s` before the first occurrence of `pat`, or all of `s` when there is none.
pub open spec fn before_first(s: Seq<char>, pat: Seq<char>) -> Seq<char> {
    match find(s, pat) {
        Some(i) => s.take(i),
        None => s,
    }
}

/// The white-space characters of Unicode (those for which `char::is_whitespace` holds).
pub open spec fn is_white_space(c: char) -> bool {
    let u = c as u32;
    ||| 0x09 <= u <= 0x0d
    ||| u == 0x20
    ||| u == 0x85
    ||| u == 0xa0
    ||| u == 0x1680
    ||| 0x2000 <= u <= 0x200a
    ||| u == 0x2028
    ||| u == 0x2029
    ||| u == 0x202f
    ||| u == 0x205f
    ||| u == 0x3000
}

/// `s` without its leading white space.
pub open spec fn trim_start(s: Seq<char>) -> Seq<char>
    decreases s.len(),
{
    if s.len() > 0 && is_white_space(s[0]) {
        trim_start(s.drop_first())
    } else {
        s
    }
}

/// `s` without its trailing white space.
pub open spec fn trim_end(s: Seq<char>) -> Seq<char>
    decreases s.len(),
{
    if s.len() > 0 && is_white_space(s.last()) {
        trim_end(s.drop_last())
    } else {
        s
    }
}

/// `s` without leading and trailing white space (as `str::trim`).
pub open spec fn trim(s: Seq<char>) -> Seq<char> {
    trim_end(trim_start(s))
}

// ---------------------------------------------------------------------------------------------
// Lemmas
// ---------------------------------------------------------------------------------------------

/// A found position lies inside `s`, at or after `from`, and `pat` occurs there; no earlier
/// position from `from` on holds an occurrence.
pub proof fn lemma_find_from_bounds(s: Seq<char>, pat: Seq<char>, from: int)
    ensures
        match find_from(s, pat, from) {
            Some(i) => from <= i && i + pat.len() <= s.len() && occurs_at(s, pat, i) && forall|
                j: int,
            |
                from <= j < i ==> !occurs_at(s, pat, j),
            None => forall|j: int| from <= j ==> !occurs_at(s, pat, j),
        },
    decreases s.len() + 1 - from,
{
    if from + pat.len() > s.len() {
    } else if occurs_at(s, pat, from) {
    } else {
        lemma_find_from_bounds(s, pat, from + 1);
    }
}


/// Searching from `from` in a suffix of `s` is searching in `s` from `pos + from`.
pub proof fn lemma_find_in_suffix(s: Seq<char>, pat: Seq<char>, pos: int, from: int)
    requires
        0 <= pos <= s.len(),
        0 <= from,
    ensures
        find_from(s.skip(pos), pat, from) == match find_from(s, pat, pos + from) {
            Some(i) => Some(i - pos),
            None => None,
        },
    decreases s.len() + 1 - pos - from,
{
    let t = s.skip(pos);
    if from + pat.len() > t.len() {
    } else {
        assert(t.subrange(from, from + pat.len()) =~= s.subrange(pos + from, pos + from + pat.len()));
        if !occurs_at(t, pat, from) {
            lemma_find_in_suffix(s, pat, pos, from + 1);
        }
    }
}

/// `split_str` yields at least one piece.
pub proof fn lemma_split_str_len(s: Seq<char>, pat: Seq<char>)
    ensures
        split_str(s, pat).len() >= 1,
    decreases s.len(),
{
    if pat.len() > 0 {
        lemma_find_from_bounds(s, pat, 0);
        if let Some(i) = find(s, pat) {
            lemma_split_str_len(s.skip(i + pat.len()), pat);
        }
    }
}

/// A text without the first character of `pat` holds no occurrence of `pat`.
pub proof fn lemma_find_none_without_first(s: Seq<char>, pat: Seq<char>)
    requires
        pat.len() > 0,
        !s.contains(pat[0]),
    ensures
        find(s, pat) is None,
{
    lemma_find_from_bounds(s, pat, 0);
    if let Some(i) = find(s, pat) {
        assert(s.subrange(i, i + pat.len())[0] == s[i]);
    }
}

/// The first occurrence of `pat` from `from` on is at `at` when `pat` occurs there and at no
/// position between.
pub proof fn lemma_find_from_first(s: Seq<char>, pat: Seq<char>, from: int, at: int)
    requires
        0 <= from <= at,
        occurs_at(s, pat, at),
        forall|j: int| from <= j < at ==> !occurs_at(s, pat, j),
    ensures
        find_from(s, pat, from) == Some(at),
{
    lemma_find_from_bounds(s, pat, from);
}

/// The first `ch` from `from` on is at `at` when `s[at]` is `ch` and no character between is.
pub proof fn lemma_find_char_from(s: Seq<char>, ch: char, from: int, at: int)
    requires
        0 <= from <= at < s.len(),
        s[at] == ch,
        forall|j: int| from <= j < at ==> s[j] != ch,
    ensures
        find_from(s, seq![ch], from) == Some(at),
{
    assert(s.subrange(at, at + 1) =~= seq![ch]);
    assert forall|j: int| from <= j < at implies !occurs_at(s, seq![ch], j) by {
        if occurs_at(s, seq![ch], j) {
            assert(s.subrange(j, j + 1)[0] == s[j]);
        }
    }
    lemma_find_from_first(s, seq![ch], from, at);
}

/// In `a + rest`, where `rest` starts with `pat`, `a` holds no `pat`, and the first character of
/// `pat` occurs nowhere else in it, the first `pat` is at the end of `a`.
pub proof fn lemma_find_after_prefix(a: Seq<char>, pat: Seq<char>, rest: Seq<char>)
    requires
        find(a, pat) is None,
        pat.len() > 0,
        forall|k: int| 0 < k < pat.len() ==> #[trigger] pat[k] != pat[0],
        pat.len() <= rest.len(),
        rest.take(pat.len() as int) == pat,
    ensures
        find(a + rest, pat) == Some(a.len() as int),
{
    let c = a + rest;
    let al: int = a.len() as int;
    assert(c.subrange(al, al + pat.len()) =~= pat);
    lemma_find_from_bounds(a, pat, 0);
    assert forall|j: int| 0 <= j < al implies !occurs_at(c, pat, j) by {
        if occurs_at(c, pat, j) {
            if j + pat.len() <= al {
                assert(a.subrange(j, j + pat.len()) =~= c.subrange(j, j + pat.len()));
                assert(occurs_at(a, pat, j));
            } else {
                let k = al - j;
                assert(c[al] == pat[0]);
                assert(c.subrange(j, j + pat.len())[k] == c[al]);
            }
        }
    }
    lemma_find_from_first(c, pat, 0, al);
}

/// A joined text holds `c` only where one of its parts does.
pub proof fn lemma_lacks_joined(a: Seq<char>, b: Seq<char>, c: char)
    requires
        !a.contains(c),
        !b.contains(c),
    ensures
        !(a + b).contains(c),
{
    if (a + b).contains(c) {
        let i = choose|i: int| 0 <= i < (a + b).len() && (a + b)[i] == c;
        if i < a.len() {
            assert(a[i] == c);
        } else {
            assert(b[i - a.len()] == c);
        }
    }
}

/// In `a + b`, where `a` holds no `c` and `b` starts with `c`, the first `c` is at `a.len()`.
pub proof fn lemma_find_char_at_join(a: Seq<char>, b: Seq<char>, c: char)
    requires
        !a.contains(c),
        b.len() > 0,
        b[0] == c,
    ensures
        find(a + b, seq![c]) == Some(a.len() as int),
{
    let s = a + b;
    lemma_find_from_bounds(s, seq![c], 0);
    assert(s.subrange(a.len() as int, a.len() + 1int) =~= seq![c]);
    assert(occurs_at(s, seq![c], a.len() as int));
    if let Some(i) = find(s, seq![c]) {
        if i < a.len() {
            assert(s.subrange(i, i + 1)[0] == s[i]);
            assert(a[i] == c);
        }
    }
}

/// Splitting a text that holds no `c` at `c` gives the text itself.
pub proof fn lemma_split_without_separator(s: Seq<char>, c: char)
    requires
        !s.contains(c),
    ensures
        split_str(s, seq![c]) == seq![s],
{
    lemma_find_none_without_first(s, seq![c]);
}

/// Splitting `a`, `c`, `b` at `c`, where `a` holds no `c`, gives `a` and then the pieces of `b`.
pub proof fn lemma_split_at_first(a: Seq<char>, b: Seq<char>, c: char)
    requires
        !a.contains(c),
    ensures
        split_str(a + seq![c] + b, seq![c]) == seq![a] + split_str(b, seq![c]),
{
    let s = a + seq![c] + b;
    assert(s =~= a + (seq![c] + b));
    lemma_find_char_at_join(a, seq![c] + b, c);
    assert(s.take(a.len() as int) =~= a);
    assert(s.skip(a.len() + 1int) =~= b);
}

// ---------------------------------------------------------------------------------------------
// Executable operations
// ---------------------------------------------------------------------------------------------

/// The characters of `s`, in order.
pub fn chars_of(s: &str) -> (v: Vec<char>)
    ensures
        v@ == s@,
{
    let mut v: Vec<char> = Vec::new();
    for c in it: s.chars()
        invariant
            v@ == it.seq().take(it.index() as int),
    {
        v.push(c);
    }
    v
}

/// The characters `v[from..to]`.
pub fn slice_chars(v: &Vec<char>, from: usize, to: usize) -> (r: Vec<char>)
    requires
        from <= to <= v.len(),
    ensures
        r@ == v@.subrange(from as int, to as int),
{
    let mut r: Vec<char> = Vec::new();
    let mut i = from;
    while i < to
        invariant
            from <= i <= to <= v.len(),
            r@ == v@.subrange(from as int, i as int),
        decreases to - i,
    {
        r.push(v[i]);
        i += 1;
        assert(r@ =~= v@.subrange(from as int, i as int));
    }
    r
}

/// The string made of the characters `v[from..to]`.
pub fn string_of(v: &Vec<char>, from: usize, to: usize) -> (r: String)
    requires
        from <= to <= v.len(),
    ensures
        r@ == v@.subrange(from as int, to as int),
{
    let mut r = String::new();
    let mut i = from;
    while i < to
        invariant
            from <= i <= to <= v.len(),
            r@ == v@.subrange(from as int, i as int),
        decreases to - i,
    {
        r.push(v[i]);
        i += 1;
        assert(r@ =~= v@.subrange(from as int, i as int));
    }
    r
}

/// The string made of all the characters of `v`.
pub fn string_of_all(v: &Vec<char>) -> (r: String)
    ensures
        r@ == v@,
{
    let r = string_of(v, 0, v.len());
    assert(v@.subrange(0, v@.len() as int) =~= v@);
    r
}

/// Whether `pat` occurs in `s` at position `i`.
pub fn occurs_at_exec(s: &Vec<char>, pat: &Vec<char>, i: usize) -> (b: bool)
    requires
        i <= s.len(),
    ensures
        b == occurs_at(s@, pat@, i as int),
{
    if pat.len() > s.len() - i {
        return false;
    }
    let mut k: usize = 0;
    while k < pat.len()
        invariant
            k <= pat.len(),
            i + pat.len() <= s.len(),
            forall|j: int| 0 <= j < k ==> s@[i + j] == pat@[j],
        decreases pat.len() - k,
    {
        if s[i + k] != pat[k] {
            assert(s@.subrange(i as int, i + pat.len())[k as int] != pat@[k as int]);
            return false;
        }
        k += 1;
    }
    assert(s@.subrange(i as int, i + pat.len()) =~= pat@);
    true
}

/// The position of the first occurrence of `pat` in `s` at or after `from`.
pub fn find_from_exec(s: &Vec<char>, pat: &Vec<char>, from: usize) -> (r: Option<usize>)
    ensures
        match r {
            Some(i) => find_from(s@, pat@, from as int) == Some(i as int) && from <= i && i
                + pat.len() <= s.len(),
            None => find_from(s@, pat@, from as int) is None,
        },
{
    proof {
        lemma_find_from_bounds(s@, pat@, from as int);
    }
    if pat.len() > s.len() || from > s.len() - pat.len() {
        return None;
    }
    let last = s.len() - pat.len();
    let mut i = from;
    loop
        invariant
            from <= i <= last,
            last + pat.len() == s.len(),
            find_from(s@, pat@, from as int) == find_from(s@, pat@, i as int),
        decreases last - i,
    {
        if occurs_at_exec(s, pat, i) {
            return Some(i);
        }
        if i == last {
            assert(find_from(s@, pat@, (i + 1) as int) is None);
            return None;
        }
        i += 1;
    }
}

/// The pieces of `s` between the occurrences of `pat`.
pub fn split_str_exec(s: &Vec<char>, pat: &Vec<char>) -> (r: Vec<Vec<char>>)
    requires
        pat.len() > 0,
    ensures
        r.deep_view() == split_str(s@, pat@),
{
    let mut out: Vec<Vec<char>> = Vec::new();
    let mut pos: usize = 0;
    assert(s@.skip(0) =~= s@);
    assert(out.deep_view() =~= Seq::<Seq<char>>::empty());
    loop
        invariant
            pos <= s.len(),
            pat.len() > 0,
            split_str(s@, pat@) == out.deep_view() + split_str(s@.skip(pos as int), pat@),
        decreases s.len() - pos,
    {
        let ghost t = s@.skip(pos as int);
        proof {
            lemma_find_in_suffix(s@, pat@, pos as int, 0);
            lemma_find_from_bounds(s@, pat@, pos as int);
        }
        match find_from_exec(s, pat, pos) {
            Some(i) => {
                let piece = slice_chars(s, pos, i);
                let ghost before = out.deep_view();
                assert(piece.deep_view() =~= piece@);
                out.push(piece);
                proof {
                    assert(t.take(i - pos) =~= s@.subrange(pos as int, i as int));
                    assert(t.skip(i - pos + pat.len()) =~= s@.skip(i + pat.len()));
                    assert(out.deep_view() =~= before.push(s@.subrange(pos as int, i as int)));
                }
                pos = i + pat.len();
                assert(split_str(s@, pat@) =~= out.deep_view() + split_str(
                    s@.skip(pos as int),
                    pat@,
                ));
            },
            None => {
                let piece = slice_chars(s, pos, s.len());
                let ghost before = out.deep_view();
                assert(piece.deep_view() =~= piece@);
                out.push(piece);
                proof {
                    assert(t =~= s@.subrange(pos as int, s.len() as int));
                    assert(out.deep_view() =~= before.push(t));
                }
                assert(split_str(s@, pat@) =~= out.deep_view());
                return out;
            },
        }
    }
}

/// `s` with every occurrence of `pat` replaced by `rep`.
pub fn replace_all_exec(s: &Vec<char>, pat: &Vec<char>, rep: &Vec<char>) -> (r: Vec<char>)
    requires
        pat.len() > 0,
    ensures
        r@ == replace_all(s@, pat@, rep@),
{
    let mut out: Vec<char> = Vec::new();
    let mut pos: usize = 0;
    assert(s@.skip(0) =~= s@);
    assert(out@ + s@ =~= s@);
    loop
        invariant
            pos <= s.len(),
            pat.len() > 0,
            replace_all(s@, pat@, rep@) == out@ + replace_all(s@.skip(pos as int), pat@, rep@),
        decreases s.len() - pos,
    {
        let ghost t = s@.skip(pos as int);
        proof {
            lemma_find_in_suffix(s@, pat@, pos as int, 0);
            lemma_find_from_bounds(s@, pat@, pos as int);
        }
        let end = match find_from_exec(s, pat, pos) {
            Some(i) => i,
            None => s.len(),
        };
        let ghost before = out@;
        let mut k = pos;
        while k < end
            invariant
                pos <= k <= end <= s.len(),
                out@ == before + s@.subrange(pos as int, k as int),
            decreases end - k,
        {
            out.push(s[k]);
            k += 1;
            assert(out@ =~= before + s@.subrange(pos as int, k as int));
        }
        if end == s.len() {
            proof {
                if find_from(s@, pat@, pos as int) is Some {
                    assert(pos + pat.len() <= s.len());
                }
            }
            assert(t =~= s@.subrange(pos as int, s.len() as int));
            assert(out@ =~= before + t);
            return out;
        }
        let ghost mid = out@;
        let mut k2: usize = 0;
        while k2 < rep.len()
            invariant
                k2 <= rep.len(),
                out@ == mid + rep@.take(k2 as int),
            decreases rep.len() - k2,
        {
            out.push(rep[k2]);
            k2 += 1;
            assert(out@ =~= mid + rep@.take(k2 as int));
        }
        proof {
            assert(rep@.take(rep.len() as int) =~= rep@);
            assert(t.take(end - pos) =~= s@.subrange(pos as int, end as int));
            assert(t.skip(end - pos + pat.len()) =~= s@.skip(end + pat.len()));
        }
        pos = end + pat.len();
        assert(replace_all(s@, pat@, rep@) =~= out@ + replace_all(s@.skip(pos as int), pat@, rep@));
    }
}

/// Whether `c` is white space in the sense of `char::is_whitespace`.
pub fn is_white_space_exec(c: char) -> (b: bool)
    ensures
        b == is_white_space(c),
{
    let u = c as u32;
    (0x09 <= u && u <= 0x0d) || u == 0x20 || u == 0x85 || u == 0xa0 || u == 0x1680 || (0x2000
        <= u && u <= 0x200a) || u == 0x2028 || u == 0x2029 || u == 0x202f || u == 0x205f || u
        == 0x3000
}

/// `s` without leading and trailing white space.
pub fn trim_exec(s: &Vec<char>) -> (r: Vec<char>)
    ensures
        r@ == trim(s@),
{
    let mut a: usize = 0;
    assert(s@.skip(0) =~= s@);
    while a < s.len() && is_white_space_exec(s[a])
        invariant
            a <= s.len(),
            trim_start(s@) == trim_start(s@.skip(a as int)),
        decreases s.len() - a,
    {
        assert(s@.skip(a as int).drop_first() =~= s@.skip(a + 1));
        a += 1;
    }
    let mut b: usize = s.len();
    assert(s@.skip(a as int) =~= s@.subrange(a as int, b as int));
    while b > a && is_white_space_exec(s[b - 1])
        invariant
            a <= b <= s.len(),
            trim(s@) == trim_end(s@.subrange(a as int, b as int)),
        decreases b,
    {
        assert(s@.subrange(a as int, b as int).drop_last() =~= s@.subrange(a as int, b - 1));
        b -= 1;
    }
    slice_chars(s, a, b)
}


/// Appends all the characters of `src` to `dst`.
pub fn push_all(dst: &mut Vec<char>, src: &Vec<char>)
    ensures
        final(dst)@ == old(dst)@ + src@,
{
    let ghost start = dst@;
    let mut i: usize = 0;
    while i < src.len()
        invariant
            i <= src.len(),
            dst@ == start + src@.take(i as int),
        decreases src.len() - i,
    {
        dst.push(src[i]);
        i += 1;
        assert(dst@ =~= start + src@.take(i as int));
    }
    assert(src@.take(src.len() as int) =~= src@);
}

/// `prefix` followed by `detail`.
pub fn concat_str(prefix: &str, detail: &str) -> (r: String)
    ensures
        r@ == prefix@ + detail@,
{
    let mut r = String::from_str(prefix);
    r.append(detail);
    r
}

/// `prefix`, `detail`, then `suffix`.
pub fn concat3_str(prefix: &str, detail: &str, suffix: &str) -> (r: String)
    ensures
        r@ == prefix@ + detail@ + suffix@,
{
    let mut r = String::from_str(prefix);
    r.append(detail);
    r.append(suffix);
    r
}

/// The view of an optional character vector.
pub open spec fn opt_chars(o: Option<Vec<char>>) -> Option<Seq<char>> {
    match o {
        Some(v) => Some(v@),
        None => None,
    }
}

/// The view of an optional string.
pub open spec fn opt_string(o: Option<String>) -> Option<Seq<char>> {
    match o {
        Some(v) => Some(v@),
        None => None,
    }
}

} // verus!
