//! String operations on sequences of characters: whitespace trimming,
//! splitting on a separator, joining and concatenation.

use vstd::prelude::*;
use vstd::string::*;

verus! {

/// Whether `c` has the Unicode property `White_Space`.
pub open spec fn is_whitespace(c: char) -> bool {
    let n = c as u32;
    ||| 0x09 <= n <= 0x0D
    ||| n == 0x20
    ||| n == 0x85
    ||| n == 0xA0
    ||| n == 0x1680
    ||| 0x2000 <= n <= 0x200A
    ||| n == 0x2028
    ||| n == 0x2029
    ||| n == 0x202F
    ||| n == 0x205F
    ||| n == 0x3000
}

/// `s` without its leading whitespace.
pub open spec fn trim_start(s: Seq<char>) -> Seq<char>
    decreases s.len(),
{
    if s.len() > 0 && is_whitespace(s.first()) {
        trim_start(s.drop_first())
    } else {
        s
    }
}

/// `s` without its trailing whitespace.
pub open spec fn trim_end(s: Seq<char>) -> Seq<char>
    decreases s.len(),
{
    if s.len() > 0 && is_whitespace(s.last()) {
        trim_end(s.drop_last())
    } else {
        s
    }
}

/// `s` without its leading and trailing whitespace.
pub open spec fn trimmed(s: Seq<char>) -> Seq<char> {
    trim_end(trim_start(s))
}

/// The pieces of `s` between occurrences of `sep`, in order. There is always
/// one piece more than there are separators; pieces may be empty.
pub open spec fn split_on(s: Seq<char>, sep: char) -> Seq<Seq<char>>
    decreases s.len(),
{
    if s.len() == 0 {
        seq![Seq::<char>::empty()]
    } else {
        let before = split_on(s.drop_last(), sep);
        if s.last() == sep {
            before.push(Seq::<char>::empty())
        } else {
            before.drop_last().push(before.last().push(s.last()))
        }
    }
}

/// The parts one after another, with `sep` between each two neighbours.
pub open spec fn join_with(parts: Seq<Seq<char>>, sep: Seq<char>) -> Seq<char>
    decreases parts.len(),
{
    if parts.len() == 0 {
        Seq::<char>::empty()
    } else if parts.len() == 1 {
        parts[0]
    } else {
        join_with(parts.drop_last(), sep) + sep + parts.last()
    }
}

/// The parts one after another, with nothing between them.
pub open spec fn concat(parts: Seq<Seq<char>>) -> Seq<char>
    decreases parts.len(),
{
    if parts.len() == 0 {
        Seq::<char>::empty()
    } else {
        concat(parts.drop_last()) + parts.last()
    }
}

/// Whether `[a, b)` is the part of `s` that trimming keeps: all before `a`
/// and all from `b` on is whitespace, and the part itself neither starts nor
/// ends with whitespace.
pub open spec fn is_core(s: Seq<char>, a: int, b: int) -> bool {
    &&& 0 <= a <= b <= s.len()
    &&& forall|k: int| 0 <= k < a ==> is_whitespace(#[trigger] s[k])
    &&& forall|k: int| b <= k < s.len() ==> is_whitespace(#[trigger] s[k])
    &&& a < b ==> !is_whitespace(s[a]) && !is_whitespace(s[b - 1])
}

/// Where `trim_start` cuts: everything before the cut is whitespace, and the
/// character at the cut, if there is one, is not.
pub proof fn lemma_trim_start_cut(s: Seq<char>) -> (a: int)
    ensures
        0 <= a <= s.len(),
        trim_start(s) == s.subrange(a, s.len() as int),
        forall|k: int| 0 <= k < a ==> is_whitespace(#[trigger] s[k]),
        a < s.len() ==> !is_whitespace(s[a]),
    decreases s.len(),
{
    if s.len() > 0 && is_whitespace(s.first()) {
        let rest = s.drop_first();
        let cut = lemma_trim_start_cut(rest);
        assert(rest.subrange(cut, rest.len() as int) =~= s.subrange(cut + 1, s.len() as int));
        assert forall|k: int| 0 <= k < cut + 1 implies is_whitespace(#[trigger] s[k]) by {
            if k > 0 {
                assert(s[k] == rest[k - 1]);
            }
        }
        cut + 1
    } else {
        assert(s.subrange(0, s.len() as int) =~= s);
        0
    }
}

/// Where `trim_end` cuts: everything from the cut on is whitespace, and the
/// character before the cut, if there is one, is not.
pub proof fn lemma_trim_end_cut(s: Seq<char>) -> (b: int)
    ensures
        0 <= b <= s.len(),
        trim_end(s) == s.subrange(0, b),
        forall|k: int| b <= k < s.len() ==> is_whitespace(#[trigger] s[k]),
        b > 0 ==> !is_whitespace(s[b - 1]),
    decreases s.len(),
{
    if s.len() > 0 && is_whitespace(s.last()) {
        let rest = s.drop_last();
        let cut = lemma_trim_end_cut(rest);
        assert(rest.subrange(0, cut) =~= s.subrange(0, cut));
        assert forall|k: int| cut <= k < s.len() implies is_whitespace(#[trigger] s[k]) by {
            if k < s.len() - 1 {
                assert(s[k] == rest[k]);
            }
        }
        cut
    } else {
        assert(s.subrange(0, s.len() as int) =~= s);
        s.len() as int
    }
}

/// Trimming removes whitespace from the two ends only: what is left is one
/// contiguous part of `s`, unchanged inside, with nothing but whitespace cut
/// off before and after it, and it neither starts nor ends with whitespace.
pub proof fn law_trimmed_is_core(s: Seq<char>)
    ensures
        exists|a: int, b: int| is_core(s, a, b) && trimmed(s) == s.subrange(a, b),
{
    let a = lemma_trim_start_cut(s);
    let middle = s.subrange(a, s.len() as int);
    let kept = lemma_trim_end_cut(middle);
    let b = a + kept;
    assert(middle.subrange(0, kept) =~= s.subrange(a, b));
    assert forall|k: int| b <= k < s.len() implies is_whitespace(#[trigger] s[k]) by {
        assert(s[k] == middle[k - a]);
    }
    if a < b {
        assert(s[b - 1] == middle[kept - 1]);
    }
    assert(is_core(s, a, b));
}

/// The pieces of a split hold no separator.
pub proof fn law_split_pieces_hold_no_separator(s: Seq<char>, sep: char)
    ensures
        split_on(s, sep).len() >= 1,
        forall|i: int, j: int|
            0 <= i < split_on(s, sep).len() && 0 <= j < split_on(s, sep)[i].len()
                ==> #[trigger] split_on(s, sep)[i][j] != sep,
    decreases s.len(),
{
    if s.len() > 0 {
        law_split_pieces_hold_no_separator(s.drop_last(), sep);
    }
}

/// Joining the pieces of a split with the separator gives the text back.
pub proof fn law_join_undoes_split(s: Seq<char>, sep: char)
    ensures
        join_with(split_on(s, sep), seq![sep]) == s,
    decreases s.len(),
{
    if s.len() == 0 {
        assert(join_with(split_on(s, sep), seq![sep]) =~= s);
    } else {
        let shorter = s.drop_last();
        let before = split_on(shorter, sep);
        law_join_undoes_split(shorter, sep);
        law_split_pieces_hold_no_separator(shorter, sep);
        let pieces = split_on(s, sep);
        if s.last() == sep {
            assert(pieces.drop_last() =~= before);
            assert(shorter + seq![sep] + Seq::<char>::empty() =~= s);
        } else if before.len() == 1 {
            assert(before[0].push(s.last()) =~= s);
        } else {
            assert(pieces.drop_last() =~= before.drop_last());
            assert(join_with(before.drop_last(), seq![sep]) + seq![sep] + before.last().push(
                s.last(),
            ) =~= (join_with(before.drop_last(), seq![sep]) + seq![sep] + before.last()).push(
                s.last(),
            ));
            assert(shorter.push(s.last()) =~= s);
        }
    }
}

/// Decides whether a character is whitespace.
pub fn char_is_whitespace(c: char) -> (b: bool)
    ensures
        b == is_whitespace(c),
{
    let n: u32 = c as u32;
    (0x09 <= n && n <= 0x0D) || n == 0x20 || n == 0x85 || n == 0xA0 || n == 0x1680 || (0x2000 <= n
        && n <= 0x200A) || n == 0x2028 || n == 0x2029 || n == 0x202F || n == 0x205F || n == 0x3000
}

/// Removes leading and trailing whitespace.
pub fn trim(s: &str) -> (r: &str)
    ensures
        r@ == trimmed(s@),
{
    let n: usize = s.unicode_len();
    let mut i: usize = 0;
    proof {
        assert(s@.subrange(0, n as int) =~= s@);
    }
    while i < n
        invariant
            i <= n,
            n == s@.len(),
            trim_start(s@) == trim_start(s@.subrange(i as int, n as int)),
        ensures
            i <= n,
            trim_start(s@) == s@.subrange(i as int, n as int),
        decreases n - i,
    {
        let c = s.get_char(i);
        let ghost rest = s@.subrange(i as int, n as int);
        if !char_is_whitespace(c) {
            proof {
                assert(rest.first() == c);
            }
            break ;
        }
        proof {
            assert(rest.first() == c);
            assert(rest.drop_first() =~= s@.subrange(i + 1, n as int));
        }
        i = i + 1;
    }
    let ghost mid = s@.subrange(i as int, n as int);
    let mut j: usize = n;
    while j > i
        invariant
            i <= j <= n,
            n == s@.len(),
            trim_end(mid) == trim_end(s@.subrange(i as int, j as int)),
        ensures
            i <= j <= n,
            trim_end(mid) == s@.subrange(i as int, j as int),
        decreases j,
    {
        let c = s.get_char(j - 1);
        let ghost head = s@.subrange(i as int, j as int);
        if !char_is_whitespace(c) {
            proof {
                assert(head.last() == c);
            }
            break ;
        }
        proof {
            assert(head.last() == c);
            assert(head.drop_last() =~= s@.subrange(i as int, j - 1));
        }
        j = j - 1;
    }
    s.substring_char(i, j)
}

/// Pushing a string onto a vector pushes its characters onto the deep view.
pub proof fn lemma_deep_view_push(before: Vec<String>, after: Vec<String>, last: String)
    requires
        after@ == before@.push(last),
    ensures
        after.deep_view() == before.deep_view().push(last@),
{
    assert(after.deep_view() =~= before.deep_view().push(last@));
}

/// Splits `s` at every occurrence of `sep`.
pub fn split(s: &str, sep: char) -> (pieces: Vec<String>)
    ensures
        pieces.deep_view() == split_on(s@, sep),
{
    let n: usize = s.unicode_len();
    let mut pieces: Vec<String> = Vec::new();
    let mut start: usize = 0;
    let mut i: usize = 0;
    proof {
        assert(s@.take(0) =~= Seq::<char>::empty());
        assert(s@.subrange(0, 0) =~= Seq::<char>::empty());
        assert(pieces.deep_view().push(Seq::<char>::empty()) =~= seq![Seq::<char>::empty()]);
    }
    while i < n
        invariant
            start <= i <= n,
            n == s@.len(),
            split_on(s@.take(i as int), sep) == pieces.deep_view().push(
                s@.subrange(start as int, i as int),
            ),
        decreases n - i,
    {
        let c = s.get_char(i);
        let ghost before = split_on(s@.take(i as int), sep);
        let ghost open_piece = s@.subrange(start as int, i as int);
        proof {
            let cur = s@.take(i + 1);
            assert(cur.drop_last() =~= s@.take(i as int));
            assert(cur.last() == c);
        }
        if c == sep {
            let piece = s.substring_char(start, i).to_owned();
            let ghost held = pieces;
            pieces.push(piece);
            proof {
                lemma_deep_view_push(held, pieces, piece);
                assert(s@.subrange(i + 1, i + 1) =~= Seq::<char>::empty());
            }
            start = i + 1;
        } else {
            proof {
                assert(before.drop_last() =~= pieces.deep_view());
                assert(before.last() == open_piece);
                assert(open_piece.push(c) =~= s@.subrange(start as int, i + 1));
            }
        }
        i = i + 1;
    }
    let piece = s.substring_char(start, n).to_owned();
    let ghost held = pieces;
    pieces.push(piece);
    proof {
        lemma_deep_view_push(held, pieces, piece);
        assert(s@.take(n as int) =~= s@);
    }
    pieces
}

/// Joins the parts with `sep` between each two neighbours.
pub fn join(parts: &Vec<String>, sep: &str) -> (joined: String)
    ensures
        joined@ == join_with(parts.deep_view(), sep@),
{
    let mut joined = String::new();
    let mut i: usize = 0;
    let ghost all = parts.deep_view();
    proof {
        assert(all.take(0) =~= Seq::<Seq<char>>::empty());
    }
    while i < parts.len()
        invariant
            i <= parts.len(),
            all == parts.deep_view(),
            joined@ == join_with(all.take(i as int), sep@),
        decreases parts.len() - i,
    {
        proof {
            let cur = all.take(i + 1);
            assert(cur.drop_last() =~= all.take(i as int));
            assert(cur.last() == parts@[i as int]@);
            if i == 0 {
                assert(cur[0] =~= Seq::<char>::empty() + parts@[0]@);
            }
        }
        if i > 0 {
            joined.append(sep);
        }
        joined.append(parts[i].as_str());
        i = i + 1;
    }
    proof {
        assert(all.take(parts.len() as int) =~= all);
    }
    joined
}

/// Concatenates the parts.
pub fn concat_strings(parts: &Vec<String>) -> (whole: String)
    ensures
        whole@ == concat(parts.deep_view()),
{
    let mut whole = String::new();
    let mut i: usize = 0;
    let ghost all = parts.deep_view();
    proof {
        assert(all.take(0) =~= Seq::<Seq<char>>::empty());
    }
    while i < parts.len()
        invariant
            i <= parts.len(),
            all == parts.deep_view(),
            whole@ == concat(all.take(i as int)),
        decreases parts.len() - i,
    {
        proof {
            let cur = all.take(i + 1);
            assert(cur.drop_last() =~= all.take(i as int));
            assert(cur.last() == parts@[i as int]@);
        }
        whole.append(parts[i].as_str());
        i = i + 1;
    }
    proof {
        assert(all.take(parts.len() as int) =~= all);
    }
    whole
}

} // verus!
