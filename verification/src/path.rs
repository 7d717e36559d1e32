use vstd::prelude::*;

verus! {

/// The segments of `s[start..]` when the segment under way begins at `start` and the
/// characters before `i` have been read: the maximal runs without a dot, in order,
/// empty runs left out.
pub open spec fn segments_from(s: Seq<char>, start: int, i: int) -> Seq<Seq<char>>
    decreases s.len() - i,
{
    if i < 0 || start < 0 || start > i {
        Seq::empty()
    } else if i >= s.len() {
        if start < s.len() {
            seq![s.subrange(start, s.len() as int)]
        } else {
            Seq::empty()
        }
    } else if s[i] == '.' {
        if start < i {
            seq![s.subrange(start, i)] + segments_from(s, i + 1, i + 1)
        } else {
            segments_from(s, i + 1, i + 1)
        }
    } else {
        segments_from(s, start, i + 1)
    }
}

/// The field names of a dot-separated path. Empty segments do not count, so the empty
/// path, `"."` and `".."` all name the root.
pub open spec fn segments(s: Seq<char>) -> Seq<Seq<char>> {
    segments_from(s, 0, 0)
}

/// The views of a list of strings.
pub open spec fn names(path: Seq<String>) -> Seq<Seq<char>> {
    path.map_values(|s: String| s@)
}

/// Reading on in `front + back` from inside `back` is reading `back`.
proof fn lemma_segments_shift(front: Seq<char>, back: Seq<char>, start: int, i: int)
    requires
        0 <= start <= i <= back.len(),
    ensures
        segments_from(front + back, front.len() + start, front.len() + i) == segments_from(
            back,
            start,
            i,
        ),
    decreases back.len() - i,
{
    let whole = front + back;
    let n = front.len() as int;
    if i >= back.len() {
        if start < back.len() {
            assert(whole.subrange(n + start, whole.len() as int) =~= back.subrange(
                start,
                back.len() as int,
            ));
        }
    } else {
        assert(whole[n + i] == back[i]);
        if back[i] == '.' {
            if start < i {
                assert(whole.subrange(n + start, n + i) =~= back.subrange(start, i));
            }
            lemma_segments_shift(front, back, i + 1, i + 1);
        } else {
            lemma_segments_shift(front, back, start, i + 1);
        }
    }
}

/// Reading `a`, a dot and `b` gives what is left of `a`, then the segments of `b`.
proof fn lemma_segments_join_from(a: Seq<char>, b: Seq<char>, start: int, i: int)
    requires
        0 <= start <= i <= a.len(),
    ensures
        segments_from(a + seq!['.'] + b, start, i) == segments_from(a, start, i) + segments(b),
    decreases a.len() - i,
{
    let whole = a + seq!['.'] + b;
    if i >= a.len() {
        assert(whole[i] == '.');
        lemma_segments_shift(a + seq!['.'], b, 0, 0);
        if start < i {
            assert(whole.subrange(start, i) =~= a.subrange(start, a.len() as int));
        } else {
            assert(segments_from(a, start, i) + segments(b) =~= segments(b));
        }
    } else {
        assert(whole[i] == a[i]);
        if a[i] == '.' {
            lemma_segments_join_from(a, b, i + 1, i + 1);
            if start < i {
                assert(whole.subrange(start, i) =~= a.subrange(start, i));
                assert(seq![a.subrange(start, i)] + (segments_from(a, i + 1, i + 1) + segments(b))
                    =~= (seq![a.subrange(start, i)] + segments_from(a, i + 1, i + 1)) + segments(
                    b,
                ));
            }
        } else {
            lemma_segments_join_from(a, b, start, i + 1);
        }
    }
}

/// Appending a key to a path appends the key's segments to the path's: a handle whose
/// path was extended reaches what the fields named by the key reach from the old target.
pub proof fn lemma_segments_join(a: Seq<char>, b: Seq<char>)
    ensures
        segments(a + seq!['.'] + b) == segments(a) + segments(b),
{
    lemma_segments_join_from(a, b, 0, 0);
}

/// Splits a dot-separated path into its field names.
pub fn split_path(path: &str) -> (r: Vec<String>)
    ensures
        names(r@) == segments(path@),
{
    let n = path.unicode_len();
    let mut out: Vec<String> = Vec::new();
    let mut start: usize = 0;
    let mut i: usize = 0;
    assert(names(out@) =~= Seq::<Seq<char>>::empty());
    while i < n
        invariant
            n == path@.len(),
            start <= i <= n,
            segments(path@) == names(out@) + segments_from(path@, start as int, i as int),
        decreases n - i,
    {
        let c = path.get_char(i);
        if c == '.' {
            if start < i {
                let piece = String::from_str(path.substring_char(start, i));
                let ghost before = names(out@);
                out.push(piece);
                assert(names(out@) =~= before + seq![path@.subrange(start as int, i as int)]);
                assert(before + (seq![path@.subrange(start as int, i as int)] + segments_from(
                    path@,
                    i + 1,
                    i + 1,
                )) =~= (before + seq![path@.subrange(start as int, i as int)]) + segments_from(
                    path@,
                    i + 1,
                    i + 1,
                ));
            }
            start = i + 1;
        }
        i += 1;
    }
    if start < n {
        let piece = String::from_str(path.substring_char(start, n));
        let ghost before = names(out@);
        out.push(piece);
        assert(names(out@) =~= before + seq![path@.subrange(start as int, n as int)]);
    } else {
        assert(names(out@) + Seq::<Seq<char>>::empty() =~= names(out@));
    }
    out
}

/// The path that names the field `key` of what `path` names.
pub fn join_path(path: &String, key: &str) -> (r: String)
    ensures
        r@ == path@ + seq!['.'] + key@,
{
    proof {
        reveal_strlit(".");
    }
    let dotted = path.clone().concat(".");
    assert(dotted@ =~= path@ + seq!['.']);
    dotted.concat(key)
}

} // verus!
