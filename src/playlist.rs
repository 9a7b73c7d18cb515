//! The playlist convention: a flat list of lines whose last line is the
//! end-of-list marker and whose second-to-last line names one segment.
use vstd::prelude::*;

use crate::error::PipelineError;
use crate::text::{chars_of, collect_range, push_char};

verus! {

/// Splits `s` at every `'\n'`; always at least one piece.
pub open spec fn pieces(s: Seq<char>) -> Seq<Seq<char>>
    decreases s.len(),
{
    if s.len() == 0 {
        seq![Seq::empty()]
    } else {
        let p = pieces(s.drop_last());
        if s.last() == '\n' {
            p.push(Seq::empty())
        } else {
            p.update(p.len() - 1, p.last().push(s.last()))
        }
    }
}

/// A line that was ended by `'\n'` loses a carriage return before it.
pub open spec fn strip_cr(l: Seq<char>) -> Seq<char> {
    if l.len() > 0 && l.last() == '\r' {
        l.drop_last()
    } else {
        l
    }
}

/// The lines of `s`: the pieces between line feeds, each ended one without
/// its `"\r"`; a final line feed ends the last line and opens no new one.
pub open spec fn lines_of(s: Seq<char>) -> Seq<Seq<char>> {
    let p = pieces(s);
    let ended = p.drop_last().map_values(|l: Seq<char>| strip_cr(l));
    if p.last().len() == 0 {
        ended
    } else {
        ended.push(p.last())
    }
}

pub open spec fn string_views(v: Seq<String>) -> Seq<Seq<char>> {
    v.map_values(|l: String| l@)
}

pub proof fn lemma_pieces_nonempty(s: Seq<char>)
    ensures
        pieces(s).len() >= 1,
    decreases s.len(),
{
    if s.len() > 0 {
        lemma_pieces_nonempty(s.drop_last());
    }
}

/// Splits a playlist body into its lines, as `str::lines` does.
pub fn split_lines(text: &str) -> (r: Vec<String>)
    ensures
        string_views(r@) == lines_of(text@),
{
    let c = chars_of(text);
    let n = c.len();
    let mut done: Vec<String> = Vec::new();
    let mut start: usize = 0;
    let mut i: usize = 0;
    proof {
        assert(c@.take(0) =~= Seq::<char>::empty());
        assert(c@.subrange(0, 0) =~= Seq::<char>::empty());
    }
    while i < n
        invariant
            n == c@.len(),
            c@ == text@,
            start <= i <= n,
            pieces(c@.take(i as int)).last() == c@.subrange(start as int, i as int),
            string_views(done@) == pieces(c@.take(i as int)).drop_last().map_values(
                |l: Seq<char>| strip_cr(l),
            ),
        decreases n - i,
    {
        let ghost before = c@.take(i as int);
        let ghost p = pieces(before);
        proof {
            lemma_pieces_nonempty(before);
            assert(c@.take(i + 1).drop_last() =~= before);
            assert(c@.take(i + 1).last() == c@[i as int]);
        }
        if c[i] == '\n' {
            let end: usize = if i > start && c[i - 1] == '\r' {
                i - 1
            } else {
                i
            };
            let line = collect_range(&c, start, end);
            proof {
                assert(strip_cr(c@.subrange(start as int, i as int)) =~= line@);
            }
            let ghost old_views = string_views(done@);
            done.push(line);
            start = i + 1;
            proof {
                let q = pieces(c@.take(i + 1));
                assert(q == p.push(Seq::empty()));
                assert(q.drop_last() =~= p);
                assert(string_views(done@) =~= old_views.push(line@));
                assert(p.map_values(|l: Seq<char>| strip_cr(l)) =~= p.drop_last().map_values(
                    |l: Seq<char>| strip_cr(l),
                ).push(strip_cr(p.last())));
                assert(string_views(done@) =~= q.drop_last().map_values(
                    |l: Seq<char>| strip_cr(l),
                ));
                assert(c@.subrange(start as int, i + 1) =~= Seq::<char>::empty());
            }
        } else {
            proof {
                let q = pieces(c@.take(i + 1));
                assert(q == p.update(p.len() - 1, p.last().push(c@[i as int])));
                assert(q.drop_last() =~= p.drop_last());
                assert(c@.subrange(start as int, i + 1) =~= c@.subrange(
                    start as int,
                    i as int,
                ).push(c@[i as int]));
            }
        }
        i = i + 1;
    }
    proof {
        assert(c@.take(n as int) =~= text@);
    }
    if start < n {
        let last = collect_range(&c, start, n);
        done.push(last);
        proof {
            let p = pieces(text@);
            assert(string_views(done@) =~= lines_of(text@));
        }
    } else {
        proof {
            assert(string_views(done@) =~= lines_of(text@));
        }
    }
    done
}

/// Finds the line that names a segment: the second-to-last line of the
/// playlist body.
pub fn get_link_from_m3u8(body: &str) -> (r: Result<String, PipelineError>)
    ensures
        lines_of(body@).len() < 2 <==> r is Err,
        r is Err ==> r == Err::<String, PipelineError>(PipelineError::ManifestFormat),
        r matches Ok(l) ==> l@ == lines_of(body@)[lines_of(body@).len() - 2],
{
    let lines = split_lines(body);
    let n = lines.len();
    if n < 2 {
        Err(PipelineError::ManifestFormat)
    } else {
        proof {
            assert(string_views(lines@)[n - 2] == lines@[n - 2]@);
        }
        Ok(lines[n - 2].clone())
    }
}

/// The number of segments of a playlist: all its lines but the last two.
/// A playlist that would name no segment is rejected.
pub fn get_segment_count(body: &str) -> (r: Result<usize, PipelineError>)
    ensures
        lines_of(body@).len() < 3 <==> r is Err,
        r is Err ==> r == Err::<usize, PipelineError>(PipelineError::ManifestFormat),
        r matches Ok(n) ==> n == lines_of(body@).len() - 2 && n >= 1,
{
    let lines = split_lines(body);
    let n = lines.len();
    if n < 3 {
        Err(PipelineError::ManifestFormat)
    } else {
        Ok(n - 2)
    }
}

/// The extension that marks a playlist file name.
pub open spec fn playlist_marker() -> Seq<char> {
    seq!['.', 'm', '3', 'u', '8']
}

/// `pat` occurs in `s` at position `i`.
pub open spec fn occurs_at(s: Seq<char>, pat: Seq<char>, i: int) -> bool {
    0 <= i && i + pat.len() <= s.len() && s.subrange(i, i + pat.len()) == pat
}

/// `i` is the first position at which `pat` occurs in `s`.
pub open spec fn first_occurrence(s: Seq<char>, pat: Seq<char>, i: int) -> bool {
    occurs_at(s, pat, i) && forall|j: int| 0 <= j < i ==> !occurs_at(s, pat, j)
}

fn matches_at(c: &Vec<char>, pat: &Vec<char>, i: usize) -> (r: bool)
    requires
        i + pat@.len() <= c@.len(),
    ensures
        r == occurs_at(c@, pat@, i as int),
{
    let m = pat.len();
    let cl = c.len();
    let mut k: usize = 0;
    while k < m
        invariant
            m == pat@.len(),
            cl == c@.len(),
            i + m <= c@.len(),
            k <= m,
            c@.subrange(i as int, i + k) == pat@.take(k as int),
        decreases m - k,
    {
        if c[i + k] != pat[k] {
            assert(c@.subrange(i as int, i + m)[k as int] != pat@[k as int]);
            return false;
        }
        k = k + 1;
        assert(c@.subrange(i as int, i + k) =~= pat@.take(k as int));
    }
    assert(pat@.take(m as int) =~= pat@);
    true
}

/// The base URL shared by all segments: everything of a segment URL before
/// the first playlist extension, followed by `'/'`. A URL without the
/// extension is malformed.
pub fn get_download_link(m3u8_link: &str) -> (r: Result<String, PipelineError>)
    ensures
        r is Err <==> !exists|i: int| occurs_at(m3u8_link@, playlist_marker(), i),
        r is Err ==> r == Err::<String, PipelineError>(PipelineError::ManifestFormat),
        r matches Ok(b) ==> exists|i: int|
            first_occurrence(m3u8_link@, playlist_marker(), i) && b@ == m3u8_link@.take(i).push(
                '/',
            ),
{
    let c = chars_of(m3u8_link);
    let pat = vec!['.', 'm', '3', 'u', '8'];
    assert(pat@ =~= playlist_marker());
    let n = c.len();
    if n < 5 {
        assert forall|i: int| !occurs_at(m3u8_link@, playlist_marker(), i) by {}
        return Err(PipelineError::ManifestFormat);
    }
    let mut i: usize = 0;
    while i <= n - 5
        invariant
            n == c@.len(),
            c@ == m3u8_link@,
            pat@ == playlist_marker(),
            n >= 5,
            i <= n - 4,
            forall|j: int| 0 <= j < i ==> !occurs_at(c@, pat@, j),
        decreases n - i,
    {
        if matches_at(&c, &pat, i) {
            let mut b = collect_range(&c, 0, i);
            push_char(&mut b, '/');
            assert(first_occurrence(c@, pat@, i as int));
            assert(c@.subrange(0, i as int) =~= c@.take(i as int));
            return Ok(b);
        }
        i = i + 1;
    }
    assert forall|j: int| !occurs_at(m3u8_link@, playlist_marker(), j) by {
        if 0 <= j && j + 5 <= n {
            assert(j < i);
        }
    }
    Err(PipelineError::ManifestFormat)
}

} // verus!
