//! Names that the pipeline derives from untrusted metadata: sanitized author
//! and title, and the resolver's API address for a video page.
use vstd::prelude::*;

use crate::error::PipelineError;
use crate::playlist::string_views;
use crate::text::{chars_of, collect_range, push_char};

verus! {

/// Characters that are removed from author names and titles before they
/// reach the filesystem.
pub open spec fn is_hostile(c: char) -> bool {
    c == '/' || c == '\\' || c == '[' || c == ']' || c == '?' || c == '\'' || c == '"' || c
        == ':' || c == '.'
}

/// `s` without its hostile characters, the others kept in order.
pub open spec fn strip_hostile(s: Seq<char>) -> Seq<char>
    decreases s.len(),
{
    if s.len() == 0 {
        Seq::empty()
    } else if is_hostile(s.last()) {
        strip_hostile(s.drop_last())
    } else {
        strip_hostile(s.drop_last()).push(s.last())
    }
}

pub open spec fn underscore(c: char) -> char {
    if c == ' ' {
        '_'
    } else {
        c
    }
}

/// A sanitized title: hostile characters removed, spaces turned into `'_'`.
pub open spec fn title_form(s: Seq<char>) -> Seq<char> {
    strip_hostile(s).map_values(|c: char| underscore(c))
}

fn is_hostile_char(c: char) -> (r: bool)
    ensures
        r == is_hostile(c),
{
    c == '/' || c == '\\' || c == '[' || c == ']' || c == '?' || c == '\'' || c == '"' || c
        == ':' || c == '.'
}

fn sanitize(s: &str, spaces: bool) -> (r: String)
    ensures
        spaces ==> r@ == title_form(s@),
        !spaces ==> r@ == strip_hostile(s@),
{
    let c = chars_of(s);
    let n = c.len();
    let mut r = String::new();
    let mut i: usize = 0;
    while i < n
        invariant
            n == c@.len(),
            c@ == s@,
            i <= n,
            spaces ==> r@ == title_form(c@.take(i as int)),
            !spaces ==> r@ == strip_hostile(c@.take(i as int)),
        decreases n - i,
    {
        let x = c[i];
        proof {
            assert(c@.take(i + 1).drop_last() =~= c@.take(i as int));
        }
        if !is_hostile_char(x) {
            let y = if spaces && x == ' ' {
                '_'
            } else {
                x
            };
            push_char(&mut r, y);
            proof {
                let t = strip_hostile(c@.take(i as int));
                assert(t.push(x).map_values(|c: char| underscore(c)) =~= t.map_values(
                    |c: char| underscore(c),
                ).push(underscore(x)));
            }
        }
        i = i + 1;
    }
    proof {
        assert(c@.take(n as int) =~= s@);
    }
    r
}

/// An author name made safe as a directory name.
pub fn sanitize_author(name: &str) -> (r: String)
    ensures
        r@ == strip_hostile(name@),
{
    sanitize(name, false)
}

/// A title made safe as a file name.
pub fn sanitize_title(title: &str) -> (r: String)
    ensures
        r@ == title_form(title@),
{
    sanitize(title, true)
}

/// A sanitized name holds no path separator.
pub proof fn lemma_sanitized_has_no_separator(s: Seq<char>)
    ensures
        !strip_hostile(s).contains('/'),
        !strip_hostile(s).contains('\\'),
        !title_form(s).contains('/'),
        !title_form(s).contains('\\'),
    decreases s.len(),
{
    if s.len() > 0 {
        lemma_sanitized_has_no_separator(s.drop_last());
    }
    let t = strip_hostile(s);
    assert forall|k: int| 0 <= k < t.len() implies !is_hostile(#[trigger] t[k]) by {
        lemma_stripped_clean(s, k);
    }
    assert(!t.contains('/'));
    assert(!t.contains('\\'));
    let u = title_form(s);
    assert forall|k: int| 0 <= k < u.len() implies u[k] != '/' && u[k] != '\\' by {
        assert(u[k] == underscore(t[k]));
    }
}

proof fn lemma_stripped_clean(s: Seq<char>, k: int)
    requires
        0 <= k < strip_hostile(s).len(),
    ensures
        !is_hostile(strip_hostile(s)[k]),
    decreases s.len(),
{
    if s.len() > 0 {
        let p = strip_hostile(s.drop_last());
        if k < p.len() {
            lemma_stripped_clean(s.drop_last(), k);
        }
    }
}

/// Splits `s` at every `sep`, keeping empty pieces; always at least one piece.
pub open spec fn split_on(s: Seq<char>, sep: char) -> Seq<Seq<char>>
    decreases s.len(),
{
    if s.len() == 0 {
        seq![Seq::empty()]
    } else {
        let p = split_on(s.drop_last(), sep);
        if s.last() == sep {
            p.push(Seq::empty())
        } else {
            p.update(p.len() - 1, p.last().push(s.last()))
        }
    }
}

proof fn lemma_split_on_nonempty(s: Seq<char>, sep: char)
    ensures
        split_on(s, sep).len() >= 1,
    decreases s.len(),
{
    if s.len() > 0 {
        lemma_split_on_nonempty(s.drop_last(), sep);
    }
}

/// The pieces of `text` between occurrences of `sep`, as `str::split` gives them.
pub fn split_pieces(text: &str, sep: char) -> (r: Vec<String>)
    ensures
        string_views(r@) == split_on(text@, sep),
{
    let c = chars_of(text);
    let n = c.len();
    let mut done: Vec<String> = Vec::new();
    let mut start: usize = 0;
    let mut i: usize = 0;
    proof {
        assert(c@.take(0) =~= Seq::<char>::empty());
        assert(c@.subrange(0, 0) =~= Seq::<char>::empty());
        assert(string_views(done@) =~= split_on(c@.take(0), sep).drop_last());
    }
    while i < n
        invariant
            n == c@.len(),
            c@ == text@,
            start <= i <= n,
            split_on(c@.take(i as int), sep).len() >= 1,
            split_on(c@.take(i as int), sep).last() == c@.subrange(start as int, i as int),
            string_views(done@) == split_on(c@.take(i as int), sep).drop_last(),
        decreases n - i,
    {
        let ghost p = split_on(c@.take(i as int), sep);
        proof {
            assert(c@.take(i + 1).drop_last() =~= c@.take(i as int));
        }
        if c[i] == sep {
            let piece = collect_range(&c, start, i);
            let ghost old_views = string_views(done@);
            done.push(piece);
            start = i + 1;
            proof {
                let q = split_on(c@.take(i + 1), sep);
                assert(q.drop_last() =~= p);
                assert(string_views(done@) =~= old_views.push(piece@));
                assert(p =~= p.drop_last().push(p.last()));
                assert(c@.subrange(start as int, i + 1) =~= Seq::<char>::empty());
            }
        } else {
            proof {
                let q = split_on(c@.take(i + 1), sep);
                assert(q.drop_last() =~= p.drop_last());
                assert(c@.subrange(start as int, i + 1) =~= c@.subrange(
                    start as int,
                    i as int,
                ).push(c@[i as int]));
            }
        }
        i = i + 1;
    }
    let last = collect_range(&c, start, n);
    let ghost old_views = string_views(done@);
    done.push(last);
    proof {
        assert(c@.take(n as int) =~= text@);
        let p = split_on(text@, sep);
        assert(string_views(done@) =~= old_views.push(last@));
        assert(p =~= p.drop_last().push(p.last()));
    }
    done
}

/// The video identifier of a page URL: its second-to-last `'/'`-separated piece.
pub open spec fn video_id_of(page_url: Seq<char>) -> Seq<char> {
    let p = split_on(page_url, '/');
    p[p.len() - 2]
}

pub open spec fn api_prefix() -> Seq<char> {
    "https://rutube.ru/api/play/options/"@
}

pub open spec fn api_suffix() -> Seq<char> {
    "/?no_404=true&referer=https%3A%2F%2Frutube.ru"@
}

/// The resolver's address for the video behind `page_url`; a URL with no
/// `'/'` names no video.
pub fn api_url(page_url: &str) -> (r: Result<String, PipelineError>)
    ensures
        r is Err <==> split_on(page_url@, '/').len() < 2,
        r is Err ==> r == Err::<String, PipelineError>(PipelineError::Resolution),
        r matches Ok(u) ==> u@ == api_prefix() + video_id_of(page_url@) + api_suffix(),
{
    let pieces = split_pieces(page_url, '/');
    let n = pieces.len();
    if n < 2 {
        return Err(PipelineError::Resolution);
    }
    let mut u = "https://rutube.ru/api/play/options/".to_owned();
    proof {
        assert(string_views(pieces@)[n - 2] == pieces@[n - 2]@);
    }
    u.append(pieces[n - 2].as_str());
    u.append("/?no_404=true&referer=https%3A%2F%2Frutube.ru");
    Ok(u)
}

/// What the resolver reports of a video, made ready for use: author and
/// title sanitized.
pub struct VideoInfo {
    pub author: String,
    pub title: String,
    pub playlist_url: String,
}

impl VideoInfo {
    /// Builds the record from the resolver's fields; a response that lacks
    /// any of them is a resolution failure.
    pub fn from_fields(author: Option<&str>, title: Option<&str>, playlist_url: Option<&str>) -> (r:
        Result<VideoInfo, PipelineError>)
        ensures
            r is Err <==> author is None || title is None || playlist_url is None,
            r is Err ==> r == Err::<VideoInfo, PipelineError>(PipelineError::Resolution),
            r matches Ok(v) ==> {
                &&& v.author@ == strip_hostile(author->0@)
                &&& v.title@ == title_form(title->0@)
                &&& v.playlist_url@ == playlist_url->0@
            },
    {
        match (author, title, playlist_url) {
            (Some(a), Some(t), Some(u)) => Ok(
                VideoInfo { author: sanitize_author(a), title: sanitize_title(t), playlist_url: u.to_owned() },
            ),
            _ => Err(PipelineError::Resolution),
        }
    }
}

} // verus!
