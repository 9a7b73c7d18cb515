//! The names that one download job uses: segment URLs, files in the job's
//! own scratch directory, the deliverable path and the transcoder's
//! arguments.
use vstd::prelude::*;

use crate::playlist::string_views;
use crate::text::{decimal, lemma_decimal_digits, lemma_decimal_injective, push_char, push_decimal};

verus! {

/// The file name of segment `index` on the source platform.
pub open spec fn segment_name(index: nat) -> Seq<char> {
    "segment-"@ + decimal(index) + "-v1-a1.ts"@
}

/// The scratch directory of job `job`: `"seg-<job>"`.
pub open spec fn scratch_dir_text(job: nat) -> Seq<char> {
    seq!['s', 'e', 'g', '-'] + decimal(job)
}

/// The path of `name` inside the scratch directory of job `job`.
pub open spec fn in_scratch(job: nat, name: Seq<char>) -> Seq<char> {
    scratch_dir_text(job) + seq!['/'] + name
}

/// Where the deliverable goes: `"<author>/<title>.mp4"`.
pub open spec fn deliverable_text(author: Seq<char>, title: Seq<char>) -> Seq<char> {
    author + seq!['/'] + title + ".mp4"@
}

/// The URL of segment `index`: the base URL followed by the segment's file name.
pub fn segment_url(base: &str, index: usize) -> (r: String)
    ensures
        r@ == base@ + segment_name(index as nat),
{
    let mut r = base.to_owned();
    r.append("segment-");
    push_decimal(&mut r, index);
    r.append("-v1-a1.ts");
    assert(r@ =~= base@ + segment_name(index as nat));
    r
}

/// The scratch directory of job `job`.
pub fn scratch_dir(job: usize) -> (r: String)
    ensures
        r@ == scratch_dir_text(job as nat),
{
    let mut r = String::new();
    push_char(&mut r, 's');
    push_char(&mut r, 'e');
    push_char(&mut r, 'g');
    push_char(&mut r, '-');
    push_decimal(&mut r, job);
    assert(r@ =~= scratch_dir_text(job as nat));
    r
}

/// Where job `job` keeps segment `index` until the reassembly.
pub fn segment_file(job: usize, index: usize) -> (r: String)
    ensures
        r@ == in_scratch(job as nat, segment_name(index as nat)),
{
    let mut r = scratch_dir(job);
    push_char(&mut r, '/');
    r.append("segment-");
    push_decimal(&mut r, index);
    r.append("-v1-a1.ts");
    assert(r@ =~= in_scratch(job as nat, segment_name(index as nat)));
    r
}

/// Where job `job` writes the concatenated stream of the video `title`.
pub fn merged_file(job: usize, title: &str) -> (r: String)
    ensures
        r@ == in_scratch(job as nat, title@ + ".ts"@),
{
    let mut r = scratch_dir(job);
    push_char(&mut r, '/');
    r.append(title);
    r.append(".ts");
    assert(r@ =~= in_scratch(job as nat, title@ + ".ts"@));
    r
}

/// The deliverable path `"<author>/<title>.mp4"`.
pub fn deliverable_path(author: &str, title: &str) -> (r: String)
    ensures
        r@ == deliverable_text(author@, title@),
{
    let mut r = author.to_owned();
    push_char(&mut r, '/');
    r.append(title);
    r.append(".mp4");
    r
}

/// How the transcoder is run for one job.
pub struct TranscodePlan {
    /// The per-author directory that must exist before the run.
    pub output_dir: String,
    /// The concatenated stream.
    pub input: String,
    /// The deliverable.
    pub output: String,
    /// The transcoder's arguments: a stream copy from `input` to `output`.
    pub args: Vec<String>,
}

/// The transcode step of job `job` for a sanitized author and title.
pub fn plan_transcode(job: usize, author: &str, title: &str) -> (r: TranscodePlan)
    ensures
        r.output_dir@ == author@,
        r.input@ == in_scratch(job as nat, title@ + ".ts"@),
        r.output@ == deliverable_text(author@, title@),
        string_views(r.args@) == seq!["-i"@, r.input@, "-c"@, "copy"@, r.output@],
{
    let input = merged_file(job, title);
    let output = deliverable_path(author, title);
    let mut args: Vec<String> = Vec::new();
    args.push("-i".to_owned());
    args.push(input.clone());
    args.push("-c".to_owned());
    args.push("copy".to_owned());
    args.push(output.clone());
    assert(string_views(args@) =~= seq!["-i"@, input@, "-c"@, "copy"@, output@]);
    TranscodePlan { output_dir: author.to_owned(), input, output, args }
}

proof fn lemma_scratch_dir_has_no_separator(job: nat, k: int)
    requires
        0 <= k < scratch_dir_text(job).len(),
    ensures
        scratch_dir_text(job)[k] != '/',
{
    let d = scratch_dir_text(job);
    if k >= 4 {
        assert(d[k] == decimal(job)[k - 4]);
        lemma_decimal_digits(job, d[k]);
    }
}

/// Jobs with distinct identifiers share no scratch file: whatever the names,
/// a path inside the scratch directory of one job is never a path inside the
/// scratch directory of the other.
pub proof fn lemma_jobs_isolated(a: nat, b: nat, x: Seq<char>, y: Seq<char>)
    requires
        a != b,
    ensures
        in_scratch(a, x) != in_scratch(b, y),
{
    let da = scratch_dir_text(a);
    let db = scratch_dir_text(b);
    let pa = in_scratch(a, x);
    let pb = in_scratch(b, y);
    if pa == pb {
        assert(pa[da.len() as int] == '/');
        assert(pb[db.len() as int] == '/');
        if da.len() < db.len() {
            assert(pb[da.len() as int] == db[da.len() as int]);
            lemma_scratch_dir_has_no_separator(b, da.len() as int);
        } else if db.len() < da.len() {
            assert(pa[db.len() as int] == da[db.len() as int]);
            lemma_scratch_dir_has_no_separator(a, db.len() as int);
        } else {
            assert(da =~= pa.subrange(0, da.len() as int));
            assert(db =~= pb.subrange(0, db.len() as int));
            assert(decimal(a) =~= da.subrange(4, da.len() as int));
            assert(decimal(b) =~= db.subrange(4, db.len() as int));
            lemma_decimal_injective(a, b);
        }
    }
}

/// Corollary for the files a job writes: no segment file or concatenated
/// stream of one job is a segment file or concatenated stream of another.
pub proof fn lemma_job_files_disjoint(a: nat, b: nat, i: nat, j: nat, ta: Seq<char>, tb: Seq<char>)
    requires
        a != b,
    ensures
        in_scratch(a, segment_name(i)) != in_scratch(b, segment_name(j)),
        in_scratch(a, ta + ".ts"@) != in_scratch(b, tb + ".ts"@),
        in_scratch(a, segment_name(i)) != in_scratch(b, tb + ".ts"@),
{
    lemma_jobs_isolated(a, b, segment_name(i), segment_name(j));
    lemma_jobs_isolated(a, b, ta + ".ts"@, tb + ".ts"@);
    lemma_jobs_isolated(a, b, segment_name(i), tb + ".ts"@);
}

} // verus!
