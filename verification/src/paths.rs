//! Destination resolution: where a repository file lands on disk.

use vstd::prelude::*;
use crate::text::string_of;

verus! {

/// The repository's directory name under the cache root: the repo id
/// with every `/` replaced by `--`.
pub open spec fn repo_dir_spec(repo: Seq<char>) -> Seq<char>
    decreases repo.len(),
{
    if repo.len() == 0 {
        Seq::empty()
    } else {
        repo_dir_spec(repo.drop_last()) + (if repo.last() == '/' {
            seq!['-', '-']
        } else {
            seq![repo.last()]
        })
    }
}

proof fn lemma_repo_dir_prefix(repo: Seq<char>, i: int)
    requires
        0 <= i < repo.len(),
    ensures
        repo_dir_spec(repo.subrange(0, i + 1)) == repo_dir_spec(repo.subrange(0, i)) + (if repo[i]
            == '/' {
            seq!['-', '-']
        } else {
            seq![repo[i]]
        }),
{
    let p = repo.subrange(0, i + 1);
    assert(p.drop_last() =~= repo.subrange(0, i));
    assert(p.last() == repo[i]);
}

/// The repo id with slashes replaced by `--`, as the cache lays
/// repositories out.
pub fn repo_dir_component(repo_chars: &Vec<char>) -> (r: Vec<char>)
    ensures
        r@ == repo_dir_spec(repo_chars@),
{
    let mut out: Vec<char> = Vec::new();
    let mut i: usize = 0;
    while i < repo_chars.len()
        invariant
            i <= repo_chars@.len(),
            out@ == repo_dir_spec(repo_chars@.subrange(0, i as int)),
        decreases repo_chars@.len() - i,
    {
        proof {
            lemma_repo_dir_prefix(repo_chars@, i as int);
        }
        let c = repo_chars[i];
        if c == '/' {
            out.push('-');
            out.push('-');
        } else {
            out.push(c);
        }
        proof {
            assert(out@ =~= repo_dir_spec(repo_chars@.subrange(0, i + 1)));
        }
        i += 1;
    }
    proof {
        assert(repo_chars@.subrange(0, repo_chars@.len() as int) =~= repo_chars@);
    }
    out
}

/// Where a file lands: under `local_dir` when one is given; else
/// under the cache, keyed by repository and revision; else the bare
/// filename in the working directory.
pub open spec fn destination_spec(
    local_dir: Option<&str>,
    cache_dir: Option<&str>,
    repo_id: Seq<char>,
    revision: Seq<char>,
    filename: Seq<char>,
) -> Seq<char> {
    match local_dir {
        Some(d) => d@ + "/"@ + filename,
        None => match cache_dir {
            Some(c) => c@ + "/"@ + repo_dir_spec(repo_id) + "/"@ + revision + "/"@ + filename,
            None => filename,
        },
    }
}

/// Resolve the destination path of one file. The result is a function
/// of the five inputs alone, so resolution is deterministic and
/// stable across calls.
pub fn determine_destination(
    local_dir: Option<&str>,
    cache_dir: Option<&str>,
    repo_id: &str,
    revision: &str,
    filename: &str,
) -> (r: String)
    ensures
        r@ == destination_spec(local_dir, cache_dir, repo_id@, revision@, filename@),
{
    match local_dir {
        Some(d) => {
            let mut s = String::from_str(d);
            s.append("/");
            s.append(filename);
            s
        },
        None => match cache_dir {
            Some(c) => {
                let repo_chars = crate::text::chars_of(repo_id);
                let repo_component = repo_dir_component(&repo_chars);
                let repo_str = string_of(&repo_component);
                let mut s = String::from_str(c);
                s.append("/");
                s.append(repo_str.as_str());
                s.append("/");
                s.append(revision);
                s.append("/");
                s.append(filename);
                s
            },
            None => String::from_str(filename),
        },
    }
}

} // verus!
