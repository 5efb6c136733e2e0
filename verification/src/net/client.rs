//! The client's side of a library session.

use vstd::prelude::*;
use vstd::string::*;

use crate::path::{join, joined};

verus! {

/// The file that a server's track is cached in.
pub open spec fn cache_file(dir: Seq<char>, fingerprint: Seq<char>, remote_id: Seq<char>) -> Seq<
    char,
> {
    joined(joined(dir, fingerprint), remote_id)
}

pub fn cache_path(cache_dir: &str, fingerprint: &str, remote_id: &str) -> (path: String)
    ensures
        path@ == cache_file(cache_dir@, fingerprint@, remote_id@),
{
    let server = join(cache_dir, fingerprint);
    join(&server, remote_id)
}

/// Whether a text is one component of a path.
pub open spec fn plain_component(name: Seq<char>) -> bool {
    name.len() > 0 && forall|i: int| 0 <= i < name.len() ==> name[i] != '/'
}

/// Tracks of different servers, and different tracks of one server, are cached in
/// different files.
pub proof fn law_cache_files_are_distinct(
    dir: Seq<char>,
    fingerprint: Seq<char>,
    remote_id: Seq<char>,
    other_fingerprint: Seq<char>,
    other_id: Seq<char>,
)
    requires
        plain_component(fingerprint),
        plain_component(remote_id),
        plain_component(other_fingerprint),
        plain_component(other_id),
        cache_file(dir, fingerprint, remote_id) == cache_file(dir, other_fingerprint, other_id),
    ensures
        fingerprint == other_fingerprint,
        remote_id == other_id,
{
    let base = if dir.len() == 0 || dir.last() == '/' {
        dir
    } else {
        dir.push('/')
    };
    let a = cache_file(dir, fingerprint, remote_id);
    let n = base.len() as int;
    assert(fingerprint[0] != '/' && other_fingerprint[0] != '/');
    assert(remote_id[0] != '/' && other_id[0] != '/');
    assert(joined(dir, fingerprint) =~= base + fingerprint);
    assert(joined(dir, other_fingerprint) =~= base + other_fingerprint);
    assert((base + fingerprint).last() == fingerprint[fingerprint.len() - 1]);
    assert((base + other_fingerprint).last() == other_fingerprint[other_fingerprint.len() - 1]);
    let left = base + fingerprint;
    let right = base + other_fingerprint;
    assert(a =~= left.push('/') + remote_id);
    assert(a =~= right.push('/') + other_id);
    let i = fingerprint.len() as int;
    let j = other_fingerprint.len() as int;
    assert(a[n + i] == '/') by {
        assert((left.push('/') + remote_id)[n + i] == '/');
    }
    assert(a[n + j] == '/') by {
        assert((right.push('/') + other_id)[n + j] == '/');
    }
    if i < j {
        assert((right.push('/') + other_id)[n + i] == other_fingerprint[i]);
        assert(false);
    }
    if j < i {
        assert((left.push('/') + remote_id)[n + j] == fingerprint[j]);
        assert(false);
    }
    assert forall|k: int| 0 <= k < i implies fingerprint[k] == other_fingerprint[k] by {
        assert((left.push('/') + remote_id)[n + k] == fingerprint[k]);
        assert((right.push('/') + other_id)[n + k] == other_fingerprint[k]);
    }
    assert(fingerprint =~= other_fingerprint);
    assert(a.len() == n + i + 1 + remote_id.len());
    assert(a.len() == n + j + 1 + other_id.len());
    assert forall|k: int| 0 <= k < remote_id.len() implies remote_id[k] == other_id[k] by {
        assert((left.push('/') + remote_id)[n + i + 1 + k] == remote_id[k]);
        assert((right.push('/') + other_id)[n + i + 1 + k] == other_id[k]);
    }
    assert(remote_id =~= other_id);
}

/// Whether the file in the cache, where there is one, is the whole track.
pub fn cache_is_complete(cached_len: Option<u64>, file_size: u64) -> (complete: bool)
    ensures
        complete == (cached_len == Some(file_size)),
{
    match cached_len {
        Some(len) => len == file_size,
        None => false,
    }
}

} // verus!
