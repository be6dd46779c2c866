//! The repository locator: owner and repository name parsed out of a source
//! host URL. The network client that talks to the source host lives in the
//! surrounding application; the parsing here is what decides whether a URL is
//! usable at all.

use vstd::prelude::*;
use crate::errors::WmtError;
use crate::text::{find_sub, spec_find, spec_split, split_str};

verus! {

/// The marker that identifies a source-host URL.
pub open spec fn spec_source_host_marker() -> Seq<char> {
    "github.com"@
}

/// The non-empty strings of `ss`, in order.
pub open spec fn spec_non_empty(ss: Seq<Seq<char>>) -> Seq<Seq<char>>
    decreases ss.len(),
{
    if ss.len() == 0 {
        Seq::empty()
    } else {
        (if ss[0].len() > 0 {
            seq![ss[0]]
        } else {
            Seq::empty()
        }) + spec_non_empty(ss.drop_first())
    }
}

proof fn lemma_non_empty_snoc(ss: Seq<Seq<char>>, x: Seq<char>)
    ensures
        spec_non_empty(ss.push(x)) == spec_non_empty(ss) + (if x.len() > 0 {
            seq![x]
        } else {
            Seq::<Seq<char>>::empty()
        }),
    decreases ss.len(),
{
    let tail: Seq<Seq<char>> = if x.len() > 0 {
        seq![x]
    } else {
        Seq::empty()
    };
    if ss.len() == 0 {
        assert(ss.push(x)[0] == x);
        assert(ss.push(x).drop_first() =~= ss);
        assert(spec_non_empty(ss) =~= Seq::<Seq<char>>::empty());
        assert(spec_non_empty(ss.push(x)) =~= spec_non_empty(ss) + tail);
    } else {
        assert(ss.push(x).drop_first() =~= ss.drop_first().push(x));
        assert(ss.push(x)[0] == ss[0]);
        lemma_non_empty_snoc(ss.drop_first(), x);
        let head: Seq<Seq<char>> = if ss[0].len() > 0 {
            seq![ss[0]]
        } else {
            Seq::empty()
        };
        assert(head + (spec_non_empty(ss.drop_first()) + tail) =~= (head + spec_non_empty(
            ss.drop_first(),
        )) + tail);
        assert(spec_non_empty(ss.push(x)) =~= spec_non_empty(ss) + tail);
    }
}

/// The non-empty path segments after the first occurrence of the source-host
/// marker.
pub open spec fn spec_host_path_segments(url: Seq<char>) -> Seq<Seq<char>> {
    let m = spec_source_host_marker();
    let i = spec_find(url, m);
    spec_non_empty(spec_split(url.skip(i + m.len()), seq!['/']))
}

/// Owner and repository parsed from a URL: the first two non-empty path
/// segments after the source-host marker, or nothing when the marker is
/// absent or fewer than two such segments follow it.
pub open spec fn spec_repo_location(url: Seq<char>) -> Option<(Seq<char>, Seq<char>)> {
    let m = spec_source_host_marker();
    if spec_find(url, m) == -1 {
        None
    } else {
        let segs = spec_host_path_segments(url);
        if segs.len() < 2 {
            None
        } else {
            Some((segs[0], segs[1]))
        }
    }
}

/// A handle on one repository of the source host: the URL it was made from
/// and the owner and repository name parsed out of it.
#[derive(Debug)]
pub struct GithubService {
    pub url: String,
    pub owner: String,
    pub repo: String,
}

impl GithubService {
    /// Parses owner and repository out of `url`; `InvalidRepositoryUrl` when
    /// the URL does not contain the source-host marker or yields fewer than
    /// two non-empty path segments after it.
    pub fn new(url: String) -> (r: Result<GithubService, WmtError>)
        ensures
            match r {
                Ok(g) => spec_repo_location(url@) == Some((g.owner@, g.repo@)) && g.url@ == url@,
                Err(e) => spec_repo_location(url@) is None && e
                    == WmtError::InvalidRepositoryUrl,
            },
    {
        let marker = "github.com";
        proof {
            reveal_strlit("github.com");
            reveal_strlit("/");
            assert("/"@ =~= seq!['/']);
        }
        let i = match find_sub(url.as_str(), marker) {
            Some(i) => i,
            None => {
                return Err(WmtError::InvalidRepositoryUrl);
            },
        };
        let n = url.as_str().unicode_len();
        let mlen = marker.unicode_len();
        let tail = url.as_str().substring_char(i + mlen, n);
        let parts = split_str(tail, "/");
        let mut segs: Vec<String> = Vec::new();
        let mut k: usize = 0;
        let pn = parts.len();
        proof {
            assert(parts.deep_view().take(0) =~= Seq::<Seq<char>>::empty());
            assert(spec_non_empty(parts.deep_view().take(0)) =~= Seq::<Seq<char>>::empty());
            assert(segs.deep_view() =~= spec_non_empty(parts.deep_view().take(0)));
        }
        while k < pn
            invariant
                pn == parts.len(),
                0 <= k <= pn,
                segs.deep_view() == spec_non_empty(parts.deep_view().take(k as int)),
            decreases pn - k,
        {
            proof {
                assert(parts.deep_view()[k as int] == parts@[k as int]@);
                assert(parts.deep_view().take(k as int + 1) =~= parts.deep_view().take(
                    k as int,
                ).push(parts.deep_view()[k as int]));
                lemma_non_empty_snoc(parts.deep_view().take(k as int), parts.deep_view()[k as int]);
            }
            if parts[k].as_str().unicode_len() > 0 {
                let item = parts[k].clone();
                let ghost segs0 = segs;
                segs.push(item);
                proof {
                    crate::text::lemma_deep_view_push(segs0, segs, item);
                    assert(segs.deep_view() =~= spec_non_empty(
                        parts.deep_view().take(k as int + 1),
                    ));
                }
            } else {
                proof {
                    assert(segs.deep_view() =~= spec_non_empty(
                        parts.deep_view().take(k as int + 1),
                    ));
                }
            }
            k = k + 1;
        }
        proof {
            assert(parts.deep_view().take(pn as int) =~= parts.deep_view());
            assert(tail@ == url@.skip(i + spec_source_host_marker().len()));
            assert(segs.deep_view() == spec_host_path_segments(url@));
        }
        if segs.len() < 2 {
            return Err(WmtError::InvalidRepositoryUrl);
        }
        let owner = segs[0].clone();
        let repo = segs[1].clone();
        Ok(GithubService { url, owner, repo })
    }
}

} // verus!
