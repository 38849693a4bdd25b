//! Deciding whether a published release is an update to install.
//!
//! The caller fetches the latest release description from GitHub and
//! downloads the installer; this module compares versions and picks the
//! installer.

use vstd::prelude::*;
use crate::text::{chars_of, ends_with, ends_with_seq, string_from_chars};
use crate::utils::{first_where, lemma_first_where_extend};

verus! {

broadcast use vstd::string::group_string_axioms;

/// The latest release as published.
pub struct Release {
    pub tag_name: String,
    pub body: Option<String>,
    pub assets: Vec<Asset>,
}

/// A file attached to a release.
pub struct Asset {
    pub name: String,
    pub browser_download_url: String,
}

/// An update to offer.
#[derive(Clone, Debug, PartialEq)]
pub struct UpdateInfo {
    pub latest_version: String,
    pub download_url: String,
    pub release_notes: Option<String>,
}

/// `s` without its leading `c` characters.
pub open spec fn trim_start(s: Seq<char>, c: char) -> Seq<char>
    decreases s.len(),
{
    if s.len() > 0 && s[0] == c {
        trim_start(s.drop_first(), c)
    } else {
        s
    }
}

/// Index predicate: asset `i` is a Windows installer (`.msi`).
pub open spec fn is_installer(assets: Seq<Asset>) -> spec_fn(int) -> bool {
    |i: int| ends_with_seq(assets[i].name@, ".msi"@)
}

/// The version a release tag names: the tag without its leading `v`s.
pub open spec fn version_of_tag(tag: Seq<char>) -> Seq<char> {
    trim_start(tag, 'v')
}

/// Leading characters `c` of `s` from index `from` on.
proof fn lemma_trim_start_skip(s: Seq<char>, c: char, from: int)
    requires
        0 <= from <= s.len(),
        forall|j: int| 0 <= j < from ==> s[j] == c,
    ensures
        trim_start(s, c) == trim_start(s.skip(from), c),
    decreases from,
{
    if from > 0 {
        assert(s.drop_first().skip(from - 1) =~= s.skip(from));
        lemma_trim_start_skip(s.drop_first(), c, from - 1);
    } else {
        assert(s.skip(0) =~= s);
    }
}

fn clone_opt_string(o: &Option<String>) -> (r: Option<String>)
    ensures
        r == *o,
{
    match o {
        Some(s) => Some(s.clone()),
        None => None,
    }
}

/// The update a release offers over `current_version`: when the release's
/// version (its tag without leading `v`s) differs from the current one and
/// the release has an `.msi` installer, the version, the download URL of
/// the first installer and the release notes; otherwise nothing.
pub fn update_from_release(release: &Release, current_version: &str) -> (r: Option<UpdateInfo>)
    ensures
        ({
            let latest = version_of_tag(release.tag_name@);
            let found = first_where(release.assets@.len() as int, is_installer(release.assets@));
            match r {
                Some(info) => latest != current_version@ && found is Some
                    && info.latest_version@ == latest
                    && info.download_url == release.assets@[found->0].browser_download_url
                    && info.release_notes == release.body,
                None => latest == current_version@ || found is None,
            }
        }),
{
    let tag = chars_of(release.tag_name.as_str());
    let mut start: usize = 0;
    while start < tag.len() && tag[start] == 'v'
        invariant
            start <= tag@.len(),
            forall|j: int| 0 <= j < start ==> tag@[j] == 'v',
        decreases tag.len() - start,
    {
        start = start + 1;
    }
    proof {
        lemma_trim_start_skip(tag@, 'v', start as int);
        let rest = tag@.skip(start as int);
        assert(rest.len() == 0 || rest[0] != 'v');
    }
    let latest = string_from_chars(&tag, start, tag.len());
    assert(latest@ =~= tag@.skip(start as int));
    let current = String::from_str(current_version);
    if latest == current {
        return None;
    }
    assert(latest@ == version_of_tag(release.tag_name@));
    let msi = chars_of(".msi");
    let ghost p = is_installer(release.assets@);
    let mut i: usize = 0;
    while i < release.assets.len()
        invariant
            i <= release.assets@.len(),
            msi@ == ".msi"@,
            latest@ == version_of_tag(release.tag_name@),
            latest@ != current_version@,
            p == is_installer(release.assets@),
            first_where(i as int, p) is None,
        decreases release.assets.len() - i,
    {
        let name = chars_of(release.assets[i].name.as_str());
        if ends_with(&name, &msi) {
            proof {
                assert(p(i as int));
                assert(first_where(i + 1, p) == Some(i as int));
                lemma_first_where_extend(i + 1, release.assets@.len() as int, p);
            }
            return Some(
                UpdateInfo {
                    latest_version: latest,
                    download_url: release.assets[i].browser_download_url.clone(),
                    release_notes: clone_opt_string(&release.body),
                },
            );
        }
        proof {
            assert(!p(i as int));
        }
        i = i + 1;
    }
    None
}

} // verus!
