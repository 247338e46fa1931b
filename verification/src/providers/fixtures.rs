//! Saved pages: which file a request is answered from, and what the URL of a
//! download that was found on them has to look like.

use crate::common::contract::ProviderId;
use crate::model;
use crate::model::Class;
use crate::strings::{
    contains, contains_char, ends_with, plus3, split_by, split_once, starts_with, strip_prefix,
};
use vstd::prelude::*;

verus! {

/// The saved page of APKCombo that answers a request.
pub open spec fn apkcombo_name(url: Seq<char>) -> Option<Seq<char>> {
    if model::holds(url, "/search?q="@) {
        Some("search"@)
    } else if model::finishes(url, "/old-versions"@) {
        Some("old-versions"@)
    } else if model::holds(url, "/download/phone-"@) {
        Some("download-page"@)
    } else if model::finishes(url, "/dl"@) {
        Some("variants"@)
    } else if model::holds(url, "/en/"@) {
        Some("redirect"@)
    } else if model::finishes(url, "/checkin"@) {
        Some("checkin"@)
    } else {
        None
    }
}

/// What stands between the first and the second `&s=`, or behind the only one.
pub open spec fn searched(url: Seq<char>) -> Option<Seq<char>> {
    match model::cut(url, "&s="@) {
        Some(c) => Some(
            match model::cut(c.1, "&s="@) {
                Some(d) => d.0,
                None => c.1,
            },
        ),
        None => None,
    }
}

/// The saved page of APKMirror that answers a request. A search for a package id
/// has a dot in it, one for a name does not.
pub open spec fn apkmirror_name(url: Seq<char>) -> Seq<char> {
    if model::holds(url, "post_type=app_release"@) {
        match searched(url) {
            Some(q) => if q.contains('.') {
                "search-pkg"@
            } else {
                "search"@
            },
            None => "search"@,
        }
    } else if model::holds(url, "/download/?key="@) {
        "download-starting"@
    } else if model::finishes(url, "-android-apk-download/"@) {
        "download-page"@
    } else if model::finishes(url, "-release/"@) {
        "version"@
    } else {
        "app"@
    }
}

/// The saved page of APKPure that answers a request.
pub open spec fn apkpure_name(url: Seq<char>) -> Seq<char> {
    if model::holds(url, "/search?q="@) {
        "search"@
    } else if model::finishes(url, "/versions"@) {
        "versions"@
    } else {
        "app"@
    }
}

/// The saved page of a site that answers a request.
pub open spec fn name_of(id: ProviderId, url: Seq<char>) -> Option<Seq<char>> {
    match id {
        ProviderId::Apkcombo => apkcombo_name(url),
        ProviderId::Apkmirror => Some(apkmirror_name(url)),
        ProviderId::Apkpure => Some(apkpure_name(url)),
    }
}

/// Whether a query for a package id, not for a name, is asked.
fn asks_for_package(url: &str) -> (r: bool)
    ensures
        r == (searched(url@) matches Some(q) && q.contains('.')),
{
    match split_once(url, "&s=") {
        Some(c) => match split_once(&c.1, "&s=") {
            Some(d) => contains_char(&d.0, '.'),
            None => contains_char(&c.1, '.'),
        },
        None => false,
    }
}

/// The saved page of a site that answers a request.
pub fn fixture_name(id: ProviderId, url: &str) -> (r: Option<&'static str>)
    ensures
        model::opt_str(r) == name_of(id, url@),
{
    match id {
        ProviderId::Apkcombo => if contains(url, "/search?q=") {
            Some("search")
        } else if ends_with(url, "/old-versions") {
            Some("old-versions")
        } else if contains(url, "/download/phone-") {
            Some("download-page")
        } else if ends_with(url, "/dl") {
            Some("variants")
        } else if contains(url, "/en/") {
            Some("redirect")
        } else if ends_with(url, "/checkin") {
            Some("checkin")
        } else {
            None
        },
        ProviderId::Apkmirror => Some(
            if contains(url, "post_type=app_release") {
                if asks_for_package(url) {
                    "search-pkg"
                } else {
                    "search"
                }
            } else if contains(url, "/download/?key=") {
                "download-starting"
            } else if ends_with(url, "-android-apk-download/") {
                "download-page"
            } else if ends_with(url, "-release/") {
                "version"
            } else {
                "app"
            },
        ),
        ProviderId::Apkpure => Some(
            if contains(url, "/search?q=") {
                "search"
            } else if ends_with(url, "/versions") {
                "versions"
            } else {
                "app"
            },
        ),
    }
}

/// The host of what follows the scheme.
pub open spec fn authority(rest: Seq<char>) -> Seq<char> {
    model::pieces(rest, Class::One('/'))[0]
}

/// What follows the host and the slash after it.
pub open spec fn below_host(rest: Seq<char>) -> Seq<char> {
    match model::cut(rest, "/"@) {
        Some(c) => c.1,
        None => Seq::empty(),
    }
}

/// What is wrong with the URL of a download, if anything is.
pub open spec fn url_fault(url: Seq<char>, app: Seq<char>) -> Option<Seq<char>> {
    match model::after_prefix(url, "https://"@) {
        None => Some(app + ": not absolute https: "@ + url),
        Some(rest) => if model::pieces(authority(rest), Class::One('.')).len() < 2 {
            Some(app + ": host looks wrong: "@ + authority(rest))
        } else if model::begins(below_host(rest), "/"@) {
            Some(app + ": double slash after host: "@ + url)
        } else if model::holds(rest, "https://"@) {
            Some(app + ": repeated scheme: "@ + url)
        } else {
            None
        },
    }
}

/// Whether `url` is an absolute `https://` URL with a plausible host; if not, what
/// is wrong with it.
pub fn assert_absolute(url: &str, app: &str) -> (r: Result<(), String>)
    ensures
        (match r {
            Ok(()) => None,
            Err(e) => Some(e@),
        }) == url_fault(url@, app@),
{
    match strip_prefix(url, "https://") {
        None => Err(plus3(app, ": not absolute https: ", url)),
        Some(rest) => {
            let segments = split_by(&rest, Class::One('/'));
            proof {
                crate::strings::lemma_pieces_len(rest@, Class::One('/'));
            }
            let host = &segments[0];
            assert(host@ == model::texts(segments@)[0]);
            let labels = split_by(host, Class::One('.'));
            assert(labels@.len() == model::texts(labels@).len());
            if labels.len() < 2 {
                return Err(plus3(app, ": host looks wrong: ", host));
            }
            let doubled = match split_once(&rest, "/") {
                Some(c) => starts_with(&c.1, "/"),
                None => {
                    proof {
                        reveal_strlit("/");
                    }
                    false
                },
            };
            if doubled {
                return Err(plus3(app, ": double slash after host: ", url));
            }
            if contains(&rest, "https://") {
                return Err(plus3(app, ": repeated scheme: ", url));
            }
            Ok(())
        },
    }
}

} // verus!
