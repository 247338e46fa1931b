//! URLs as text.

use crate::model;
use crate::strings::{plus3, replace_char, starts_with, strip_prefix, trim};
use vstd::prelude::*;

verus! {

/// `href` seen from `base`: as it is where it starts with `http://` or `https://`,
/// else behind one slash.
pub open spec fn seen_from(base: Seq<char>, href: Seq<char>) -> Seq<char> {
    if model::begins(href, "http://"@) || model::begins(href, "https://"@) {
        href
    } else {
        match model::after_prefix(href, "/"@) {
            Some(rest) => base + "/"@ + rest,
            None => base + "/"@ + href,
        }
    }
}

/// `href` seen from `base`.
pub fn abs_from(base: &str, href: &str) -> (r: String)
    ensures
        r@ == seen_from(base@, href@),
{
    if starts_with(href, "http://") || starts_with(href, "https://") {
        href.to_owned()
    } else {
        match strip_prefix(href, "/") {
            Some(rest) => plus3(base, "/", rest.as_str()),
            None => plus3(base, "/", href),
        }
    }
}

/// What is seen from a base that is absolute is absolute: it begins with a scheme.
pub proof fn lemma_absolute(base: Seq<char>, href: Seq<char>)
    requires
        model::begins(base, "https://"@),
    ensures
        model::begins(seen_from(base, href), "http://"@) || model::begins(
            seen_from(base, href),
            "https://"@,
        ),
{
    let n = "https://"@.len() as int;
    let r = seen_from(base, href);
    if !model::begins(href, "http://"@) && !model::begins(href, "https://"@) {
        assert(r.take(n) == base.take(n));
    }
}

/// A search term as it stands in a query string: with `+` for spaces.
pub open spec fn plussed(q: Seq<char>) -> Seq<char> {
    model::replaced(model::stripped(q), ' ', '+')
}

/// A search term as it stands in a query string: with `+` for spaces.
pub fn spaced(q: &str) -> (r: String)
    ensures
        r@ == plussed(q@),
{
    let t = trim(q);
    replace_char(t.as_str(), ' ', '+')
}

} // verus!
