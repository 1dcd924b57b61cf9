//! Whether the latest published release is newer than the running version,
//! by semantic versioning, and the line that says so.

use vstd::prelude::*;

use crate::text::owned;

verus! {

/// Whether `semver::Version::parse` reads a version from `s`.
pub uninterp spec fn version_parses(s: Seq<char>) -> bool;

/// Whether the version that `semver::Version::parse` reads from `a` comes no
/// later, in semver order, than the one it reads from `b`.
pub uninterp spec fn version_at_most(a: Seq<char>, b: Seq<char>) -> bool;

/// Calls `semver::Version::parse` on `s`; tells whether it gave a version.
#[verifier::external_body]
fn parses(s: &str) -> (r: bool)
    ensures
        r == version_parses(s@),
{
    semver::Version::parse(s).is_ok()
}

/// Compares, with `<=` of `semver::Version`, the versions that
/// `semver::Version::parse` reads from `a` and from `b`. The order is the one
/// `Ord` derives, a total order: a version is at most itself.
#[verifier::external_body]
fn at_most(a: &str, b: &str) -> (r: bool)
    requires
        version_parses(a@),
        version_parses(b@),
    ensures
        r == version_at_most(a@, b@),
        a@ == b@ ==> r,
{
    semver::Version::parse(a).unwrap() <= semver::Version::parse(b).unwrap()
}

/// `s` without the `v`s that it starts with.
pub open spec fn trim_v(s: Seq<char>) -> Seq<char>
    decreases s.len(),
{
    if s.len() > 0 && s[0] == 'v' {
        trim_v(s.drop_first())
    } else {
        s
    }
}

/// The version that a release tag names: the tag without its leading `v`s.
pub fn tag_version(tag: &str) -> (r: &str)
    ensures
        r@ == trim_v(tag@),
{
    let n = tag.unicode_len();
    let mut k: usize = 0;
    assert(tag@.skip(0) =~= tag@);
    while k < n && tag.get_char(k) == 'v'
        invariant
            n == tag@.len(),
            k <= n,
            trim_v(tag@) == trim_v(tag@.skip(k as int)),
        decreases n - k,
    {
        assert(tag@.skip(k as int).drop_first() =~= tag@.skip(k + 1));
        k = k + 1;
    }
    let r = tag.substring_char(k, n);
    assert(r@ =~= tag@.skip(k as int));
    r
}

/// The version compared with the running one: the tag's, when semver reads
/// it (`parsed`), else `0.0.0`.
pub open spec fn compared_of(tag: Seq<char>, parsed: bool) -> Seq<char> {
    if parsed {
        trim_v(tag)
    } else {
        "0.0.0"@
    }
}

/// The version compared with the running one, given whether semver reads the
/// tag's version.
pub fn compared_version(tag: &str, parsed: bool) -> (r: &str)
    ensures
        r@ == compared_of(tag@, parsed),
{
    if parsed {
        tag_version(tag)
    } else {
        "0.0.0"
    }
}

/// Whether the release tagged `tag` is newer than the running version
/// `current`: its version (`0.0.0` when semver cannot read the tag's) does
/// not come at or before `current`. `None` when semver reads no version from
/// `current`, or none from the version compared.
pub fn update_available(tag: &str, current: &str) -> (r: Option<bool>)
    ensures
        ({
            let v = compared_of(tag@, version_parses(trim_v(tag@)));
            &&& r is None <==> !version_parses(current@) || !version_parses(v)
            &&& r matches Some(b) ==> b == !version_at_most(v, current@)
            &&& version_parses(current@) && trim_v(tag@) == current@ ==> r == Some(false)
        }),
{
    if !parses(current) {
        return None;
    }
    let t = tag_version(tag);
    let v = compared_version(tag, parses(t));
    if !parses(v) {
        return None;
    }
    Some(!at_most(v, current))
}

/// The line that reports the latest release: that the version is up to
/// date, or which version was published and when.
pub open spec fn update_line(tag: Seq<char>, published: Seq<char>, newer: bool) -> Seq<char> {
    if newer {
        "There's a new version available: "@ + tag + " (Published: "@ + published + ")"@
    } else {
        "You're already up to date!"@
    }
}

/// The line that reports the latest release, tagged `tag` and published at
/// `published`.
pub fn update_message(tag: &str, published: &str, newer: bool) -> (r: String)
    ensures
        r@ == update_line(tag@, published@, newer),
{
    if newer {
        let mut out = owned("There's a new version available: ");
        out.append(tag);
        out.append(" (Published: ");
        out.append(published);
        out.append(")");
        out
    } else {
        owned("You're already up to date!")
    }
}

} // verus!
