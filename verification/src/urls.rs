//! Building the URLs that the monitor probes.
use vstd::prelude::*;
use crate::text::{
    chars_of, drop_trailing, drop_white_space, skip_prefixes, skip_white_space, starts_with_spec,
    strip_prefixes_spec, trim_end_char_spec, trim_spec, is_white_space, trim_start_spec,
};

verus! {

/// The characters `https://`.
pub open spec fn https_scheme() -> Seq<char> {
    seq!['h', 't', 't', 'p', 's', ':', '/', '/']
}

/// The characters `http://`.
pub open spec fn http_scheme() -> Seq<char> {
    seq!['h', 't', 't', 'p', ':', '/', '/']
}

/// `base` without trailing slashes, then `path`, with exactly the slash that
/// `path` brings or one added in front of it.
pub open spec fn join_url_spec(base: Seq<char>, path: Seq<char>) -> Seq<char> {
    trim_end_char_spec(base, '/') + if starts_with_spec(path, seq!['/']) {
        path
    } else {
        seq!['/'] + path
    }
}

/// The host part of a domain entry: trimmed, without trailing slashes and
/// without any leading `https://` and then `http://` prefixes.
pub open spec fn domain_host_spec(domain: Seq<char>) -> Seq<char> {
    strip_prefixes_spec(
        strip_prefixes_spec(trim_end_char_spec(trim_spec(domain), '/'), https_scheme()),
        http_scheme(),
    )
}

/// The base URL of a site served on `domain`.
pub open spec fn domain_to_base_url_spec(domain: Seq<char>) -> Seq<char> {
    https_scheme() + domain_host_spec(domain)
}

/// The characters of `https://`, checked against the literal.
pub(crate) fn https_chars() -> (v: Vec<char>)
    ensures
        v@ == https_scheme(),
{
    let v = chars_of("https://");
    proof {
        reveal_strlit("https://");
    }
    assert(v@ =~= https_scheme());
    v
}

/// The characters of `http://`, checked against the literal.
pub(crate) fn http_chars() -> (v: Vec<char>)
    ensures
        v@ == http_scheme(),
{
    let v = chars_of("http://");
    proof {
        reveal_strlit("http://");
    }
    assert(v@ =~= http_scheme());
    v
}

/// Joins a base URL and a path with a single slash between them.
pub fn join_url(base_url: &str, path: &str) -> (url: String)
    ensures
        url@ == join_url_spec(base_url@, path@),
{
    let b = chars_of(base_url);
    let end = drop_trailing(&b, 0, b.len(), '/');
    assert(b@.subrange(0, b.len() as int) =~= b@);
    let mut url = String::from_str(base_url.substring_char(0, end));
    let p = chars_of(path);
    let leading_slash = p.len() > 0 && p[0] == '/';
    proof {
        reveal_strlit("/");
        assert(leading_slash == starts_with_spec(path@, seq!['/'])) by {
            if p.len() > 0 {
                assert(path@.take(1) =~= seq![path@[0]]);
                if path@.take(1) == seq!['/'] {
                    assert(path@.take(1)[0] == '/');
                }
            }
        }
    }
    if !leading_slash {
        url.append("/");
        assert("/"@ =~= seq!['/']);
    }
    url.append(path);
    assert(url@ =~= join_url_spec(base_url@, path@));
    url
}

/// The `https://` base URL of a site served on a Railway domain.
pub fn domain_to_base_url(domain: &str) -> (url: String)
    ensures
        url@ == domain_to_base_url_spec(domain@),
        starts_with_spec(url@, https_scheme()),
        is_bare_domain(domain@) ==> url@ == https_scheme() + domain@,
{
    proof {
        lemma_base_url_is_https(domain@);
        if is_bare_domain(domain@) {
            lemma_base_url_keeps_bare_domain(domain@);
        }
    }
    let v = chars_of(domain);
    assert(v@.subrange(0, v.len() as int) =~= v@);
    let start = skip_white_space(&v, 0, v.len());
    let end = drop_white_space(&v, start, v.len());
    let end = drop_trailing(&v, start, end, '/');
    let https = https_chars();
    let http = http_chars();
    let start = skip_prefixes(&v, start, end, &https);
    let start = skip_prefixes(&v, start, end, &http);
    let host = domain.substring_char(start, end);
    let url = String::from_str("https://").concat(host);
    proof {
        reveal_strlit("https://");
        assert("https://"@ =~= https_scheme());
    }
    url
}

/// Trailing slashes on the base URL make no difference to a joined URL.
pub proof fn lemma_join_ignores_trailing_slash(base: Seq<char>, path: Seq<char>)
    ensures
        join_url_spec(base.push('/'), path) == join_url_spec(base, path),
{
    assert(base.push('/').drop_last() =~= base);
}

/// A path is joined with exactly one slash: a path without a leading slash
/// is joined as if it had one.
pub proof fn lemma_join_adds_missing_slash(base: Seq<char>, path: Seq<char>)
    requires
        !starts_with_spec(path, seq!['/']),
    ensures
        join_url_spec(base, seq!['/'] + path) == join_url_spec(base, path),
{
    assert((seq!['/'] + path).take(1) =~= seq!['/']);
}

/// A base URL without trailing slash and a path without leading slash are
/// joined with one slash between them.
pub proof fn lemma_join_plain(base: Seq<char>, path: Seq<char>)
    requires
        base.len() == 0 || base.last() != '/',
        !starts_with_spec(path, seq!['/']),
    ensures
        join_url_spec(base, path) == base + seq!['/'] + path,
{
}

/// A text that starts and ends with a character other than white space is
/// its own trimmed form.
proof fn lemma_trim_keeps(s: Seq<char>)
    requires
        s.len() > 0,
        !is_white_space(s[0]),
        !is_white_space(s.last()),
    ensures
        trim_spec(s) == s,
{
    assert(trim_start_spec(s) == s);
}

/// A domain written with its `https://` scheme has the same base URL as the
/// bare domain (for a domain with no white space at either end and no
/// trailing slash).
pub proof fn lemma_base_url_ignores_https_scheme(domain: Seq<char>)
    requires
        domain.len() > 0,
        !is_white_space(domain[0]),
        !is_white_space(domain.last()),
        domain.last() != '/',
    ensures
        domain_to_base_url_spec(https_scheme() + domain) == domain_to_base_url_spec(domain),
{
    let full = https_scheme() + domain;
    assert(full[0] == 'h');
    assert(full.last() == domain.last());
    lemma_trim_keeps(full);
    lemma_trim_keeps(domain);
    assert(full.take(8) =~= https_scheme());
    assert(full.skip(8) =~= domain);
}

/// Whether `domain` is a bare host: no white space at either end, no
/// trailing slash and no `https://` or `http://` scheme in front.
pub open spec fn is_bare_domain(domain: Seq<char>) -> bool {
    &&& domain.len() > 0 ==> !is_white_space(domain[0]) && !is_white_space(domain.last())
        && domain.last() != '/'
    &&& !starts_with_spec(domain, https_scheme())
    &&& !starts_with_spec(domain, http_scheme())
}

/// A bare domain is kept as it is: its base URL is `https://` followed by
/// the domain itself.
pub proof fn lemma_base_url_keeps_bare_domain(domain: Seq<char>)
    requires
        is_bare_domain(domain),
    ensures
        domain_to_base_url_spec(domain) == https_scheme() + domain,
{
    if domain.len() > 0 {
        lemma_trim_keeps(domain);
    } else {
        assert(trim_start_spec(domain) == domain);
    }
}

/// Every base URL starts with `https://`.
pub proof fn lemma_base_url_is_https(domain: Seq<char>)
    ensures
        starts_with_spec(domain_to_base_url_spec(domain), https_scheme()),
{
    assert(domain_to_base_url_spec(domain).take(8) =~= https_scheme());
}

} // verus!
